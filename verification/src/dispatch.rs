use vstd::prelude::*;

use crate::cli::{Command, Weight};
use crate::error::Error;
use crate::repo::{
    date_ok, has_name, index_of_name, spec_added_item, spec_completed_item, spec_edited_item,
    spec_list, Item, Repo,
};
use crate::time::{now_seconds, ts_storable};

verus! {

/// What a dispatched command reports back: the confirmation data the tool
/// prints, or the tasks a listing produced.
#[derive(Debug)]
pub enum Reply {
    Added {
        name: String,
        description: Option<String>,
        weight: Option<Weight>,
        days_to_start: Option<u32>,
        days_to_complete: Option<u32>,
    },
    Removed {
        name: String,
    },
    Updated {
        name: String,
        new_name: Option<String>,
        description: Option<String>,
        weight: Option<Weight>,
        days_to_start: Option<u32>,
        days_to_complete: Option<u32>,
    },
    Completed {
        name: String,
    },
    Listing {
        items: Vec<Item>,
        weight: Option<Weight>,
        completed: bool,
        sort_by_deadline: bool,
        sort_by_weight: bool,
    },
}

/// The command-to-mutation mapping: how one dispatched command relates the
/// store before the call, the store after it, and the result. Each command
/// maps to exactly one repository operation; the reply echoes the command.
pub open spec fn dispatch_rel(
    pre: Repo,
    cmd: Command,
    now: i64,
    post: Repo,
    r: Result<Reply, Error>,
) -> bool {
    match cmd {
        Command::Add { name, days_to_start, days_to_complete, weight, description } => {
            let bad_date = !ts_storable(now as int) || !date_ok(now, days_to_start) || !date_ok(
                now,
                days_to_complete,
            );
            let dup = has_name(pre@, name@);
            if bad_date {
                (r matches Err(Error::DateParse(_))) && post == pre
            } else if dup {
                (r matches Err(Error::Database(_))) && post == pre
            } else {
                &&& (r matches Ok(rep) && rep == (Reply::Added {
                    name,
                    description,
                    weight,
                    days_to_start,
                    days_to_complete,
                }))
                &&& post@ == pre@.push(
                    spec_added_item(
                        pre.next_id,
                        name,
                        description,
                        weight,
                        days_to_start,
                        days_to_complete,
                        now,
                    ),
                )
                &&& post.next_id == pre.next_id + 1
            }
        },
        Command::Remove { name } => {
            if has_name(pre@, name@) {
                &&& (r matches Ok(rep) && rep == (Reply::Removed { name }))
                &&& post@ == pre@.remove(index_of_name(pre@, name@))
                &&& post.next_id == pre.next_id
            } else {
                (r matches Err(Error::ItemNotFound(n)) && n@ == name@) && post == pre
            }
        },
        Command::Edit { name, new_name, description, weight, days_to_start, days_to_complete } => {
            let bad_date = !date_ok(now, days_to_start) || !date_ok(now, days_to_complete);
            let no_op = new_name is None && description is None && weight is None
                && days_to_start is None && days_to_complete is None;
            let found = has_name(pre@, name@);
            let idx = index_of_name(pre@, name@);
            let collision = found && match new_name {
                Some(nn) => has_name(pre@, nn@) && pre@[idx].name@ != nn@,
                None => false,
            };
            let echoed = Reply::Updated {
                name,
                new_name,
                description,
                weight,
                days_to_start,
                days_to_complete,
            };
            if bad_date {
                (r matches Err(Error::DateParse(_))) && post == pre
            } else if no_op {
                (r matches Ok(rep) && rep == echoed) && post == pre
            } else if !found {
                (r matches Err(Error::ItemNotFound(n)) && n@ == name@) && post == pre
            } else if collision {
                (r matches Err(Error::Database(_))) && post == pre
            } else {
                &&& (r matches Ok(rep) && rep == echoed)
                &&& post@ == pre@.update(
                    idx,
                    spec_edited_item(
                        pre@[idx],
                        new_name,
                        description,
                        weight,
                        days_to_start,
                        days_to_complete,
                        now,
                    ),
                )
                &&& post.next_id == pre.next_id
            }
        },
        Command::Complete { name } => {
            let idx = index_of_name(pre@, name@);
            let active = has_name(pre@, name@) && !pre@[idx].completed;
            if !active {
                (r matches Err(Error::ItemNotFound(n)) && n@ == name@) && post == pre
            } else if !ts_storable(now as int) {
                (r matches Err(Error::DateParse(_))) && post == pre
            } else {
                &&& (r matches Ok(rep) && rep == (Reply::Completed { name }))
                &&& post@ == pre@.update(idx, spec_completed_item(pre@[idx], now))
                &&& post.next_id == pre.next_id
            }
        },
        Command::List { weight, completed, sort_by_deadline, sort_by_weight } => {
            &&& post == pre
            &&& (r matches Ok(rep) && rep matches Reply::Listing {
                items,
                weight: w2,
                completed: c2,
                sort_by_deadline: d2,
                sort_by_weight: s2,
            } && items@ == spec_list(pre@, weight, completed, sort_by_deadline, sort_by_weight)
                && w2 == weight && c2 == completed && d2 == sort_by_deadline && s2
                == sort_by_weight)
        },
    }
}

/// Clones an optional string, keeping its value.
fn clone_opt_string(o: &Option<String>) -> (r: Option<String>)
    ensures
        r == *o,
{
    match o {
        Some(s) => Some(s.clone()),
        None => None,
    }
}

/// Maps one command to its repository operation at an explicit time, and
/// shapes the confirmation. The store changes exactly as `dispatch_rel` says.
pub fn execute_command_at(repo: &mut Repo, cmd: Command, now: i64) -> (r: Result<Reply, Error>)
    requires
        old(repo).wf(),
        old(repo).next_id < i64::MAX,
    ensures
        final(repo).wf(),
        dispatch_rel(*old(repo), cmd, now, *final(repo), r),
{
    match cmd {
        Command::Add { name, days_to_start, days_to_complete, weight, description } => {
            let name2 = name.clone();
            let description2 = clone_opt_string(&description);
            match repo.add(name, description, weight, days_to_start, days_to_complete, now) {
                Ok(()) => Ok(
                    Reply::Added {
                        name: name2,
                        description: description2,
                        weight,
                        days_to_start,
                        days_to_complete,
                    },
                ),
                Err(e) => Err(e),
            }
        },
        Command::Remove { name } => {
            match repo.remove(name.as_str()) {
                Ok(()) => Ok(Reply::Removed { name }),
                Err(e) => Err(e),
            }
        },
        Command::Edit { name, new_name, description, weight, days_to_start, days_to_complete } => {
            let name2 = name.clone();
            let new_name2 = clone_opt_string(&new_name);
            let description2 = clone_opt_string(&description);
            match repo.edit(
                name,
                new_name,
                description,
                weight,
                days_to_start,
                days_to_complete,
                now,
            ) {
                Ok(()) => Ok(
                    Reply::Updated {
                        name: name2,
                        new_name: new_name2,
                        description: description2,
                        weight,
                        days_to_start,
                        days_to_complete,
                    },
                ),
                Err(e) => Err(e),
            }
        },
        Command::Complete { name } => {
            match repo.complete(name.as_str(), now) {
                Ok(()) => Ok(Reply::Completed { name }),
                Err(e) => Err(e),
            }
        },
        Command::List { weight, completed, sort_by_deadline, sort_by_weight } => {
            match repo.list(weight, completed, sort_by_deadline, sort_by_weight) {
                Ok(items) => Ok(
                    Reply::Listing { items, weight, completed, sort_by_deadline, sort_by_weight },
                ),
                Err(e) => Err(e),
            }
        },
    }
}

/// Maps one command to its repository operation, reading the clock here: the
/// store and the result are as `dispatch_rel` says for whatever instant the
/// clock gave.
pub fn execute_command(repo: &mut Repo, cmd: Command) -> (r: Result<Reply, Error>)
    requires
        old(repo).wf(),
        old(repo).next_id < i64::MAX,
    ensures
        final(repo).wf(),
        exists|now: i64| dispatch_rel(*old(repo), cmd, now, *final(repo), r),
{
    let now = now_seconds();
    let r = execute_command_at(repo, cmd, now);
    proof {
        assert(dispatch_rel(*old(repo), cmd, now, *repo, r));
    }
    r
}

} // verus!
