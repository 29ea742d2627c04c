use vstd::prelude::*;

use crate::cli::{spec_weight_of_token, Weight};
use crate::error::Error;
use crate::time::{
    format_local, format_rfc3339, parse_rfc3339, rfc3339_of, rfc3339_parsed, ts_storable, TS_MAX,
    TS_MIN,
};

verus! {

/// One task: the sole entity the store holds. Timestamps are seconds since
/// the Unix epoch; the textual form only exists at the storage boundary.
#[derive(Debug)]
pub struct Item {
    pub id: i64,
    pub name: String,
    pub description: Option<String>,
    pub weight: Weight,
    pub start_date: Option<i64>,
    pub deadline: Option<i64>,
    pub completed: bool,
    pub created_at: i64,
    pub completed_at: Option<i64>,
}

impl Item {
    /// A task is well formed when its completion stamp exists exactly when it
    /// is completed, and every timestamp fits the storable range.
    pub open spec fn wf(self) -> bool {
        &&& (self.completed <==> self.completed_at is Some)
        &&& ts_storable(self.created_at as int)
        &&& (self.start_date matches Some(t) ==> ts_storable(t as int))
        &&& (self.deadline matches Some(t) ==> ts_storable(t as int))
        &&& (self.completed_at matches Some(t) ==> ts_storable(t as int))
    }

    /// Renders an optional date for humans; an absent date reads `Not set`.
    pub fn format_date(date: Option<i64>) -> (r: String)
        requires
            date matches Some(t) ==> ts_storable(t as int),
        ensures
            date is None ==> r@ == "Not set"@,
    {
        match date {
            Some(t) => format_local(t),
            None => "Not set".to_owned(),
        }
    }
}

impl Clone for Item {
    fn clone(&self) -> (r: Self)
        ensures
            r == *self,
    {
        Item {
            id: self.id,
            name: self.name.clone(),
            description: match &self.description {
                Some(d) => Some(d.clone()),
                None => None,
            },
            weight: self.weight,
            start_date: self.start_date,
            deadline: self.deadline,
            completed: self.completed,
            created_at: self.created_at,
            completed_at: self.completed_at,
        }
    }
}

/// Whether some task in the sequence carries this name.
pub open spec fn has_name(s: Seq<Item>, name: Seq<char>) -> bool {
    exists|i: int| 0 <= i < s.len() && s[i].name@ == name
}

/// The index of the task carrying this name (well defined when names are
/// unique and the name occurs).
pub open spec fn index_of_name(s: Seq<Item>, name: Seq<char>) -> int {
    choose|i: int| 0 <= i < s.len() && s[i].name@ == name
}

/// The absolute date "now plus this many days", in seconds.
pub open spec fn date_of(now: i64, days: Option<u32>) -> Option<i64> {
    match days {
        Some(d) => Some((now + d * 86400) as i64),
        None => None,
    }
}

/// Whether the date "now plus this many days" can be computed and stored.
pub open spec fn date_ok(now: i64, days: Option<u32>) -> bool {
    match days {
        Some(d) => ts_storable(now as int) && now + d * 86400 <= TS_MAX,
        None => true,
    }
}

/// The task that a successful `add` appends to the store.
pub open spec fn spec_added_item(
    id: i64,
    name: String,
    description: Option<String>,
    weight: Option<Weight>,
    days_to_start: Option<u32>,
    days_to_complete: Option<u32>,
    now: i64,
) -> Item {
    Item {
        id,
        name,
        description,
        weight: match weight {
            Some(w) => w,
            None => Weight::Medium,
        },
        start_date: date_of(now, days_to_start),
        deadline: date_of(now, days_to_complete),
        completed: false,
        created_at: now,
        completed_at: None,
    }
}

/// The in-memory task store: every operation keeps names and ids unique and
/// each task well formed.
pub struct Repo {
    pub tasks: Vec<Item>,
    pub next_id: i64,
}

impl View for Repo {
    type V = Seq<Item>;

    open spec fn view(&self) -> Seq<Item> {
        self.tasks@
    }
}

impl Repo {
    /// Names unique, ids unique and below the next id, every task well formed.
    pub open spec fn wf(self) -> bool {
        &&& forall|i: int| 0 <= i < self.tasks@.len() ==> (#[trigger] self.tasks@[i]).wf()
        &&& forall|i: int, j: int|
            #![trigger self.tasks@[i].name@, self.tasks@[j].name@]
            0 <= i < j < self.tasks@.len() ==> self.tasks@[i].name@ != self.tasks@[j].name@
        &&& forall|i: int, j: int|
            #![trigger self.tasks@[i].id, self.tasks@[j].id]
            0 <= i < j < self.tasks@.len() ==> self.tasks@[i].id != self.tasks@[j].id
        &&& forall|i: int| 0 <= i < self.tasks@.len() ==> (#[trigger] self.tasks@[i]).id < self.next_id
        &&& 1 <= self.next_id
    }

    /// An empty store.
    pub fn new() -> (r: Repo)
        ensures
            r.wf(),
            r@ == Seq::<Item>::empty(),
            r.next_id == 1,
    {
        Repo { tasks: Vec::new(), next_id: 1 }
    }

    /// The index of the task with this name, if one exists.
    fn index_of(&self, name: &String) -> (r: Option<usize>)
        ensures
            match r {
                Some(i) => i < self.tasks@.len() && self.tasks@[i as int].name@ == name@,
                None => !has_name(self.tasks@, name@),
            },
    {
        let mut i: usize = 0;
        while i < self.tasks.len()
            invariant
                i <= self.tasks@.len(),
                forall|j: int| 0 <= j < i ==> self.tasks@[j].name@ != name@,
            decreases self.tasks@.len() - i,
        {
            if self.tasks[i].name == *name {
                return Some(i);
            }
            i += 1;
        }
        None
    }

    /// Adds a new task. The date fields are computed from `now` once, here;
    /// an absent day count leaves the date absent; the weight defaults to
    /// Medium. Fails with a database error when the name is taken, and with a
    /// date error when a computed date cannot be stored; either failure
    /// leaves the store unchanged.
    pub fn add(
        &mut self,
        name: String,
        description: Option<String>,
        weight: Option<Weight>,
        days_to_start: Option<u32>,
        days_to_complete: Option<u32>,
        now: i64,
    ) -> (r: Result<(), Error>)
        requires
            old(self).wf(),
            old(self).next_id < i64::MAX,
        ensures
            final(self).wf(),
            ({
                let bad_date = !ts_storable(now as int) || !date_ok(now, days_to_start)
                    || !date_ok(now, days_to_complete);
                let dup = has_name(old(self)@, name@);
                &&& (bad_date ==> (r matches Err(Error::DateParse(_))) && *final(self) == *old(
                    self,
                ))
                &&& (!bad_date && dup ==> (r matches Err(Error::Database(_))) && *final(self)
                    == *old(self))
                &&& (!bad_date && !dup ==> r is Ok && final(self)@ == old(self)@.push(
                    spec_added_item(
                        old(self).next_id,
                        name,
                        description,
                        weight,
                        days_to_start,
                        days_to_complete,
                        now,
                    ),
                ) && final(self).next_id == old(self).next_id + 1)
            }),
    {
        if now < TS_MIN || now > TS_MAX {
            return Err(Error::DateParse("creation time out of range".to_owned()));
        }
        let start_date: Option<i64> = match days_to_start {
            Some(d) => {
                let t = now + (d as i64) * 86400;
                if t > TS_MAX {
                    return Err(Error::DateParse("start date out of range".to_owned()));
                }
                Some(t)
            },
            None => None,
        };
        let deadline: Option<i64> = match days_to_complete {
            Some(d) => {
                let t = now + (d as i64) * 86400;
                if t > TS_MAX {
                    return Err(Error::DateParse("deadline out of range".to_owned()));
                }
                Some(t)
            },
            None => None,
        };
        if self.index_of(&name).is_some() {
            return Err(Error::Database("a task with this name already exists".to_owned()));
        }
        let item = Item {
            id: self.next_id,
            name,
            description,
            weight: match weight {
                Some(w) => w,
                None => Weight::Medium,
            },
            start_date,
            deadline,
            completed: false,
            created_at: now,
            completed_at: None,
        };
        self.tasks.push(item);
        self.next_id = self.next_id + 1;
        Ok(())
    }

    /// Removes the task with this name; fails with `ItemNotFound` (and leaves
    /// the store unchanged) when no task carries it. Names are unique, so at
    /// most one task goes.
    pub fn remove(&mut self, name: &str) -> (r: Result<(), Error>)
        requires
            old(self).wf(),
        ensures
            final(self).wf(),
            final(self).next_id == old(self).next_id,
            !has_name(old(self)@, name@) ==> ((r matches Err(Error::ItemNotFound(n)) && n@ == name@)
                && *final(self) == *old(self)),
            has_name(old(self)@, name@) ==> r is Ok && final(self)@ == old(self)@.remove(
                index_of_name(old(self)@, name@),
            ),
    {
        let owned = name.to_owned();
        match self.index_of(&owned) {
            Some(i) => {
                proof {
                    lemma_index_of_name_agrees(self.tasks@, name@, i as int);
                }
                self.tasks.remove(i);
                proof {
                    lemma_remove_keeps_wf(*old(self), *self, i as int);
                }
                Ok(())
            },
            None => Err(Error::ItemNotFound(owned)),
        }
    }
}

/// The task as a successful `edit` leaves it: only the supplied fields
/// change; a supplied day count recomputes the absolute date from `now`.
pub open spec fn spec_edited_item(
    t: Item,
    new_name: Option<String>,
    description: Option<String>,
    weight: Option<Weight>,
    days_to_start: Option<u32>,
    days_to_complete: Option<u32>,
    now: i64,
) -> Item {
    Item {
        id: t.id,
        name: match new_name {
            Some(n) => n,
            None => t.name,
        },
        description: match description {
            Some(d) => Some(d),
            None => t.description,
        },
        weight: match weight {
            Some(w) => w,
            None => t.weight,
        },
        start_date: match days_to_start {
            Some(_) => date_of(now, days_to_start),
            None => t.start_date,
        },
        deadline: match days_to_complete {
            Some(_) => date_of(now, days_to_complete),
            None => t.deadline,
        },
        completed: t.completed,
        created_at: t.created_at,
        completed_at: t.completed_at,
    }
}

/// The task as `complete` leaves it: done, stamped with `now`.
pub open spec fn spec_completed_item(t: Item, now: i64) -> Item {
    Item {
        id: t.id,
        name: t.name,
        description: t.description,
        weight: t.weight,
        start_date: t.start_date,
        deadline: t.deadline,
        completed: true,
        created_at: t.created_at,
        completed_at: Some(now),
    }
}

impl Repo {
    /// Updates only the supplied fields of the named task; with nothing
    /// supplied it succeeds without touching the store. Fails with a date
    /// error when a supplied day count yields an unstorable date, with
    /// `ItemNotFound` when the name matches no task, and with a database
    /// error when the new name would collide with another task; every
    /// failure leaves the store unchanged.
    pub fn edit(
        &mut self,
        name: String,
        new_name: Option<String>,
        description: Option<String>,
        weight: Option<Weight>,
        days_to_start: Option<u32>,
        days_to_complete: Option<u32>,
        now: i64,
    ) -> (r: Result<(), Error>)
        requires
            old(self).wf(),
        ensures
            final(self).wf(),
            final(self).next_id == old(self).next_id,
            ({
                let s = old(self)@;
                let bad_date = !date_ok(now, days_to_start) || !date_ok(now, days_to_complete);
                let no_op = new_name is None && description is None && weight is None
                    && days_to_start is None && days_to_complete is None;
                let found = has_name(s, name@);
                let idx = index_of_name(s, name@);
                let collision = found && match new_name {
                    Some(nn) => has_name(s, nn@) && s[idx].name@ != nn@,
                    None => false,
                };
                &&& (bad_date ==> (r matches Err(Error::DateParse(_))) && *final(self) == *old(
                    self,
                ))
                &&& (!bad_date && no_op ==> r is Ok && *final(self) == *old(self))
                &&& (!bad_date && !no_op && !found ==> ((r matches Err(Error::ItemNotFound(n))
                    && n@ == name@) && *final(self) == *old(self)))
                &&& (!bad_date && !no_op && found && collision ==> (r matches Err(
                    Error::Database(_),
                )) && *final(self) == *old(self))
                &&& (!bad_date && !no_op && found && !collision ==> r is Ok && final(self)@
                    == s.update(
                    idx,
                    spec_edited_item(
                        s[idx],
                        new_name,
                        description,
                        weight,
                        days_to_start,
                        days_to_complete,
                        now,
                    ),
                ))
            }),
    {
        let start_date: Option<i64> = match days_to_start {
            Some(d) => {
                if now < TS_MIN || now > TS_MAX {
                    return Err(Error::DateParse("start date out of range".to_owned()));
                }
                let t = now + (d as i64) * 86400;
                if t > TS_MAX {
                    return Err(Error::DateParse("start date out of range".to_owned()));
                }
                Some(t)
            },
            None => None,
        };
        let deadline: Option<i64> = match days_to_complete {
            Some(d) => {
                if now < TS_MIN || now > TS_MAX {
                    return Err(Error::DateParse("deadline out of range".to_owned()));
                }
                let t = now + (d as i64) * 86400;
                if t > TS_MAX {
                    return Err(Error::DateParse("deadline out of range".to_owned()));
                }
                Some(t)
            },
            None => None,
        };
        if new_name.is_none() && description.is_none() && weight.is_none()
            && days_to_start.is_none() && days_to_complete.is_none() {
            return Ok(());
        }
        let idx = match self.index_of(&name) {
            Some(i) => i,
            None => {
                return Err(Error::ItemNotFound(name));
            },
        };
        proof {
            lemma_index_of_name_agrees(self.tasks@, name@, idx as int);
        }
        if let Some(nn) = &new_name {
            match self.index_of(nn) {
                Some(j) => {
                    if j != idx {
                        return Err(Error::Database(
                            "a task with this name already exists".to_owned(),
                        ));
                    }
                },
                None => {},
            }
        }
        let t = &self.tasks[idx];
        let updated = Item {
            id: t.id,
            name: match new_name {
                Some(n) => n,
                None => t.name.clone(),
            },
            description: match description {
                Some(d) => Some(d),
                None => match &t.description {
                    Some(d) => Some(d.clone()),
                    None => None,
                },
            },
            weight: match weight {
                Some(w) => w,
                None => t.weight,
            },
            start_date: match days_to_start {
                Some(_) => start_date,
                None => t.start_date,
            },
            deadline: match days_to_complete {
                Some(_) => deadline,
                None => t.deadline,
            },
            completed: t.completed,
            created_at: t.created_at,
            completed_at: t.completed_at,
        };
        self.tasks[idx] = updated;
        proof {
            lemma_update_keeps_wf(*old(self), *self, idx as int);
        }
        Ok(())
    }

    /// Marks the named task completed and stamps the completion time, once:
    /// an unknown name and an already completed task fail alike, with
    /// `ItemNotFound`, leaving the store unchanged. A completion time that
    /// cannot be stored fails with a date error.
    pub fn complete(&mut self, name: &str, now: i64) -> (r: Result<(), Error>)
        requires
            old(self).wf(),
        ensures
            final(self).wf(),
            final(self).next_id == old(self).next_id,
            ({
                let s = old(self)@;
                let idx = index_of_name(s, name@);
                let active = has_name(s, name@) && !s[idx].completed;
                &&& (!active ==> ((r matches Err(Error::ItemNotFound(n)) && n@ == name@)
                    && *final(self) == *old(self)))
                &&& (active && !ts_storable(now as int) ==> (r matches Err(Error::DateParse(_)))
                    && *final(self) == *old(self))
                &&& (active && ts_storable(now as int) ==> r is Ok && final(self)@ == s.update(
                    idx,
                    spec_completed_item(s[idx], now),
                ))
            }),
    {
        let owned = name.to_owned();
        let idx = match self.index_of(&owned) {
            Some(i) => i,
            None => {
                return Err(Error::ItemNotFound(owned));
            },
        };
        proof {
            lemma_index_of_name_agrees(self.tasks@, name@, idx as int);
        }
        if self.tasks[idx].completed {
            return Err(Error::ItemNotFound(owned));
        }
        if now < TS_MIN || now > TS_MAX {
            return Err(Error::DateParse("completion time out of range".to_owned()));
        }
        let t = &self.tasks[idx];
        let updated = Item {
            id: t.id,
            name: t.name.clone(),
            description: match &t.description {
                Some(d) => Some(d.clone()),
                None => None,
            },
            weight: t.weight,
            start_date: t.start_date,
            deadline: t.deadline,
            completed: true,
            created_at: t.created_at,
            completed_at: Some(now),
        };
        self.tasks[idx] = updated;
        proof {
            lemma_update_keeps_wf(*old(self), *self, idx as int);
        }
        Ok(())
    }
}

/// One stored row, as plain values: the textual shape the store keeps.
#[derive(Debug)]
pub struct RawRow {
    pub id: i64,
    pub name: String,
    pub description: Option<String>,
    pub weight: String,
    pub start_date: Option<String>,
    pub deadline: Option<String>,
    pub completed: bool,
    pub created_at: String,
    pub completed_at: Option<String>,
}

/// Whether an optional stored date string parses to a storable timestamp.
pub open spec fn opt_date_ok(d: Option<String>) -> bool {
    match d {
        Some(s) => rfc3339_parsed(s@) matches Some(t) && ts_storable(t),
        None => true,
    }
}

/// The timestamp an optional stored date string denotes.
pub open spec fn opt_date_val(d: Option<String>) -> Option<i64> {
    match d {
        Some(s) => Some(rfc3339_parsed(s@)->Some_0 as i64),
        None => None,
    }
}

impl Item {
    /// Reads a task out of a stored row. A weight outside the three tokens is
    /// rejected with a weight error carrying the token; a date that does not
    /// parse in the fixed format (or does not fit the storable range) with a
    /// date error; a completion stamp that disagrees with the completed flag
    /// with a database integrity error. The checks run in that field order.
    pub fn from_row(row: RawRow) -> (r: Result<Item, Error>)
        ensures
            ({
                let w = spec_weight_of_token(row.weight@);
                let dates_ok = opt_date_ok(row.start_date) && opt_date_ok(row.deadline) && (
                rfc3339_parsed(row.created_at@) matches Some(t) && ts_storable(t)) && opt_date_ok(
                    row.completed_at,
                );
                let intact = row.completed <==> row.completed_at is Some;
                &&& (w is None ==> (r matches Err(Error::WeightParse(t)) && t@ == row.weight@))
                &&& (w is Some && !dates_ok ==> r matches Err(Error::DateParse(_)))
                &&& (w is Some && dates_ok && !intact ==> r matches Err(Error::Database(_)))
                &&& (w is Some && dates_ok && intact ==> (r matches Ok(it) && it == (Item {
                    id: row.id,
                    name: row.name,
                    description: row.description,
                    weight: w->Some_0,
                    start_date: opt_date_val(row.start_date),
                    deadline: opt_date_val(row.deadline),
                    created_at: (rfc3339_parsed(row.created_at@)->Some_0) as i64,
                    completed: row.completed,
                    completed_at: opt_date_val(row.completed_at),
                }) && it.wf()))
            }),
    {
        let weight = if row.weight == "low".to_owned() {
            Weight::Low
        } else if row.weight == "medium".to_owned() {
            Weight::Medium
        } else if row.weight == "high".to_owned() {
            Weight::High
        } else {
            return Err(Error::WeightParse(row.weight));
        };
        let start_date = match parse_date_field(row.start_date) {
            Ok(v) => v,
            Err(e) => {
                return Err(e);
            },
        };
        let deadline = match parse_date_field(row.deadline) {
            Ok(v) => v,
            Err(e) => {
                return Err(e);
            },
        };
        let created_at = match parse_rfc3339(row.created_at.as_str()) {
            Some(t) => {
                if t < TS_MIN || t > TS_MAX {
                    return Err(Error::DateParse(row.created_at));
                }
                t
            },
            None => {
                return Err(Error::DateParse(row.created_at));
            },
        };
        let completed_at = match parse_date_field(row.completed_at) {
            Ok(v) => v,
            Err(e) => {
                return Err(e);
            },
        };
        if row.completed != completed_at.is_some() {
            return Err(Error::Database("completion stamp disagrees with the flag".to_owned()));
        }
        Ok(
            Item {
                id: row.id,
                name: row.name,
                description: row.description,
                weight,
                start_date,
                deadline,
                completed: row.completed,
                created_at,
                completed_at,
            },
        )
    }

    /// Writes a task as a stored row; the row reads back to this very task.
    pub fn to_row(&self) -> (r: RawRow)
        requires
            self.wf(),
        ensures
            r.id == self.id,
            r.name == self.name,
            r.description == self.description,
            r.weight@ == self.weight.spec_token(),
            spec_weight_of_token(r.weight@) == Some(self.weight),
            r.completed == self.completed,
            rfc3339_parsed(r.created_at@) == Some(self.created_at as int),
            match self.start_date {
                Some(t) => r.start_date matches Some(s) && s@ == rfc3339_of(t as int)
                    && rfc3339_parsed(s@) == Some(t as int),
                None => r.start_date is None,
            },
            match self.deadline {
                Some(t) => r.deadline matches Some(s) && s@ == rfc3339_of(t as int)
                    && rfc3339_parsed(s@) == Some(t as int),
                None => r.deadline is None,
            },
            match self.completed_at {
                Some(t) => r.completed_at matches Some(s) && s@ == rfc3339_of(t as int)
                    && rfc3339_parsed(s@) == Some(t as int),
                None => r.completed_at is None,
            },
    {
        proof {
            reveal_strlit("low");
            reveal_strlit("medium");
            reveal_strlit("high");
            assert("low"@.len() == 3 && "medium"@.len() == 6 && "high"@.len() == 4);
        }
        RawRow {
            id: self.id,
            name: self.name.clone(),
            description: match &self.description {
                Some(d) => Some(d.clone()),
                None => None,
            },
            weight: self.weight.token(),
            start_date: match self.start_date {
                Some(t) => Some(format_rfc3339(t)),
                None => None,
            },
            deadline: match self.deadline {
                Some(t) => Some(format_rfc3339(t)),
                None => None,
            },
            completed: self.completed,
            created_at: format_rfc3339(self.created_at),
            completed_at: match self.completed_at {
                Some(t) => Some(format_rfc3339(t)),
                None => None,
            },
        }
    }
}

/// Parses an optional stored date string, rejecting what does not parse or
/// does not fit the storable range; the date error carries the string.
fn parse_date_field(d: Option<String>) -> (r: Result<Option<i64>, Error>)
    ensures
        opt_date_ok(d) ==> (r matches Ok(v) && v == opt_date_val(d)),
        !opt_date_ok(d) ==> (r matches Err(Error::DateParse(s)) && Some(s) == d),
{
    match d {
        Some(s) => {
            match parse_rfc3339(s.as_str()) {
                Some(t) => {
                    if t < TS_MIN || t > TS_MAX {
                        return Err(Error::DateParse(s));
                    }
                    Ok(Some(t))
                },
                None => Err(Error::DateParse(s)),
            }
        },
        None => Ok(None),
    }
}

/// Whether a loaded set of tasks can form a well-formed store.
pub open spec fn load_ok(s: Seq<Item>) -> bool {
    &&& forall|i: int| 0 <= i < s.len() ==> (#[trigger] s[i]).wf()
    &&& forall|i: int, j: int|
        #![trigger s[i].name@, s[j].name@]
        0 <= i < j < s.len() ==> s[i].name@ != s[j].name@
    &&& forall|i: int, j: int|
        #![trigger s[i].id, s[j].id]
        0 <= i < j < s.len() ==> s[i].id != s[j].id
    &&& forall|i: int| 0 <= i < s.len() ==> (#[trigger] s[i]).id < i64::MAX
}

impl Repo {
    /// Builds a store from loaded tasks, checking what the schema would have
    /// enforced: unique names, unique ids, well-formed tasks. The next id is
    /// set past every loaded id.
    pub fn load(items: Vec<Item>) -> (r: Result<Repo, Error>)
        ensures
            load_ok(items@) ==> (r matches Ok(rp) && rp.wf() && rp@ == items@),
            !load_ok(items@) ==> r matches Err(Error::Database(_)),
    {
        let mut next_id: i64 = 1;
        let mut i: usize = 0;
        while i < items.len()
            invariant
                i <= items@.len(),
                1 <= next_id,
                forall|p: int| 0 <= p < i ==> (#[trigger] items@[p]).wf(),
                forall|p: int, q: int|
                    #![trigger items@[p].name@, items@[q].name@]
                    0 <= p < q < i ==> items@[p].name@ != items@[q].name@,
                forall|p: int, q: int|
                    #![trigger items@[p].id, items@[q].id]
                    0 <= p < q < i ==> items@[p].id != items@[q].id,
                forall|p: int| 0 <= p < i ==> (#[trigger] items@[p]).id < next_id,
            decreases items@.len() - i,
        {
            let t = &items[i];
            let stamps_ok = match t.completed_at {
                Some(ts) => t.completed && TS_MIN <= ts && ts <= TS_MAX,
                None => !t.completed,
            };
            let dates_ok = (match t.start_date {
                Some(ts) => TS_MIN <= ts && ts <= TS_MAX,
                None => true,
            }) && (match t.deadline {
                Some(ts) => TS_MIN <= ts && ts <= TS_MAX,
                None => true,
            }) && TS_MIN <= t.created_at && t.created_at <= TS_MAX;
            if !stamps_ok || !dates_ok {
                return Err(Error::Database("malformed task".to_owned()));
            }
            if t.id == i64::MAX {
                return Err(Error::Database("task id out of range".to_owned()));
            }
            let mut j: usize = 0;
            while j < i
                invariant
                    j <= i,
                    i < items@.len(),
                    forall|q: int| 0 <= q < j ==> items@[q].name@ != items@[i as int].name@,
                    forall|q: int| 0 <= q < j ==> items@[q].id != items@[i as int].id,
                decreases i - j,
            {
                if items[j].name == items[i].name {
                    return Err(Error::Database("duplicate task name".to_owned()));
                }
                if items[j].id == items[i].id {
                    return Err(Error::Database("duplicate task id".to_owned()));
                }
                j += 1;
            }
            if t.id >= next_id {
                next_id = t.id + 1;
            }
            i += 1;
        }
        Ok(Repo { tasks: items, next_id })
    }
}

/// Whether a task passes the list filter: an optional weight filter, and a
/// restriction to completed tasks when asked for.
pub open spec fn keep(t: Item, weight: Option<Weight>, completed: bool) -> bool {
    (match weight {
        Some(w) => t.weight == w,
        None => true,
    }) && (completed ==> t.completed)
}

/// The list filter as a function, for use with `Seq::filter`.
pub open spec fn keep_fn(weight: Option<Weight>, completed: bool) -> spec_fn(Item) -> bool {
    |t: Item| keep(t, weight, completed)
}

/// Deadline order: earlier deadlines first, tasks without a deadline last,
/// ties broken by id (insertion order).
pub open spec fn deadline_leq(a: Item, b: Item) -> bool {
    match (a.deadline, b.deadline) {
        (Some(x), Some(y)) => x < y || (x == y && a.id <= b.id),
        (Some(_), None) => true,
        (None, Some(_)) => false,
        (None, None) => a.id <= b.id,
    }
}

/// Weight order: High, then Medium, then Low; ties broken by id.
pub open spec fn weight_leq(a: Item, b: Item) -> bool {
    a.weight.rank() < b.weight.rank() || (a.weight.rank() == b.weight.rank() && a.id <= b.id)
}

/// Default order: newest creation first; ties broken by the higher id first.
pub open spec fn created_leq(a: Item, b: Item) -> bool {
    a.created_at > b.created_at || (a.created_at == b.created_at && a.id >= b.id)
}

/// The order `list` sorts by: deadline takes precedence over weight, and with
/// neither flag the default order applies.
pub open spec fn item_leq(by_deadline: bool, by_weight: bool, a: Item, b: Item) -> bool {
    if by_deadline {
        deadline_leq(a, b)
    } else if by_weight {
        weight_leq(a, b)
    } else {
        created_leq(a, b)
    }
}

/// A sequence already sorted, with one more task placed where it belongs.
pub open spec fn insert_sorted(s: Seq<Item>, x: Item, by_deadline: bool, by_weight: bool) -> Seq<
    Item,
>
    decreases s.len(),
{
    if s.len() == 0 {
        seq![x]
    } else if item_leq(by_deadline, by_weight, s.last(), x) {
        s.push(x)
    } else {
        insert_sorted(s.drop_last(), x, by_deadline, by_weight).push(s.last())
    }
}

/// Insertion sort of a sequence of tasks under the list order.
pub open spec fn sort_spec(s: Seq<Item>, by_deadline: bool, by_weight: bool) -> Seq<Item>
    decreases s.len(),
{
    if s.len() == 0 {
        Seq::<Item>::empty()
    } else {
        insert_sorted(sort_spec(s.drop_last(), by_deadline, by_weight), s.last(), by_deadline, by_weight)
    }
}

/// Exactly what `list` returns: the tasks passing the filter, in the chosen
/// order.
pub open spec fn spec_list(
    s: Seq<Item>,
    weight: Option<Weight>,
    completed: bool,
    by_deadline: bool,
    by_weight: bool,
) -> Seq<Item> {
    sort_spec(s.filter(keep_fn(weight, completed)), by_deadline, by_weight)
}

/// The exec comparison, mirroring `item_leq`.
fn leq(by_deadline: bool, by_weight: bool, a: &Item, b: &Item) -> (r: bool)
    ensures
        r == item_leq(by_deadline, by_weight, *a, *b),
{
    if by_deadline {
        match (a.deadline, b.deadline) {
            (Some(x), Some(y)) => x < y || (x == y && a.id <= b.id),
            (Some(_), None) => true,
            (None, Some(_)) => false,
            (None, None) => a.id <= b.id,
        }
    } else if by_weight {
        let ra = rank_exec(a.weight);
        let rb = rank_exec(b.weight);
        ra < rb || (ra == rb && a.id <= b.id)
    } else {
        a.created_at > b.created_at || (a.created_at == b.created_at && a.id >= b.id)
    }
}

/// The exec weight rank, mirroring `Weight::rank`.
fn rank_exec(w: Weight) -> (r: u8)
    ensures
        r as int == w.rank(),
{
    match w {
        Weight::High => 0,
        Weight::Medium => 1,
        Weight::Low => 2,
    }
}

/// Places a task into an already sorted vector.
fn insert_item(v: &mut Vec<Item>, x: Item, by_deadline: bool, by_weight: bool)
    ensures
        final(v)@ == insert_sorted(old(v)@, x, by_deadline, by_weight),
{
    let ghost s0 = v@;
    let mut j: usize = v.len();
    proof {
        assert(s0.take(j as int) =~= s0);
        assert(insert_sorted(s0, x, by_deadline, by_weight) + s0.skip(j as int) =~= insert_sorted(
            s0,
            x,
            by_deadline,
            by_weight,
        ));
    }
    while j > 0 && !leq(by_deadline, by_weight, &v[j - 1], &x)
        invariant
            j <= s0.len(),
            v@ == s0,
            insert_sorted(s0, x, by_deadline, by_weight) == insert_sorted(
                s0.take(j as int),
                x,
                by_deadline,
                by_weight,
            ) + s0.skip(j as int),
        decreases j,
    {
        proof {
            let t = s0.take(j as int);
            assert(t.len() == j);
            assert(t.last() == s0[j - 1]);
            assert(t.drop_last() =~= s0.take(j - 1));
            assert(insert_sorted(t, x, by_deadline, by_weight) == insert_sorted(
                s0.take(j - 1),
                x,
                by_deadline,
                by_weight,
            ).push(s0[j - 1]));
            assert(insert_sorted(s0.take(j - 1), x, by_deadline, by_weight).push(s0[j - 1])
                + s0.skip(j as int) =~= insert_sorted(s0.take(j - 1), x, by_deadline, by_weight)
                + s0.skip(j - 1));
        }
        j = j - 1;
    }
    v.insert(j, x);
    proof {
        let t = s0.take(j as int);
        if j == 0 {
            assert(t =~= Seq::<Item>::empty());
            assert(insert_sorted(t, x, by_deadline, by_weight) == seq![x]);
        } else {
            assert(t.last() == s0[j - 1]);
            assert(item_leq(by_deadline, by_weight, s0[j - 1], x));
            assert(insert_sorted(t, x, by_deadline, by_weight) == t.push(x));
        }
        assert(v@ =~= insert_sorted(t, x, by_deadline, by_weight) + s0.skip(j as int));
    }
}

/// Sorts tasks under the list order by insertion.
fn sorted_items(v: Vec<Item>, by_deadline: bool, by_weight: bool) -> (r: Vec<Item>)
    ensures
        r@ == sort_spec(v@, by_deadline, by_weight),
{
    let mut out: Vec<Item> = Vec::new();
    let mut i: usize = 0;
    while i < v.len()
        invariant
            i <= v@.len(),
            out@ == sort_spec(v@.take(i as int), by_deadline, by_weight),
        decreases v@.len() - i,
    {
        let x = v[i].clone();
        insert_item(&mut out, x, by_deadline, by_weight);
        proof {
            let t = v@.take(i + 1);
            assert(t.drop_last() =~= v@.take(i as int));
            assert(t.last() == v@[i as int]);
        }
        i += 1;
    }
    proof {
        assert(v@.take(v@.len() as int) =~= v@);
    }
    out
}

/// Filtering a sequence one push at a time.
pub proof fn lemma_filter_push(s: Seq<Item>, x: Item, p: spec_fn(Item) -> bool)
    ensures
        s.push(x).filter(p) == if p(x) {
            s.filter(p).push(x)
        } else {
            s.filter(p)
        },
{
    reveal(Seq::filter);
    assert(s.push(x).drop_last() =~= s);
    assert(s.push(x).last() == x);
}

impl Repo {
    /// Returns the tasks passing the optional weight filter (and, when asked,
    /// only the completed ones), sorted: by deadline when requested, tasks
    /// without one last; else by weight, High before Medium before Low; else
    /// newest first. Deadline sorting takes precedence; ties fall back to the
    /// id order. Listing never fails.
    pub fn list(
        &self,
        weight: Option<Weight>,
        completed: bool,
        sort_by_deadline: bool,
        sort_by_weight: bool,
    ) -> (r: Result<Vec<Item>, Error>)
        ensures
            r matches Ok(items) && items@ == spec_list(
                self@,
                weight,
                completed,
                sort_by_deadline,
                sort_by_weight,
            ),
    {
        let mut kept: Vec<Item> = Vec::new();
        let mut i: usize = 0;
        while i < self.tasks.len()
            invariant
                i <= self.tasks@.len(),
                kept@ == self.tasks@.take(i as int).filter(keep_fn(weight, completed)),
            decreases self.tasks@.len() - i,
        {
            let t = &self.tasks[i];
            let passes = (match weight {
                Some(w) => t.weight == w,
                None => true,
            }) && (!completed || t.completed);
            if passes {
                kept.push(t.clone());
            }
            proof {
                assert(self.tasks@.take(i + 1) =~= self.tasks@.take(i as int).push(
                    self.tasks@[i as int],
                ));
                lemma_filter_push(
                    self.tasks@.take(i as int),
                    self.tasks@[i as int],
                    keep_fn(weight, completed),
                );
            }
            i += 1;
        }
        proof {
            assert(self.tasks@.take(self.tasks@.len() as int) =~= self.tasks@);
        }
        Ok(sorted_items(kept, sort_by_deadline, sort_by_weight))
    }
}

/// Replacing one task with a well-formed task of the same id, whose name no
/// other task carries, keeps the store well formed.
proof fn lemma_update_keeps_wf(pre: Repo, post: Repo, i: int)
    requires
        pre.wf(),
        0 <= i < pre.tasks@.len(),
        post.tasks@ == pre.tasks@.update(i, post.tasks@[i]),
        post.next_id == pre.next_id,
        post.tasks@[i].wf(),
        post.tasks@[i].id == pre.tasks@[i].id,
        forall|j: int|
            0 <= j < pre.tasks@.len() && j != i ==> pre.tasks@[j].name@ != post.tasks@[i].name@,
    ensures
        post.wf(),
{
    assert(forall|p: int|
        0 <= p < post.tasks@.len() ==> post.tasks@[p] == (if p == i {
            post.tasks@[i]
        } else {
            pre.tasks@[p]
        }));
}

/// In a store with unique names, the chosen index of a name is the index
/// where the name was found.
proof fn lemma_index_of_name_agrees(s: Seq<Item>, name: Seq<char>, i: int)
    requires
        0 <= i < s.len(),
        s[i].name@ == name,
        forall|p: int, q: int|
            #![trigger s[p].name@, s[q].name@]
            0 <= p < q < s.len() ==> s[p].name@ != s[q].name@,
    ensures
        index_of_name(s, name) == i,
{
    assert(has_name(s, name));
    let k = index_of_name(s, name);
    assert(0 <= k < s.len() && s[k].name@ == name);
    if k < i {
        assert(s[k].name@ != s[i].name@);
    } else if i < k {
        assert(s[i].name@ != s[k].name@);
    }
}

/// Removing one task keeps the store well formed.
proof fn lemma_remove_keeps_wf(pre: Repo, post: Repo, i: int)
    requires
        pre.wf(),
        0 <= i < pre.tasks@.len(),
        post.tasks@ == pre.tasks@.remove(i),
        post.next_id == pre.next_id,
    ensures
        post.wf(),
{
    assert(forall|p: int|
        0 <= p < post.tasks@.len() ==> post.tasks@[p] == (if p < i {
            pre.tasks@[p]
        } else {
            pre.tasks@[p + 1]
        }));
}

} // verus!
