use vstd::prelude::*;

use crate::error::Error;

verus! {

/// Importance tier of a task: used for filtering and for the priority sort.
#[derive(Clone, Copy, Debug, PartialEq, Eq, Structural)]
pub enum Weight {
    Low,
    Medium,
    High,
}

/// How a lowercased string reads as a weight, if it reads as one at all.
pub open spec fn spec_weight_of_token(s: Seq<char>) -> Option<Weight> {
    if s == "low"@ {
        Some(Weight::Low)
    } else if s == "medium"@ {
        Some(Weight::Medium)
    } else if s == "high"@ {
        Some(Weight::High)
    } else {
        None
    }
}

/// The lowercasing of a string, as `str::to_lowercase` computes it.
pub uninterp spec fn lower_of(s: Seq<char>) -> Seq<char>;

/// Relies on `str::to_lowercase`: the result depends on the characters alone.
#[verifier::external_body]
fn lowercase(s: &str) -> (r: String)
    ensures
        r@ == lower_of(s@),
{
    s.to_lowercase()
}

impl Weight {
    /// Rank used by the weight sort: High before Medium before Low.
    pub open spec fn rank(self) -> int {
        match self {
            Weight::High => 0,
            Weight::Medium => 1,
            Weight::Low => 2,
        }
    }

    /// The token under which this weight is stored.
    pub open spec fn spec_token(self) -> Seq<char> {
        match self {
            Weight::High => "high"@,
            Weight::Medium => "medium"@,
            Weight::Low => "low"@,
        }
    }

    /// The stored token for this weight: one of `low`, `medium`, `high`.
    pub fn token(self) -> (r: String)
        ensures
            r@ == self.spec_token(),
    {
        match self {
            Weight::High => "high".to_owned(),
            Weight::Medium => "medium".to_owned(),
            Weight::Low => "low".to_owned(),
        }
    }

    /// Reads a weight from user input, ignoring case: the lowercased input
    /// must be one of the three stored tokens.
    pub fn from_str(s: &str) -> (r: Result<Weight, Error>)
        ensures
            match spec_weight_of_token(lower_of(s@)) {
                Some(w) => r == Ok::<Weight, Error>(w),
                None => r matches Err(Error::WeightParse(t)) && t@ == s@,
            },
    {
        let low = lowercase(s);
        if low == "low".to_owned() {
            Ok(Weight::Low)
        } else if low == "medium".to_owned() {
            Ok(Weight::Medium)
        } else if low == "high".to_owned() {
            Ok(Weight::High)
        } else {
            Err(Error::WeightParse(s.to_owned()))
        }
    }
}

/// One parsed invocation of the tool, ready for dispatch.
#[derive(Debug)]
pub enum Command {
    Add {
        name: String,
        days_to_start: Option<u32>,
        days_to_complete: Option<u32>,
        weight: Option<Weight>,
        description: Option<String>,
    },
    Remove {
        name: String,
    },
    Edit {
        name: String,
        new_name: Option<String>,
        description: Option<String>,
        weight: Option<Weight>,
        days_to_start: Option<u32>,
        days_to_complete: Option<u32>,
    },
    Complete {
        name: String,
    },
    List {
        weight: Option<Weight>,
        completed: bool,
        sort_by_deadline: bool,
        sort_by_weight: bool,
    },
}

/// The whole command line: no subcommand means the interactive shell.
#[derive(Debug)]
pub struct Args {
    pub command: Option<Command>,
}

} // verus!
