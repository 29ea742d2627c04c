use vstd::prelude::*;

verus! {

/// Everything that can go wrong in the repository and around it.
///
/// `Database` stands for a store-level failure such as a violated uniqueness
/// or integrity constraint; `ItemNotFound` carries the name that matched no
/// task; `DateParse` carries the text (or a description) of a timestamp that
/// could not be handled; `WeightParse` carries a token that names no weight.
#[derive(Debug)]
pub enum Error {
    Database(String),
    ItemNotFound(String),
    DateParse(String),
    WeightParse(String),
    HomeDirNotFound,
    IO(String),
}

} // verus!
