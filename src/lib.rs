//! A small journaling library: it judges the three answers of a diary
//! session (a mood rating, one mood word, free text) and stores the
//! finished entry in a local SQLite file.
use vstd::prelude::*;

pub mod text;
pub mod rating;
pub mod word;
pub mod freeform;
pub mod entry;
pub mod storage;
pub mod session;

verus! {

/// The store's file name where no other location is given.
pub const DEFAULT_DB_NAME: &'static str = "diary_entries.db";

/// The store's location: the configured one where there is one, else the
/// default file name.
pub fn db_path_or_default(configured: Option<&str>) -> (r: String)
    ensures
        r@ == match configured {
            Some(p) => p@,
            None => DEFAULT_DB_NAME@,
        },
{
    match configured {
        Some(p) => p.to_owned(),
        None => DEFAULT_DB_NAME.to_owned(),
    }
}

} // verus!
