//! The stored merge configurations. The store is isolated in a sub-module so
//! that it can be switched; sled is the one in use.
use vstd::prelude::*;

pub mod ejdb2;
pub mod sled2;

use crate::db::sled2 as db;

verus! {

/// Represents the information related to one merged calendar
#[derive(Debug, Clone, Default, PartialEq)]
pub struct IcsCal {
    /// The name of the source calendar
    pub name: String,
    /// If true, the detail of events will be hidden
    pub is_private: bool,
    /// The url of the source calendar, provided by the calendar provider
    pub ics_url: String,
}

/// Describes the merge configuration
#[derive(Debug, Clone, Default, PartialEq)]
pub struct MergeConf {
    /// The name of the merged calendar
    pub name: String,
    /// The endpoint of the merged calendar, must end with .ics
    pub url: String,
    /// bcrypt encrypted password
    pub password: String,
    /// The list of calendars that must be merged
    pub calendars: Vec<IcsCal>,
}

/// Empties the store.
pub fn init_db() -> (r: Result<String, String>)
    ensures
        r matches Ok(msg) ==> msg@ == sled2::DB_INITIALIZED@,
        r is Ok ==> sled2::store_was_emptied(),
{
    db::init_db()
}

/// All the stored documents, concatenated in key order.
pub fn get_cals_from_db() -> (docs: String)
    ensures
        sled2::listed_by_store(docs@),
{
    db::get_cals_from_db()
}

/// The document stored for `url`, if any.
pub fn get_cal_from_url(url: &str) -> (doc: Option<String>)
    ensures
        doc matches Some(d) ==> sled2::store_holds(url@, d@),
{
    db::get_cal_from_url(url)
}

/// Deletes the document stored for `url`; returns the url when there was one.
pub fn delete_calmerge(url: &String) -> (r: Option<String>)
    ensures
        r matches Some(u) ==> u@ == url@,
        r is Some ==> sled2::store_removed(url@),
{
    db::delete_calmerge(url)
}

/// Stores `doc` under `url`; returns `/url` on success.
pub fn insert_cal(url: String, doc: String) -> (r: Result<String, String>)
    ensures
        r matches Ok(path) ==> path@ == "/"@ + url@,
        r matches Err(msg) ==> msg@.len() >= 1 && msg@[0] == '/',
        r is Ok ==> sled2::store_stored(url@, doc@),
{
    db::insert_cal(url, doc)
}

} // verus!
