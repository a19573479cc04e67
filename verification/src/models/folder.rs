//! Folders that notes are filed in.

use vstd::prelude::*;
use vstd::string::StringExecFns;
use crate::ids::{new_uuid_string, uuid_v4_text};
use crate::models::note::{now, Timestamp};

verus! {

broadcast use vstd::string::group_string_axioms;

/// A folder, possibly inside another one.
#[derive(Debug, Clone)]
pub struct Folder {
    pub id: String,
    pub name: String,
    pub parent_id: Option<String>,
    pub created_at: Timestamp,
    pub updated_at: Timestamp,
}

impl Folder {
    /// A new folder with a fresh id, created and updated now.
    pub fn new(name: &str, parent_id: Option<String>) -> (f: Self)
        ensures
            uuid_v4_text(f.id@),
            f.name@ == name@,
            f.parent_id == parent_id,
            f.created_at == f.updated_at,
    {
        let t = now();
        Folder { id: new_uuid_string(), name: String::from_str(name), parent_id, created_at: t, updated_at: t }
    }
}

} // verus!
