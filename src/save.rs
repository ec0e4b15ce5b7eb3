//! The snapshot writer: the file that a registry snapshot goes to.
use vstd::prelude::*;

use crate::registry::{snapshot_text, TimeDB};

verus! {

/// Names the file that a snapshot of the registry is written to when the
/// writer's scope ends. Making one has no effect of its own.
pub struct TimeFileSave {
    file_name: &'static str,
}

impl TimeFileSave {
    /// The target path.
    pub closed spec fn path_spec(&self) -> Seq<char> {
        self.file_name@
    }

    /// A writer for the file at `file_name`.
    pub fn new(file_name: &'static str) -> (r: TimeFileSave)
        ensures
            r.path_spec() == file_name@,
    {
        TimeFileSave { file_name }
    }

    /// The target path.
    pub fn file_name(&self) -> (r: &'static str)
        ensures
            r@ == self.path_spec(),
    {
        self.file_name
    }

    /// What the file is to hold: the text of a snapshot of `db` taken now,
    /// one `label => count | average ns/call` line per label.
    pub fn contents(&self, db: &TimeDB) -> (r: String)
        requires
            db.wf(),
        ensures
            r@ == snapshot_text(db@),
    {
        let copy = db.snapshot();
        copy.to_text()
    }
}

} // verus!
