//! Where the state JSON is written; the daemon's binary writes it
//! atomically (temporary file, then rename).

use vstd::prelude::*;

use crate::text::to_string;

verus! {

pub struct FileStateWriter {
    path: String,
}

impl FileStateWriter {
    pub closed spec fn spec_path(&self) -> Seq<char> {
        self.path@
    }

    pub fn new(path: &str) -> (w: Self)
        ensures
            w.spec_path() == path@,
    {
        FileStateWriter { path: to_string(path) }
    }

    /// The state file this writer replaces.
    pub fn path(&self) -> (p: &str)
        ensures
            p@ == self.spec_path(),
    {
        self.path.as_str()
    }
}

} // verus!
