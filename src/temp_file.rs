//! A file path held for the duration of one operation.
use vstd::prelude::*;

verus! {

pub struct TempFile {
    path: String,
}

impl View for TempFile {
    type V = Seq<char>;

    closed spec fn view(&self) -> Seq<char> {
        self.path@
    }
}

impl TempFile {
    pub fn new(path: String) -> (r: TempFile)
        ensures
            r@ == path@,
    {
        TempFile { path }
    }

    pub fn path(&self) -> (r: &String)
        ensures
            r@ == self@,
    {
        &self.path
    }
}

} // verus!
