//! A named origin of text: a path, or `-` for standard input.
use vstd::prelude::*;

verus! {

/// The path and the text of one source. A path of `-` stands for standard
/// input. The text starts empty and is filled by whoever reads the source.
#[derive(Clone, Debug, Eq, PartialEq)]
pub struct Source {
    /// Where the text comes from.
    pub path: String,
    /// The text, once read.
    pub data: String,
}

/// The name under which a source is shown in output.
pub open spec fn display_name(path: Seq<char>) -> Seq<char> {
    if path == "-"@ {
        "(standard input)"@
    } else {
        path
    }
}

impl Source {
    /// A source for `path` whose text has not been read.
    pub fn new(path: String) -> (r: Source)
        ensures
            r.path@ == path@,
            r.data@ == Seq::<char>::empty(),
    {
        Source { path, data: String::new() }
    }
}

} // verus!
