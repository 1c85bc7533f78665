use vstd::prelude::*;

verus! {

/// A position in a source text: the line (counted from zero) and the
/// number of characters consumed on that line.
#[derive(Debug, Clone, Copy, PartialEq, Eq, Structural)]
pub struct FileLocation {
    pub line_number: u32,
    pub line_offset: u32,
}

impl FileLocation {
    pub fn new(line_number: u32, line_offset: u32) -> (r: Self)
        ensures
            r.line_number == line_number,
            r.line_offset == line_offset,
    {
        FileLocation { line_number, line_offset }
    }
}

} // verus!
