//! Externally fetched text segments: the string a dynamic segment reads
//! each pass, and the marker for segments shared between documents.

use vstd::prelude::*;

verus! {

/// Marks a fetched segment as shared, so that dropping one document does
/// not retire it.
#[derive(Clone, Copy, PartialEq, Eq, Structural, Debug)]
pub struct SharedTextSegment;

/// A string segment held outside a document and re-read every render pass.
#[derive(Debug)]
pub struct FetchedTextSegment(pub String);

impl FetchedTextSegment {
    /// An empty segment.
    pub fn empty() -> (r: FetchedTextSegment)
        ensures
            r.0@.len() == 0,
    {
        FetchedTextSegment(String::new())
    }

    /// The segment's current text.
    pub fn as_str(&self) -> (r: &str)
        ensures
            r@ == self.0@,
    {
        self.0.as_str()
    }

    /// Replace the text if it changed; reports whether it did, so a host
    /// can run its change detection.
    pub fn set_if_changed(&mut self, value: &str) -> (changed: bool)
        ensures
            changed == (old(self).0@ != value@),
            final(self).0@ == value@,
    {
        let eq = crate::chars::eq_chars_str(&crate::chars::str_chars(self.0.as_str()), value);
        if !eq {
            self.0 = value.to_owned();
            true
        } else {
            false
        }
    }
}

} // verus!
