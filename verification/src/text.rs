//! The text document: an ordered sequence of styled segments, each either
//! an owned string or a handle to externally fetched text.

use vstd::prelude::*;

use crate::style::{SegmentStyle, SegmentStyleV};

verus! {

/// One run of text in a [`Text3d`]: an owned string, or a handle naming an
/// external source that is re-read every render pass.
#[derive(Debug)]
pub enum Text3dSegment {
    String(String),
    Extract(u64),
}

/// The mathematical value of a [`Text3dSegment`].
pub enum Text3dSegmentV {
    Str(Seq<char>),
    Extract(u64),
}

impl View for Text3dSegment {
    type V = Text3dSegmentV;

    open spec fn view(&self) -> Text3dSegmentV {
        match self {
            Text3dSegment::String(s) => Text3dSegmentV::Str(s@),
            Text3dSegment::Extract(e) => Text3dSegmentV::Extract(*e),
        }
    }
}

/// A rich text document: styled segments in reading order.
#[derive(Debug)]
pub struct Text3d {
    pub segments: Vec<(Text3dSegment, SegmentStyle)>,
}

/// The mathematical value of a segment list.
pub open spec fn segments_view(v: Seq<(Text3dSegment, SegmentStyle)>) -> Seq<
    (Text3dSegmentV, SegmentStyleV),
> {
    v.map_values(|p: (Text3dSegment, SegmentStyle)| (p.0@, p.1@))
}

impl View for Text3d {
    type V = Seq<(Text3dSegmentV, SegmentStyleV)>;

    open spec fn view(&self) -> Seq<(Text3dSegmentV, SegmentStyleV)> {
        segments_view(self.segments@)
    }
}

impl Text3d {
    /// A document of one owned segment with no overrides.
    pub fn new(s: String) -> (r: Text3d)
        ensures
            r@.len() == 1,
            r@[0].0 == Text3dSegmentV::Str(s@),
            r@[0].1 == crate::style::spec_segment_style_empty(),
    {
        let mut segments: Vec<(Text3dSegment, SegmentStyle)> = Vec::new();
        segments.push((Text3dSegment::String(s), SegmentStyle::default()));
        Text3d { segments }
    }

    /// A document of one externally fetched segment with no overrides.
    pub fn from_extract(entity: u64) -> (r: Text3d)
        ensures
            r@.len() == 1,
            r@[0].0 == Text3dSegmentV::Extract(entity),
            r@[0].1 == crate::style::spec_segment_style_empty(),
    {
        let mut segments: Vec<(Text3dSegment, SegmentStyle)> = Vec::new();
        segments.push((Text3dSegment::Extract(entity), SegmentStyle::default()));
        Text3d { segments }
    }

    /// If the document is a single owned segment, that segment's text.
    pub fn get_single(&self) -> (r: Option<&String>)
        ensures
            match r {
                Some(s) => self@.len() == 1 && self@[0].0 == Text3dSegmentV::Str(s@),
                None => self@.len() != 1 || !(self@[0].0 is Str),
            },
    {
        if self.segments.len() != 1 {
            None
        } else {
            match &self.segments[0].0 {
                Text3dSegment::String(s) => Some(s),
                Text3dSegment::Extract(_) => None,
            }
        }
    }

    /// If the document is a single owned segment, that segment mutably.
    pub fn get_single_mut(&mut self) -> (r: Option<&mut String>)
        ensures
            match r {
                Some(s) => old(self)@.len() == 1 && old(self)@[0].0 is Str && final(self)@.len()
                    == 1 && final(self)@[0].0 == Text3dSegmentV::Str(final(s)@)
                    && final(self)@[0].1 == old(self)@[0].1,
                None => final(self)@ == old(self)@ && (old(self)@.len() != 1 || !(old(
                    self,
                )@[0].0 is Str)),
            },
    {
        if self.segments.len() != 1 {
            None
        } else {
            match &mut self.segments[0].0 {
                Text3dSegment::String(s) => Some(s),
                Text3dSegment::Extract(_) => None,
            }
        }
    }
}

} // verus!
