//! A changelog kept as a living Markdown document: part hand-written, part
//! machine-generated on every release.
//!
//! The library parses arbitrary, possibly hand-edited Markdown into a
//! structured document while preserving everything it does not understand,
//! and merges a freshly generated changelog into that structure without
//! destroying human edits.
#![allow(unused_imports)]
use vstd::prelude::*;

pub mod date;
pub mod version;
pub mod segment;
pub mod section;
pub mod merge;
pub mod events;
pub mod headline;
pub mod parse;
pub mod release;

verus! {

use crate::section::{secs_view, Section, SectionV};

/// A whole changelog document: an ordered sequence of sections.
/// The order is significant and encodes the document structure.
#[derive(Clone, Debug, PartialEq, Eq)]
pub struct ChangeLog {
    pub sections: Vec<Section>,
}

impl View for ChangeLog {
    type V = Seq<SectionV>;

    open spec fn view(&self) -> Seq<SectionV> {
        secs_view(self.sections)
    }
}

} // verus!
