//! One structural unit of the changelog: a headline-less text run or a
//! release block.
use vstd::prelude::*;

verus! {

use crate::date::Date;
use crate::segment::{segs_view, Segment, SegmentV};
use crate::version::{Version, VersionV};

/// One structural unit of the changelog.
#[derive(Clone, Debug, PartialEq, Eq)]
pub enum Section {
    /// A run of text with no headline (document prologue or epilogue),
    /// flagged whether it originated from the generator.
    Verbatim { text: Vec<u8>, generated: bool },
    /// A release block introduced by one headline.
    Release {
        name: Version,
        /// What stood between the heading hashes and the version number,
        /// at most a literal `v`.
        version_prefix: Vec<u8>,
        date: Option<Date>,
        heading_level: usize,
        segments: Vec<Segment>,
        /// Sentinel-delimited text the parser could not structurally
        /// classify, preserved by content.
        unknown: Vec<u8>,
        /// Identifiers of messages removed from the release window.
        removed_messages: Vec<Vec<u8>>,
    },
}

#[verifier::ext_equal]
pub ghost enum SectionV {
    Verbatim { text: Seq<u8>, generated: bool },
    Release {
        name: VersionV,
        version_prefix: Seq<u8>,
        date: Option<Date>,
        heading_level: usize,
        segments: Seq<SegmentV>,
        unknown: Seq<u8>,
        removed_messages: Seq<Seq<u8>>,
    },
}

impl View for Section {
    type V = SectionV;

    open spec fn view(&self) -> SectionV {
        match self {
            Section::Verbatim { text, generated } => SectionV::Verbatim {
                text: text@,
                generated: *generated,
            },
            Section::Release {
                name,
                version_prefix,
                date,
                heading_level,
                segments,
                unknown,
                removed_messages,
            } => SectionV::Release {
                name: name@,
                version_prefix: version_prefix@,
                date: *date,
                heading_level: *heading_level,
                segments: segs_view(*segments),
                unknown: unknown@,
                removed_messages: removed_messages@.map_values(|m: Vec<u8>| m@),
            },
        }
    }
}

impl Section {
    /// The reserved opening tag that bounds unclassified content; anything
    /// between the pair is preserved byte for byte.
    pub const UNKNOWN_TAG_START: &'static str = "<csr-unknown>";

    /// The reserved closing tag that bounds unclassified content.
    pub const UNKNOWN_TAG_END: &'static str = "</csr-unknown>";
}

/// The abstract value of a vector of sections.
pub open spec fn secs_view(v: Vec<Section>) -> Seq<SectionV> {
    v@.map_values(|s: Section| s@)
}

/// The release name of a section; `Unreleased` for a verbatim section, which
/// has none (only ever asked of release sections).
pub open spec fn section_name(s: SectionV) -> VersionV {
    match s {
        SectionV::Release { name, .. } => name,
        SectionV::Verbatim { .. } => VersionV::Unreleased,
    }
}

/// The date of a release section.
pub open spec fn sec_date(s: SectionV) -> Option<Date> {
    match s {
        SectionV::Release { date, .. } => date,
        SectionV::Verbatim { .. } => None,
    }
}

/// The segments of a release section.
pub open spec fn sec_segments(s: SectionV) -> Seq<SegmentV> {
    match s {
        SectionV::Release { segments, .. } => segments,
        SectionV::Verbatim { .. } => Seq::empty(),
    }
}

/// The unclassified text of a release section.
pub open spec fn sec_unknown(s: SectionV) -> Seq<u8> {
    match s {
        SectionV::Release { unknown, .. } => unknown,
        SectionV::Verbatim { .. } => Seq::empty(),
    }
}

} // verus!
