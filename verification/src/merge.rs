//! The merge engine: combines a parsed (authoritative) document with a
//! generated (ephemeral) one, producing an enriched document that preserves
//! authoritative content.
use vstd::prelude::*;

verus! {

use crate::section::{sec_date, sec_segments, sec_unknown, secs_view, section_name, Section, SectionV};
use crate::segment::{
    dup_bytes, dup_segment, is_kind, segs_view, spec_is_read_only, Data, DataV, Segment,
    SegmentKind, SegmentV,
};
use crate::version::{version_eq, Semver, SemverV, Version, VersionV};
use crate::ChangeLog;

/// A violated precondition of the upstream generator: the generated input
/// held a shape that is never machine-produced. This is a generator bug,
/// never bad user input.
#[derive(Clone, Copy, Debug, PartialEq, Eq, Structural)]
pub enum MergeError {
    /// A verbatim section of the generated input is not flagged as generated.
    HandWrittenVerbatim,
    /// A verbatim section stands after a release in the generated input.
    MisplacedVerbatim,
    /// A user-authored segment stands inside a generated release.
    UserSegmentInGenerated,
    /// A parsed-marker segment stands inside a generated release.
    ParsedMarkerInGenerated,
    /// A generated release carries unclassified text.
    UnknownInGenerated,
    /// A merge into or from a verbatim section was requested.
    VerbatimMerge,
}

// ---------------------------------------------------------------------------
// Well-formedness of generated input
// ---------------------------------------------------------------------------
/// The violation a single generated segment shows, if any.
pub open spec fn seg_violation(s: SegmentV) -> Option<MergeError> {
    match s {
        SegmentV::User { .. } => Some(MergeError::UserSegmentInGenerated),
        SegmentV::Clippy(DataV::Parsed) => Some(MergeError::ParsedMarkerInGenerated),
        SegmentV::Statistics(DataV::Parsed) => Some(MergeError::ParsedMarkerInGenerated),
        SegmentV::Details(DataV::Parsed) => Some(MergeError::ParsedMarkerInGenerated),
        _ => None,
    }
}

/// The first violation among the segments from index `i` on.
pub open spec fn segs_violation(segs: Seq<SegmentV>, i: int) -> Option<MergeError>
    decreases segs.len() - i,
{
    if i < 0 || i >= segs.len() {
        None
    } else {
        match seg_violation(segs[i]) {
            Some(e) => Some(e),
            None => segs_violation(segs, i + 1),
        }
    }
}

/// The violation a generated release section shows, if any; a verbatim
/// section is no release to merge from.
pub open spec fn release_violation(s: SectionV) -> Option<MergeError> {
    match s {
        SectionV::Release { segments, unknown, .. } => if unknown.len() > 0 {
            Some(MergeError::UnknownInGenerated)
        } else {
            segs_violation(segments, 0)
        },
        SectionV::Verbatim { .. } => Some(MergeError::VerbatimMerge),
    }
}

/// The first violation of the generated-document shape from section `i` on,
/// given whether a release was already seen.
pub open spec fn gen_violation(secs: Seq<SectionV>, i: int, seen_release: bool) -> Option<
    MergeError,
>
    decreases secs.len() - i,
{
    if i < 0 || i >= secs.len() {
        None
    } else {
        match secs[i] {
            SectionV::Verbatim { generated, .. } => if seen_release {
                Some(MergeError::MisplacedVerbatim)
            } else if !generated {
                Some(MergeError::HandWrittenVerbatim)
            } else {
                gen_violation(secs, i + 1, seen_release)
            },
            SectionV::Release { .. } => match release_violation(secs[i]) {
                Some(e) => Some(e),
                None => gen_violation(secs, i + 1, true),
            },
        }
    }
}

/// The first violation of the generated-document shape, if any.
pub open spec fn spec_generated_violation(secs: Seq<SectionV>) -> Option<MergeError> {
    gen_violation(secs, 0, false)
}

/// A generated document is well-formed: verbatim sections only at the front
/// and flagged generated, and every release fully populated, with no user
/// segments, no parsed markers and no unclassified text.
pub open spec fn generated_well_formed(secs: Seq<SectionV>) -> bool {
    spec_generated_violation(secs) is None
}

// ---------------------------------------------------------------------------
// Version distance
// ---------------------------------------------------------------------------
/// A signed per-component distance between two versions. Components are wide
/// enough to hold any difference of two release numbers exactly.
#[derive(Clone, Copy, Debug, PartialEq, Eq, Structural)]
pub struct Distance {
    pub d0: i128,
    pub d1: i128,
    pub d2: i128,
}

pub open spec fn dist_view(d: Distance) -> (int, int, int) {
    (d.d0 as int, d.d1 as int, d.d2 as int)
}

/// The maximal distance: given to sections that must never win the
/// nearest-neighbour search while any concrete release exists.
pub open spec fn max3() -> (int, int, int) {
    (i128::MAX as int, i128::MAX as int, i128::MAX as int)
}

pub open spec fn abs_i(x: int) -> int {
    if x < 0 {
        -x
    } else {
        x
    }
}

pub open spec fn abs3(d: (int, int, int)) -> (int, int, int) {
    (abs_i(d.0), abs_i(d.1), abs_i(d.2))
}

/// Strict lexicographic order on distance triples.
pub open spec fn lex3_lt(a: (int, int, int), b: (int, int, int)) -> bool {
    a.0 < b.0 || (a.0 == b.0 && (a.1 < b.1 || (a.1 == b.1 && a.2 < b.2)))
}

/// The signed distance `to - from`, maximal when `from` is not a concrete
/// version.
pub open spec fn spec_version_distance(from: VersionV, to: SemverV) -> (int, int, int) {
    match from {
        VersionV::Unreleased => max3(),
        VersionV::Semantic(f) => (
            to.major - f.major,
            to.minor - f.minor,
            to.patch - f.patch,
        ),
    }
}

/// The distance from a section to the version `to`; a verbatim section is
/// maximally far in every component.
pub open spec fn section_distance(s: SectionV, to: SemverV) -> (int, int, int) {
    match s {
        SectionV::Verbatim { .. } => max3(),
        SectionV::Release { name, .. } => spec_version_distance(name, to),
    }
}

pub(crate) fn max_distance() -> (d: Distance)
    ensures
        dist_view(d) == max3(),
{
    Distance { d0: i128::MAX, d1: i128::MAX, d2: i128::MAX }
}

/// Computes the signed distance `to - from`.
pub(crate) fn version_distance(from: &Version, to: &Semver) -> (d: Distance)
    ensures
        dist_view(d) == spec_version_distance(from@, to@),
{
    match from {
        Version::Unreleased => max_distance(),
        Version::Semantic(f) => Distance {
            d0: to.major as i128 - f.major as i128,
            d1: to.minor as i128 - f.minor as i128,
            d2: to.patch as i128 - f.patch as i128,
        },
    }
}

/// The absolute value of each component.
pub fn abs_distance(d: Distance) -> (r: Distance)
    requires
        d.d0 > i128::MIN,
        d.d1 > i128::MIN,
        d.d2 > i128::MIN,
    ensures
        dist_view(r) == abs3(dist_view(d)),
{
    Distance {
        d0: if d.d0 < 0 {
            -d.d0
        } else {
            d.d0
        },
        d1: if d.d1 < 0 {
            -d.d1
        } else {
            d.d1
        },
        d2: if d.d2 < 0 {
            -d.d2
        } else {
            d.d2
        },
    }
}

/// Decides the strict lexicographic order on distances.
pub(crate) fn dist_lt(a: &Distance, b: &Distance) -> (r: bool)
    ensures
        r == lex3_lt(dist_view(*a), dist_view(*b)),
{
    a.d0 < b.d0 || (a.d0 == b.d0 && (a.d1 < b.d1 || (a.d1 == b.d1 && a.d2 < b.d2)))
}

// ---------------------------------------------------------------------------
// Target selection
// ---------------------------------------------------------------------------
/// Where a generated release goes: merged into an existing section, or
/// inserted at a position.
pub enum Insertion {
    MergeWith(usize),
    At(usize),
}

pub ghost enum InsertionSpec {
    MergeWith(int),
    At(int),
}

pub open spec fn insertion_view(r: Insertion) -> InsertionSpec {
    match r {
        Insertion::MergeWith(p) => InsertionSpec::MergeWith(p as int),
        Insertion::At(p) => InsertionSpec::At(p as int),
    }
}

/// Whether section `s` is a release named `w`.
pub open spec fn is_release_named(s: SectionV, w: VersionV) -> bool {
    s is Release && section_name(s) == w
}

/// The first index at or after `i` of a release named `w`, or the length.
pub open spec fn first_exact_from(secs: Seq<SectionV>, w: VersionV, i: int) -> int
    decreases secs.len() - i,
{
    if i < 0 || i >= secs.len() {
        secs.len() as int
    } else if is_release_named(secs[i], w) {
        i
    } else {
        first_exact_from(secs, w, i + 1)
    }
}

/// The nearest-neighbour fold: scans sections from `i` keeping the position
/// and distance of the section with the smallest absolute distance so far;
/// the first encountered wins ties.
pub open spec fn argmin_from(
    secs: Seq<SectionV>,
    to: SemverV,
    i: int,
    best_pos: int,
    best: (int, int, int),
) -> (int, (int, int, int))
    decreases secs.len() - i,
{
    if i < 0 || i >= secs.len() {
        (best_pos, best)
    } else {
        let cur = section_distance(secs[i], to);
        if lex3_lt(abs3(cur), abs3(best)) {
            argmin_from(secs, to, i + 1, i, cur)
        } else {
            argmin_from(secs, to, i + 1, best_pos, best)
        }
    }
}

/// Where a generated release named `wanted` goes among `secs`: merged into
/// the first exact version match; `Unreleased` inserted at the anchor
/// position; otherwise before or after the nearest existing release by
/// absolute version distance (after it when the generated version is older).
pub open spec fn spec_find_target(
    wanted: VersionV,
    secs: Seq<SectionV>,
    first_release_index: int,
) -> InsertionSpec {
    if secs.len() == 0 {
        InsertionSpec::At(0)
    } else {
        let fe = first_exact_from(secs, wanted, 0);
        if fe < secs.len() {
            InsertionSpec::MergeWith(fe)
        } else {
            match wanted {
                VersionV::Unreleased => InsertionSpec::At(first_release_index),
                VersionV::Semantic(to) => {
                    let pr = argmin_from(secs, to, 0, -1, max3());
                    let pos = if pr.0 == -1 {
                        secs.len() as int
                    } else {
                        pr.0
                    };
                    if lex3_lt(pr.1, (0int, 0int, 0int)) {
                        InsertionSpec::At(pos + 1)
                    } else {
                        InsertionSpec::At(pos)
                    }
                },
            }
        }
    }
}

proof fn lemma_argmin_bounds(
    secs: Seq<SectionV>,
    to: SemverV,
    i: int,
    best_pos: int,
    best: (int, int, int),
)
    requires
        0 <= i,
        -1 <= best_pos < secs.len(),
        best_pos == -1 ==> best == max3(),
    ensures
        ({
            let r = argmin_from(secs, to, i, best_pos, best);
            -1 <= r.0 < secs.len() && (r.0 == -1 ==> r.1 == max3())
        }),
    decreases secs.len() - i,
{
    if 0 <= i < secs.len() {
        let cur = section_distance(secs[i], to);
        if lex3_lt(abs3(cur), abs3(best)) {
            lemma_argmin_bounds(secs, to, i + 1, i, cur);
        } else {
            lemma_argmin_bounds(secs, to, i + 1, best_pos, best);
        }
    }
}

/// Picks the merge target or insertion point for `wanted` among `sections`.
pub fn find_target_section(
    wanted: &Version,
    sections: &Vec<Section>,
    first_release_index: usize,
) -> (r: Insertion)
    requires
        first_release_index <= sections@.len(),
    ensures
        insertion_view(r) == spec_find_target(
            wanted@,
            secs_view(*sections),
            first_release_index as int,
        ),
        (r matches Insertion::MergeWith(p) ==> p < sections@.len() && secs_view(
            *sections,
        )[p as int] is Release),
        (r matches Insertion::At(p) ==> p <= sections@.len()),
{
    let ghost secsv = secs_view(*sections);
    if sections.is_empty() {
        return Insertion::At(0);
    }
    let mut i: usize = 0;
    while i < sections.len()
        invariant
            i <= secsv.len(),
            secsv == secs_view(*sections),
            secsv.len() == sections@.len(),
            first_exact_from(secsv, wanted@, 0) == first_exact_from(secsv, wanted@, i as int),
        decreases secsv.len() - i,
    {
        let mut hit = false;
        if let Section::Release { name, .. } = &sections[i] {
            if version_eq(name, wanted) {
                hit = true;
            }
        }
        if hit {
            assert(is_release_named(secsv[i as int], wanted@));
            assert(first_exact_from(secsv, wanted@, i as int) == i);
            return Insertion::MergeWith(i);
        }
        assert(!is_release_named(secsv[i as int], wanted@));
        i += 1;
    }
    assert(first_exact_from(secsv, wanted@, 0) == secsv.len());
    match wanted {
        Version::Unreleased => Insertion::At(first_release_index),
        Version::Semantic(to) => {
            let mut best = max_distance();
            let mut have = false;
            let mut pos: usize = 0;
            let mut j: usize = 0;
            while j < sections.len()
                invariant
                    j <= secsv.len(),
                    secsv == secs_view(*sections),
                    secsv.len() == sections@.len(),
                    have ==> pos < j,
                    best.d0 > i128::MIN && best.d1 > i128::MIN && best.d2 > i128::MIN,
                    !have ==> dist_view(best) == max3(),
                    argmin_from(secsv, to@, j as int, if have { pos as int } else { -1 }, dist_view(best))
                        == argmin_from(secsv, to@, 0, -1, max3()),
                decreases secsv.len() - j,
            {
                let cur = match &sections[j] {
                    Section::Verbatim { .. } => max_distance(),
                    Section::Release { name, .. } => version_distance(name, to),
                };
                assert(dist_view(cur) == section_distance(secsv[j as int], to@));
                if dist_lt(&abs_distance(cur), &abs_distance(best)) {
                    best = cur;
                    pos = j;
                    have = true;
                }
                j += 1;
            }
            proof {
                lemma_argmin_bounds(secsv, to@, 0, -1, max3());
            }
            let final_pos = if have {
                pos
            } else {
                sections.len()
            };
            let zero = Distance { d0: 0, d1: 0, d2: 0 };
            if dist_lt(&best, &zero) {
                Insertion::At(final_pos + 1)
            } else {
                Insertion::At(final_pos)
            }
        },
    }
}

// ---------------------------------------------------------------------------
// Segment reconciliation
// ---------------------------------------------------------------------------
/// Whether any segment is read-only (generated) content.
pub open spec fn spec_has_read_only(segs: Seq<SegmentV>) -> bool {
    exists|j: int| 0 <= j < segs.len() && spec_is_read_only(#[trigger] segs[j])
}

/// The generated kind of a segment, `None` for user-authored content.
pub open spec fn segment_kind_spec(s: SegmentV) -> Option<SegmentKind> {
    match s {
        SegmentV::User { .. } => None,
        SegmentV::Clippy(_) => Some(SegmentKind::Clippy),
        SegmentV::Statistics(_) => Some(SegmentKind::Statistics),
        SegmentV::Details(_) => Some(SegmentKind::Details),
    }
}

/// Every segment of kind `k` replaced by `insert`, the rest kept in place.
pub open spec fn replace_all_kind(
    segs: Seq<SegmentV>,
    k: SegmentKind,
    insert: SegmentV,
) -> Seq<SegmentV>
    decreases segs.len(),
{
    if segs.len() == 0 {
        Seq::empty()
    } else {
        replace_all_kind(segs.drop_last(), k, insert).push(
            if is_kind(segs.last(), k) {
                insert
            } else {
                segs.last()
            },
        )
    }
}

pub proof fn lemma_replace_all_kind_index(segs: Seq<SegmentV>, k: SegmentKind, insert: SegmentV)
    ensures
        replace_all_kind(segs, k, insert).len() == segs.len(),
        forall|i: int|
            0 <= i < segs.len() ==> replace_all_kind(segs, k, insert)[i] == (if is_kind(
                #[trigger] segs[i],
                k,
            ) {
                insert
            } else {
                segs[i]
            }),
    decreases segs.len(),
{
    if segs.len() > 0 {
        lemma_replace_all_kind_index(segs.drop_last(), k, insert);
        assert forall|i: int|
            0 <= i < segs.len() implies replace_all_kind(segs, k, insert)[i] == (if is_kind(
            #[trigger] segs[i],
            k,
        ) {
            insert
        } else {
            segs[i]
        }) by {
            if i < segs.len() - 1 {
                assert(segs.drop_last()[i] == segs[i]);
            }
        }
    }
}

/// Replaces every segment of kind `k` by `insert`; when none exists it is
/// appended only if `append_if_missing`.
pub open spec fn spec_merge_read_only(
    segs: Seq<SegmentV>,
    k: SegmentKind,
    insert: SegmentV,
    append_if_missing: bool,
) -> Seq<SegmentV> {
    if exists|j: int| 0 <= j < segs.len() && is_kind(#[trigger] segs[j], k) {
        replace_all_kind(segs, k, insert)
    } else if append_if_missing {
        segs.push(insert)
    } else {
        segs
    }
}

/// Folds every generated segment of `src` from index `i` into `cur`.
pub open spec fn spec_merge_segments(
    cur: Seq<SegmentV>,
    src: Seq<SegmentV>,
    i: int,
    append_if_missing: bool,
) -> Seq<SegmentV>
    decreases src.len() - i,
{
    if i < 0 || i >= src.len() {
        cur
    } else {
        let cur2 = match segment_kind_spec(src[i]) {
            Some(k) => spec_merge_read_only(cur, k, src[i], append_if_missing),
            None => cur,
        };
        spec_merge_segments(cur2, src, i + 1, append_if_missing)
    }
}

/// Merging a generated release into an existing one: the date is overwritten
/// and each generated read-only segment replaces all segments of its kind;
/// a kind that is absent is appended only when the destination held no
/// read-only segment at all. Everything else of the destination is kept.
pub open spec fn spec_section_merge(dest: SectionV, src: SectionV) -> SectionV {
    match (dest, src) {
        (
            SectionV::Release {
                name,
                version_prefix,
                date: _,
                heading_level,
                segments,
                unknown,
                removed_messages,
            },
            SectionV::Release { date: src_date, segments: src_segments, .. },
        ) => {
            let append_if_missing = !spec_has_read_only(segments);
            SectionV::Release {
                name,
                version_prefix,
                date: src_date,
                heading_level,
                segments: spec_merge_segments(segments, src_segments, 0, append_if_missing),
                unknown,
                removed_messages,
            }
        },
        _ => dest,
    }
}

/// The violation a merge of `src` into `dest` shows, if any: both must be
/// release sections and `src` must be well-formed generated content.
pub open spec fn section_merge_violation(dest: SectionV, src: SectionV) -> Option<MergeError> {
    if !(dest is Release) || !(src is Release) {
        Some(MergeError::VerbatimMerge)
    } else {
        release_violation(src)
    }
}

fn seg_violation_exec(s: &Segment) -> (r: Option<MergeError>)
    ensures
        r == seg_violation(s@),
{
    match s {
        Segment::User { .. } => Some(MergeError::UserSegmentInGenerated),
        Segment::Clippy(Data::Parsed) => Some(MergeError::ParsedMarkerInGenerated),
        Segment::Statistics(Data::Parsed) => Some(MergeError::ParsedMarkerInGenerated),
        Segment::Details(Data::Parsed) => Some(MergeError::ParsedMarkerInGenerated),
        _ => None,
    }
}

fn release_violation_exec(s: &Section) -> (r: Option<MergeError>)
    ensures
        r == release_violation(s@),
{
    match s {
        Section::Verbatim { .. } => Some(MergeError::VerbatimMerge),
        Section::Release { segments, unknown, .. } => {
            let ghost segsv = segs_view(*segments);
            if unknown.len() > 0 {
                return Some(MergeError::UnknownInGenerated);
            }
            let mut i: usize = 0;
            assert(release_violation(s@) == segs_violation(segsv, 0));
            while i < segments.len()
                invariant
                    i <= segsv.len(),
                    segsv == segs_view(*segments),
                    segsv.len() == segments@.len(),
                    segs_violation(segsv, 0) == segs_violation(segsv, i as int),
                    release_violation(s@) == segs_violation(segsv, 0),
                decreases segsv.len() - i,
            {
                let sv = seg_violation_exec(&segments[i]);
                proof {
                    assert(segsv[i as int] == segments@[i as int]@);
                }
                if let Some(e) = sv {
                    proof {
                        assert(segs_violation(segsv, i as int) == Some(e));
                    }
                    return Some(e);
                }
                i += 1;
            }
            None
        },
    }
}

fn has_read_only(segs: &Vec<Segment>) -> (r: bool)
    ensures
        r == spec_has_read_only(segs_view(*segs)),
{
    let ghost segsv = segs_view(*segs);
    let mut i: usize = 0;
    while i < segs.len()
        invariant
            i <= segsv.len(),
            segsv == segs_view(*segs),
            segsv.len() == segs@.len(),
            forall|j: int| 0 <= j < i ==> !spec_is_read_only(#[trigger] segsv[j]),
        decreases segsv.len() - i,
    {
        if segs[i].is_read_only() {
            proof {
                assert(spec_is_read_only(segsv[i as int]));
            }
            return true;
        }
        i += 1;
    }
    false
}

fn segment_kind_exec(s: &Segment) -> (r: Option<SegmentKind>)
    ensures
        r == segment_kind_spec(s@),
{
    match s {
        Segment::User { .. } => None,
        Segment::Clippy(_) => Some(SegmentKind::Clippy),
        Segment::Statistics(_) => Some(SegmentKind::Statistics),
        Segment::Details(_) => Some(SegmentKind::Details),
    }
}

/// Replaces every destination segment of kind `kind` by a copy of `insert`;
/// appends it when the kind is absent and `append_if_missing` holds.
pub fn merge_read_only_segment(
    dest: &mut Vec<Segment>,
    kind: SegmentKind,
    insert: &Segment,
    append_if_missing: bool,
)
    ensures
        segs_view(*final(dest)) == spec_merge_read_only(
            segs_view(*old(dest)),
            kind,
            insert@,
            append_if_missing,
        ),
{
    let ghost dest0 = segs_view(*old(dest));
    let mut found = false;
    let mut i: usize = 0;
    while i < dest.len()
        invariant
            i <= dest0.len(),
            dest@.len() == dest0.len(),
            forall|j: int|
                0 <= j < i ==> #[trigger] dest@[j]@ == (if is_kind(dest0[j], kind) {
                    insert@
                } else {
                    dest0[j]
                }),
            forall|j: int| i <= j < dest0.len() ==> #[trigger] dest@[j]@ == dest0[j],
            found == exists|j: int| 0 <= j < i && is_kind(#[trigger] dest0[j], kind),
        decreases dest0.len() - i,
    {
        if dest[i].has_kind(kind) {
            let copy = dup_segment(insert);
            dest[i] = copy;
            found = true;
        }
        i += 1;
    }
    if found {
        proof {
            lemma_replace_all_kind_index(dest0, kind, insert@);
            assert(segs_view(*dest) =~= replace_all_kind(dest0, kind, insert@));
        }
    } else {
        if append_if_missing {
            dest.push(dup_segment(insert));
            proof {
                assert(segs_view(*dest) =~= dest0.push(insert@));
            }
        } else {
            proof {
                assert(segs_view(*dest) =~= dest0);
            }
        }
    }
}

impl Section {
    /// Merges the generated release `src` into this parsed release: the date
    /// is refreshed and read-only segments are reconciled; user-authored
    /// segments are untouched. Fails, leaving `self` unchanged, exactly when
    /// one side is a verbatim section or `src` is not well-formed generated
    /// content.
    pub fn merge(&mut self, src: Section) -> (r: Result<(), MergeError>)
        ensures
            r is Ok <==> section_merge_violation(old(self)@, src@) is None,
            (r matches Ok(()) ==> final(self)@ == spec_section_merge(old(self)@, src@)),
            (r matches Err(e) ==> final(self)@ == old(self)@ && Some(e) == section_merge_violation(
                old(self)@,
                src@,
            )),
    {
        let not_release = matches!(self, Section::Verbatim { .. }) || matches!(
            &src,
            Section::Verbatim { .. },
        );
        if not_release {
            return Err(MergeError::VerbatimMerge);
        }
        if let Some(e) = release_violation_exec(&src) {
            return Err(e);
        }
        let mut tmp = Section::Verbatim { text: Vec::new(), generated: false };
        core::mem::swap(self, &mut tmp);
        match (tmp, src) {
            (
                Section::Release {
                    name,
                    version_prefix,
                    date: _,
                    heading_level,
                    mut segments,
                    unknown,
                    removed_messages,
                },
                Section::Release { date: src_date, segments: src_segments, .. },
            ) => {
                let ghost dest0 = segs_view(segments);
                let ghost srcv = segs_view(src_segments);
                let append_if_missing = !has_read_only(&segments);
                let mut i: usize = 0;
                while i < src_segments.len()
                    invariant
                        i <= srcv.len(),
                        srcv == segs_view(src_segments),
                        srcv.len() == src_segments@.len(),
                        spec_merge_segments(
                            segs_view(segments),
                            srcv,
                            i as int,
                            append_if_missing,
                        ) == spec_merge_segments(dest0, srcv, 0, append_if_missing),
                    decreases srcv.len() - i,
                {
                    let seg = &src_segments[i];
                    if let Some(k) = segment_kind_exec(seg) {
                        merge_read_only_segment(&mut segments, k, seg, append_if_missing);
                    }
                    i += 1;
                }
                *self = Section::Release {
                    name,
                    version_prefix,
                    date: src_date,
                    heading_level,
                    segments,
                    unknown,
                    removed_messages,
                };
                proof {
                    assert(self@ =~= spec_section_merge(old(self)@, src@));
                }
                Ok(())
            },
            _ => {
                proof {
                    assert(false);
                }
                Err(MergeError::VerbatimMerge)
            },
        }
    }
}

// ---------------------------------------------------------------------------
// Whole-document merge
// ---------------------------------------------------------------------------
/// Whether a generated verbatim section may be put in front of this section:
/// only a release or an already-generated verbatim section, never a
/// hand-written prologue.
pub open spec fn front_accepts(s: SectionV) -> bool {
    match s {
        SectionV::Release { .. } => true,
        SectionV::Verbatim { generated, .. } => generated,
    }
}

fn front_accepts_exec(s: &Section) -> (r: bool)
    ensures
        r == front_accepts(s@),
{
    match s {
        Section::Release { .. } => true,
        Section::Verbatim { generated, .. } => *generated,
    }
}

/// Moves the leading generated verbatim sections of `gen` (from index `i`)
/// to the front of `cur`, each only while the current first section accepts
/// it; a refused one is dropped. Stops at the first release.
pub open spec fn spec_prepend_verbatim(
    cur: Seq<SectionV>,
    gen: Seq<SectionV>,
    i: int,
) -> Seq<SectionV>
    decreases gen.len() - i,
{
    if i < 0 || i >= gen.len() {
        cur
    } else {
        match gen[i] {
            SectionV::Verbatim { .. } => {
                let cur2 = if cur.len() > 0 && front_accepts(cur[0]) {
                    cur.insert(0, gen[i])
                } else {
                    cur
                };
                spec_prepend_verbatim(cur2, gen, i + 1)
            },
            SectionV::Release { .. } => cur,
        }
    }
}

/// The index of the first release of `gen` at or after `i`, or the length.
pub open spec fn skip_leading_verbatim(gen: Seq<SectionV>, i: int) -> int
    decreases gen.len() - i,
{
    if i < 0 || i >= gen.len() {
        gen.len() as int
    } else if gen[i] is Verbatim {
        skip_leading_verbatim(gen, i + 1)
    } else {
        i
    }
}

/// The index of the first release section at or after `i`, or the length.
pub open spec fn spec_first_release(secs: Seq<SectionV>, i: int) -> int
    decreases secs.len() - i,
{
    if i < 0 || i >= secs.len() {
        secs.len() as int
    } else if secs[i] is Release {
        i
    } else {
        spec_first_release(secs, i + 1)
    }
}

pub open spec fn level_of(s: SectionV) -> usize {
    match s {
        SectionV::Release { heading_level, .. } => heading_level,
        SectionV::Verbatim { .. } => 0,
    }
}

pub open spec fn prefix_of(s: SectionV) -> Seq<u8> {
    match s {
        SectionV::Release { version_prefix, .. } => version_prefix,
        SectionV::Verbatim { .. } => Seq::empty(),
    }
}

/// A release section restyled to the anchor's heading level and version
/// prefix; a verbatim section is unchanged.
pub open spec fn restyle_spec(s: SectionV, level: usize, prefix: Seq<u8>) -> SectionV {
    match s {
        SectionV::Release {
            name,
            version_prefix: _,
            date,
            heading_level: _,
            segments,
            unknown,
            removed_messages,
        } => SectionV::Release {
            name,
            version_prefix: prefix,
            date,
            heading_level: level,
            segments,
            unknown,
            removed_messages,
        },
        SectionV::Verbatim { .. } => s,
    }
}

fn restyle(s: Section, level: usize, prefix: &Vec<u8>) -> (r: Section)
    ensures
        r@ == restyle_spec(s@, level, prefix@),
{
    match s {
        Section::Release {
            name,
            version_prefix: _,
            date,
            heading_level: _,
            segments,
            unknown,
            removed_messages,
        } => {
            let r = Section::Release {
                name,
                version_prefix: dup_bytes(prefix),
                date,
                heading_level: level,
                segments,
                unknown,
                removed_messages,
            };
            proof {
                assert(r@ =~= restyle_spec(
                    SectionV::Release {
                        name: name@,
                        version_prefix: Seq::empty(),
                        date,
                        heading_level: 0,
                        segments: segs_view(segments),
                        unknown: unknown@,
                        removed_messages: removed_messages@.map_values(|m: Vec<u8>| m@),
                    },
                    level,
                    prefix@,
                ));
            }
            r
        },
        v => v,
    }
}

/// Folds the remaining generated releases (from index `i`) into `secs`,
/// merging each into its exact version match or inserting it restyled to the
/// anchor.
pub open spec fn spec_merge_releases(
    secs: Seq<SectionV>,
    gen: Seq<SectionV>,
    i: int,
    anchor_pos: int,
    anchor_level: usize,
    anchor_prefix: Seq<u8>,
) -> Seq<SectionV>
    decreases gen.len() - i,
{
    if i < 0 || i >= gen.len() {
        secs
    } else {
        let g = gen[i];
        if !(g is Release) {
            spec_merge_releases(secs, gen, i + 1, anchor_pos, anchor_level, anchor_prefix)
        } else {
            let secs2 = match spec_find_target(section_name(g), secs, anchor_pos) {
                InsertionSpec::MergeWith(p) => secs.update(p, spec_section_merge(secs[p], g)),
                InsertionSpec::At(p) => secs.insert(p, restyle_spec(g, anchor_level, anchor_prefix)),
            };
            spec_merge_releases(secs2, gen, i + 1, anchor_pos, anchor_level, anchor_prefix)
        }
    }
}

/// The merged document, assuming `gen` is well-formed generated content.
pub open spec fn spec_merge_ok(parsed: Seq<SectionV>, gen: Seq<SectionV>) -> Seq<SectionV> {
    if parsed.len() == 0 {
        gen
    } else {
        let p2 = spec_prepend_verbatim(parsed, gen, 0);
        let rel_start = skip_leading_verbatim(gen, 0);
        let fr = spec_first_release(p2, 0);
        if fr >= p2.len() {
            p2 + gen.skip(rel_start)
        } else {
            spec_merge_releases(p2, gen, rel_start, fr, level_of(p2[fr]), prefix_of(p2[fr]))
        }
    }
}

proof fn lemma_wf_after(secs: Seq<SectionV>, i: int)
    requires
        0 <= i,
        gen_violation(secs, i, true) is None,
    ensures
        forall|j: int|
            i <= j < secs.len() ==> (#[trigger] secs[j]) is Release && release_violation(secs[j])
                is None,
    decreases secs.len() - i,
{
    if i < secs.len() {
        match secs[i] {
            SectionV::Verbatim { .. } => {
                assert(false);
            },
            SectionV::Release { .. } => {
                lemma_wf_after(secs, i + 1);
            },
        }
    }
}

proof fn lemma_wf_skip(secs: Seq<SectionV>, i: int)
    requires
        0 <= i,
        gen_violation(secs, i, false) is None,
    ensures
        forall|j: int|
            skip_leading_verbatim(secs, i) <= j < secs.len() ==> (#[trigger] secs[j]) is Release
                && release_violation(secs[j]) is None,
    decreases secs.len() - i,
{
    if i < secs.len() {
        match secs[i] {
            SectionV::Verbatim { .. } => {
                lemma_wf_skip(secs, i + 1);
            },
            SectionV::Release { .. } => {
                lemma_wf_after(secs, i + 1);
            },
        }
    }
}

/// Checks a generated document for the forbidden shapes and names the first.
pub fn check_generated(log: &ChangeLog) -> (r: Option<MergeError>)
    ensures
        r == spec_generated_violation(log@),
{
    let ghost secsv = log@;
    let mut seen_release = false;
    let mut i: usize = 0;
    while i < log.sections.len()
        invariant
            i <= secsv.len(),
            secsv == secs_view(log.sections),
            secsv.len() == log.sections@.len(),
            gen_violation(secsv, 0, false) == gen_violation(secsv, i as int, seen_release),
        decreases secsv.len() - i,
    {
        match &log.sections[i] {
            Section::Verbatim { generated, .. } => {
                if seen_release {
                    return Some(MergeError::MisplacedVerbatim);
                }
                if !*generated {
                    return Some(MergeError::HandWrittenVerbatim);
                }
            },
            Section::Release { .. } => {
                if let Some(e) = release_violation_exec(&log.sections[i]) {
                    return Some(e);
                }
                seen_release = true;
            },
        }
        i += 1;
    }
    None
}

impl ChangeLog {
    /// Brings the freshly generated `rhs` into this parsed document,
    /// preserving everything authoritative while enriching it: leading
    /// generated verbatim sections are prepended only in front of generated
    /// content, each generated release is merged into its exact version match
    /// or inserted next to its nearest neighbour by version distance, restyled
    /// to the first parsed release's heading style.
    ///
    /// Succeeds exactly when `rhs` is well-formed generated content; an
    /// ill-formed `rhs` is a generator bug and is reported as such.
    /// Merging into an empty document yields `rhs` unchanged.
    pub fn merge_generated(self, rhs: ChangeLog) -> (r: Result<ChangeLog, MergeError>)
        ensures
            r is Ok <==> generated_well_formed(rhs@),
            (r matches Ok(m) ==> m@ == spec_merge_ok(self@, rhs@)),
            self@.len() == 0 ==> (r matches Ok(m) ==> m@ == rhs@),
            (r matches Err(e) ==> Some(e) == spec_generated_violation(rhs@)),
    {
        if let Some(e) = check_generated(&rhs) {
            return Err(e);
        }
        let ghost parsed0 = self@;
        let ghost genv = rhs@;
        let ChangeLog { mut sections } = self;
        if sections.is_empty() {
            return Ok(rhs);
        }
        assert(parsed0 == secs_view(sections));
        let mut to_merge = rhs.sections;
        assert(genv == secs_view(to_merge));
        let ghost rel_start = skip_leading_verbatim(genv, 0);
        proof {
            lemma_skip_leading_ge(genv, 0);
        }
        merge_generated_verbatim_section_if_there_is_only_releases_on_lhs(
            &mut to_merge,
            &mut sections,
        );
        let ghost mut gi: int = rel_start;
        let ghost p2 = secs_view(sections);
        // Anchor: the first parsed release supplies the heading style for
        // every newly inserted release.
        let fr = first_release_index(&sections);
        if fr == sections.len() {
            assert(spec_first_release(p2, 0) == p2.len());
            sections.append(&mut to_merge);
            proof {
                assert(secs_view(sections) =~= p2 + genv.skip(rel_start));
            }
            return Ok(ChangeLog { sections });
        }
        let (anchor_level, anchor_prefix): (usize, Vec<u8>) = match &sections[fr] {
            Section::Release { heading_level, version_prefix, .. } => (
                *heading_level,
                dup_bytes(version_prefix),
            ),
            Section::Verbatim { .. } => {
                proof {
                    assert(false);
                }
                (0, Vec::new())
            },
        };
        assert(anchor_level == level_of(p2[fr as int]));
        assert(anchor_prefix@ == prefix_of(p2[fr as int]));
        proof {
            lemma_wf_skip(genv, 0);
        }
        // Phase two: fold the generated releases in.
        loop
            invariant
                0 <= rel_start <= genv.len(),
                rel_start <= gi <= genv.len(),
                secs_view(to_merge) == genv.skip(gi),
                fr < sections@.len(),
                spec_merge_releases(
                    secs_view(sections),
                    genv,
                    gi,
                    fr as int,
                    anchor_level,
                    anchor_prefix@,
                ) == spec_merge_releases(
                    p2,
                    genv,
                    rel_start,
                    fr as int,
                    anchor_level,
                    anchor_prefix@,
                ),
                forall|j: int|
                    rel_start <= j < genv.len() ==> (#[trigger] genv[j]) is Release
                        && release_violation(genv[j]) is None,
            ensures
                secs_view(sections) == spec_merge_releases(
                    p2,
                    genv,
                    rel_start,
                    fr as int,
                    anchor_level,
                    anchor_prefix@,
                ),
            decreases genv.len() - gi,
        {
            proof {
                assert(secs_view(to_merge).len() == to_merge@.len());
            }
            if to_merge.is_empty() {
                proof {
                    assert(genv.skip(gi).len() == 0);
                    assert(gi == genv.len());
                }
                break;
            }
            let ghost secs_before = secs_view(sections);
            assert(0 <= gi < genv.len());
            assert(genv.skip(gi)[0] == genv[gi]);
            let ghost tm_before = to_merge@;
            let ghost tmv_before = secs_view(to_merge);
            let sec = to_merge.remove(0);
            proof {
                assert(sec@ == tmv_before[0]);
                assert(secs_view(to_merge).len() == genv.skip(gi + 1).len());
                assert forall|j: int|
                    0 <= j < secs_view(to_merge).len() implies #[trigger] secs_view(to_merge)[j]
                    == genv.skip(gi + 1)[j] by {
                    assert(tm_before.remove(0)[j] == tm_before[j + 1]);
                    assert(secs_view(to_merge)[j] == to_merge@[j]@);
                    assert(tmv_before[j + 1] == tm_before[j + 1]@);
                    assert(genv.skip(gi)[j + 1] == genv[gi + 1 + j]);
                    assert(genv.skip(gi + 1)[j] == genv[gi + 1 + j]);
                }
                assert(secs_view(to_merge) =~= genv.skip(gi + 1));
            }
            assert(sec@ == genv[gi]);
            assert(genv[gi] is Release);
            let tgt = match &sec {
                Section::Release { name, .. } => find_target_section(name, &sections, fr),
                Section::Verbatim { .. } => {
                    proof {
                        assert(false);
                    }
                    return Err(MergeError::MisplacedVerbatim);
                },
            };
            assert(insertion_view(tgt) == spec_find_target(section_name(sec@), secs_before, fr as int));
            match tgt {
                Insertion::MergeWith(p) => {
                    let mut d = sections.remove(p);
                    assert(d@ == secs_before[p as int]);
                    let res = d.merge(sec);
                    match res {
                        Ok(()) => {
                            sections.insert(p, d);
                            proof {
                                assert(secs_view(sections) =~= secs_before.update(
                                    p as int,
                                    spec_section_merge(secs_before[p as int], genv[gi]),
                                ));
                            }
                        },
                        Err(e) => {
                            proof {
                                assert(false);
                            }
                            return Err(e);
                        },
                    }
                },
                Insertion::At(p) => {
                    let sec2 = restyle(sec, anchor_level, &anchor_prefix);
                    sections.insert(p, sec2);
                    proof {
                        assert(secs_view(sections) =~= secs_before.insert(
                            p as int,
                            restyle_spec(genv[gi], anchor_level, anchor_prefix@),
                        ));
                    }
                },
            }
            proof {
                gi = gi + 1;
            }
        }
        Ok(ChangeLog { sections })
    }
}

/// Moves the generated input's leading verbatim sections to the front of the
/// parsed sections, each only while the current first section is a release or
/// an already-generated verbatim; a refused one is dropped. Stops at the
/// first release of the queue.
fn merge_generated_verbatim_section_if_there_is_only_releases_on_lhs(
    sections_to_merge: &mut Vec<Section>,
    sections: &mut Vec<Section>,
)
    requires
        old(sections)@.len() >= 1,
    ensures
        final(sections)@.len() >= 1,
        secs_view(*final(sections)) == spec_prepend_verbatim(
            secs_view(*old(sections)),
            secs_view(*old(sections_to_merge)),
            0,
        ),
        secs_view(*final(sections_to_merge)) == secs_view(*old(sections_to_merge)).skip(
            skip_leading_verbatim(secs_view(*old(sections_to_merge)), 0),
        ),
{
    let ghost genv = secs_view(*old(sections_to_merge));
    let ghost parsed0 = secs_view(*old(sections));
    let ghost rel_start = skip_leading_verbatim(genv, 0);
    let ghost mut gi: int = 0;
    proof {
        assert(genv.skip(0) =~= genv);
    }
    loop
        invariant
            0 <= gi <= genv.len(),
            secs_view(*sections_to_merge) == genv.skip(gi),
            sections@.len() >= 1,
            spec_prepend_verbatim(secs_view(*sections), genv, gi) == spec_prepend_verbatim(
                parsed0,
                genv,
                0,
            ),
            skip_leading_verbatim(genv, gi) == rel_start,
            rel_start == skip_leading_verbatim(genv, 0),
        ensures
            sections@.len() >= 1,
            gi == rel_start,
            secs_view(*sections_to_merge) == genv.skip(rel_start),
            secs_view(*sections) == spec_prepend_verbatim(parsed0, genv, 0),
        decreases genv.len() - gi,
    {
        let ghost secs_before = secs_view(*sections);
        proof {
            assert(secs_view(*sections_to_merge).len() == sections_to_merge@.len());
        }
        if sections_to_merge.is_empty() {
            proof {
                assert(genv.skip(gi).len() == 0);
                assert(gi == genv.len());
            }
            break;
        }
        assert(0 <= gi < genv.len());
        assert(genv.skip(gi)[0] == genv[gi]);
        if let Section::Release { .. } = &sections_to_merge[0] {
            assert(genv[gi] is Release);
            break;
        }
        assert(genv[gi] is Verbatim);
        let ghost tm_before = sections_to_merge@;
        let ghost tmv_before = secs_view(*sections_to_merge);
        let v = sections_to_merge.remove(0);
        proof {
            assert(v@ == tmv_before[0]);
            assert(secs_view(*sections_to_merge).len() == genv.skip(gi + 1).len());
            assert forall|j: int|
                0 <= j < secs_view(*sections_to_merge).len() implies #[trigger] secs_view(*sections_to_merge)[j]
                == genv.skip(gi + 1)[j] by {
                assert(tm_before.remove(0)[j] == tm_before[j + 1]);
                assert(secs_view(*sections_to_merge)[j] == sections_to_merge@[j]@);
                assert(tmv_before[j + 1] == tm_before[j + 1]@);
                assert(genv.skip(gi)[j + 1] == genv[gi + 1 + j]);
                assert(genv.skip(gi + 1)[j] == genv[gi + 1 + j]);
            }
            assert(secs_view(*sections_to_merge) =~= genv.skip(gi + 1));
        }
        if front_accepts_exec(&sections[0]) {
            sections.insert(0, v);
            proof {
                assert(secs_view(*sections) =~= secs_before.insert(0, genv[gi]));
            }
        } else {
            assert(secs_view(*sections) == secs_before);
        }
        proof {
            assert(spec_prepend_verbatim(secs_before, genv, gi) == spec_prepend_verbatim(
                secs_view(*sections),
                genv,
                gi + 1,
            ));
            gi = gi + 1;
        }
    }
}

/// The index of the first release section, or the length when none exists.
fn first_release_index(sections: &Vec<Section>) -> (r: usize)
    ensures
        r as int == spec_first_release(secs_view(*sections), 0),
        r <= sections@.len(),
        r < sections@.len() ==> secs_view(*sections)[r as int] is Release,
{
    let ghost secsv = secs_view(*sections);
    let mut i: usize = 0;
    while i < sections.len()
        invariant
            i <= secsv.len(),
            secsv == secs_view(*sections),
            secsv.len() == sections@.len(),
            spec_first_release(secsv, 0) == spec_first_release(secsv, i as int),
        decreases secsv.len() - i,
    {
        if let Section::Release { .. } = &sections[i] {
            assert(secsv[i as int] is Release);
            return i;
        }
        assert(!(secsv[i as int] is Release));
        i += 1;
    }
    sections.len()
}

// ---------------------------------------------------------------------------
// Laws of the merge
// ---------------------------------------------------------------------------
/// The user-authored segments of a release body, in their original order.
pub open spec fn users_of(segs: Seq<SegmentV>) -> Seq<SegmentV>
    decreases segs.len(),
{
    if segs.len() == 0 {
        Seq::empty()
    } else {
        users_of(segs.drop_last()) + (if segs.last() is User {
            seq![segs.last()]
        } else {
            Seq::empty()
        })
    }
}

proof fn lemma_users_replace(segs: Seq<SegmentV>, k: SegmentKind, insert: SegmentV)
    requires
        !(insert is User),
    ensures
        users_of(replace_all_kind(segs, k, insert)) == users_of(segs),
    decreases segs.len(),
{
    if segs.len() == 0 {
        assert(replace_all_kind(segs, k, insert) =~= Seq::<SegmentV>::empty());
    } else {
        lemma_users_replace(segs.drop_last(), k, insert);
        let r = replace_all_kind(segs, k, insert);
        assert(r.drop_last() =~= replace_all_kind(segs.drop_last(), k, insert));
        if segs.last() is User {
            assert(!is_kind(segs.last(), k));
            assert(r.last() == segs.last());
            assert(users_of(r) =~= users_of(segs));
        } else {
            assert(!(r.last() is User));
            assert(users_of(r) =~= users_of(segs));
        }
    }
}

proof fn lemma_users_push(segs: Seq<SegmentV>, x: SegmentV)
    requires
        !(x is User),
    ensures
        users_of(segs.push(x)) == users_of(segs),
{
    assert(segs.push(x).drop_last() =~= segs);
    assert(users_of(segs.push(x)) =~= users_of(segs));
}

proof fn lemma_users_merge_ro(segs: Seq<SegmentV>, k: SegmentKind, insert: SegmentV, ap: bool)
    requires
        !(insert is User),
    ensures
        users_of(spec_merge_read_only(segs, k, insert, ap)) == users_of(segs),
{
    if exists|j: int| 0 <= j < segs.len() && is_kind(#[trigger] segs[j], k) {
        lemma_users_replace(segs, k, insert);
    } else if ap {
        lemma_users_push(segs, insert);
    }
}

proof fn lemma_users_merge_segments(cur: Seq<SegmentV>, src: Seq<SegmentV>, i: int, ap: bool)
    ensures
        users_of(spec_merge_segments(cur, src, i, ap)) == users_of(cur),
    decreases src.len() - i,
{
    if 0 <= i < src.len() {
        match segment_kind_spec(src[i]) {
            Some(k) => {
                lemma_users_merge_ro(cur, k, src[i], ap);
                lemma_users_merge_segments(spec_merge_read_only(cur, k, src[i], ap), src, i + 1, ap);
            },
            None => {
                lemma_users_merge_segments(cur, src, i + 1, ap);
            },
        }
    }
}

/// Law: merging a generated release into an existing one updates only the
/// date and the read-only segments. Every user-authored segment of the
/// destination is untouched and the user segments keep their original order;
/// the name, heading style, unclassified text and removed messages stay.
pub proof fn lemma_merge_preserves_user_segments(dest: SectionV, src: SectionV)
    requires
        dest is Release,
        src is Release,
    ensures
        spec_section_merge(dest, src) is Release,
        sec_date(spec_section_merge(dest, src)) == sec_date(src),
        users_of(sec_segments(spec_section_merge(dest, src))) == users_of(sec_segments(dest)),
        section_name(spec_section_merge(dest, src)) == section_name(dest),
        prefix_of(spec_section_merge(dest, src)) == prefix_of(dest),
        level_of(spec_section_merge(dest, src)) == level_of(dest),
        sec_unknown(spec_section_merge(dest, src)) == sec_unknown(dest),
{
    lemma_users_merge_segments(
        sec_segments(dest),
        sec_segments(src),
        0,
        !spec_has_read_only(sec_segments(dest)),
    );
}

/// Law (one piece of merge idempotence): reconciling one generated read-only
/// segment a second time changes nothing — replacing every segment of its
/// kind twice equals replacing once, and a segment appended once is found,
/// not appended again. The second pass may only append where the first could.
pub proof fn lemma_merge_read_only_idempotent(
    segs: Seq<SegmentV>,
    k: SegmentKind,
    insert: SegmentV,
    ap: bool,
    ap2: bool,
)
    requires
        is_kind(insert, k),
        ap2 ==> ap,
    ensures
        spec_merge_read_only(spec_merge_read_only(segs, k, insert, ap), k, insert, ap2)
            == spec_merge_read_only(segs, k, insert, ap),
{
    lemma_replace_all_kind_index(segs, k, insert);
    if exists|j: int| 0 <= j < segs.len() && is_kind(#[trigger] segs[j], k) {
        let j0 = choose|j: int| 0 <= j < segs.len() && is_kind(#[trigger] segs[j], k);
        let once = replace_all_kind(segs, k, insert);
        assert(once[j0] == insert);
        assert(is_kind(once[j0], k));
        lemma_replace_all_kind_index(once, k, insert);
        assert forall|j: int| 0 <= j < once.len() implies #[trigger] replace_all_kind(
            once,
            k,
            insert,
        )[j] == once[j] by {
            assert(once[j] == (if is_kind(segs[j], k) {
                insert
            } else {
                segs[j]
            }));
        }
        assert(replace_all_kind(once, k, insert) =~= once);
    } else if ap {
        let once = segs.push(insert);
        assert(once[segs.len() as int] == insert);
        assert(is_kind(once[segs.len() as int], k));
        lemma_replace_all_kind_index(once, k, insert);
        assert forall|j: int| 0 <= j < once.len() implies #[trigger] replace_all_kind(
            once,
            k,
            insert,
        )[j] == once[j] by {
            if j < segs.len() {
                assert(once[j] == segs[j]);
                assert(!is_kind(segs[j], k));
            }
        }
        assert(replace_all_kind(once, k, insert) =~= once);
    }
}

/// The sections `gen[i..j]` in reverse order.
pub open spec fn rev_from(gen: Seq<SectionV>, i: int, j: int) -> Seq<SectionV>
    decreases j - i,
{
    if i < 0 || i >= j {
        Seq::empty()
    } else {
        rev_from(gen, i + 1, j) + seq![gen[i]]
    }
}

proof fn lemma_skip_leading_ge(gen: Seq<SectionV>, i: int)
    requires
        0 <= i <= gen.len(),
    ensures
        i <= skip_leading_verbatim(gen, i) <= gen.len(),
    decreases gen.len() - i,
{
    if i < gen.len() && gen[i] is Verbatim {
        lemma_skip_leading_ge(gen, i + 1);
    }
}

/// Law: a generated leading verbatim section is never prepended in front of
/// a hand-written (non-generated) leading verbatim section. With such a
/// prologue the prepend phase leaves the parsed document unchanged, whatever
/// the generated input holds.
pub proof fn lemma_hand_written_prologue_blocks(parsed: Seq<SectionV>, gen: Seq<SectionV>, i: int)
    requires
        parsed.len() > 0,
        !front_accepts(parsed[0]),
    ensures
        spec_prepend_verbatim(parsed, gen, i) == parsed,
    decreases gen.len() - i,
{
    if 0 <= i < gen.len() && gen[i] is Verbatim {
        lemma_hand_written_prologue_blocks(parsed, gen, i + 1);
    }
}

/// Law: when the parsed document's first section is a release or an
/// already-generated verbatim section, and the generated input's leading
/// verbatim sections are flagged generated, the prepend phase moves all of
/// them to the front — in reverse order, each inserted before the previous
/// one — and leaves the parsed sections behind them unchanged.
pub proof fn lemma_generated_prologue_prepended(parsed: Seq<SectionV>, gen: Seq<SectionV>, i: int)
    requires
        parsed.len() > 0,
        front_accepts(parsed[0]),
        0 <= i <= gen.len(),
        forall|j: int| i <= j < skip_leading_verbatim(gen, i) ==> front_accepts(#[trigger] gen[j]),
    ensures
        spec_prepend_verbatim(parsed, gen, i) == rev_from(gen, i, skip_leading_verbatim(gen, i))
            + parsed,
    decreases gen.len() - i,
{
    let rs = skip_leading_verbatim(gen, i);
    lemma_skip_leading_ge(gen, i);
    if i < gen.len() && gen[i] is Verbatim {
        assert(rs == skip_leading_verbatim(gen, i + 1));
        lemma_skip_leading_ge(gen, i + 1);
        assert(i < rs);
        assert(front_accepts(gen[i]));
        let parsed2 = parsed.insert(0, gen[i]);
        assert(parsed2 =~= seq![gen[i]] + parsed);
        assert(parsed2[0] == gen[i]);
        lemma_generated_prologue_prepended(parsed2, gen, i + 1);
        assert(rev_from(gen, i, rs) =~= rev_from(gen, i + 1, rs) + seq![gen[i]]);
        assert((rev_from(gen, i + 1, rs) + seq![gen[i]]) + parsed =~= rev_from(gen, i + 1, rs)
            + parsed2);
        assert(spec_prepend_verbatim(parsed, gen, i) =~= rev_from(gen, i, rs) + parsed);
    } else {
        assert(rs == i);
        assert(rev_from(gen, i, i) + parsed =~= parsed);
    }
}

} // verus!
