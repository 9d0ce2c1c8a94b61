//! The section builder and document assembler: parse arbitrary Markdown into
//! a structured changelog, preserving everything not understood.
use vstd::prelude::*;

verus! {

use vstd::string::*;

use crate::events::{
    events_view, is_prefix, markdown_events, md_events_of, starts_with_bytes, MdEvent, MdEventV,
    MdKind, MdKindV,
};
use crate::headline::{headline, opt_headline_view, parse_headline, Headline, HeadlineV};
use crate::section::{secs_view, section_name, Section, SectionV};
use crate::segment::{segs_view, Data, DataV, Segment, SegmentV};
use crate::version::{version_lt, version_lt_exec, Version, VersionV};
use crate::ChangeLog;

// ---------------------------------------------------------------------------
// Recognized tags and titles, as byte sequences
// ---------------------------------------------------------------------------
pub open spec fn spec_tag_start() -> Seq<u8> {
    Section::UNKNOWN_TAG_START.spec_bytes()
}

pub open spec fn spec_tag_end() -> Seq<u8> {
    Section::UNKNOWN_TAG_END.spec_bytes()
}

pub open spec fn title_clippy() -> Seq<u8> {
    crate::segment::ThanksClippy::TITLE.spec_bytes()
}

pub open spec fn title_statistics() -> Seq<u8> {
    crate::segment::CommitStatistics::TITLE.spec_bytes()
}

pub open spec fn title_details() -> Seq<u8> {
    crate::segment::Details::TITLE.spec_bytes()
}

// ---------------------------------------------------------------------------
// The event walk, as a specification
// ---------------------------------------------------------------------------
/// The text a tracked event contributes to the unknown accumulator.
pub open spec fn ev_text(k: MdKindV) -> Seq<u8> {
    match k {
        MdKindV::Html(t) => t,
        MdKindV::Text(t) => t,
        MdKindV::OtherText(t) => t,
        _ => Seq::empty(),
    }
}

pub open spec fn is_unknown_start(e: MdEventV) -> bool {
    match e.kind {
        MdKindV::Html(t) => is_prefix(spec_tag_start(), t),
        _ => false,
    }
}

pub open spec fn is_unknown_end(e: MdEventV) -> bool {
    match e.kind {
        MdKindV::Html(t) => is_prefix(spec_tag_end(), t),
        _ => false,
    }
}

/// The first event at or after `i` that closes an unknown-content range.
pub open spec fn spec_find_unknown_end(evs: Seq<MdEventV>, i: int) -> int
    decreases evs.len() - i,
{
    if i < 0 || i >= evs.len() {
        evs.len() as int
    } else if is_unknown_end(evs[i]) {
        i
    } else {
        spec_find_unknown_end(evs, i + 1)
    }
}

/// The first event at or after `i` that ends a heading, of any level.
pub open spec fn spec_find_heading_end(evs: Seq<MdEventV>, i: int) -> int
    decreases evs.len() - i,
{
    if i < 0 || i >= evs.len() {
        evs.len() as int
    } else if evs[i].kind is HeadingEnd {
        i
    } else {
        spec_find_heading_end(evs, i + 1)
    }
}

/// The first event at or after `i` that starts a heading of the given level.
pub open spec fn spec_find_heading_start(evs: Seq<MdEventV>, i: int, level: u8) -> int
    decreases evs.len() - i,
{
    if i < 0 || i >= evs.len() {
        evs.len() as int
    } else if evs[i].kind == MdKindV::HeadingStart(level) {
        i
    } else {
        spec_find_heading_start(evs, i + 1, level)
    }
}

/// The concatenated text of the events in `[i, j)`.
pub open spec fn spec_texts(evs: Seq<MdEventV>, i: int, j: int) -> Seq<u8>
    decreases j - i,
{
    if i < 0 || j > evs.len() || i >= j {
        Seq::empty()
    } else {
        spec_texts(evs, i, j - 1) + ev_text(evs[j - 1].kind)
    }
}

/// Extends an open unknown byte range: the start is kept, the end only ever
/// grows; an absent range opens at the given extent.
pub open spec fn upd_range(ur: Option<(usize, usize)>, s: usize, e: usize) -> Option<
    (usize, usize),
> {
    match ur {
        None => Some((s, e)),
        Some((a, b)) => Some(
            (
                a,
                if e > b {
                    e
                } else {
                    b
                },
            ),
        ),
    }
}

/// Folds the extents of the events in `[i, j)` into the open range.
pub open spec fn upd_ranges(
    ur: Option<(usize, usize)>,
    evs: Seq<MdEventV>,
    i: int,
    j: int,
) -> Option<(usize, usize)>
    decreases j - i,
{
    if i < 0 || j > evs.len() || i >= j {
        ur
    } else {
        upd_ranges(upd_range(ur, evs[i].start, evs[i].end), evs, i + 1, j)
    }
}

/// The bytes `body[a..b]`, empty when the extent is not within the body.
pub open spec fn slice_of(body: Seq<u8>, a: usize, b: usize) -> Seq<u8> {
    if a <= b <= body.len() {
        body.subrange(a as int, b as int)
    } else {
        Seq::empty()
    }
}

/// Flushes an open unknown range into a user segment holding the exact
/// literal slice of the body it spans.
pub open spec fn flush_segs(
    segs: Seq<SegmentV>,
    ur: Option<(usize, usize)>,
    body: Seq<u8>,
) -> Seq<SegmentV> {
    match ur {
        None => segs,
        Some((a, b)) => segs.push(SegmentV::User { markdown: slice_of(body, a, b) }),
    }
}

/// The generated-segment marker a recognized heading title stands for.
pub open spec fn title_marker(e: MdEventV) -> Option<SegmentV> {
    match e.kind {
        MdKindV::Text(t) => if is_prefix(title_clippy(), t) {
            Some(SegmentV::Clippy(DataV::Parsed))
        } else if is_prefix(title_statistics(), t) {
            Some(SegmentV::Statistics(DataV::Parsed))
        } else if is_prefix(title_details(), t) {
            Some(SegmentV::Details(DataV::Parsed))
        } else {
            None
        },
        _ => None,
    }
}

/// The walk over a release body's event stream with one event of lookahead:
/// sentinel-delimited content goes to the unknown accumulator by content,
/// recognized generated headings become markers and their stale bodies are
/// skipped, and everything else extends the open unknown byte range, flushed
/// into user segments at each recognized boundary.
pub open spec fn walk(
    evs: Seq<MdEventV>,
    body: Seq<u8>,
    i: int,
    ur: Option<(usize, usize)>,
    segs: Seq<SegmentV>,
    unk: Seq<u8>,
) -> (Seq<SegmentV>, Seq<u8>)
    decreases evs.len() - i,
{
    if i < 0 || i >= evs.len() {
        (flush_segs(segs, ur, body), unk)
    } else {
        let e = evs[i];
        if is_unknown_start(e) {
            let segs1 = flush_segs(segs, ur, body);
            let j = spec_find_unknown_end(evs, i + 1);
            let j2 = if j < i + 1 {
                i + 1
            } else {
                j
            };
            let next = if j2 + 1 > evs.len() {
                evs.len() as int
            } else {
                j2 + 1
            };
            walk(evs, body, next, None, segs1, unk + spec_texts(evs, i + 1, j2))
        } else {
            match e.kind {
                MdKindV::HeadingStart(lvl) => {
                    let segs1 = flush_segs(segs, ur, body);
                    if i + 1 < evs.len() {
                        let nxt = evs[i + 1];
                        match title_marker(nxt) {
                            Some(m) => {
                                let he = spec_find_heading_end(evs, i + 2);
                                let he2 = if he < i + 2 {
                                    i + 2
                                } else {
                                    he
                                };
                                let from = if he2 + 1 > evs.len() {
                                    evs.len() as int
                                } else {
                                    he2 + 1
                                };
                                let hs = spec_find_heading_start(evs, from, lvl);
                                let next = if hs < i + 2 {
                                    i + 2
                                } else if hs > evs.len() {
                                    evs.len() as int
                                } else {
                                    hs
                                };
                                walk(evs, body, next, None, segs1.push(m), unk)
                            },
                            None => {
                                let ur1 = upd_range(
                                    upd_range(None, e.start, e.end),
                                    nxt.start,
                                    nxt.end,
                                );
                                let he = spec_find_heading_end(evs, i + 2);
                                let he2 = if he < i + 2 {
                                    i + 2
                                } else {
                                    he
                                };
                                let upto = if he2 + 1 > evs.len() {
                                    evs.len() as int
                                } else {
                                    he2 + 1
                                };
                                let ur2 = upd_ranges(ur1, evs, i + 2, upto);
                                walk(evs, body, upto, ur2, segs1, unk)
                            },
                        }
                    } else {
                        walk(evs, body, i + 1, None, segs1, unk)
                    }
                },
                _ => walk(evs, body, i + 1, upd_range(ur, e.start, e.end), segs, unk),
            }
        }
    }
}

/// The release section built from one headline and the Markdown body that
/// follows it.
pub open spec fn spec_build_section(h: HeadlineV, body: Seq<u8>) -> SectionV {
    let r = walk(md_events_of(body), body, 0, None, Seq::empty(), Seq::empty());
    SectionV::Release {
        name: match h.version {
            Some(v) => VersionV::Semantic(v),
            None => VersionV::Unreleased,
        },
        version_prefix: h.version_prefix,
        date: h.date,
        heading_level: h.level as usize,
        segments: r.0,
        unknown: r.1,
        removed_messages: Seq::empty(),
    }
}

// ---------------------------------------------------------------------------
// Executable section builder
// ---------------------------------------------------------------------------
/// Extends the open unknown byte range with one extent.
pub fn update_unknown_range(target: &mut Option<(usize, usize)>, start: usize, end: usize)
    ensures
        *final(target) == upd_range(*old(target), start, end),
{
    match *target {
        None => {
            *target = Some((start, end));
        },
        Some((a, b)) => {
            *target = Some(
                (
                    a,
                    if end > b {
                        end
                    } else {
                        b
                    },
                ),
            );
        },
    }
}

/// The bytes `body[a..b]` as an owned vector, empty when out of bounds.
fn slice_range(body: &[u8], a: usize, b: usize) -> (r: Vec<u8>)
    ensures
        r@ == slice_of(body@, a, b),
{
    if a <= b && b <= body.len() {
        vstd::slice::slice_to_vec(&body[a..b])
    } else {
        Vec::new()
    }
}

/// Flushes an open unknown range into a user segment holding the literal
/// slice of the body it spans.
pub fn record_unknown_range(
    out: &mut Vec<Segment>,
    range: Option<(usize, usize)>,
    markdown: &[u8],
)
    ensures
        segs_view(*final(out)) == flush_segs(segs_view(*old(out)), range, markdown@),
{
    match range {
        None => {},
        Some((a, b)) => {
            let text = slice_range(markdown, a, b);
            out.push(Segment::User { markdown: text });
            proof {
                assert(segs_view(*out) =~= flush_segs(segs_view(*old(out)), range, markdown@));
            }
        },
    }
}

/// Appends the text of one event that cannot be handled to the unknown
/// accumulator.
pub fn track_unknown_event(ev: &MdEvent, unknown: &mut Vec<u8>)
    ensures
        final(unknown)@ == old(unknown)@ + ev_text(ev@.kind),
{
    match &ev.kind {
        MdKind::Html(t) => unknown.extend_from_slice(t.as_slice()),
        MdKind::Text(t) => unknown.extend_from_slice(t.as_slice()),
        MdKind::OtherText(t) => unknown.extend_from_slice(t.as_slice()),
        _ => {
            proof {
                assert(unknown@ =~= old(unknown)@ + ev_text(ev@.kind));
            }
        },
    }
}

fn is_unknown_start_exec(e: &MdEvent) -> (r: bool)
    ensures
        r == is_unknown_start(e@),
{
    match &e.kind {
        MdKind::Html(t) => starts_with_bytes(t.as_slice(), Section::UNKNOWN_TAG_START.as_bytes()),
        _ => false,
    }
}

fn is_unknown_end_exec(e: &MdEvent) -> (r: bool)
    ensures
        r == is_unknown_end(e@),
{
    match &e.kind {
        MdKind::Html(t) => starts_with_bytes(t.as_slice(), Section::UNKNOWN_TAG_END.as_bytes()),
        _ => false,
    }
}

/// The meaning of an optional marker segment, for contracts.
pub open spec fn opt_segment_view(r: Option<Segment>) -> Option<SegmentV> {
    match r {
        Some(s) => Some(s@),
        None => None,
    }
}

fn title_marker_exec(e: &MdEvent) -> (r: Option<Segment>)
    ensures
        opt_segment_view(r) == title_marker(e@),
{
    match &e.kind {
        MdKind::Text(t) => {
            if starts_with_bytes(t.as_slice(), crate::segment::ThanksClippy::TITLE.as_bytes()) {
                Some(Segment::Clippy(Data::Parsed))
            } else if starts_with_bytes(
                t.as_slice(),
                crate::segment::CommitStatistics::TITLE.as_bytes(),
            ) {
                Some(Segment::Statistics(Data::Parsed))
            } else if starts_with_bytes(
                t.as_slice(),
                crate::segment::Details::TITLE.as_bytes(),
            ) {
                Some(Segment::Details(Data::Parsed))
            } else {
                None
            }
        },
        _ => None,
    }
}

fn find_unknown_end(events: &Vec<MdEvent>, from: usize) -> (r: usize)
    requires
        from <= events@.len(),
    ensures
        r as int == spec_find_unknown_end(events_view(*events), from as int),
        from <= r <= events@.len(),
{
    let ghost evs = events_view(*events);
    let mut j = from;
    while j < events.len()
        invariant
            from <= j <= evs.len(),
            evs == events_view(*events),
            evs.len() == events@.len(),
            spec_find_unknown_end(evs, from as int) == spec_find_unknown_end(evs, j as int),
        decreases evs.len() - j,
    {
        if is_unknown_end_exec(&events[j]) {
            return j;
        }
        j += 1;
    }
    j
}

fn find_heading_end(events: &Vec<MdEvent>, from: usize) -> (r: usize)
    requires
        from <= events@.len(),
    ensures
        r as int == spec_find_heading_end(events_view(*events), from as int),
        from <= r <= events@.len(),
{
    let ghost evs = events_view(*events);
    let mut j = from;
    while j < events.len()
        invariant
            from <= j <= evs.len(),
            evs == events_view(*events),
            evs.len() == events@.len(),
            spec_find_heading_end(evs, from as int) == spec_find_heading_end(evs, j as int),
        decreases evs.len() - j,
    {
        if let MdKind::HeadingEnd(_) = &events[j].kind {
            return j;
        }
        j += 1;
    }
    j
}

/// Advances to the next heading of the governing level, leaving that heading
/// itself unconsumed; everything skipped is stale generated content.
pub fn skip_to_next_section_title(events: &Vec<MdEvent>, from: usize, level: u8) -> (r: usize)
    requires
        from <= events@.len(),
    ensures
        r as int == spec_find_heading_start(events_view(*events), from as int, level),
        from <= r <= events@.len(),
{
    let ghost evs = events_view(*events);
    let mut j = from;
    while j < events.len()
        invariant
            from <= j <= evs.len(),
            evs == events_view(*events),
            evs.len() == events@.len(),
            spec_find_heading_start(evs, from as int, level) == spec_find_heading_start(
                evs,
                j as int,
                level,
            ),
        decreases evs.len() - j,
    {
        let mut hit = false;
        if let MdKind::HeadingStart(l) = &events[j].kind {
            if *l == level {
                hit = true;
            }
        }
        if hit {
            assert(evs[j as int].kind == MdKindV::HeadingStart(level));
            return j;
        }
        assert(evs[j as int].kind != MdKindV::HeadingStart(level));
        j += 1;
    }
    j
}

impl Section {
    /// Builds a release section from one headline and the literal Markdown
    /// body between it and the next headline of the governing level.
    pub(crate) fn from_headline_and_body(h: Headline, body: &[u8]) -> (s: Section)
        ensures
            s@ == spec_build_section(h@, body@),
    {
        let events = markdown_events(body);
        let ghost evs = events_view(events);
        let mut segments: Vec<Segment> = Vec::new();
        let mut unknown: Vec<u8> = Vec::new();
        let mut ur: Option<(usize, usize)> = None;
        proof {
            assert(segs_view(segments) =~= Seq::<SegmentV>::empty());
            assert(unknown@ =~= Seq::<u8>::empty());
        }
        let ghost target = walk(evs, body@, 0, None, Seq::empty(), Seq::empty());
        let mut i: usize = 0;
        while i < events.len()
            invariant
                i <= evs.len(),
                evs == events_view(events),
                evs.len() == events@.len(),
                walk(evs, body@, i as int, ur, segs_view(segments), unknown@) == target,
            decreases evs.len() - i,
        {
            let ghost ur0 = ur;
            let ghost segs0 = segs_view(segments);
            let ghost unk0 = unknown@;
            let e_start = events[i].start;
            let e_end = events[i].end;
            if is_unknown_start_exec(&events[i]) {
                record_unknown_range(&mut segments, ur, body);
                ur = None;
                let j = find_unknown_end(&events, i + 1);
                let mut k = i + 1;
                let ghost unk1 = unknown@;
                proof {
                    assert(unk1 + spec_texts(evs, i as int + 1, k as int) =~= unk1);
                }
                while k < j
                    invariant
                        i + 1 <= k <= j,
                        j <= evs.len(),
                        evs == events_view(events),
                        evs.len() == events@.len(),
                        unknown@ == unk1 + spec_texts(evs, i as int + 1, k as int),
                    decreases j - k,
                {
                    let ghost before = unknown@;
                    track_unknown_event(&events[k], &mut unknown);
                    proof {
                        assert(spec_texts(evs, i as int + 1, k as int + 1) =~= spec_texts(
                            evs,
                            i as int + 1,
                            k as int,
                        ) + ev_text(evs[k as int].kind));
                        assert(unknown@ =~= unk1 + spec_texts(evs, i as int + 1, k as int + 1));
                    }
                    k += 1;
                }
                i = if j < events.len() {
                    j + 1
                } else {
                    events.len()
                };
                proof {
                    assert(walk(evs, body@, i as int, ur, segs_view(segments), unknown@)
                        == target);
                }
            } else {
                let mut lvl_opt: Option<u8> = None;
                if let MdKind::HeadingStart(l) = &events[i].kind {
                    lvl_opt = Some(*l);
                }
                match lvl_opt {
                    Some(lvl) => {
                        record_unknown_range(&mut segments, ur, body);
                        ur = None;
                        if i + 1 < events.len() {
                            let nxt_start = events[i + 1].start;
                            let nxt_end = events[i + 1].end;
                            match title_marker_exec(&events[i + 1]) {
                                Some(m) => {
                                    let ghost mv = m@;
                                    let ghost segs1 = segs_view(segments);
                                    segments.push(m);
                                    proof {
                                        assert(segs_view(segments) =~= segs1.push(mv));
                                    }
                                    let he = find_heading_end(&events, i + 2);
                                    let from = if he < events.len() {
                                        he + 1
                                    } else {
                                        events.len()
                                    };
                                    let hs = skip_to_next_section_title(&events, from, lvl);
                                    i = hs;
                                    proof {
                                        assert(walk(
                                            evs,
                                            body@,
                                            i as int,
                                            ur,
                                            segs_view(segments),
                                            unknown@,
                                        ) == target);
                                    }
                                },
                                None => {
                                    update_unknown_range(&mut ur, e_start, e_end);
                                    update_unknown_range(&mut ur, nxt_start, nxt_end);
                                    let ghost ur1 = ur;
                                    let he = find_heading_end(&events, i + 2);
                                    let upto = if he < events.len() {
                                        he + 1
                                    } else {
                                        events.len()
                                    };
                                    let mut k = i + 2;
                                    proof {
                                        assert(upd_ranges(ur1, evs, i as int + 2, k as int) == ur1);
                                    }
                                    while k < upto
                                        invariant
                                            i + 2 <= k <= upto,
                                            upto <= evs.len(),
                                            evs == events_view(events),
                                            evs.len() == events@.len(),
                                            ur == upd_ranges(ur1, evs, i as int + 2, k as int),
                                        decreases upto - k,
                                    {
                                        let ks = events[k].start;
                                        let ke = events[k].end;
                                        update_unknown_range(&mut ur, ks, ke);
                                        proof {
                                            lemma_upd_ranges_step(ur1, evs, i as int + 2, k as int);
                                        }
                                        k += 1;
                                    }
                                    i = upto;
                                    proof {
                                        assert(walk(
                                            evs,
                                            body@,
                                            i as int,
                                            ur,
                                            segs_view(segments),
                                            unknown@,
                                        ) == target);
                                    }
                                },
                            }
                        } else {
                            i = i + 1;
                            proof {
                                assert(walk(
                                    evs,
                                    body@,
                                    i as int,
                                    ur,
                                    segs_view(segments),
                                    unknown@,
                                ) == target);
                            }
                        }
                    },
                    None => {
                        update_unknown_range(&mut ur, e_start, e_end);
                        i = i + 1;
                        proof {
                            assert(walk(evs, body@, i as int, ur, segs_view(segments), unknown@)
                                == target);
                        }
                    },
                }
            }
        }
        record_unknown_range(&mut segments, ur, body);
        let s = Section::Release {
            name: match h.version {
                Some(v) => Version::Semantic(v),
                None => Version::Unreleased,
            },
            version_prefix: h.version_prefix,
            date: h.date,
            heading_level: h.level,
            segments,
            unknown,
            removed_messages: Vec::new(),
        };
        proof {
            assert(s@ =~= spec_build_section(h@, body@));
        }
        s
    }
}

/// One fold step of `upd_ranges`: the extent at `k` is folded in last.
proof fn lemma_upd_ranges_step(ur: Option<(usize, usize)>, evs: Seq<MdEventV>, i: int, k: int)
    requires
        0 <= i <= k,
        k < evs.len(),
    ensures
        upd_ranges(ur, evs, i, k + 1) == upd_range(
            upd_ranges(ur, evs, i, k),
            evs[k].start,
            evs[k].end,
        ),
    decreases k - i,
{
    if i < k {
        lemma_upd_ranges_step(upd_range(ur, evs[i].start, evs[i].end), evs, i + 1, k);
    } else {
        assert(upd_ranges(upd_range(ur, evs[i].start, evs[i].end), evs, i + 1, k + 1)
            == upd_range(ur, evs[i].start, evs[i].end));
    }
}

// ---------------------------------------------------------------------------
// Document assembly
// ---------------------------------------------------------------------------
/// The first position at or after `i` holding a line feed, or the length.
pub open spec fn find_nl(s: Seq<u8>, i: int) -> int
    decreases s.len() - i,
{
    if i < 0 || i >= s.len() {
        s.len() as int
    } else if s[i] == 10 {
        i
    } else {
        find_nl(s, i + 1)
    }
}

/// A headline normalized to the level of the first headline of the document.
pub open spec fn norm_level(h: HeadlineV, fl: Option<int>) -> HeadlineV {
    match fl {
        Some(l) => HeadlineV {
            level: l,
            version_prefix: h.version_prefix,
            version: h.version,
            date: h.date,
        },
        None => h,
    }
}

/// Scans the document line by line from byte position `pos`: a run of
/// non-headline lines before the first headline becomes a leading verbatim
/// section (only if non-empty); each headline closes the previous release's
/// body; the final body belongs to the last release, or the whole text
/// becomes one verbatim section when no headline exists.
pub open spec fn assemble(
    bytes: Seq<u8>,
    pos: int,
    body: Seq<u8>,
    prev: Option<HeadlineV>,
    first_level: Option<int>,
    secs: Seq<SectionV>,
) -> Seq<SectionV>
    decreases bytes.len() - pos,
{
    if pos < 0 || pos >= bytes.len() {
        match prev {
            Some(h) => secs.push(spec_build_section(norm_level(h, first_level), body)),
            None => secs.push(SectionV::Verbatim { text: body, generated: false }),
        }
    } else {
        let k = find_nl(bytes, pos);
        let k2 = if k < pos {
            pos
        } else if k > bytes.len() {
            bytes.len() as int
        } else {
            k
        };
        let stop = if k2 + 1 > bytes.len() {
            bytes.len() as int
        } else {
            k2 + 1
        };
        let line = bytes.subrange(pos, stop);
        match parse_headline(line) {
            Some(h) => {
                let fl = match first_level {
                    Some(l) => l,
                    None => h.level,
                };
                match prev {
                    Some(ph) => assemble(
                        bytes,
                        stop,
                        Seq::empty(),
                        Some(h),
                        Some(fl),
                        secs.push(spec_build_section(norm_level(ph, Some(fl)), body)),
                    ),
                    None => {
                        let secs2 = if body.len() > 0 {
                            secs.push(SectionV::Verbatim { text: body, generated: false })
                        } else {
                            secs
                        };
                        assemble(bytes, stop, Seq::empty(), Some(h), Some(fl), secs2)
                    },
                }
            },
            None => assemble(bytes, stop, body + line, prev, first_level, secs),
        }
    }
}

/// The release sections among the first `i`, in order.
pub open spec fn releases_pre(secs: Seq<SectionV>, i: int) -> Seq<SectionV>
    decreases i,
{
    if i <= 0 || i > secs.len() {
        Seq::empty()
    } else {
        releases_pre(secs, i - 1) + (if secs[i - 1] is Release {
            seq![secs[i - 1]]
        } else {
            Seq::empty()
        })
    }
}

/// The verbatim sections among the first `i`, in order.
pub open spec fn verbatims_pre(secs: Seq<SectionV>, i: int) -> Seq<SectionV>
    decreases i,
{
    if i <= 0 || i > secs.len() {
        Seq::empty()
    } else {
        verbatims_pre(secs, i - 1) + (if secs[i - 1] is Verbatim {
            seq![secs[i - 1]]
        } else {
            Seq::empty()
        })
    }
}

/// Inserts a release into a descending-sorted run, after every release that
/// does not rank strictly below it — a stable descending insertion.
pub open spec fn insert_desc(sorted: Seq<SectionV>, x: SectionV) -> Seq<SectionV>
    decreases sorted.len(),
{
    if sorted.len() == 0 {
        seq![x]
    } else if version_lt(section_name(sorted[0]), section_name(x)) {
        seq![x] + sorted
    } else {
        seq![sorted[0]] + insert_desc(sorted.skip(1), x)
    }
}

pub open spec fn sort_desc_from(acc: Seq<SectionV>, rels: Seq<SectionV>, i: int) -> Seq<SectionV>
    decreases rels.len() - i,
{
    if i < 0 || i >= rels.len() {
        acc
    } else {
        sort_desc_from(insert_desc(acc, rels[i]), rels, i + 1)
    }
}

/// The release sections re-sorted by version descending, stable.
pub open spec fn sort_releases(rels: Seq<SectionV>) -> Seq<SectionV> {
    sort_desc_from(Seq::empty(), rels, 0)
}

/// The parsed document: the assembled sections with the releases re-sorted
/// by version descending, keeping a leading verbatim section in front and
/// any other verbatim sections at the end.
pub open spec fn spec_from_markdown(bytes: Seq<u8>) -> Seq<SectionV> {
    let secs = assemble(bytes, 0, Seq::empty(), None, None, Seq::empty());
    let lead: int = if secs.len() > 0 && secs[0] is Verbatim {
        1
    } else {
        0
    };
    let verbs = verbatims_pre(secs, secs.len() as int);
    let rels = releases_pre(secs, secs.len() as int);
    verbs.subrange(0, lead) + sort_releases(rels) + verbs.skip(lead)
}

proof fn lemma_verbatims_first(secs: Seq<SectionV>, i: int)
    requires
        1 <= i <= secs.len(),
        secs[0] is Verbatim,
    ensures
        verbatims_pre(secs, i).len() >= 1,
        verbatims_pre(secs, i)[0] == secs[0],
    decreases i,
{
    if i == 1 {
        assert(verbatims_pre(secs, 0) =~= Seq::<SectionV>::empty());
        assert(verbatims_pre(secs, 1) =~= seq![secs[0]]);
    } else {
        lemma_verbatims_first(secs, i - 1);
    }
}

proof fn lemma_insert_desc_at(sorted: Seq<SectionV>, x: SectionV, k: int)
    requires
        0 <= k <= sorted.len(),
        forall|j: int|
            0 <= j < k ==> !version_lt(section_name(#[trigger] sorted[j]), section_name(x)),
        k < sorted.len() ==> version_lt(section_name(sorted[k]), section_name(x)),
    ensures
        insert_desc(sorted, x) == sorted.insert(k, x),
    decreases sorted.len(),
{
    if sorted.len() == 0 {
        assert(insert_desc(sorted, x) =~= sorted.insert(0, x));
    } else if k == 0 {
        assert(insert_desc(sorted, x) =~= sorted.insert(0, x));
    } else {
        lemma_insert_desc_at(sorted.skip(1), x, k - 1);
        assert(seq![sorted[0]] + sorted.skip(1).insert(k - 1, x) =~= sorted.insert(k, x));
    }
}

fn find_nl_exec(s: &[u8], from: usize) -> (r: usize)
    requires
        from <= s@.len(),
    ensures
        r as int == find_nl(s@, from as int),
        from <= r <= s@.len(),
{
    let mut i = from;
    while i < s.len()
        invariant
            from <= i <= s@.len(),
            find_nl(s@, from as int) == find_nl(s@, i as int),
        decreases s@.len() - i,
    {
        if s[i] == 10 {
            return i;
        }
        i += 1;
    }
    i
}

/// The meaning of an optional first heading level, for loop bookkeeping.
pub open spec fn opt_level_view(l: Option<usize>) -> Option<int> {
    match l {
        Some(v) => Some(v as int),
        None => None,
    }
}

/// Decides whether `a`'s release name ranks strictly below `b`'s; a verbatim
/// section counts as `Unreleased`.
fn section_lt(a: &Section, b: &Section) -> (r: bool)
    ensures
        r == version_lt(section_name(a@), section_name(b@)),
{
    match (a, b) {
        (Section::Release { name: na, .. }, Section::Release { name: nb, .. }) => version_lt_exec(
            na,
            nb,
        ),
        (Section::Verbatim { .. }, _) => false,
        (Section::Release { name: na, .. }, Section::Verbatim { .. }) => matches!(
            na,
            Version::Semantic(_),
        ),
    }
}

/// The index at which a stable descending insertion places `x`.
fn find_insert_pos(sorted: &Vec<Section>, x: &Section) -> (k: usize)
    ensures
        k <= sorted@.len(),
        forall|j: int|
            0 <= j < k ==> !version_lt(
                section_name(#[trigger] secs_view(*sorted)[j]),
                section_name(x@),
            ),
        k < sorted@.len() ==> version_lt(section_name(secs_view(*sorted)[k as int]), section_name(x@)),
{
    let mut k: usize = 0;
    while k < sorted.len()
        invariant
            k <= sorted@.len(),
            forall|j: int|
                0 <= j < k ==> !version_lt(
                    section_name(#[trigger] secs_view(*sorted)[j]),
                    section_name(x@),
                ),
        decreases sorted@.len() - k,
    {
        if section_lt(&sorted[k], x) {
            return k;
        }
        k += 1;
    }
    k
}

impl ChangeLog {
    /// Obtains as much structure as possible from `input`, keeping everything
    /// not understood in verbatim sections and unknown ranges. Never fails:
    /// a line that is no headline is body text.
    pub fn from_markdown(input: &str) -> (r: ChangeLog)
        ensures
            r@ == spec_from_markdown(input.spec_bytes()),
    {
        let bytes: &[u8] = input.as_bytes();
        let ghost bv = bytes@;
        let mut sections: Vec<Section> = Vec::new();
        let mut body: Vec<u8> = Vec::new();
        let mut prev: Option<Headline> = None;
        let mut first_level: Option<usize> = None;
        let mut pos: usize = 0;
        let ghost target = assemble(bv, 0, Seq::empty(), None, None, Seq::empty());
        proof {
            assert(secs_view(sections) =~= Seq::<SectionV>::empty());
            assert(body@ =~= Seq::<u8>::empty());
        }
        while pos < bytes.len()
            invariant
                pos <= bv.len(),
                bv == bytes@,
                assemble(
                    bv,
                    pos as int,
                    body@,
                    opt_headline_view(prev),
                    opt_level_view(first_level),
                    secs_view(sections),
                ) == target,
            decreases bv.len() - pos,
        {
            let ghost pos0 = pos as int;
            let ghost body0 = body@;
            let ghost prev0 = opt_headline_view(prev);
            let ghost fl0 = opt_level_view(first_level);
            let ghost secs0 = secs_view(sections);
            let k = find_nl_exec(bytes, pos);
            let stop = if k < bytes.len() {
                k + 1
            } else {
                k
            };
            let line = &bytes[pos..stop];
            assert(line@ == bv.subrange(pos as int, stop as int));
            match headline(line) {
                Some(h) => {
                    let ghost hv = h@;
                    let fl = match first_level {
                        Some(l) => l,
                        None => h.level,
                    };
                    let mut pv: Option<Headline> = Some(h);
                    core::mem::swap(&mut prev, &mut pv);
                    let mut b: Vec<u8> = Vec::new();
                    core::mem::swap(&mut body, &mut b);
                    match pv {
                        Some(ph) => {
                            let ghost phv = ph@;
                            let ph2 = Headline {
                                level: fl,
                                version_prefix: ph.version_prefix,
                                version: ph.version,
                                date: ph.date,
                            };
                            proof {
                                assert(ph2@ =~= norm_level(phv, Some(fl as int)));
                            }
                            let sec = Section::from_headline_and_body(ph2, b.as_slice());
                            sections.push(sec);
                            proof {
                                assert(secs_view(sections) =~= secs0.push(
                                    spec_build_section(norm_level(phv, Some(fl as int)), body0),
                                ));
                            }
                        },
                        None => {
                            if b.len() > 0 {
                                sections.push(Section::Verbatim { text: b, generated: false });
                                proof {
                                    assert(secs_view(sections) =~= secs0.push(
                                        SectionV::Verbatim { text: body0, generated: false },
                                    ));
                                }
                            }
                        },
                    }
                    first_level = Some(fl);
                    proof {
                        assert(body@ =~= Seq::<u8>::empty());
                        assert(assemble(bv, pos0, body0, prev0, fl0, secs0) == assemble(
                            bv,
                            stop as int,
                            body@,
                            opt_headline_view(prev),
                            opt_level_view(first_level),
                            secs_view(sections),
                        ));
                    }
                },
                None => {
                    body.extend_from_slice(line);
                    proof {
                        assert(body@ == body0 + line@);
                        assert(assemble(bv, pos0, body0, prev0, fl0, secs0) == assemble(
                            bv,
                            stop as int,
                            body@,
                            opt_headline_view(prev),
                            opt_level_view(first_level),
                            secs_view(sections),
                        ));
                    }
                },
            }
            pos = stop;
            proof {
                assert(assemble(
                    bv,
                    pos as int,
                    body@,
                    opt_headline_view(prev),
                    opt_level_view(first_level),
                    secs_view(sections),
                ) == target);
            }
        }
        // Close the final section.
        let ghost secs_end = secs_view(sections);
        let ghost body_end = body@;
        let ghost prev_end = opt_headline_view(prev);
        let ghost fl_end = opt_level_view(first_level);
        match prev {
            Some(ph) => {
                let ghost phv = ph@;
                let fl = match first_level {
                    Some(l) => l,
                    None => ph.level,
                };
                let ph2 = Headline {
                    level: fl,
                    version_prefix: ph.version_prefix,
                    version: ph.version,
                    date: ph.date,
                };
                proof {
                    assert(ph2@ =~= norm_level(phv, fl_end));
                }
                let sec = Section::from_headline_and_body(ph2, body.as_slice());
                sections.push(sec);
                proof {
                    assert(secs_view(sections) =~= secs_end.push(
                        spec_build_section(norm_level(phv, fl_end), body_end),
                    ));
                }
            },
            None => {
                sections.push(Section::Verbatim { text: body, generated: false });
                proof {
                    assert(secs_view(sections) =~= secs_end.push(
                        SectionV::Verbatim { text: body_end, generated: false },
                    ));
                }
            },
        }
        let ghost all = secs_view(sections);
        assert(all == target);
        // Re-sort the releases by version, descending; a leading verbatim
        // section keeps its place, the rest of the verbatim sections follow.
        let lead: usize = match &sections[0] {
            Section::Verbatim { .. } => 1,
            Section::Release { .. } => 0,
        };
        let mut verbs: Vec<Section> = Vec::new();
        let mut rels: Vec<Section> = Vec::new();
        let ghost mut pi: int = 0;
        proof {
            assert(all.skip(0) =~= all);
            assert(secs_view(verbs) =~= verbatims_pre(all, 0));
            assert(secs_view(rels) =~= releases_pre(all, 0));
        }
        loop
            invariant
                0 <= pi <= all.len(),
                secs_view(sections) == all.skip(pi),
                secs_view(verbs) == verbatims_pre(all, pi),
                secs_view(rels) == releases_pre(all, pi),
            ensures
                secs_view(verbs) == verbatims_pre(all, all.len() as int),
                secs_view(rels) == releases_pre(all, all.len() as int),
            decreases all.len() - pi,
        {
            proof {
                assert(secs_view(sections).len() == sections@.len());
            }
            if sections.is_empty() {
                proof {
                    assert(all.skip(pi).len() == 0);
                    assert(pi == all.len());
                }
                break;
            }
            assert(0 <= pi < all.len());
            assert(all.skip(pi)[0] == all[pi]);
            let ghost sec_before = sections@;
            let ghost secv_before = secs_view(sections);
            let s = sections.remove(0);
            proof {
                assert(s@ == secv_before[0]);
                assert(secs_view(sections).len() == all.skip(pi + 1).len());
                assert forall|j: int|
                    0 <= j < secs_view(sections).len() implies #[trigger] secs_view(sections)[j]
                    == all.skip(pi + 1)[j] by {
                    assert(sec_before.remove(0)[j] == sec_before[j + 1]);
                    assert(secs_view(sections)[j] == sections@[j]@);
                    assert(secv_before[j + 1] == sec_before[j + 1]@);
                    assert(all.skip(pi)[j + 1] == all[pi + 1 + j]);
                    assert(all.skip(pi + 1)[j] == all[pi + 1 + j]);
                }
                assert(secs_view(sections) =~= all.skip(pi + 1));
            }
            let ghost verbs0 = secs_view(verbs);
            let ghost rels0 = secs_view(rels);
            match &s {
                Section::Verbatim { .. } => {
                    verbs.push(s);
                    proof {
                        assert(secs_view(verbs) =~= verbatims_pre(all, pi + 1));
                        assert(secs_view(rels) =~= releases_pre(all, pi + 1));
                    }
                },
                Section::Release { .. } => {
                    rels.push(s);
                    proof {
                        assert(secs_view(verbs) =~= verbatims_pre(all, pi + 1));
                        assert(secs_view(rels) =~= releases_pre(all, pi + 1));
                    }
                },
            }
            proof {
                pi = pi + 1;
            }
        }
        let ghost relsv = secs_view(rels);
        let mut sorted: Vec<Section> = Vec::new();
        let ghost mut ri: int = 0;
        proof {
            assert(secs_view(sorted) =~= Seq::<SectionV>::empty());
            assert(relsv.skip(0) =~= relsv);
        }
        loop
            invariant
                0 <= ri <= relsv.len(),
                secs_view(rels) == relsv.skip(ri),
                sort_desc_from(secs_view(sorted), relsv, ri) == sort_releases(relsv),
            ensures
                secs_view(sorted) == sort_releases(relsv),
            decreases relsv.len() - ri,
        {
            proof {
                assert(secs_view(rels).len() == rels@.len());
            }
            if rels.is_empty() {
                proof {
                    assert(relsv.skip(ri).len() == 0);
                    assert(ri == relsv.len());
                }
                break;
            }
            assert(0 <= ri < relsv.len());
            assert(relsv.skip(ri)[0] == relsv[ri]);
            let ghost rel_before = rels@;
            let ghost relv_before = secs_view(rels);
            let x = rels.remove(0);
            proof {
                assert(x@ == relv_before[0]);
                assert(secs_view(rels).len() == relsv.skip(ri + 1).len());
                assert forall|j: int|
                    0 <= j < secs_view(rels).len() implies #[trigger] secs_view(rels)[j]
                    == relsv.skip(ri + 1)[j] by {
                    assert(rel_before.remove(0)[j] == rel_before[j + 1]);
                    assert(secs_view(rels)[j] == rels@[j]@);
                    assert(relv_before[j + 1] == rel_before[j + 1]@);
                    assert(relsv.skip(ri)[j + 1] == relsv[ri + 1 + j]);
                    assert(relsv.skip(ri + 1)[j] == relsv[ri + 1 + j]);
                }
                assert(secs_view(rels) =~= relsv.skip(ri + 1));
            }
            let ghost sorted0 = secs_view(sorted);
            let kk = find_insert_pos(&sorted, &x);
            sorted.insert(kk, x);
            proof {
                lemma_insert_desc_at(sorted0, relsv[ri], kk as int);
                assert(secs_view(sorted) =~= sorted0.insert(kk as int, relsv[ri]));
                ri = ri + 1;
            }
        }
        let mut result: Vec<Section> = Vec::new();
        let ghost verbsv = secs_view(verbs);
        if lead == 1 {
            proof {
                lemma_verbatims_first(all, all.len() as int);
            }
            let v = verbs.remove(0);
            result.push(v);
        }
        let ghost head = secs_view(result);
        let ghost sortedv = secs_view(sorted);
        result.append(&mut sorted);
        result.append(&mut verbs);
        let r = ChangeLog { sections: result };
        proof {
            assert(r@ =~= head + sortedv + (if lead == 1 {
                verbsv.skip(1)
            } else {
                verbsv
            }));
            assert(verbsv.subrange(0, lead as int) =~= head);
            if lead == 1 {
                assert(verbsv.skip(1) =~= verbsv.skip(lead as int));
            } else {
                assert(verbsv =~= verbsv.skip(lead as int));
            }
            assert(r@ =~= spec_from_markdown(input.spec_bytes()));
        }
        r
    }
}

} // verus!
