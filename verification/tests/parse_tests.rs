use changelog::date::Date;
use changelog::section::Section;
use changelog::segment::{Data, Segment};
use changelog::version::Version;
use changelog::ChangeLog;

fn release_parts(s: &Section) -> (&Version, &Vec<u8>, &Option<Date>, usize, &Vec<Segment>, &Vec<u8>) {
    match s {
        Section::Release { name, version_prefix, date, heading_level, segments, unknown, .. } => (
            name,
            version_prefix,
            date,
            *heading_level,
            segments,
            unknown,
        ),
        Section::Verbatim { .. } => panic!("expected a release"),
    }
}

fn numeric(v: &Version) -> (u64, u64, u64) {
    match v {
        Version::Semantic(s) => (s.major, s.minor, s.patch),
        Version::Unreleased => panic!("expected a concrete version"),
    }
}

#[test]
fn parses_headline_with_prefix_and_date() {
    let log = ChangeLog::from_markdown("## v1.2.3 (2024-02-29)\n\nbody text\n");
    assert_eq!(log.sections.len(), 1);
    let (name, prefix, date, level, segments, unknown) = release_parts(&log.sections[0]);
    assert_eq!(numeric(name), (1, 2, 3));
    assert_eq!(prefix, &b"v".to_vec());
    assert_eq!(*date, Some(Date { year: 2024, month: 2, day: 29 }));
    assert_eq!(level, 2);
    assert!(unknown.is_empty());
    assert_eq!(segments.len(), 1);
    match &segments[0] {
        Segment::User { markdown } => {
            assert_eq!(String::from_utf8(markdown.clone()).unwrap(), "body text\n");
        },
        _ => panic!("expected a user segment"),
    }
}

#[test]
fn invalid_date_makes_the_line_plain_text() {
    // February the 30th does not exist: the line is no headline at all
    let log = ChangeLog::from_markdown("## 1.2.3 (2024-02-30)\n");
    assert_eq!(log.sections.len(), 1);
    assert!(matches!(&log.sections[0], Section::Verbatim { generated: false, .. }));
}

#[test]
fn unreleased_headline_is_case_insensitive() {
    let log = ChangeLog::from_markdown("## UnReLeAsEd\n");
    assert_eq!(log.sections.len(), 1);
    let (name, prefix, date, _, _, _) = release_parts(&log.sections[0]);
    assert_eq!(*name, Version::Unreleased);
    assert!(prefix.is_empty());
    assert_eq!(*date, None);
}

#[test]
fn line_without_hashes_is_no_headline() {
    let log = ChangeLog::from_markdown("1.2.3\n");
    assert_eq!(log.sections.len(), 1);
    assert!(matches!(&log.sections[0], Section::Verbatim { generated: false, .. }));
}

#[test]
fn trailing_junk_after_version_is_no_headline() {
    let log = ChangeLog::from_markdown("## 1.2.3 extra words\n");
    assert!(matches!(&log.sections[0], Section::Verbatim { generated: false, .. }));
}

#[test]
fn prologue_kept_and_releases_sorted_newest_first() {
    let text = "intro prose\n\n## 1.0.0\n\nold notes\n\n## 2.0.0\n\nnew notes\n";
    let log = ChangeLog::from_markdown(text);
    assert_eq!(log.sections.len(), 3);
    match &log.sections[0] {
        Section::Verbatim { text, generated } => {
            assert!(!*generated);
            assert_eq!(String::from_utf8(text.clone()).unwrap(), "intro prose\n\n");
        },
        _ => panic!("expected the prologue"),
    }
    let (n1, ..) = release_parts(&log.sections[1]);
    let (n2, ..) = release_parts(&log.sections[2]);
    assert_eq!(numeric(n1), (2, 0, 0));
    assert_eq!(numeric(n2), (1, 0, 0));
}

#[test]
fn unreleased_sorts_above_all_versions() {
    let log = ChangeLog::from_markdown("## 3.0.0\n\n## Unreleased\n\n## 1.0.0\n");
    assert_eq!(log.sections.len(), 3);
    let (n0, ..) = release_parts(&log.sections[0]);
    assert_eq!(*n0, Version::Unreleased);
    let (n1, ..) = release_parts(&log.sections[1]);
    assert_eq!(numeric(n1), (3, 0, 0));
}

#[test]
fn heading_levels_normalized_to_the_first_one() {
    let log = ChangeLog::from_markdown("## 2.0.0\n\n#### 1.0.0\n");
    let (_, _, _, l0, _, _) = release_parts(&log.sections[0]);
    let (_, _, _, l1, _, _) = release_parts(&log.sections[1]);
    assert_eq!(l0, 2);
    assert_eq!(l1, 2);
}

#[test]
fn recognized_generated_heading_becomes_marker_and_stale_body_is_dropped() {
    let text = "## 1.0.0\n\nkept prose\n\n### Thanks Clippy\n\nstale generated text\n";
    let log = ChangeLog::from_markdown(text);
    let (_, _, _, _, segments, _) = release_parts(&log.sections[0]);
    assert_eq!(segments.len(), 2);
    match &segments[0] {
        Segment::User { markdown } => {
            assert!(String::from_utf8(markdown.clone()).unwrap().contains("kept prose"));
            assert!(!String::from_utf8(markdown.clone()).unwrap().contains("stale"));
        },
        _ => panic!("expected the kept prose"),
    }
    assert!(matches!(&segments[1], Segment::Clippy(Data::Parsed)));
}

#[test]
fn unrecognized_subheading_stays_user_content() {
    let text = "## 1.0.0\n\n### My own subsection\n\nwith prose\n";
    let log = ChangeLog::from_markdown(text);
    let (_, _, _, _, segments, _) = release_parts(&log.sections[0]);
    assert_eq!(segments.len(), 1);
    match &segments[0] {
        Segment::User { markdown } => {
            let s = String::from_utf8(markdown.clone()).unwrap();
            assert!(s.contains("My own subsection"));
            assert!(s.contains("with prose"));
        },
        _ => panic!("expected a user segment"),
    }
}

#[test]
fn sentinel_delimited_content_is_captured_as_unknown() {
    let text = "## 1.0.0\n\n<csr-unknown>\nmystery content\n</csr-unknown>\n";
    let log = ChangeLog::from_markdown(text);
    let (_, _, _, _, _, unknown) = release_parts(&log.sections[0]);
    let s = String::from_utf8(unknown.clone()).unwrap();
    assert!(s.contains("mystery content"));
}

#[test]
fn document_without_headline_is_one_verbatim_section() {
    let log = ChangeLog::from_markdown("just some notes\nacross lines\n");
    assert_eq!(log.sections.len(), 1);
    match &log.sections[0] {
        Section::Verbatim { text, generated } => {
            assert!(!*generated);
            assert_eq!(
                String::from_utf8(text.clone()).unwrap(),
                "just some notes\nacross lines\n"
            );
        },
        _ => panic!("expected one verbatim section"),
    }
}

#[test]
fn empty_document_is_one_empty_verbatim_section() {
    let log = ChangeLog::from_markdown("");
    assert_eq!(log.sections.len(), 1);
    assert_eq!(
        log.sections[0],
        Section::Verbatim { text: Vec::new(), generated: false }
    );
}

#[test]
fn prerelease_version_parses_and_differs_from_the_release() {
    let log = ChangeLog::from_markdown("## 1.0.0-alpha.1\n\n## 1.0.0\n");
    assert_eq!(log.sections.len(), 2);
    // the plain release ranks above its pre-release
    let (n0, ..) = release_parts(&log.sections[0]);
    let (n1, ..) = release_parts(&log.sections[1]);
    assert_eq!(numeric(n0), (1, 0, 0));
    match n1 {
        Version::Semantic(s) => assert_eq!(s.pre, b"alpha.1".to_vec()),
        _ => panic!("expected a pre-release"),
    }
}

#[test]
fn reparsing_rebuilt_text_gives_equal_structure() {
    // rebuild the exact text of a parse-stable document and parse it again
    let text = "intro\n\n## 2.0.0 (2024-01-02)\n\nnotes for two\n\n## 1.0.0\n\nnotes for one\n";
    let first = ChangeLog::from_markdown(text);
    let second = ChangeLog::from_markdown(text);
    assert_eq!(first.sections, second.sections);
}
