use changelog::merge::MergeError;
use changelog::section::Section;
use changelog::segment::{CommitStatistics, Data, Segment, ThanksClippy};
use changelog::version::{Semver, Version};
use changelog::ChangeLog;

fn semver(major: u64, minor: u64, patch: u64) -> Semver {
    Semver { major, minor, patch, pre: Vec::new(), build: Vec::new() }
}

fn release(major: u64, minor: u64, patch: u64, segments: Vec<Segment>) -> Section {
    Section::Release {
        name: Version::Semantic(semver(major, minor, patch)),
        version_prefix: Vec::new(),
        date: None,
        heading_level: 2,
        segments,
        unknown: Vec::new(),
        removed_messages: Vec::new(),
    }
}

fn unreleased(segments: Vec<Segment>) -> Section {
    Section::Release {
        name: Version::Unreleased,
        version_prefix: Vec::new(),
        date: None,
        heading_level: 2,
        segments,
        unknown: Vec::new(),
        removed_messages: Vec::new(),
    }
}

fn clippy_gen(count: usize) -> Segment {
    Segment::Clippy(Data::Generated(ThanksClippy { count }))
}

fn stats_gen(count: usize) -> Segment {
    Segment::Statistics(Data::Generated(CommitStatistics {
        count,
        duration: None,
        unique_issues: Vec::new(),
        time_passed_since_last_release: None,
    }))
}

fn user(text: &str) -> Segment {
    Segment::User { markdown: text.as_bytes().to_vec() }
}

fn name_of(s: &Section) -> Version {
    match s {
        Section::Release { name, .. } => name.clone(),
        Section::Verbatim { .. } => panic!("expected a release"),
    }
}

#[test]
fn merge_into_empty_parsed_yields_generated_unchanged() {
    let parsed = ChangeLog { sections: Vec::new() };
    let generated = ChangeLog {
        sections: vec![
            Section::Verbatim { text: b"header".to_vec(), generated: true },
            release(1, 0, 0, vec![clippy_gen(3)]),
        ],
    };
    let expected = ChangeLog {
        sections: vec![
            Section::Verbatim { text: b"header".to_vec(), generated: true },
            release(1, 0, 0, vec![clippy_gen(3)]),
        ],
    };
    let merged = parsed.merge_generated(generated).expect("well-formed");
    assert_eq!(merged.sections, expected.sections);
}

#[test]
fn exact_match_updates_date_and_keeps_user_segments() {
    let parsed = ChangeLog {
        sections: vec![release(
            1,
            0,
            0,
            vec![user("hand-written notes\n"), clippy_gen(1), user("more notes\n")],
        )],
    };
    let mut gen_section = release(1, 0, 0, vec![clippy_gen(9)]);
    if let Section::Release { date, .. } = &mut gen_section {
        *date = Some(changelog::date::Date { year: 2024, month: 3, day: 1 });
    }
    let generated = ChangeLog { sections: vec![gen_section] };
    let merged = parsed.merge_generated(generated).expect("well-formed");
    assert_eq!(merged.sections.len(), 1);
    match &merged.sections[0] {
        Section::Release { date, segments, .. } => {
            assert_eq!(*date, Some(changelog::date::Date { year: 2024, month: 3, day: 1 }));
            // user segments untouched and in order; the clippy payload refreshed
            assert_eq!(segments.len(), 3);
            assert_eq!(segments[0], user("hand-written notes\n"));
            assert_eq!(segments[1], clippy_gen(9));
            assert_eq!(segments[2], user("more notes\n"));
        },
        _ => panic!("expected a release"),
    }
}

#[test]
fn absent_kind_not_resurrected_when_another_read_only_kind_exists() {
    // the destination holds a clippy segment but no statistics: statistics
    // were removed by hand and must not come back
    let parsed = ChangeLog { sections: vec![release(1, 0, 0, vec![clippy_gen(1)])] };
    let generated = ChangeLog { sections: vec![release(1, 0, 0, vec![clippy_gen(2), stats_gen(7)])] };
    let merged = parsed.merge_generated(generated).expect("well-formed");
    match &merged.sections[0] {
        Section::Release { segments, .. } => {
            assert_eq!(segments.len(), 1);
            assert_eq!(segments[0], clippy_gen(2));
        },
        _ => panic!("expected a release"),
    }
}

#[test]
fn every_kind_appended_when_destination_has_no_read_only_segments() {
    let parsed = ChangeLog { sections: vec![release(1, 0, 0, vec![user("notes\n")])] };
    let generated = ChangeLog { sections: vec![release(1, 0, 0, vec![clippy_gen(2), stats_gen(7)])] };
    let merged = parsed.merge_generated(generated).expect("well-formed");
    match &merged.sections[0] {
        Section::Release { segments, .. } => {
            assert_eq!(segments.len(), 3);
            assert_eq!(segments[0], user("notes\n"));
            assert_eq!(segments[1], clippy_gen(2));
            assert_eq!(segments[2], stats_gen(7));
        },
        _ => panic!("expected a release"),
    }
}

#[test]
fn unmatched_release_inserted_between_neighbours() {
    // newest first, as the assembler orders them
    let parsed = ChangeLog { sections: vec![release(2, 0, 0, vec![]), release(1, 0, 0, vec![])] };
    let generated = ChangeLog { sections: vec![release(1, 5, 0, vec![clippy_gen(1)])] };
    let merged = parsed.merge_generated(generated).expect("well-formed");
    assert_eq!(merged.sections.len(), 3);
    assert_eq!(name_of(&merged.sections[0]), Version::Semantic(semver(2, 0, 0)));
    assert_eq!(name_of(&merged.sections[1]), Version::Semantic(semver(1, 5, 0)));
    assert_eq!(name_of(&merged.sections[2]), Version::Semantic(semver(1, 0, 0)));
}

#[test]
fn unmatched_release_tie_first_encountered_wins() {
    // equal absolute distance to both neighbours: the first encountered wins,
    // and the generated version being older than it, it goes right after it
    let parsed = ChangeLog { sections: vec![release(1, 10, 0, vec![]), release(1, 0, 0, vec![])] };
    let generated = ChangeLog { sections: vec![release(1, 5, 0, vec![])] };
    let merged = parsed.merge_generated(generated).expect("well-formed");
    assert_eq!(merged.sections.len(), 3);
    assert_eq!(name_of(&merged.sections[0]), Version::Semantic(semver(1, 10, 0)));
    assert_eq!(name_of(&merged.sections[1]), Version::Semantic(semver(1, 5, 0)));
    assert_eq!(name_of(&merged.sections[2]), Version::Semantic(semver(1, 0, 0)));
}

#[test]
fn inserted_release_takes_anchor_heading_style() {
    let mut anchor = release(1, 0, 0, vec![]);
    if let Section::Release { heading_level, version_prefix, .. } = &mut anchor {
        *heading_level = 3;
        *version_prefix = b"v".to_vec();
    }
    let parsed = ChangeLog { sections: vec![anchor] };
    let generated = ChangeLog { sections: vec![release(2, 0, 0, vec![])] };
    let merged = parsed.merge_generated(generated).expect("well-formed");
    match &merged.sections[0] {
        Section::Release { heading_level, version_prefix, name, .. } => {
            assert_eq!(*name, Version::Semantic(semver(2, 0, 0)));
            assert_eq!(*heading_level, 3);
            assert_eq!(version_prefix, &b"v".to_vec());
        },
        _ => panic!("expected a release"),
    }
}

#[test]
fn unreleased_merges_in_place_without_duplicate() {
    let parsed = ChangeLog {
        sections: vec![unreleased(vec![user("pending\n")]), release(1, 0, 0, vec![])],
    };
    let generated = ChangeLog { sections: vec![unreleased(vec![clippy_gen(4)])] };
    let merged = parsed.merge_generated(generated).expect("well-formed");
    assert_eq!(merged.sections.len(), 2);
    match &merged.sections[0] {
        Section::Release { name, segments, .. } => {
            assert_eq!(*name, Version::Unreleased);
            assert_eq!(segments.len(), 2);
            assert_eq!(segments[0], user("pending\n"));
            assert_eq!(segments[1], clippy_gen(4));
        },
        _ => panic!("expected a release"),
    }
    assert_eq!(name_of(&merged.sections[1]), Version::Semantic(semver(1, 0, 0)));
}

#[test]
fn generated_verbatim_prepended_in_front_of_releases() {
    let parsed = ChangeLog { sections: vec![release(1, 0, 0, vec![])] };
    let generated = ChangeLog {
        sections: vec![
            Section::Verbatim { text: b"auto header\n".to_vec(), generated: true },
            release(1, 0, 0, vec![clippy_gen(1)]),
        ],
    };
    let merged = parsed.merge_generated(generated).expect("well-formed");
    assert_eq!(merged.sections.len(), 2);
    assert_eq!(
        merged.sections[0],
        Section::Verbatim { text: b"auto header\n".to_vec(), generated: true }
    );
}

#[test]
fn generated_verbatim_never_prepended_before_hand_written_prologue() {
    let parsed = ChangeLog {
        sections: vec![
            Section::Verbatim { text: b"my own intro\n".to_vec(), generated: false },
            release(1, 0, 0, vec![]),
        ],
    };
    let generated = ChangeLog {
        sections: vec![
            Section::Verbatim { text: b"auto header\n".to_vec(), generated: true },
            release(1, 0, 0, vec![clippy_gen(1)]),
        ],
    };
    let merged = parsed.merge_generated(generated).expect("well-formed");
    assert_eq!(merged.sections.len(), 2);
    assert_eq!(
        merged.sections[0],
        Section::Verbatim { text: b"my own intro\n".to_vec(), generated: false }
    );
}

#[test]
fn merging_twice_is_idempotent() {
    let parsed = ChangeLog {
        sections: vec![
            unreleased(vec![user("pending\n")]),
            release(1, 0, 0, vec![user("notes\n"), clippy_gen(1)]),
        ],
    };
    let make_generated = || ChangeLog {
        sections: vec![
            unreleased(vec![clippy_gen(5)]),
            release(1, 0, 0, vec![clippy_gen(2)]),
            release(0, 9, 0, vec![stats_gen(3)]),
        ],
    };
    let once = parsed.merge_generated(make_generated()).expect("well-formed");
    let once_copy = ChangeLog { sections: once.sections.clone() };
    let twice = once.merge_generated(make_generated()).expect("well-formed");
    assert_eq!(twice.sections, once_copy.sections);
}

#[test]
fn ill_formed_generated_input_is_reported_as_generator_bug() {
    let parsed = || ChangeLog { sections: vec![release(1, 0, 0, vec![])] };

    let hand_written = ChangeLog {
        sections: vec![Section::Verbatim { text: b"x".to_vec(), generated: false }],
    };
    assert_eq!(parsed().merge_generated(hand_written), Err(MergeError::HandWrittenVerbatim));

    let misplaced = ChangeLog {
        sections: vec![
            release(1, 0, 0, vec![]),
            Section::Verbatim { text: b"x".to_vec(), generated: true },
        ],
    };
    assert_eq!(parsed().merge_generated(misplaced), Err(MergeError::MisplacedVerbatim));

    let with_user = ChangeLog { sections: vec![release(1, 0, 0, vec![user("smuggled\n")])] };
    assert_eq!(parsed().merge_generated(with_user), Err(MergeError::UserSegmentInGenerated));

    let with_marker = ChangeLog {
        sections: vec![release(1, 0, 0, vec![Segment::Clippy(Data::Parsed)])],
    };
    assert_eq!(parsed().merge_generated(with_marker), Err(MergeError::ParsedMarkerInGenerated));

    let mut unknown_section = release(1, 0, 0, vec![]);
    if let Section::Release { unknown, .. } = &mut unknown_section {
        *unknown = b"left-over".to_vec();
    }
    let with_unknown = ChangeLog { sections: vec![unknown_section] };
    assert_eq!(parsed().merge_generated(with_unknown), Err(MergeError::UnknownInGenerated));
}

#[test]
fn section_merge_refuses_verbatim_sections() {
    let mut dest = Section::Verbatim { text: b"x".to_vec(), generated: false };
    let src = release(1, 0, 0, vec![]);
    assert_eq!(dest.merge(src), Err(MergeError::VerbatimMerge));

    let mut dest2 = release(1, 0, 0, vec![]);
    let src2 = Section::Verbatim { text: b"x".to_vec(), generated: true };
    assert_eq!(dest2.merge(src2), Err(MergeError::VerbatimMerge));
}
