use keep_a_changelog_file::grammar::{ABOUT_FORMAT_TEXT, NOTABLE_CHANGES_TEXT};
use keep_a_changelog_file::tree::{Child, TreeKind};
use keep_a_changelog_file::{
    get_diagnostics, parse, ChangeGroup, Changelog, PromoteOptions, ReleaseDate, ReleaseLink, ReleaseTag,
    ReleaseVersion,
};

fn valid_text() -> String {
    format!(
        "# Changelog\n\n{NOTABLE_CHANGES_TEXT}\n\n{ABOUT_FORMAT_TEXT}\n\n## [Unreleased]\n\n### Added\n\n- new thing\n\n## [1.1.0] - 2020-02-02 [YANKED]\n\n### Fixed\n\n- a fix\n- another fix\n\n### Security\n\n- patched\n\n## [1.0.0] - 2020-01-01\n\n### Changed\n\n- first\n\n[unreleased]: https://example.com/compare/v1.1.0...HEAD\n[1.1.0]: https://example.com/v1.1.0\n[1.0.0]: https://example.com/v1.0.0\n"
    )
}

#[test]
fn parse_never_fails_on_odd_input() {
    for text in ["", "\n\n", "plain words", "# \u{0}\u{7f}", "## [", "### Fixed", "[x]: y", "- a\n- b"] {
        let tree = parse(text);
        assert_eq!(tree.kind, TreeKind::ChangelogFile);
        let _ = get_diagnostics(&tree);
    }
}

#[test]
fn no_diagnostics_means_the_changelog_reads() {
    let text = valid_text();
    assert!(get_diagnostics(&parse(&text)).is_empty());
    assert!(Changelog::from_text(&text).is_ok());
    let bad = "# Changelog\n";
    assert!(!get_diagnostics(&parse(bad)).is_empty());
    assert_eq!(Changelog::from_text(bad).unwrap_err().len(), get_diagnostics(&parse(bad)).len());
}

#[test]
fn writing_then_reading_gives_the_same_changelog() {
    let changelog = Changelog::from_text(&valid_text()).unwrap();
    let again = Changelog::from_text(&changelog.to_text()).unwrap();
    assert_eq!(changelog, again);
    assert_eq!(changelog.to_text(), valid_text());
}

#[test]
fn read_values_of_a_valid_changelog() {
    let changelog = Changelog::from_text(&valid_text()).unwrap();
    let releases = changelog.releases.iter();
    assert_eq!(releases.len(), 2);
    assert_eq!(releases[0].version.as_str(), "1.1.0");
    assert_eq!(releases[0].date.as_str(), "2020-02-02");
    assert_eq!(releases[0].tag, Some(ReleaseTag::Yanked));
    assert_eq!(releases[0].link.as_ref().unwrap().as_str(), "https://example.com/v1.1.0");
    let groups = releases[0].changes.iter();
    assert_eq!(groups.len(), 2);
    assert_eq!(groups[0].0, ChangeGroup::Fixed);
    assert_eq!(*groups[0].1, vec!["a fix".to_string(), "another fix".to_string()]);
    assert_eq!(groups[1].0, ChangeGroup::Security);
    assert_eq!(
        changelog.unreleased.link.as_ref().unwrap().as_str(),
        "https://example.com/compare/v1.1.0...HEAD"
    );
    assert!(!changelog.unreleased.changes.is_empty());
    let v: ReleaseVersion = "1.0.0".parse().unwrap();
    assert!(changelog.releases.contains_version(&v));
    assert_eq!(changelog.releases.get_version(&v).unwrap().date.as_str(), "2020-01-01");
    let missing: ReleaseVersion = "9.9.9".parse().unwrap();
    assert!(!changelog.releases.contains_version(&missing));
    assert!(changelog.releases.get_version(&missing).is_none());
}

#[test]
fn empty_document_reports_four_missing_sections() {
    let diagnostics = get_diagnostics(&parse(""));
    assert_eq!(diagnostics.len(), 4);
    assert!(diagnostics[0].message.contains("# Changelog"));
    assert!(diagnostics[1].message.contains(NOTABLE_CHANGES_TEXT));
    assert!(diagnostics[2].message.contains(ABOUT_FORMAT_TEXT));
    assert!(diagnostics[3].message.contains("## Unreleased"));
    for d in &diagnostics {
        assert_eq!((d.position.start.line, d.position.start.column, d.position.start.offset), (1, 1, 0));
        assert_eq!((d.position.end.line, d.position.end.column, d.position.end.offset), (1, 1, 0));
    }
}

#[test]
fn missing_list_placeholder_follows_the_heading() {
    let text = format!(
        "# Changelog\n\n{NOTABLE_CHANGES_TEXT}\n\n{ABOUT_FORMAT_TEXT}\n\n## Unreleased\n\n### Removed\n"
    );
    let diagnostics = get_diagnostics(&parse(&text));
    assert_eq!(diagnostics.len(), 1);
    assert_eq!(diagnostics[0].message, "Change Group is missing the required list of changes");
    let heading_end = text.len() - 1;
    assert_eq!(diagnostics[0].position.start.line, 11);
    assert_eq!(diagnostics[0].position.start.column, 1);
    assert_eq!(diagnostics[0].position.start.offset, heading_end + 1);
}

#[test]
fn duplicate_change_group_points_at_second_heading() {
    let text = format!(
        "# Changelog\n\n{NOTABLE_CHANGES_TEXT}\n\n{ABOUT_FORMAT_TEXT}\n\n## Unreleased\n\n## [1.0.0] - 2000-01-01\n\n### Fixed\n\n- a\n\n### Fixed\n\n- b\n"
    );
    let diagnostics = get_diagnostics(&parse(&text));
    assert_eq!(diagnostics.len(), 1);
    assert_eq!(diagnostics[0].message, "Duplicate change group found");
    assert_eq!(diagnostics[0].position.start.line, 16);
    assert_eq!(diagnostics[0].position.start.column, 1);
    assert_eq!(diagnostics[0].to_string(), "16:1 Duplicate change group found");
}

#[test]
fn orphan_and_duplicate_links_are_reported() {
    let text = format!(
        "# Changelog\n\n{NOTABLE_CHANGES_TEXT}\n\n{ABOUT_FORMAT_TEXT}\n\n## Unreleased\n\n## [1.0.0] - 2000-01-01\n\n### Fixed\n\n- a\n\n[2.0.0]: https://example.com/2\n[2.0.0]: https://example.com/2\n"
    );
    let messages: Vec<String> = get_diagnostics(&parse(&text)).into_iter().map(|d| d.message).collect();
    assert_eq!(
        messages,
        vec![
            "Duplicate release version link '2.0.0' found".to_string(),
            "Release link version does not match any listed releases".to_string(),
        ]
    );
}

#[test]
fn promotion_to_existing_version_changes_nothing() {
    let mut changelog = Changelog::from_text(&valid_text()).unwrap();
    let before = Changelog::from_text(&valid_text()).unwrap();
    let options = PromoteOptions::new("1.0.0".parse().unwrap()).with_date("2030-01-01".parse().unwrap());
    let err = changelog.promote_unreleased(&options).unwrap_err();
    assert_eq!(
        err.message(),
        "Could not promote unreleased to release version 1.0.0 because it that version already exists in the changelog"
    );
    assert_eq!(changelog, before);
}

#[test]
fn promotion_moves_changes_into_first_release() {
    let mut changelog = Changelog::from_text(&valid_text()).unwrap();
    let options = PromoteOptions::new("2.0.0".parse().unwrap())
        .with_date("2030-01-01".parse().unwrap())
        .with_tag(ReleaseTag::NoChanges);
    changelog.promote_unreleased(&options).unwrap();
    assert!(changelog.unreleased.changes.is_empty());
    assert!(changelog.unreleased.changes.iter().is_empty());
    let releases = changelog.releases.iter();
    assert_eq!(releases.len(), 3);
    assert_eq!(releases[0].version.as_str(), "2.0.0");
    assert_eq!(releases[0].date.as_str(), "2030-01-01");
    assert_eq!(releases[0].tag, Some(ReleaseTag::NoChanges));
    assert_eq!(releases[0].link, None);
    assert_eq!(*releases[0].changes.iter()[0].1, vec!["new thing".to_string()]);
    assert_eq!(releases[1].version.as_str(), "1.1.0");
    assert_eq!(releases[2].version.as_str(), "1.0.0");
}

#[test]
fn promotion_without_date_uses_today() {
    let mut changelog = Changelog::from_text(&valid_text()).unwrap();
    changelog.promote_unreleased(&PromoteOptions::new("3.0.0".parse().unwrap())).unwrap();
    let date = changelog.releases.iter()[0].date.as_str().to_string();
    assert_eq!(date.len(), 10);
    assert!(date.parse::<ReleaseDate>().is_ok());
}

#[test]
fn invalid_version_scenario_keeps_change_group() {
    let text = "# Changelog\n\n## Unreleased\n\n## [a.b.c] - 2000-01-01\n\n### Fixed\n\n- x\n";
    let tree = parse(text);
    let diagnostics = get_diagnostics(&tree);
    let d = diagnostics
        .iter()
        .find(|d| d.message.contains("Invalid release version 'a.b.c'"))
        .unwrap();
    assert_eq!((d.position.start.line, d.position.start.column, d.position.start.offset), (5, 1, 28));
    let release = tree
        .children
        .iter()
        .find_map(|c| match c {
            Child::Tree(t) if t.kind == TreeKind::Release => Some(t),
            _ => None,
        })
        .unwrap();
    match &release.children[1] {
        Child::Tree(t) => {
            assert_eq!(t.kind, TreeKind::ChangeGroup);
            match &t.children[0] {
                Child::Tree(h) => assert_eq!(h.kind, TreeKind::ChangeGroupHeader(ChangeGroup::Fixed)),
                other => panic!("unexpected child {other:?}"),
            }
        }
        other => panic!("unexpected child {other:?}"),
    }
}

#[test]
fn headings_are_read_in_any_letter_case() {
    let text = format!(
        "# Changelog\n\n{NOTABLE_CHANGES_TEXT}\n\n{ABOUT_FORMAT_TEXT}\n\n## [UNRELEASED]\n\n### added\n\n- x\n\n## 1.0.0 - 2000-01-01 [no changes]\n"
    );
    let changelog = Changelog::from_text(&text).unwrap();
    assert_eq!(changelog.unreleased.changes.iter()[0].0, ChangeGroup::Added);
    assert_eq!(changelog.releases.iter()[0].tag, Some(ReleaseTag::NoChanges));
}

#[test]
fn about_text_matches_up_to_whitespace() {
    let about = ABOUT_FORMAT_TEXT.replace('\n', " ");
    let text = format!("# Changelog\n\n{NOTABLE_CHANGES_TEXT}\n\n{about}\n\n## Unreleased\n");
    assert!(get_diagnostics(&parse(&text)).is_empty());
}

#[test]
fn value_parsers_accept_and_reject() {
    assert_eq!(" ADDED ".parse::<ChangeGroup>().unwrap(), ChangeGroup::Added);
    assert_eq!("Security".parse::<ChangeGroup>().unwrap(), ChangeGroup::Security);
    let e = "Misc".parse::<ChangeGroup>().unwrap_err();
    assert_eq!(
        e.message(),
        "Could not parse release tag 'Misc'\nExpected: Added | Changed | Deprecated | Removed | Fixed | Security"
    );
    assert_eq!("Yanked".parse::<ReleaseTag>().unwrap(), ReleaseTag::Yanked);
    assert_eq!(
        "gone".parse::<ReleaseTag>().unwrap_err().message(),
        "Could not parse release tag 'gone'\nExpected: YANKED | NO CHANGES"
    );
    assert_eq!("1.2.3-rc.1".parse::<ReleaseVersion>().unwrap().as_str(), "1.2.3-rc.1");
    assert_eq!(
        "1.2".parse::<ReleaseVersion>().unwrap_err().message(),
        "Could not parse version '1.2' as semver.\nReason: unexpected end of input while parsing minor version number"
    );
    assert!("2024-02-30".parse::<ReleaseDate>().is_err());
    assert_eq!(
        "2024-13-01".parse::<ReleaseDate>().unwrap_err().message(),
        "Could not parse release date '2024-13-01' as YYYY-MM-DD.\nReason: input is out of range"
    );
    assert_eq!("2024-02-29".parse::<ReleaseDate>().unwrap().as_str(), "2024-02-29");
    assert!("https://example.com/x".parse::<ReleaseLink>().is_ok());
    let link_err = "not a uri".parse::<ReleaseLink>().unwrap_err();
    assert!(link_err.message().starts_with("Could not parse release link 'not a uri' as a URI.\nReason: "));
    assert_eq!(ReleaseDate::today().as_str().len(), 10);
}

#[test]
fn invalid_link_in_definition_is_reported() {
    let text = format!(
        "# Changelog\n\n{NOTABLE_CHANGES_TEXT}\n\n{ABOUT_FORMAT_TEXT}\n\n## Unreleased\n\n[abc]: https://example.com\n"
    );
    let diagnostics = get_diagnostics(&parse(&text));
    assert_eq!(diagnostics.len(), 1);
    assert!(diagnostics[0].message.starts_with("Invalid version 'abc' in release link - "));
}

#[test]
fn unreleased_add_appends_in_group_order() {
    let mut changelog = Changelog::from_text(&valid_text()).unwrap();
    changelog.unreleased.add(ChangeGroup::Fixed, "f1");
    changelog.unreleased.add(ChangeGroup::Added, "a2");
    let groups = changelog.unreleased.changes.iter();
    assert_eq!(groups.len(), 2);
    assert_eq!(groups[0].0, ChangeGroup::Added);
    assert_eq!(*groups[0].1, vec!["new thing".to_string(), "a2".to_string()]);
    assert_eq!(groups[1].0, ChangeGroup::Fixed);
    assert_eq!(*groups[1].1, vec!["f1".to_string()]);
}

#[test]
fn syntax_tree_outline_names_each_node() {
    let outline = keep_a_changelog_file::__printable_syntax_tree("# Changelog\n\n## [1.0.0] - 2000-01-01 [YANKED]\n");
    let lines: Vec<&str> = outline.lines().collect();
    assert_eq!(lines.len(), 7, "{outline}");
    assert_eq!(lines[0], "ChangelogFile");
    assert_eq!(lines[1], "  Title");
    assert!(lines[2].starts_with("  Error(ParserError(\"The following markdown is missing:\\n\\n"));
    assert_eq!(
        lines[5],
        "  Release"
    );
    assert_eq!(
        lines[6],
        "    ReleaseHeader(ReleaseVersion(\"1.0.0\"), ReleaseDate(\"2000-01-01\"), Some(Yanked))"
    );
}

#[test]
fn empty_brackets_are_read_as_the_version() {
    let text = format!(
        "# Changelog\n\n{NOTABLE_CHANGES_TEXT}\n\n{ABOUT_FORMAT_TEXT}\n\n## Unreleased\n\n## [] - 2000-01-01\n\n### Fixed\n\n- x\n"
    );
    let diagnostics = get_diagnostics(&parse(&text));
    assert_eq!(diagnostics.len(), 1, "{diagnostics:?}");
    assert!(diagnostics[0].message.starts_with("Invalid release version '[' - "), "{diagnostics:?}");
}

#[test]
fn link_with_colon_segment_is_reported_not_aborted() {
    let text = format!(
        "# Changelog\n\n{NOTABLE_CHANGES_TEXT}\n\n{ABOUT_FORMAT_TEXT}\n\n## Unreleased\n\n[unreleased]: ://www.example.com/\n"
    );
    let diagnostics = get_diagnostics(&parse(&text));
    assert_eq!(diagnostics.len(), 1, "{diagnostics:?}");
    assert!(diagnostics[0].message.starts_with("Invalid url '://www.example.com/' in release link - "));
    assert!("://www.example.com/".parse::<ReleaseLink>().is_err());
    assert_eq!(
        "relative/path".parse::<ReleaseLink>().unwrap_err().message(),
        "Could not parse release link 'relative/path' as a URI.\nReason: not URI"
    );
}

#[test]
fn promotion_takes_the_given_today() {
    let mut changelog = Changelog::from_text(&valid_text()).unwrap();
    let options = PromoteOptions::new("4.0.0".parse().unwrap());
    changelog.promote_unreleased_on(&options, "2031-02-03".parse().unwrap()).unwrap();
    assert_eq!(changelog.releases.iter()[0].date.as_str(), "2031-02-03");
}

#[test]
fn clone_and_default_keep_contents() {
    let changelog = Changelog::from_text(&valid_text()).unwrap();
    let copy = changelog.clone();
    assert_eq!(copy, changelog);
    assert_eq!(copy.to_text(), valid_text());
    let empty = Changelog::default();
    assert!(empty.unreleased.changes.is_empty());
    assert_eq!(empty.releases.iter().len(), 0);
    assert!(empty.unreleased.link.is_none());
}
