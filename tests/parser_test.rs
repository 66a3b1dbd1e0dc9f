use keep_a_changelog_file::get_diagnostics;
use keep_a_changelog_file::grammar::{
    is_unreleased, ABOUT_FORMAT_TEXT, CHANGELOG_TITLE, NOTABLE_CHANGES_TEXT, UNRELEASED_HEADER_TEXT,
};
use keep_a_changelog_file::lexer::{Block, BlockShape};
use keep_a_changelog_file::parse;
use keep_a_changelog_file::tree::{Child, ReleaseLinkType, Tree, TreeKind};
use keep_a_changelog_file::{ChangeGroup, ReleaseLink, ReleaseTag, ReleaseVersion};

#[derive(Debug)]
struct ExpectTree {
    kind: TreeKind,
    children: Vec<ExpectChild>,
}

#[derive(Debug)]
enum ExpectChild {
    Tree(ExpectTree),
    Markdown(fn(&Block) -> bool),
    Dummy,
}

fn tree(kind: TreeKind, children: Vec<ExpectChild>) -> ExpectChild {
    ExpectChild::Tree(ExpectTree { kind, children })
}

fn root(children: Vec<ExpectChild>) -> ExpectTree {
    ExpectTree { kind: TreeKind::ChangelogFile, children }
}

fn assert_tree(parsed_tree: &Tree, expect_tree: ExpectTree) {
    assert_eq!(parsed_tree.kind, expect_tree.kind);
    assert!(
        expect_tree.children.len() >= parsed_tree.children.len(),
        "Missing expectations against children of: {parsed_tree:?}"
    );
    let mut parsed_children_iter = parsed_tree.children.iter();
    for expect_child in expect_tree.children {
        match (expect_child, parsed_children_iter.next()) {
            (ExpectChild::Tree(child_expect_tree), Some(Child::Tree(child_tree))) => {
                assert_tree(child_tree, child_expect_tree);
            }
            (ExpectChild::Markdown(test_fn), Some(Child::Markdown(node))) => {
                assert!(test_fn(node), "Expected markdown node to pass test function: {node:?}");
            }
            (ExpectChild::Dummy, Some(Child::Dummy(_))) => {}
            (expect_child, Some(child)) => {
                panic!("Different child type found:\nExpected - {expect_child:?}\nActual: {child:?}");
            }
            (expect_child, None) => {
                panic!("No child node present:\nExpected - {expect_child:?}");
            }
        }
    }
}

fn heading(depth: u8) -> impl Fn(&Block) -> bool {
    move |b: &Block| b.shape == BlockShape::Heading(depth)
}

fn is_h1(b: &Block) -> bool {
    heading(1)(b)
}

fn is_h2(b: &Block) -> bool {
    heading(2)(b)
}

fn is_h3(b: &Block) -> bool {
    heading(3)(b)
}

fn is_paragraph(b: &Block) -> bool {
    b.shape == BlockShape::Paragraph
}

fn is_list(b: &Block) -> bool {
    b.shape == BlockShape::List
}

fn is_definition(b: &Block) -> bool {
    matches!(b.shape, BlockShape::Definition(_, _))
}

fn expected_markdown_error(error_message: &str, expected_error_node: fn(&Block) -> bool) -> ExpectChild {
    tree(
        TreeKind::Error(error_message.to_string()),
        vec![ExpectChild::Markdown(expected_error_node)],
    )
}

fn expected_dummy_error(error_message: &str) -> ExpectChild {
    tree(TreeKind::Error(error_message.to_string()), vec![ExpectChild::Dummy])
}

fn expected_title() -> ExpectChild {
    tree(
        TreeKind::Title,
        vec![ExpectChild::Markdown(|b| is_h1(b) && b.text == CHANGELOG_TITLE)],
    )
}

fn expected_notable_changes() -> ExpectChild {
    tree(
        TreeKind::NotableChanges,
        vec![ExpectChild::Markdown(|b| is_paragraph(b) && b.markdown == NOTABLE_CHANGES_TEXT)],
    )
}

fn expected_about_format() -> ExpectChild {
    tree(
        TreeKind::AboutFormat,
        vec![ExpectChild::Markdown(|b| is_paragraph(b) && b.markdown == ABOUT_FORMAT_TEXT)],
    )
}

fn expected_unreleased_header() -> ExpectChild {
    tree(
        TreeKind::UnreleasedHeader,
        vec![ExpectChild::Markdown(|b| is_h2(b) && is_unreleased(&b.text))],
    )
}

fn expected_unreleased_with_no_change_groups() -> ExpectChild {
    tree(TreeKind::Unreleased, vec![expected_unreleased_header()])
}

fn expected_unreleased_with_change_groups(change_groups: Vec<ExpectChild>) -> ExpectChild {
    let mut children = vec![expected_unreleased_header()];
    children.extend(change_groups);
    tree(TreeKind::Unreleased, children)
}

fn expected_release(version: &str, date: &str, tag: Option<ReleaseTag>, change_groups: Vec<ExpectChild>) -> ExpectChild {
    let mut children = vec![tree(
        TreeKind::ReleaseHeader(version.parse().unwrap(), date.parse().unwrap(), tag),
        vec![ExpectChild::Markdown(is_h2)],
    )];
    children.extend(change_groups);
    tree(TreeKind::Release, children)
}

fn expected_change_group_header(change_group: ChangeGroup) -> ExpectChild {
    tree(TreeKind::ChangeGroupHeader(change_group), vec![ExpectChild::Markdown(is_h3)])
}

fn expected_change_group_list() -> ExpectChild {
    tree(TreeKind::ChangeGroupList, vec![ExpectChild::Markdown(is_list)])
}

fn expected_change_group(change_group: ChangeGroup) -> ExpectChild {
    tree(
        TreeKind::ChangeGroup,
        vec![expected_change_group_header(change_group), expected_change_group_list()],
    )
}

fn expected_release_link(version: &str, url: &str) -> ExpectChild {
    let version: ReleaseVersion = version.parse().unwrap();
    let url: ReleaseLink = url.parse().unwrap();
    tree(
        TreeKind::ReleaseLink(ReleaseLinkType::Versioned(version, url)),
        vec![ExpectChild::Markdown(is_definition)],
    )
}

fn missing_title() -> String {
    format!("The following markdown is missing:\n\n# {CHANGELOG_TITLE}\n\nIt must appear at the start of the document.")
}

fn missing_notable_changes() -> String {
    format!("The following markdown is missing:\n\n{NOTABLE_CHANGES_TEXT}\n\nIt must appear after:\n\n# {CHANGELOG_TITLE}")
}

fn missing_about_format() -> String {
    format!("The following markdown is missing:\n\n{ABOUT_FORMAT_TEXT}\n\nIt must appear after:\n\n{NOTABLE_CHANGES_TEXT}")
}

fn missing_unreleased() -> String {
    format!("The following markdown is missing:\n\n## {UNRELEASED_HEADER_TEXT}\n\nIt must appear after:\n\n{ABOUT_FORMAT_TEXT}")
}

fn header() -> String {
    format!("# {CHANGELOG_TITLE}\n\n{NOTABLE_CHANGES_TEXT}\n\n{ABOUT_FORMAT_TEXT}\n\n## {UNRELEASED_HEADER_TEXT}\n")
}

const CHANGE_GROUP_TYPO: &str = "Expected one of the following change groups:\n\n### Added, ### Changed, ### Deprecated, ### Fixed, ### Removed, ### Security\n\nbut found:\n\n### Chngd";

#[test]
fn test_empty_changelog_reports_all_required_information_as_missing() {
    let parsed_tree = parse("");
    assert_tree(
        &parsed_tree,
        root(vec![
            expected_dummy_error(&missing_title()),
            expected_dummy_error(&missing_notable_changes()),
            expected_dummy_error(&missing_about_format()),
            expected_dummy_error(&missing_unreleased()),
        ]),
    );
}

#[test]
fn test_changelog_title_typo() {
    let parsed_tree = parse(&format!(
        "# Chnglg\n\n{NOTABLE_CHANGES_TEXT}\n\n{ABOUT_FORMAT_TEXT}\n\n## {UNRELEASED_HEADER_TEXT}\n"
    ));
    assert_tree(
        &parsed_tree,
        root(vec![
            tree(
                TreeKind::Title,
                vec![expected_markdown_error(
                    &format!("Expected '# {CHANGELOG_TITLE}' but found '# Chnglg'"),
                    is_h1,
                )],
            ),
            expected_notable_changes(),
            expected_about_format(),
            expected_unreleased_with_no_change_groups(),
        ]),
    );
}

#[test]
fn test_changelog_with_missing_title() {
    let parsed_tree = parse(&format!(
        "{NOTABLE_CHANGES_TEXT}\n\n{ABOUT_FORMAT_TEXT}\n\n## {UNRELEASED_HEADER_TEXT}\n"
    ));
    assert_tree(
        &parsed_tree,
        root(vec![
            expected_dummy_error(&missing_title()),
            expected_notable_changes(),
            expected_about_format(),
            expected_unreleased_with_no_change_groups(),
        ]),
    );
}

#[test]
fn test_notable_changes_text_does_not_match() {
    let parsed_tree = parse(&format!(
        "# {CHANGELOG_TITLE}\n\nNot the text that should be here.\n\n{ABOUT_FORMAT_TEXT}\n\n## {UNRELEASED_HEADER_TEXT}\n"
    ));
    assert_tree(
        &parsed_tree,
        root(vec![
            expected_title(),
            tree(
                TreeKind::NotableChanges,
                vec![expected_markdown_error(
                    &format!("Expected the following markdown:\n\n{NOTABLE_CHANGES_TEXT}\n\nbut was:\n\nNot the text that should be here."),
                    is_paragraph,
                )],
            ),
            expected_about_format(),
            expected_unreleased_with_no_change_groups(),
        ]),
    );
}

#[test]
fn test_notable_changes_text_missing() {
    let parsed_tree = parse(&format!(
        "# {CHANGELOG_TITLE}\n\n{ABOUT_FORMAT_TEXT}\n\n## {UNRELEASED_HEADER_TEXT}\n"
    ));
    assert_tree(
        &parsed_tree,
        root(vec![
            expected_title(),
            expected_dummy_error(&missing_notable_changes()),
            expected_about_format(),
            expected_unreleased_with_no_change_groups(),
        ]),
    );
}

#[test]
fn test_about_format_text_does_not_match() {
    let parsed_tree = parse(&format!(
        "# {CHANGELOG_TITLE}\n\n{NOTABLE_CHANGES_TEXT}\n\nNot the text that should be here.\n\n## {UNRELEASED_HEADER_TEXT}\n"
    ));
    assert_tree(
        &parsed_tree,
        root(vec![
            expected_title(),
            expected_notable_changes(),
            tree(
                TreeKind::AboutFormat,
                vec![expected_markdown_error(
                    &format!("Expected the following markdown:\n\n{ABOUT_FORMAT_TEXT}\n\nbut was:\n\nNot the text that should be here."),
                    is_paragraph,
                )],
            ),
            expected_unreleased_with_no_change_groups(),
        ]),
    );
}

#[test]
fn test_about_format_text_missing() {
    let parsed_tree = parse(&format!(
        "# {CHANGELOG_TITLE}\n\n{NOTABLE_CHANGES_TEXT}\n\n## {UNRELEASED_HEADER_TEXT}\n"
    ));
    assert_tree(
        &parsed_tree,
        root(vec![
            expected_title(),
            expected_notable_changes(),
            expected_dummy_error(&missing_about_format()),
            expected_unreleased_with_no_change_groups(),
        ]),
    );
}

#[test]
fn test_unreleased_header_does_not_match() {
    let parsed_tree = parse(&format!(
        "# {CHANGELOG_TITLE}\n\n{NOTABLE_CHANGES_TEXT}\n\n{ABOUT_FORMAT_TEXT}\n\n## Unrlsed\n"
    ));
    assert_tree(
        &parsed_tree,
        root(vec![
            expected_title(),
            expected_notable_changes(),
            expected_about_format(),
            tree(
                TreeKind::Unreleased,
                vec![tree(
                    TreeKind::UnreleasedHeader,
                    vec![expected_markdown_error(
                        &format!("Expected '## {UNRELEASED_HEADER_TEXT}' but found '## Unrlsed'"),
                        is_h2,
                    )],
                )],
            ),
        ]),
    );
}

#[test]
fn test_unreleased_header_missing() {
    let parsed_tree = parse(&format!(
        "# {CHANGELOG_TITLE}\n\n{NOTABLE_CHANGES_TEXT}\n\n{ABOUT_FORMAT_TEXT}\n"
    ));
    assert_tree(
        &parsed_tree,
        root(vec![
            expected_title(),
            expected_notable_changes(),
            expected_about_format(),
            expected_dummy_error(&missing_unreleased()),
        ]),
    );
}

#[test]
fn test_unreleased_change_group_header_missing() {
    let parsed_tree = parse(&format!("{}\n- test change\n", header()));
    assert_tree(
        &parsed_tree,
        root(vec![
            expected_title(),
            expected_notable_changes(),
            expected_about_format(),
            expected_unreleased_with_change_groups(vec![expected_markdown_error(
                &format!("Unexpected markdown - '## {UNRELEASED_HEADER_TEXT}' should be followed by either a Change Group, Release, or Release Link but was:\n\n* test change"),
                is_list,
            )]),
        ]),
    );
}

#[test]
fn test_unreleased_change_group_header_typo() {
    let parsed_tree = parse(&format!("{}\n### Chngd\n\n- test change\n", header()));
    assert_tree(
        &parsed_tree,
        root(vec![
            expected_title(),
            expected_notable_changes(),
            expected_about_format(),
            expected_unreleased_with_change_groups(vec![tree(
                TreeKind::ChangeGroup,
                vec![
                    expected_markdown_error(CHANGE_GROUP_TYPO, is_h3),
                    expected_change_group_list(),
                ],
            )]),
        ]),
    );
}

#[test]
fn test_unreleased_change_group_header_recovery() {
    let parsed_tree = parse(&format!(
        "{}\n### Removed\n\n### Chngd\n\n- test change\n\n### Fixed \n\n- this should be good\n",
        header()
    ));
    assert_tree(
        &parsed_tree,
        root(vec![
            expected_title(),
            expected_notable_changes(),
            expected_about_format(),
            expected_unreleased_with_change_groups(vec![
                tree(
                    TreeKind::ChangeGroup,
                    vec![
                        expected_change_group_header(ChangeGroup::Removed),
                        expected_dummy_error("Change Group is missing the required list of changes"),
                    ],
                ),
                tree(
                    TreeKind::ChangeGroup,
                    vec![
                        expected_markdown_error(CHANGE_GROUP_TYPO, is_h3),
                        expected_change_group_list(),
                    ],
                ),
                expected_change_group(ChangeGroup::Fixed),
            ]),
        ]),
    );
}

#[test]
fn test_unreleased_with_duplicate_change_group() {
    let parsed_tree = parse(&format!(
        "{}\n### Removed\n\n- test change\n\n### Fixed\n\n- test change\n\n### Removed \n\n- duplicate\n",
        header()
    ));
    assert_tree(
        &parsed_tree,
        root(vec![
            expected_title(),
            expected_notable_changes(),
            expected_about_format(),
            expected_unreleased_with_change_groups(vec![
                expected_change_group(ChangeGroup::Removed),
                expected_change_group(ChangeGroup::Fixed),
                expected_change_group(ChangeGroup::Removed),
            ]),
        ]),
    );
    let diagnostics = get_diagnostics(&parsed_tree);
    assert_eq!(diagnostics.len(), 1, "Unexpected number of diagnostics: {diagnostics:?}");
    assert_eq!(diagnostics[0].message, "Duplicate change group found");
}

#[test]
fn test_release_with_invalid_version() {
    let parsed_tree = parse(&format!("{}\n## [a.b.c] - 2000-01-01\n\n### Fixed\n\n- test change\n", header()));
    assert_tree(
        &parsed_tree,
        root(vec![
            expected_title(),
            expected_notable_changes(),
            expected_about_format(),
            expected_unreleased_with_no_change_groups(),
            tree(
                TreeKind::Release,
                vec![
                    expected_markdown_error(
                        "Invalid release version 'a.b.c' - Could not parse version 'a.b.c' as semver.\nReason: unexpected character 'a' while parsing major version number",
                        is_h2,
                    ),
                    expected_change_group(ChangeGroup::Fixed),
                ],
            ),
        ]),
    );
}

#[test]
fn test_release_with_invalid_date() {
    let parsed_tree = parse(&format!("{}\n## [1.0.0] - 2000-99-99\n\n### Fixed\n\n- test change\n", header()));
    assert_tree(
        &parsed_tree,
        root(vec![
            expected_title(),
            expected_notable_changes(),
            expected_about_format(),
            expected_unreleased_with_no_change_groups(),
            tree(
                TreeKind::Release,
                vec![
                    expected_markdown_error(
                        "Invalid release date '2000-99-99' - Could not parse release date '2000-99-99' as YYYY-MM-DD.\nReason: input is out of range",
                        is_h2,
                    ),
                    expected_change_group(ChangeGroup::Fixed),
                ],
            ),
        ]),
    );
}

#[test]
fn test_release_with_invalid_release_tag() {
    let parsed_tree = parse(&format!("{}\n## [1.0.0] - 2000-01-01 [YNKD]\n\n### Fixed\n\n- test change\n", header()));
    assert_tree(
        &parsed_tree,
        root(vec![
            expected_title(),
            expected_notable_changes(),
            expected_about_format(),
            expected_unreleased_with_no_change_groups(),
            tree(
                TreeKind::Release,
                vec![
                    expected_markdown_error(
                        "Invalid release tag 'YNKD' - Could not parse release tag 'YNKD'\nExpected: YANKED | NO CHANGES",
                        is_h2,
                    ),
                    expected_change_group(ChangeGroup::Fixed),
                ],
            ),
        ]),
    );
}

#[test]
fn test_release_with_no_changes() {
    let parsed_tree = parse(&format!("{}\n## [1.0.0] - 2000-01-01\n", header()));
    assert_tree(
        &parsed_tree,
        root(vec![
            expected_title(),
            expected_notable_changes(),
            expected_about_format(),
            expected_unreleased_with_no_change_groups(),
            expected_release("1.0.0", "2000-01-01", None, vec![]),
        ]),
    );
    let diagnostics = get_diagnostics(&parsed_tree);
    assert_eq!(diagnostics.len(), 1, "Unexpected number of diagnostics: {diagnostics:?}");
    assert_eq!(
        diagnostics[0].message,
        "Release must have at least one change group listed or be tagged with [NO CHANGES]"
    );
}

#[test]
fn test_release_change_header_typo() {
    let parsed_tree = parse(&format!("{}\n## bad header\n", header()));
    assert_tree(
        &parsed_tree,
        root(vec![
            expected_title(),
            expected_notable_changes(),
            expected_about_format(),
            expected_unreleased_with_no_change_groups(),
            tree(
                TreeKind::Release,
                vec![expected_markdown_error(
                    "Expected Release Header with the format '[<semver>] - <YYYY>-<MM>-<DD> - [<tag>]' but found '## bad header'",
                    is_h2,
                )],
            ),
        ]),
    );
}

#[test]
fn test_release_change_header_recovery() {
    let parsed_tree = parse(&format!(
        "{}\n## [1.0.0] - 2000-01-01\n\n### Removed\n\n### Chngd\n\n- test change\n\n### Fixed \n\n- this should be good\n",
        header()
    ));
    assert_tree(
        &parsed_tree,
        root(vec![
            expected_title(),
            expected_notable_changes(),
            expected_about_format(),
            expected_unreleased_with_no_change_groups(),
            expected_release(
                "1.0.0",
                "2000-01-01",
                None,
                vec![
                    tree(
                        TreeKind::ChangeGroup,
                        vec![
                            expected_change_group_header(ChangeGroup::Removed),
                            expected_dummy_error("Change Group is missing the required list of changes"),
                        ],
                    ),
                    tree(
                        TreeKind::ChangeGroup,
                        vec![
                            expected_markdown_error(CHANGE_GROUP_TYPO, is_h3),
                            expected_change_group_list(),
                        ],
                    ),
                    expected_change_group(ChangeGroup::Fixed),
                ],
            ),
        ]),
    );
}

#[test]
fn test_duplicate_release() {
    let parsed_tree = parse(&format!(
        "{}\n## [1.0.0] - 2001-01-01\n\n### Fixed\n\n- test change\n\n## [1.0.0] - 2000-01-01\n\n### Fixed\n\n- test change\n",
        header()
    ));
    assert_tree(
        &parsed_tree,
        root(vec![
            expected_title(),
            expected_notable_changes(),
            expected_about_format(),
            expected_unreleased_with_no_change_groups(),
            expected_release("1.0.0", "2001-01-01", None, vec![expected_change_group(ChangeGroup::Fixed)]),
            expected_release("1.0.0", "2000-01-01", None, vec![expected_change_group(ChangeGroup::Fixed)]),
        ]),
    );
    let diagnostics = get_diagnostics(&parsed_tree);
    assert_eq!(diagnostics.len(), 1, "Unexpected number of diagnostics: {diagnostics:?}");
    assert_eq!(diagnostics[0].message, "Duplicate release version '1.0.0' found");
}

#[test]
fn test_release_with_duplicate_change_group() {
    let parsed_tree = parse(&format!(
        "{}\n## [1.0.0] - 2000-01-01\n\n### Fixed\n\n- test change\n\n### Removed\n\n- test change\n\n### Fixed \n\n- duplicate\n",
        header()
    ));
    assert_tree(
        &parsed_tree,
        root(vec![
            expected_title(),
            expected_notable_changes(),
            expected_about_format(),
            expected_unreleased_with_no_change_groups(),
            expected_release(
                "1.0.0",
                "2000-01-01",
                None,
                vec![
                    expected_change_group(ChangeGroup::Fixed),
                    expected_change_group(ChangeGroup::Removed),
                    expected_change_group(ChangeGroup::Fixed),
                ],
            ),
        ]),
    );
    let diagnostics = get_diagnostics(&parsed_tree);
    assert_eq!(diagnostics.len(), 1);
    assert_eq!(diagnostics[0].message, "Duplicate change group found");
}

#[test]
fn test_release_link_validation() {
    let parsed_tree = parse(&format!(
        "{}\n## [2.0.0] - 2017-06-20\n\n### Changed\n\n- test change\n\n## [1.0.0] - 2017-06-20\n\n### Changed\n\n- test change\n\n[2.0.0]: https://github.com/olivierlacan/keep-a-changelog/releases/tag/v2.0.0\n[2.0.0]: https://github.com/olivierlacan/keep-a-changelog/releases/tag/v2.0.0\n[0.0.1]: https://github.com/olivierlacan/keep-a-changelog/releases/tag/v0.0.1\n",
        header()
    ));
    assert_tree(
        &parsed_tree,
        root(vec![
            expected_title(),
            expected_notable_changes(),
            expected_about_format(),
            expected_unreleased_with_no_change_groups(),
            expected_release("2.0.0", "2017-06-20", None, vec![expected_change_group(ChangeGroup::Changed)]),
            expected_release("1.0.0", "2017-06-20", None, vec![expected_change_group(ChangeGroup::Changed)]),
            expected_release_link("2.0.0", "https://github.com/olivierlacan/keep-a-changelog/releases/tag/v2.0.0"),
            expected_release_link("2.0.0", "https://github.com/olivierlacan/keep-a-changelog/releases/tag/v2.0.0"),
            expected_release_link("0.0.1", "https://github.com/olivierlacan/keep-a-changelog/releases/tag/v0.0.1"),
        ]),
    );
    let diagnostics = get_diagnostics(&parsed_tree);
    assert_eq!(diagnostics.len(), 2, "Unexpected number of diagnostics: {diagnostics:?}");
    assert_eq!(diagnostics[0].message, "Duplicate release version link '2.0.0' found");
    assert_eq!(diagnostics[1].message, "Release link version does not match any listed releases");
}
