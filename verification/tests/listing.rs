use cargo_list::declaration::{normalize, Declaration, Value};
use cargo_list::error::{FetchError, ListError};
use cargo_list::list_section;
use cargo_list::listing::complete_row;
use cargo_list::manifest::{Manifest, Section};
use cargo_list::ordered_map::OrderedMap;
use cargo_list::render::{render_rows, Row};

fn no_lookup(_name: &str) -> Result<String, FetchError> {
    panic!("the registry must not be asked")
}

fn text(s: &str) -> Value {
    Value::Text(String::from(s))
}

fn table(pairs: Vec<(&str, Value)>) -> Declaration {
    let mut map = OrderedMap::new();
    for (key, value) in pairs {
        map.insert(String::from(key), value);
    }
    Declaration::Table(map)
}

fn manifest_with(section: &str, entries: Vec<(&str, Declaration)>) -> Manifest {
    let mut map = OrderedMap::new();
    for (name, declaration) in entries {
        map.insert(String::from(name), declaration);
    }
    let mut manifest = Manifest::new();
    manifest.data.insert(String::from(section), Section::Table(map));
    manifest
}

/// The manifest
///
/// ```toml
/// [package]
/// authors = ["Some Guy"]
/// name = "lorem-ipsum"
/// version = "0.1.0"
///
/// [dependencies]
/// foo-bar = "0.1"
/// lorem-ipsum = "0.4.2"
/// ```
fn default_manifest() -> Manifest {
    let mut package = OrderedMap::new();
    package.insert(String::from("authors"), Declaration::Other);
    package.insert(String::from("name"), Declaration::Plain(String::from("lorem-ipsum")));
    package.insert(String::from("version"), Declaration::Plain(String::from("0.1.0")));
    let mut dependencies = OrderedMap::new();
    dependencies.insert(String::from("foo-bar"), Declaration::Plain(String::from("0.1")));
    dependencies.insert(String::from("lorem-ipsum"), Declaration::Plain(String::from("0.4.2")));
    let mut manifest = Manifest::new();
    manifest.data.insert(String::from("package"), Section::Table(package));
    manifest.data.insert(String::from("dependencies"), Section::Table(dependencies));
    manifest
}

#[test]
fn basic_listing() {
    let manifile = default_manifest();

    // The version column is as wide as `0.4.2`, so two spaces follow `0.1`.
    assert_eq!(
        list_section(&manifile, "dependencies", false, no_lookup).unwrap(),
        "foo-bar     0.1  \nlorem-ipsum 0.4.2"
    );
}

#[test]
#[should_panic]
fn unknown_section() {
    let manifile = default_manifest();

    list_section(&manifile, "lol-dependencies", false, no_lookup).unwrap();
}

#[test]
fn unknown_section_is_section_missing() {
    let manifile = default_manifest();
    assert_eq!(
        list_section(&manifile, "lol-dependencies", false, no_lookup),
        Err(ListError::SectionMissing(String::from("lol-dependencies")))
    );
}

#[test]
fn section_that_is_no_table_is_missing() {
    let mut manifest = default_manifest();
    manifest.data.insert(String::from("workspace"), Section::Other);
    assert_eq!(
        list_section(&manifest, "workspace", true, no_lookup),
        Err(ListError::SectionMissing(String::from("workspace")))
    );
}

#[test]
fn empty_section_lists_as_empty_string() {
    let manifest = manifest_with("dependencies", vec![]);
    assert_eq!(list_section(&manifest, "dependencies", false, no_lookup), Ok(String::new()));
    assert_eq!(list_section(&manifest, "dependencies", true, no_lookup), Ok(String::new()));
}

#[test]
fn package_section_shows_other_shapes_empty() {
    let manifest = default_manifest();
    assert_eq!(
        list_section(&manifest, "package", false, no_lookup).unwrap(),
        "authors            \nname    lorem-ipsum\nversion 0.1.0      "
    );
}

#[test]
fn plain_declaration_is_shown_as_it_is() {
    let declaration = Declaration::Plain(String::from(">= 1.2, < 2"));
    assert_eq!(
        normalize("dep", "dependencies", &declaration),
        Ok((String::from(">= 1.2, < 2"), false))
    );
}

#[test]
fn other_declaration_has_empty_version() {
    assert_eq!(
        normalize("dep", "dependencies", &Declaration::Other),
        Ok((String::new(), false))
    );
}

#[test]
fn version_wins_over_git_and_path() {
    let declaration = table(vec![
        ("path", text("../dep")),
        ("git", text("https://example.com/dep.git")),
        ("version", text("1.0")),
    ]);
    assert_eq!(normalize("dep", "dependencies", &declaration), Ok((String::from("1.0"), false)));
}

#[test]
fn git_wins_over_path() {
    let declaration =
        table(vec![("path", text("../dep")), ("git", text("https://example.com/dep.git"))]);
    assert_eq!(
        normalize("dep", "dependencies", &declaration),
        Ok((String::from("git: https://example.com/dep.git"), false))
    );
}

#[test]
fn path_alone_is_shown() {
    let declaration = table(vec![("path", text("../dep")), ("optional", Value::Flag(true))]);
    assert_eq!(
        normalize("dep", "dependencies", &declaration),
        Ok((String::from("path: ../dep"), true))
    );
}

#[test]
fn version_that_is_no_string_is_passed_over() {
    let declaration =
        table(vec![("version", Value::Other(String::from("5"))), ("path", text("../dep"))]);
    assert_eq!(
        normalize("dep", "dependencies", &declaration),
        Ok((String::from("path: ../dep"), false))
    );
}

#[test]
fn git_that_is_no_string_is_shown_as_written() {
    let declaration = table(vec![("git", Value::Other(String::from("5")))]);
    assert_eq!(
        normalize("dep", "dependencies", &declaration),
        Ok((String::from("git: 5"), false))
    );
    let declaration = table(vec![("path", Value::Flag(false))]);
    assert_eq!(
        normalize("dep", "dependencies", &declaration),
        Ok((String::from("path: false"), false))
    );
    let declaration = table(vec![("git", Value::Flag(true))]);
    assert_eq!(
        normalize("dep", "dependencies", &declaration),
        Ok((String::from("git: true"), false))
    );
}

#[test]
fn optional_that_is_no_boolean_counts_as_false() {
    let declaration = table(vec![("version", text("1.0")), ("optional", text("true"))]);
    assert_eq!(normalize("dep", "dependencies", &declaration), Ok((String::from("1.0"), false)));
    let declaration = table(vec![("version", text("1.0")), ("optional", Value::Flag(false))]);
    assert_eq!(normalize("dep", "dependencies", &declaration), Ok((String::from("1.0"), false)));
}

#[test]
fn table_without_version_is_version_missing() {
    let declaration = table(vec![("optional", Value::Flag(true))]);
    assert_eq!(
        normalize("dep", "dev-dependencies", &declaration),
        Err(ListError::VersionMissing(String::from("dep"), String::from("dev-dependencies")))
    );
}

#[test]
fn optional_only_entry_fails_the_listing() {
    let manifest = manifest_with(
        "dependencies",
        vec![
            ("first", Declaration::Plain(String::from("1"))),
            ("second", table(vec![("optional", Value::Flag(true))])),
            ("third", Declaration::Plain(String::from("3"))),
        ],
    );
    assert_eq!(
        list_section(&manifest, "dependencies", false, no_lookup),
        Err(ListError::VersionMissing(String::from("second"), String::from("dependencies")))
    );
}

#[test]
fn columns_are_as_wide_as_the_longest_entries() {
    let manifest = manifest_with(
        "dependencies",
        vec![
            ("a", Declaration::Plain(String::from("0.10.12"))),
            ("longer-name", Declaration::Plain(String::from("1"))),
            ("mid", table(vec![("path", text("x"))])),
        ],
    );
    assert_eq!(
        list_section(&manifest, "dependencies", false, no_lookup).unwrap(),
        "a           0.10.12\nlonger-name 1      \nmid         path: x"
    );
}

#[test]
fn optional_rows_are_marked_and_others_filled() {
    let manifest = manifest_with(
        "dependencies",
        vec![
            ("plain", Declaration::Plain(String::from("1.0"))),
            ("opt", table(vec![("version", text("2.0.1")), ("optional", Value::Flag(true))])),
        ],
    );
    assert_eq!(
        list_section(&manifest, "dependencies", false, no_lookup).unwrap(),
        "plain 1.0              \nopt   2.0.1 (optional) "
    );
    let latest = |name: &str| -> Result<String, FetchError> { Ok(format!("{}-9", name)) };
    assert_eq!(
        list_section(&manifest, "dependencies", true, latest).unwrap(),
        "plain 1.0              plain-9\nopt   2.0.1 (optional) opt-9"
    );
}

#[test]
fn latest_follows_the_version_directly() {
    let manifest = manifest_with(
        "dependencies",
        vec![
            ("foo-bar", Declaration::Plain(String::from("0.1"))),
            ("lorem-ipsum", Declaration::Plain(String::from("0.4.2"))),
        ],
    );
    let latest = |_name: &str| -> Result<String, FetchError> { Ok(String::from("1.0.0")) };
    assert_eq!(
        list_section(&manifest, "dependencies", true, latest).unwrap(),
        "foo-bar     0.1  1.0.0\nlorem-ipsum 0.4.21.0.0"
    );
}

#[test]
fn failed_lookup_ends_the_listing() {
    let manifest = manifest_with(
        "dependencies",
        vec![
            ("good", Declaration::Plain(String::from("1"))),
            ("bad", Declaration::Plain(String::from("2"))),
            ("broken", table(vec![])),
        ],
    );
    let latest = |name: &str| -> Result<String, FetchError> {
        if name == "bad" {
            Err(FetchError { message: String::from("no such crate") })
        } else {
            Ok(String::from("1.0.0"))
        }
    };
    assert_eq!(
        list_section(&manifest, "dependencies", true, latest),
        Err(ListError::FetchVersionError {
            package: String::from("bad"),
            cause: FetchError { message: String::from("no such crate") },
        })
    );
}

#[test]
fn missing_version_comes_before_the_lookup_of_its_entry() {
    let manifest = manifest_with("dependencies", vec![("broken", table(vec![]))]);
    assert_eq!(
        list_section(&manifest, "dependencies", true, no_lookup),
        Err(ListError::VersionMissing(String::from("broken"), String::from("dependencies")))
    );
}

#[test]
fn lookup_is_asked_once_for_each_entry_in_order() {
    let manifest = manifest_with(
        "dependencies",
        vec![
            ("zeta", Declaration::Plain(String::from("1"))),
            ("alpha", Declaration::Plain(String::from("2"))),
        ],
    );
    let asked = std::cell::RefCell::new(Vec::new());
    let latest = |name: &str| -> Result<String, FetchError> {
        asked.borrow_mut().push(String::from(name));
        Ok(String::from("9"))
    };
    assert_eq!(
        list_section(&manifest, "dependencies", true, latest).unwrap(),
        "zeta  19\nalpha 29"
    );
    assert_eq!(*asked.borrow(), vec![String::from("zeta"), String::from("alpha")]);
}

#[test]
fn complete_row_attaches_the_answer() {
    assert_eq!(
        complete_row("dep", String::from("1.0"), true, None),
        Ok(Row {
            name: String::from("dep"),
            version: String::from("1.0"),
            optional: true,
            latest: None,
        })
    );
    assert_eq!(
        complete_row("dep", String::from("1.0"), false, Some(Ok(String::from("1.2")))),
        Ok(Row {
            name: String::from("dep"),
            version: String::from("1.0"),
            optional: false,
            latest: Some(String::from("1.2")),
        })
    );
    assert_eq!(
        complete_row(
            "dep",
            String::from("1.0"),
            false,
            Some(Err(FetchError { message: String::from("offline") }))
        ),
        Err(ListError::FetchVersionError {
            package: String::from("dep"),
            cause: FetchError { message: String::from("offline") },
        })
    );
}

#[test]
fn render_rows_of_nothing_is_empty() {
    assert_eq!(render_rows(&Vec::new()), "");
}

#[test]
fn render_rows_pads_by_display_columns() {
    let rows = vec![
        Row {
            name: String::from("pâté"),
            version: String::from("1"),
            optional: false,
            latest: None,
        },
        Row {
            name: String::from("ab"),
            version: String::from("10"),
            optional: false,
            latest: None,
        },
    ];
    // The longest name has six bytes and four columns.
    assert_eq!(render_rows(&rows), "pâté   1 \nab     10");
}

#[test]
fn render_rows_keeps_a_single_row_unpadded() {
    let rows = vec![Row {
        name: String::from("only"),
        version: String::from("0.0.1"),
        optional: true,
        latest: Some(String::from("0.0.2")),
    }];
    assert_eq!(render_rows(&rows), "only 0.0.1 (optional) 0.0.2");
}
