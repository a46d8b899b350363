use lockfile::codec::{decode_resolve, encode_resolve, DecodeError};
use lockfile::document::DocValue;
use lockfile::emit::{emit_lockfile, emit_package};
use lockfile::resolve::{Package, Resolve};
use lockfile::{lockfile_contents, resolve_from_contents, LoadError};

fn pkg(name: &str, version: &str, source: Option<&str>, deps: &[&str]) -> Package {
    Package {
        name: name.to_owned(),
        version: version.to_owned(),
        source: source.map(|s| s.to_owned()),
        dependencies: deps.iter().map(|d| (*d).to_owned()).collect(),
    }
}

fn graph(root: Package, packages: Vec<Package>, metadata: Option<Vec<(String, String)>>) -> Resolve {
    Resolve { root, packages, metadata, source_id: "path+file:///project".to_owned() }
}

#[test]
fn scenario_root_and_one_package() {
    let g = graph(
        pkg("foo", "0.1.0", None, &[]),
        vec![pkg("bar", "0.2.0", Some("registry+https://example.com"), &[])],
        None,
    );
    let text = lockfile_contents(&g);
    let expected = "[root]\nname = \"foo\"\nversion = \"0.1.0\"\n\n[[package]]\nname = \"bar\"\nversion = \"0.2.0\"\nsource = \"registry+https://example.com\"\n\n";
    assert_eq!(text, expected);
}

#[test]
fn scenario_metadata_section() {
    let g = graph(
        pkg("foo", "0.1.0", None, &[]),
        vec![pkg("bar", "0.2.0", Some("registry+https://example.com"), &[])],
        Some(vec![("checksum".to_owned(), "abc".to_owned())]),
    );
    let text = lockfile_contents(&g);
    assert!(text.ends_with("[metadata]\nchecksum = \"abc\"\n"));
    let without = lockfile_contents(&graph(
        pkg("foo", "0.1.0", None, &[]),
        vec![pkg("bar", "0.2.0", Some("registry+https://example.com"), &[])],
        None,
    ));
    assert_eq!(text, format!("{}[metadata]\nchecksum = \"abc\"\n", without));
}

#[test]
fn dependencies_one_per_line() {
    let g = graph(
        pkg("foo", "0.1.0", None, &["bar 0.2.0", "baz 0.3.0"]),
        vec![],
        None,
    );
    let text = lockfile_contents(&g);
    let expected =
        "[root]\nname = \"foo\"\nversion = \"0.1.0\"\ndependencies = [\n \"bar 0.2.0\",\n \"baz 0.3.0\",\n]\n\n";
    assert_eq!(text, expected);
}

#[test]
fn round_trip_through_text() {
    let g = graph(
        pkg("foo", "0.1.0", None, &["bar 0.2.0", "baz 0.3.0"]),
        vec![
            pkg("bar", "0.2.0", Some("registry+https://example.com"), &["baz 0.3.0"]),
            pkg("baz", "0.3.0", Some("registry+https://example.com"), &[]),
        ],
        Some(vec![("checksum bar 0.2.0".to_owned(), "deadbeef".to_owned())]),
    );
    let text = lockfile_contents(&g);
    let loaded = resolve_from_contents(Some(text), "path+file:///project").unwrap().unwrap();
    assert_eq!(loaded, g);
}

#[test]
fn save_twice_is_byte_identical() {
    let g = graph(
        pkg("foo", "0.1.0", None, &["bar 0.2.0"]),
        vec![pkg("bar", "0.2.0", Some("registry+https://example.com"), &[])],
        None,
    );
    assert_eq!(lockfile_contents(&g), lockfile_contents(&g));
}

#[test]
fn absent_file_loads_as_nothing() {
    let r = resolve_from_contents(None, "path+file:///anywhere");
    assert_eq!(r, Ok(None));
}

#[test]
fn one_added_dependency_touches_one_line() {
    let base = vec![
        pkg("bar", "0.2.0", Some("registry+https://example.com"), &["dep-a 1.0.0"]),
        pkg("baz", "0.3.0", Some("registry+https://example.com"), &[]),
    ];
    let mut more = base.clone();
    more[0].dependencies.push("dep-b 2.0.0".to_owned());
    let g1 = graph(pkg("foo", "0.1.0", None, &[]), base, None);
    let g2 = graph(pkg("foo", "0.1.0", None, &[]), more, None);
    let t1 = lockfile_contents(&g1);
    let t2 = lockfile_contents(&g2);
    assert_eq!(t2, t1.replace(" \"dep-a 1.0.0\",\n", " \"dep-a 1.0.0\",\n \"dep-b 2.0.0\",\n"));
}

fn str_entry(key: &str, value: &str) -> (String, DocValue) {
    (key.to_owned(), DocValue::Str(value.to_owned()))
}

#[test]
fn field_order_is_imposed_by_the_emitter() {
    let canonical = vec![
        str_entry("name", "bar"),
        str_entry("version", "0.2.0"),
        str_entry("source", "registry+https://example.com"),
        (
            "dependencies".to_owned(),
            DocValue::Arr(vec![DocValue::Str("baz 0.3.0".to_owned())]),
        ),
    ];
    let shuffled = vec![
        (
            "dependencies".to_owned(),
            DocValue::Arr(vec![DocValue::Str("baz 0.3.0".to_owned())]),
        ),
        str_entry("source", "registry+https://example.com"),
        str_entry("version", "0.2.0"),
        str_entry("name", "bar"),
    ];
    let out1 = emit_package(&canonical);
    let out2 = emit_package(&shuffled);
    assert_eq!(out1, out2);
    let expected = "name = \"bar\"\nversion = \"0.2.0\"\nsource = \"registry+https://example.com\"\ndependencies = [\n \"baz 0.3.0\",\n]\n\n";
    assert_eq!(out1, expected);
}

#[test]
fn emit_lockfile_walks_the_encoded_document() {
    let g = graph(pkg("foo", "0.1.0", None, &[]), vec![], None);
    let doc = encode_resolve(&g);
    let text = emit_lockfile(&doc);
    assert_eq!(text, "[root]\nname = \"foo\"\nversion = \"0.1.0\"\n\n");
}

#[test]
fn loads_hand_written_text_in_any_key_order() {
    let text = "[root]\nversion = \"1.0.0\"\nname = \"x\"\n".to_owned();
    let loaded = resolve_from_contents(Some(text), "sid").unwrap().unwrap();
    assert_eq!(loaded.root.name, "x");
    assert_eq!(loaded.root.version, "1.0.0");
    assert_eq!(loaded.root.source, None);
    assert!(loaded.root.dependencies.is_empty());
    assert!(loaded.packages.is_empty());
    assert_eq!(loaded.metadata, None);
    assert_eq!(loaded.source_id, "sid");
}

#[test]
fn empty_dependency_array_loads_as_no_dependencies() {
    let text = "[root]\nname = \"x\"\nversion = \"1.0.0\"\ndependencies = []\n".to_owned();
    let loaded = resolve_from_contents(Some(text), "sid").unwrap().unwrap();
    assert!(loaded.root.dependencies.is_empty());
    // An empty list renders the same as an absent one: blank line, no brackets.
    let text2 = lockfile_contents(&loaded);
    assert_eq!(text2, "[root]\nname = \"x\"\nversion = \"1.0.0\"\n\n");
}

#[test]
fn duplicate_keys_are_a_parse_failure() {
    let text = "[root]\nname = \"x\"\nname = \"y\"\nversion = \"1.0.0\"\n".to_owned();
    let r = resolve_from_contents(Some(text), "sid");
    assert!(matches!(r, Err(LoadError::Parse(_))));
}

#[test]
fn parse_failure_is_reported() {
    let r = resolve_from_contents(Some("not = [ well formed".to_owned()), "sid");
    match r {
        Err(LoadError::Parse(msg)) => assert!(!msg.is_empty()),
        other => panic!("expected a parse failure, got {:?}", other),
    }
}

#[test]
fn one_added_root_dependency_touches_one_line() {
    let g1 = graph(pkg("foo", "0.1.0", None, &["dep-a 1.0.0"]), vec![], None);
    let g2 = graph(pkg("foo", "0.1.0", None, &["dep-a 1.0.0", "dep-b 2.0.0"]), vec![], None);
    let t1 = lockfile_contents(&g1);
    let t2 = lockfile_contents(&g2);
    assert_eq!(t2, t1.replace(" \"dep-a 1.0.0\",\n", " \"dep-a 1.0.0\",\n \"dep-b 2.0.0\",\n"));
}

fn table(entries: Vec<(String, DocValue)>) -> DocValue {
    DocValue::Table(entries)
}

fn minimal_root() -> (String, DocValue) {
    (
        "root".to_owned(),
        table(vec![str_entry("name", "foo"), str_entry("version", "0.1.0")]),
    )
}

#[test]
fn decode_errors_name_the_fault() {
    let sid = "sid";
    assert_eq!(
        decode_resolve(&DocValue::Str("x".to_owned()), sid),
        Err(DecodeError::NotATable)
    );
    assert_eq!(decode_resolve(&table(vec![]), sid), Err(DecodeError::MissingRoot));
    assert_eq!(
        decode_resolve(&table(vec![("root".to_owned(), DocValue::Other)]), sid),
        Err(DecodeError::PackageNotTable)
    );
    assert_eq!(
        decode_resolve(
            &table(vec![("root".to_owned(), table(vec![str_entry("version", "0.1.0")]))]),
            sid
        ),
        Err(DecodeError::MissingName)
    );
    assert_eq!(
        decode_resolve(
            &table(vec![(
                "root".to_owned(),
                table(vec![("name".to_owned(), DocValue::Other), str_entry("version", "0.1.0")])
            )]),
            sid
        ),
        Err(DecodeError::NameNotString)
    );
    assert_eq!(
        decode_resolve(
            &table(vec![("root".to_owned(), table(vec![str_entry("name", "foo")]))]),
            sid
        ),
        Err(DecodeError::MissingVersion)
    );
    assert_eq!(
        decode_resolve(
            &table(vec![(
                "root".to_owned(),
                table(vec![str_entry("name", "foo"), ("version".to_owned(), DocValue::Other)])
            )]),
            sid
        ),
        Err(DecodeError::VersionNotString)
    );
    assert_eq!(
        decode_resolve(
            &table(vec![(
                "root".to_owned(),
                table(vec![
                    str_entry("name", "foo"),
                    str_entry("version", "0.1.0"),
                    ("source".to_owned(), DocValue::Other),
                ])
            )]),
            sid
        ),
        Err(DecodeError::SourceNotString)
    );
    assert_eq!(
        decode_resolve(
            &table(vec![(
                "root".to_owned(),
                table(vec![
                    str_entry("name", "foo"),
                    str_entry("version", "0.1.0"),
                    ("dependencies".to_owned(), DocValue::Other),
                ])
            )]),
            sid
        ),
        Err(DecodeError::DependenciesNotArray)
    );
    assert_eq!(
        decode_resolve(
            &table(vec![(
                "root".to_owned(),
                table(vec![
                    str_entry("name", "foo"),
                    str_entry("version", "0.1.0"),
                    ("dependencies".to_owned(), DocValue::Arr(vec![DocValue::Other])),
                ])
            )]),
            sid
        ),
        Err(DecodeError::DependencyNotString)
    );
    assert_eq!(
        decode_resolve(
            &table(vec![minimal_root(), ("package".to_owned(), DocValue::Other)]),
            sid
        ),
        Err(DecodeError::PackageListNotArray)
    );
    assert_eq!(
        decode_resolve(
            &table(vec![
                minimal_root(),
                ("package".to_owned(), DocValue::Arr(vec![DocValue::Other])),
            ]),
            sid
        ),
        Err(DecodeError::PackageNotTable)
    );
    assert_eq!(
        decode_resolve(
            &table(vec![minimal_root(), ("metadata".to_owned(), DocValue::Other)]),
            sid
        ),
        Err(DecodeError::MetadataNotTable)
    );
    assert_eq!(
        decode_resolve(
            &table(vec![
                minimal_root(),
                (
                    "metadata".to_owned(),
                    table(vec![("checksum".to_owned(), DocValue::Other)])
                ),
            ]),
            sid
        ),
        Err(DecodeError::MetadataValueNotString)
    );
}

#[test]
fn decode_accepts_a_minimal_document() {
    let doc = table(vec![minimal_root()]);
    let r = decode_resolve(&doc, "sid").unwrap();
    assert_eq!(r.root.name, "foo");
    assert_eq!(r.root.version, "0.1.0");
    assert!(r.packages.is_empty());
    assert_eq!(r.metadata, None);
    assert_eq!(r.source_id, "sid");
}
