use resolve_options::{
    import_mapping_to_result, AliasMap, AliasPattern, FileSystemPath, Glob, ImportMap,
    ImportMapResult, ImportMapping, ResolvedMap, SpecialType,
};

fn s(x: &str) -> String {
    x.to_string()
}

fn glob(p: &str) -> Glob {
    Glob { pattern: s(p) }
}

fn path(fs: u64, p: &str) -> FileSystemPath {
    FileSystemPath { fs, path: s(p) }
}

fn react_map() -> ImportMap {
    let mut map = ImportMap::new();
    map.direct.insert(
        AliasPattern::Exact(s("react")),
        ImportMapping::PrimaryAlternative(s("preact/compat"), None),
    );
    map
}

#[test]
fn exact_alias_redirects() {
    let map = react_map();
    let r = map.lookup(Some("react"), &vec![]);
    assert_eq!(r, ImportMapResult::Alias(s("preact/compat"), None));
}

#[test]
fn unmatched_request_has_no_entry() {
    let map = react_map();
    assert_eq!(map.lookup(Some("react-dom"), &vec![]), ImportMapResult::NoEntry);
}

#[test]
fn absent_request_has_no_entry() {
    let map = react_map();
    assert_eq!(map.lookup(None, &vec![]), ImportMapResult::NoEntry);
}

fn css_map() -> ImportMap {
    let mut map = ImportMap::new();
    map.by_glob.push((glob("*.css"), ImportMapping::Ignore));
    map
}

#[test]
fn css_glob_ignores() {
    let map = css_map();
    assert_eq!(ImportMap::glob_subject("styles.css"), "styles.css");
    let r = map.lookup(Some("styles.css"), &vec![true]);
    assert_eq!(r, ImportMapResult::Result(SpecialType::Ignore));
}

#[test]
fn css_glob_with_trailing_slash() {
    let map = css_map();
    assert_eq!(ImportMap::glob_subject("styles.css/"), "styles.css");
    let r = map.lookup(Some("styles.css/"), &vec![true]);
    assert_eq!(r, ImportMapResult::Result(SpecialType::Ignore));
}

#[test]
fn glob_subject_strips_one_slash_only() {
    assert_eq!(ImportMap::glob_subject("foo/"), "foo");
    assert_eq!(ImportMap::glob_subject("foo"), "foo");
    assert_eq!(ImportMap::glob_subject("foo//"), "foo/");
    assert_eq!(ImportMap::glob_subject(""), "");
}

#[test]
fn direct_sees_request_unnormalized() {
    let mut map = ImportMap::new();
    map.direct.insert(AliasPattern::Exact(s("foo")), ImportMapping::Empty);
    assert_eq!(
        map.lookup(Some("foo"), &vec![]),
        ImportMapResult::Result(SpecialType::Empty)
    );
    assert_eq!(map.lookup(Some("foo/"), &vec![]), ImportMapResult::NoEntry);
}

#[test]
fn direct_wins_over_glob() {
    let mut map = react_map();
    map.by_glob.push((glob("react"), ImportMapping::Ignore));
    let r = map.lookup(Some("react"), &vec![true]);
    assert_eq!(r, ImportMapResult::Alias(s("preact/compat"), None));
}

#[test]
fn first_glob_wins() {
    let mut map = ImportMap::new();
    map.by_glob.push((glob("*.js"), ImportMapping::Empty));
    map.by_glob.push((glob("*.js"), ImportMapping::Ignore));
    let r = map.lookup(Some("a.js"), &vec![true, true]);
    assert_eq!(r, ImportMapResult::Result(SpecialType::Empty));
    let r = map.lookup(Some("a.js"), &vec![false, true]);
    assert_eq!(r, ImportMapResult::Result(SpecialType::Ignore));
    let r = map.lookup(Some("a.js"), &vec![false, false]);
    assert_eq!(r, ImportMapResult::NoEntry);
}

#[test]
fn wildcard_alias_substitutes_capture() {
    let mut map = ImportMap::new();
    map.direct.insert(
        AliasPattern::Wildcard { prefix: s("@app/"), suffix: s("") },
        ImportMapping::PrimaryAlternative(s("./src/*"), None),
    );
    let r = map.lookup(Some("@app/utils/x"), &vec![]);
    assert_eq!(r, ImportMapResult::Alias(s("./src/utils/x"), None));
}

#[test]
fn wildcard_alias_with_suffix() {
    let mut table = AliasMap::new();
    table.insert(
        AliasPattern::Wildcard { prefix: s("lib-"), suffix: s(".js") },
        ImportMapping::External(Some(s("ext-*"))),
    );
    assert_eq!(
        table.lookup("lib-core.js"),
        Some(ImportMapping::External(Some(s("ext-core"))))
    );
    assert_eq!(table.lookup("lib-core.css"), None);
    assert_eq!(table.lookup("lib.js"), None);
}

#[test]
fn alias_table_first_entry_wins() {
    let mut table = AliasMap::new();
    table.insert(AliasPattern::Exact(s("a")), ImportMapping::Ignore);
    table.insert(AliasPattern::Exact(s("a")), ImportMapping::Empty);
    assert_eq!(table.lookup("a"), Some(ImportMapping::Ignore));
}

#[test]
fn interpret_alternatives_keeps_order() {
    let m = ImportMapping::Alternatives(vec![ImportMapping::Ignore, ImportMapping::External(None)]);
    assert_eq!(
        import_mapping_to_result(&m),
        ImportMapResult::Alternatives(vec![
            ImportMapResult::Result(SpecialType::Ignore),
            ImportMapResult::Result(SpecialType::OriginalReferenceExternal),
        ])
    );
}

#[test]
fn interpret_each_variant() {
    assert_eq!(
        import_mapping_to_result(&ImportMapping::External(Some(s("node:fs")))),
        ImportMapResult::Result(SpecialType::OriginalReferenceTypeExternal(s("node:fs")))
    );
    assert_eq!(
        import_mapping_to_result(&ImportMapping::Empty),
        ImportMapResult::Result(SpecialType::Empty)
    );
    assert_eq!(
        import_mapping_to_result(&ImportMapping::PrimaryAlternative(s("x"), Some(path(1, "root")))),
        ImportMapResult::Alias(s("x"), Some(path(1, "root")))
    );
}

fn resolved_map() -> ResolvedMap {
    let mut map = ResolvedMap::new();
    map.by_glob.push((path(1, "app/src"), glob("**/*.svg"), ImportMapping::Empty));
    map.by_glob.push((path(1, "app"), glob("**/*.svg"), ImportMapping::Ignore));
    map
}

#[test]
fn resolved_map_subjects_are_relative() {
    let map = resolved_map();
    let subjects = map.glob_subjects(&path(1, "app/lib/icon.svg"));
    assert_eq!(subjects, vec![None, Some(s("lib/icon.svg"))]);
    let subjects = map.glob_subjects(&path(1, "app/src/icon.svg"));
    assert_eq!(subjects, vec![Some(s("icon.svg")), Some(s("src/icon.svg"))]);
}

#[test]
fn resolved_map_skips_foreign_root() {
    let map = resolved_map();
    let r = map.lookup(&path(1, "app/lib/icon.svg"), &vec![true, true]);
    assert_eq!(r, ImportMapResult::Result(SpecialType::Ignore));
    let r = map.lookup(&path(1, "app/src/icon.svg"), &vec![true, true]);
    assert_eq!(r, ImportMapResult::Result(SpecialType::Empty));
}

#[test]
fn resolved_map_no_match() {
    let map = resolved_map();
    let r = map.lookup(&path(2, "app/src/icon.svg"), &vec![true, true]);
    assert_eq!(r, ImportMapResult::NoEntry);
    let r = map.lookup(&path(1, "app/src/icon.svg"), &vec![false, false]);
    assert_eq!(r, ImportMapResult::NoEntry);
}

#[test]
fn path_to_requires_segment_boundary() {
    let root = path(1, "app");
    assert_eq!(root.get_path_to(&path(1, "application/x")), None);
    assert_eq!(root.get_path_to(&path(1, "app")), Some(s("")));
    assert_eq!(root.get_path_to(&path(1, "app/x/y")), Some(s("x/y")));
    assert_eq!(root.get_path_to(&path(2, "app/x")), None);
    assert_eq!(path(1, "").get_path_to(&path(1, "a/b")), Some(s("a/b")));
}
