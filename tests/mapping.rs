use resolve_options::{
    resolve_modules_options, ConditionValue, FileSystemPath, ImportMapping, LockedVersions,
    ResolveIntoPackage, ResolveModules, ResolveOptions,
};

fn s(x: &str) -> String {
    x.to_string()
}

#[test]
fn condition_from_bool() {
    assert_eq!(ConditionValue::from(true), ConditionValue::IsSet);
    assert_eq!(ConditionValue::from(false), ConditionValue::Unset);
    assert_ne!(ConditionValue::from(true), ConditionValue::Unknown);
    assert_ne!(ConditionValue::from(false), ConditionValue::Unknown);
}

#[test]
fn replace_keeps_strings_without_payload() {
    assert_eq!(ImportMapping::Ignore.replace("x"), ImportMapping::Ignore);
    assert_eq!(ImportMapping::Empty.replace("x"), ImportMapping::Empty);
    assert_eq!(ImportMapping::External(None).replace("x"), ImportMapping::External(None));
}

#[test]
fn replace_substitutes_every_star() {
    let m = ImportMapping::External(Some(s("a*b*")));
    assert_eq!(m.replace("X"), ImportMapping::External(Some(s("aXbX"))));
    let root = FileSystemPath { fs: 3, path: s("r") };
    let m = ImportMapping::PrimaryAlternative(s("./*.js"), Some(root.clone()));
    assert_eq!(
        m.replace("dir/f"),
        ImportMapping::PrimaryAlternative(s("./dir/f.js"), Some(root))
    );
}

#[test]
fn replace_nested_alternatives_keeps_shape() {
    let m = ImportMapping::Alternatives(vec![
        ImportMapping::PrimaryAlternative(s("*"), None),
        ImportMapping::Ignore,
        ImportMapping::Alternatives(vec![ImportMapping::External(Some(s("e/*")))]),
    ]);
    assert_eq!(
        m.replace("c"),
        ImportMapping::Alternatives(vec![
            ImportMapping::PrimaryAlternative(s("c"), None),
            ImportMapping::Ignore,
            ImportMapping::Alternatives(vec![ImportMapping::External(Some(s("e/c")))]),
        ])
    );
}

#[test]
fn primary_alternatives_by_length() {
    assert_eq!(ImportMapping::primary_alternatives(vec![], None), ImportMapping::Ignore);
    assert_eq!(
        ImportMapping::primary_alternatives(vec![s("a")], None),
        ImportMapping::PrimaryAlternative(s("a"), None)
    );
    let root = FileSystemPath { fs: 1, path: s("p") };
    assert_eq!(
        ImportMapping::primary_alternatives(vec![s("a"), s("b")], Some(root.clone())),
        ImportMapping::Alternatives(vec![
            ImportMapping::PrimaryAlternative(s("a"), Some(root.clone())),
            ImportMapping::PrimaryAlternative(s("b"), Some(root)),
        ])
    );
}

fn sample_modules() -> Vec<ResolveModules> {
    vec![
        ResolveModules::Nested(
            FileSystemPath { fs: 1, path: s("") },
            vec![s("node_modules")],
        ),
        ResolveModules::Path(FileSystemPath { fs: 1, path: s("vendor") }),
        ResolveModules::Registry(FileSystemPath { fs: 2, path: s("registry") }, LockedVersions {}),
    ]
}

#[test]
fn modules_view_keeps_sequence() {
    let options = ResolveOptions {
        extensions: vec![s(".js"), s(".ts")],
        modules: sample_modules(),
        into_package: vec![
            ResolveIntoPackage::MainField(s("main")),
            ResolveIntoPackage::Default(s("index")),
        ],
        import_map: None,
        resolved_map: None,
    };
    assert_eq!(options.modules().modules, sample_modules());
    assert_eq!(resolve_modules_options(&options).modules, sample_modules());
}

#[test]
fn modules_view_ignores_other_fields() {
    let mut conditions = std::collections::BTreeMap::new();
    conditions.insert(s("import"), ConditionValue::IsSet);
    let a = ResolveOptions {
        extensions: vec![],
        modules: sample_modules(),
        into_package: vec![],
        import_map: None,
        resolved_map: None,
    };
    let b = ResolveOptions {
        extensions: vec![s(".mjs")],
        modules: sample_modules(),
        into_package: vec![ResolveIntoPackage::ExportsField {
            field: s("exports"),
            conditions,
            unspecified_conditions: ConditionValue::Unknown,
        }],
        import_map: Some(resolve_options::ImportMap::new()),
        resolved_map: Some(resolve_options::ResolvedMap::new()),
    };
    assert_eq!(a.modules().modules, b.modules().modules);
}
