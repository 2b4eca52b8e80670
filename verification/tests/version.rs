use conmonrs::version::{
    Version, BUILD_CARGO_TREE, BUILD_CARGO_VERSION, BUILD_COMMIT, BUILD_RUST_VERSION, BUILD_TAG,
    BUILD_TARGET, BUILD_TIME, CRATE_VERSION,
};

#[test]
fn version_test() {
    let v = Version::new(false);
    assert_eq!(v.version(), CRATE_VERSION);
    assert_eq!(v.tag(), BUILD_TAG);
    assert_eq!(v.commit(), BUILD_COMMIT);
    assert_eq!(v.build_date(), BUILD_TIME);
    assert_eq!(v.target(), BUILD_TARGET);
    assert_eq!(v.rust_version(), BUILD_RUST_VERSION);
    assert_eq!(v.cargo_version(), BUILD_CARGO_VERSION);
    assert!(v.cargo_tree().is_empty());

    let text = v.text();
    assert!(text.starts_with("version: "));
}

#[test]
fn version_test_verbose() {
    let v = Version::new(true);
    assert_eq!(v.cargo_tree(), BUILD_CARGO_TREE);
}

#[test]
fn version_test_json() {
    let v = Version::new(false);
    assert_eq!(v.version(), CRATE_VERSION);
    assert_eq!(v.tag(), BUILD_TAG);
    assert_eq!(v.commit(), BUILD_COMMIT);
    assert_eq!(v.build_date(), BUILD_TIME);
    assert_eq!(v.target(), BUILD_TARGET);
    assert_eq!(v.rust_version(), BUILD_RUST_VERSION);
    assert_eq!(v.cargo_version(), BUILD_CARGO_VERSION);
    assert!(v.cargo_tree().is_empty());

    // The JSON object of the whole version, field by field, as it is printed.
    let mut object = serde_json::Map::new();
    object.insert("verbose".to_string(), serde_json::Value::Bool(v.verbose()));
    let fields = [
        ("version", v.version()),
        ("tag", v.tag()),
        ("commit", v.commit()),
        ("build_date", v.build_date()),
        ("target", v.target()),
        ("rust_version", v.rust_version()),
        ("cargo_version", v.cargo_version()),
        ("cargo_tree", v.cargo_tree()),
    ];
    for (name, value) in fields {
        object.insert(name.to_string(), serde_json::Value::String(value.to_string()));
    }
    let encoded = serde_json::to_string(&serde_json::Value::Object(object)).unwrap();
    let decoded: serde_json::Value = serde_json::from_str(&encoded).unwrap();
    assert_eq!(decoded["verbose"], serde_json::Value::Bool(false));
    assert_eq!(decoded["version"], serde_json::Value::String(CRATE_VERSION.to_string()));
    assert_eq!(decoded["tag"], serde_json::Value::String(BUILD_TAG.to_string()));
    assert_eq!(decoded["commit"], serde_json::Value::String(BUILD_COMMIT.to_string()));
    assert_eq!(decoded["build_date"], serde_json::Value::String(BUILD_TIME.to_string()));
    assert_eq!(decoded["target"], serde_json::Value::String(BUILD_TARGET.to_string()));
    assert_eq!(decoded["rust_version"], serde_json::Value::String(BUILD_RUST_VERSION.to_string()));
    assert_eq!(decoded["cargo_version"], serde_json::Value::String(BUILD_CARGO_VERSION.to_string()));
    assert_eq!(decoded["cargo_tree"], serde_json::Value::String(String::new()));
}

#[test]
fn version_crate_version_is_package_version() {
    assert_eq!(Version::new(false).version(), "0.1.0");
    assert!(!Version::new(false).verbose());
    assert!(Version::new(true).verbose());
}

#[test]
fn version_text_without_tag_says_none() {
    let text = Version::new(false).text();
    assert_eq!(
        text,
        format!(
            "version: {}\ntag: none\ncommit: {}\nbuild: {}\ntarget: {}\n{}\n{}\n",
            CRATE_VERSION, BUILD_COMMIT, BUILD_TIME, BUILD_TARGET, BUILD_RUST_VERSION, BUILD_CARGO_VERSION
        )
    );
}

#[test]
fn version_text_verbose_ends_with_tree() {
    let text = Version::new(true).text();
    assert!(text.ends_with(&format!("\ncargo tree: {}\n", BUILD_CARGO_TREE)));
}
