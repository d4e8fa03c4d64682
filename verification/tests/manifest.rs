use msc::specifier::PackageSpecifier;
use msc::types::{Dependencies, PackageConfig, PackageInfo};

fn pair(key: &str, version: &str) -> (String, String) {
    (key.to_string(), version.to_string())
}

/// The manifest as the text of a manifest file.
fn to_toml(manifest: &PackageConfig) -> String {
    let mut table = toml::Table::new();
    if let Some(info) = &manifest.package {
        let mut package = toml::Table::new();
        package.insert("name".to_string(), toml::Value::String(info.name.clone()));
        package.insert("version".to_string(), toml::Value::String(info.version.clone()));
        package.insert("description".to_string(), toml::Value::String(info.description.clone()));
        package.insert("author".to_string(), toml::Value::String(info.author.clone()));
        table.insert("package".to_string(), toml::Value::Table(package));
    }
    let mut dependencies = toml::Table::new();
    for (key, version) in manifest.dependencies.to_pairs() {
        dependencies.insert(key, toml::Value::String(version));
    }
    table.insert("dependencies".to_string(), toml::Value::Table(dependencies));
    toml::to_string(&table).unwrap()
}

/// The manifest that the text of a manifest file holds.
fn from_toml(text: &str) -> PackageConfig {
    let table: toml::Table = text.parse().unwrap();
    let field = |package: &toml::Table, name: &str| package[name].as_str().unwrap().to_string();
    let package = table.get("package").map(|value| {
        let package = value.as_table().unwrap();
        PackageInfo {
            name: field(package, "name"),
            version: field(package, "version"),
            description: field(package, "description"),
            author: field(package, "author"),
        }
    });
    let pairs: Vec<(String, String)> = table["dependencies"]
        .as_table()
        .unwrap()
        .iter()
        .map(|(key, version)| (key.clone(), version.as_str().unwrap().to_string()))
        .collect();
    PackageConfig { package, dependencies: Dependencies::from_pairs(&pairs) }
}

fn sorted(mut pairs: Vec<(String, String)>) -> Vec<(String, String)> {
    pairs.sort();
    pairs
}

#[test]
fn manifest_survives_the_file_format() {
    let info = PackageInfo {
        name: "demo".to_string(),
        version: "0.1.0".to_string(),
        description: "A \"quoted\" package".to_string(),
        author: "someone".to_string(),
    };
    let mut manifest = PackageConfig { package: Some(info.clone()), dependencies: Dependencies::new() };
    manifest.dependencies.insert("p/q".to_string(), "2.0.0".to_string());
    manifest.dependencies.insert("x/y".to_string(), "1.0.0".to_string());
    let text = to_toml(&manifest);
    assert!(text.contains("\"p/q\" = \"2.0.0\""));
    let read = from_toml(&text);
    assert_eq!(read.package, Some(info));
    assert_eq!(sorted(read.dependencies.to_pairs()), sorted(manifest.dependencies.to_pairs()));

    let empty = from_toml(&to_toml(&PackageConfig::empty()));
    assert!(empty.package.is_none());
    assert!(empty.dependencies.is_empty());
}

#[test]
fn scaffolded_manifest_can_take_a_dependency() {
    let text = "[package]\nname = \"demo\"\nversion = \"0.1.0\"\ndescription = \"d\"\nauthor = \"a\"\n\n[dependencies]\n# Format: \"username/package-name\" = \"version\"\n";
    let manifest = from_toml(text);
    assert!(manifest.dependencies.is_empty());
    let spec = PackageSpecifier::parse("x/y").unwrap();
    let read = from_toml(&to_toml(&manifest.merge(&spec, "1.0.0")));
    assert_eq!(read.dependencies.to_pairs(), vec![pair("x/y", "1.0.0")]);
    assert_eq!(read.package.unwrap().name, "demo");
}

#[test]
fn new_dependencies_are_empty() {
    let deps = Dependencies::new();
    assert!(deps.is_empty());
    assert_eq!(deps.len(), 0);
    assert_eq!(deps.get("a/b"), None);
    assert!(!deps.contains_key("a/b"));
    assert!(deps.keys().is_empty());
}

#[test]
fn insert_records_version() {
    let mut deps = Dependencies::new();
    deps.insert("a/b".to_string(), "1.0.0".to_string());
    assert_eq!(deps.len(), 1);
    assert!(!deps.is_empty());
    assert_eq!(deps.get("a/b"), Some("1.0.0"));
    assert!(deps.contains_key("a/b"));
    assert_eq!(deps.get("a/c"), None);
}

#[test]
fn insert_overwrites_in_place() {
    let mut deps = Dependencies::new();
    deps.insert("a/b".to_string(), "1.0.0".to_string());
    deps.insert("c/d".to_string(), "2.0.0".to_string());
    deps.insert("a/b".to_string(), "3.0.0".to_string());
    assert_eq!(deps.len(), 2);
    assert_eq!(deps.get("a/b"), Some("3.0.0"));
    assert_eq!(deps.get("c/d"), Some("2.0.0"));
    assert_eq!(deps.keys(), vec!["a/b".to_string(), "c/d".to_string()]);
}

#[test]
fn pairs_round_trip() {
    let deps = Dependencies::from_pairs(&vec![
        pair("a/b", "1"),
        pair("c/d", "2"),
        pair("a/b", "3"),
    ]);
    assert_eq!(deps.to_pairs(), vec![pair("a/b", "3"), pair("c/d", "2")]);
    let again = Dependencies::from_pairs(&deps.to_pairs());
    assert_eq!(again.to_pairs(), deps.to_pairs());
    assert_eq!(deps.clone().to_pairs(), deps.to_pairs());
}

#[test]
fn merge_keeps_other_keys() {
    let mut manifest = PackageConfig::empty();
    manifest.dependencies.insert("p/q".to_string(), "2.0.0".to_string());
    let spec = PackageSpecifier::parse("x/y").unwrap();
    let merged = manifest.merge(&spec, "1.0.0");
    assert_eq!(merged.dependencies.len(), 2);
    assert_eq!(merged.dependencies.get("p/q"), Some("2.0.0"));
    assert_eq!(merged.dependencies.get("x/y"), Some("1.0.0"));
    assert!(merged.package.is_none());
}

#[test]
fn merge_overwrites_same_key() {
    let mut manifest = PackageConfig::empty();
    manifest.dependencies.insert("x/y".to_string(), "0.5.0".to_string());
    manifest.dependencies.insert("p/q".to_string(), "2.0.0".to_string());
    let spec = PackageSpecifier::parse("@x/y").unwrap();
    let merged = manifest.merge(&spec, "1.0.0");
    assert_eq!(merged.dependencies.len(), 2);
    assert_eq!(merged.dependencies.get("x/y"), Some("1.0.0"));
    assert_eq!(merged.dependencies.get("p/q"), Some("2.0.0"));
}

#[test]
fn merge_keeps_package_metadata() {
    let info = PackageInfo {
        name: "demo".to_string(),
        version: "0.1.0".to_string(),
        description: "A Roblox package".to_string(),
        author: "someone".to_string(),
    };
    let manifest = PackageConfig { package: Some(info.clone()), dependencies: Dependencies::new() };
    let spec = PackageSpecifier::parse("x/y").unwrap();
    let merged = manifest.merge(&spec, "1.0.0");
    assert_eq!(merged.package, Some(info));
    assert_eq!(merged.dependencies.to_pairs(), vec![pair("x/y", "1.0.0")]);
}

#[test]
fn merge_twice_is_merge_once() {
    let spec = PackageSpecifier::parse("x/y").unwrap();
    let once = PackageConfig::empty().merge(&spec, "1.0.0");
    let twice = once.clone().merge(&spec, "1.0.0");
    assert_eq!(once.dependencies.to_pairs(), twice.dependencies.to_pairs());
}

#[test]
fn empty_manifest_has_nothing() {
    let manifest = PackageConfig::empty();
    assert!(manifest.package.is_none());
    assert!(manifest.dependencies.is_empty());
}

#[test]
fn keys_stand_where_they_first_occurred() {
    let deps = Dependencies::from_pairs(&vec![
        pair("c/d", "1"),
        pair("a/b", "2"),
        pair("c/d", "3"),
        pair("e/f", "4"),
    ]);
    assert_eq!(deps.keys(), vec!["c/d".to_string(), "a/b".to_string(), "e/f".to_string()]);
    assert_eq!(deps.len(), 3);
    assert!(Dependencies::from_pairs(&Vec::new()).keys().is_empty());
}

#[test]
fn merge_appends_a_new_key_and_keeps_the_place_of_an_old_one() {
    let mut manifest = PackageConfig::empty();
    assert!(manifest.dependencies.keys().is_empty());
    manifest.dependencies.insert("p/q".to_string(), "2.0.0".to_string());
    manifest.dependencies.insert("r/s".to_string(), "2.0.0".to_string());
    let new = PackageSpecifier::parse("x/y").unwrap();
    let old = PackageSpecifier::parse("p/q").unwrap();
    let merged = manifest.merge(&new, "1.0.0");
    assert_eq!(
        merged.dependencies.keys(),
        vec!["p/q".to_string(), "r/s".to_string(), "x/y".to_string()]
    );
    let merged = merged.merge(&old, "1.0.0");
    assert_eq!(
        merged.dependencies.keys(),
        vec!["p/q".to_string(), "r/s".to_string(), "x/y".to_string()]
    );
    assert_eq!(merged.dependencies.get("p/q"), Some("1.0.0"));
}
