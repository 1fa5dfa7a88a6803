use lock_pin::locked::{locked_versions_from_records, LockRecord, LockedVersionMap};
use lock_pin::pin::{get_locked_versions, pin_manifest, LockError, ManifestError};
use lock_pin::plan::{plan_entry, Action, DependencyEntry, EntryShape};

fn lock_of(pairs: &[(&str, &str)]) -> String {
    let mut s = String::from("version = 3\n");
    for (n, v) in pairs {
        s.push_str(&format!("\n[[package]]\nname = \"{}\"\nversion = \"{}\"\n", n, v));
    }
    s
}

fn map_of(pairs: &[(&str, &str)]) -> LockedVersionMap {
    match get_locked_versions(&lock_of(pairs)) {
        Ok(m) => m,
        Err(_) => panic!("lockfile did not read"),
    }
}

fn get(m: &LockedVersionMap, name: &str) -> Option<String> {
    m.get(&name.to_string())
}

#[test]
fn unique_names_each_found() {
    let m = map_of(&[("a", "1.0.0"), ("b", "2.1.0"), ("c", "0.3.4")]);
    assert_eq!(m.len(), 3);
    assert_eq!(get(&m, "a").as_deref(), Some("1.0.0"));
    assert_eq!(get(&m, "b").as_deref(), Some("2.1.0"));
    assert_eq!(get(&m, "c").as_deref(), Some("0.3.4"));
    assert_eq!(get(&m, "d"), None);
}

#[test]
fn later_duplicate_wins() {
    let m = map_of(&[("dup", "1.0.0"), ("other", "5.0.0"), ("dup", "2.0.0")]);
    assert_eq!(m.len(), 2);
    assert_eq!(get(&m, "dup").as_deref(), Some("2.0.0"));
}

#[test]
fn records_build_map_in_order() {
    let records = vec![
        LockRecord { name: "x".to_string(), version: "0.1.0".to_string() },
        LockRecord { name: "x".to_string(), version: "0.2.0".to_string() },
    ];
    let m = locked_versions_from_records(&records);
    assert_eq!(m.len(), 1);
    assert_eq!(get(&m, "x").as_deref(), Some("0.2.0"));
}

#[test]
fn lock_without_packages_is_an_error() {
    assert!(matches!(get_locked_versions(&lock_of(&[])), Err(LockError::NoPackageArray)));
}

#[test]
fn no_records_give_empty_map() {
    let m = locked_versions_from_records(&Vec::new());
    assert_eq!(m.len(), 0);
    let e = LockedVersionMap::new();
    assert_eq!(e.len(), 0);
}

#[test]
fn insert_replaces_version() {
    let mut m = LockedVersionMap::new();
    m.insert("a".to_string(), "1.0.0".to_string());
    m.insert("a".to_string(), "1.1.0".to_string());
    assert_eq!(m.len(), 1);
    assert_eq!(get(&m, "a").as_deref(), Some("1.1.0"));
}

#[test]
fn lock_errors() {
    assert!(matches!(get_locked_versions("not = = toml"), Err(LockError::Parse(_))));
    assert!(matches!(get_locked_versions("version = 3\n"), Err(LockError::NoPackageArray)));
    assert!(matches!(get_locked_versions("package = 1\n"), Err(LockError::NoPackageArray)));
    assert!(matches!(
        get_locked_versions("[[package]]\nname = \"a\"\nversion = \"1\"\n\n[[package]]\nversion = \"1\"\n"),
        Err(LockError::MissingName(1))
    ));
    assert!(matches!(
        get_locked_versions("[[package]]\nname = \"a\"\n"),
        Err(LockError::MissingVersion(0))
    ));
    assert!(matches!(
        get_locked_versions("[[package]]\nname = \"a\"\nversion = 1\n"),
        Err(LockError::MissingVersion(0))
    ));
}

fn pin(manifest: &str, m: &LockedVersionMap) -> lock_pin::pin::PinnedManifest {
    match pin_manifest(manifest, m) {
        Ok(p) => p,
        Err(_) => panic!("manifest did not pin"),
    }
}

#[test]
fn detailed_entry_rewritten() {
    let m = map_of(&[("foo", "1.4.2")]);
    let p = pin("[workspace.dependencies]\nfoo = { version = \"^1.0\" }\n", &m);
    assert_eq!(p.text, "[workspace.dependencies]\nfoo = { version = \"1.4.2\" }\n");
    assert_eq!(p.actions.len(), 1);
    assert!(matches!(&p.actions[0], Action::Rewrite { name, version, detailed: true } if name == "foo" && version == "1.4.2"));
}

#[test]
fn detailed_entry_keeps_other_fields() {
    let m = map_of(&[("foo", "1.4.2")]);
    let p = pin("[workspace.dependencies]\nfoo = {  version = \"^1.0\" , default-features = false }\n", &m);
    assert_eq!(p.text, "[workspace.dependencies]\nfoo = {  version = \"1.4.2\" , default-features = false }\n");
    let p = pin("[workspace.dependencies]\nfoo = { features = [\"x\"] }\n", &m);
    assert!(p.text.contains("version = \"1.4.2\""));
    assert!(p.text.contains("features = [\"x\"]"));
    let p = pin("[workspace.dependencies]\nfoo = { version = \"^1.0\", features = [\"x\"] }\n", &m);
    assert_eq!(p.text, "[workspace.dependencies]\nfoo = { version = \"1.4.2\", features = [\"x\"] }\n");
}

#[test]
fn alias_uses_package_name() {
    let m = map_of(&[("bar", "2.0.0")]);
    let p = pin("[workspace.dependencies]\nfoo = { version = \"^1.0\", package = \"bar\" }\n", &m);
    assert_eq!(p.text, "[workspace.dependencies]\nfoo = { version = \"2.0.0\", package = \"bar\" }\n");
    assert!(matches!(&p.actions[0], Action::Rewrite { name, .. } if name == "bar"));
}

#[test]
fn missing_from_lock_skipped() {
    let m = map_of(&[("other", "1.0.0")]);
    let src = "[workspace.dependencies]\nbaz = \"^1.0\"\n";
    let p = pin(src, &m);
    assert_eq!(p.text, src);
    assert!(matches!(&p.actions[0], Action::SkipNotLocked { name } if name == "baz"));
    assert!(p.actions[0].is_skip());
    assert_eq!(p.actions[0].message(), "baz: SKIP - not defined in .lock");
}

#[test]
fn path_or_git_skipped() {
    let m = map_of(&[("local", "0.5.0"), ("remote", "0.6.0")]);
    let src = "[workspace.dependencies]\nlocal = { version = \"^1.0\", path = \"../local\" }\nremote = { git = \"https://example.org/r\" }\n";
    let p = pin(src, &m);
    assert_eq!(p.text, src);
    assert!(matches!(&p.actions[0], Action::SkipPathOrGit { name } if name == "local"));
    assert!(matches!(&p.actions[1], Action::SkipPathOrGit { name } if name == "remote"));
    assert_eq!(p.actions[0].message(), "local: SKIP - path or git key are defined");
}

#[test]
fn simple_entry_rewritten() {
    let m = map_of(&[("qux", "3.3.3")]);
    let p = pin("[workspace.dependencies]\nqux = \"^1.0\"\n", &m);
    assert_eq!(p.text, "[workspace.dependencies]\nqux = \"3.3.3\"\n");
    assert!(matches!(&p.actions[0], Action::Rewrite { detailed: false, .. }));
    assert!(!p.actions[0].is_skip());
    assert_eq!(p.actions[0].message(), "qux: -> 3.3.3");
}

#[test]
fn comments_and_layout_kept() {
    let m = map_of(&[("a", "1.0.0")]);
    let src = "# top comment\n[package]\nname   =  \"ws\"  # trailing\n\n[workspace.dependencies]\n# before a\na = \"^1\"   # after a\nb = { path = \"../b\" }  # b stays\n";
    let p = pin(src, &m);
    assert!(p.text.starts_with("# top comment\n[package]\nname   =  \"ws\"  # trailing\n\n[workspace.dependencies]\n# before a\n"));
    assert!(p.text.contains("b = { path = \"../b\" }  # b stays\n"));
    assert!(p.text.contains("a = \"1.0.0\"   # after a\n"));
    assert!(!p.text.contains("^1"));
    assert_eq!(p.text, src.replace("\"^1\"", "\"1.0.0\""));
}

#[test]
fn end_to_end_scenario() {
    let m = map_of(&[("a", "1.0.0"), ("b", "2.1.0")]);
    let src = "[workspace.dependencies]\na = \"^1\"\nb = { version = \"^2\", path = \"../b\" }\nc = \"^1\"\n";
    let p = pin(src, &m);
    assert_eq!(p.text, "[workspace.dependencies]\na = \"1.0.0\"\nb = { version = \"^2\", path = \"../b\" }\nc = \"^1\"\n");
    assert_eq!(p.actions.len(), 3);
    assert!(matches!(&p.actions[0], Action::Rewrite { name, version, .. } if name == "a" && version == "1.0.0"));
    assert!(matches!(&p.actions[1], Action::SkipPathOrGit { name } if name == "b"));
    assert!(matches!(&p.actions[2], Action::SkipNotLocked { name } if name == "c"));
    assert_eq!(p.actions.iter().filter(|a| a.is_skip()).count(), 2);
}

#[test]
fn standard_table_entry_rewritten() {
    let m = map_of(&[("foo", "1.4.2")]);
    let p = pin("[workspace.dependencies.foo]\nversion = \"^1.0\"  # pinned below\nfeatures = [\"x\"]\n", &m);
    assert_eq!(p.text, "[workspace.dependencies.foo]\nversion = \"1.4.2\"  # pinned below\nfeatures = [\"x\"]\n");
    assert!(matches!(&p.actions[0], Action::Rewrite { detailed: true, .. }));
}

#[test]
fn manifest_errors() {
    let m = map_of(&[("a", "1.0.0")]);
    assert!(matches!(pin_manifest("= broken", &m), Err(ManifestError::Parse(_))));
    assert!(matches!(pin_manifest("[package]\nname = \"x\"\n", &m), Err(ManifestError::NoWorkspace)));
    assert!(matches!(pin_manifest("[workspace]\nmembers = []\n", &m), Err(ManifestError::NoDependencies)));
    assert!(matches!(pin_manifest("[workspace]\ndependencies = 3\n", &m), Err(ManifestError::DependenciesNotTable)));
    assert!(matches!(
        pin_manifest("[workspace.dependencies]\nfoo = { package = 7 }\n", &m),
        Err(ManifestError::PackageNotString(k)) if k == "foo"
    ));
}

#[test]
fn plan_entry_decisions() {
    let m = map_of(&[("foo", "1.4.2"), ("bar", "2.0.0")]);
    let simple = DependencyEntry { key: "foo".to_string(), shape: EntryShape::Simple };
    assert!(matches!(plan_entry(&simple, &m), Action::Rewrite { name, version, detailed: false } if name == "foo" && version == "1.4.2"));
    let alias = DependencyEntry {
        key: "foo".to_string(),
        shape: EntryShape::Detailed { package: Some("bar".to_string()), has_path: false, has_git: false },
    };
    assert!(matches!(plan_entry(&alias, &m), Action::Rewrite { name, version, detailed: true } if name == "bar" && version == "2.0.0"));
    let git = DependencyEntry {
        key: "foo".to_string(),
        shape: EntryShape::Detailed { package: None, has_path: false, has_git: true },
    };
    assert!(matches!(plan_entry(&git, &m), Action::SkipPathOrGit { name } if name == "foo"));
    let missing = DependencyEntry {
        key: "zzz".to_string(),
        shape: EntryShape::Detailed { package: None, has_path: true, has_git: false },
    };
    assert!(matches!(plan_entry(&missing, &m), Action::SkipNotLocked { name } if name == "zzz"));
}
