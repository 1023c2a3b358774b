use neko::compositer::CompositerError;
use neko::manifest::Manifest;

#[test]
fn test_manifest_priority() {
    let m = Manifest::parse("priority = -1\n").unwrap();
    assert_eq!(m.priority, Some(-1));
    assert_eq!(m.resolve_priority(None), -1);
    assert_eq!(m.resolve_priority(Some(9)), 9);
}

#[test]
fn test_manifest_priority_default() {
    let m = Manifest::parse("").unwrap();
    assert_eq!(m.priority, None);
    assert_eq!(m.resolve_priority(None), 0);
}

#[test]
fn test_manifest_priority_not_integer() {
    assert_eq!(
        Manifest::parse("priority = \"low\"\n").err(),
        Some(CompositerError::ParseInteger)
    );
}

#[test]
fn test_manifest_priority_twice() {
    assert_eq!(
        Manifest::parse("priority = 1\npriority = 2\n").err(),
        Some(CompositerError::ParseManifest)
    );
}

#[test]
fn test_manifest_garbage_line() {
    assert_eq!(
        Manifest::parse("what is this\n").err(),
        Some(CompositerError::ParseManifest)
    );
}

#[test]
fn test_manifest_dependencies() {
    let text = "# the plugin manifest\npriority = 2\n\n[dependencies.nya]\ngit = \"https://github.com/Arukana/libnya.git\"\n[dependencies.mu]\n[other]\nignored = 1\n";
    let m = Manifest::parse(text).unwrap();
    assert_eq!(m.priority, Some(2));
    assert_eq!(m.dependencies.len(), 2);
    assert_eq!(m.dependencies[0].name, "nya");
    assert_eq!(
        m.dependencies[0].git,
        Some("https://github.com/Arukana/libnya.git".to_string())
    );
    assert_eq!(m.dependencies[1].name, "mu");
    assert_eq!(m.dependencies[1].git, None);
}

#[test]
fn test_manifest_priority_inside_section_is_ignored() {
    let m = Manifest::parse("[dependencies.x]\npriority = 4\ngit = \"u.git\"\n").unwrap();
    assert_eq!(m.priority, None);
    assert_eq!(m.dependencies[0].git, Some("u.git".to_string()));
}
