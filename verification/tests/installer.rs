use neko::compositer::CompositerError;
use neko::identifier::{artifact_name, file_stem, join_path, repo_part};
use neko::installer::{dependency_plan, install_plan, DepAction};

#[test]
fn test_install_plan_names() {
    assert_eq!(
        install_plan("https://github.com/Arukana/libnya.git", false).ok(),
        Some("arukana@libnya".to_string())
    );
    assert_eq!(
        install_plan("nonsense", false).err(),
        Some(CompositerError::InstallFormat)
    );
}

#[test]
fn test_install_twice_exists() {
    let url = "https://github.com/Arukana/libnya.git";
    let id = install_plan(url, false).unwrap();
    // the clone created `git/<id>`; the same URL now finds it there
    assert_eq!(id, "arukana@libnya");
    assert_eq!(
        install_plan(url, true).err(),
        Some(CompositerError::InstallExists)
    );
}

#[test]
fn test_dependency_plan() {
    let url = "git@github.com:Arukana/libnya.git";
    assert_eq!(
        dependency_plan(url, false).ok(),
        Some(("arukana@libnya".to_string(), DepAction::Install))
    );
    assert_eq!(
        dependency_plan(url, true).ok(),
        Some(("arukana@libnya".to_string(), DepAction::Update))
    );
    assert_eq!(
        dependency_plan("x", false).err(),
        Some(CompositerError::InstallFormat)
    );
}

#[test]
fn test_paths_and_stems() {
    assert_eq!(repo_part("arukana@libnya"), "libnya");
    assert_eq!(repo_part("plainname"), "plainname");
    assert_eq!(artifact_name("arukana@libnya"), "arukana@libnya.so");
    assert_eq!(
        join_path("/home/u/.neko/git", "arukana@libnya"),
        "/home/u/.neko/git/arukana@libnya"
    );
    assert_eq!(file_stem("/home/u/.neko/lib/arukana@libnya.so"), "arukana@libnya");
    assert_eq!(file_stem("arukana@libnya.so"), "arukana@libnya");
    assert_eq!(file_stem(".hidden"), ".hidden");
    assert_eq!(file_stem("dir/archive.tar.gz"), "archive.tar");
}
