use neko::compositer::CompositerError;
use neko::library::{Callbacks, Library, LibraryError};

#[test]
fn test_error_descriptions() {
    assert_eq!(
        CompositerError::UnmountPosition.description(),
        "Can't found the position."
    );
    assert_eq!(
        CompositerError::InstallExists.description(),
        "The dynamic library as already a repository."
    );
    assert_eq!(
        CompositerError::InstallFormat.description(),
        "The git link haven't a valid format."
    );
    assert_eq!(
        CompositerError::ParseInteger.description(),
        "Can't parse a integer from the table."
    );
    assert_eq!(
        LibraryError::BadDyLib("no such file".to_string()).description(),
        "no such file"
    );
}

#[test]
fn test_error_eq_by_phase() {
    // what an error wraps is not compared, only its phase
    assert_eq!(
        CompositerError::Mount(LibraryError::BadDyLib("a".to_string())),
        CompositerError::Mount(LibraryError::BadDyLib("b".to_string()))
    );
    assert_ne!(CompositerError::RmFile, CompositerError::RmDir);
}

#[test]
fn test_library_orders_by_priority() {
    let a = Library::new("lib/a@a.so".to_string(), 1, Callbacks::none(), 1);
    let b = Library::new("lib/b@b.so".to_string(), 2, Callbacks::none(), 2);
    let c = Library::new("lib/c@c.so".to_string(), 2, Callbacks::none(), 3);
    assert!(a < b);
    assert!(b == c);
    assert!(b >= a);
}
