use photosort::error::PhotosortError;
use photosort::push::RemoteLibrary;

#[test]
fn test_parse_local_path() {
    let result = RemoteLibrary::parse("/some/nonexistent/path", false);
    assert!(result.is_err());
}

#[test]
fn test_parse_ssh_path() {
    let result = RemoteLibrary::parse("user@host:/path/to/library", false).unwrap();
    assert!(result.is_ssh);
    assert_eq!(result.path, "user@host:/path/to/library");
}

#[test]
fn ssh_parts_and_missing_local_error() {
    let r = RemoteLibrary::parse("me@nas:/photos", false).unwrap();
    assert_eq!(r.get_ssh_host(), "me@nas");
    assert_eq!(r.get_ssh_path(), "/photos");
    match RemoteLibrary::parse("/mnt/none", false) {
        Err(PhotosortError::Library(m)) => assert_eq!(m, "Remote path does not exist: /mnt/none"),
        other => panic!("unexpected {:?}", other),
    }
    let l = RemoteLibrary::parse("/mnt/photos", true).unwrap();
    assert!(!l.is_ssh);
    assert_eq!(l.local_path, Some("/mnt/photos".to_string()));
}
