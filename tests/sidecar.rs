use photosort::sidecar::{find_sidecars, get_sidecar_filename, is_sidecar, rename_sidecar_for_media};

#[test]
fn test_is_sidecar() {
    assert!(is_sidecar("photo.xmp"));
    assert!(is_sidecar("photo.photo-edit"));
    assert!(is_sidecar("PHOTO.XMP"));
    assert!(!is_sidecar("photo.jpg"));
    assert!(!is_sidecar("photo.mp4"));
}

#[test]
fn test_get_sidecar_filename() {
    assert_eq!(get_sidecar_filename("photo.jpg", "xmp"), Some("photo.xmp".to_string()));
    assert_eq!(
        get_sidecar_filename("IMG_0001.HEIC", "photo-edit"),
        Some("IMG_0001.photo-edit".to_string())
    );
}

#[test]
fn test_rename_sidecar_for_media() {
    assert_eq!(
        rename_sidecar_for_media("IMG_001.xmp", "vacation.jpg"),
        Some("vacation.xmp".to_string())
    );
    assert_eq!(
        rename_sidecar_for_media("old_name.photo-edit", "new_name.heic"),
        Some("new_name.photo-edit".to_string())
    );
}

#[test]
fn rename_without_extension_gives_none() {
    assert_eq!(rename_sidecar_for_media("README", "vacation.jpg"), None);
    assert_eq!(get_sidecar_filename("", "xmp"), None);
}

#[test]
fn find_sidecars_keeps_table_order() {
    let entries = vec![
        "IMG_1.aae".to_string(),
        "IMG_1.jpg".to_string(),
        "IMG_1.xmp".to_string(),
        "IMG_2.xmp".to_string(),
    ];
    assert_eq!(
        find_sidecars("trip/IMG_1.jpg", &entries),
        vec!["trip/IMG_1.xmp".to_string(), "trip/IMG_1.aae".to_string()]
    );
    assert_eq!(find_sidecars("IMG_3.jpg", &entries), Vec::<String>::new());
}
