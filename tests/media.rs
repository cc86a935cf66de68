use photosort::capture::{destination_path, CaptureTime};
use photosort::media::{classify, detect_media_type, MediaType};

#[test]
fn test_detect_image_extensions() {
    assert_eq!(detect_media_type("photo.jpg"), Some(MediaType::Image));
    assert_eq!(detect_media_type("photo.HEIC"), Some(MediaType::Image));
    assert_eq!(detect_media_type("photo.cr2"), Some(MediaType::Image));
    assert_eq!(detect_media_type("photo.DNG"), Some(MediaType::Image));
}

#[test]
fn test_detect_video_extensions() {
    assert_eq!(detect_media_type("video.mp4"), Some(MediaType::Video));
    assert_eq!(detect_media_type("video.MOV"), Some(MediaType::Video));
    assert_eq!(detect_media_type("video.mkv"), Some(MediaType::Video));
}

#[test]
fn test_detect_unknown_extension() {
    assert_eq!(detect_media_type("file.xyz"), None);
}

#[test]
fn test_media_type_display() {
    assert_eq!(MediaType::Image.as_str(), "image");
    assert_eq!(MediaType::Video.as_str(), "video");
    assert_eq!(MediaType::Image.folder_name(), "images");
    assert_eq!(MediaType::Video.folder_name(), "videos");
}

#[test]
fn detect_uses_last_component_and_last_dot() {
    assert_eq!(detect_media_type("dir.mp4/photo.tar.jpeg"), Some(MediaType::Image));
    assert_eq!(detect_media_type(".jpg"), None);
    assert_eq!(detect_media_type("noext"), None);
    assert_eq!(detect_media_type("a/b/"), None);
}

#[test]
fn classify_falls_back_to_probe() {
    assert_eq!(classify("clip.bin", true), Some(MediaType::Video));
    assert_eq!(classify("clip.bin", false), None);
    assert_eq!(classify("photo.png", true), Some(MediaType::Image));
}

fn tokyo_noon() -> CaptureTime {
    CaptureTime {
        year: 2024,
        month: 5,
        day: 21,
        hour: 12,
        minute: 0,
        second: 0,
        nanosecond: 0,
        offset_minutes: 540,
    }
}

#[test]
fn destination_is_deterministic() {
    let t = tokyo_noon();
    let a = destination_path(MediaType::Image, &t, "IMG_0001.jpg");
    let b = destination_path(MediaType::Image, &t, "IMG_0001.jpg");
    assert_eq!(a, b);
    assert_eq!(a, "images/2024/05-21/IMG_0001.jpg");
    assert_eq!(destination_path(MediaType::Video, &t, "clip.mov"), "videos/2024/05-21/clip.mov");
}

#[test]
fn db_text_has_fixed_fields() {
    let t = CaptureTime {
        year: 2024,
        month: 5,
        day: 21,
        hour: 12,
        minute: 46,
        second: 20,
        nanosecond: 865_000_000,
        offset_minutes: 540,
    };
    assert_eq!(t.db_string(), "2024:05:21 12:46:20.865+09:00");
    let u = CaptureTime { nanosecond: 0, offset_minutes: -330, ..t };
    assert_eq!(u.db_string(), "2024:05:21 12:46:20.0-05:30");
    assert_eq!(u.path_date_string(), "2024/05-21");
}
