use photosort::capture::CaptureTime;
use photosort::commit::commit_import;
use photosort::database::{Database, ExifMetadata};
use photosort::import::{Dedup, ImportCandidate, SidecarCandidate};
use photosort::media::MediaType;
use photosort::plan::plan_copies;
use photosort::scan::{
    find_missing_files, find_modified_sidecars, find_new_files, find_orphaned_sidecars, MissingFile,
    ScanResult,
};
use photosort::search::{search, SearchQuery};

#[test]
fn test_scan_result_is_clean() {
    let result = ScanResult::new();
    assert!(result.is_clean());

    let mut result_with_missing = ScanResult::new();
    result_with_missing.missing_files = vec![MissingFile {
        id: 1,
        filename: "test.jpg".to_string(),
        relpath: "images/2024/01-01".to_string(),
        media_type: "image".to_string(),
        expected_path: "/test/images/2024/01-01/test.jpg".to_string(),
    }];
    assert!(!result_with_missing.is_clean());
}

fn day(d: u8) -> CaptureTime {
    CaptureTime {
        year: 2024,
        month: 1,
        day: d,
        hour: 9,
        minute: 0,
        second: 0,
        nanosecond: 0,
        offset_minutes: 0,
    }
}

fn candidate(name: &str, hash: &str, size: u64, d: u8, sidecars: Vec<SidecarCandidate>) -> ImportCandidate {
    ImportCandidate {
        source_path: format!("/src/{}", name),
        hash: hash.to_string(),
        media_type: MediaType::Image,
        file_size: size,
        created_at: day(d),
        filename: name.to_string(),
        filetype: "JPG".to_string(),
        sidecars,
        exif: ExifMetadata::empty(),
    }
}

fn xmp(name: &str, hash: &str) -> SidecarCandidate {
    SidecarCandidate {
        source_path: format!("/src/{}", name),
        filename: name.to_string(),
        filetype: "XMP".to_string(),
        file_size: 5,
        hash: hash.to_string(),
        modified_at: "2024:01:02 00:00:00.0+00:00".to_string(),
    }
}

fn library() -> Database {
    let mut db = Database::new();
    let mut d = Dedup::new();
    d.offer(&db, candidate("a.jpg", "HA", 20 * 1024 * 1024, 1, vec![xmp("a.xmp", "XA")]), None).unwrap();
    d.offer(&db, candidate("b.jpg", "HB", 10 * 1024 * 1024, 2, vec![]), None).unwrap();
    d.offer(&db, candidate("c.jpg", "HC", 10 * 1024 * 1024 + 1, 3, vec![]), None).unwrap();
    let copies = plan_copies("/lib", &db, &d);
    let errors = vec![None; copies.len()];
    commit_import(&mut db, &d, &copies, &errors, &day(4)).unwrap();
    db
}

#[test]
fn one_missing_one_untracked() {
    let mut db = library();
    let on_disk = vec![
        "/lib/images/2024/01-02/b.jpg".to_string(),
        "/lib/images/2024/01-03/c.jpg".to_string(),
        "/lib/images/2024/01-01/a.xmp".to_string(),
        "/lib/images/2024/01-05/new.jpg".to_string(),
        "/lib/images/2024/01-05/notes.txt".to_string(),
        "/lib/library.db".to_string(),
    ];
    let missing = find_missing_files(&db, "/lib", &on_disk);
    assert_eq!(missing.len(), 1);
    assert_eq!(missing[0].filename, "a.jpg");
    assert_eq!(missing[0].expected_path, "/lib/images/2024/01-01/a.jpg");
    let new_files = find_new_files(&db, "/lib", &on_disk);
    assert_eq!(new_files, vec!["/lib/images/2024/01-05/new.jpg".to_string()]);
    assert!(find_orphaned_sidecars(&db, "/lib", &on_disk).is_empty());

    let ids = vec![missing[0].id];
    db.remove_media(&ids);
    assert_eq!(db.media_count(), 2);
    assert!(!db.hash_exists("HA"));
    assert_eq!(db.sidecar_count(), 0);
}

#[test]
fn orphaned_and_modified_sidecars() {
    let mut db = library();
    let on_disk = vec!["/lib/images/2024/01-01/a.jpg".to_string()];
    let orphans = find_orphaned_sidecars(&db, "/lib", &on_disk);
    assert_eq!(orphans.len(), 1);
    assert_eq!(orphans[0].expected_path, "/lib/images/2024/01-01/a.xmp");
    let modified = find_modified_sidecars(&db, "/lib", &vec![Some("XA2".to_string())]);
    assert_eq!(modified.len(), 1);
    assert_eq!(modified[0].old_hash, "XA");
    assert_eq!(modified[0].new_hash, "XA2");
    assert!(find_modified_sidecars(&db, "/lib", &vec![Some("XA".to_string())]).is_empty());
    db.update_sidecar_hashes(&vec![(modified[0].id, "XA2".to_string())], &"2024:01:09 00:00:00.0+00:00".to_string());
    assert_eq!(db.sidecars[0].hash, "XA2");
    db.remove_sidecars(&vec![orphans[0].id]);
    assert_eq!(db.sidecar_count(), 0);
    assert_eq!(db.media_count(), 3);
}

#[test]
fn size_filters_strict_and_inclusive() {
    let db = library();
    let mut q = SearchQuery::new();
    q.set_size_filter(">10MB");
    let found: Vec<String> = search(&db, "/lib", &q).into_iter().map(|r| r.filename).collect();
    assert_eq!(found, vec!["a.jpg".to_string(), "c.jpg".to_string()]);

    let mut q = SearchQuery::new();
    q.set_size_filter("10MB..20MB");
    let found: Vec<String> = search(&db, "/lib", &q).into_iter().map(|r| r.filename).collect();
    assert_eq!(found, vec!["a.jpg".to_string(), "b.jpg".to_string(), "c.jpg".to_string()]);

    let mut q = SearchQuery::new();
    q.set_size_filter("<10MB");
    assert!(search(&db, "/lib", &q).is_empty());
}

#[test]
fn search_by_date_sidecar_and_path() {
    let db = library();
    let mut q = SearchQuery::new();
    q.date_start = Some("2024:01:01".to_string());
    q.date_end = Some("2024:01:02".to_string());
    let r = search(&db, "/lib", &q);
    assert_eq!(r.len(), 1);
    assert_eq!(r[0].full_path, "/lib/images/2024/01-02/b.jpg");
    let mut q = SearchQuery::new();
    q.has_sidecar = Some(true);
    let r = search(&db, "/lib", &q);
    assert_eq!(r.len(), 1);
    assert_eq!(r[0].filename, "a.jpg");
    assert!(r[0].has_sidecar);
}

#[test]
fn counts_and_sizes() {
    let db = library();
    assert_eq!(db.image_count(), 3);
    assert_eq!(db.video_count(), 0);
    assert_eq!(db.total_media_size(), Some(40 * 1024 * 1024 + 1));
    assert_eq!(db.total_video_size(), Some(0));
    assert_eq!(db.total_sidecar_size(), Some(5));
    assert_eq!(db.get_media_id_by_hash("HB"), Some(db.media[1].id));
    assert_eq!(db.get_media_id_by_hash("nonexistent"), None);
    assert!(db.check());
}

#[test]
fn results_come_newest_first() {
    let db = library();
    let r = photosort::search::sort_newest_first(search(&db, "/lib", &SearchQuery::new()));
    let names: Vec<&str> = r.iter().map(|x| x.filename.as_str()).collect();
    assert_eq!(names, vec!["c.jpg", "b.jpg", "a.jpg"]);
}

#[test]
fn truncates_long_names() {
    assert_eq!(photosort::search::truncate_str("short.jpg", 40), "short.jpg");
    assert_eq!(photosort::search::truncate_str("abcdefghij", 8), "abcde...");
}
