use photosort::capture::CaptureTime;
use photosort::commit::{commit_import, FileCopy};
use photosort::database::{Database, ExifMetadata};
use photosort::error::PhotosortError;
use photosort::hashing::content_hash;
use photosort::import::{Choice, Dedup, ImportCandidate, Offered, SidecarCandidate};
use photosort::media::MediaType;
use photosort::plan::plan_copies;

fn tokyo_noon() -> CaptureTime {
    CaptureTime {
        year: 2024,
        month: 5,
        day: 21,
        hour: 12,
        minute: 0,
        second: 0,
        nanosecond: 0,
        offset_minutes: 540,
    }
}

fn sidecar(dir: &str, name: &str, hash: &str) -> SidecarCandidate {
    SidecarCandidate {
        source_path: format!("{}/{}", dir, name),
        filename: name.to_string(),
        filetype: "XMP".to_string(),
        file_size: 10,
        hash: hash.to_string(),
        modified_at: "2024:05:22 08:00:00.0+09:00".to_string(),
    }
}

fn jpeg(dir: &str, name: &str, hash: &str, sidecars: Vec<SidecarCandidate>) -> ImportCandidate {
    ImportCandidate {
        source_path: format!("{}/{}", dir, name),
        hash: hash.to_string(),
        media_type: MediaType::Image,
        file_size: 2048,
        created_at: tokyo_noon(),
        filename: name.to_string(),
        filetype: "JPG".to_string(),
        sidecars,
        exif: ExifMetadata::empty(),
    }
}

fn now() -> CaptureTime {
    CaptureTime { day: 22, ..tokyo_noon() }
}

fn run(db: &mut Database, cands: Vec<ImportCandidate>, choice: Option<Choice>) -> (Vec<FileCopy>, Result<photosort::commit::ImportStats, PhotosortError>) {
    let mut d = Dedup::new();
    for c in cands {
        assert!(c.check());
        if let Err(back) = d.offer(db, c, None) {
            d.offer(db, back, choice).unwrap();
        }
    }
    let copies = plan_copies("/lib", db, &d);
    let errors = vec![None; copies.len()];
    let r = commit_import(db, &d, &copies, &errors, &now());
    (copies, r)
}

#[test]
fn import_one_jpeg_with_sidecar() {
    let mut db = Database::new();
    let c = jpeg("/src", "IMG_0001.jpg", "H1", vec![sidecar("/src", "IMG_0001.xmp", "S1")]);
    let (copies, r) = run(&mut db, vec![c], None);
    let stats = r.unwrap();
    assert_eq!(stats.images_imported, 1);
    assert_eq!(stats.sidecars_imported, 1);
    assert_eq!(stats.duplicates_skipped, 0);
    assert_eq!(db.media_count(), 1);
    assert_eq!(db.sidecar_count(), 1);
    assert_eq!(db.media[0].relpath, "images/2024/05-21");
    assert_eq!(db.media[0].created_at, "2024:05:21 12:00:00.0+09:00");
    assert_eq!(db.sidecars[0].media_id, db.media[0].id);
    assert_eq!(copies.len(), 2);
    assert_eq!(copies[0].destination, "/lib/images/2024/05-21/IMG_0001.jpg");
    assert_eq!(copies[1].destination, "/lib/images/2024/05-21/IMG_0001.xmp");
}

#[test]
fn second_import_is_all_duplicates() {
    let mut db = Database::new();
    let c = jpeg("/src", "IMG_0001.jpg", "H1", vec![sidecar("/src", "IMG_0001.xmp", "S1")]);
    run(&mut db, vec![c], None).1.unwrap();
    let again = jpeg("/src", "IMG_0001.jpg", "H1", vec![sidecar("/src", "IMG_0001.xmp", "S1")]);
    let (copies, r) = run(&mut db, vec![again], None);
    let stats = r.unwrap();
    assert_eq!(stats.images_imported, 0);
    assert_eq!(stats.sidecars_imported, 0);
    assert_eq!(stats.duplicates_skipped, 1);
    assert!(copies.is_empty());
    assert_eq!(db.media_count(), 1);
    assert_eq!(db.sidecar_count(), 1);
}

#[test]
fn keep_both_conflicting_edits() {
    let mut db = Database::new();
    let a = jpeg("/src", "A.jpg", "H1", vec![sidecar("/src", "A.xmp", "SA")]);
    let b = jpeg("/src/copy", "B.jpg", "H1", vec![sidecar("/src/copy", "B.xmp", "SB")]);
    let (_copies, r) = run(&mut db, vec![a, b], Some(Choice::KeepBoth));
    let stats = r.unwrap();
    assert_eq!(stats.images_imported, 2);
    assert_eq!(stats.sidecars_imported, 2);
    assert_eq!(db.media_count(), 2);
    assert_eq!(db.media[0].hash, "H1");
    assert_eq!(db.media[1].hash, "H1-alt");
    assert_eq!(db.sidecars[0].filename, "A.xmp");
    assert_eq!(db.sidecars[1].filename, "B.xmp");
    assert_eq!(db.sidecars[1].media_id, db.media[1].id);
}

#[test]
fn conflict_waits_for_a_choice() {
    let db = Database::new();
    let mut d = Dedup::new();
    let a = jpeg("/src", "A.jpg", "H1", vec![sidecar("/src", "A.xmp", "SA")]);
    let b = jpeg("/src", "B.jpg", "H1", vec![sidecar("/src", "B.xmp", "SB")]);
    assert_eq!(d.offer(&db, a, None).ok(), Some(Offered::Added));
    let back = d.offer(&db, b, None).err().unwrap();
    assert_eq!(back.filename, "B.jpg");
    assert_eq!(d.batch.len(), 1);
    assert_eq!(d.offer(&db, back, Some(Choice::KeepSecond)).ok(), Some(Offered::Replaced));
    assert_eq!(d.batch[0].filename, "B.jpg");
    assert_eq!(d.duplicates_skipped, 1);
}

#[test]
fn duplicate_without_sidecars_is_skipped_and_with_sidecars_replaces() {
    let db = Database::new();
    let mut d = Dedup::new();
    let a = jpeg("/src", "A.jpg", "H1", vec![]);
    let b = jpeg("/src", "B.jpg", "H1", vec![sidecar("/src", "B.xmp", "SB")]);
    let c = jpeg("/src", "C.jpg", "H1", vec![]);
    assert_eq!(d.offer(&db, a, None).ok(), Some(Offered::Added));
    assert_eq!(d.offer(&db, b, None).ok(), Some(Offered::Replaced));
    assert_eq!(d.offer(&db, c, None).ok(), Some(Offered::Skipped));
    assert_eq!(d.batch.len(), 1);
    assert_eq!(d.batch[0].filename, "B.jpg");
    assert_eq!(d.duplicates_skipped, 2);
}

#[test]
fn new_sidecars_of_a_known_file_are_merged() {
    let mut db = Database::new();
    run(&mut db, vec![jpeg("/src", "IMG.jpg", "H1", vec![])], None).1.unwrap();
    let again = jpeg("/src", "IMG.jpg", "H1", vec![sidecar("/src", "IMG.xmp", "S1")]);
    let (copies, r) = run(&mut db, vec![again], None);
    let stats = r.unwrap();
    assert_eq!(stats.images_imported, 0);
    assert_eq!(stats.sidecars_imported, 1);
    assert_eq!(stats.duplicates_skipped, 1);
    assert_eq!(db.media_count(), 1);
    assert_eq!(db.sidecar_count(), 1);
    assert_eq!(copies.len(), 1);
    assert_eq!(copies[0].destination, "/lib/images/2024/05-21/IMG.xmp");
}

#[test]
fn failed_copy_leaves_index_untouched() {
    let mut db = Database::new();
    let mut d = Dedup::new();
    let c = jpeg("/src", "IMG_0001.jpg", "H1", vec![sidecar("/src", "IMG_0001.xmp", "S1")]);
    d.offer(&db, c, None).unwrap();
    let copies = plan_copies("/lib", &db, &d);
    let errors = vec![None, Some("disk full".to_string())];
    match commit_import(&mut db, &d, &copies, &errors, &now()) {
        Err(PhotosortError::CopyFailed(f)) => {
            assert_eq!(f.len(), 1);
            assert_eq!(f.failures[0].source, "/src/IMG_0001.xmp");
            assert_eq!(f.failures[0].destination, "/lib/images/2024/05-21/IMG_0001.xmp");
            assert_eq!(f.failures[0].error, "disk full");
        }
        other => panic!("unexpected {:?}", other),
    }
    assert_eq!(db.media_count(), 0);
    assert_eq!(db.sidecar_count(), 0);
    assert_eq!(db.next_media_id, 1);
}

#[test]
fn shared_destination_is_copied_once() {
    let db = Database::new();
    let mut d = Dedup::new();
    let jpg = jpeg("/src", "IMG.jpg", "H1", vec![sidecar("/src", "IMG.xmp", "S1")]);
    let mut dng = jpeg("/src", "IMG.dng", "H2", vec![sidecar("/src", "IMG.xmp", "S1")]);
    dng.filetype = "DNG".to_string();
    d.offer(&db, jpg, None).unwrap();
    d.offer(&db, dng, None).unwrap();
    let copies = plan_copies("/lib/", &db, &d);
    let dests: Vec<&str> = copies.iter().map(|c| c.destination.as_str()).collect();
    assert_eq!(
        dests,
        vec![
            "/lib/images/2024/05-21/IMG.jpg",
            "/lib/images/2024/05-21/IMG.xmp",
            "/lib/images/2024/05-21/IMG.dng"
        ]
    );
}

#[test]
fn content_hash_is_sha256_in_base64() {
    assert_eq!(content_hash(b"hello"), "LPJNul+wow4m6DsqxbninhsWHlwfp0JecwQzYpOLmCQ=");
    assert_eq!(content_hash(b"hello"), content_hash(b"hello"));
    assert_ne!(content_hash(b"hello"), content_hash(b"hello!"));
}

#[test]
fn keep_first_and_keep_both_when_alt_is_indexed() {
    let mut db = Database::new();
    let a = jpeg("/src", "A.jpg", "H1", vec![sidecar("/src", "A.xmp", "SA")]);
    let b = jpeg("/src", "B.jpg", "H1", vec![sidecar("/src", "B.xmp", "SB")]);
    run(&mut db, vec![a, b], Some(Choice::KeepBoth)).1.unwrap();
    assert!(db.hash_exists("H1-alt"));

    let fresh = Database::new();
    let mut d = Dedup::new();
    let a = jpeg("/src", "A.jpg", "H2", vec![sidecar("/src", "A.xmp", "SA")]);
    let b = jpeg("/src", "B.jpg", "H2", vec![sidecar("/src", "B.xmp", "SB")]);
    d.offer(&fresh, a, None).unwrap();
    assert_eq!(d.offer(&fresh, b, Some(Choice::KeepFirst)).ok(), Some(Offered::Skipped));
    assert_eq!(d.batch.len(), 1);
    assert_eq!(d.batch[0].filename, "A.jpg");

    let mut d = Dedup::new();
    let c = jpeg("/x", "C.jpg", "H0", vec![sidecar("/x", "C.xmp", "SC")]);
    let mut indexed = Database::new();
    let mut d0 = Dedup::new();
    d0.offer(&indexed, jpeg("/x", "Z.jpg", "H0-alt", vec![]), None).unwrap();
    let copies = plan_copies("/lib", &indexed, &d0);
    commit_import(&mut indexed, &d0, &copies, &vec![None; copies.len()], &now()).unwrap();
    let e = jpeg("/x", "E.jpg", "H0", vec![sidecar("/x", "E.xmp", "SE")]);
    d.offer(&indexed, c, None).unwrap();
    assert_eq!(d.offer(&indexed, e, Some(Choice::KeepBoth)).ok(), Some(Offered::Skipped));
    assert_eq!(d.duplicates_skipped, 1);
}
