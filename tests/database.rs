use photosort::database::Database;

#[test]
fn test_database_creation() {
    let db = Database::new();
    assert!(db.check());
    assert_eq!(db.media_count(), 0);
    assert_eq!(db.sidecar_count(), 0);
}

#[test]
fn test_hash_exists() {
    let db = Database::new();
    assert!(!db.hash_exists("nonexistent"));
}
