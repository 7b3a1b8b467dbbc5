use marsbot::bot::find_mars;
use marsbot::db::cache::LruCache;
use marsbot::db::sqlite::Sqlite;
use marsbot::db::{new_db, Backend, BackendKind, DbOperation, MarsImage, StoreError};
use tempfile::TempDir;

fn open_sled(dir: &TempDir) -> Backend {
    new_db(BackendKind::Sled, dir.path().to_str().unwrap()).unwrap()
}

fn dedup_scenario<T: DbOperation>(db: &mut T) {
    let first = MarsImage::new(123_456, vec![1, 2, 3, 4, 5, 6]);
    assert!(db.insert_or_get_existing("g1", first.clone()).unwrap().is_none());
    let second = MarsImage::new(654_321, vec![1, 2, 3, 4, 5, 6]);
    let hit = db.insert_or_get_existing("g1", second).unwrap();
    assert_eq!(hit, Some(MarsImage::new(123_456, vec![1, 2, 3, 4, 5, 6])));
    let third = MarsImage::new(777, vec![1, 2, 3, 4, 5, 6]);
    assert!(db.insert_or_get_existing("g2", third).unwrap().is_none());
}

#[test]
fn dedup_scenario_sled() {
    let dir = TempDir::new().unwrap();
    let mut db = open_sled(&dir);
    dedup_scenario(&mut db);
}

#[test]
fn dedup_scenario_sqlite() {
    let mut db = Sqlite::new_memory().unwrap();
    dedup_scenario(&mut db);
}

#[test]
fn drop_unknown_namespace_is_not_found() {
    let dir = TempDir::new().unwrap();
    let mut db = open_sled(&dir);
    assert!(matches!(db.drop_table("g1"), Err(StoreError::NotFound)));
    let mut mem = Sqlite::new_memory().unwrap();
    assert!(matches!(mem.drop_table("g1"), Err(StoreError::NotFound)));
}

#[test]
fn drop_removes_every_record() {
    let dir = TempDir::new().unwrap();
    let mut db = open_sled(&dir);
    db.insert_to_table("g1", MarsImage::new(1, vec![9, 9, 9])).unwrap();
    db.insert_to_table("g1", MarsImage::new(2, vec![8, 8, 8])).unwrap();
    db.drop_table("g1").unwrap();
    assert!(!db.exist_table("g1").unwrap());
    assert!(db.query_from_table("g1", &[9, 9, 9]).unwrap().is_none());
    assert!(db.query_from_table("g1", &[8, 8, 8]).unwrap().is_none());
}

#[test]
fn namespace_isolation_on_lookup() {
    let mut db = Sqlite::new_memory().unwrap();
    db.insert_to_table("a", MarsImage::new(5, vec![1, 1])).unwrap();
    assert!(db.query_from_table("b", &[1, 1]).unwrap().is_none());
    assert!(!db.exist_table("b").unwrap());
}

#[test]
fn ensure_namespace_is_idempotent() {
    let dir = TempDir::new().unwrap();
    let mut db = open_sled(&dir);
    db.insert_to_table("g1", MarsImage::new(1, vec![3, 3])).unwrap();
    db.create_table_if_not_exist("g1").unwrap();
    db.create_table_if_not_exist("g1").unwrap();
    assert!(db.exist_table("g1").unwrap());
    let kept = db.query_from_table("g1", &[3, 3]).unwrap().unwrap();
    assert_eq!(kept.id, 1);
}

#[test]
fn invalid_namespace_name_is_rejected() {
    let mut db = Sqlite::new_memory().unwrap();
    assert!(matches!(
        db.create_table_if_not_exist("bad name]"),
        Err(StoreError::InvalidName)
    ));
    assert!(matches!(
        db.insert_to_table("", MarsImage::new(1, vec![1])),
        Err(StoreError::InvalidName)
    ));
    // The relational engine compares identifiers case-insensitively,
    // so names with uppercase letters are refused everywhere.
    assert!(matches!(
        db.create_table_if_not_exist("Foo"),
        Err(StoreError::InvalidName)
    ));
}

#[test]
fn reserved_backend_fails_fast() {
    let mut db = new_db(BackendKind::PlainText, "unused").unwrap();
    assert!(matches!(
        db.insert_or_get_existing("g1", MarsImage::new(1, vec![1])),
        Err(StoreError::Unimplemented)
    ));
    assert!(matches!(db.exist_table("g1"), Err(StoreError::Unimplemented)));
}

#[test]
fn find_mars_reports_last_duplicate() {
    let dir = TempDir::new().unwrap();
    let mut db = open_sled(&dir);
    let hashes = vec![vec![1u8, 2, 3], vec![4u8, 5, 6]];
    assert!(find_mars(&mut db, "chat", 10, &hashes).is_none());
    let again = find_mars(&mut db, "chat", 11, &hashes);
    assert_eq!(again, Some(MarsImage::new(10, vec![4, 5, 6])));
}

#[test]
fn find_mars_sees_a_repeated_digest_in_one_message() {
    let dir = TempDir::new().unwrap();
    let mut db = open_sled(&dir);
    let hashes = vec![vec![7u8, 7, 7], vec![7u8, 7, 7]];
    let hit = find_mars(&mut db, "chat", 99, &hashes);
    assert_eq!(hit, Some(MarsImage::new(99, vec![7, 7, 7])));
}

#[test]
fn new_db_picks_the_requested_engine() {
    let dir = TempDir::new().unwrap();
    let sled_file = format!("{}/s", dir.path().to_str().unwrap());
    let sqlite_file = format!("{}/q.db", dir.path().to_str().unwrap());
    assert!(matches!(new_db(BackendKind::Sled, &sled_file), Ok(Backend::Sled(_))));
    assert!(matches!(
        new_db(BackendKind::Sqlite, &sqlite_file),
        Ok(Backend::Sqlite(_))
    ));
    assert!(matches!(
        new_db(BackendKind::PlainText, "unused"),
        Ok(Backend::PlainText)
    ));
}

#[test]
fn lru_cache_orders_and_evicts() {
    let mut cache: LruCache<i32> = LruCache::new(2);
    assert!(cache.insert_front("a".to_string(), 1).is_none());
    assert!(cache.insert_front("b".to_string(), 2).is_none());
    assert_eq!(cache.position("a"), Some(1));
    assert_eq!(cache.position("b"), Some(0));
    let i = cache.position("a").unwrap();
    cache.promote(i);
    assert_eq!(cache.position("a"), Some(0));
    let evicted = cache.insert_front("c".to_string(), 3);
    assert_eq!(evicted, Some(2));
    assert_eq!(cache.position("b"), None);
    assert_eq!(cache.position("a"), Some(1));
    assert_eq!(cache.position("c"), Some(0));
}

#[test]
fn sled_store_persists_across_reopen() {
    let dir = TempDir::new().unwrap();
    {
        let mut db = open_sled(&dir);
        db.insert_to_table("g1", MarsImage::new(77, vec![1, 2])).unwrap();
    }
    let mut db = open_sled(&dir);
    assert!(db.exist_table("g1").unwrap());
    let kept = db.query_from_table("g1", &[1, 2]).unwrap().unwrap();
    assert_eq!(kept, MarsImage::new(77, vec![1, 2]));
}
