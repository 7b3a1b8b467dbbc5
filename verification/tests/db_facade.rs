use marsbot::db::{new_db, Backend, BackendKind, DbOperation, MarsImage};
use tempfile::TempDir;

fn open_sled(dir: &TempDir) -> Backend {
    new_db(BackendKind::Sled, dir.path().to_str().unwrap()).unwrap()
}

#[test]
fn mod_test_create_table_and_drop_table() {
    let dir = TempDir::new().unwrap();
    let mut db = open_sled(&dir);
    db.create_table_if_not_exist("123456789").unwrap();
    assert!(db.exist_table("123456789").unwrap());
    db.drop_table("123456789").unwrap();
    assert!(!db.exist_table("123456789").unwrap());
}

#[test]
fn mod_test_insert_get() {
    let dir = TempDir::new().unwrap();
    let mut db = open_sled(&dir);
    db.create_table_if_not_exist("123456789").unwrap();
    let item = MarsImage::new(123_456, vec![1, 2, 3, 4, 5, 6]);
    db.insert_to_table("123456789", item.clone()).unwrap();
    let result = db
        .query_from_table("123456789", &[1, 2, 3, 4, 5, 6])
        .unwrap()
        .unwrap();
    assert_eq!(result, item);
}

#[test]
fn mod_test_insert_or_get_existing() {
    let dir = TempDir::new().unwrap();
    let mut db = open_sled(&dir);
    db.create_table_if_not_exist("123456789").unwrap();
    let item = MarsImage::new(123_456, vec![1, 2, 3, 4, 5, 6]);
    let result = db.insert_or_get_existing("123456789", item).unwrap();
    assert!(result.is_none());
    let item2 = MarsImage::new(654_321, vec![1, 2, 3, 4, 5, 6]);
    let result = db.insert_or_get_existing("123456789", item2).unwrap();
    assert!(result.is_some());
}

#[test]
fn mod_double_insert_should_fail() {
    let dir = TempDir::new().unwrap();
    let mut db = open_sled(&dir);
    db.create_table_if_not_exist("123456789").unwrap();
    let item = MarsImage::new(123_456, vec![1, 2, 3, 4, 5, 6]);
    db.insert_to_table("123456789", item.clone()).unwrap();
    assert!(db.insert_to_table("123456789", item).is_err());
}
