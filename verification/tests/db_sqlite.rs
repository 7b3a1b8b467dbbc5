use marsbot::db::sqlite::Sqlite;
use marsbot::db::{DbOperation, MarsImage};

#[test]
fn binary_test_create_table_and_drop_table() {
    let mut conn = Sqlite::new_memory().unwrap();
    conn.create_table_if_not_exist("123456789").unwrap();
    assert!(conn.exist_table("123456789").unwrap());
    conn.drop_table("123456789").unwrap();
    assert!(!conn.exist_table("123456789").unwrap());
}

#[test]
fn binary_test_insert_get() {
    let mut conn = Sqlite::new_memory().unwrap();
    conn.create_table_if_not_exist("123456789").unwrap();
    let item = MarsImage::new(123_456, vec![1, 2, 3, 4, 5, 6]);
    conn.insert_to_table("123456789", item.clone()).unwrap();
    let result = conn
        .query_from_table("123456789", &[1, 2, 3, 4, 5, 6])
        .unwrap()
        .unwrap();
    assert_eq!(result, item);
}

#[test]
fn binary_test_insert_or_get_existing() {
    let mut conn = Sqlite::new_memory().unwrap();
    conn.create_table_if_not_exist("123456789").unwrap();
    let item = MarsImage::new(123_456, vec![1, 2, 3, 4, 5, 6]);
    let result = conn.insert_or_get_existing("123456789", item).unwrap();
    assert!(result.is_none());
    let item2 = MarsImage::new(654_321, vec![1, 2, 3, 4, 5, 6]);
    let result = conn.insert_or_get_existing("123456789", item2).unwrap();
    assert!(result.is_some());
}

#[test]
fn binary_double_insert_should_fail() {
    let mut conn = Sqlite::new_memory().unwrap();
    conn.create_table_if_not_exist("123456789").unwrap();
    let item = MarsImage::new(123_456, vec![1, 2, 3, 4, 5, 6]);
    conn.insert_to_table("123456789", item.clone()).unwrap();
    assert!(conn.insert_to_table("123456789", item).is_err());
}
