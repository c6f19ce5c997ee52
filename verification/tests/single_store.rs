use fdo_db::errors::StoreError;
use fdo_db::single_store::{NewOwnershipVoucherModel, SingleStore};

fn new_row(guid: &str, ttl: Option<i64>) -> NewOwnershipVoucherModel {
    NewOwnershipVoucherModel {
        guid: guid.to_string(),
        contents: guid.as_bytes().to_vec(),
        to2_performed: None,
        to0_accept_owner_wait_seconds: Some(32),
        ttl,
    }
}

#[test]
fn single_table_store_and_get() {
    let mut store = SingleStore::new();
    store.store_ov(new_row("ov-s1", Some(32))).unwrap();
    store.store_ov(new_row("ov-s2", None)).unwrap();
    assert_eq!(store.count_ov(), 2);

    let m = store.get_ov_model(&"ov-s1".to_string()).unwrap();
    assert_eq!(m.guid, "ov-s1");
    assert_eq!(m.contents, b"ov-s1".to_vec());
    assert_eq!(m.ttl, Some(32));
    assert_eq!(m.to0_accept_owner_wait_seconds, Some(32));
    assert_eq!(m.to2_performed, None);

    let r = store.get_ov_model(&"ov-s3".to_string());
    assert_eq!(r.unwrap_err(), StoreError::NotFound);
}

#[test]
fn single_table_duplicate_fails() {
    let mut store = SingleStore::new();
    store.store_ov(new_row("ov-dup", None)).unwrap();
    let r = store.store_ov(new_row("ov-dup", Some(1)));
    assert_eq!(r.unwrap_err(), StoreError::DuplicateKey);
    assert_eq!(store.count_ov(), 1);
}

#[test]
fn single_table_update_to2() {
    let mut store = SingleStore::new();
    store.store_ov(new_row("ov-u1", Some(5))).unwrap();
    store.store_ov(new_row("ov-u2", None)).unwrap();

    assert_eq!(store.update_ov_to2_performed(&"ov-u1".to_string(), &true), 1);
    let m = store.get_ov_model(&"ov-u1".to_string()).unwrap();
    assert_eq!(m.to2_performed, Some(true));
    // the other columns and the other row are untouched
    assert_eq!(m.ttl, Some(5));
    let other = store.get_ov_model(&"ov-u2".to_string()).unwrap();
    assert_eq!(other.to2_performed, None);

    assert_eq!(store.update_ov_to2_performed(&"ov-u3".to_string(), &true), 0);
}
