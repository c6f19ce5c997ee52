use fdo_db::errors::StoreError;
use fdo_db::models::{MetadataKey, MetadataValue, NewOwnershipVoucherModel};
use fdo_db::store::VoucherStore;

fn new_ov(guid: &str, contents: &[u8]) -> NewOwnershipVoucherModel {
    NewOwnershipVoucherModel {
        guid: guid.to_string(),
        contents: contents.to_vec(),
    }
}

fn owner_guids(rows: &[fdo_db::models::OwnerOV]) -> Vec<String> {
    let mut guids: Vec<String> = rows.iter().map(|r| r.ov_guid.clone()).collect();
    guids.sort();
    guids
}

/// Mirrors the backend test: three vouchers registered with the owner and
/// rendezvous roles, metadata written, a reference insert for an unknown
/// GUID rejected, and a cascading delete observed in every table.
#[test]
fn test_database() {
    let mut store = VoucherStore::new();
    let guids = ["ov-a", "ov-b", "ov-c"];
    let mut last_guid = String::new();

    for (i, guid) in guids.iter().enumerate() {
        let contents = vec![i as u8; 4];
        store.insert_ov(new_ov(guid, &contents)).unwrap();
        store
            .insert_ov_ref_owner(&guid.to_string(), None, None)
            .unwrap();
        store.insert_ov_ref_rv(&guid.to_string(), None).unwrap();
        last_guid = guid.to_string();
    }

    // we should have 3 ovs in each table
    assert_eq!(store.count_ov(), 3);
    assert_eq!(store.count_owner(), 3);
    assert_eq!(store.count_rendezvous(), 3);

    // add some metadata for the ovs
    for guid in guids.iter() {
        let guid = guid.to_string();
        assert_eq!(store.update_ov_ttl_metadata_rv(&guid, &2000), 1);
        assert_eq!(store.update_ov_tO0_metadata_owner(&guid, &2500), 1);
        assert_eq!(store.update_ov_tO2_metadata_owner(&guid, &true), 1);
    }

    // this should error since there is no OV with that guid created
    assert!(store
        .insert_ov_ref_owner(&"non-existing-GUID".to_string(), None, None)
        .is_err());

    // delete an ov, we should have 2
    assert_eq!(store.delete_ov(&last_guid), 1);
    assert_eq!(store.count_ov(), 2);

    // ...and the cascade should work for the other tables
    assert_eq!(store.count_owner(), 2);
    assert_eq!(store.count_rendezvous(), 2);
}

/// Round trip: the bytes read back are exactly the bytes stored.
#[test]
fn round_trip_returns_identical_bytes() {
    let mut store = VoucherStore::new();
    let contents: Vec<u8> = vec![0, 1, 2, 3, 254, 255];
    store.insert_ov(new_ov("ov-bytes", &contents)).unwrap();
    let model = store.get_ov_model(&"ov-bytes".to_string()).unwrap();
    assert_eq!(model.guid, "ov-bytes");
    assert_eq!(model.contents, contents);
}

#[test]
fn get_missing_voucher_is_not_found() {
    let store = VoucherStore::new();
    let r = store.get_ov_model(&"absent".to_string());
    assert_eq!(r.unwrap_err(), StoreError::NotFound);
}

#[test]
fn duplicate_voucher_insert_fails() {
    let mut store = VoucherStore::new();
    store.insert_ov(new_ov("ov-dup", b"one")).unwrap();
    let r = store.insert_ov(new_ov("ov-dup", b"two"));
    assert_eq!(r.unwrap_err(), StoreError::DuplicateKey);
    // the first row is untouched
    let model = store.get_ov_model(&"ov-dup".to_string()).unwrap();
    assert_eq!(model.contents, b"one".to_vec());
}

/// Referential integrity: a reference insert for a GUID with no canonical
/// row fails with ForeignKeyViolation in every role table and creates no
/// row.
#[test]
fn reference_insert_without_canonical_row_fails() {
    let mut store = VoucherStore::new();
    store.insert_ov(new_ov("ov-present", b"x")).unwrap();
    let missing = "ov-missing".to_string();

    let r = store.insert_ov_ref_manufacturer(&missing, Some(10));
    assert_eq!(r.unwrap_err(), StoreError::ForeignKeyViolation);
    let r = store.insert_ov_ref_owner(&missing, Some(true), Some(1));
    assert_eq!(r.unwrap_err(), StoreError::ForeignKeyViolation);
    let r = store.insert_ov_ref_rv(&missing, Some(10));
    assert_eq!(r.unwrap_err(), StoreError::ForeignKeyViolation);

    assert_eq!(store.count_manufacturer(), 0);
    assert_eq!(store.count_owner(), 0);
    assert_eq!(store.count_rendezvous(), 0);
}

#[test]
fn duplicate_reference_insert_fails() {
    let mut store = VoucherStore::new();
    let guid = "ov-ref".to_string();
    store.insert_ov(new_ov("ov-ref", b"x")).unwrap();
    store.insert_ov_ref_owner(&guid, None, None).unwrap();
    let r = store.insert_ov_ref_owner(&guid, Some(true), Some(5));
    assert_eq!(r.unwrap_err(), StoreError::DuplicateKey);
    assert_eq!(store.count_owner(), 1);
}

/// Cascade scoping: deleting one canonical voucher removes exactly its own
/// role rows and leaves every other GUID's rows alone.
#[test]
fn cascade_removes_only_the_deleted_guid() {
    let mut store = VoucherStore::new();
    for guid in ["ov-keep", "ov-drop"] {
        store.insert_ov(new_ov(guid, b"v")).unwrap();
        let g = guid.to_string();
        store.insert_ov_ref_manufacturer(&g, Some(50)).unwrap();
        store.insert_ov_ref_owner(&g, Some(true), Some(7)).unwrap();
        store.insert_ov_ref_rv(&g, Some(99)).unwrap();
    }

    assert_eq!(store.delete_ov(&"ov-drop".to_string()), 1);

    assert_eq!(store.count_ov(), 1);
    assert_eq!(store.count_manufacturer(), 1);
    assert_eq!(store.count_owner(), 1);
    assert_eq!(store.count_rendezvous(), 1);
    assert!(store.get_ov_model(&"ov-keep".to_string()).is_ok());
    let owners = store.select_ov_to2_performed(true);
    assert_eq!(owner_guids(&owners), vec!["ov-keep".to_string()]);

    // deleting an absent guid affects zero rows everywhere
    assert_eq!(store.delete_ov(&"ov-drop".to_string()), 0);
    assert_eq!(store.count_ov(), 1);
    assert_eq!(store.count_owner(), 1);
}

#[test]
fn role_delete_touches_only_its_table() {
    let mut store = VoucherStore::new();
    let g = "ov-role".to_string();
    store.insert_ov(new_ov("ov-role", b"v")).unwrap();
    store.insert_ov_ref_manufacturer(&g, None).unwrap();
    store.insert_ov_ref_owner(&g, None, None).unwrap();
    store.insert_ov_ref_rv(&g, None).unwrap();

    assert_eq!(store.delete_ov_rv(&g), 1);
    assert_eq!(store.count_rendezvous(), 0);
    assert_eq!(store.count_manufacturer(), 1);
    assert_eq!(store.count_owner(), 1);
    assert_eq!(store.count_ov(), 1);

    assert_eq!(store.delete_ov_owner(&g), 1);
    assert_eq!(store.count_owner(), 0);
    assert_eq!(store.count_manufacturer(), 1);

    assert_eq!(store.delete_ov_manufacturer(&g), 1);
    assert_eq!(store.count_manufacturer(), 0);
    assert_eq!(store.count_ov(), 1);

    // repeating any of them affects zero rows
    assert_eq!(store.delete_ov_rv(&g), 0);
    assert_eq!(store.delete_ov_owner(&g), 0);
    assert_eq!(store.delete_ov_manufacturer(&g), 0);
}

/// Scenario: three vouchers with alternating owner metadata; the selects
/// return exactly the first and third.
#[test]
fn scenario_owner_selects() {
    let mut store = VoucherStore::new();
    let g1 = "ov-1".to_string();
    let g2 = "ov-2".to_string();
    let g3 = "ov-3".to_string();
    for g in [&g1, &g2, &g3] {
        store.insert_ov(new_ov(g, b"v")).unwrap();
    }
    store
        .insert_ov_ref_owner(&g1, Some(true), Some(2000))
        .unwrap();
    store
        .insert_ov_ref_owner(&g2, Some(false), Some(3000))
        .unwrap();
    store
        .insert_ov_ref_owner(&g3, Some(true), Some(2000))
        .unwrap();

    let to2_true = store.select_ov_to2_performed(true);
    assert_eq!(owner_guids(&to2_true), vec![g1.clone(), g3.clone()]);

    let to2_false = store.select_ov_to2_performed(false);
    assert_eq!(owner_guids(&to2_false), vec![g2.clone()]);

    let quick = store.select_ov_to0_less_than(2500);
    assert_eq!(owner_guids(&quick), vec![g1.clone(), g3.clone()]);

    // a row with no to0 value never matches
    let g4 = "ov-4".to_string();
    store.insert_ov(new_ov(&g4, b"v")).unwrap();
    store.insert_ov_ref_owner(&g4, None, None).unwrap();
    let quick = store.select_ov_to0_less_than(2500);
    assert_eq!(owner_guids(&quick), vec![g1, g3]);
}

/// Scenario: a failing reference insert, a succeeding one, and a cascade
/// observed as a three-to-two count drop in every table.
#[test]
fn scenario_insert_then_cascade_counts() {
    let mut store = VoucherStore::new();
    for guid in ["ov-x", "ov-y", "ov-z"] {
        store.insert_ov(new_ov(guid, b"v")).unwrap();
    }

    let r = store.insert_ov_ref_owner(&"missing-guid".to_string(), None, None);
    assert_eq!(r.unwrap_err(), StoreError::ForeignKeyViolation);

    for guid in ["ov-x", "ov-y", "ov-z"] {
        let g = guid.to_string();
        store.insert_ov_ref_owner(&g, None, None).unwrap();
        store.insert_ov_ref_rv(&g, None).unwrap();
    }
    assert_eq!(store.count_ov(), 3);
    assert_eq!(store.count_owner(), 3);
    assert_eq!(store.count_rendezvous(), 3);

    assert_eq!(store.delete_ov(&"ov-z".to_string()), 1);
    assert_eq!(store.count_ov(), 2);
    assert_eq!(store.count_owner(), 2);
    assert_eq!(store.count_rendezvous(), 2);
}

/// Type safety: a value of the wrong type is rejected outright and the
/// stored value stays what it was.
#[test]
fn metadata_type_mismatch_changes_nothing() {
    let mut store = VoucherStore::new();
    let g = "ov-meta".to_string();
    store.insert_ov(new_ov(&g, b"v")).unwrap();
    store
        .insert_ov_ref_owner(&g, Some(false), Some(11))
        .unwrap();
    store.insert_ov_ref_rv(&g, Some(22)).unwrap();

    // an integer for To2Performed must fail
    let r = store.update_ov_metadata(&g, MetadataKey::To2Performed, MetadataValue::Seconds(1));
    assert_eq!(r.unwrap_err(), StoreError::TypeMismatch);
    // a boolean for the integer keys must fail
    let r = store.update_ov_metadata(
        &g,
        MetadataKey::To0AcceptOwnerWaitSeconds,
        MetadataValue::Flag(true),
    );
    assert_eq!(r.unwrap_err(), StoreError::TypeMismatch);
    let r = store.update_ov_metadata(&g, MetadataKey::Ttl, MetadataValue::Flag(true));
    assert_eq!(r.unwrap_err(), StoreError::TypeMismatch);

    // the stored owner metadata is unchanged
    let rows = store.select_ov_to2_performed(false);
    assert_eq!(rows.len(), 1);
    assert_eq!(rows[0].to0_accept_owner_wait_seconds, Some(11));

    // a rendezvous sweep at the untouched ttl still removes the row,
    // so the ttl was not altered either
    assert_eq!(store.delete_ov_ttl_le_rv(22), 1);
}

#[test]
fn metadata_gateway_updates_and_not_found() {
    let mut store = VoucherStore::new();
    let g = "ov-gate".to_string();
    store.insert_ov(new_ov(&g, b"v")).unwrap();
    store.insert_ov_ref_owner(&g, Some(false), None).unwrap();
    store.insert_ov_ref_rv(&g, None).unwrap();

    store
        .update_ov_metadata(&g, MetadataKey::To2Performed, MetadataValue::Flag(true))
        .unwrap();
    store
        .update_ov_metadata(
            &g,
            MetadataKey::To0AcceptOwnerWaitSeconds,
            MetadataValue::Seconds(1234),
        )
        .unwrap();
    store
        .update_ov_metadata(&g, MetadataKey::Ttl, MetadataValue::Seconds(777))
        .unwrap();

    let rows = store.select_ov_to2_performed(true);
    assert_eq!(rows.len(), 1);
    assert_eq!(rows[0].to0_accept_owner_wait_seconds, Some(1234));
    assert_eq!(store.delete_ov_ttl_le_rv(777), 1);

    // a well-typed update for an absent row reports NotFound
    let absent = "ov-absent".to_string();
    let r = store.update_ov_metadata(&absent, MetadataKey::To2Performed, MetadataValue::Flag(true));
    assert_eq!(r.unwrap_err(), StoreError::NotFound);

    // the typed updates report zero affected rows for an absent guid
    assert_eq!(store.update_ov_tO2_metadata_owner(&absent, &true), 0);
    assert_eq!(store.update_ov_tO0_metadata_owner(&absent, &1), 0);
    assert_eq!(store.update_ov_ttl_metadata_rv(&absent, &1), 0);
}

/// Expiry: a sweep removes exactly the rows with a non-null ttl at most
/// the threshold; null-ttl rows never expire; repeating is a no-op.
#[test]
fn rendezvous_expiry_is_exact_and_idempotent() {
    let mut store = VoucherStore::new();
    for (guid, ttl) in [("ov-none", None), ("ov-soon", Some(1000)), ("ov-late", Some(5000))] {
        store.insert_ov(new_ov(guid, b"v")).unwrap();
        store.insert_ov_ref_rv(&guid.to_string(), ttl).unwrap();
    }

    assert_eq!(store.delete_ov_ttl_le_rv(4000), 1);
    assert_eq!(store.count_rendezvous(), 2);
    // the canonical rows are untouched by a sweep
    assert_eq!(store.count_ov(), 3);

    // repeating with the same threshold affects zero rows
    assert_eq!(store.delete_ov_ttl_le_rv(4000), 0);
    assert_eq!(store.count_rendezvous(), 2);

    // the boundary is inclusive
    assert_eq!(store.delete_ov_ttl_le_rv(5000), 1);
    assert_eq!(store.count_rendezvous(), 1);
    // only the null-ttl row remains, and no threshold removes it
    assert_eq!(store.delete_ov_ttl_le_rv(i64::MAX), 0);
    assert_eq!(store.count_rendezvous(), 1);
}

/// Mirrors the manufacturer backend test: vouchers stored with a ttl, one
/// deleted by GUID, then swept at two thresholds.
#[test]
fn manufacturer_ttl_sweep() {
    let mut store = VoucherStore::new();
    let guids = ["ov-m1", "ov-m2", "ov-m3"];
    let mut last_guid = String::new();
    for guid in guids {
        store.insert_ov(new_ov(guid, b"v")).unwrap();
        store
            .insert_ov_ref_manufacturer(&guid.to_string(), Some(5000))
            .unwrap();
        last_guid = guid.to_string();
    }
    assert_eq!(store.count_manufacturer(), 3);

    // delete an ov by guid, we should have 2 at the end
    assert_eq!(store.delete_ov_manufacturer(&last_guid), 1);
    assert_eq!(store.count_manufacturer(), 2);

    // delete manufacturer ovs with ttl <= 4000, we shouldn't delete any
    assert_eq!(store.delete_ov_ttl_le_manufacturer(4000), 0);
    assert_eq!(store.count_manufacturer(), 2);

    // delete manufacturer ovs with ttl <= 5000, the remaining 2 go
    assert_eq!(store.delete_ov_ttl_le_manufacturer(5000), 2);
    assert_eq!(store.count_manufacturer(), 0);
}

#[test]
fn error_descriptions_are_distinct() {
    let errors = [
        StoreError::NotFound,
        StoreError::DuplicateKey,
        StoreError::ForeignKeyViolation,
        StoreError::TypeMismatch,
        StoreError::ConnectionError,
        StoreError::BackendError,
    ];
    for (i, a) in errors.iter().enumerate() {
        for (j, b) in errors.iter().enumerate() {
            if i != j {
                assert_ne!(a.describe(), b.describe());
            }
        }
    }
    assert_eq!(StoreError::NotFound.describe(), "not found");
}

#[test]
fn pool_config_defaults() {
    let c = fdo_db::pool::PoolConfig::sqlite_defaults();
    assert!(c.test_on_check_out);
    assert_eq!(c.min_idle, None);
    let c = fdo_db::pool::PoolConfig::postgres_defaults();
    assert!(c.test_on_check_out);
    assert_eq!(c.min_idle, Some(2));
}
