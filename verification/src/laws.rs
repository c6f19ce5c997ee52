//! Laws of the store that relate several operations, stated over
//! `StoreView` and proved once and for all.
//!
//! Referential integrity of the role inserts and the type safety of the
//! metadata gateway are stated directly in those functions' contracts; the
//! laws here cover what no single contract states.

use vstd::prelude::*;

use crate::models::NewOwnershipVoucherModel;
use crate::store::{voucher_row, StoreView};
use crate::table::{
    contains_key, exact_deletion, exact_expiry, lemma_key_index_unique,
    lemma_push_preserves_unique, lemma_surviving_exact, lemma_surviving_idempotent,
    lemma_without_key_exact, KeyedRow,
};

verus! {

/// Round trip: inserting a voucher under a fresh GUID and then looking
/// that GUID up returns exactly the inserted bytes.
pub proof fn lemma_insert_then_get(s: StoreView, ov: NewOwnershipVoucherModel)
    requires
        s.wf(),
        !contains_key(s.ownership_voucher, ov.guid@),
    ensures
        s.insert_voucher(voucher_row(ov)).lookup_contents(ov.guid@) == Some(ov.contents@),
{
    let rows = s.insert_voucher(voucher_row(ov)).ownership_voucher;
    assert(rows[rows.len() - 1] == voucher_row(ov));
    assert(rows[rows.len() - 1].key() == ov.guid@);
    assert(contains_key(rows, ov.guid@));
    lemma_push_preserves_unique(s.ownership_voucher, voucher_row(ov));
    lemma_key_index_unique(rows, ov.guid@, rows.len() - 1);
}

/// Cascade scoping: deleting canonical GUID `g` removes, in the canonical
/// table and in every role table, exactly the rows keyed by `g`; rows with
/// any other GUID are kept, and no row appears that was not there before.
pub proof fn lemma_cascade_scoping(s: StoreView, g: Seq<char>)
    ensures
        exact_deletion(s.ownership_voucher, s.delete_voucher(g).ownership_voucher, g),
        exact_deletion(s.manufacturer_vouchers, s.delete_voucher(g).manufacturer_vouchers, g),
        exact_deletion(s.owner_vouchers, s.delete_voucher(g).owner_vouchers, g),
        exact_deletion(s.rendezvous_vouchers, s.delete_voucher(g).rendezvous_vouchers, g),
{
    lemma_without_key_exact(s.ownership_voucher, g);
    lemma_without_key_exact(s.manufacturer_vouchers, g);
    lemma_without_key_exact(s.owner_vouchers, g);
    lemma_without_key_exact(s.rendezvous_vouchers, g);
}

/// A role delete touches only its own table: the canonical table and the
/// two other role tables are exactly those of the original state.
pub proof fn lemma_role_delete_scoping(s: StoreView, g: Seq<char>)
    ensures
        s.delete_rendezvous(g).ownership_voucher == s.ownership_voucher,
        s.delete_rendezvous(g).manufacturer_vouchers == s.manufacturer_vouchers,
        s.delete_rendezvous(g).owner_vouchers == s.owner_vouchers,
        s.delete_owner(g).ownership_voucher == s.ownership_voucher,
        s.delete_owner(g).manufacturer_vouchers == s.manufacturer_vouchers,
        s.delete_owner(g).rendezvous_vouchers == s.rendezvous_vouchers,
        s.delete_manufacturer(g).ownership_voucher == s.ownership_voucher,
        s.delete_manufacturer(g).owner_vouchers == s.owner_vouchers,
        s.delete_manufacturer(g).rendezvous_vouchers == s.rendezvous_vouchers,
{
}

/// Expiry correctness: a sweep removes exactly the rows whose ttl is
/// non-null and at most the threshold, in the manufacturer and rendezvous
/// tables, and touches no other table.
pub proof fn lemma_expiry_exact(s: StoreView, threshold: i64)
    ensures
        exact_expiry(
            s.manufacturer_vouchers,
            s.sweep_manufacturer(threshold).manufacturer_vouchers,
            threshold,
        ),
        exact_expiry(
            s.rendezvous_vouchers,
            s.sweep_rendezvous(threshold).rendezvous_vouchers,
            threshold,
        ),
        s.sweep_manufacturer(threshold).ownership_voucher == s.ownership_voucher,
        s.sweep_manufacturer(threshold).owner_vouchers == s.owner_vouchers,
        s.sweep_manufacturer(threshold).rendezvous_vouchers == s.rendezvous_vouchers,
        s.sweep_rendezvous(threshold).ownership_voucher == s.ownership_voucher,
        s.sweep_rendezvous(threshold).owner_vouchers == s.owner_vouchers,
        s.sweep_rendezvous(threshold).manufacturer_vouchers == s.manufacturer_vouchers,
{
    lemma_surviving_exact(s.manufacturer_vouchers, threshold);
    lemma_surviving_exact(s.rendezvous_vouchers, threshold);
}

/// Expiry idempotence: repeating a sweep with the same threshold changes
/// nothing further.
pub proof fn lemma_expiry_idempotent(s: StoreView, threshold: i64)
    ensures
        s.sweep_manufacturer(threshold).sweep_manufacturer(threshold) == s.sweep_manufacturer(
            threshold,
        ),
        s.sweep_rendezvous(threshold).sweep_rendezvous(threshold) == s.sweep_rendezvous(
            threshold,
        ),
{
    lemma_surviving_idempotent(s.manufacturer_vouchers, threshold);
    lemma_surviving_idempotent(s.rendezvous_vouchers, threshold);
    assert(s.sweep_manufacturer(threshold).sweep_manufacturer(threshold) =~= s.sweep_manufacturer(
        threshold,
    ));
    assert(s.sweep_rendezvous(threshold).sweep_rendezvous(threshold) =~= s.sweep_rendezvous(
        threshold,
    ));
}

} // verus!
