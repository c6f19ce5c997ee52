//! The voucher store: a canonical voucher table and one reference table per
//! server role, with referential integrity, cascading deletion, typed
//! metadata updates and ttl-based expiry.

use vstd::prelude::*;

use crate::errors::StoreError;
use crate::models::{
    ManufacturerOV, MetadataKey, MetadataValue, NewOwnershipVoucherModel, OwnerOV,
    OwnershipVoucherModel, RendezvousOV,
};
use crate::models::key_accepts;
use crate::table::{
    contains_key, contains_key_exec, find_key, keys_subset, remove_by_key, row_at, surviving,
    sweep_expired, unique_keys, without_key, KeyedRow,
};
use crate::table::{
    lemma_key_index_unique, lemma_push_preserves_subset, lemma_push_preserves_unique,
    lemma_subset_push_owner, lemma_surviving_preserves_subset, lemma_surviving_preserves_unique,
    lemma_without_key_preserves_subset, lemma_without_key_preserves_unique,
    lemma_without_key_subset_same_owners,
};

verus! {

/// The mathematical state of the store: one sequence of rows per table.
#[verifier::ext_equal]
pub struct StoreView {
    /// The canonical voucher table.
    pub ownership_voucher: Seq<OwnershipVoucherModel>,
    /// The manufacturer reference table.
    pub manufacturer_vouchers: Seq<ManufacturerOV>,
    /// The owner reference table.
    pub owner_vouchers: Seq<OwnerOV>,
    /// The rendezvous reference table.
    pub rendezvous_vouchers: Seq<RendezvousOV>,
}

impl StoreView {
    /// The state with no rows in any table.
    pub open spec fn empty() -> Self {
        StoreView {
            ownership_voucher: Seq::empty(),
            manufacturer_vouchers: Seq::empty(),
            owner_vouchers: Seq::empty(),
            rendezvous_vouchers: Seq::empty(),
        }
    }

    /// Well-formedness: every table is keyed uniquely by GUID, and every
    /// role row references an existing canonical voucher.
    pub open spec fn wf(self) -> bool {
        &&& unique_keys(self.ownership_voucher)
        &&& unique_keys(self.manufacturer_vouchers)
        &&& unique_keys(self.owner_vouchers)
        &&& unique_keys(self.rendezvous_vouchers)
        &&& keys_subset(self.manufacturer_vouchers, self.ownership_voucher)
        &&& keys_subset(self.owner_vouchers, self.ownership_voucher)
        &&& keys_subset(self.rendezvous_vouchers, self.ownership_voucher)
    }

    /// The state after inserting a canonical voucher row.
    pub open spec fn insert_voucher(self, row: OwnershipVoucherModel) -> Self {
        StoreView { ownership_voucher: self.ownership_voucher.push(row), ..self }
    }

    /// The state after inserting a manufacturer reference row.
    pub open spec fn insert_manufacturer(self, row: ManufacturerOV) -> Self {
        StoreView { manufacturer_vouchers: self.manufacturer_vouchers.push(row), ..self }
    }

    /// The state after inserting an owner reference row.
    pub open spec fn insert_owner(self, row: OwnerOV) -> Self {
        StoreView { owner_vouchers: self.owner_vouchers.push(row), ..self }
    }

    /// The state after inserting a rendezvous reference row.
    pub open spec fn insert_rendezvous(self, row: RendezvousOV) -> Self {
        StoreView { rendezvous_vouchers: self.rendezvous_vouchers.push(row), ..self }
    }

    /// The state after deleting the canonical voucher with key `g`:
    /// the cascade removes every role row referencing `g` as well.
    pub open spec fn delete_voucher(self, g: Seq<char>) -> Self {
        StoreView {
            ownership_voucher: without_key(self.ownership_voucher, g),
            manufacturer_vouchers: without_key(self.manufacturer_vouchers, g),
            owner_vouchers: without_key(self.owner_vouchers, g),
            rendezvous_vouchers: without_key(self.rendezvous_vouchers, g),
        }
    }

    /// The state after deleting only the manufacturer reference with key `g`.
    pub open spec fn delete_manufacturer(self, g: Seq<char>) -> Self {
        StoreView { manufacturer_vouchers: without_key(self.manufacturer_vouchers, g), ..self }
    }

    /// The state after deleting only the owner reference with key `g`.
    pub open spec fn delete_owner(self, g: Seq<char>) -> Self {
        StoreView { owner_vouchers: without_key(self.owner_vouchers, g), ..self }
    }

    /// The state after deleting only the rendezvous reference with key `g`.
    pub open spec fn delete_rendezvous(self, g: Seq<char>) -> Self {
        StoreView { rendezvous_vouchers: without_key(self.rendezvous_vouchers, g), ..self }
    }

    /// The state after sweeping expired manufacturer references.
    pub open spec fn sweep_manufacturer(self, threshold: i64) -> Self {
        StoreView {
            manufacturer_vouchers: surviving(self.manufacturer_vouchers, threshold),
            ..self
        }
    }

    /// The state after sweeping expired rendezvous references.
    pub open spec fn sweep_rendezvous(self, threshold: i64) -> Self {
        StoreView {
            rendezvous_vouchers: surviving(self.rendezvous_vouchers, threshold),
            ..self
        }
    }

    /// The state after setting `to2_performed` on the owner reference with
    /// key `g`; rows with other keys are untouched.
    pub open spec fn set_owner_to2(self, g: Seq<char>, value: bool) -> Self {
        StoreView {
            owner_vouchers: self.owner_vouchers.map_values(
                |r: OwnerOV|
                    if r.ov_guid@ == g {
                        OwnerOV {
                            ov_guid: r.ov_guid,
                            to2_performed: Some(value),
                            to0_accept_owner_wait_seconds: r.to0_accept_owner_wait_seconds,
                        }
                    } else {
                        r
                    },
            ),
            ..self
        }
    }

    /// The state after setting `to0_accept_owner_wait_seconds` on the owner
    /// reference with key `g`; rows with other keys are untouched.
    pub open spec fn set_owner_to0(self, g: Seq<char>, value: i64) -> Self {
        StoreView {
            owner_vouchers: self.owner_vouchers.map_values(
                |r: OwnerOV|
                    if r.ov_guid@ == g {
                        OwnerOV {
                            ov_guid: r.ov_guid,
                            to2_performed: r.to2_performed,
                            to0_accept_owner_wait_seconds: Some(value),
                        }
                    } else {
                        r
                    },
            ),
            ..self
        }
    }

    /// The state after setting `ttl` on the rendezvous reference with key
    /// `g`; rows with other keys are untouched.
    pub open spec fn set_rendezvous_ttl(self, g: Seq<char>, value: i64) -> Self {
        StoreView {
            rendezvous_vouchers: self.rendezvous_vouchers.map_values(
                |r: RendezvousOV|
                    if r.ov_guid@ == g {
                        RendezvousOV { ov_guid: r.ov_guid, ttl: Some(value) }
                    } else {
                        r
                    },
            ),
            ..self
        }
    }

    /// The bytes stored for the canonical voucher with key `g`, if any.
    pub open spec fn lookup_contents(self, g: Seq<char>) -> Option<Seq<u8>> {
        if contains_key(self.ownership_voucher, g) {
            Some(row_at(self.ownership_voucher, g).contents@)
        } else {
            None
        }
    }
}

/// The executable store.  The four tables are vectors of rows; the view is
/// a `StoreView` over the same rows.
pub struct VoucherStore {
    ownership_voucher: Vec<OwnershipVoucherModel>,
    manufacturer_vouchers: Vec<ManufacturerOV>,
    owner_vouchers: Vec<OwnerOV>,
    rendezvous_vouchers: Vec<RendezvousOV>,
}

impl View for VoucherStore {
    type V = StoreView;

    closed spec fn view(&self) -> StoreView {
        StoreView {
            ownership_voucher: self.ownership_voucher@,
            manufacturer_vouchers: self.manufacturer_vouchers@,
            owner_vouchers: self.owner_vouchers@,
            rendezvous_vouchers: self.rendezvous_vouchers@,
        }
    }
}

impl VoucherStore {
    /// Well-formedness of the store's current state.
    pub open spec fn wf(&self) -> bool {
        self@.wf()
    }

    /// An empty store.
    pub fn new() -> (s: Self)
        ensures
            s@ == StoreView::empty(),
            s.wf(),
    {
        let s = VoucherStore {
            ownership_voucher: Vec::new(),
            manufacturer_vouchers: Vec::new(),
            owner_vouchers: Vec::new(),
            rendezvous_vouchers: Vec::new(),
        };
        proof {
            assert(s@ =~= StoreView::empty());
        }
        s
    }

    /// How many canonical vouchers are stored.
    pub fn count_ov(&self) -> (n: usize)
        ensures
            n == self@.ownership_voucher.len(),
    {
        self.ownership_voucher.len()
    }

    /// How many manufacturer references are stored.
    pub fn count_manufacturer(&self) -> (n: usize)
        ensures
            n == self@.manufacturer_vouchers.len(),
    {
        self.manufacturer_vouchers.len()
    }

    /// How many owner references are stored.
    pub fn count_owner(&self) -> (n: usize)
        ensures
            n == self@.owner_vouchers.len(),
    {
        self.owner_vouchers.len()
    }

    /// How many rendezvous references are stored.
    pub fn count_rendezvous(&self) -> (n: usize)
        ensures
            n == self@.rendezvous_vouchers.len(),
    {
        self.rendezvous_vouchers.len()
    }

    /// Inserts a canonical voucher; fails with `DuplicateKey` when a
    /// voucher with the same GUID is already stored, and stores exactly the
    /// given row otherwise.
    pub fn insert_ov(&mut self, ov: NewOwnershipVoucherModel) -> (r: Result<(), StoreError>)
        requires
            old(self).wf(),
        ensures
            final(self).wf(),
            r is Ok <==> !contains_key(old(self)@.ownership_voucher, ov.guid@),
            r is Ok ==> final(self)@ == old(self)@.insert_voucher(voucher_row(ov)),
            r is Err ==> r == Err::<(), StoreError>(StoreError::DuplicateKey)
                && final(self)@ == old(self)@,
    {
        if contains_key_exec(&self.ownership_voucher, &ov.guid) {
            return Err(StoreError::DuplicateKey);
        }
        let row = OwnershipVoucherModel { guid: ov.guid, contents: ov.contents };
        proof {
            let rows = self@.ownership_voucher;
            lemma_push_preserves_unique(rows, row);
            lemma_subset_push_owner(self@.manufacturer_vouchers, rows, row);
            lemma_subset_push_owner(self@.owner_vouchers, rows, row);
            lemma_subset_push_owner(self@.rendezvous_vouchers, rows, row);
        }
        self.ownership_voucher.push(row);
        proof {
            assert(self@ =~= old(self)@.insert_voucher(row));
        }
        Ok(())
    }

    /// Looks up the canonical voucher with this GUID; fails with `NotFound`
    /// when absent, and returns the stored GUID and bytes otherwise.
    pub fn get_ov_model(&self, guid: &String) -> (r: Result<OwnershipVoucherModel, StoreError>)
        requires
            self.wf(),
        ensures
            r is Ok <==> contains_key(self@.ownership_voucher, guid@),
            r matches Ok(m) ==> m.guid@ == guid@
                && Some(m.contents@) == self@.lookup_contents(guid@),
            r matches Err(e) ==> e == StoreError::NotFound,
    {
        match find_key(&self.ownership_voucher, guid) {
            Some(i) => {
                let m = self.ownership_voucher[i].clone_row();
                proof {
                    assert(contains_key(self@.ownership_voucher, guid@));
                    lemma_key_index_unique(self@.ownership_voucher, guid@, i as int);
                }
                Ok(m)
            }
            None => Err(StoreError::NotFound),
        }
    }

    /// Deletes the canonical voucher with this GUID and, through the
    /// cascade, every role row referencing it; a no-op when the GUID is
    /// absent.  Reports how many canonical rows went (one or zero) —
    /// callers that care whether the voucher existed inspect the count.
    pub fn delete_ov(&mut self, guid: &String) -> (n: usize)
        requires
            old(self).wf(),
        ensures
            final(self).wf(),
            final(self)@ == old(self)@.delete_voucher(guid@),
            n == if contains_key(old(self)@.ownership_voucher, guid@) { 1int } else { 0int },
    {
        let n = remove_by_key(&mut self.ownership_voucher, guid);
        let _ = remove_by_key(&mut self.manufacturer_vouchers, guid);
        let _ = remove_by_key(&mut self.owner_vouchers, guid);
        let _ = remove_by_key(&mut self.rendezvous_vouchers, guid);
        proof {
            let o = old(self)@;
            lemma_without_key_preserves_unique(o.ownership_voucher, guid@);
            lemma_without_key_preserves_unique(o.manufacturer_vouchers, guid@);
            lemma_without_key_preserves_unique(o.owner_vouchers, guid@);
            lemma_without_key_preserves_unique(o.rendezvous_vouchers, guid@);
            lemma_without_key_preserves_subset(o.manufacturer_vouchers, o.ownership_voucher, guid@);
            lemma_without_key_preserves_subset(o.owner_vouchers, o.ownership_voucher, guid@);
            lemma_without_key_preserves_subset(o.rendezvous_vouchers, o.ownership_voucher, guid@);
            assert(self@ =~= o.delete_voucher(guid@));
        }
        n
    }
    /// Inserts a manufacturer reference for this GUID; fails with
    /// `ForeignKeyViolation` when no canonical voucher has the GUID, with
    /// `DuplicateKey` when a manufacturer reference for it already exists,
    /// and creates exactly one row otherwise.
    pub fn insert_ov_ref_manufacturer(&mut self, guid: &String, ttl: Option<i64>) -> (r: Result<
        (),
        StoreError,
    >)
        requires
            old(self).wf(),
        ensures
            final(self).wf(),
            r is Ok <==> (contains_key(old(self)@.ownership_voucher, guid@) && !contains_key(
                old(self)@.manufacturer_vouchers,
                guid@,
            )),
            r is Ok ==> final(self)@ == old(self)@.insert_manufacturer(
                manufacturer_row(*guid, ttl),
            ),
            !contains_key(old(self)@.ownership_voucher, guid@) ==> r == Err::<(), StoreError>(
                StoreError::ForeignKeyViolation,
            ),
            contains_key(old(self)@.ownership_voucher, guid@) && contains_key(
                old(self)@.manufacturer_vouchers,
                guid@,
            ) ==> r == Err::<(), StoreError>(StoreError::DuplicateKey),
            r is Err ==> final(self)@ == old(self)@,
    {
        if !contains_key_exec(&self.ownership_voucher, guid) {
            return Err(StoreError::ForeignKeyViolation);
        }
        if contains_key_exec(&self.manufacturer_vouchers, guid) {
            return Err(StoreError::DuplicateKey);
        }
        let row = ManufacturerOV { ov_guid: guid.clone(), ttl };
        proof {
            lemma_push_preserves_unique(self@.manufacturer_vouchers, row);
            lemma_push_preserves_subset(
                self@.manufacturer_vouchers,
                self@.ownership_voucher,
                row,
            );
        }
        self.manufacturer_vouchers.push(row);
        proof {
            assert(self@ =~= old(self)@.insert_manufacturer(manufacturer_row(*guid, ttl)));
        }
        Ok(())
    }

    /// Inserts an owner reference for this GUID; fails with
    /// `ForeignKeyViolation` when no canonical voucher has the GUID, with
    /// `DuplicateKey` when an owner reference for it already exists, and
    /// creates exactly one row otherwise.
    pub fn insert_ov_ref_owner(
        &mut self,
        guid: &String,
        to2: Option<bool>,
        to0: Option<i64>,
    ) -> (r: Result<(), StoreError>)
        requires
            old(self).wf(),
        ensures
            final(self).wf(),
            r is Ok <==> (contains_key(old(self)@.ownership_voucher, guid@) && !contains_key(
                old(self)@.owner_vouchers,
                guid@,
            )),
            r is Ok ==> final(self)@ == old(self)@.insert_owner(owner_row(*guid, to2, to0)),
            !contains_key(old(self)@.ownership_voucher, guid@) ==> r == Err::<(), StoreError>(
                StoreError::ForeignKeyViolation,
            ),
            contains_key(old(self)@.ownership_voucher, guid@) && contains_key(
                old(self)@.owner_vouchers,
                guid@,
            ) ==> r == Err::<(), StoreError>(StoreError::DuplicateKey),
            r is Err ==> final(self)@ == old(self)@,
    {
        if !contains_key_exec(&self.ownership_voucher, guid) {
            return Err(StoreError::ForeignKeyViolation);
        }
        if contains_key_exec(&self.owner_vouchers, guid) {
            return Err(StoreError::DuplicateKey);
        }
        let row = OwnerOV {
            ov_guid: guid.clone(),
            to2_performed: to2,
            to0_accept_owner_wait_seconds: to0,
        };
        proof {
            lemma_push_preserves_unique(self@.owner_vouchers, row);
            lemma_push_preserves_subset(self@.owner_vouchers, self@.ownership_voucher, row);
        }
        self.owner_vouchers.push(row);
        proof {
            assert(self@ =~= old(self)@.insert_owner(owner_row(*guid, to2, to0)));
        }
        Ok(())
    }

    /// Inserts a rendezvous reference for this GUID; fails with
    /// `ForeignKeyViolation` when no canonical voucher has the GUID, with
    /// `DuplicateKey` when a rendezvous reference for it already exists,
    /// and creates exactly one row otherwise.
    pub fn insert_ov_ref_rv(&mut self, guid: &String, ttl: Option<i64>) -> (r: Result<
        (),
        StoreError,
    >)
        requires
            old(self).wf(),
        ensures
            final(self).wf(),
            r is Ok <==> (contains_key(old(self)@.ownership_voucher, guid@) && !contains_key(
                old(self)@.rendezvous_vouchers,
                guid@,
            )),
            r is Ok ==> final(self)@ == old(self)@.insert_rendezvous(rendezvous_row(*guid, ttl)),
            !contains_key(old(self)@.ownership_voucher, guid@) ==> r == Err::<(), StoreError>(
                StoreError::ForeignKeyViolation,
            ),
            contains_key(old(self)@.ownership_voucher, guid@) && contains_key(
                old(self)@.rendezvous_vouchers,
                guid@,
            ) ==> r == Err::<(), StoreError>(StoreError::DuplicateKey),
            r is Err ==> final(self)@ == old(self)@,
    {
        if !contains_key_exec(&self.ownership_voucher, guid) {
            return Err(StoreError::ForeignKeyViolation);
        }
        if contains_key_exec(&self.rendezvous_vouchers, guid) {
            return Err(StoreError::DuplicateKey);
        }
        let row = RendezvousOV { ov_guid: guid.clone(), ttl };
        proof {
            lemma_push_preserves_unique(self@.rendezvous_vouchers, row);
            lemma_push_preserves_subset(self@.rendezvous_vouchers, self@.ownership_voucher, row);
        }
        self.rendezvous_vouchers.push(row);
        proof {
            assert(self@ =~= old(self)@.insert_rendezvous(rendezvous_row(*guid, ttl)));
        }
        Ok(())
    }

    /// Deletes only the manufacturer reference with this GUID; the
    /// canonical voucher and the other roles' rows are untouched.  Reports
    /// the affected-row count.
    pub fn delete_ov_manufacturer(&mut self, guid: &String) -> (n: usize)
        requires
            old(self).wf(),
        ensures
            final(self).wf(),
            final(self)@ == old(self)@.delete_manufacturer(guid@),
            n == if contains_key(old(self)@.manufacturer_vouchers, guid@) { 1int } else { 0int },
    {
        let n = remove_by_key(&mut self.manufacturer_vouchers, guid);
        proof {
            let o = old(self)@;
            lemma_without_key_preserves_unique(o.manufacturer_vouchers, guid@);
            lemma_without_key_subset_same_owners(
                o.manufacturer_vouchers,
                o.ownership_voucher,
                guid@,
            );
            assert(self@ =~= o.delete_manufacturer(guid@));
        }
        n
    }

    /// Deletes only the owner reference with this GUID; the canonical
    /// voucher and the other roles' rows are untouched.  Reports the
    /// affected-row count.
    pub fn delete_ov_owner(&mut self, guid: &String) -> (n: usize)
        requires
            old(self).wf(),
        ensures
            final(self).wf(),
            final(self)@ == old(self)@.delete_owner(guid@),
            n == if contains_key(old(self)@.owner_vouchers, guid@) { 1int } else { 0int },
    {
        let n = remove_by_key(&mut self.owner_vouchers, guid);
        proof {
            let o = old(self)@;
            lemma_without_key_preserves_unique(o.owner_vouchers, guid@);
            lemma_without_key_subset_same_owners(o.owner_vouchers, o.ownership_voucher, guid@);
            assert(self@ =~= o.delete_owner(guid@));
        }
        n
    }

    /// Deletes only the rendezvous reference with this GUID; the canonical
    /// voucher and the other roles' rows are untouched.  Reports the
    /// affected-row count.
    pub fn delete_ov_rv(&mut self, guid: &String) -> (n: usize)
        requires
            old(self).wf(),
        ensures
            final(self).wf(),
            final(self)@ == old(self)@.delete_rendezvous(guid@),
            n == if contains_key(old(self)@.rendezvous_vouchers, guid@) { 1int } else { 0int },
    {
        let n = remove_by_key(&mut self.rendezvous_vouchers, guid);
        proof {
            let o = old(self)@;
            lemma_without_key_preserves_unique(o.rendezvous_vouchers, guid@);
            lemma_without_key_subset_same_owners(
                o.rendezvous_vouchers,
                o.ownership_voucher,
                guid@,
            );
            assert(self@ =~= o.delete_rendezvous(guid@));
        }
        n
    }
    /// Sets `to2_performed` for the owner reference with this GUID to the
    /// given value; affects zero rows when the GUID is absent, and exactly
    /// that row's column otherwise.  Reports the affected-row count.
    #[allow(non_snake_case)]
    pub fn update_ov_tO2_metadata_owner(&mut self, guid: &String, value: &bool) -> (n: usize)
        requires
            old(self).wf(),
        ensures
            final(self).wf(),
            final(self)@ == old(self)@.set_owner_to2(guid@, *value),
            n == if contains_key(old(self)@.owner_vouchers, guid@) { 1int } else { 0int },
            !contains_key(old(self)@.owner_vouchers, guid@) ==> final(self)@ == old(self)@,
    {
        match find_key(&self.owner_vouchers, guid) {
            Some(i) => {
                let to0 = self.owner_vouchers[i].to0_accept_owner_wait_seconds;
                let g = self.owner_vouchers[i].ov_guid.clone();
                let row = OwnerOV {
                    ov_guid: g,
                    to2_performed: Some(*value),
                    to0_accept_owner_wait_seconds: to0,
                };
                self.owner_vouchers.set(i, row);
                proof {
                    let o = old(self)@;
                    assert(contains_key(o.owner_vouchers, guid@));
                    assert forall|j: int| 0 <= j < o.owner_vouchers.len() && j != i as int
                        implies o.owner_vouchers[j].ov_guid@ != guid@ by {
                        if j < i as int {
                            assert(o.owner_vouchers[j].key() != o.owner_vouchers[i as int].key());
                        } else {
                            assert(o.owner_vouchers[i as int].key() != o.owner_vouchers[j].key());
                        }
                    }
                    assert(self@.owner_vouchers =~= o.set_owner_to2(guid@, *value).owner_vouchers);
                    assert(self@ =~= o.set_owner_to2(guid@, *value));
                    lemma_updated_owner_wf(o, self@);
                }
                1
            }
            None => {
                proof {
                    let o = old(self)@;
                    assert(o.set_owner_to2(guid@, *value).owner_vouchers =~= o.owner_vouchers);
                    assert(o.set_owner_to2(guid@, *value) =~= o);
                }
                0
            }
        }
    }

    /// Sets `to0_accept_owner_wait_seconds` for the owner reference with
    /// this GUID to the given value; affects zero rows when the GUID is
    /// absent, and exactly that row's column otherwise.  Reports the
    /// affected-row count.
    #[allow(non_snake_case)]
    pub fn update_ov_tO0_metadata_owner(&mut self, guid: &String, value: &i64) -> (n: usize)
        requires
            old(self).wf(),
        ensures
            final(self).wf(),
            final(self)@ == old(self)@.set_owner_to0(guid@, *value),
            n == if contains_key(old(self)@.owner_vouchers, guid@) { 1int } else { 0int },
            !contains_key(old(self)@.owner_vouchers, guid@) ==> final(self)@ == old(self)@,
    {
        match find_key(&self.owner_vouchers, guid) {
            Some(i) => {
                let to2 = self.owner_vouchers[i].to2_performed;
                let g = self.owner_vouchers[i].ov_guid.clone();
                let row = OwnerOV {
                    ov_guid: g,
                    to2_performed: to2,
                    to0_accept_owner_wait_seconds: Some(*value),
                };
                self.owner_vouchers.set(i, row);
                proof {
                    let o = old(self)@;
                    assert(contains_key(o.owner_vouchers, guid@));
                    assert forall|j: int| 0 <= j < o.owner_vouchers.len() && j != i as int
                        implies o.owner_vouchers[j].ov_guid@ != guid@ by {
                        if j < i as int {
                            assert(o.owner_vouchers[j].key() != o.owner_vouchers[i as int].key());
                        } else {
                            assert(o.owner_vouchers[i as int].key() != o.owner_vouchers[j].key());
                        }
                    }
                    assert(self@.owner_vouchers =~= o.set_owner_to0(guid@, *value).owner_vouchers);
                    assert(self@ =~= o.set_owner_to0(guid@, *value));
                    lemma_updated_owner_wf(o, self@);
                }
                1
            }
            None => {
                proof {
                    let o = old(self)@;
                    assert(o.set_owner_to0(guid@, *value).owner_vouchers =~= o.owner_vouchers);
                    assert(o.set_owner_to0(guid@, *value) =~= o);
                }
                0
            }
        }
    }

    /// Sets `ttl` for the rendezvous reference with this GUID to the given
    /// value; affects zero rows when the GUID is absent, and exactly that
    /// row's column otherwise.  Reports the affected-row count.
    pub fn update_ov_ttl_metadata_rv(&mut self, guid: &String, value: &i64) -> (n: usize)
        requires
            old(self).wf(),
        ensures
            final(self).wf(),
            final(self)@ == old(self)@.set_rendezvous_ttl(guid@, *value),
            n == if contains_key(old(self)@.rendezvous_vouchers, guid@) { 1int } else { 0int },
            !contains_key(old(self)@.rendezvous_vouchers, guid@) ==> final(self)@ == old(self)@,
    {
        match find_key(&self.rendezvous_vouchers, guid) {
            Some(i) => {
                let g = self.rendezvous_vouchers[i].ov_guid.clone();
                let row = RendezvousOV { ov_guid: g, ttl: Some(*value) };
                self.rendezvous_vouchers.set(i, row);
                proof {
                    let o = old(self)@;
                    assert(contains_key(o.rendezvous_vouchers, guid@));
                    assert forall|j: int| 0 <= j < o.rendezvous_vouchers.len() && j != i as int
                        implies o.rendezvous_vouchers[j].ov_guid@ != guid@ by {
                        if j < i as int {
                            assert(o.rendezvous_vouchers[j].key()
                                != o.rendezvous_vouchers[i as int].key());
                        } else {
                            assert(o.rendezvous_vouchers[i as int].key()
                                != o.rendezvous_vouchers[j].key());
                        }
                    }
                    assert(self@.rendezvous_vouchers =~= o.set_rendezvous_ttl(
                        guid@,
                        *value,
                    ).rendezvous_vouchers);
                    assert(self@ =~= o.set_rendezvous_ttl(guid@, *value));
                    lemma_updated_rendezvous_wf(o, self@);
                }
                1
            }
            None => {
                proof {
                    let o = old(self)@;
                    assert(o.set_rendezvous_ttl(guid@, *value).rendezvous_vouchers
                        =~= o.rendezvous_vouchers);
                    assert(o.set_rendezvous_ttl(guid@, *value) =~= o);
                }
                0
            }
        }
    }

    /// Deletes every manufacturer reference whose ttl is non-null and at
    /// most the threshold; rows with a null ttl never expire.  Repeating
    /// the sweep with the same threshold deletes nothing further.  Reports
    /// the affected-row count.
    pub fn delete_ov_ttl_le_manufacturer(&mut self, ttl: i64) -> (n: usize)
        requires
            old(self).wf(),
        ensures
            final(self).wf(),
            final(self)@ == old(self)@.sweep_manufacturer(ttl),
            n == old(self)@.manufacturer_vouchers.len()
                - final(self)@.manufacturer_vouchers.len(),
    {
        let n = sweep_expired(&mut self.manufacturer_vouchers, ttl);
        proof {
            let o = old(self)@;
            lemma_surviving_preserves_unique(o.manufacturer_vouchers, ttl);
            lemma_surviving_preserves_subset(o.manufacturer_vouchers, o.ownership_voucher, ttl);
            assert(self@ =~= o.sweep_manufacturer(ttl));
        }
        n
    }

    /// Deletes every rendezvous reference whose ttl is non-null and at
    /// most the threshold; rows with a null ttl never expire.  Repeating
    /// the sweep with the same threshold deletes nothing further.  Reports
    /// the affected-row count.
    pub fn delete_ov_ttl_le_rv(&mut self, ttl: i64) -> (n: usize)
        requires
            old(self).wf(),
        ensures
            final(self).wf(),
            final(self)@ == old(self)@.sweep_rendezvous(ttl),
            n == old(self)@.rendezvous_vouchers.len() - final(self)@.rendezvous_vouchers.len(),
    {
        let n = sweep_expired(&mut self.rendezvous_vouchers, ttl);
        proof {
            let o = old(self)@;
            lemma_surviving_preserves_unique(o.rendezvous_vouchers, ttl);
            lemma_surviving_preserves_subset(o.rendezvous_vouchers, o.ownership_voucher, ttl);
            assert(self@ =~= o.sweep_rendezvous(ttl));
        }
        n
    }

    /// Returns every owner reference whose `to2_performed` equals the
    /// flag, in table order.
    pub fn select_ov_to2_performed(&self, to2_performed: bool) -> (r: Vec<OwnerOV>)
        ensures
            r@ == selected_to2(self@.owner_vouchers, to2_performed),
    {
        let rows = &self.owner_vouchers;
        let mut result: Vec<OwnerOV> = Vec::new();
        let mut i: usize = 0;
        while i < rows.len()
            invariant
                i <= rows@.len(),
                result@ == selected_to2(rows@.take(i as int), to2_performed),
            decreases rows@.len() - i,
        {
            proof {
                assert(rows@.take(i + 1).drop_last() =~= rows@.take(i as int));
                assert(rows@.take(i + 1).last() == rows@[i as int]);
            }
            let hit = match rows[i].to2_performed {
                Some(b) => b == to2_performed,
                None => false,
            };
            if hit {
                result.push(rows[i].clone_row());
            }
            i = i + 1;
        }
        proof {
            assert(rows@.take(rows@.len() as int) =~= rows@);
        }
        result
    }

    /// Returns every owner reference whose `to0_accept_owner_wait_seconds`
    /// is set and strictly less than the maximum, in table order.
    pub fn select_ov_to0_less_than(&self, to0_max: i64) -> (r: Vec<OwnerOV>)
        ensures
            r@ == selected_to0_less(self@.owner_vouchers, to0_max),
    {
        let rows = &self.owner_vouchers;
        let mut result: Vec<OwnerOV> = Vec::new();
        let mut i: usize = 0;
        while i < rows.len()
            invariant
                i <= rows@.len(),
                result@ == selected_to0_less(rows@.take(i as int), to0_max),
            decreases rows@.len() - i,
        {
            proof {
                assert(rows@.take(i + 1).drop_last() =~= rows@.take(i as int));
                assert(rows@.take(i + 1).last() == rows@[i as int]);
            }
            let hit = match rows[i].to0_accept_owner_wait_seconds {
                Some(v) => v < to0_max,
                None => false,
            };
            if hit {
                result.push(rows[i].clone_row());
            }
            i = i + 1;
        }
        proof {
            assert(rows@.take(rows@.len() as int) =~= rows@);
        }
        result
    }

    /// Updates one metadata column for one GUID, dispatching on the key:
    /// `To2Performed` and `To0AcceptOwnerWaitSeconds` go to the owner
    /// table, `Ttl` to the rendezvous table.  Fails with `TypeMismatch`,
    /// changing nothing, when the value's type does not match the key's
    /// declared type; fails with `NotFound`, changing nothing, when the
    /// target table has no row for the GUID; otherwise updates exactly
    /// that row's column.
    pub fn update_ov_metadata(
        &mut self,
        guid: &String,
        key: MetadataKey,
        value: MetadataValue,
    ) -> (r: Result<(), StoreError>)
        requires
            old(self).wf(),
        ensures
            final(self).wf(),
            !key_accepts(key, value) ==> r == Err::<(), StoreError>(StoreError::TypeMismatch)
                && final(self)@ == old(self)@,
            ({
                match (key, value) {
                    (MetadataKey::To2Performed, MetadataValue::Flag(b)) => {
                        if contains_key(old(self)@.owner_vouchers, guid@) {
                            r == Ok::<(), StoreError>(()) && final(self)@
                                == old(self)@.set_owner_to2(guid@, b)
                        } else {
                            r == Err::<(), StoreError>(StoreError::NotFound) && final(self)@
                                == old(self)@
                        }
                    }
                    (MetadataKey::To0AcceptOwnerWaitSeconds, MetadataValue::Seconds(v)) => {
                        if contains_key(old(self)@.owner_vouchers, guid@) {
                            r == Ok::<(), StoreError>(()) && final(self)@
                                == old(self)@.set_owner_to0(guid@, v)
                        } else {
                            r == Err::<(), StoreError>(StoreError::NotFound) && final(self)@
                                == old(self)@
                        }
                    }
                    (MetadataKey::Ttl, MetadataValue::Seconds(v)) => {
                        if contains_key(old(self)@.rendezvous_vouchers, guid@) {
                            r == Ok::<(), StoreError>(()) && final(self)@
                                == old(self)@.set_rendezvous_ttl(guid@, v)
                        } else {
                            r == Err::<(), StoreError>(StoreError::NotFound) && final(self)@
                                == old(self)@
                        }
                    }
                    _ => {
                        r == Err::<(), StoreError>(StoreError::TypeMismatch) && final(self)@
                            == old(self)@
                    }
                }
            }),
    {
        match (key, value) {
            (MetadataKey::To2Performed, MetadataValue::Flag(b)) => {
                let n = self.update_ov_tO2_metadata_owner(guid, &b);
                if n == 0 {
                    Err(StoreError::NotFound)
                } else {
                    Ok(())
                }
            }
            (MetadataKey::To0AcceptOwnerWaitSeconds, MetadataValue::Seconds(v)) => {
                let n = self.update_ov_tO0_metadata_owner(guid, &v);
                if n == 0 {
                    Err(StoreError::NotFound)
                } else {
                    Ok(())
                }
            }
            (MetadataKey::Ttl, MetadataValue::Seconds(v)) => {
                let n = self.update_ov_ttl_metadata_rv(guid, &v);
                if n == 0 {
                    Err(StoreError::NotFound)
                } else {
                    Ok(())
                }
            }
            _ => Err(StoreError::TypeMismatch),
        }
    }
}

/// The owner rows whose `to2_performed` equals `Some(flag)`, in table
/// order.
pub open spec fn selected_to2(rows: Seq<OwnerOV>, flag: bool) -> Seq<OwnerOV>
    decreases rows.len(),
{
    if rows.len() == 0 {
        Seq::empty()
    } else if rows.last().to2_performed == Some(flag) {
        selected_to2(rows.drop_last(), flag).push(rows.last())
    } else {
        selected_to2(rows.drop_last(), flag)
    }
}

/// The owner rows whose `to0_accept_owner_wait_seconds` is set and
/// strictly less than `max`, in table order.
pub open spec fn selected_to0_less(rows: Seq<OwnerOV>, max: i64) -> Seq<OwnerOV>
    decreases rows.len(),
{
    if rows.len() == 0 {
        Seq::empty()
    } else if rows.last().to0_accept_owner_wait_seconds matches Some(v) && v < max {
        selected_to0_less(rows.drop_last(), max).push(rows.last())
    } else {
        selected_to0_less(rows.drop_last(), max)
    }
}

/// An owner-table update that changes no key keeps the store well-formed.
proof fn lemma_updated_owner_wf(o: StoreView, u: StoreView)
    requires
        o.wf(),
        u.ownership_voucher == o.ownership_voucher,
        u.manufacturer_vouchers == o.manufacturer_vouchers,
        u.rendezvous_vouchers == o.rendezvous_vouchers,
        u.owner_vouchers.len() == o.owner_vouchers.len(),
        forall|j: int| 0 <= j < o.owner_vouchers.len() ==> #[trigger] u.owner_vouchers[j].ov_guid@
            == o.owner_vouchers[j].ov_guid@,
    ensures
        u.wf(),
{
    assert forall|a: int, b: int| 0 <= a < b < u.owner_vouchers.len()
        implies u.owner_vouchers[a].key() != u.owner_vouchers[b].key() by {
        assert(o.owner_vouchers[a].key() != o.owner_vouchers[b].key());
    }
    assert forall|a: int| 0 <= a < u.owner_vouchers.len()
        implies #[trigger] contains_key(u.ownership_voucher, u.owner_vouchers[a].key()) by {
        assert(contains_key(o.ownership_voucher, o.owner_vouchers[a].key()));
    }
}

/// A rendezvous-table update that changes no key keeps the store
/// well-formed.
proof fn lemma_updated_rendezvous_wf(o: StoreView, u: StoreView)
    requires
        o.wf(),
        u.ownership_voucher == o.ownership_voucher,
        u.manufacturer_vouchers == o.manufacturer_vouchers,
        u.owner_vouchers == o.owner_vouchers,
        u.rendezvous_vouchers.len() == o.rendezvous_vouchers.len(),
        forall|j: int| 0 <= j < o.rendezvous_vouchers.len() ==>
            #[trigger] u.rendezvous_vouchers[j].ov_guid@ == o.rendezvous_vouchers[j].ov_guid@,
    ensures
        u.wf(),
{
    assert forall|a: int, b: int| 0 <= a < b < u.rendezvous_vouchers.len()
        implies u.rendezvous_vouchers[a].key() != u.rendezvous_vouchers[b].key() by {
        assert(o.rendezvous_vouchers[a].key() != o.rendezvous_vouchers[b].key());
    }
    assert forall|a: int| 0 <= a < u.rendezvous_vouchers.len()
        implies #[trigger] contains_key(u.ownership_voucher, u.rendezvous_vouchers[a].key()) by {
        assert(contains_key(o.ownership_voucher, o.rendezvous_vouchers[a].key()));
    }
}

/// The canonical row stored for an insert form: same GUID, same bytes.
pub open spec fn voucher_row(ov: NewOwnershipVoucherModel) -> OwnershipVoucherModel {
    OwnershipVoucherModel { guid: ov.guid, contents: ov.contents }
}

/// The manufacturer row stored for a GUID and a time-to-live.
pub open spec fn manufacturer_row(guid: String, ttl: Option<i64>) -> ManufacturerOV {
    ManufacturerOV { ov_guid: guid, ttl }
}

/// The owner row stored for a GUID and its milestone fields.
pub open spec fn owner_row(guid: String, to2: Option<bool>, to0: Option<i64>) -> OwnerOV {
    OwnerOV { ov_guid: guid, to2_performed: to2, to0_accept_owner_wait_seconds: to0 }
}

/// The rendezvous row stored for a GUID and a time-to-live.
pub open spec fn rendezvous_row(guid: String, ttl: Option<i64>) -> RendezvousOV {
    RendezvousOV { ov_guid: guid, ttl }
}

} // verus!
