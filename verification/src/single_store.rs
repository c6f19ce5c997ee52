//! The single-table variant of the store: one canonical voucher table
//! carrying the role metadata inline instead of separate role tables.

use vstd::prelude::*;

use crate::errors::StoreError;
use crate::table::{
    contains_key, contains_key_exec, find_key, key_index, lemma_key_index_unique,
    lemma_push_preserves_unique, unique_keys, KeyedRow,
};

verus! {

/// A voucher row of the single-table variant: the GUID, the opaque bytes,
/// and the role metadata inline.
#[derive(Debug)]
pub struct OwnershipVoucherModel {
    pub guid: String,
    pub contents: Vec<u8>,
    pub to2_performed: Option<bool>,
    pub to0_accept_owner_wait_seconds: Option<i64>,
    pub ttl: Option<i64>,
}

/// The insert form of a single-table voucher row.
#[derive(Debug)]
pub struct NewOwnershipVoucherModel {
    pub guid: String,
    pub contents: Vec<u8>,
    pub to2_performed: Option<bool>,
    pub to0_accept_owner_wait_seconds: Option<i64>,
    pub ttl: Option<i64>,
}

impl KeyedRow for OwnershipVoucherModel {
    open spec fn key(self) -> Seq<char> {
        self.guid@
    }

    fn key_matches(&self, g: &String) -> bool {
        self.guid == *g
    }
}

impl OwnershipVoucherModel {
    /// A copy of this row: same GUID, same bytes, same metadata.
    pub fn clone_row(&self) -> (r: Self)
        ensures
            r.guid@ == self.guid@,
            r.contents@ == self.contents@,
            r.to2_performed == self.to2_performed,
            r.to0_accept_owner_wait_seconds == self.to0_accept_owner_wait_seconds,
            r.ttl == self.ttl,
    {
        let contents = self.contents.clone();
        proof {
            assert(contents@ =~= self.contents@);
        }
        OwnershipVoucherModel {
            guid: self.guid.clone(),
            contents,
            to2_performed: self.to2_performed,
            to0_accept_owner_wait_seconds: self.to0_accept_owner_wait_seconds,
            ttl: self.ttl,
        }
    }
}

/// The row stored for an insert form: the same values.
pub open spec fn stored_row(ov: NewOwnershipVoucherModel) -> OwnershipVoucherModel {
    OwnershipVoucherModel {
        guid: ov.guid,
        contents: ov.contents,
        to2_performed: ov.to2_performed,
        to0_accept_owner_wait_seconds: ov.to0_accept_owner_wait_seconds,
        ttl: ov.ttl,
    }
}

/// The single-table store.
pub struct SingleStore {
    ownership_voucher: Vec<OwnershipVoucherModel>,
}

impl View for SingleStore {
    type V = Seq<OwnershipVoucherModel>;

    closed spec fn view(&self) -> Seq<OwnershipVoucherModel> {
        self.ownership_voucher@
    }
}

impl SingleStore {
    /// Well-formedness: the GUID is a primary key.
    pub open spec fn wf(&self) -> bool {
        unique_keys(self@)
    }

    /// An empty store.
    pub fn new() -> (s: Self)
        ensures
            s@ == Seq::<OwnershipVoucherModel>::empty(),
            s.wf(),
    {
        let s = SingleStore { ownership_voucher: Vec::new() };
        proof {
            assert(s@ =~= Seq::<OwnershipVoucherModel>::empty());
        }
        s
    }

    /// How many vouchers are stored.
    pub fn count_ov(&self) -> (n: usize)
        ensures
            n == self@.len(),
    {
        self.ownership_voucher.len()
    }

    /// Stores a voucher row; fails with `DuplicateKey` when a row with the
    /// same GUID exists, and stores exactly the given row otherwise.
    pub fn store_ov(&mut self, ov: NewOwnershipVoucherModel) -> (r: Result<(), StoreError>)
        requires
            old(self).wf(),
        ensures
            final(self).wf(),
            r is Ok <==> !contains_key(old(self)@, ov.guid@),
            r is Ok ==> final(self)@ == old(self)@.push(stored_row(ov)),
            r is Err ==> r == Err::<(), StoreError>(StoreError::DuplicateKey) && final(self)@
                == old(self)@,
    {
        if contains_key_exec(&self.ownership_voucher, &ov.guid) {
            return Err(StoreError::DuplicateKey);
        }
        let row = OwnershipVoucherModel {
            guid: ov.guid,
            contents: ov.contents,
            to2_performed: ov.to2_performed,
            to0_accept_owner_wait_seconds: ov.to0_accept_owner_wait_seconds,
            ttl: ov.ttl,
        };
        proof {
            lemma_push_preserves_unique(self@, row);
        }
        self.ownership_voucher.push(row);
        Ok(())
    }

    /// Looks up the voucher with this GUID; fails with `NotFound` when
    /// absent, and returns a copy of the stored row otherwise.
    pub fn get_ov_model(&self, guid: &String) -> (r: Result<OwnershipVoucherModel, StoreError>)
        requires
            self.wf(),
        ensures
            r is Ok <==> contains_key(self@, guid@),
            r matches Ok(m) ==> {
                let stored = self@[key_index(self@, guid@)];
                m.guid@ == guid@ && m.contents@ == stored.contents@ && m.to2_performed
                    == stored.to2_performed && m.to0_accept_owner_wait_seconds
                    == stored.to0_accept_owner_wait_seconds && m.ttl == stored.ttl
            },
            r matches Err(e) ==> e == StoreError::NotFound,
    {
        match find_key(&self.ownership_voucher, guid) {
            Some(i) => {
                let m = self.ownership_voucher[i].clone_row();
                proof {
                    assert(contains_key(self@, guid@));
                    lemma_key_index_unique(self@, guid@, i as int);
                }
                Ok(m)
            }
            None => Err(StoreError::NotFound),
        }
    }

    /// Sets `to2_performed` for the voucher with this GUID; affects zero
    /// rows when the GUID is absent, and exactly that row's column
    /// otherwise.  Reports the affected-row count.
    pub fn update_ov_to2_performed(&mut self, guid: &String, value: &bool) -> (n: usize)
        requires
            old(self).wf(),
        ensures
            final(self).wf(),
            final(self)@ == set_to2(old(self)@, guid@, *value),
            n == if contains_key(old(self)@, guid@) { 1int } else { 0int },
            !contains_key(old(self)@, guid@) ==> final(self)@ == old(self)@,
    {
        match find_key(&self.ownership_voucher, guid) {
            Some(i) => {
                let mut row = self.ownership_voucher.remove(i);
                row.to2_performed = Some(*value);
                self.ownership_voucher.insert(i, row);
                proof {
                    let o = old(self)@;
                    assert(contains_key(o, guid@));
                    assert forall|j: int| 0 <= j < o.len() && j != i as int
                        implies o[j].guid@ != guid@ by {
                        if j < i as int {
                            assert(o[j].key() != o[i as int].key());
                        } else {
                            assert(o[i as int].key() != o[j].key());
                        }
                    }
                    assert(self@ =~= set_to2(o, guid@, *value));
                    lemma_set_to2_wf(o, guid@, *value);
                }
                1
            }
            None => {
                proof {
                    assert(set_to2(old(self)@, guid@, *value) =~= old(self)@);
                }
                0
            }
        }
    }
}

/// The table after setting `to2_performed` on the row keyed `g`; rows with
/// other keys are untouched.
pub open spec fn set_to2(
    rows: Seq<OwnershipVoucherModel>,
    g: Seq<char>,
    value: bool,
) -> Seq<OwnershipVoucherModel> {
    rows.map_values(
        |r: OwnershipVoucherModel|
            if r.guid@ == g {
                OwnershipVoucherModel {
                    guid: r.guid,
                    contents: r.contents,
                    to2_performed: Some(value),
                    to0_accept_owner_wait_seconds: r.to0_accept_owner_wait_seconds,
                    ttl: r.ttl,
                }
            } else {
                r
            },
    )
}

/// Setting a flag changes no key, so the table stays well-formed.
proof fn lemma_set_to2_wf(o: Seq<OwnershipVoucherModel>, g: Seq<char>, value: bool)
    requires
        unique_keys(o),
    ensures
        unique_keys(set_to2(o, g, value)),
{
    let u = set_to2(o, g, value);
    assert forall|a: int, b: int| 0 <= a < b < u.len() implies u[a].key() != u[b].key() by {
        assert(o[a].key() != o[b].key());
    }
}

} // verus!
