//! The row types of the four tables and the typed metadata vocabulary.

use vstd::prelude::*;

use crate::table::KeyedRow;
use crate::table::TtlRow;

verus! {

/// A canonical voucher row: the GUID and the opaque voucher bytes.
#[derive(Debug)]
pub struct OwnershipVoucherModel {
    pub guid: String,
    pub contents: Vec<u8>,
}

/// The insert form of a canonical voucher row.
#[derive(Debug)]
pub struct NewOwnershipVoucherModel {
    pub guid: String,
    pub contents: Vec<u8>,
}

/// A rendezvous reference row: the voucher it references and an optional
/// time-to-live.
#[derive(Debug)]
pub struct RendezvousOV {
    pub ov_guid: String,
    pub ttl: Option<i64>,
}

/// The insert form of a rendezvous reference row.
#[derive(Debug)]
pub struct NewRendezvousOV {
    pub ov_guid: String,
    pub ttl: Option<i64>,
}

/// An owner reference row: the voucher it references and the protocol
/// milestones recorded for it.
#[derive(Debug)]
pub struct OwnerOV {
    pub ov_guid: String,
    pub to2_performed: Option<bool>,
    pub to0_accept_owner_wait_seconds: Option<i64>,
}

/// The insert form of an owner reference row.
#[derive(Debug)]
pub struct NewOwnerOV {
    pub ov_guid: String,
    pub to2_performed: Option<bool>,
    pub to0_accept_owner_wait_seconds: Option<i64>,
}

/// A manufacturer reference row.
///
/// The table carries a ttl column so that the ttl argument of the insert and
/// the ttl-threshold sweep of the manufacturer store have effect.
#[derive(Debug)]
pub struct ManufacturerOV {
    pub ov_guid: String,
    pub ttl: Option<i64>,
}

/// The insert form of a manufacturer reference row.
#[derive(Debug)]
pub struct NewManufacturerOV {
    pub ov_guid: String,
    pub ttl: Option<i64>,
}

impl KeyedRow for OwnershipVoucherModel {
    open spec fn key(self) -> Seq<char> {
        self.guid@
    }

    fn key_matches(&self, g: &String) -> bool {
        self.guid == *g
    }
}

impl KeyedRow for RendezvousOV {
    open spec fn key(self) -> Seq<char> {
        self.ov_guid@
    }

    fn key_matches(&self, g: &String) -> bool {
        self.ov_guid == *g
    }
}

impl TtlRow for RendezvousOV {
    open spec fn ttl_field(self) -> Option<i64> {
        self.ttl
    }

    fn expired_by(&self, threshold: i64) -> bool {
        match self.ttl {
            Some(v) => v <= threshold,
            None => false,
        }
    }
}

impl KeyedRow for OwnerOV {
    open spec fn key(self) -> Seq<char> {
        self.ov_guid@
    }

    fn key_matches(&self, g: &String) -> bool {
        self.ov_guid == *g
    }
}

impl KeyedRow for ManufacturerOV {
    open spec fn key(self) -> Seq<char> {
        self.ov_guid@
    }

    fn key_matches(&self, g: &String) -> bool {
        self.ov_guid == *g
    }
}

impl TtlRow for ManufacturerOV {
    open spec fn ttl_field(self) -> Option<i64> {
        self.ttl
    }

    fn expired_by(&self, threshold: i64) -> bool {
        match self.ttl {
            Some(v) => v <= threshold,
            None => false,
        }
    }
}

impl OwnershipVoucherModel {
    /// A copy of this row: same GUID, same bytes.
    pub fn clone_row(&self) -> (r: Self)
        ensures
            r.guid@ == self.guid@,
            r.contents@ == self.contents@,
    {
        let contents = self.contents.clone();
        proof {
            assert(contents@ =~= self.contents@);
        }
        OwnershipVoucherModel { guid: self.guid.clone(), contents }
    }
}

impl OwnerOV {
    /// A copy of this row, equal to it.
    pub fn clone_row(&self) -> (r: Self)
        ensures
            r == *self,
    {
        let r = OwnerOV {
            ov_guid: self.ov_guid.clone(),
            to2_performed: self.to2_performed,
            to0_accept_owner_wait_seconds: self.to0_accept_owner_wait_seconds,
        };
        r
    }
}

/// The closed set of metadata keys the update gateway dispatches on.
#[derive(Clone, Copy, Debug, PartialEq, Eq, Structural)]
pub enum MetadataKey {
    /// Whether the final ownership transfer was performed (owner table,
    /// boolean column).
    To2Performed,
    /// How long an owner waits on registration renewal (owner table,
    /// integer column).
    To0AcceptOwnerWaitSeconds,
    /// The time-to-live of a rendezvous reference (rendezvous table,
    /// integer column).
    Ttl,
}

/// A metadata value as supplied by a caller, carrying its own type tag.
#[derive(Clone, Copy, Debug, PartialEq, Eq, Structural)]
pub enum MetadataValue {
    Flag(bool),
    Seconds(i64),
}

/// True when `value`'s type matches the declared type of `key`:
/// `To2Performed` takes a boolean, the two other keys take an integer.
pub open spec fn key_accepts(key: MetadataKey, value: MetadataValue) -> bool {
    match key {
        MetadataKey::To2Performed => value is Flag,
        MetadataKey::To0AcceptOwnerWaitSeconds => value is Seconds,
        MetadataKey::Ttl => value is Seconds,
    }
}

} // verus!
