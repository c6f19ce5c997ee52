//! A verified storage model for device-onboarding ownership vouchers.
//!
//! The library keeps a canonical table of opaque voucher blobs keyed by GUID,
//! together with one reference table per server role (manufacturer, owner,
//! rendezvous).  Role rows may only reference an existing canonical voucher,
//! deleting a canonical voucher cascades to its role rows, role metadata is
//! updated through a typed gateway, and rows with an expired time-to-live can
//! be swept in bulk.  Every operation carries a contract describing exactly
//! which rows it touches.

pub mod attr_codec;
pub mod errors;
pub mod laws;
pub mod models;
pub mod pool;
pub mod single_store;
pub mod store;
pub mod table;
