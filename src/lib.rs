//! Canonical values for result rows relayed from a Postgres backend to a
//! Postgres wire-protocol client: the backend type table, the per-cell
//! decoding rules, the record stream's step function, the per-kind choice of
//! wire encoding, and the validation of mirror job options.

pub mod decode;
pub mod encode;
pub mod options;
pub mod stream;
pub mod value;
