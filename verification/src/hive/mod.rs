//! Hive access: the `nt_hive` boundary, opening a hive from its bytes and
//! descending to a key path.

pub mod format;
pub mod nt;
pub mod open;
pub mod safety;
