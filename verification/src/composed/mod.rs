//! Composite keys: a primary key with its identities, subkeys and the
//! signatures that hold them together.

pub mod grammar;
pub mod key;
pub mod shared;
pub mod signed_key;
pub mod verify;
