//! Small value types shared by the packet codec and the composed keys, and the
//! interface that signing and verifying keys expose.

pub mod compression;
pub mod key_flags;
pub mod key_id;
pub mod key_traits;
pub mod revocation_key;
pub mod tag;
pub mod user;
pub mod secret_params;
