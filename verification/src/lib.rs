//! Reading, writing and certifying OpenPGP keys.
//!
//! The crate covers the packet codec (framing, multi-precision integers,
//! subpacket areas, public-key parameter blocks), the recognizer that groups a
//! packet stream into a transferable key, and the pipeline that certifies the
//! identities of a new key. Every function carries a contract over the byte
//! sequences and mathematical values it handles.

pub mod bignum;
pub mod composed;
pub mod crypto;
pub mod errors;
pub mod packet;
pub mod ser;
pub mod types;
pub mod util;
