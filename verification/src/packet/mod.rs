//! The packets of an OpenPGP key and their octet encodings.

pub mod framing;
pub mod key;
pub mod length;
pub mod signature;
pub mod signature_body;
pub mod subpacket;
pub mod user_attribute;
pub mod user_id;
