//! The bytes that an encoded instruction is made of.

pub mod address;
pub mod modrm;
pub mod rex;
pub mod sib;

pub use address::{encode_address, EncodedAddress};
pub use modrm::ModRM;
pub use rex::REX;
pub use sib::SIB;
