//! Verified core of the ming-qiao council messaging system and the
//! ASTROLABE artifact toolkit.

pub mod strmap;
pub mod text;
pub mod codec;
pub mod events;
pub mod db;
pub mod crypto;
pub mod astrolabe;
pub mod fleet;
