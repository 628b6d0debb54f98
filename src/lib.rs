//! Key management for the bldr service platform: naming and revisions of keys,
//! the armored on-disk envelope, the decisions of the key cache, key
//! generation, and the service directory layout.

pub mod util;
pub mod error;
pub mod text;
pub mod naming;
pub mod key;
pub mod cache;
pub mod generate;
pub mod fs;
pub mod revision;
