//! Decoders for the binary asset formats of a family of racing-game titles.
//!
//! The heart of the crate is the chunk-tree decoder: a self-describing
//! binary container in which every node carries a 12-byte header (tag,
//! declared data size, declared chunk size) and, for container tags, nested
//! child chunks.  `walker::decode` turns a byte buffer into a typed tree and
//! `extract` pulls typed records back out of it.  Satellite modules decode
//! the flat texture, palette and archive layouts of the same titles.
pub mod blocks;
pub mod bytes;
pub mod chunks;
pub mod color;
pub mod dxt;
pub mod ext;
pub mod extract;
pub mod header;
pub mod laws;
pub mod pak;
pub mod ppm;
pub mod registry;
pub mod res;
pub mod triggers;
pub mod trn;
pub mod vertex;
pub mod walker;
pub mod xbr;
