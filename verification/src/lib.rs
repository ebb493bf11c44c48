//! Decoding of the segmented binary data of a cartridge image: virtual
//! addresses, fixed-layout records, display lists, skeletons with their skin
//! deformation tables, and animation tracks.
//!
//! Every function is verified against a contract stated over the bytes that
//! the segment table holds.

pub mod addr;
pub mod collect;
pub mod determinism;
pub mod display_list;
pub mod dlist;
pub mod endian;
pub mod error;
pub mod mesh;
pub mod rom;
pub mod skeleton;
pub mod skeleton_animation;
pub mod skin;
