//! RawBlow: the culling logic of a RAW photo viewer, verified with Verus.
//!
//! The library holds what the viewer decides: how labels, star ratings and
//! colour tags are applied and undone, how the filtered view moves, how
//! user-facing values are parsed and formatted, and the translation tables.
//! The window, the decoders and the network live in the application around it.

pub mod af;
pub mod binary32;
pub mod bytes;
pub mod checksum;
pub mod color;
pub mod cull;
pub mod decodes;
pub mod edits;
pub mod exif;
pub mod folder;
pub mod fonts;
pub mod gear;
pub mod gates;
pub mod histo;
pub mod i18n;
pub mod keys;
pub mod licenses;
pub mod logo;
pub mod map;
pub mod marks;
pub mod navigation;
pub mod session;
pub mod settings;
pub mod text;
pub mod timing;
pub mod transfer;
pub mod update;
pub mod zoom;
