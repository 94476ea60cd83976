//! On-disk page decoding for a single-file, memory-mapped, copy-on-write
//! B+tree key/value store: the binary layout of fixed-size pages (branch,
//! leaf, meta, freelist), the element headers packed inside them, and the
//! sorted page-identifier algebra used to track reclaimable pages.
//!
//! Every decode operation is bounds-checked: corrupt or truncated input
//! degrades to an absent result, never an out-of-bounds read or a panic.

pub mod db;
pub mod page;
pub mod text;
