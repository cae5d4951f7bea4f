//! Readers for the accelerated-access lookup tables of DWARF debug information
//! (`.debug_pubnames`, `.debug_pubtypes`): a section is a run of sets, each a
//! header followed by `(offset, name)` entries and a zero sentinel.
//!
//! `reader` is the byte cursor, `parser` decodes the length prefix that
//! selects a set's format, `lookup` holds the scan shared by all such tables,
//! and `pubtables` the two concrete tables.
pub mod lookup;
pub mod parser;
pub mod pubtables;
pub mod reader;
