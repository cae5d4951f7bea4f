use vstd::prelude::*;

use crate::lookup::{DebugLookup, LookupEntryIter, NamesOrTypesSwitch, PubStuffParser};
use crate::parser::{Format, Result};
use crate::reader::Reader;

verus! {

/// An offset into `.debug_info`.
#[derive(Clone, Copy, Debug, PartialEq, Eq, Structural)]
pub struct DebugInfoOffset(pub u64);

/// An offset into `.debug_types`.
#[derive(Clone, Copy, Debug, PartialEq, Eq, Structural)]
pub struct DebugTypesOffset(pub u64);

/// An offset of a debugging entry from the start of its unit.
#[derive(Clone, Copy, Debug, PartialEq, Eq, Structural)]
pub struct UnitOffset(pub u64);

/// The header of one set of a pubnames or pubtypes table; `O` is the offset
/// type of the section that the table points into.
#[derive(Clone, Copy, Debug, PartialEq, Eq, Structural)]
pub struct PubStuffHeader<O> {
    /// The width of the set's words.
    pub format: Format,
    /// The length of the set after its length prefix.
    pub length: u64,
    /// The version of the set; always 2.
    pub version: u16,
    /// Where the set's unit starts.
    pub unit_offset: O,
    /// The length of the set's unit.
    pub unit_length: u64,
}

/// One entry of a pubnames or pubtypes table.
#[derive(Clone, Copy, Debug)]
pub struct PubStuffEntry<'a, O> {
    /// Where the unit of the entry's set starts.
    pub unit_header_offset: O,
    /// The offset of the named debugging entry within that unit.
    pub die_offset: UnitOffset,
    /// The name, without its terminating zero.
    pub name: Reader<'a>,
}

impl<'a, O> View for PubStuffEntry<'a, O> {
    /// The unit's offset, the entry's offset and the bytes of the name.
    type V = (O, UnitOffset, Seq<u8>);

    open spec fn view(&self) -> (O, UnitOffset, Seq<u8>) {
        (self.unit_header_offset, self.die_offset, self.name@)
    }
}

/// The header of a set of `.debug_pubnames`.
pub type PubNamesHeader = PubStuffHeader<DebugInfoOffset>;

/// An entry of `.debug_pubnames`.
pub type PubNamesEntry<'a> = PubStuffEntry<'a, DebugInfoOffset>;

/// The header of a set of `.debug_pubtypes`.
pub type PubTypesHeader = PubStuffHeader<DebugTypesOffset>;

/// An entry of `.debug_pubtypes`.
pub type PubTypesEntry<'a> = PubStuffEntry<'a, DebugTypesOffset>;

/// Selects `.debug_pubnames`, whose offsets point into `.debug_info`.
#[derive(Clone, Copy, Debug)]
pub struct PubNamesSwitch;

/// Selects `.debug_pubtypes`, whose offsets point into `.debug_types`.
#[derive(Clone, Copy, Debug)]
pub struct PubTypesSwitch;

/// The `.debug_pubnames` section.
pub type DebugPubNames<'a> = DebugLookup<'a, PubStuffParser<PubNamesSwitch>>;

/// A scan over the entries of `.debug_pubnames`.
pub type PubNamesEntryIter<'a> = LookupEntryIter<'a, PubStuffParser<PubNamesSwitch>>;

/// The `.debug_pubtypes` section.
pub type DebugPubTypes<'a> = DebugLookup<'a, PubStuffParser<PubTypesSwitch>>;

/// A scan over the entries of `.debug_pubtypes`.
pub type PubTypesEntryIter<'a> = LookupEntryIter<'a, PubStuffParser<PubTypesSwitch>>;

impl<'a> NamesOrTypesSwitch<'a> for PubNamesSwitch {
    type Header = PubNamesHeader;

    type Entry = PubNamesEntry<'a>;

    type Offset = DebugInfoOffset;

    open spec fn spec_new_header(
        format: Format,
        set_length: u64,
        version: u16,
        offset: DebugInfoOffset,
        length: u64,
    ) -> PubNamesHeader {
        PubStuffHeader { format, length: set_length, version, unit_offset: offset, unit_length: length }
    }

    open spec fn spec_new_entry(offset: u64, name: Seq<u8>, header: PubNamesHeader) -> (
        DebugInfoOffset,
        UnitOffset,
        Seq<u8>,
    ) {
        (header.unit_offset, UnitOffset(offset), name)
    }

    open spec fn spec_offset(word: u64) -> DebugInfoOffset {
        DebugInfoOffset(word)
    }

    open spec fn spec_format_from(header: PubNamesHeader) -> Format {
        header.format
    }

    proof fn lemma_format_kept(
        format: Format,
        set_length: u64,
        version: u16,
        offset: Self::Offset,
        length: u64,
    ) {
    }

    fn new_header(
        format: Format,
        set_length: u64,
        version: u16,
        offset: DebugInfoOffset,
        length: u64,
    ) -> (r: PubNamesHeader) {
        PubStuffHeader { format, length: set_length, version, unit_offset: offset, unit_length: length }
    }

    fn new_entry(offset: u64, name: Reader<'a>, header: &PubNamesHeader) -> (r: PubNamesEntry<'a>) {
        PubStuffEntry { unit_header_offset: header.unit_offset, die_offset: UnitOffset(offset), name }
    }

    fn parse_offset(input: &mut Reader<'a>, format: Format) -> (r: Result<DebugInfoOffset>) {
        let word = input.read_word(format)?;
        Ok(DebugInfoOffset(word))
    }

    fn format_from(header: &PubNamesHeader) -> (r: Format) {
        header.format
    }
}

impl<'a> NamesOrTypesSwitch<'a> for PubTypesSwitch {
    type Header = PubTypesHeader;

    type Entry = PubTypesEntry<'a>;

    type Offset = DebugTypesOffset;

    open spec fn spec_new_header(
        format: Format,
        set_length: u64,
        version: u16,
        offset: DebugTypesOffset,
        length: u64,
    ) -> PubTypesHeader {
        PubStuffHeader { format, length: set_length, version, unit_offset: offset, unit_length: length }
    }

    open spec fn spec_new_entry(offset: u64, name: Seq<u8>, header: PubTypesHeader) -> (
        DebugTypesOffset,
        UnitOffset,
        Seq<u8>,
    ) {
        (header.unit_offset, UnitOffset(offset), name)
    }

    open spec fn spec_offset(word: u64) -> DebugTypesOffset {
        DebugTypesOffset(word)
    }

    open spec fn spec_format_from(header: PubTypesHeader) -> Format {
        header.format
    }

    proof fn lemma_format_kept(
        format: Format,
        set_length: u64,
        version: u16,
        offset: Self::Offset,
        length: u64,
    ) {
    }

    fn new_header(
        format: Format,
        set_length: u64,
        version: u16,
        offset: DebugTypesOffset,
        length: u64,
    ) -> (r: PubTypesHeader) {
        PubStuffHeader { format, length: set_length, version, unit_offset: offset, unit_length: length }
    }

    fn new_entry(offset: u64, name: Reader<'a>, header: &PubTypesHeader) -> (r: PubTypesEntry<'a>) {
        PubStuffEntry { unit_header_offset: header.unit_offset, die_offset: UnitOffset(offset), name }
    }

    fn parse_offset(input: &mut Reader<'a>, format: Format) -> (r: Result<DebugTypesOffset>) {
        let word = input.read_word(format)?;
        Ok(DebugTypesOffset(word))
    }

    fn format_from(header: &PubTypesHeader) -> (r: Format) {
        header.format
    }
}

} // verus!
