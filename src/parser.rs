use vstd::prelude::*;

use crate::reader::{spec_read_u32, spec_read_u64, Endian, Reader};

verus! {

/// Width of the length and offset fields of one set: four bytes for the
/// compact form, eight for the extended one.
#[derive(Clone, Copy, Debug, PartialEq, Eq, Structural)]
pub enum Format {
    Dwarf32,
    Dwarf64,
}

/// What can go wrong while decoding a lookup table.
#[derive(Clone, Copy, Debug, PartialEq, Eq, Structural)]
pub enum Error {
    /// A read needed more bytes than were left.
    UnexpectedEof,
    /// A set header carries a version other than 2.
    UnknownVersion,
    /// A name ran to the end of its set without a zero byte.
    MissingNullTerminator,
}

/// The result type of every decoding operation.
pub type Result<T> = core::result::Result<T, Error>;

/// The four-byte marker that announces an eight-byte length.
pub const EXTENDED_LENGTH_MARKER: u32 = 0xffff_ffff;

/// Decoding the length prefix of a set at the front of `s`, in byte order
/// `e`: the length, the format it selects, and the bytes after the prefix.
pub open spec fn spec_parse_initial_length(s: Seq<u8>, e: Endian) -> Result<(u64, Format, Seq<u8>)> {
    match spec_read_u32(s, e) {
        Err(e) => Err(e),
        Ok((v, rest)) => if v == EXTENDED_LENGTH_MARKER {
            match spec_read_u64(rest, e) {
                Err(e) => Err(e),
                Ok((len, rest2)) => Ok((len, Format::Dwarf64, rest2)),
            }
        } else {
            Ok((v as u64, Format::Dwarf32, rest))
        },
    }
}

/// Reads the length prefix of a set: a four-byte length, or the marker
/// followed by an eight-byte length.
pub fn parse_initial_length(input: &mut Reader) -> (r: Result<(u64, Format)>)
    ensures
        match spec_parse_initial_length(old(input)@, old(input).spec_endian()) {
            Ok((len, format, rest)) => r == Ok::<(u64, Format), Error>((len, format))
                && final(input)@ == rest,
            Err(e) => r == Err::<(u64, Format), Error>(e),
        },
        final(input).spec_endian() == old(input).spec_endian(),
{
    let v = input.read_u32()?;
    if v == EXTENDED_LENGTH_MARKER {
        let len = input.read_u64()?;
        Ok((len, Format::Dwarf64))
    } else {
        Ok((v as u64, Format::Dwarf32))
    }
}

} // verus!
