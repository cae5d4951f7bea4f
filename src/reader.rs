use vstd::prelude::*;

use crate::parser::{Error, Format, Result};

verus! {

/// The byte order of the words of a section.
#[derive(Clone, Copy, Debug, PartialEq, Eq, Structural)]
pub enum Endian {
    Little,
    Big,
}

/// Little-endian value of two bytes.
pub open spec fn le_u16(b: Seq<u8>) -> u16 {
    (b[0] + 0x100 * b[1]) as u16
}

/// Little-endian value of four bytes.
pub open spec fn le_u32(b: Seq<u8>) -> u32 {
    (b[0] + 0x100 * b[1] + 0x1_0000 * b[2] + 0x100_0000 * b[3]) as u32
}

/// Little-endian value of eight bytes.
pub open spec fn le_u64(b: Seq<u8>) -> u64 {
    (le_u32(b) + 0x1_0000_0000 * le_u32(b.subrange(4, 8))) as u64
}

/// Big-endian value of two bytes.
pub open spec fn be_u16(b: Seq<u8>) -> u16 {
    (0x100 * b[0] + b[1]) as u16
}

/// Big-endian value of four bytes.
pub open spec fn be_u32(b: Seq<u8>) -> u32 {
    (0x100_0000 * b[0] + 0x1_0000 * b[1] + 0x100 * b[2] + b[3]) as u32
}

/// Big-endian value of eight bytes.
pub open spec fn be_u64(b: Seq<u8>) -> u64 {
    (0x1_0000_0000 * be_u32(b) + be_u32(b.subrange(4, 8))) as u64
}

/// Reading a two-byte integer in byte order `e` from the front of `s`: the
/// value and what follows it.
pub open spec fn spec_read_u16(s: Seq<u8>, e: Endian) -> Result<(u16, Seq<u8>)> {
    if s.len() < 2 {
        Err(Error::UnexpectedEof)
    } else {
        Ok((if e == Endian::Little { le_u16(s) } else { be_u16(s) }, s.skip(2)))
    }
}

/// Reading a four-byte integer in byte order `e` from the front of `s`.
pub open spec fn spec_read_u32(s: Seq<u8>, e: Endian) -> Result<(u32, Seq<u8>)> {
    if s.len() < 4 {
        Err(Error::UnexpectedEof)
    } else {
        Ok((if e == Endian::Little { le_u32(s) } else { be_u32(s) }, s.skip(4)))
    }
}

/// Reading an eight-byte integer in byte order `e` from the front of `s`.
pub open spec fn spec_read_u64(s: Seq<u8>, e: Endian) -> Result<(u64, Seq<u8>)> {
    if s.len() < 8 {
        Err(Error::UnexpectedEof)
    } else {
        Ok((if e == Endian::Little { le_u64(s) } else { be_u64(s) }, s.skip(8)))
    }
}

/// Reading one word in byte order `e`, four or eight bytes wide by `format`.
pub open spec fn spec_read_word(s: Seq<u8>, format: Format, e: Endian) -> Result<(u64, Seq<u8>)> {
    match format {
        Format::Dwarf32 => match spec_read_u32(s, e) {
            Ok((v, rest)) => Ok((v as u64, rest)),
            Err(err) => Err(err),
        },
        Format::Dwarf64 => spec_read_u64(s, e),
    }
}

/// Splitting off the first `n` bytes of `s`: the prefix, then the rest.
pub open spec fn spec_split(s: Seq<u8>, n: u64) -> Result<(Seq<u8>, Seq<u8>)> {
    if n > s.len() {
        Err(Error::UnexpectedEof)
    } else {
        Ok((s.take(n as int), s.skip(n as int)))
    }
}

/// `i` is the position of the first zero byte of `s`.
pub open spec fn is_first_zero(s: Seq<u8>, i: int) -> bool {
    &&& 0 <= i < s.len()
    &&& s[i] == 0
    &&& forall|j: int| 0 <= j < i ==> s[j] != 0
}

/// Reading a zero-terminated byte string: the bytes before the first zero,
/// then what follows that zero.
pub open spec fn spec_read_null_terminated(s: Seq<u8>) -> Result<(Seq<u8>, Seq<u8>)> {
    if exists|i: int| is_first_zero(s, i) {
        let i = choose|i: int| is_first_zero(s, i);
        Ok((s.take(i), s.skip(i + 1)))
    } else {
        Err(Error::MissingNullTerminator)
    }
}

/// A cursor over a borrowed run of bytes, with the byte order of its words.
/// Reads take bytes from the front; copies share the underlying storage.
#[derive(Clone, Copy, Debug)]
pub struct Reader<'a> {
    bytes: &'a [u8],
    endian: Endian,
}

impl<'a> View for Reader<'a> {
    type V = Seq<u8>;

    /// The bytes not read yet.
    closed spec fn view(&self) -> Seq<u8> {
        self.bytes@
    }
}

impl<'a> Reader<'a> {
    /// The byte order in which words are read.
    pub closed spec fn spec_endian(&self) -> Endian {
        self.endian
    }

    /// A cursor over all of `bytes`, reading words in byte order `endian`.
    pub fn new(bytes: &'a [u8], endian: Endian) -> (r: Reader<'a>)
        ensures
            r@ == bytes@,
            r.spec_endian() == endian,
    {
        Reader { bytes, endian }
    }

    /// The byte order in which words are read.
    pub fn endian(&self) -> (r: Endian)
        ensures
            r == self.spec_endian(),
    {
        self.endian
    }

    /// The bytes not read yet.
    pub fn to_slice(&self) -> (r: &'a [u8])
        ensures
            r@ == self@,
    {
        self.bytes
    }

    /// The number of bytes not read yet.
    pub fn len(&self) -> (r: usize)
        ensures
            r == self@.len(),
    {
        self.bytes.len()
    }

    /// Whether every byte has been read.
    pub fn is_empty(&self) -> (r: bool)
        ensures
            r == (self@.len() == 0),
    {
        self.bytes.len() == 0
    }

    /// Skips to the end.
    pub fn empty(&mut self)
        ensures
            final(self)@ == Seq::<u8>::empty(),
            final(self).spec_endian() == old(self).spec_endian(),
    {
        let n = self.bytes.len();
        let (_, rest) = self.bytes.split_at(n);
        self.bytes = rest;
        assert(self@ =~= Seq::<u8>::empty());
    }

    /// Takes the first `n` bytes off the front as a cursor of their own.
    pub fn split(&mut self, n: u64) -> (r: Result<Reader<'a>>)
        ensures
            match spec_split(old(self)@, n) {
                Ok((head, rest)) => r matches Ok(h) && h@ == head && final(self)@ == rest
                    && h.spec_endian() == old(self).spec_endian(),
                Err(e) => r == Err::<Reader<'a>, Error>(e) && final(self)@ == old(self)@,
            },
            final(self).spec_endian() == old(self).spec_endian(),
    {
        if n > self.bytes.len() as u64 {
            return Err(Error::UnexpectedEof);
        }
        let (head, rest) = self.bytes.split_at(n as usize);
        self.bytes = rest;
        Ok(Reader { bytes: head, endian: self.endian })
    }

    /// Reads a two-byte integer.
    pub fn read_u16(&mut self) -> (r: Result<u16>)
        ensures
            match spec_read_u16(old(self)@, old(self).spec_endian()) {
                Ok((v, rest)) => r == Ok::<u16, Error>(v) && final(self)@ == rest,
                Err(e) => r == Err::<u16, Error>(e) && final(self)@ == old(self)@,
            },
            final(self).spec_endian() == old(self).spec_endian(),
    {
        if self.bytes.len() < 2 {
            return Err(Error::UnexpectedEof);
        }
        let b = self.bytes;
        let v = match self.endian {
            Endian::Little => b[0] as u16 + 0x100u16 * (b[1] as u16),
            Endian::Big => 0x100u16 * (b[0] as u16) + b[1] as u16,
        };
        let (_, rest) = b.split_at(2);
        self.bytes = rest;
        Ok(v)
    }

    /// Reads a four-byte integer.
    pub fn read_u32(&mut self) -> (r: Result<u32>)
        ensures
            match spec_read_u32(old(self)@, old(self).spec_endian()) {
                Ok((v, rest)) => r == Ok::<u32, Error>(v) && final(self)@ == rest,
                Err(e) => r == Err::<u32, Error>(e) && final(self)@ == old(self)@,
            },
            final(self).spec_endian() == old(self).spec_endian(),
    {
        if self.bytes.len() < 4 {
            return Err(Error::UnexpectedEof);
        }
        let b = self.bytes;
        let v = match self.endian {
            Endian::Little => b[0] as u32 + 0x100u32 * (b[1] as u32) + 0x1_0000u32 * (b[2] as u32)
                + 0x100_0000u32 * (b[3] as u32),
            Endian::Big => 0x100_0000u32 * (b[0] as u32) + 0x1_0000u32 * (b[1] as u32) + 0x100u32
                * (b[2] as u32) + b[3] as u32,
        };
        let (_, rest) = b.split_at(4);
        self.bytes = rest;
        Ok(v)
    }

    /// Reads an eight-byte integer.
    pub fn read_u64(&mut self) -> (r: Result<u64>)
        ensures
            match spec_read_u64(old(self)@, old(self).spec_endian()) {
                Ok((v, rest)) => r == Ok::<u64, Error>(v) && final(self)@ == rest,
                Err(e) => r == Err::<u64, Error>(e) && final(self)@ == old(self)@,
            },
            final(self).spec_endian() == old(self).spec_endian(),
    {
        if self.bytes.len() < 8 {
            return Err(Error::UnexpectedEof);
        }
        let b = self.bytes;
        let v = match self.endian {
            Endian::Little => {
                let lo = b[0] as u64 + 0x100u64 * (b[1] as u64) + 0x1_0000u64 * (b[2] as u64)
                    + 0x100_0000u64 * (b[3] as u64);
                let hi = b[4] as u64 + 0x100u64 * (b[5] as u64) + 0x1_0000u64 * (b[6] as u64)
                    + 0x100_0000u64 * (b[7] as u64);
                lo + 0x1_0000_0000u64 * hi
            },
            Endian::Big => {
                let hi = 0x100_0000u64 * (b[0] as u64) + 0x1_0000u64 * (b[1] as u64) + 0x100u64
                    * (b[2] as u64) + b[3] as u64;
                let lo = 0x100_0000u64 * (b[4] as u64) + 0x1_0000u64 * (b[5] as u64) + 0x100u64
                    * (b[6] as u64) + b[7] as u64;
                0x1_0000_0000u64 * hi + lo
            },
        };
        let (_, rest) = b.split_at(8);
        self.bytes = rest;
        Ok(v)
    }

    /// Reads one word of the width that `format` gives.
    pub fn read_word(&mut self, format: Format) -> (r: Result<u64>)
        ensures
            match spec_read_word(old(self)@, format, old(self).spec_endian()) {
                Ok((v, rest)) => r == Ok::<u64, Error>(v) && final(self)@ == rest,
                Err(e) => r == Err::<u64, Error>(e) && final(self)@ == old(self)@,
            },
            final(self).spec_endian() == old(self).spec_endian(),
    {
        match format {
            Format::Dwarf32 => match self.read_u32() {
                Ok(v) => Ok(v as u64),
                Err(e) => Err(e),
            },
            Format::Dwarf64 => self.read_u64(),
        }
    }

    /// Reads the bytes up to the next zero byte, and skips that zero.
    pub fn read_null_terminated_slice(&mut self) -> (r: Result<Reader<'a>>)
        ensures
            match spec_read_null_terminated(old(self)@) {
                Ok((name, rest)) => r matches Ok(h) && h@ == name && final(self)@ == rest
                    && h.spec_endian() == old(self).spec_endian(),
                Err(e) => r == Err::<Reader<'a>, Error>(e) && final(self)@ == old(self)@,
            },
            final(self).spec_endian() == old(self).spec_endian(),
    {
        let b = self.bytes;
        let mut i: usize = 0;
        while i < b.len()
            invariant
                0 <= i <= b@.len(),
                self.bytes == b,
                old(self)@ == b@,
                self.endian == old(self).endian,
                forall|j: int| 0 <= j < i ==> b@[j] != 0,
            decreases b.len() - i,
        {
            if b[i] == 0 {
                assert(is_first_zero(b@, i as int));
                let (name, rest) = b.split_at(i);
                let (_, after) = rest.split_at(1);
                proof {
                    let k = choose|k: int| is_first_zero(b@, k);
                    if k < i {
                        assert(b@[k] != 0);
                    } else if k > i {
                        assert(b@[i as int] != 0);
                    }
                    assert(k == i as int);
                    assert(name@ =~= b@.take(i as int));
                    assert(after@ =~= b@.skip(i + 1));
                }
                self.bytes = after;
                return Ok(Reader { bytes: name, endian: self.endian });
            }
            i = i + 1;
        }
        assert(!exists|k: int| is_first_zero(b@, k));
        Err(Error::MissingNullTerminator)
    }
}

} // verus!
