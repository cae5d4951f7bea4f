use dwarf_lookup::lookup::DebugLookup;
use dwarf_lookup::parser::{parse_initial_length, Error, Format};
use dwarf_lookup::pubtables::{
    DebugInfoOffset, DebugPubNames, DebugPubTypes, DebugTypesOffset, PubNamesEntry, UnitOffset,
};
use dwarf_lookup::reader::{Endian, Reader};

fn compact_set(version: u16, unit_offset: u32, unit_length: u32, entries: &[(u32, &str)]) -> Vec<u8> {
    let mut body = Vec::new();
    body.extend_from_slice(&version.to_le_bytes());
    body.extend_from_slice(&unit_offset.to_le_bytes());
    body.extend_from_slice(&unit_length.to_le_bytes());
    for (offset, name) in entries {
        body.extend_from_slice(&offset.to_le_bytes());
        body.extend_from_slice(name.as_bytes());
        body.push(0);
    }
    body.extend_from_slice(&0u32.to_le_bytes());
    let mut set = Vec::new();
    set.extend_from_slice(&(body.len() as u32).to_le_bytes());
    set.extend_from_slice(&body);
    set
}

fn extended_set(version: u16, unit_offset: u64, unit_length: u64, entries: &[(u64, &str)]) -> Vec<u8> {
    let mut body = Vec::new();
    body.extend_from_slice(&version.to_le_bytes());
    body.extend_from_slice(&unit_offset.to_le_bytes());
    body.extend_from_slice(&unit_length.to_le_bytes());
    for (offset, name) in entries {
        body.extend_from_slice(&offset.to_le_bytes());
        body.extend_from_slice(name.as_bytes());
        body.push(0);
    }
    body.extend_from_slice(&0u64.to_le_bytes());
    let mut set = Vec::new();
    set.extend_from_slice(&0xffff_ffffu32.to_le_bytes());
    set.extend_from_slice(&(body.len() as u64).to_le_bytes());
    set.extend_from_slice(&body);
    set
}

fn two_sets(version_a: u16) -> Vec<u8> {
    let mut buf = compact_set(version_a, 0x100, 0x40, &[(0x10, "alpha"), (0x20, "beta")]);
    buf.extend(compact_set(2, 0x140, 0x30, &[(0x30, "gamma")]));
    buf
}

fn names(section: &DebugPubNames) -> (Vec<(u64, u64, Vec<u8>)>, Option<Error>) {
    let mut it = section.items();
    let mut out = Vec::new();
    loop {
        match it.next() {
            Ok(Some(e)) => out.push((e.unit_header_offset.0, e.die_offset.0, e.name.to_slice().to_vec())),
            Ok(None) => return (out, None),
            Err(e) => return (out, Some(e)),
        }
    }
}

#[test]
fn round_trip_two_compact_sets() {
    let buf = two_sets(2);
    let section = DebugPubNames::new(Reader::new(&buf, Endian::Little));
    let mut it = section.items();
    let e = it.next().unwrap().unwrap();
    assert_eq!(e.die_offset, UnitOffset(0x10));
    assert_eq!(e.unit_header_offset, DebugInfoOffset(0x100));
    assert_eq!(e.name.to_slice(), b"alpha");
    let e = it.next().unwrap().unwrap();
    assert_eq!(e.die_offset, UnitOffset(0x20));
    assert_eq!(e.name.to_slice(), b"beta");
    let e = it.next().unwrap().unwrap();
    assert_eq!(e.die_offset, UnitOffset(0x30));
    assert_eq!(e.unit_header_offset, DebugInfoOffset(0x140));
    assert_eq!(e.name.to_slice(), b"gamma");
    assert!(it.next().unwrap().is_none());
    assert!(it.next().unwrap().is_none());
}

#[test]
fn unknown_version_is_sticky() {
    let buf = two_sets(3);
    let section = DebugPubNames::new(Reader::new(&buf, Endian::Little));
    let mut it = section.items();
    assert_eq!(it.next().err(), Some(Error::UnknownVersion));
    assert_eq!(it.next().err(), Some(Error::UnknownVersion));
    assert_eq!(it.next().err(), Some(Error::UnknownVersion));
}

#[test]
fn error_in_second_set_comes_after_first_set_entries() {
    let mut buf = compact_set(2, 0, 0, &[(0x10, "alpha")]);
    buf.extend(compact_set(7, 0, 0, &[(0x20, "beta")]));
    let section = DebugPubNames::new(Reader::new(&buf, Endian::Little));
    let (entries, err) = names(&section);
    assert_eq!(entries, vec![(0, 0x10, b"alpha".to_vec())]);
    assert_eq!(err, Some(Error::UnknownVersion));
}

#[test]
fn sentinel_only_set_yields_nothing() {
    let mut buf = compact_set(2, 0x0, 0x10, &[]);
    buf.extend(compact_set(2, 0x10, 0x20, &[(0x44, "main")]));
    let section = DebugPubNames::new(Reader::new(&buf, Endian::Little));
    let (entries, err) = names(&section);
    assert_eq!(entries, vec![(0x10, 0x44, b"main".to_vec())]);
    assert_eq!(err, None);

    let only = compact_set(2, 0x0, 0x10, &[]);
    let section = DebugPubNames::new(Reader::new(&only, Endian::Little));
    assert_eq!(names(&section), (vec![], None));
}

#[test]
fn bytes_after_sentinel_are_ignored() {
    let mut body = Vec::new();
    body.extend_from_slice(&2u16.to_le_bytes());
    body.extend_from_slice(&0u32.to_le_bytes());
    body.extend_from_slice(&0u32.to_le_bytes());
    body.extend_from_slice(&0u32.to_le_bytes());
    body.extend_from_slice(&[0xde, 0xad, 0xbe, 0xef, 0x01]);
    let mut buf = (body.len() as u32).to_le_bytes().to_vec();
    buf.extend(body);
    buf.extend(compact_set(2, 0, 0, &[(0x8, "x")]));
    let section = DebugPubNames::new(Reader::new(&buf, Endian::Little));
    assert_eq!(names(&section), (vec![(0, 0x8, b"x".to_vec())], None));
}

#[test]
fn extended_format_keeps_wide_offsets() {
    let big = 0xffff_ffff_ffff_fff0u64;
    let buf = extended_set(2, 0x1_0000_0000, 0x2_0000_0000, &[(0x1_0000_0010, "wide"), (big, "top")]);
    let section = DebugPubNames::new(Reader::new(&buf, Endian::Little));
    let (entries, err) = names(&section);
    assert_eq!(err, None);
    assert_eq!(
        entries,
        vec![
            (0x1_0000_0000, 0x1_0000_0010, b"wide".to_vec()),
            (0x1_0000_0000, big, b"top".to_vec()),
        ]
    );
}

#[test]
fn mixed_formats_in_one_section() {
    let mut buf = extended_set(2, 0x8, 0x10, &[(0x1_0000_0000, "a")]);
    buf.extend(compact_set(2, 0x18, 0x10, &[(0x20, "b")]));
    let section = DebugPubNames::new(Reader::new(&buf, Endian::Little));
    let (entries, err) = names(&section);
    assert_eq!(err, None);
    assert_eq!(entries, vec![(0x8, 0x1_0000_0000, b"a".to_vec()), (0x18, 0x20, b"b".to_vec())]);
}

#[test]
fn two_scans_are_independent() {
    let buf = two_sets(2);
    let section = DebugPubNames::new(Reader::new(&buf, Endian::Little));
    let mut a = section.items();
    let mut b = section.items();
    assert_eq!(a.next().unwrap().unwrap().name.to_slice(), b"alpha");
    assert_eq!(a.next().unwrap().unwrap().name.to_slice(), b"beta");
    assert_eq!(b.next().unwrap().unwrap().name.to_slice(), b"alpha");
    assert_eq!(a.next().unwrap().unwrap().name.to_slice(), b"gamma");
    assert!(a.next().unwrap().is_none());
    assert_eq!(b.next().unwrap().unwrap().name.to_slice(), b"beta");
    let mut c = section.items();
    assert_eq!(c.next().unwrap().unwrap().name.to_slice(), b"alpha");
}

#[test]
fn empty_section_is_complete_at_once() {
    let section = DebugPubNames::new(Reader::new(&[], Endian::Little));
    let mut it = section.items();
    assert!(it.next().unwrap().is_none());
    assert!(it.next().unwrap().is_none());
}

#[test]
fn truncated_set_gives_unexpected_eof() {
    let mut buf = two_sets(2);
    buf.truncate(buf.len() - 3);
    let section = DebugPubNames::new(Reader::new(&buf, Endian::Little));
    let (entries, err) = names(&section);
    assert_eq!(entries.len(), 2);
    assert_eq!(err, Some(Error::UnexpectedEof));

    let short = [0x01u8, 0x02];
    let section = DebugPubNames::new(Reader::new(&short, Endian::Little));
    let mut it = section.items();
    assert_eq!(it.next().err(), Some(Error::UnexpectedEof));
    assert_eq!(it.next().err(), Some(Error::UnexpectedEof));
}

#[test]
fn name_without_terminator_is_reported() {
    let mut body = Vec::new();
    body.extend_from_slice(&2u16.to_le_bytes());
    body.extend_from_slice(&0u32.to_le_bytes());
    body.extend_from_slice(&0u32.to_le_bytes());
    body.extend_from_slice(&0x10u32.to_le_bytes());
    body.extend_from_slice(b"abc");
    let mut buf = (body.len() as u32).to_le_bytes().to_vec();
    buf.extend(body);
    buf.push(0);
    let section = DebugPubNames::new(Reader::new(&buf, Endian::Little));
    let mut it = section.items();
    assert_eq!(it.next().err(), Some(Error::MissingNullTerminator));
    assert_eq!(it.next().err(), Some(Error::MissingNullTerminator));
}

#[test]
fn scans_of_arbitrary_bytes_end() {
    let mut seed: u32 = 12345;
    for round in 0..200u32 {
        let len = (round % 64) as usize;
        let mut buf = Vec::new();
        for _ in 0..len {
            seed = seed.wrapping_mul(1103515245).wrapping_add(12345);
            buf.push((seed >> 16) as u8 % 8);
        }
        let section = DebugPubNames::new(Reader::new(&buf, Endian::Little));
        let mut it = section.items();
        let mut steps = 0usize;
        loop {
            steps += 1;
            assert!(steps <= buf.len() + 1);
            match it.next() {
                Ok(Some(_)) => {}
                Ok(None) => break,
                Err(e) => {
                    assert_eq!(it.next().err(), Some(e));
                    break;
                }
            }
        }
    }
}

#[test]
fn pubtypes_point_into_debug_types() {
    let buf = compact_set(2, 0x77, 0x20, &[(0x5, "Point"), (0x9, "Line")]);
    let section = DebugPubTypes::from(Reader::new(&buf, Endian::Little));
    let mut it = section.items();
    let e = it.next().unwrap().unwrap();
    assert_eq!(e.unit_header_offset, DebugTypesOffset(0x77));
    assert_eq!(e.die_offset, UnitOffset(0x5));
    assert_eq!(e.name.to_slice(), b"Point");
    let e = it.next().unwrap().unwrap();
    assert_eq!(e.name.to_slice(), b"Line");
    assert!(it.next().unwrap().is_none());
}

#[test]
fn from_and_new_agree() {
    let buf = two_sets(2);
    let a: DebugPubNames = DebugLookup::from(Reader::new(&buf, Endian::Little));
    let b = DebugPubNames::new(Reader::new(&buf, Endian::Little));
    assert_eq!(names(&a), names(&b));
    let first: PubNamesEntry = a.items().next().unwrap().unwrap();
    assert_eq!(first.name.to_slice(), b"alpha");
}

#[test]
fn initial_length_formats() {
    let compact = [0x10u8, 0, 0, 0, 0xaa];
    let mut r = Reader::new(&compact, Endian::Little);
    assert_eq!(parse_initial_length(&mut r), Ok((0x10, Format::Dwarf32)));
    assert_eq!(r.to_slice(), &[0xaa]);

    let extended = [0xffu8, 0xff, 0xff, 0xff, 1, 2, 3, 4, 5, 6, 7, 8];
    let mut r = Reader::new(&extended, Endian::Little);
    assert_eq!(parse_initial_length(&mut r), Ok((0x0807_0605_0403_0201, Format::Dwarf64)));
    assert!(r.is_empty());

    let cut = [0xffu8, 0xff, 0xff, 0xff, 1, 2];
    let mut r = Reader::new(&cut, Endian::Little);
    assert_eq!(parse_initial_length(&mut r), Err(Error::UnexpectedEof));
}

#[test]
fn reader_reads_little_endian() {
    let bytes = [0x01u8, 0x02, 0x03, 0x04, 0x05, 0x06, 0x07, 0x08, 0x09, 0x0a, b'h', b'i', 0, 0x7f];
    let mut r = Reader::new(&bytes, Endian::Little);
    assert_eq!(r.read_u16(), Ok(0x0201));
    assert_eq!(r.read_u32(), Ok(0x0605_0403));
    assert_eq!(r.read_word(Format::Dwarf32), Ok(0x0a09_0807));
    let name = r.read_null_terminated_slice().unwrap();
    assert_eq!(name.to_slice(), b"hi");
    assert_eq!(r.len(), 1);
    assert_eq!(r.read_u16(), Err(Error::UnexpectedEof));
    assert_eq!(r.read_null_terminated_slice().err(), Some(Error::MissingNullTerminator));
    r.empty();
    assert!(r.is_empty());

    let mut r = Reader::new(&bytes, Endian::Little);
    assert_eq!(r.read_u64(), Ok(0x0807_0605_0403_0201));
    let mut head = r.split(3).unwrap();
    assert_eq!(head.to_slice(), &[0x09, 0x0a, b'h']);
    assert_eq!(head.read_u16(), Ok(0x0a09));
    assert_eq!(r.to_slice(), &[b'i', 0, 0x7f]);
    assert!(r.split(4).is_err());
    assert_eq!(r.read_word(Format::Dwarf64), Err(Error::UnexpectedEof));
}

fn big_endian_set(unit_offset: u32, entries: &[(u32, &str)]) -> Vec<u8> {
    let mut body = Vec::new();
    body.extend_from_slice(&2u16.to_be_bytes());
    body.extend_from_slice(&unit_offset.to_be_bytes());
    body.extend_from_slice(&0x40u32.to_be_bytes());
    for (offset, name) in entries {
        body.extend_from_slice(&offset.to_be_bytes());
        body.extend_from_slice(name.as_bytes());
        body.push(0);
    }
    body.extend_from_slice(&0u32.to_be_bytes());
    let mut set = (body.len() as u32).to_be_bytes().to_vec();
    set.extend(body);
    set
}

#[test]
fn big_endian_section() {
    let mut buf = big_endian_set(0x0102_0304, &[(0x10, "alpha"), (0x0a0b_0c0d, "beta")]);
    buf.extend(big_endian_set(0x200, &[(0x30, "gamma")]));
    let section = DebugPubNames::new(Reader::new(&buf, Endian::Big));
    assert_eq!(
        names(&section),
        (
            vec![
                (0x0102_0304, 0x10, b"alpha".to_vec()),
                (0x0102_0304, 0x0a0b_0c0d, b"beta".to_vec()),
                (0x200, 0x30, b"gamma".to_vec()),
            ],
            None
        )
    );
    let wrong = DebugPubNames::new(Reader::new(&buf, Endian::Little));
    assert_eq!(names(&wrong).1, Some(Error::UnexpectedEof));
}

#[test]
fn reader_reads_big_endian() {
    let bytes = [0x01u8, 0x02, 0x03, 0x04, 0x05, 0x06, 0x07, 0x08, 0x09, 0x0a, 0x0b, 0x0c, 0x0d, 0x0e];
    let mut r = Reader::new(&bytes, Endian::Big);
    assert_eq!(r.endian(), Endian::Big);
    assert_eq!(r.read_u16(), Ok(0x0102));
    assert_eq!(r.read_u32(), Ok(0x0304_0506));
    assert_eq!(r.read_u64(), Ok(0x0708_090a_0b0c_0d0e));
    assert!(r.is_empty());

    let extended = [0xffu8, 0xff, 0xff, 0xff, 0, 0, 0, 0, 0, 0, 0x01, 0x00];
    let mut r = Reader::new(&extended, Endian::Big);
    assert_eq!(parse_initial_length(&mut r), Ok((0x100, Format::Dwarf64)));
    let mut r = Reader::new(&bytes, Endian::Big);
    assert_eq!(r.read_word(Format::Dwarf32), Ok(0x0102_0304));
    assert_eq!(r.read_word(Format::Dwarf64), Ok(0x0506_0708_090a_0b0c));
}

#[test]
fn clones_scan_on_their_own() {
    let buf = two_sets(2);
    let section = DebugPubNames::new(Reader::new(&buf, Endian::Little));
    let copy = section.clone();
    let mut a = section.items();
    assert_eq!(a.next().unwrap().unwrap().name.to_slice(), b"alpha");
    let mut b = a.clone();
    assert_eq!(a.next().unwrap().unwrap().name.to_slice(), b"beta");
    assert_eq!(b.next().unwrap().unwrap().name.to_slice(), b"beta");
    assert_eq!(names(&copy), names(&section));
}
