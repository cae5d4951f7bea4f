use vstd::prelude::*;

use core::marker::PhantomData;

use crate::parser::{parse_initial_length, spec_parse_initial_length, Error, Format, Result};
use crate::reader::{spec_read_null_terminated, spec_read_u16, spec_read_word, spec_split, Endian, Reader};

verus! {

// The accelerated-access sections (DWARF 4, section 6.1) share one shape: a
// run of sets, each a header that points at one compilation unit followed by
// the entries that unit covers. `LookupParser` is what one table format
// supplies; `DebugLookup` and `LookupEntryIter` are the scan shared by all.

/// How one table format decodes a set header and a single entry.
pub trait LookupParser<'a> {
    /// The decoded header of one set.
    type Header: Clone;
    /// The decoded entry; its view is what the contracts speak of.
    type Entry: View;

    /// Decoding the set at the front of `input`, words in byte order
    /// `endian`: the bytes of its entries, the bytes after the set, and its
    /// header.
    spec fn spec_parse_header(input: Seq<u8>, endian: Endian) -> Result<
        (Seq<u8>, Seq<u8>, Self::Header),
    >;

    /// Decoding one entry at the front of `input`: `None` where the set ends,
    /// and the bytes left over.
    spec fn spec_parse_entry(input: Seq<u8>, endian: Endian, header: Self::Header) -> Result<
        (Option<<Self::Entry as View>::V>, Seq<u8>),
    >;

    /// A decoded set and what follows it are strictly shorter, together,
    /// than the input.
    proof fn lemma_header_progress(input: Seq<u8>, endian: Endian)
        ensures
            Self::spec_parse_header(input, endian) matches Ok((set, rest, _)) ==> set.len()
                + rest.len() < input.len(),
    ;

    /// Decoding an entry from bytes consumes some of them.
    proof fn lemma_entry_progress(input: Seq<u8>, endian: Endian, header: Self::Header)
        requires
            input.len() > 0,
        ensures
            Self::spec_parse_entry(input, endian, header) matches Ok((_, rest)) ==> rest.len()
                < input.len(),
    ;

    /// Parses a header from `input`. Returns `input` narrowed to the entries
    /// of this set, and the header; `input` moves past the set.
    fn parse_header(input: &mut Reader<'a>) -> (r: Result<(Reader<'a>, Self::Header)>)
        ensures
            match Self::spec_parse_header(old(input)@, old(input).spec_endian()) {
                Ok((set, rest, h)) => r matches Ok((s, hh)) && s@ == set && hh == h
                    && final(input)@ == rest && s.spec_endian() == old(input).spec_endian(),
                Err(e) => r matches Err(e2) && e2 == e,
            },
            final(input).spec_endian() == old(input).spec_endian(),
    ;

    /// Parses a single entry from `input`; `None` at the end of the set.
    fn parse_entry(input: &mut Reader<'a>, header: &Self::Header) -> (r: Result<
        Option<Self::Entry>,
    >)
        ensures
            match Self::spec_parse_entry(old(input)@, old(input).spec_endian(), *header) {
                Ok((x, rest)) => final(input)@ == rest && match r {
                    Ok(Some(e)) => x == Some(e@),
                    Ok(None) => x is None,
                    Err(_) => false,
                },
                Err(e) => r matches Err(e2) && e2 == e,
            },
            final(input).spec_endian() == old(input).spec_endian(),
    ;
}

/// What a scan yields: the entries in order, then the error that ended it,
/// if one did.
pub type Outcome<V> = (Seq<V>, Option<Error>);

/// The outcome of one scan followed by another: the second counts only
/// where the first ended without error.
pub open spec fn join_outcomes<V>(first: Outcome<V>, second: Outcome<V>) -> Outcome<V> {
    if first.1 is Some {
        first
    } else {
        (first.0 + second.0, second.1)
    }
}

/// The entries that the bytes `input` of one set yield under `header`.
pub open spec fn set_outcome<'a, P: LookupParser<'a>>(
    input: Seq<u8>,
    endian: Endian,
    header: P::Header,
) -> Outcome<
    <P::Entry as View>::V,
>
    decreases input.len(),
{
    if input.len() == 0 {
        (Seq::empty(), None)
    } else {
        proof {
            P::lemma_entry_progress(input, endian, header);
        }
        match P::spec_parse_entry(input, endian, header) {
            Err(e) => (Seq::empty(), Some(e)),
            Ok((None, rest)) => set_outcome::<P>(rest, endian, header),
            Ok((Some(x), rest)) => {
                let tail = set_outcome::<P>(rest, endian, header);
                (seq![x] + tail.0, tail.1)
            },
        }
    }
}

/// The entries that a whole section `input` yields, set after set.
pub open spec fn scan_outcome<'a, P: LookupParser<'a>>(input: Seq<u8>, endian: Endian) -> Outcome<
    <P::Entry as View>::V,
>
    decreases input.len(),
{
    if input.len() == 0 {
        (Seq::empty(), None)
    } else {
        proof {
            P::lemma_header_progress(input, endian);
        }
        match P::spec_parse_header(input, endian) {
            Err(e) => (Seq::empty(), Some(e)),
            Ok((set, rest, h)) => join_outcomes(
                set_outcome::<P>(set, endian, h),
                scan_outcome::<P>(rest, endian),
            ),
        }
    }
}

/// A whole lookup section, ready to be scanned any number of times.
#[derive(Debug)]
pub struct DebugLookup<'a, P: LookupParser<'a>> {
    input_buffer: Reader<'a>,
    phantom: PhantomData<P>,
}

impl<'a, P: LookupParser<'a>> DebugLookup<'a, P> {
    /// The bytes of the section.
    pub closed spec fn buffer(&self) -> Seq<u8> {
        self.input_buffer@
    }

    /// The byte order of the section's words.
    pub closed spec fn endian(&self) -> Endian {
        self.input_buffer.spec_endian()
    }

    /// A section over the bytes of `input_buffer`, in its byte order.
    pub fn new(input_buffer: Reader<'a>) -> (r: Self)
        ensures
            r.buffer() == input_buffer@,
            r.endian() == input_buffer.spec_endian(),
    {
        DebugLookup { input_buffer, phantom: PhantomData }
    }

    /// A fresh scan from the start of the section. Each scan has its own
    /// position: what it yields is the outcome of the section's bytes alone.
    pub fn items(&self) -> (r: LookupEntryIter<'a, P>)
        ensures
            r.pending() == scan_outcome::<P>(self.buffer(), self.endian()),
    {
        LookupEntryIter { current_set: None, remaining_input: self.input_buffer, error: None }
    }
}

impl<'a, P: LookupParser<'a>> Clone for DebugLookup<'a, P> {
    fn clone(&self) -> (r: Self) {
        DebugLookup { input_buffer: self.input_buffer, phantom: PhantomData }
    }
}

impl<'a, P: LookupParser<'a>> From<Reader<'a>> for DebugLookup<'a, P> {
    fn from(input_buffer: Reader<'a>) -> (r: Self) {
        DebugLookup { input_buffer, phantom: PhantomData }
    }
}

impl<'a, P: LookupParser<'a>> vstd::std_specs::convert::FromSpecImpl<Reader<'a>> for DebugLookup<'a, P> {
    open spec fn obeys_from_spec() -> bool {
        true
    }

    closed spec fn from_spec(input_buffer: Reader<'a>) -> Self {
        DebugLookup { input_buffer, phantom: PhantomData }
    }
}

/// A section built by `from` holds exactly the bytes of the reader it was
/// built from, in the reader's byte order.
pub proof fn lemma_from_keeps_buffer<'a, P: LookupParser<'a>>(r: Reader<'a>)
    ensures
        <DebugLookup<'a, P> as vstd::std_specs::convert::FromSpec<Reader<'a>>>::from_spec(r).buffer()
            == r@,
        <DebugLookup<'a, P> as vstd::std_specs::convert::FromSpec<Reader<'a>>>::from_spec(r).endian()
            == r.spec_endian(),
{
}

/// A scan over the entries of a lookup section, one set at a time.
#[derive(Clone, Debug)]
pub struct LookupEntryIter<'a, P: LookupParser<'a>> {
    /// The set being read: its entries not read yet, and its header.
    current_set: Option<(Reader<'a>, P::Header)>,
    /// The sets not begun yet.
    remaining_input: Reader<'a>,
    /// The error that ended the scan, returned again by every later call.
    error: Option<Error>,
}

impl<'a, P: LookupParser<'a>> LookupEntryIter<'a, P> {
    /// What the scan has yet to yield.
    pub closed spec fn pending(&self) -> Outcome<<P::Entry as View>::V> {
        match self.error {
            Some(e) => (Seq::empty(), Some(e)),
            None => {
                let rest = scan_outcome::<P>(
                    self.remaining_input@,
                    self.remaining_input.spec_endian(),
                );
                match self.current_set {
                    Some((set, h)) => join_outcomes(set_outcome::<P>(set@, set.spec_endian(), h), rest),
                    None => rest,
                }
            },
        }
    }

    /// The number of bytes the scan has yet to look at.
    closed spec fn bytes_left(&self) -> nat {
        self.remaining_input@.len() + match self.current_set {
            Some((set, _)) => set@.len(),
            None => 0,
        }
    }

    /// Advances the scan. Returns `Ok(Some(entry))` for the next entry,
    /// `Ok(None)` once every entry has been yielded, and `Err(e)` where
    /// decoding failed; after an error, every later call returns it again.
    pub fn next(&mut self) -> (r: Result<Option<P::Entry>>)
        ensures
            ({
                let p = old(self).pending();
                if p.0.len() > 0 {
                    &&& (r matches Ok(Some(x)) && x@ == p.0[0])
                    &&& final(self).pending() == (p.0.drop_first(), p.1)
                } else {
                    &&& final(self).pending() == p
                    &&& match p.1 {
                        Some(e) => r == Err::<Option<P::Entry>, Error>(e),
                        None => r matches Ok(None),
                    }
                }
            }),
            r is Err ==> final(self).pending() == old(self).pending(),
    {
        if let Some(e) = self.error {
            return Err(e);
        }
        loop
            invariant
                self.error is None,
                self.pending() == old(self).pending(),
            decreases self.bytes_left(),
        {
            let ghost rem0 = self.remaining_input@;
            let ghost e0 = self.remaining_input.spec_endian();
            let cur = self.current_set.take();
            if let Some((mut input, header)) = cur {
                if !input.is_empty() {
                    let ghost in0 = input@;
                    proof {
                        P::lemma_entry_progress(in0, input.spec_endian(), header);
                    }
                    match P::parse_entry(&mut input, &header) {
                        Ok(Some(entry)) => {
                            self.current_set = Some((input, header));
                            proof {
                                let tail = set_outcome::<P>(input@, input.spec_endian(), header);
                                let p = join_outcomes(tail, scan_outcome::<P>(rem0, e0));
                                lemma_join_cons(entry@, tail, scan_outcome::<P>(rem0, e0));
                                assert(p.0 =~= old(self).pending().0.drop_first());
                            }
                            return Ok(Some(entry));
                        },
                        Ok(None) => {
                            self.current_set = Some((input, header));
                            continue ;
                        },
                        Err(e) => {
                            self.error = Some(e);
                            return Err(e);
                        },
                    }
                }
                proof {
                    lemma_join_empty(
                        set_outcome::<P>(input@, input.spec_endian(), header),
                        scan_outcome::<P>(rem0, e0),
                    );
                }
            }
            if self.remaining_input.is_empty() {
                return Ok(None);
            }
            proof {
                P::lemma_header_progress(rem0, e0);
            }
            match P::parse_header(&mut self.remaining_input) {
                Ok(set) => {
                    self.current_set = Some(set);
                },
                Err(e) => {
                    self.error = Some(e);
                    return Err(e);
                },
            }
        }
    }
}

/// The one thing that `.debug_pubnames` and `.debug_pubtypes` differ in:
/// which section their offsets point into, and so the types they build.
pub trait NamesOrTypesSwitch<'a> {
    /// The decoded header of one set.
    type Header: Clone;
    /// The decoded entry.
    type Entry: View;
    /// The offset from a header into the companion section.
    type Offset;

    /// The header that `new_header` builds.
    spec fn spec_new_header(
        format: Format,
        set_length: u64,
        version: u16,
        offset: Self::Offset,
        length: u64,
    ) -> Self::Header;

    /// The view of the entry that `new_entry` builds.
    spec fn spec_new_entry(offset: u64, name: Seq<u8>, header: Self::Header) -> <Self::Entry as View>::V;

    /// The offset that a word read from a header stands for.
    spec fn spec_offset(word: u64) -> Self::Offset;

    /// The format that a header was decoded in.
    spec fn spec_format_from(header: Self::Header) -> Format;

    /// A header remembers the format it was built with.
    proof fn lemma_format_kept(
        format: Format,
        set_length: u64,
        version: u16,
        offset: Self::Offset,
        length: u64,
    )
        ensures
            Self::spec_format_from(Self::spec_new_header(format, set_length, version, offset, length))
                == format,
    ;

    /// Builds a header from its decoded fields.
    fn new_header(
        format: Format,
        set_length: u64,
        version: u16,
        offset: Self::Offset,
        length: u64,
    ) -> (r: Self::Header)
        ensures
            r == Self::spec_new_header(format, set_length, version, offset, length),
    ;

    /// Builds an entry from its offset, its name and the header of its set.
    fn new_entry(offset: u64, name: Reader<'a>, header: &Self::Header) -> (r: Self::Entry)
        ensures
            r@ == Self::spec_new_entry(offset, name@, *header),
    ;

    /// Reads the offset of a header: one word of the width that `format` gives.
    fn parse_offset(input: &mut Reader<'a>, format: Format) -> (r: Result<Self::Offset>)
        ensures
            match spec_read_word(old(input)@, format, old(input).spec_endian()) {
                Ok((w, rest)) => r matches Ok(o) && o == Self::spec_offset(w) && final(input)@
                    == rest,
                Err(e) => r matches Err(e2) && e2 == e,
            },
            final(input).spec_endian() == old(input).spec_endian(),
    ;

    /// The format that `header` was decoded in.
    fn format_from(header: &Self::Header) -> (r: Format)
        ensures
            r == Self::spec_format_from(*header),
    ;
}

/// The version that every set of these tables carries.
pub const LOOKUP_VERSION: u16 = 2;

/// The parser shared by `.debug_pubnames` and `.debug_pubtypes`; `S` picks
/// the table. It only names a format and is never built.
#[derive(Debug)]
pub struct PubStuffParser<S> {
    phantom: PhantomData<S>,
}

impl<S> Clone for PubStuffParser<S> {
    fn clone(&self) -> (r: Self) {
        PubStuffParser { phantom: PhantomData }
    }
}

/// The set at the front of `input`: a length prefix, then within that many
/// bytes a version (which must be 2), an offset and a length, each a word of
/// the prefix's format, then the entries.
pub open spec fn spec_pub_header<'a, S: NamesOrTypesSwitch<'a>>(input: Seq<u8>, e: Endian) -> Result<
    (Seq<u8>, Seq<u8>, S::Header),
> {
    match spec_parse_initial_length(input, e) {
        Err(err) => Err(err),
        Ok((set_length, format, after)) => match spec_split(after, set_length) {
            Err(err) => Err(err),
            Ok((set, rest)) => match spec_read_u16(set, e) {
                Err(err) => Err(err),
                Ok((version, s1)) => if version != LOOKUP_VERSION {
                    Err(Error::UnknownVersion)
                } else {
                    match spec_read_word(s1, format, e) {
                        Err(err) => Err(err),
                        Ok((offset, s2)) => match spec_read_word(s2, format, e) {
                            Err(err) => Err(err),
                            Ok((length, entries)) => Ok(
                                (
                                    entries,
                                    rest,
                                    S::spec_new_header(
                                        format,
                                        set_length,
                                        version,
                                        S::spec_offset(offset),
                                        length,
                                    ),
                                ),
                            ),
                        },
                    }
                },
            },
        },
    }
}

/// The entry at the front of `input`: a word of the header's format; zero
/// ends the set and leaves nothing of it, anything else is followed by a
/// zero-terminated name.
pub open spec fn spec_pub_entry<'a, S: NamesOrTypesSwitch<'a>>(
    input: Seq<u8>,
    e: Endian,
    header: S::Header,
) -> Result<(Option<<S::Entry as View>::V>, Seq<u8>)> {
    match spec_read_word(input, S::spec_format_from(header), e) {
        Err(err) => Err(err),
        Ok((offset, rest)) => if offset == 0 {
            Ok((None, Seq::empty()))
        } else {
            match spec_read_null_terminated(rest) {
                Err(err) => Err(err),
                Ok((name, after)) => Ok((Some(S::spec_new_entry(offset, name, header)), after)),
            }
        },
    }
}

impl<'a, S: NamesOrTypesSwitch<'a>> LookupParser<'a> for PubStuffParser<S> {
    type Header = S::Header;

    type Entry = S::Entry;

    open spec fn spec_parse_header(input: Seq<u8>, endian: Endian) -> Result<
        (Seq<u8>, Seq<u8>, S::Header),
    > {
        spec_pub_header::<S>(input, endian)
    }

    open spec fn spec_parse_entry(input: Seq<u8>, endian: Endian, header: S::Header) -> Result<
        (Option<<S::Entry as View>::V>, Seq<u8>),
    > {
        spec_pub_entry::<S>(input, endian, header)
    }

    proof fn lemma_header_progress(input: Seq<u8>, endian: Endian) {
    }

    proof fn lemma_entry_progress(input: Seq<u8>, endian: Endian, header: S::Header) {
    }

    fn parse_header(input: &mut Reader<'a>) -> (r: Result<(Reader<'a>, S::Header)>) {
        let (set_length, format) = parse_initial_length(input)?;
        let mut rest = input.split(set_length)?;

        let version = rest.read_u16()?;
        if version != LOOKUP_VERSION {
            return Err(Error::UnknownVersion);
        }

        let info_offset = S::parse_offset(&mut rest, format)?;
        let info_length = rest.read_word(format)?;

        Ok((rest, S::new_header(format, set_length, version, info_offset, info_length)))
    }

    fn parse_entry(input: &mut Reader<'a>, header: &S::Header) -> (r: Result<Option<S::Entry>>) {
        let offset = input.read_word(S::format_from(header))?;

        if offset == 0 {
            input.empty();
            Ok(None)
        } else {
            let name = input.read_null_terminated_slice()?;
            Ok(Some(S::new_entry(offset, name, header)))
        }
    }
}

/// One set never yields more entries than it has bytes.
pub proof fn lemma_set_bounded<'a, P: LookupParser<'a>>(
    input: Seq<u8>,
    endian: Endian,
    header: P::Header,
)
    ensures
        set_outcome::<P>(input, endian, header).0.len() <= input.len(),
    decreases input.len(),
{
    if input.len() > 0 {
        P::lemma_entry_progress(input, endian, header);
        if let Ok((_, rest)) = P::spec_parse_entry(input, endian, header) {
            lemma_set_bounded::<P>(rest, endian, header);
        }
    }
}

/// A scan ends: a section yields at most as many entries as it has bytes, and
/// `next` yields them one per call before it reports the end or an error.
pub proof fn lemma_scan_bounded<'a, P: LookupParser<'a>>(input: Seq<u8>, endian: Endian)
    ensures
        scan_outcome::<P>(input, endian).0.len() <= input.len(),
    decreases input.len(),
{
    if input.len() > 0 {
        P::lemma_header_progress(input, endian);
        if let Ok((set, rest, h)) = P::spec_parse_header(input, endian) {
            lemma_set_bounded::<P>(set, endian, h);
            lemma_scan_bounded::<P>(rest, endian);
        }
    }
}

/// Entries come in the order of the sets on disk: those of the first set
/// come first, and where that set ends cleanly the entries of the later sets
/// follow, as a scan of them alone would yield them.
pub proof fn lemma_scan_order<'a, P: LookupParser<'a>>(input: Seq<u8>, endian: Endian)
    requires
        input.len() > 0,
        P::spec_parse_header(input, endian) is Ok,
    ensures
        ({
            let (set, rest, h) = P::spec_parse_header(input, endian)->Ok_0;
            let first = set_outcome::<P>(set, endian, h);
            let all = scan_outcome::<P>(input, endian);
            &&& first.0.is_prefix_of(all.0)
            &&& first.1 is Some ==> all == first
            &&& first.1 is None ==> all.0.skip(first.0.len() as int) == scan_outcome::<P>(
                rest,
                endian,
            ).0 && all.1 == scan_outcome::<P>(rest, endian).1
        }),
{
    let (set, rest, h) = P::spec_parse_header(input, endian)->Ok_0;
    let first = set_outcome::<P>(set, endian, h);
    let all = scan_outcome::<P>(input, endian);
    assert(all == join_outcomes(first, scan_outcome::<P>(rest, endian)));
    if first.1 is None {
        assert(all.0.skip(first.0.len() as int) =~= scan_outcome::<P>(rest, endian).0);
    }
    assert(first.0.is_prefix_of(all.0)) by {
        assert(all.0.take(first.0.len() as int) =~= first.0);
    }
}

/// A set whose entries begin with the zero sentinel yields no entry and no
/// error, whatever follows the sentinel.
pub proof fn lemma_sentinel_ends_set<'a, S: NamesOrTypesSwitch<'a>>(
    input: Seq<u8>,
    endian: Endian,
    header: S::Header,
)
    requires
        spec_read_word(input, S::spec_format_from(header), endian) matches Ok((w, _)) && w == 0,
    ensures
        set_outcome::<PubStuffParser<S>>(input, endian, header) == (
            Seq::<<S::Entry as View>::V>::empty(),
            None::<Error>,
        ),
{
    assert(set_outcome::<PubStuffParser<S>>(Seq::empty(), endian, header) == (
        Seq::<<S::Entry as View>::V>::empty(),
        None::<Error>,
    ));
}

/// A section whose first set carries a version other than 2 yields no entry:
/// the scan fails at once with `UnknownVersion`.
pub proof fn lemma_version_rejected<'a, S: NamesOrTypesSwitch<'a>>(input: Seq<u8>, endian: Endian)
    requires
        spec_parse_initial_length(input, endian) matches Ok((n, _, after)) && spec_split(
            after,
            n,
        ) matches Ok((set, _)) && spec_read_u16(set, endian) matches Ok((v, _)) && v
            != LOOKUP_VERSION,
    ensures
        scan_outcome::<PubStuffParser<S>>(input, endian) == (
            Seq::<<S::Entry as View>::V>::empty(),
            Some(Error::UnknownVersion),
        ),
{
}

/// Every entry of a pubnames or pubtypes set takes at least five bytes: a
/// non-zero word of four or eight bytes and the zero that ends its name.
pub proof fn lemma_pub_set_bounded<'a, S: NamesOrTypesSwitch<'a>>(
    input: Seq<u8>,
    endian: Endian,
    header: S::Header,
)
    ensures
        5 * set_outcome::<PubStuffParser<S>>(input, endian, header).0.len() <= input.len(),
    decreases input.len(),
{
    if input.len() > 0 {
        if let Ok((x, rest)) = spec_pub_entry::<S>(input, endian, header) {
            if x is Some {
                let (_, after) = spec_read_word(input, S::spec_format_from(header), endian)->Ok_0;
                assert(after.len() + 4 <= input.len());
                assert(rest.len() + 1 <= after.len());
            }
            lemma_pub_set_bounded::<S>(rest, endian, header);
        }
    }
}

/// A pubnames or pubtypes section of `n` bytes yields at most `n / 5`
/// entries, so a scan of it ends after at most that many entries.
pub proof fn lemma_pub_scan_bounded<'a, S: NamesOrTypesSwitch<'a>>(input: Seq<u8>, endian: Endian)
    ensures
        5 * scan_outcome::<PubStuffParser<S>>(input, endian).0.len() <= input.len(),
    decreases input.len(),
{
    if input.len() > 0 {
        if let Ok((set, rest, h)) = spec_pub_header::<S>(input, endian) {
            lemma_pub_set_bounded::<S>(set, endian, h);
            lemma_pub_scan_bounded::<S>(rest, endian);
        }
    }
}

/// Putting an entry in front of the first outcome puts it in front of the
/// joined outcome.
proof fn lemma_join_cons<V>(x: V, first: Outcome<V>, second: Outcome<V>)
    ensures
        join_outcomes((seq![x] + first.0, first.1), second) == ({
            let j = join_outcomes(first, second);
            (seq![x] + j.0, j.1)
        }),
{
    if first.1 is None {
        assert(seq![x] + first.0 + second.0 =~= seq![x] + (first.0 + second.0));
    }
}

/// An empty outcome without error, joined before another, leaves it as it is.
proof fn lemma_join_empty<V>(first: Outcome<V>, second: Outcome<V>)
    requires
        first.0.len() == 0,
        first.1 is None,
    ensures
        join_outcomes(first, second) == second,
{
    assert(first.0 + second.0 =~= second.0);
}

} // verus!
