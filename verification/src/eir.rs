//! The advertisement decoder.
//!
//! A radio advertisement is a length-prefixed sequence of tagged entries:
//! one byte of length, one byte of type, then the payload.  Decoding walks
//! the buffer, stopping cleanly at trailing padding (fewer than two bytes
//! left), at a zero-length entry, and at the first entry whose declared
//! length overruns the buffer.
//! A manufacturer-specific entry can carry a vendor beacon, which a second,
//! fallible step decodes.

use vstd::prelude::*;
use vstd::slice::{slice_subrange, slice_to_vec};

verus! {

/// The value of a little-endian byte string: the first byte is least
/// significant.
pub open spec fn le_val(s: Seq<u8>) -> nat
    decreases s.len(),
{
    if s.len() == 0 {
        0
    } else {
        (s[0] + 256 * le_val(s.skip(1))) as nat
    }
}

/// The value of a big-endian byte string: the last byte is least
/// significant.
pub open spec fn be_val(s: Seq<u8>) -> nat
    decreases s.len(),
{
    if s.len() == 0 {
        0
    } else {
        (be_val(s.drop_last()) * 256 + s.last()) as nat
    }
}

/// `256^k`, the bound on a `k`-byte value.
pub open spec fn pow256(k: nat) -> nat
    decreases k,
{
    if k == 0 {
        1
    } else {
        256 * pow256((k - 1) as nat)
    }
}

proof fn lemma_le_val_bound(s: Seq<u8>)
    ensures
        le_val(s) < pow256(s.len()),
    decreases s.len(),
{
    if s.len() == 0 {
    } else {
        lemma_le_val_bound(s.skip(1));
        assert(le_val(s) < 256 * pow256(s.skip(1).len())) by (nonlinear_arith)
            requires
                le_val(s) == s[0] + 256 * le_val(s.skip(1)),
                s[0] < 256,
                le_val(s.skip(1)) < pow256(s.skip(1).len()),
        ;
    }
}

proof fn lemma_be_val_bound(s: Seq<u8>)
    ensures
        be_val(s) < pow256(s.len()),
    decreases s.len(),
{
    if s.len() == 0 {
    } else {
        lemma_be_val_bound(s.drop_last());
        assert(be_val(s) < 256 * pow256(s.drop_last().len())) by (nonlinear_arith)
            requires
                be_val(s) == be_val(s.drop_last()) * 256 + s.last(),
                s.last() < 256,
                be_val(s.drop_last()) < pow256(s.drop_last().len()),
        ;
    }
}

proof fn lemma_pow256_16()
    ensures
        pow256(16) == 0x1_0000_0000_0000_0000_0000_0000_0000_0000,
        pow256(2) == 0x1_0000,
    decreases 16int,
{
    assert(pow256(0) == 1);
    assert(pow256(1) == 0x100);
    assert(pow256(2) == 0x1_0000);
    assert(pow256(3) == 0x100_0000);
    assert(pow256(4) == 0x1_0000_0000);
    assert(pow256(5) == 0x100_0000_0000);
    assert(pow256(6) == 0x1_0000_0000_0000);
    assert(pow256(7) == 0x100_0000_0000_0000);
    assert(pow256(8) == 0x1_0000_0000_0000_0000);
    assert(pow256(9) == 0x100_0000_0000_0000_0000);
    assert(pow256(10) == 0x1_0000_0000_0000_0000_0000);
    assert(pow256(11) == 0x100_0000_0000_0000_0000_0000);
    assert(pow256(12) == 0x1_0000_0000_0000_0000_0000_0000);
    assert(pow256(13) == 0x100_0000_0000_0000_0000_0000_0000);
    assert(pow256(14) == 0x1_0000_0000_0000_0000_0000_0000_0000);
    assert(pow256(15) == 0x100_0000_0000_0000_0000_0000_0000_0000);
    assert(pow256(16) == 0x1_0000_0000_0000_0000_0000_0000_0000_0000);
}

proof fn lemma_pow256_monotone(a: nat, b: nat)
    requires
        a <= b,
    ensures
        pow256(a) <= pow256(b),
    decreases b,
{
    if a < b {
        lemma_pow256_monotone(a, (b - 1) as nat);
        assert(pow256((b - 1) as nat) <= 256 * pow256((b - 1) as nat)) by (nonlinear_arith)
            requires
                pow256((b - 1) as nat) >= 0,
        ;
    }
}

/// Reads a `width`-byte little-endian value out of `b`.
fn read_le(b: &[u8], from: usize, width: usize) -> (r: u128)
    requires
        width <= 16,
        from + width <= b@.len(),
    ensures
        r == le_val(b@.subrange(from as int, from + width)),
{
    let ghost s = b@.subrange(from as int, from + width);
    let blen = b.len();
    let mut r: u128 = 0;
    let mut k = width;
    while k > 0
        invariant
            k <= width <= 16,
            from + width <= blen == b@.len(),
            s == b@.subrange(from as int, from + width),
            r == le_val(s.skip(k as int)),
            r < pow256((width - k) as nat),
        decreases k,
    {
        proof {
            lemma_pow256_16();
            lemma_pow256_monotone((width - k) as nat, 15);
            assert(r * 256 + 255 < pow256((width - k + 1) as nat)) by (nonlinear_arith)
                requires
                    r < pow256((width - k) as nat),
                    pow256((width - k + 1) as nat) == 256 * pow256((width - k) as nat),
            ;
            lemma_pow256_monotone((width - k + 1) as nat, 16);
            assert(s.skip(k - 1)[0] == s[k - 1]);
            assert(s.skip(k - 1).skip(1) =~= s.skip(k as int));
        }
        k = k - 1;
        r = r * 256 + (b[from + k] as u128);
    }
    proof {
        assert(s.skip(0) =~= s);
    }
    r
}

/// Reads a `width`-byte big-endian value out of `b`.
fn read_be(b: &[u8], from: usize, width: usize) -> (r: u128)
    requires
        width <= 16,
        from + width <= b@.len(),
    ensures
        r == be_val(b@.subrange(from as int, from + width)),
{
    let ghost s = b@.subrange(from as int, from + width);
    let blen = b.len();
    let mut r: u128 = 0;
    let mut k: usize = 0;
    while k < width
        invariant
            k <= width <= 16,
            from + width <= blen == b@.len(),
            s == b@.subrange(from as int, from + width),
            r == be_val(s.take(k as int)),
            r < pow256(k as nat),
        decreases width - k,
    {
        proof {
            lemma_pow256_16();
            assert(r * 256 + 255 < pow256((k + 1) as nat)) by (nonlinear_arith)
                requires
                    r < pow256(k as nat),
                    pow256((k + 1) as nat) == 256 * pow256(k as nat),
            ;
            lemma_pow256_monotone((k + 1) as nat, 16);
            assert(s.take(k + 1).drop_last() =~= s.take(k as int));
            assert(s.take(k + 1).last() == s[k as int]);
        }
        r = r * 256 + (b[from + k] as u128);
        k = k + 1;
    }
    proof {
        assert(s.take(width as int) =~= s);
    }
    r
}

/// A name for what `String::from_utf8_lossy` returns: the characters
/// decoding the bytes, with each ill-formed sequence replaced.
pub uninterp spec fn lossy_utf8(bytes: Seq<u8>) -> Seq<char>;

/// Relies on String::from_utf8_lossy: the result is a function of the
/// bytes alone, and valid UTF-8 decodes to exactly its own characters.
#[verifier::external_body]
fn utf8_lossy(bytes: &[u8]) -> (r: String)
    ensures
        r@ == lossy_utf8(bytes@),
        vstd::utf8::valid_utf8(bytes@) ==> r@ == vstd::utf8::decode_utf8(bytes@),
{
    String::from_utf8_lossy(bytes).into_owned()
}

/// One advertisement entry.
#[derive(Debug, Clone)]
pub enum EIREntry {
    /// Tag 0x01: the advertisement flags byte.
    Flags(u8),
    /// Tag 0x09: the peripheral's name, decoded leniently from UTF-8.
    Name(String),
    /// Tag 0x07: the advertised 128-bit service identifiers, one per
    /// sixteen-byte little-endian chunk.
    ServiceIds(Vec<u128>),
    /// Tag 0xFF: a vendor code and the vendor's own payload.
    ManufacturerSpecific(u16, Vec<u8>),
    /// Any other tag, kept verbatim.
    Other(u8, Vec<u8>),
}

/// The mathematical value of an advertisement entry.
pub ghost enum EntryV {
    Flags(u8),
    Name(Seq<char>),
    ServiceIds(Seq<u128>),
    ManufacturerSpecific(u16, Seq<u8>),
    Other(u8, Seq<u8>),
}

impl View for EIREntry {
    type V = EntryV;

    open spec fn view(&self) -> EntryV {
        match self {
            EIREntry::Flags(f) => EntryV::Flags(*f),
            EIREntry::Name(s) => EntryV::Name(s@),
            EIREntry::ServiceIds(ids) => EntryV::ServiceIds(ids@),
            EIREntry::ManufacturerSpecific(vendor, payload) => EntryV::ManufacturerSpecific(
                *vendor,
                payload@,
            ),
            EIREntry::Other(tag, payload) => EntryV::Other(*tag, payload@),
        }
    }
}

impl DeepView for EIREntry {
    type V = EntryV;

    open spec fn deep_view(&self) -> EntryV {
        self.view()
    }
}

/// The service identifiers carried by a tag-7 payload: one per full
/// sixteen-byte chunk, little endian; a short trailing chunk is ignored.
pub open spec fn service_ids_of(payload: Seq<u8>) -> Seq<u128> {
    Seq::new(
        payload.len() / 16,
        |i: int| le_val(payload.subrange(16 * i, 16 * i + 16)) as u128,
    )
}

/// What one entry body (type byte plus payload) means.  A flags entry
/// without its flags byte and a manufacturer entry without its vendor code
/// are kept verbatim rather than decoded.
pub open spec fn entry_model(body: Seq<u8>) -> EntryV
    recommends
        body.len() >= 1,
{
    let tag = body[0];
    let payload = body.skip(1);
    if tag == 0x01 && payload.len() >= 1 {
        EntryV::Flags(payload[0])
    } else if tag == 0x07 {
        EntryV::ServiceIds(service_ids_of(payload))
    } else if tag == 0x09 {
        EntryV::Name(lossy_utf8(payload))
    } else if tag == 0xFF && payload.len() >= 2 {
        EntryV::ManufacturerSpecific((payload[0] + 256 * payload[1]) as u16, payload.skip(2))
    } else {
        EntryV::Other(tag, payload)
    }
}

/// The entries of an advertisement buffer: read a length byte, take that
/// many bytes as the entry body, repeat.  Decoding stops at trailing
/// padding (fewer than two bytes), at a zero-length entry, and at an
/// entry whose declared length overruns the buffer.
pub open spec fn eir_entries(bytes: Seq<u8>) -> Seq<EntryV>
    decreases bytes.len(),
{
    if bytes.len() < 2 {
        Seq::empty()
    } else {
        let l = bytes[0] as int;
        if 1 + l > bytes.len() {
            Seq::empty()
        } else if l == 0 {
            Seq::empty()
        } else {
            seq![entry_model(bytes.subrange(1, 1 + l))] + eir_entries(bytes.skip(1 + l))
        }
    }
}

/// A view over one advertisement's raw bytes.
pub struct EIRData<'a> {
    bytes: &'a [u8],
}

impl<'a> View for EIRData<'a> {
    type V = Seq<u8>;

    closed spec fn view(&self) -> Seq<u8> {
        self.bytes@
    }
}

impl<'a> EIRData<'a> {
    /// Wraps an advertisement buffer; nothing is decoded yet.
    pub fn from(value: &'a [u8]) -> (r: Self)
        ensures
            r@ == value@,
    {
        EIRData { bytes: value }
    }

    /// Decodes every entry, in order.
    pub fn entries(&self) -> (v: Vec<EIREntry>)
        ensures
            v.deep_view() == eir_entries(self@),
    {
        let mut iter = self.iter();
        let mut v: Vec<EIREntry> = Vec::new();
        loop
            invariant
                eir_entries(self@) == v.deep_view() + eir_entries(iter@),
            ensures
                v.deep_view() == eir_entries(self@),
            decreases iter@.len(),
        {
            let ghost rem = iter@;
            match iter.next() {
                Some(e) => {
                    v.push(e);
                    proof {
                        assert(v.deep_view() + eir_entries(iter@) =~~= eir_entries(self@));
                    }
                },
                None => {
                    proof {
                        assert(eir_entries(rem) =~= Seq::<EntryV>::empty());
                        assert(v.deep_view() =~~= eir_entries(self@));
                    }
                    break;
                },
            }
        }
        v
    }

    /// An iterator over the entries.
    pub fn iter(&self) -> (r: EIRDataIter<'a>)
        ensures
            r@ == self@,
    {
        EIRDataIter { bytes: self.bytes }
    }
}

/// Walks an advertisement buffer entry by entry.
pub struct EIRDataIter<'a> {
    bytes: &'a [u8],
}

impl<'a> View for EIRDataIter<'a> {
    type V = Seq<u8>;

    closed spec fn view(&self) -> Seq<u8> {
        self.bytes@
    }
}

impl<'a> EIRDataIter<'a> {
    /// Yields the next entry.  Iteration ends at trailing padding, at a
    /// zero-length entry, and at an entry whose declared length overruns
    /// the buffer.
    pub fn next(&mut self) -> (r: Option<EIREntry>)
        ensures
            ({
                let rem = old(self)@;
                if rem.len() < 2 || 1 + rem[0] > rem.len() || rem[0] == 0 {
                    &&& r is None
                    &&& eir_entries(rem) == Seq::<EntryV>::empty()
                    &&& final(self)@ == rem
                } else {
                    &&& r matches Some(e) && e@ == entry_model(
                        rem.subrange(1, 1 + rem[0]),
                    )
                    &&& final(self)@ == rem.skip(1 + rem[0])
                    &&& eir_entries(rem) == seq![entry_model(rem.subrange(1, 1 + rem[0]))]
                        + eir_entries(final(self)@)
                    &&& final(self)@.len() < rem.len()
                }
            }),
    {
        if self.bytes.len() < 2 {
            return None;
        }
        let l = self.bytes[0] as usize;
        if 1 + l > self.bytes.len() || l == 0 {
            return None;
        }
        let body = slice_subrange(self.bytes, 1, 1 + l);
        let entry = parse_entry(body);
        self.bytes = slice_subrange(self.bytes, 1 + l, self.bytes.len());
        Some(entry)
    }
}

/// A vendor proximity beacon: an identity and two coarse measurements.
#[derive(Debug, Clone, Copy, PartialEq, Eq, Structural)]
pub struct Beacon {
    pub uuid: u128,
    pub major: u16,
    pub minor: u16,
    pub power: i8,
}

/// An Apple manufacturer-specific record.
#[derive(Debug, Clone)]
pub enum AppleEntry {
    /// Sub-type 0x02: a proximity beacon.
    Beacon(Beacon),
    /// Any other sub-type, kept verbatim.
    Other(u8, Vec<u8>),
}

/// A decoded manufacturer-specific entry.
#[derive(Debug, Clone)]
pub enum ManufacturerSpecificEntry {
    /// Vendor code 0x004C.
    Apple(AppleEntry),
    /// Any other vendor, kept verbatim.
    Other(u16, Vec<u8>),
}

/// Why a manufacturer-specific entry could not be decoded.
#[derive(Debug, Clone, Copy, PartialEq, Eq, Structural)]
pub enum BeaconConvertError {
    /// A beacon record whose declared length is not twenty-one, or whose
    /// payload is shorter than declared.  This is a hard format error, not
    /// an unknown record.
    InvalidLength,
}

/// The mathematical value of an Apple record.
pub ghost enum AppleV {
    Beacon(Beacon),
    Other(u8, Seq<u8>),
}

/// The mathematical value of a manufacturer-specific entry.
pub ghost enum MsV {
    Apple(AppleV),
    Other(u16, Seq<u8>),
}

impl View for AppleEntry {
    type V = AppleV;

    open spec fn view(&self) -> AppleV {
        match self {
            AppleEntry::Beacon(b) => AppleV::Beacon(*b),
            AppleEntry::Other(sub, payload) => AppleV::Other(*sub, payload@),
        }
    }
}

impl View for ManufacturerSpecificEntry {
    type V = MsV;

    open spec fn view(&self) -> MsV {
        match self {
            ManufacturerSpecificEntry::Apple(a) => MsV::Apple(a@),
            ManufacturerSpecificEntry::Other(vendor, payload) => MsV::Other(*vendor, payload@),
        }
    }
}

/// A byte reinterpreted as a signed power level.
pub open spec fn as_i8_val(b: u8) -> int {
    if b < 128 {
        b as int
    } else {
        b - 256
    }
}

/// The beacon carried by a length-checked record: sixteen big-endian
/// identity bytes, two big-endian measurements, one signed power byte.
pub open spec fn beacon_model(data: Seq<u8>) -> Beacon
    recommends
        data.len() >= 21,
{
    Beacon {
        uuid: be_val(data.subrange(0, 16)) as u128,
        major: be_val(data.subrange(16, 18)) as u16,
        minor: be_val(data.subrange(18, 20)) as u16,
        power: as_i8_val(data[20]) as i8,
    }
}

/// What a manufacturer-specific entry means: another vendor's entry is
/// kept verbatim; an Apple beacon record must declare length twenty-one
/// and carry that many bytes, anything else of sub-type 0x02 is a hard
/// decode error; other Apple sub-types are kept verbatim.
pub open spec fn ms_model(vendor: u16, payload: Seq<u8>) -> Result<MsV, BeaconConvertError> {
    if vendor != 0x004C {
        Ok(MsV::Other(vendor, payload))
    } else if payload.len() == 0 {
        Err(BeaconConvertError::InvalidLength)
    } else {
        let sub = payload[0];
        let rest = payload.skip(1);
        if sub == 0x02 {
            if rest.len() >= 22 && rest[0] == 21 {
                Ok(MsV::Apple(AppleV::Beacon(beacon_model(rest.skip(1)))))
            } else {
                Err(BeaconConvertError::InvalidLength)
            }
        } else {
            Ok(MsV::Apple(AppleV::Other(sub, rest)))
        }
    }
}

impl ManufacturerSpecificEntry {
    /// Decodes a manufacturer-specific entry's vendor code and payload.
    pub fn decode(vendor: u16, payload: &[u8]) -> (r: Result<
        ManufacturerSpecificEntry,
        BeaconConvertError,
    >)
        ensures
            match r {
                Ok(e) => ms_model(vendor, payload@) == Ok::<MsV, BeaconConvertError>(e@),
                Err(e) => ms_model(vendor, payload@) == Err::<MsV, BeaconConvertError>(e),
            },
    {
        let n = payload.len();
        if vendor != 0x004C {
            return Ok(ManufacturerSpecificEntry::Other(vendor, slice_to_vec(payload)));
        }
        if n == 0 {
            return Err(BeaconConvertError::InvalidLength);
        }
        let sub = payload[0];
        let ghost rest = payload@.skip(1);
        if sub == 0x02 {
            if n >= 23 && payload[1] == 21 {
                let ghost data = rest.skip(1);
                proof {
                    assert(rest[0] == payload@[1]);
                    assert(data =~= payload@.subrange(2, n as int));
                    assert(data.subrange(0, 16) =~= payload@.subrange(2, 18));
                    assert(data.subrange(16, 18) =~= payload@.subrange(18, 20));
                    assert(data.subrange(18, 20) =~= payload@.subrange(20, 22));
                    assert(data[20] == payload@[22]);
                    lemma_pow256_16();
                    lemma_be_val_bound(payload@.subrange(2, 18));
                    lemma_be_val_bound(payload@.subrange(18, 20));
                    lemma_be_val_bound(payload@.subrange(20, 22));
                    lemma_pow256_monotone(2, 16);
                }
                let uuid = read_be(payload, 2, 16);
                let major = read_be(payload, 18, 2) as u16;
                let minor = read_be(payload, 20, 2) as u16;
                let power = byte_as_i8(payload[22]);
                Ok(
                    ManufacturerSpecificEntry::Apple(
                        AppleEntry::Beacon(Beacon { uuid, major, minor, power }),
                    ),
                )
            } else {
                proof {
                    if n >= 2 && payload@[1] == 21 {
                        assert(rest.len() < 22);
                    }
                    if n >= 2 {
                        assert(rest[0] == payload@[1]);
                    }
                }
                Err(BeaconConvertError::InvalidLength)
            }
        } else {
            let tail = slice_to_vec(slice_subrange(payload, 1, n));
            proof {
                assert(tail@ =~= rest);
            }
            Ok(ManufacturerSpecificEntry::Apple(AppleEntry::Other(sub, tail)))
        }
    }
}

/// Reinterprets a byte as a signed power level.
fn byte_as_i8(b: u8) -> (r: i8)
    ensures
        r as int == as_i8_val(b),
{
    if b < 128 {
        b as i8
    } else {
        let v: i16 = (b as i16) - 256;
        v as i8
    }
}

/// Decodes one entry body: the type byte, then the payload.
fn parse_entry(body: &[u8]) -> (r: EIREntry)
    requires
        body@.len() >= 1,
    ensures
        r@ == entry_model(body@),
{
    let tag = body[0];
    let n = body.len();
    let ghost payload = body@.skip(1);
    assert(payload =~= body@.subrange(1, n as int));
    if tag == 0x01 && n >= 2 {
        EIREntry::Flags(body[1])
    } else if tag == 0x07 {
        let count = (n - 1) / 16;
        let mut ids: Vec<u128> = Vec::new();
        let mut i: usize = 0;
        proof {
            assert((n - 1) as int / 16 == payload.len() / 16);
        }
        while i < count
            invariant
                i <= count,
                count == payload.len() / 16,
                payload == body@.skip(1),
                body@.len() == n,
                n >= 1,
                ids@.len() == i,
                forall|j: int| 0 <= j < i ==> #[trigger] ids@[j] == service_ids_of(payload)[j],
            decreases count - i,
        {
            proof {
                assert((i + 1) * 16 <= count * 16) by (nonlinear_arith)
                    requires
                        i < count,
                ;
                assert(count * 16 <= payload.len()) by (nonlinear_arith)
                    requires
                        count == payload.len() / 16,
                ;
                assert(16 * (i as int) == (i as int) * 16);
            }
            let id = read_le(body, 1 + i * 16, 16);
            proof {
                lemma_pow256_16();
                lemma_le_val_bound(body@.subrange(1 + (i as int) * 16, 1 + (i as int) * 16 + 16));
                assert(body@.subrange(1 + (i as int) * 16, 1 + (i as int) * 16 + 16)
                    =~= payload.subrange(16 * (i as int), 16 * (i as int) + 16));
            }
            ids.push(id);
            i = i + 1;
        }
        proof {
            assert(ids@ =~= service_ids_of(payload));
        }
        EIREntry::ServiceIds(ids)
    } else if tag == 0x09 {
        let name = utf8_lossy(slice_subrange(body, 1, n));
        EIREntry::Name(name)
    } else if tag == 0xFF && n >= 3 {
        let vendor = (body[1] as u16) + 256 * (body[2] as u16);
        let rest = slice_to_vec(slice_subrange(body, 3, n));
        proof {
            assert(payload[0] == body@[1] && payload[1] == body@[2]);
            assert(rest@ =~= payload.skip(2));
        }
        EIREntry::ManufacturerSpecific(vendor, rest)
    } else {
        let rest = slice_to_vec(slice_subrange(body, 1, n));
        EIREntry::Other(tag, rest)
    }
}

} // verus!
