use crate::error::{Error, ErrorKind};
use crate::reader::{le_u16, spec_u32, truncated_at, Reader};
use vstd::prelude::*;
use vstd::slice::{slice_subrange, slice_to_vec};
use vstd::utf8::{decode_utf8, valid_utf8};

verus! {

/// `n` rounded up to the next multiple of 4.
pub open spec fn round_up4(n: int) -> int {
    (n + 3) / 4 * 4
}

/// The error for a text field whose bytes at absolute offset `at` do not decode.
pub open spec fn invalid_text_at(at: int) -> Error {
    Error { kind: ErrorKind::InvalidText, offset: at as usize }
}

/// The 16-bit little-endian units of `b`, two bytes each.
pub open spec fn le_units(b: Seq<u8>) -> Seq<u16> {
    Seq::new((b.len() / 2) as nat, |k: int| le_u16(b, 2 * k))
}

pub open spec fn is_high_surrogate(u: u16) -> bool {
    0xD800 <= u <= 0xDBFF
}

pub open spec fn is_low_surrogate(u: u16) -> bool {
    0xDC00 <= u <= 0xDFFF
}

/// The scalar value that a surrogate pair encodes.
pub open spec fn pair_scalar(hi: u16, lo: u16) -> u32 {
    (0x10000 + (hi - 0xD800) * 0x400 + (lo - 0xDC00)) as u32
}

/// The characters that UTF-16 units encode, or `None` when a surrogate stands
/// unpaired.
pub open spec fn decode_utf16(units: Seq<u16>) -> Option<Seq<char>>
    decreases units.len(),
{
    if units.len() == 0 {
        Some(seq![])
    } else if units.len() >= 2 && is_high_surrogate(units[0]) && is_low_surrogate(units[1]) {
        match decode_utf16(units.subrange(2, units.len() as int)) {
            Some(rest) => Some(seq![pair_scalar(units[0], units[1]) as char] + rest),
            None => None,
        }
    } else if is_high_surrogate(units[0]) || is_low_surrogate(units[0]) {
        None
    } else {
        match decode_utf16(units.drop_first()) {
            Some(rest) => Some(seq![(units[0] as u32) as char] + rest),
            None => None,
        }
    }
}

/// The UTF-16 units of one scalar value.
pub open spec fn encode_scalar_utf16(c: u32) -> Seq<u16> {
    if c < 0x10000 {
        seq![c as u16]
    } else {
        seq![(0xD800 + (c - 0x10000) / 0x400) as u16, (0xDC00 + (c - 0x10000) % 0x400) as u16]
    }
}

/// The UTF-16 encoding of `chars`.
pub open spec fn encode_utf16(chars: Seq<char>) -> Seq<u16>
    decreases chars.len(),
{
    if chars.len() == 0 {
        seq![]
    } else {
        encode_scalar_utf16(chars[0] as u32) + encode_utf16(chars.drop_first())
    }
}

/// A field of `n` meaningful bytes whose length field stands at position `i`
/// and whose data, zero-padded to a multiple of 4, begins at `j`.
pub open spec fn spec_padded(b: Seq<u8>, i: int, j: int, base: int, n: int) -> Result<(Seq<u8>, int), Error> {
    if b.len() - j < round_up4(n) {
        Err(truncated_at(base + i))
    } else {
        Ok((b.subrange(j, j + n), j + round_up4(n)))
    }
}

/// A byte field: a 32-bit byte count, then that many bytes padded to a
/// multiple of 4.
pub open spec fn spec_bytes_field(b: Seq<u8>, i: int, base: int) -> Result<(Seq<u8>, int), Error> {
    match spec_u32(b, i, base) {
        Err(e) => Err(e),
        Ok((n, j)) => spec_padded(b, i, j, base, n as int),
    }
}

/// A UTF-8 text field: a byte field whose bytes are valid UTF-8.
pub open spec fn spec_utf8_field(b: Seq<u8>, i: int, base: int) -> Result<(Seq<char>, int), Error> {
    match spec_bytes_field(b, i, base) {
        Err(e) => Err(e),
        Ok((bytes, k)) => if valid_utf8(bytes) {
            Ok((decode_utf8(bytes), k))
        } else {
            Err(invalid_text_at(base + i + 4))
        },
    }
}

/// A UTF-16 text field: a 32-bit count of units, then twice that many bytes
/// padded to a multiple of 4, holding valid UTF-16LE.
pub open spec fn spec_utf16_field(b: Seq<u8>, i: int, base: int) -> Result<(Seq<char>, int), Error> {
    match spec_u32(b, i, base) {
        Err(e) => Err(e),
        Ok((count, j)) => match spec_padded(b, i, j, base, 2 * count) {
            Err(e) => Err(e),
            Ok((bytes, k)) => match decode_utf16(le_units(bytes)) {
                Some(t) => Ok((t, k)),
                None => Err(invalid_text_at(base + j)),
            },
        },
    }
}

/// Relies on `String::from_utf8`: it succeeds exactly on valid UTF-8, and then
/// holds the characters that the bytes encode.
#[verifier::external_body]
fn string_from_utf8(bytes: Vec<u8>) -> (r: Option<String>)
    ensures
        r is Some <==> valid_utf8(bytes@),
        r is Some ==> r->Some_0@ == decode_utf8(bytes@),
{
    String::from_utf8(bytes).ok()
}

/// Relies on `String::from_utf16`: it fails exactly where a surrogate stands
/// unpaired, and otherwise holds the characters that the units encode.
#[verifier::external_body]
fn string_from_utf16(units: &[u16]) -> (r: Option<String>)
    ensures
        match decode_utf16(units@) {
            Some(t) => r is Some && r->Some_0@ == t,
            None => r is None,
        },
{
    String::from_utf16(units).ok()
}

/// `n` rounded up to the next multiple of 4.
pub fn round_up4_u64(n: u64) -> (r: u64)
    requires
        n <= u64::MAX - 3,
    ensures
        r == round_up4(n as int),
{
    (n + 3) / 4 * 4
}

/// Reads `n` meaningful bytes padded to a multiple of 4; `start` is the
/// absolute offset of the field's length.
fn read_padded<'a>(r: &mut Reader<'a>, start: usize, n: u64) -> (res: Result<&'a [u8], Error>)
    requires
        old(r).wf(),
        n <= 0x1_ffff_fffe,
        start as int == old(r).base() + old(r).pos() - 4,
        old(r).pos() >= 4,
    ensures
        final(r).wf(),
        final(r).data() == old(r).data(),
        final(r).base() == old(r).base(),
        match spec_padded(old(r).data(), old(r).pos() - 4, old(r).pos(), old(r).base(), n as int) {
            Ok((v, k)) => res is Ok && res->Ok_0@ == v && final(r).pos() == k,
            Err(e) => res == Err::<&'a [u8], Error>(e),
        },
{
    let padded = round_up4_u64(n);
    if padded > r.remaining_len() as u64 {
        return Err(Error { kind: ErrorKind::Truncated, offset: start });
    }
    let field = match r.take(padded as usize) {
        Ok(f) => f,
        Err(e) => return Err(e),
    };
    assert(field@.subrange(0, n as int) == old(r).data().subrange(old(r).pos(), old(r).pos() + n));
    Ok(slice_subrange(field, 0, n as usize))
}

/// Reads a byte field.
pub fn read_bytes_field(r: &mut Reader) -> (res: Result<Vec<u8>, Error>)
    requires
        old(r).wf(),
    ensures
        final(r).wf(),
        final(r).data() == old(r).data(),
        final(r).base() == old(r).base(),
        match spec_bytes_field(old(r).data(), old(r).pos(), old(r).base()) {
            Ok((v, k)) => res is Ok && res->Ok_0@ == v && final(r).pos() == k,
            Err(e) => res == Err::<Vec<u8>, Error>(e),
        },
{
    let start = r.offset();
    let n = match r.read_u32_le() {
        Ok(n) => n,
        Err(e) => return Err(e),
    };
    match read_padded(r, start, n as u64) {
        Ok(bytes) => Ok(slice_to_vec(bytes)),
        Err(e) => Err(e),
    }
}

/// Reads a UTF-8 text field.
pub fn read_utf8_field(r: &mut Reader) -> (res: Result<String, Error>)
    requires
        old(r).wf(),
    ensures
        final(r).wf(),
        final(r).data() == old(r).data(),
        final(r).base() == old(r).base(),
        match spec_utf8_field(old(r).data(), old(r).pos(), old(r).base()) {
            Ok((v, k)) => res is Ok && res->Ok_0@ == v && final(r).pos() == k,
            Err(e) => res == Err::<String, Error>(e),
        },
{
    let start = r.offset();
    let bytes = match read_bytes_field(r) {
        Ok(b) => b,
        Err(e) => return Err(e),
    };
    match string_from_utf8(bytes) {
        Some(s) => Ok(s),
        None => Err(Error { kind: ErrorKind::InvalidText, offset: start + 4 }),
    }
}

/// The little-endian 16-bit units of `bytes`, whose length is even.
pub fn units_of(bytes: &[u8]) -> (r: Vec<u16>)
    requires
        bytes@.len() % 2 == 0,
    ensures
        r@ == le_units(bytes@),
{
    let mut units: Vec<u16> = Vec::new();
    let mut k: usize = 0;
    let count = bytes.len() / 2;
    while k < count
        invariant
            count == bytes@.len() / 2,
            bytes@.len() <= usize::MAX,
            k <= count,
            units@ == le_units(bytes@).subrange(0, k as int),
        decreases count - k,
    {
        assert(2 * k + 1 < bytes@.len());
        let lo = bytes[2 * k] as u16;
        let hi = bytes[2 * k + 1] as u16;
        units.push(lo + 256 * hi);
        k = k + 1;
        assert(units@ == le_units(bytes@).subrange(0, k as int));
    }
    assert(units@ == le_units(bytes@));
    units
}

/// Reads a UTF-16 text field.
pub fn read_utf16_field(r: &mut Reader) -> (res: Result<String, Error>)
    requires
        old(r).wf(),
    ensures
        final(r).wf(),
        final(r).data() == old(r).data(),
        final(r).base() == old(r).base(),
        match spec_utf16_field(old(r).data(), old(r).pos(), old(r).base()) {
            Ok((v, k)) => res is Ok && res->Ok_0@ == v && final(r).pos() == k,
            Err(e) => res == Err::<String, Error>(e),
        },
{
    let start = r.offset();
    let count = match r.read_u32_le() {
        Ok(c) => c,
        Err(e) => return Err(e),
    };
    let bytes = match read_padded(r, start, 2 * (count as u64)) {
        Ok(b) => b,
        Err(e) => return Err(e),
    };
    let units = units_of(bytes);
    match string_from_utf16(units.as_slice()) {
        Some(s) => Ok(s),
        None => Err(Error { kind: ErrorKind::InvalidText, offset: start + 4 }),
    }
}

} // verus!
