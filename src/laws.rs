use crate::error::{Error, ErrorKind};
use crate::parser::{magic, record_len, spec_commands, spec_parse};
use crate::reader::{le_u32, spec_u32, truncated_at};
use crate::session::{CommandView, SessionView};
use crate::text::{
    decode_utf16, encode_scalar_utf16, encode_utf16, is_high_surrogate, is_low_surrogate,
    le_units, pair_scalar, round_up4, spec_bytes_field, spec_padded, spec_utf16_field,
    spec_utf8_field,
};
use vstd::prelude::*;
use vstd::utf8::{decode_utf8, decode_utf8_encode_utf8, encode_utf8, valid_utf8};

verus! {

/// The declared lengths of the records that the framing reads from position `p` on.
pub open spec fn record_lengths(d: Seq<u8>, p: int) -> Seq<int>
    decreases d.len() - p,
{
    if p < 0 || d.len() - p < 2 {
        seq![]
    } else {
        let len = record_len(d, p);
        if len > d.len() - p - 2 {
            seq![]
        } else {
            seq![len] + record_lengths(d, p + 2 + len)
        }
    }
}

/// The positions of the length fields of the records read from position `p` on.
pub open spec fn record_starts(d: Seq<u8>, p: int) -> Seq<int>
    decreases d.len() - p,
{
    if p < 0 || d.len() - p < 2 {
        seq![]
    } else {
        let len = record_len(d, p);
        if len > d.len() - p - 2 {
            seq![]
        } else {
            seq![p] + record_starts(d, p + 2 + len)
        }
    }
}

/// The bytes that records of the given declared lengths occupy, length fields included.
pub open spec fn framed_size(lens: Seq<int>) -> int
    decreases lens.len(),
{
    if lens.len() == 0 {
        0
    } else {
        2 + lens[0] + framed_size(lens.drop_first())
    }
}

proof fn lemma_tiles_from(d: Seq<u8>, p: int)
    requires
        0 <= p <= d.len(),
        spec_commands(d, p) is Ok,
    ensures
        record_lengths(d, p).len() == spec_commands(d, p)->Ok_0.len(),
        0 <= d.len() - p - framed_size(record_lengths(d, p)) < 2,
    decreases d.len() - p,
{
    if d.len() - p >= 2 {
        let len = record_len(d, p);
        lemma_tiles_from(d, p + 2 + len);
        let lens = record_lengths(d, p);
        assert(lens.drop_first() == record_lengths(d, p + 2 + len));
    }
}

/// Framing never drifts: a file that decodes holds one record per command,
/// and the header, the length fields and the declared record lengths add up
/// to the whole file but for at most one trailing byte.
pub proof fn lemma_framing_tiles(d: Seq<u8>)
    requires
        spec_parse(d) is Ok,
    ensures
        record_lengths(d, 8).len() == spec_parse(d)->Ok_0.commands.len(),
        0 <= d.len() - 8 - framed_size(record_lengths(d, 8)) < 2,
{
    lemma_tiles_from(d, 8);
}

/// A UTF-8 field that decodes re-encodes to exactly its meaningful bytes, so
/// applying the length and padding rule to the re-encoded text gives back the
/// field's size on the wire.
pub proof fn lemma_utf8_field_round_trip(b: Seq<u8>, i: int, base: int)
    requires
        0 <= i,
        spec_utf8_field(b, i, base) is Ok,
    ensures
        ({
            let (t, k) = spec_utf8_field(b, i, base)->Ok_0;
            let n = le_u32(b, i) as int;
            &&& encode_utf8(t) == b.subrange(i + 4, i + 4 + n)
            &&& k == i + 4 + round_up4(encode_utf8(t).len() as int)
        }),
{
    let n = le_u32(b, i) as int;
    assert(spec_u32(b, i, base) == Ok::<(u32, int), Error>((le_u32(b, i), i + 4)));
    let bytes = b.subrange(i + 4, i + 4 + n);
    assert(spec_bytes_field(b, i, base) == Ok::<(Seq<u8>, int), Error>((bytes, i + 4 + round_up4(n))));
    assert(valid_utf8(bytes));
    decode_utf8_encode_utf8(bytes);
    lemma_round_up4_bounds(n);
    assert(bytes.len() == n);
    assert(encode_utf8(decode_utf8(bytes)).len() == n);
    assert(spec_utf8_field(b, i, base)->Ok_0 == (decode_utf8(bytes), i + 4 + round_up4(n)));
}

/// Rounding up to a multiple of 4 adds less than 4.
pub proof fn lemma_round_up4_bounds(n: int)
    requires
        n >= 0,
    ensures
        n <= round_up4(n) < n + 4,
        round_up4(n) % 4 == 0,
{
}

proof fn lemma_truncated_from(d: Seq<u8>, p: int, k: int, t: int)
    requires
        0 <= p <= d.len(),
        spec_commands(d, p) is Ok,
        0 <= k < record_starts(d, p).len(),
        record_starts(d, p)[k] + 2 <= t < record_starts(d, p)[k] + 2 + record_len(d, record_starts(d, p)[k]),
    ensures
        spec_commands(d.subrange(0, t), p) == Err::<Seq<CommandView>, Error>(truncated_at(record_starts(d, p)[k])),
    decreases d.len() - p,
{
    lemma_starts_from(d, p);
    let e = d.subrange(0, t);
    let len = record_len(d, p);
    assert(record_starts(d, p)[0] == p);
    assert(record_len(e, p) == len);
    if k > 0 {
        let q = p + 2 + len;
        assert(record_starts(d, q) =~= record_starts(d, p).drop_first());
        lemma_truncated_from(d, q, k - 1, t);
        assert(e.subrange(p + 2, q) =~= d.subrange(p + 2, q));
    }
}

/// Cutting a file that decodes inside the body of one of its records gives
/// `Truncated` at the position of that record's length field.
pub proof fn lemma_truncation_reported(d: Seq<u8>, k: int, t: int)
    requires
        spec_parse(d) is Ok,
        0 <= k < record_starts(d, 8).len(),
        record_starts(d, 8)[k] + 2 <= t < record_starts(d, 8)[k] + 2 + record_len(d, record_starts(d, 8)[k]),
    ensures
        spec_parse(d.subrange(0, t)) == Err::<SessionView, Error>(truncated_at(record_starts(d, 8)[k])),
        record_starts(d, 8)[k] >= 8,
{
    lemma_starts_from(d, 8);
    assert(record_starts(d, 8)[k] >= 8);
    let e = d.subrange(0, t);
    lemma_truncated_from(d, 8, k, t);
    assert(e.subrange(0, 4) =~= d.subrange(0, 4));
    assert(spec_u32(e, 4, 0) == spec_u32(d, 4, 0));
}

proof fn lemma_starts_from(d: Seq<u8>, p: int)
    requires
        0 <= p,
    ensures
        forall|k: int|
            0 <= k < record_starts(d, p).len() ==> {
                let q = #[trigger] record_starts(d, p)[k];
                &&& q >= p
                &&& q + 2 + record_len(d, q) <= d.len()
            },
    decreases d.len() - p,
{
    if d.len() - p >= 2 {
        let len = record_len(d, p);
        if len <= d.len() - p - 2 {
            let q = p + 2 + len;
            lemma_starts_from(d, q);
            assert forall|k: int| 0 <= k < record_starts(d, p).len() implies {
                let s = #[trigger] record_starts(d, p)[k];
                &&& s >= p
                &&& s + 2 + record_len(d, s) <= d.len()
            } by {
                if k > 0 {
                    assert(record_starts(d, p)[k] == record_starts(d, q)[k - 1]);
                }
            }
        }
    }
}

/// A file whose first four bytes are not the ASCII tag `SNSS` is refused
/// with `BadMagic` at offset 0, whatever follows.
pub proof fn lemma_bad_magic(d: Seq<u8>)
    requires
        d.len() >= 4,
        d.subrange(0, 4) != magic(),
    ensures
        spec_parse(d) == Err::<SessionView, Error>(Error { kind: ErrorKind::BadMagic, offset: 0 }),
{
}

/// A file that holds the header alone decodes to its version and no commands.
pub proof fn lemma_header_only(d: Seq<u8>)
    requires
        d.len() == 8,
        d.subrange(0, 4) == magic(),
    ensures
        spec_parse(d) == Ok::<SessionView, Error>(
            SessionView { version: le_u32(d, 4) as i32, commands: seq![] },
        ),
{
}

proof fn lemma_pair_round_trip(hi: u16, lo: u16)
    requires
        is_high_surrogate(hi),
        is_low_surrogate(lo),
    ensures
        ((pair_scalar(hi, lo) as char) as u32) == pair_scalar(hi, lo),
        encode_scalar_utf16(pair_scalar(hi, lo)) == seq![hi, lo],
{
    let v = pair_scalar(hi, lo);
    let a = (hi - 0xD800) as int;
    let b = (lo - 0xDC00) as int;
    assert(0 <= a < 0x400 && 0 <= b < 0x400);
    assert(a * 0x400 + b < 0x100000) by (nonlinear_arith)
        requires
            0 <= a < 0x400,
            0 <= b < 0x400,
    ;
    assert(v - 0x10000 == a * 0x400 + b);
    assert((a * 0x400 + b) / 0x400 == a && (a * 0x400 + b) % 0x400 == b) by (nonlinear_arith)
        requires
            0 <= a < 0x400,
            0 <= b < 0x400,
    ;
    assert(encode_scalar_utf16(v) =~= seq![hi, lo]);
}

/// Decoding UTF-16 units and encoding the characters again gives back the
/// same units.
pub proof fn lemma_utf16_round_trip(units: Seq<u16>)
    requires
        decode_utf16(units) is Some,
    ensures
        encode_utf16(decode_utf16(units)->Some_0) == units,
    decreases units.len(),
{
    if units.len() > 0 {
        let t = decode_utf16(units)->Some_0;
        if units.len() >= 2 && is_high_surrogate(units[0]) && is_low_surrogate(units[1]) {
            let rest = units.subrange(2, units.len() as int);
            lemma_utf16_round_trip(rest);
            lemma_pair_round_trip(units[0], units[1]);
            assert(t.drop_first() =~= decode_utf16(rest)->Some_0);
            assert(units =~= seq![units[0], units[1]] + rest);
        } else {
            let rest = units.drop_first();
            lemma_utf16_round_trip(rest);
            let u = units[0] as u32;
            assert(((u as char) as u32) == u);
            assert(t.drop_first() =~= decode_utf16(rest)->Some_0);
            assert(encode_scalar_utf16(u) =~= seq![units[0]]);
            assert(units =~= seq![units[0]] + rest);
        }
    }
}

/// A UTF-16 field that decodes re-encodes to as many units as its count
/// declares, so applying the length and padding rule to the re-encoded text
/// gives back the field's size on the wire.
pub proof fn lemma_utf16_field_round_trip(b: Seq<u8>, i: int, base: int)
    requires
        0 <= i,
        spec_utf16_field(b, i, base) is Ok,
    ensures
        ({
            let (t, k) = spec_utf16_field(b, i, base)->Ok_0;
            let count = le_u32(b, i) as int;
            &&& encode_utf16(t) == le_units(b.subrange(i + 4, i + 4 + 2 * count))
            &&& encode_utf16(t).len() == count
            &&& k == i + 4 + round_up4(2 * encode_utf16(t).len() as int)
        }),
{
    let count = le_u32(b, i) as int;
    assert(spec_u32(b, i, base) == Ok::<(u32, int), Error>((le_u32(b, i), i + 4)));
    lemma_round_up4_bounds(2 * count);
    let bytes = b.subrange(i + 4, i + 4 + 2 * count);
    assert(spec_padded(b, i, i + 4, base, 2 * count) == Ok::<(Seq<u8>, int), Error>(
        (bytes, i + 4 + round_up4(2 * count)),
    ));
    assert(bytes.len() == 2 * count);
    assert(le_units(bytes).len() == count);
    lemma_utf16_round_trip(le_units(bytes));
}

} // verus!
