//! Byte codecs for the fields of the records: little-endian integers, keys and
//! zero-padded labels.
use crate::error::FracError;
use vstd::prelude::*;

verus! {

/// Length of an account key.
pub const PUBKEY_LEN: usize = 32;

/// Width of the label field of a PIECE.
pub const PIECESLUG_LEN: usize = 67;

/// Width of the label field of a REF.
pub const REFSLUG_LEN: usize = 20;

pub open spec fn u16_bytes(v: u16) -> Seq<u8> {
    seq![v as u8, (v >> 8u16) as u8]
}

pub open spec fn u16_value(s: Seq<u8>) -> u16 {
    (s[0] as u16) | ((s[1] as u16) << 8u16)
}

pub open spec fn u32_bytes(v: u32) -> Seq<u8> {
    seq![v as u8, (v >> 8u32) as u8, (v >> 16u32) as u8, (v >> 24u32) as u8]
}

pub open spec fn u32_value(s: Seq<u8>) -> u32 {
    (s[0] as u32) | ((s[1] as u32) << 8u32) | ((s[2] as u32) << 16u32) | ((s[3] as u32) << 24u32)
}

pub open spec fn u64_bytes(v: u64) -> Seq<u8> {
    seq![
        v as u8,
        (v >> 8u64) as u8,
        (v >> 16u64) as u8,
        (v >> 24u64) as u8,
        (v >> 32u64) as u8,
        (v >> 40u64) as u8,
        (v >> 48u64) as u8,
        (v >> 56u64) as u8,
    ]
}

pub open spec fn u64_value(s: Seq<u8>) -> u64 {
    (s[0] as u64) | ((s[1] as u64) << 8u64) | ((s[2] as u64) << 16u64) | ((s[3] as u64) << 24u64)
        | ((s[4] as u64) << 32u64) | ((s[5] as u64) << 40u64) | ((s[6] as u64) << 48u64) | ((
    s[7] as u64) << 56u64)
}

/// `label` right-padded with zero bytes to `width` bytes.
pub open spec fn padded(label: Seq<u8>, width: nat) -> Seq<u8> {
    label + Seq::new((width - label.len()) as nat, |_i: int| 0u8)
}

/// Appends `src` to `out`.
pub fn append_bytes(out: &mut Vec<u8>, src: &[u8])
    ensures
        final(out)@ == old(out)@ + src@,
{
    let mut i: usize = 0;
    while i < src.len()
        invariant
            0 <= i <= src@.len(),
            out@ == old(out)@ + src@.subrange(0, i as int),
        decreases src@.len() - i,
    {
        out.push(src[i]);
        i = i + 1;
        assert(out@ =~= old(out)@ + src@.subrange(0, i as int));
    }
    assert(src@.subrange(0, src@.len() as int) =~= src@);
}

/// The bytes of `b` from `start` up to `end`.
pub fn copy_range(b: &[u8], start: usize, end: usize) -> (r: Vec<u8>)
    requires
        start <= end <= b@.len(),
    ensures
        r@ == b@.subrange(start as int, end as int),
{
    let mut r: Vec<u8> = Vec::new();
    let mut i: usize = start;
    while i < end
        invariant
            start <= i <= end <= b@.len(),
            r@ == b@.subrange(start as int, i as int),
        decreases end - i,
    {
        r.push(b[i]);
        i = i + 1;
        assert(r@ =~= b@.subrange(start as int, i as int));
    }
    r
}

pub fn write_u16(out: &mut Vec<u8>, v: u16)
    ensures
        final(out)@ == old(out)@ + u16_bytes(v),
{
    out.push(v as u8);
    out.push((v >> 8u16) as u8);
    assert(final(out)@ =~= old(out)@ + u16_bytes(v));
}

pub fn write_u32(out: &mut Vec<u8>, v: u32)
    ensures
        final(out)@ == old(out)@ + u32_bytes(v),
{
    out.push(v as u8);
    out.push((v >> 8u32) as u8);
    out.push((v >> 16u32) as u8);
    out.push((v >> 24u32) as u8);
    assert(final(out)@ =~= old(out)@ + u32_bytes(v));
}

pub fn write_u64(out: &mut Vec<u8>, v: u64)
    ensures
        final(out)@ == old(out)@ + u64_bytes(v),
{
    out.push(v as u8);
    out.push((v >> 8u64) as u8);
    out.push((v >> 16u64) as u8);
    out.push((v >> 24u64) as u8);
    out.push((v >> 32u64) as u8);
    out.push((v >> 40u64) as u8);
    out.push((v >> 48u64) as u8);
    out.push((v >> 56u64) as u8);
    assert(final(out)@ =~= old(out)@ + u64_bytes(v));
}

pub fn read_u16(b: &[u8], at: usize) -> (r: u16)
    requires
        at + 2 <= b@.len(),
    ensures
        r == u16_value(b@.subrange(at as int, at + 2)),
{
    (b[at] as u16) | ((b[at + 1] as u16) << 8u16)
}

pub fn read_u32(b: &[u8], at: usize) -> (r: u32)
    requires
        at + 4 <= b@.len(),
    ensures
        r == u32_value(b@.subrange(at as int, at + 4)),
{
    (b[at] as u32) | ((b[at + 1] as u32) << 8u32) | ((b[at + 2] as u32) << 16u32) | ((b[at
        + 3] as u32) << 24u32)
}

pub fn read_u64(b: &[u8], at: usize) -> (r: u64)
    requires
        at + 8 <= b@.len(),
    ensures
        r == u64_value(b@.subrange(at as int, at + 8)),
{
    (b[at] as u64) | ((b[at + 1] as u64) << 8u64) | ((b[at + 2] as u64) << 16u64) | ((b[at
        + 3] as u64) << 24u64) | ((b[at + 4] as u64) << 32u64) | ((b[at + 5] as u64) << 40u64)
        | ((b[at + 6] as u64) << 48u64) | ((b[at + 7] as u64) << 56u64)
}

/// Reading back a written `u16` gives the value, and writing a read one gives
/// the bytes.
pub proof fn lemma_u16_round_trip(v: u16, s: Seq<u8>)
    requires
        s.len() == 2,
    ensures
        u16_value(u16_bytes(v)) == v,
        u16_bytes(u16_value(s)) == s,
{
    let (b0, b1) = (s[0], s[1]);
    assert(((v as u8) as u16) | ((((v >> 8u16) as u8) as u16) << 8u16) == v) by (bit_vector);
    let x = u16_value(s);
    assert(x == (b0 as u16) | ((b1 as u16) << 8u16));
    assert((x as u8) == b0 && ((x >> 8u16) as u8) == b1) by (bit_vector)
        requires
            x == (b0 as u16) | ((b1 as u16) << 8u16),
    ;
    assert(u16_bytes(x) =~= s);
}

/// Reading back a written `u32` gives the value, and writing a read one gives
/// the bytes.
pub proof fn lemma_u32_round_trip(v: u32, s: Seq<u8>)
    requires
        s.len() == 4,
    ensures
        u32_value(u32_bytes(v)) == v,
        u32_bytes(u32_value(s)) == s,
{
    let (b0, b1, b2, b3) = (s[0], s[1], s[2], s[3]);
    assert(((v as u8) as u32) | ((((v >> 8u32) as u8) as u32) << 8u32) | ((((v >> 16u32) as u8)
        as u32) << 16u32) | ((((v >> 24u32) as u8) as u32) << 24u32) == v) by (bit_vector);
    let x = u32_value(s);
    assert(x == (b0 as u32) | ((b1 as u32) << 8u32) | ((b2 as u32) << 16u32) | ((b3 as u32)
        << 24u32));
    assert((x as u8) == b0 && ((x >> 8u32) as u8) == b1 && ((x >> 16u32) as u8) == b2 && ((x
        >> 24u32) as u8) == b3) by (bit_vector)
        requires
            x == (b0 as u32) | ((b1 as u32) << 8u32) | ((b2 as u32) << 16u32) | ((b3 as u32)
                << 24u32),
    ;
    assert(u32_bytes(x) =~= s);
}

/// Reading back a written `u64` gives the value, and writing a read one gives
/// the bytes.
pub proof fn lemma_u64_round_trip(v: u64, s: Seq<u8>)
    requires
        s.len() == 8,
    ensures
        u64_value(u64_bytes(v)) == v,
        u64_bytes(u64_value(s)) == s,
{
    let (b0, b1, b2, b3, b4, b5, b6, b7) = (s[0], s[1], s[2], s[3], s[4], s[5], s[6], s[7]);
    assert(((v as u8) as u64) | ((((v >> 8u64) as u8) as u64) << 8u64) | ((((v >> 16u64) as u8)
        as u64) << 16u64) | ((((v >> 24u64) as u8) as u64) << 24u64) | ((((v >> 32u64) as u8)
        as u64) << 32u64) | ((((v >> 40u64) as u8) as u64) << 40u64) | ((((v >> 48u64) as u8)
        as u64) << 48u64) | ((((v >> 56u64) as u8) as u64) << 56u64) == v) by (bit_vector);
    let x = u64_value(s);
    assert(x == (b0 as u64) | ((b1 as u64) << 8u64) | ((b2 as u64) << 16u64) | ((b3 as u64)
        << 24u64) | ((b4 as u64) << 32u64) | ((b5 as u64) << 40u64) | ((b6 as u64) << 48u64)
        | ((b7 as u64) << 56u64));
    assert((x as u8) == b0 && ((x >> 8u64) as u8) == b1 && ((x >> 16u64) as u8) == b2 && ((x
        >> 24u64) as u8) == b3 && ((x >> 32u64) as u8) == b4 && ((x >> 40u64) as u8) == b5
        && ((x >> 48u64) as u8) == b6 && ((x >> 56u64) as u8) == b7) by (bit_vector)
        requires
            x == (b0 as u64) | ((b1 as u64) << 8u64) | ((b2 as u64) << 16u64) | ((b3 as u64)
                << 24u64) | ((b4 as u64) << 32u64) | ((b5 as u64) << 40u64) | ((b6 as u64)
                << 48u64) | ((b7 as u64) << 56u64),
    ;
    assert(u64_bytes(x) =~= s);
}

/// Zero-pads `label` to `width` bytes; a label longer than the field is
/// refused with `LabelTooLong`.
pub fn pack_slug(label: &[u8], width: usize) -> (r: Result<Vec<u8>, FracError>)
    ensures
        label@.len() <= width ==> r is Ok && r->Ok_0@ == padded(label@, width as nat),
        label@.len() > width ==> r == Err::<Vec<u8>, FracError>(FracError::LabelTooLong),
{
    if label.len() > width {
        return Err(FracError::LabelTooLong);
    }
    let mut out: Vec<u8> = Vec::new();
    append_bytes(&mut out, label);
    let mut i: usize = label.len();
    while i < width
        invariant
            label@.len() <= i <= width,
            out@ == padded(label@, i as nat),
        decreases width - i,
    {
        out.push(0u8);
        i = i + 1;
        assert(out@ =~= padded(label@, i as nat));
    }
    assert(out@ =~= padded(label@, width as nat));
    Ok(out)
}

} // verus!
