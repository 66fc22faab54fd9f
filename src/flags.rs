//! Flag codec: sixteen status bits packed into the two bytes that every record
//! starts with. The bit order is the one `bit_vec` uses: bit 0 is the
//! high-order bit of the first byte.
use bit_vec::BitVec;
use vstd::prelude::*;

verus! {

#[verifier::external_type_specification]
#[verifier::external_body]
#[verifier::reject_recursive_types(B)]
pub struct ExBitVec<B>(BitVec<B>);

/// The bits a `BitVec` holds, first to last.
pub uninterp spec fn bits_of(v: BitVec) -> Seq<bool>;

/// Number of flag bits in a record.
pub const FLAG_BITS: usize = 16;

/// Number of bytes the flag bits take on disk.
pub const FLAGS_LEN: usize = 2;

/// Bit `j` (0 = high-order) of a byte.
pub open spec fn bit_of_byte(b: u8, j: int) -> bool {
    (b >> ((7 - j) as u8)) & 1u8 == 1u8
}

/// Bit `k` of a byte string, eight bits per byte, high-order bits first.
pub open spec fn bit_at(bytes: Seq<u8>, k: int) -> bool {
    bit_of_byte(bytes[k / 8], k % 8)
}

/// `bytes` is the on-disk form of the flag bits `bits`.
pub open spec fn flag_bytes(bytes: Seq<u8>, bits: Seq<bool>) -> bool {
    &&& bytes.len() == FLAGS_LEN
    &&& bits.len() == FLAG_BITS
    &&& forall|k: int| 0 <= k < FLAG_BITS ==> bit_at(bytes, k) == bits[k]
}

/// Relies on `BitVec::from_elem`: `n` bits, each equal to `bit`.
#[verifier::external_body]
fn bits_filled(n: usize, bit: bool) -> (r: BitVec)
    ensures
        bits_of(r) == Seq::new(n as nat, |_i: int| bit),
{
    BitVec::from_elem(n, bit)
}

/// Relies on `BitVec::set`: bit `i` becomes `x`, the others stay; it panics
/// when `i` is past the end.
#[verifier::external_body]
fn set_bit(v: &mut BitVec, i: usize, x: bool)
    requires
        i < bits_of(*old(v)).len(),
    ensures
        bits_of(*final(v)) == bits_of(*old(v)).update(i as int, x),
{
    v.set(i, x)
}

/// Relies on `BitVec::get`: bit `i`, or `None` past the end.
#[verifier::external_body]
fn get_bit(v: &BitVec, i: usize) -> (r: Option<bool>)
    ensures
        r == (if i < bits_of(*v).len() { Some(bits_of(*v)[i as int]) } else { None::<bool> }),
{
    v.get(i)
}

/// Relies on `BitVec::to_bytes`: the first bit becomes the high-order bit of
/// the first byte, and a last partial byte is filled with `false` bits.
#[verifier::external_body]
fn bits_to_bytes(v: &BitVec) -> (r: Vec<u8>)
    ensures
        r@.len() == (bits_of(*v).len() + 7) / 8,
        forall|k: int|
            0 <= k < 8 * r@.len() ==> bit_at(r@, k) == (k < bits_of(*v).len() && bits_of(*v)[k]),
{
    v.to_bytes()
}

/// Relies on `BitVec::from_bytes`: eight bits per byte, high-order bits first;
/// it panics when the bit count overflows `usize`.
#[verifier::external_body]
fn bits_from_bytes(b: &[u8]) -> (r: BitVec)
    requires
        b@.len() * 8 <= usize::MAX,
    ensures
        bits_of(r) == Seq::new(8 * b@.len(), |k: int| bit_at(b@, k)),
{
    BitVec::from_bytes(b)
}

/// Sixteen status bits of a record. Bits 0 to 3 hold the class tag of the
/// record; on a REF, bits 4 to 6 are the connected, initialized and reflected
/// status bits.
#[derive(Debug)]
pub struct Flags {
    pub bits: Vec<bool>,
}

impl Flags {
    pub open spec fn wf(&self) -> bool {
        self.bits@.len() == FLAG_BITS
    }

    pub open spec fn view(&self) -> Seq<bool> {
        self.bits@
    }

    /// Flags with the given class tag (bits 0 to 3) and every other bit clear.
    pub fn with_tag(b0: bool, b1: bool, b2: bool, b3: bool) -> (r: Flags)
        ensures
            r.wf(),
            r.bits@ == tagged(b0, b1, b2, b3),
    {
        let mut bits: Vec<bool> = Vec::new();
        bits.push(b0);
        bits.push(b1);
        bits.push(b2);
        bits.push(b3);
        let mut i: usize = 4;
        while i < FLAG_BITS
            invariant
                4 <= i <= FLAG_BITS,
                bits@.len() == i,
                forall|k: int| 0 <= k < i ==> bits@[k] == tagged(b0, b1, b2, b3)[k],
            decreases FLAG_BITS - i,
        {
            bits.push(false);
            i = i + 1;
        }
        assert(bits@ =~= tagged(b0, b1, b2, b3));
        Flags { bits }
    }
}

/// Sixteen bits holding the class tag `b0 b1 b2 b3` and no other bit.
pub open spec fn tagged(b0: bool, b1: bool, b2: bool, b3: bool) -> Seq<bool> {
    Seq::new(
        FLAG_BITS as nat,
        |k: int|
            if k == 0 {
                b0
            } else if k == 1 {
                b1
            } else if k == 2 {
                b2
            } else if k == 3 {
                b3
            } else {
                false
            },
    )
}

/// Packs sixteen flag bits into their two on-disk bytes.
pub fn pack_flags(f: &Flags) -> (r: Vec<u8>)
    requires
        f.wf(),
    ensures
        flag_bytes(r@, f.bits@),
{
    let mut bv = bits_filled(FLAG_BITS, false);
    let mut i: usize = 0;
    while i < FLAG_BITS
        invariant
            f.wf(),
            0 <= i <= FLAG_BITS,
            bits_of(bv).len() == FLAG_BITS,
            forall|k: int| 0 <= k < i ==> bits_of(bv)[k] == f.bits@[k],
        decreases FLAG_BITS - i,
    {
        set_bit(&mut bv, i, f.bits[i]);
        i = i + 1;
    }
    bits_to_bytes(&bv)
}

/// Reads sixteen flag bits back from their two on-disk bytes.
pub fn unpack_flags(b: &[u8]) -> (r: Flags)
    requires
        b@.len() == FLAGS_LEN,
    ensures
        r.wf(),
        flag_bytes(b@, r.bits@),
{
    let bv = bits_from_bytes(b);
    let mut bits: Vec<bool> = Vec::new();
    let mut i: usize = 0;
    while i < FLAG_BITS
        invariant
            0 <= i <= FLAG_BITS,
            bits_of(bv) == Seq::new(8 * b@.len(), |k: int| bit_at(b@, k)),
            b@.len() == FLAGS_LEN,
            bits@.len() == i,
            forall|k: int| 0 <= k < i ==> bits@[k] == bit_at(b@, k),
        decreases FLAG_BITS - i,
    {
        let x = match get_bit(&bv, i) {
            Some(x) => x,
            None => false,
        };
        bits.push(x);
        i = i + 1;
    }
    Flags { bits }
}

/// A byte is fixed by its eight bits.
pub proof fn lemma_byte_from_bits(x: u8, y: u8)
    requires
        forall|j: int| 0 <= j < 8 ==> bit_of_byte(x, j) == bit_of_byte(y, j),
    ensures
        x == y,
{
    assert(bit_of_byte(x, 0) == bit_of_byte(y, 0));
    assert(bit_of_byte(x, 1) == bit_of_byte(y, 1));
    assert(bit_of_byte(x, 2) == bit_of_byte(y, 2));
    assert(bit_of_byte(x, 3) == bit_of_byte(y, 3));
    assert(bit_of_byte(x, 4) == bit_of_byte(y, 4));
    assert(bit_of_byte(x, 5) == bit_of_byte(y, 5));
    assert(bit_of_byte(x, 6) == bit_of_byte(y, 6));
    assert(bit_of_byte(x, 7) == bit_of_byte(y, 7));
    assert(x == y) by (bit_vector)
        requires
            ((x >> 7u8) & 1u8 == 1u8) == ((y >> 7u8) & 1u8 == 1u8),
            ((x >> 6u8) & 1u8 == 1u8) == ((y >> 6u8) & 1u8 == 1u8),
            ((x >> 5u8) & 1u8 == 1u8) == ((y >> 5u8) & 1u8 == 1u8),
            ((x >> 4u8) & 1u8 == 1u8) == ((y >> 4u8) & 1u8 == 1u8),
            ((x >> 3u8) & 1u8 == 1u8) == ((y >> 3u8) & 1u8 == 1u8),
            ((x >> 2u8) & 1u8 == 1u8) == ((y >> 2u8) & 1u8 == 1u8),
            ((x >> 1u8) & 1u8 == 1u8) == ((y >> 1u8) & 1u8 == 1u8),
            ((x >> 0u8) & 1u8 == 1u8) == ((y >> 0u8) & 1u8 == 1u8),
    ;
}

/// The two on-disk bytes of a set of flag bits are unique: packing then
/// unpacking, or unpacking then packing, gives back what it started from.
pub proof fn lemma_flag_bytes_unique(a: Seq<u8>, b: Seq<u8>, bits: Seq<bool>)
    requires
        flag_bytes(a, bits),
        flag_bytes(b, bits),
    ensures
        a == b,
{
    assert forall|j: int| 0 <= j < 8 implies bit_of_byte(a[0], j) == bit_of_byte(b[0], j) by {
        assert(bit_at(a, j) == bit_at(b, j));
    }
    assert forall|j: int| 0 <= j < 8 implies bit_of_byte(a[1], j) == bit_of_byte(b[1], j) by {
        assert(bit_at(a, 8 + j) == bit_at(b, 8 + j));
        assert((8 + j) / 8 == 1 && (8 + j) % 8 == j);
    }
    lemma_byte_from_bits(a[0], b[0]);
    lemma_byte_from_bits(a[1], b[1]);
    assert(a =~= b);
}

/// The flag bits that two bytes hold are unique.
pub proof fn lemma_flag_bits_unique(bytes: Seq<u8>, x: Seq<bool>, y: Seq<bool>)
    requires
        flag_bytes(bytes, x),
        flag_bytes(bytes, y),
    ensures
        x == y,
{
    assert(x =~= y);
}

} // verus!
