//! The three stored records and their byte-exact layouts:
//! MAIN (52 bytes), PIECE (119 bytes) and REF (66 bytes).
use crate::codec::{
    append_bytes, copy_range, read_u16, read_u32, read_u64, u16_bytes, u16_value, u32_bytes,
    u32_value, u64_bytes, u64_value, write_u16, write_u32, write_u64, lemma_u16_round_trip,
    lemma_u32_round_trip, lemma_u64_round_trip, PIECESLUG_LEN, PUBKEY_LEN, REFSLUG_LEN,
};
use crate::error::FracError;
use crate::flags::{
    bit_at, flag_bytes, lemma_flag_bits_unique, lemma_flag_bytes_unique, pack_flags,
    unpack_flags, Flags, FLAG_BITS,
};
use vstd::prelude::*;

verus! {

/// Size of a MAIN record: flags, operator, balance, netsum, piececount.
pub const SIZE_MAIN: usize = 52;

/// Size of a PIECE record: flags, operator, balance, netsum, refcount, pieceslug.
pub const SIZE_PIECE: usize = 119;

/// Size of a REF record: flags, target, fract, netsum, refslug.
pub const SIZE_REF: usize = 66;

/// The flag bits that two on-disk bytes hold.
pub open spec fn flags_of(b: Seq<u8>) -> Seq<bool> {
    Seq::new(FLAG_BITS as nat, |k: int| bit_at(b, k))
}

pub struct MainView {
    pub flags: Seq<bool>,
    pub operator: Seq<u8>,
    pub balance: u64,
    pub netsum: u64,
    pub piececount: u16,
}

pub struct PieceView {
    pub flags: Seq<bool>,
    pub operator: Seq<u8>,
    pub balance: u64,
    pub netsum: u64,
    pub refcount: u16,
    pub pieceslug: Seq<u8>,
}

pub struct RefView {
    pub flags: Seq<bool>,
    pub target: Seq<u8>,
    pub fract: u32,
    pub netsum: u64,
    pub refslug: Seq<u8>,
}

/// `b` is the stored form of the MAIN record `m`.
pub open spec fn main_layout(b: Seq<u8>, m: MainView) -> bool {
    &&& b.len() == SIZE_MAIN
    &&& flag_bytes(b.subrange(0, 2), m.flags)
    &&& b.subrange(2, 34) == m.operator
    &&& b.subrange(34, 42) == u64_bytes(m.balance)
    &&& b.subrange(42, 50) == u64_bytes(m.netsum)
    &&& b.subrange(50, 52) == u16_bytes(m.piececount)
}

/// `b` is the stored form of the PIECE record `p`.
pub open spec fn piece_layout(b: Seq<u8>, p: PieceView) -> bool {
    &&& b.len() == SIZE_PIECE
    &&& flag_bytes(b.subrange(0, 2), p.flags)
    &&& b.subrange(2, 34) == p.operator
    &&& b.subrange(34, 42) == u64_bytes(p.balance)
    &&& b.subrange(42, 50) == u64_bytes(p.netsum)
    &&& b.subrange(50, 52) == u16_bytes(p.refcount)
    &&& b.subrange(52, 119) == p.pieceslug
}

/// `b` is the stored form of the REF record `r`.
pub open spec fn ref_layout(b: Seq<u8>, r: RefView) -> bool {
    &&& b.len() == SIZE_REF
    &&& flag_bytes(b.subrange(0, 2), r.flags)
    &&& b.subrange(2, 34) == r.target
    &&& b.subrange(34, 38) == u32_bytes(r.fract)
    &&& b.subrange(38, 46) == u64_bytes(r.netsum)
    &&& b.subrange(46, 66) == r.refslug
}

/// The MAIN record that 52 stored bytes hold.
pub open spec fn main_view_of(b: Seq<u8>) -> MainView {
    MainView {
        flags: flags_of(b.subrange(0, 2)),
        operator: b.subrange(2, 34),
        balance: u64_value(b.subrange(34, 42)),
        netsum: u64_value(b.subrange(42, 50)),
        piececount: u16_value(b.subrange(50, 52)),
    }
}

/// The PIECE record that 119 stored bytes hold.
pub open spec fn piece_view_of(b: Seq<u8>) -> PieceView {
    PieceView {
        flags: flags_of(b.subrange(0, 2)),
        operator: b.subrange(2, 34),
        balance: u64_value(b.subrange(34, 42)),
        netsum: u64_value(b.subrange(42, 50)),
        refcount: u16_value(b.subrange(50, 52)),
        pieceslug: b.subrange(52, 119),
    }
}

/// The REF record that 66 stored bytes hold.
pub open spec fn ref_view_of(b: Seq<u8>) -> RefView {
    RefView {
        flags: flags_of(b.subrange(0, 2)),
        target: b.subrange(2, 34),
        fract: u32_value(b.subrange(34, 38)),
        netsum: u64_value(b.subrange(38, 46)),
        refslug: b.subrange(46, 66),
    }
}

/// A root ledger of one payee.
#[derive(Debug)]
pub struct MainRecord {
    pub flags: Flags,
    pub operator: Vec<u8>,
    pub balance: u64,
    pub netsum: u64,
    pub piececount: u16,
}

/// One distributable work of an operator.
#[derive(Debug)]
pub struct PieceRecord {
    pub flags: Flags,
    pub operator: Vec<u8>,
    pub balance: u64,
    pub netsum: u64,
    pub refcount: u16,
    pub pieceslug: Vec<u8>,
}

/// One slot of a PIECE's referral chain; `fract` is a share of proceeds in
/// units of one hundred millionth.
#[derive(Debug)]
pub struct RefRecord {
    pub flags: Flags,
    pub target: Vec<u8>,
    pub fract: u32,
    pub netsum: u64,
    pub refslug: Vec<u8>,
}

impl MainRecord {
    pub open spec fn wf(&self) -> bool {
        self.flags.wf() && self.operator@.len() == PUBKEY_LEN
    }

    pub open spec fn view(&self) -> MainView {
        MainView {
            flags: self.flags.bits@,
            operator: self.operator@,
            balance: self.balance,
            netsum: self.netsum,
            piececount: self.piececount,
        }
    }

    /// The 52 stored bytes of the record.
    pub fn pack(&self) -> (r: Vec<u8>)
        requires
            self.wf(),
        ensures
            main_layout(r@, self@),
    {
        let mut out = pack_flags(&self.flags);
        let ghost f = out@;
        append_bytes(&mut out, self.operator.as_slice());
        write_u64(&mut out, self.balance);
        write_u64(&mut out, self.netsum);
        write_u16(&mut out, self.piececount);
        assert(out@.subrange(0, 2) =~= f);
        assert(out@.subrange(2, 34) =~= self.operator@);
        assert(out@.subrange(34, 42) =~= u64_bytes(self.balance));
        assert(out@.subrange(42, 50) =~= u64_bytes(self.netsum));
        assert(out@.subrange(50, 52) =~= u16_bytes(self.piececount));
        out
    }

    /// Reads a MAIN record; bytes of another size are refused.
    pub fn unpack(b: &[u8]) -> (r: Result<MainRecord, FracError>)
        ensures
            b@.len() == SIZE_MAIN ==> r is Ok && r->Ok_0.wf() && r->Ok_0@ == main_view_of(b@)
                && main_layout(b@, r->Ok_0@),
            b@.len() != SIZE_MAIN ==> r == Err::<MainRecord, FracError>(
                FracError::InvalidAccountData,
            ),
    {
        if b.len() != SIZE_MAIN {
            return Err(FracError::InvalidAccountData);
        }
        let fb = copy_range(b, 0, 2);
        let flags = unpack_flags(fb.as_slice());
        let operator = copy_range(b, 2, 34);
        let balance = read_u64(b, 34);
        let netsum = read_u64(b, 42);
        let piececount = read_u16(b, 50);
        let m = MainRecord { flags, operator, balance, netsum, piececount };
        proof {
            lemma_u64_round_trip(balance, b@.subrange(34, 42));
            lemma_u64_round_trip(netsum, b@.subrange(42, 50));
            lemma_u16_round_trip(piececount, b@.subrange(50, 52));
            assert(m.flags.bits@ =~= flags_of(b@.subrange(0, 2)));
        }
        Ok(m)
    }
}

impl PieceRecord {
    pub open spec fn wf(&self) -> bool {
        &&& self.flags.wf()
        &&& self.operator@.len() == PUBKEY_LEN
        &&& self.pieceslug@.len() == PIECESLUG_LEN
    }

    pub open spec fn view(&self) -> PieceView {
        PieceView {
            flags: self.flags.bits@,
            operator: self.operator@,
            balance: self.balance,
            netsum: self.netsum,
            refcount: self.refcount,
            pieceslug: self.pieceslug@,
        }
    }

    /// The 119 stored bytes of the record.
    pub fn pack(&self) -> (r: Vec<u8>)
        requires
            self.wf(),
        ensures
            piece_layout(r@, self@),
    {
        let mut out = pack_flags(&self.flags);
        let ghost f = out@;
        append_bytes(&mut out, self.operator.as_slice());
        write_u64(&mut out, self.balance);
        write_u64(&mut out, self.netsum);
        write_u16(&mut out, self.refcount);
        append_bytes(&mut out, self.pieceslug.as_slice());
        assert(out@.subrange(0, 2) =~= f);
        assert(out@.subrange(2, 34) =~= self.operator@);
        assert(out@.subrange(34, 42) =~= u64_bytes(self.balance));
        assert(out@.subrange(42, 50) =~= u64_bytes(self.netsum));
        assert(out@.subrange(50, 52) =~= u16_bytes(self.refcount));
        assert(out@.subrange(52, 119) =~= self.pieceslug@);
        out
    }

    /// Reads a PIECE record; bytes of another size are refused.
    pub fn unpack(b: &[u8]) -> (r: Result<PieceRecord, FracError>)
        ensures
            b@.len() == SIZE_PIECE ==> r is Ok && r->Ok_0.wf() && r->Ok_0@ == piece_view_of(b@)
                && piece_layout(b@, r->Ok_0@),
            b@.len() != SIZE_PIECE ==> r == Err::<PieceRecord, FracError>(
                FracError::InvalidAccountData,
            ),
    {
        if b.len() != SIZE_PIECE {
            return Err(FracError::InvalidAccountData);
        }
        let fb = copy_range(b, 0, 2);
        let flags = unpack_flags(fb.as_slice());
        let operator = copy_range(b, 2, 34);
        let balance = read_u64(b, 34);
        let netsum = read_u64(b, 42);
        let refcount = read_u16(b, 50);
        let pieceslug = copy_range(b, 52, 119);
        let p = PieceRecord { flags, operator, balance, netsum, refcount, pieceslug };
        proof {
            lemma_u64_round_trip(balance, b@.subrange(34, 42));
            lemma_u64_round_trip(netsum, b@.subrange(42, 50));
            lemma_u16_round_trip(refcount, b@.subrange(50, 52));
            assert(p.flags.bits@ =~= flags_of(b@.subrange(0, 2)));
        }
        Ok(p)
    }
}

impl RefRecord {
    pub open spec fn wf(&self) -> bool {
        &&& self.flags.wf()
        &&& self.target@.len() == PUBKEY_LEN
        &&& self.refslug@.len() == REFSLUG_LEN
    }

    pub open spec fn view(&self) -> RefView {
        RefView {
            flags: self.flags.bits@,
            target: self.target@,
            fract: self.fract,
            netsum: self.netsum,
            refslug: self.refslug@,
        }
    }

    /// The 66 stored bytes of the record.
    pub fn pack(&self) -> (r: Vec<u8>)
        requires
            self.wf(),
        ensures
            ref_layout(r@, self@),
    {
        let mut out = pack_flags(&self.flags);
        let ghost f = out@;
        append_bytes(&mut out, self.target.as_slice());
        write_u32(&mut out, self.fract);
        write_u64(&mut out, self.netsum);
        append_bytes(&mut out, self.refslug.as_slice());
        assert(out@.subrange(0, 2) =~= f);
        assert(out@.subrange(2, 34) =~= self.target@);
        assert(out@.subrange(34, 38) =~= u32_bytes(self.fract));
        assert(out@.subrange(38, 46) =~= u64_bytes(self.netsum));
        assert(out@.subrange(46, 66) =~= self.refslug@);
        out
    }

    /// Reads a REF record; bytes of another size are refused.
    pub fn unpack(b: &[u8]) -> (r: Result<RefRecord, FracError>)
        ensures
            b@.len() == SIZE_REF ==> r is Ok && r->Ok_0.wf() && r->Ok_0@ == ref_view_of(b@)
                && ref_layout(b@, r->Ok_0@),
            b@.len() != SIZE_REF ==> r == Err::<RefRecord, FracError>(
                FracError::InvalidAccountData,
            ),
    {
        if b.len() != SIZE_REF {
            return Err(FracError::InvalidAccountData);
        }
        let fb = copy_range(b, 0, 2);
        let flags = unpack_flags(fb.as_slice());
        let target = copy_range(b, 2, 34);
        let fract = read_u32(b, 34);
        let netsum = read_u64(b, 38);
        let refslug = copy_range(b, 46, 66);
        let r = RefRecord { flags, target, fract, netsum, refslug };
        proof {
            lemma_u32_round_trip(fract, b@.subrange(34, 38));
            lemma_u64_round_trip(netsum, b@.subrange(38, 46));
            assert(r.flags.bits@ =~= flags_of(b@.subrange(0, 2)));
        }
        Ok(r)
    }
}

/// Bytes that agree on a range agree at each index of it.
proof fn lemma_range_agrees(a: Seq<u8>, b: Seq<u8>, lo: int, hi: int)
    requires
        0 <= lo <= hi <= a.len(),
        hi <= b.len(),
        a.subrange(lo, hi) == b.subrange(lo, hi),
    ensures
        forall|i: int| lo <= i < hi ==> a[i] == b[i],
{
    assert forall|i: int| lo <= i < hi implies a[i] == b[i] by {
        assert(a.subrange(lo, hi)[i - lo] == a[i]);
        assert(b.subrange(lo, hi)[i - lo] == b[i]);
    }
}

/// A MAIN record has exactly one stored form: packing a record and reading it
/// back, or reading stored bytes and packing them again, gives back every
/// field and every byte.
pub proof fn lemma_main_layout_unique(a: Seq<u8>, b: Seq<u8>, m: MainView, n: MainView)
    requires
        main_layout(a, m),
        main_layout(b, n),
    ensures
        (a == b) <==> (m == n),
{
    if m == n {
        lemma_flag_bytes_unique(a.subrange(0, 2), b.subrange(0, 2), m.flags);
        lemma_range_agrees(a, b, 0, 2);
        lemma_range_agrees(a, b, 2, 34);
        lemma_range_agrees(a, b, 34, 42);
        lemma_range_agrees(a, b, 42, 50);
        lemma_range_agrees(a, b, 50, 52);
        assert(a =~= b);
    }
    if a == b {
        lemma_flag_bits_unique(a.subrange(0, 2), m.flags, n.flags);
        lemma_u64_round_trip(m.balance, a.subrange(34, 42));
        lemma_u64_round_trip(n.balance, a.subrange(34, 42));
        lemma_u64_round_trip(m.netsum, a.subrange(42, 50));
        lemma_u64_round_trip(n.netsum, a.subrange(42, 50));
        lemma_u16_round_trip(m.piececount, a.subrange(50, 52));
        lemma_u16_round_trip(n.piececount, a.subrange(50, 52));
    }
}

/// A PIECE record has exactly one stored form: packing a record and reading
/// it back, or reading stored bytes and packing them again, gives back every
/// field and every byte.
pub proof fn lemma_piece_layout_unique(a: Seq<u8>, b: Seq<u8>, p: PieceView, q: PieceView)
    requires
        piece_layout(a, p),
        piece_layout(b, q),
    ensures
        (a == b) <==> (p == q),
{
    if p == q {
        lemma_flag_bytes_unique(a.subrange(0, 2), b.subrange(0, 2), p.flags);
        lemma_range_agrees(a, b, 0, 2);
        lemma_range_agrees(a, b, 2, 34);
        lemma_range_agrees(a, b, 34, 42);
        lemma_range_agrees(a, b, 42, 50);
        lemma_range_agrees(a, b, 50, 52);
        lemma_range_agrees(a, b, 52, 119);
        assert(a =~= b);
    }
    if a == b {
        lemma_flag_bits_unique(a.subrange(0, 2), p.flags, q.flags);
        lemma_u64_round_trip(p.balance, a.subrange(34, 42));
        lemma_u64_round_trip(q.balance, a.subrange(34, 42));
        lemma_u64_round_trip(p.netsum, a.subrange(42, 50));
        lemma_u64_round_trip(q.netsum, a.subrange(42, 50));
        lemma_u16_round_trip(p.refcount, a.subrange(50, 52));
        lemma_u16_round_trip(q.refcount, a.subrange(50, 52));
    }
}

/// A REF record has exactly one stored form: packing a record and reading it
/// back, or reading stored bytes and packing them again, gives back every
/// field and every byte.
pub proof fn lemma_ref_layout_unique(a: Seq<u8>, b: Seq<u8>, r: RefView, s: RefView)
    requires
        ref_layout(a, r),
        ref_layout(b, s),
    ensures
        (a == b) <==> (r == s),
{
    if r == s {
        lemma_flag_bytes_unique(a.subrange(0, 2), b.subrange(0, 2), r.flags);
        lemma_range_agrees(a, b, 0, 2);
        lemma_range_agrees(a, b, 2, 34);
        lemma_range_agrees(a, b, 34, 38);
        lemma_range_agrees(a, b, 38, 46);
        lemma_range_agrees(a, b, 46, 66);
        assert(a =~= b);
    }
    if a == b {
        lemma_flag_bits_unique(a.subrange(0, 2), r.flags, s.flags);
        lemma_u32_round_trip(r.fract, a.subrange(34, 38));
        lemma_u32_round_trip(s.fract, a.subrange(34, 38));
        lemma_u64_round_trip(r.netsum, a.subrange(38, 46));
        lemma_u64_round_trip(s.netsum, a.subrange(38, 46));
    }
}

} // verus!
