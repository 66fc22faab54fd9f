//! The creation protocol: bootstrapping a MAIN with its self-PIECE and
//! self-REF, and appending a REF to a PIECE's referral chain.
//!
//! The storage host derives addresses, funds accounts and runs each operation
//! all or nothing. These functions take what the host shows of the target
//! addresses (the bytes stored there, empty where no account exists yet) and
//! return the bytes to store, or the error that aborts the operation.
use crate::codec::{
    append_bytes, lemma_u16_round_trip, pack_slug, padded, read_u16, u16_bytes, u16_value,
    write_u16, PIECESLUG_LEN, PUBKEY_LEN, REFSLUG_LEN,
};
use crate::error::FracError;
use crate::flags::{tagged, Flags};
use crate::records::{
    main_layout, main_view_of, piece_layout, piece_view_of, ref_layout, MainRecord, MainView,
    PieceRecord, PieceView, RefRecord, RefView, SIZE_MAIN, SIZE_PIECE,
};
use vstd::prelude::*;

verus! {

/// The whole of the proceeds, in units of one hundred millionth.
pub const FULL_SHARE: u32 = 100_000_000;

/// Class tag `0000` of a MAIN.
pub open spec fn main_tag() -> Seq<bool> {
    tagged(false, false, false, false)
}

/// Class tag `0001` of a self-PIECE.
pub open spec fn self_piece_tag() -> Seq<bool> {
    tagged(false, false, false, true)
}

/// Class tag `0010` of a self-REF.
pub open spec fn self_ref_tag() -> Seq<bool> {
    tagged(false, false, true, false)
}

/// Class tag `0100` of an appended REF; its status bits are clear.
pub open spec fn ref_tag() -> Seq<bool> {
    tagged(false, true, false, false)
}

/// The ASCII label `SELF_REFERENCE` of every self-REF.
pub open spec fn self_ref_label() -> Seq<u8> {
    seq![83u8, 69u8, 76u8, 70u8, 95u8, 82u8, 69u8, 70u8, 69u8, 82u8, 69u8, 78u8, 67u8, 69u8]
}

/// The chain index that a REF seed encodes: its last two bytes, little
/// endian; a seed shorter than that encodes index 0, which no REF has.
pub open spec fn seed_index(seed: Seq<u8>) -> u16 {
    if seed.len() < 2 {
        0
    } else {
        u16_value(seed.subrange(seed.len() - 2, seed.len() as int))
    }
}

/// The index encoded in a REF seed.
pub fn index_of(seed: &[u8]) -> (r: u16)
    ensures
        r == seed_index(seed@),
{
    if seed.len() < 2 {
        0
    } else {
        read_u16(seed, seed.len() - 2)
    }
}

/// The seed of the REF with chain index `index`: `prefix` followed by the
/// index in two little-endian bytes. `index_of` reads the index back.
pub fn ref_seed(prefix: &[u8], index: u16) -> (r: Vec<u8>)
    ensures
        r@ == prefix@ + u16_bytes(index),
        seed_index(r@) == index,
{
    let mut out: Vec<u8> = Vec::new();
    append_bytes(&mut out, prefix);
    write_u16(&mut out, index);
    proof {
        lemma_u16_round_trip(index, seq![0u8, 0u8]);
        assert(out@.subrange(out@.len() - 2, out@.len() as int) =~= u16_bytes(index));
    }
    out
}

/// Whether two keys are the same.
fn same_key(a: &[u8], b: &[u8]) -> (r: bool)
    ensures
        r == (a@ == b@),
{
    if a.len() != b.len() {
        return false;
    }
    let mut i: usize = 0;
    while i < a.len()
        invariant
            a@.len() == b@.len(),
            0 <= i <= a@.len(),
            forall|k: int| 0 <= k < i ==> a@[k] == b@[k],
        decreases a@.len() - i,
    {
        if a[i] != b[i] {
            return false;
        }
        i = i + 1;
    }
    assert(a@ =~= b@);
    true
}

/// `slot` is what the host stores at an address where no account exists.
pub open spec fn slot_free(slot: Seq<u8>) -> bool {
    slot.len() == 0
}

/// The MAIN that `operator` starts with.
pub open spec fn new_main_view(operator: Seq<u8>) -> MainView {
    MainView { flags: main_tag(), operator, balance: 0, netsum: 0, piececount: 0 }
}

/// The self-PIECE that `operator` starts with, labelled from `label_source`.
pub open spec fn self_piece_view(operator: Seq<u8>, label_source: Seq<u8>) -> PieceView {
    PieceView {
        flags: self_piece_tag(),
        operator,
        balance: 0,
        netsum: 0,
        refcount: 0,
        pieceslug: padded(label_source, PIECESLUG_LEN as nat),
    }
}

/// The self-REF that gives `operator` the whole of a PIECE's proceeds.
pub open spec fn self_ref_view(operator: Seq<u8>) -> RefView {
    RefView {
        flags: self_ref_tag(),
        target: operator,
        fract: FULL_SHARE,
        netsum: 0,
        refslug: padded(self_ref_label(), REFSLUG_LEN as nat),
    }
}

/// The error that refuses a creation of a MAIN, if any, in the order the
/// checks are made.
pub open spec fn create_main_error(
    operator_signed: bool,
    piece_label_source: Seq<u8>,
    main_slot: Seq<u8>,
    piece_slot: Seq<u8>,
    ref_slot: Seq<u8>,
) -> Option<FracError> {
    if !operator_signed {
        Some(FracError::MissingSignature)
    } else if !slot_free(main_slot) || !slot_free(piece_slot) || !slot_free(ref_slot) {
        Some(FracError::StorageAllocationFailed)
    } else if piece_label_source.len() > PIECESLUG_LEN {
        Some(FracError::LabelTooLong)
    } else {
        None
    }
}

/// The stored bytes of a new MAIN, its self-PIECE and its self-REF.
pub struct MainCreation {
    pub main: Vec<u8>,
    pub piece: Vec<u8>,
    pub self_ref: Vec<u8>,
}

/// Creates a MAIN ledger for `operator` with its self-PIECE and its self-REF,
/// which gives the operator the whole share. The self-PIECE is labelled with
/// `piece_label_source`, which the program's callers fill with the MAIN's
/// creation seed. The three slots are the bytes stored at the three derived
/// addresses; each must be free.
pub fn create_main(
    operator: &[u8],
    operator_signed: bool,
    piece_label_source: &[u8],
    main_slot: &[u8],
    piece_slot: &[u8],
    ref_slot: &[u8],
) -> (r: Result<MainCreation, FracError>)
    requires
        operator@.len() == PUBKEY_LEN,
    ensures
        match r {
            Ok(c) => {
                &&& create_main_error(
                    operator_signed,
                    piece_label_source@,
                    main_slot@,
                    piece_slot@,
                    ref_slot@,
                ) is None
                &&& main_layout(c.main@, new_main_view(operator@))
                &&& piece_layout(c.piece@, self_piece_view(operator@, piece_label_source@))
                &&& ref_layout(c.self_ref@, self_ref_view(operator@))
            },
            Err(e) => create_main_error(
                operator_signed,
                piece_label_source@,
                main_slot@,
                piece_slot@,
                ref_slot@,
            ) == Some(e),
        },
{
    if !operator_signed {
        return Err(FracError::MissingSignature);
    }
    if main_slot.len() != 0 || piece_slot.len() != 0 || ref_slot.len() != 0 {
        return Err(FracError::StorageAllocationFailed);
    }
    let pieceslug = match pack_slug(piece_label_source, PIECESLUG_LEN) {
        Ok(s) => s,
        Err(e) => {
            return Err(e);
        },
    };
    let mut op_main: Vec<u8> = Vec::new();
    append_bytes(&mut op_main, operator);
    let main = MainRecord {
        flags: Flags::with_tag(false, false, false, false),
        operator: op_main,
        balance: 0,
        netsum: 0,
        piececount: 0,
    };
    let mut op_piece: Vec<u8> = Vec::new();
    append_bytes(&mut op_piece, operator);
    let piece = PieceRecord {
        flags: Flags::with_tag(false, false, false, true),
        operator: op_piece,
        balance: 0,
        netsum: 0,
        refcount: 0,
        pieceslug,
    };
    let label: Vec<u8> = vec![83u8, 69u8, 76u8, 70u8, 95u8, 82u8, 69u8, 70u8, 69u8, 82u8, 69u8, 78u8, 67u8, 69u8];
    assert(label@ =~= self_ref_label());
    let refslug = match pack_slug(label.as_slice(), REFSLUG_LEN) {
        Ok(s) => s,
        Err(e) => {
            return Err(e);
        },
    };
    let mut op_ref: Vec<u8> = Vec::new();
    append_bytes(&mut op_ref, operator);
    let self_ref = RefRecord {
        flags: Flags::with_tag(false, false, true, false),
        target: op_ref,
        fract: FULL_SHARE,
        netsum: 0,
        refslug,
    };
    assert(op_main@ =~= operator@);
    assert(op_piece@ =~= operator@);
    assert(op_ref@ =~= operator@);
    assert(main@ == new_main_view(operator@));
    assert(piece@ == self_piece_view(operator@, piece_label_source@));
    assert(self_ref@ == self_ref_view(operator@));
    Ok(MainCreation { main: main.pack(), piece: piece.pack(), self_ref: self_ref.pack() })
}

/// The error that refuses appending a REF, if any, in the order the checks
/// are made: signature, control of the MAIN, control of the PIECE, chain
/// order, the REF's address, the label.
pub open spec fn create_ref_error(
    operator: Seq<u8>,
    operator_signed: bool,
    main: Seq<u8>,
    piece: Seq<u8>,
    ref_slot: Seq<u8>,
    seed: Seq<u8>,
    label: Seq<u8>,
) -> Option<FracError> {
    if !operator_signed {
        Some(FracError::MissingSignature)
    } else if main.len() != SIZE_MAIN {
        Some(FracError::InvalidAccountData)
    } else if main_view_of(main).operator != operator {
        Some(FracError::OwnershipMismatch)
    } else if piece.len() != SIZE_PIECE {
        Some(FracError::InvalidAccountData)
    } else if piece_view_of(piece).operator != operator {
        Some(FracError::OwnershipMismatch)
    } else if seed_index(seed) as int != piece_view_of(piece).refcount as int + 1 {
        Some(FracError::OutOfOrder)
    } else if !slot_free(ref_slot) {
        Some(FracError::StorageAllocationFailed)
    } else if label.len() > REFSLUG_LEN {
        Some(FracError::LabelTooLong)
    } else {
        None
    }
}

/// The PIECE `p` with one more REF in its chain.
pub open spec fn with_next_ref(p: PieceView) -> PieceView {
    PieceView { refcount: (p.refcount + 1) as u16, ..p }
}

/// A new REF of `operator`, with no share yet and all status bits clear.
pub open spec fn new_ref_view(operator: Seq<u8>, label: Seq<u8>) -> RefView {
    RefView {
        flags: ref_tag(),
        target: operator,
        fract: 0,
        netsum: 0,
        refslug: padded(label, REFSLUG_LEN as nat),
    }
}

/// The stored bytes of the updated PIECE and of the new REF.
pub struct RefCreation {
    pub piece: Vec<u8>,
    pub new_ref: Vec<u8>,
}

/// Appends a REF to the referral chain of a PIECE. `main` and `piece` are
/// the stored records, `ref_slot` the bytes stored at the new REF's address,
/// `seed` the seed of that address and `label` the REF's label.
pub fn create_ref(
    operator: &[u8],
    operator_signed: bool,
    main: &[u8],
    piece: &[u8],
    ref_slot: &[u8],
    seed: &[u8],
    label: &[u8],
) -> (r: Result<RefCreation, FracError>)
    requires
        operator@.len() == PUBKEY_LEN,
    ensures
        match r {
            Ok(c) => {
                &&& create_ref_error(
                    operator@,
                    operator_signed,
                    main@,
                    piece@,
                    ref_slot@,
                    seed@,
                    label@,
                ) is None
                &&& piece_layout(c.piece@, with_next_ref(piece_view_of(piece@)))
                &&& ref_layout(c.new_ref@, new_ref_view(operator@, label@))
            },
            Err(e) => create_ref_error(
                operator@,
                operator_signed,
                main@,
                piece@,
                ref_slot@,
                seed@,
                label@,
            ) == Some(e),
        },
{
    if !operator_signed {
        return Err(FracError::MissingSignature);
    }
    let main_rec = match MainRecord::unpack(main) {
        Ok(m) => m,
        Err(e) => {
            return Err(e);
        },
    };
    if !same_key(main_rec.operator.as_slice(), operator) {
        return Err(FracError::OwnershipMismatch);
    }
    let mut piece_rec = match PieceRecord::unpack(piece) {
        Ok(p) => p,
        Err(e) => {
            return Err(e);
        },
    };
    if !same_key(piece_rec.operator.as_slice(), operator) {
        return Err(FracError::OwnershipMismatch);
    }
    let index = index_of(seed);
    if index as u32 != piece_rec.refcount as u32 + 1 {
        return Err(FracError::OutOfOrder);
    }
    if ref_slot.len() != 0 {
        return Err(FracError::StorageAllocationFailed);
    }
    let refslug = match pack_slug(label, REFSLUG_LEN) {
        Ok(s) => s,
        Err(e) => {
            return Err(e);
        },
    };
    piece_rec.refcount = piece_rec.refcount + 1;
    let mut target: Vec<u8> = Vec::new();
    append_bytes(&mut target, operator);
    let new_ref = RefRecord {
        flags: Flags::with_tag(false, true, false, false),
        target,
        fract: 0,
        netsum: 0,
        refslug,
    };
    assert(target@ =~= operator@);
    assert(piece_rec@ == with_next_ref(piece_view_of(piece@)));
    assert(new_ref@ == new_ref_view(operator@, label@));
    Ok(RefCreation { piece: piece_rec.pack(), new_ref: new_ref.pack() })
}

/// A MAIN cannot be created twice: once a creation has stored its records,
/// a signed creation at the same addresses is refused by the storage layer,
/// whatever the label.
pub proof fn lemma_create_main_not_repeatable(
    c: MainCreation,
    operator: Seq<u8>,
    label_source: Seq<u8>,
    other_label: Seq<u8>,
)
    requires
        main_layout(c.main@, new_main_view(operator)),
        piece_layout(c.piece@, self_piece_view(operator, label_source)),
        ref_layout(c.self_ref@, self_ref_view(operator)),
    ensures
        create_main_error(true, other_label, c.main@, c.piece@, c.self_ref@) == Some(
            FracError::StorageAllocationFailed,
        ),
{
}

/// Each appended REF advances its PIECE by exactly one slot: the stored
/// refcount goes up by one, the other fields stay, and a second append with
/// the same seed is refused as out of order.
pub proof fn lemma_create_ref_advances(
    operator: Seq<u8>,
    main: Seq<u8>,
    piece: Seq<u8>,
    seed: Seq<u8>,
    label: Seq<u8>,
    new_piece: Seq<u8>,
    any_slot: Seq<u8>,
    any_label: Seq<u8>,
)
    requires
        create_ref_error(operator, true, main, piece, seq![], seed, label) is None,
        piece_layout(new_piece, with_next_ref(piece_view_of(piece))),
    ensures
        piece_view_of(new_piece).refcount == piece_view_of(piece).refcount + 1,
        piece_view_of(new_piece).operator == piece_view_of(piece).operator,
        piece_view_of(new_piece).pieceslug == piece_view_of(piece).pieceslug,
        create_ref_error(operator, true, main, new_piece, any_slot, seed, any_label) == Some(
            FracError::OutOfOrder,
        ),
{
    let p = with_next_ref(piece_view_of(piece));
    lemma_u16_round_trip(p.refcount, new_piece.subrange(50, 52));
    assert(piece_view_of(new_piece).operator == p.operator);
    assert(piece_view_of(new_piece).pieceslug == p.pieceslug);
}

} // verus!
