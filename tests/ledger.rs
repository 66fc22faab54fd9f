use fracpay::codec::{pack_slug, PIECESLUG_LEN, REFSLUG_LEN};
use fracpay::error::FracError;
use fracpay::flags::{pack_flags, unpack_flags, Flags};
use fracpay::ops::{create_main, create_ref, index_of, ref_seed, FULL_SHARE};
use fracpay::records::{MainRecord, PieceRecord, RefRecord, SIZE_MAIN, SIZE_PIECE, SIZE_REF};

fn operator() -> Vec<u8> {
    (1u8..=32).collect()
}

fn other_operator() -> Vec<u8> {
    vec![9u8; 32]
}

fn padded(label: &[u8], width: usize) -> Vec<u8> {
    let mut v = label.to_vec();
    v.resize(width, 0);
    v
}

fn tag_bits(b0: bool, b1: bool, b2: bool, b3: bool) -> Vec<bool> {
    let mut v = vec![false; 16];
    v[0] = b0;
    v[1] = b1;
    v[2] = b2;
    v[3] = b3;
    v
}

#[test]
fn flags_pack_high_order_bit_first() {
    let f = Flags { bits: tag_bits(false, false, false, true) };
    assert_eq!(pack_flags(&f), vec![0b0001_0000u8, 0]);
    let f = Flags { bits: tag_bits(false, true, false, false) };
    assert_eq!(pack_flags(&f), vec![0b0100_0000u8, 0]);
    let mut bits = vec![false; 16];
    bits[15] = true;
    bits[8] = true;
    assert_eq!(pack_flags(&Flags { bits }), vec![0u8, 0b1000_0001]);
}

#[test]
fn flags_round_trip() {
    let bits: Vec<bool> = (0..16).map(|i| i % 3 == 0 || i == 7).collect();
    let bytes = pack_flags(&Flags { bits: bits.clone() });
    assert_eq!(unpack_flags(&bytes).bits, bits);
    let bytes = vec![0xA5u8, 0x3C];
    assert_eq!(pack_flags(&unpack_flags(&bytes)), bytes);
}

#[test]
fn slug_is_zero_padded() {
    let s = pack_slug(b"work-1", PIECESLUG_LEN).unwrap();
    assert_eq!(s.len(), 67);
    assert_eq!(&s[..6], b"work-1");
    assert!(s[6..].iter().all(|b| *b == 0));
    assert_eq!(pack_slug(&[7u8; 20], REFSLUG_LEN).unwrap(), vec![7u8; 20]);
    assert_eq!(pack_slug(b"", REFSLUG_LEN).unwrap(), vec![0u8; 20]);
}

#[test]
fn slug_too_long_is_refused() {
    assert_eq!(pack_slug(&[1u8; 21], REFSLUG_LEN), Err(FracError::LabelTooLong));
    assert_eq!(pack_slug(&[1u8; 68], PIECESLUG_LEN), Err(FracError::LabelTooLong));
}

#[test]
fn seed_index_round_trip() {
    for i in [0u16, 1, 2, 255, 256, 0x1234, u16::MAX] {
        let seed = ref_seed(b"piece-ref", i);
        assert_eq!(index_of(&seed), i);
    }
    assert_eq!(ref_seed(b"ab", 0x0201), vec![b'a', b'b', 0x01, 0x02]);
    assert_eq!(index_of(&[5u8]), 0);
    assert_eq!(index_of(&[]), 0);
}

#[test]
fn main_record_layout_exact() {
    let m = MainRecord {
        flags: Flags { bits: tag_bits(true, false, false, false) },
        operator: operator(),
        balance: 0x0102030405060708,
        netsum: 5,
        piececount: 0x0A0B,
    };
    let b = m.pack();
    assert_eq!(b.len(), SIZE_MAIN);
    assert_eq!(&b[0..2], &[0x80u8, 0]);
    assert_eq!(&b[2..34], operator().as_slice());
    assert_eq!(&b[34..42], &[8u8, 7, 6, 5, 4, 3, 2, 1]);
    assert_eq!(&b[42..50], &[5u8, 0, 0, 0, 0, 0, 0, 0]);
    assert_eq!(&b[50..52], &[0x0Bu8, 0x0A]);
    let back = MainRecord::unpack(&b).unwrap();
    assert_eq!(back.balance, m.balance);
    assert_eq!(back.netsum, 5);
    assert_eq!(back.piececount, 0x0A0B);
    assert_eq!(back.operator, operator());
    assert_eq!(back.flags.bits, m.flags.bits);
    assert_eq!(back.pack(), b);
}

#[test]
fn piece_and_ref_records_round_trip() {
    let p = PieceRecord {
        flags: Flags { bits: tag_bits(false, false, false, true) },
        operator: operator(),
        balance: u64::MAX,
        netsum: 77,
        refcount: 513,
        pieceslug: padded(b"song", 67),
    };
    let b = p.pack();
    assert_eq!(b.len(), SIZE_PIECE);
    let q = PieceRecord::unpack(&b).unwrap();
    assert_eq!(q.balance, u64::MAX);
    assert_eq!(q.netsum, 77);
    assert_eq!(q.refcount, 513);
    assert_eq!(q.pieceslug, padded(b"song", 67));
    assert_eq!(q.pack(), b);

    let r = RefRecord {
        flags: Flags { bits: tag_bits(false, false, true, false) },
        target: other_operator(),
        fract: 123_456_789,
        netsum: 42,
        refslug: padded(b"bob", 20),
    };
    let b = r.pack();
    assert_eq!(b.len(), SIZE_REF);
    assert_eq!(&b[34..38], &123_456_789u32.to_le_bytes());
    let s = RefRecord::unpack(&b).unwrap();
    assert_eq!(s.fract, 123_456_789);
    assert_eq!(s.target, other_operator());
    assert_eq!(s.refslug, padded(b"bob", 20));
    assert_eq!(s.pack(), b);
}

#[test]
fn unpack_wrong_size_is_refused() {
    assert!(matches!(MainRecord::unpack(&[0u8; 51]), Err(FracError::InvalidAccountData)));
    assert!(matches!(PieceRecord::unpack(&[0u8; 120]), Err(FracError::InvalidAccountData)));
    assert!(matches!(RefRecord::unpack(&[]), Err(FracError::InvalidAccountData)));
}

#[test]
fn create_main_work_1() {
    let op = operator();
    let c = create_main(&op, true, b"work-1", &[], &[], &[]).unwrap();
    assert_eq!(c.main.len(), 52);
    assert_eq!(c.piece.len(), 119);
    assert_eq!(c.self_ref.len(), 66);

    let m = MainRecord::unpack(&c.main).unwrap();
    assert_eq!(m.flags.bits, vec![false; 16]);
    assert_eq!(m.operator, op);
    assert_eq!((m.balance, m.netsum, m.piececount), (0, 0, 0));

    let p = PieceRecord::unpack(&c.piece).unwrap();
    assert_eq!(p.flags.bits, tag_bits(false, false, false, true));
    assert_eq!(p.operator, op);
    assert_eq!((p.balance, p.netsum, p.refcount), (0, 0, 0));
    assert_eq!(p.pieceslug, padded(b"work-1", 67));
    assert_eq!(&c.piece[52..119], padded(b"work-1", 67).as_slice());

    let r = RefRecord::unpack(&c.self_ref).unwrap();
    assert_eq!(r.flags.bits, tag_bits(false, false, true, false));
    assert_eq!(&c.self_ref[0..2], &[0b0010_0000u8, 0]);
    assert_eq!(r.target, op);
    assert_eq!(r.fract, 100000000);
    assert_eq!(r.fract, FULL_SHARE);
    assert_eq!(r.netsum, 0);
    assert_eq!(r.refslug, padded(b"SELF_REFERENCE", 20));
}

#[test]
fn create_main_unsigned_is_refused() {
    let r = create_main(&operator(), false, b"work-1", &[], &[], &[]);
    assert!(matches!(r, Err(FracError::MissingSignature)));
    assert!(FracError::MissingSignature.is_unauthorized());
}

#[test]
fn create_main_twice_fails_in_storage() {
    let op = operator();
    let c = create_main(&op, true, b"work-1", &[], &[], &[]).unwrap();
    let again = create_main(&op, true, b"work-1", &c.main, &c.piece, &c.self_ref);
    assert!(matches!(again, Err(FracError::StorageAllocationFailed)));
    let again = create_main(&op, true, b"work-1", &c.main, &[], &[]);
    assert!(matches!(again, Err(FracError::StorageAllocationFailed)));
    let again = create_main(&op, true, b"work-1", &[], &[], &c.self_ref);
    assert!(matches!(again, Err(FracError::StorageAllocationFailed)));
}

#[test]
fn create_main_label_too_long() {
    let r = create_main(&operator(), true, &[b'x'; 68], &[], &[], &[]);
    assert!(matches!(r, Err(FracError::LabelTooLong)));
    assert!(create_main(&operator(), true, &[b'x'; 67], &[], &[], &[]).is_ok());
}

#[test]
fn create_ref_alice_then_retry_out_of_order() {
    let op = operator();
    let c = create_main(&op, true, b"work-1", &[], &[], &[]).unwrap();
    let seed = ref_seed(b"work-1", 1);
    let r = create_ref(&op, true, &c.main, &c.piece, &[], &seed, b"alice").unwrap();

    let p = PieceRecord::unpack(&r.piece).unwrap();
    assert_eq!(p.refcount, 1);
    assert_eq!(p.operator, op);
    assert_eq!(p.pieceslug, padded(b"work-1", 67));
    assert_eq!(&r.piece[..50], &c.piece[..50]);
    assert_eq!(&r.piece[52..], &c.piece[52..]);

    let n = RefRecord::unpack(&r.new_ref).unwrap();
    assert_eq!(n.target, op);
    assert_eq!(n.fract, 0);
    assert_eq!(n.netsum, 0);
    assert_eq!(n.refslug, padded(b"alice", 20));
    assert_eq!(n.flags.bits, tag_bits(false, true, false, false));
    assert!(!n.flags.bits[4] && !n.flags.bits[5] && !n.flags.bits[6]);
    assert_eq!(&r.new_ref[0..2], &[0b0100_0000u8, 0]);

    let retry = create_ref(&op, true, &c.main, &r.piece, &[], &seed, b"alice");
    assert!(matches!(retry, Err(FracError::OutOfOrder)));

    let next = ref_seed(b"work-1", 2);
    let r2 = create_ref(&op, true, &c.main, &r.piece, &[], &next, b"bob").unwrap();
    assert_eq!(PieceRecord::unpack(&r2.piece).unwrap().refcount, 2);
}

#[test]
fn create_ref_index_ahead_is_out_of_order() {
    let op = operator();
    let c = create_main(&op, true, b"work-1", &[], &[], &[]).unwrap();
    let r = create_ref(&op, true, &c.main, &c.piece, &[], &ref_seed(b"w", 3), b"x");
    assert!(matches!(r, Err(FracError::OutOfOrder)));
    let r = create_ref(&op, true, &c.main, &c.piece, &[], &ref_seed(b"w", 0), b"x");
    assert!(matches!(r, Err(FracError::OutOfOrder)));
}

#[test]
fn create_ref_foreign_operator_is_unauthorized() {
    let op = operator();
    let other = other_operator();
    let c = create_main(&op, true, b"work-1", &[], &[], &[]).unwrap();
    let d = create_main(&other, true, b"work-2", &[], &[], &[]).unwrap();
    let seed = ref_seed(b"w", 1);

    let r = create_ref(&other, true, &c.main, &c.piece, &[], &seed, b"x");
    assert!(matches!(r, Err(FracError::OwnershipMismatch)));
    let r = create_ref(&op, true, &c.main, &d.piece, &[], &seed, b"x");
    assert!(matches!(r, Err(FracError::OwnershipMismatch)));
    assert!(FracError::OwnershipMismatch.is_unauthorized());
    assert!(!FracError::OutOfOrder.is_unauthorized());

    let r = create_ref(&op, false, &c.main, &c.piece, &[], &seed, b"x");
    assert!(matches!(r, Err(FracError::MissingSignature)));
}

#[test]
fn create_ref_other_errors() {
    let op = operator();
    let c = create_main(&op, true, b"work-1", &[], &[], &[]).unwrap();
    let seed = ref_seed(b"w", 1);
    let r = create_ref(&op, true, &c.main[..51], &c.piece, &[], &seed, b"x");
    assert!(matches!(r, Err(FracError::InvalidAccountData)));
    let r = create_ref(&op, true, &c.main, &c.main, &[], &seed, b"x");
    assert!(matches!(r, Err(FracError::InvalidAccountData)));
    let r = create_ref(&op, true, &c.main, &c.piece, &c.self_ref, &seed, b"x");
    assert!(matches!(r, Err(FracError::StorageAllocationFailed)));
    let r = create_ref(&op, true, &c.main, &c.piece, &[], &seed, &[b'y'; 21]);
    assert!(matches!(r, Err(FracError::LabelTooLong)));
    let r = create_ref(&op, true, &c.main, &c.piece, &[], &seed, &[b'y'; 20]).unwrap();
    assert_eq!(RefRecord::unpack(&r.new_ref).unwrap().refslug, vec![b'y'; 20]);
}
