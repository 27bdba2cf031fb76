use matasano::{Bytes, Producer, ToBytes};

#[test]
fn test_bytes_struct() {
    for num in 0..100 {
        assert_eq!(Bytes { item: num, pos: 0 }.item, num);
        assert_eq!(Bytes { item: 0, pos: num }.pos, num);
    }
}

#[test]
fn test_to_bytes_trait() {
    for num in 0..256 {
        assert_eq!((num as u8).bytes(), Bytes { item: num as u8, pos: 8 });
        assert_eq!((num as u16).bytes(), Bytes { item: num as u16, pos: 16 });
        assert_eq!((num as u32).bytes(), Bytes { item: num as u32, pos: 32 });
        assert_eq!((num as u64).bytes(), Bytes { item: num as u64, pos: 64 });

        assert_eq!((num as i8).bytes(), Bytes { item: num as i8, pos: 8 });
        assert_eq!((num as i16).bytes(), Bytes { item: num as i16, pos: 16 });
        assert_eq!((num as i32).bytes(), Bytes { item: num as i32, pos: 32 });
        assert_eq!((num as i64).bytes(), Bytes { item: num as i64, pos: 64 });
    }
}

#[test]
fn test_bytes_iter() {
    let mut bytes_u8 = 0x3Fu8.bytes();
    assert_eq!(bytes_u8.next(), Some(0x3F));
    assert_eq!(bytes_u8.next(), None);

    let mut bytes_u16 = 0x59FAu16.bytes();
    assert_eq!(bytes_u16.next(), Some(0x59));
    assert_eq!(bytes_u16.next(), Some(0xFA));
    assert_eq!(bytes_u16.next(), None);

    let mut bytes_u32 = 0xDEADBEEFu32.bytes();
    assert_eq!(bytes_u32.next(), Some(0xDE));
    assert_eq!(bytes_u32.next(), Some(0xAD));
    assert_eq!(bytes_u32.next(), Some(0xBE));
    assert_eq!(bytes_u32.next(), Some(0xEF));
    assert_eq!(bytes_u32.next(), None);

    let mut bytes_u64 = 0xDEADBEEFCAFEBABEu64.bytes();
    assert_eq!(bytes_u64.next(), Some(0xDE));
    assert_eq!(bytes_u64.next(), Some(0xAD));
    assert_eq!(bytes_u64.next(), Some(0xBE));
    assert_eq!(bytes_u64.next(), Some(0xEF));
    assert_eq!(bytes_u64.next(), Some(0xCA));
    assert_eq!(bytes_u64.next(), Some(0xFE));
    assert_eq!(bytes_u64.next(), Some(0xBA));
    assert_eq!(bytes_u64.next(), Some(0xBE));
    assert_eq!(bytes_u64.next(), None);
}

/// Pulls until the end is signalled.
fn drain<P: Producer>(mut p: P) -> Vec<P::Item> {
    let mut out = Vec::new();
    while let Some(item) = p.next() {
        out.push(item);
    }
    out
}

#[test]
fn length_is_width_in_bytes_for_every_type() {
    assert_eq!(drain(0x7Fu8.bytes()).len(), 1);
    assert_eq!(drain(0x7FFFu16.bytes()).len(), 2);
    assert_eq!(drain(0x7FFF_FFFFu32.bytes()).len(), 4);
    assert_eq!(drain(0x7FFF_FFFF_FFFF_FFFFu64.bytes()).len(), 8);
    assert_eq!(drain((-1i8).bytes()).len(), 1);
    assert_eq!(drain((-1i16).bytes()).len(), 2);
    assert_eq!(drain((-1i32).bytes()).len(), 4);
    assert_eq!(drain((-1i64).bytes()).len(), 8);
}

#[test]
fn length_does_not_depend_on_leading_zero_bytes() {
    assert_eq!(drain(0u64.bytes()), vec![0u8; 8]);
    assert_eq!(drain(1u32.bytes()), vec![0, 0, 0, 1]);
    assert_eq!(drain(0x0100u16.bytes()), vec![1, 0]);
}

#[test]
fn bytes_come_most_significant_first() {
    assert_eq!(drain(0x59FAu16.bytes()), vec![0x59, 0xFA]);
    assert_eq!(drain(0xDEADBEEFu32.bytes()), vec![0xDE, 0xAD, 0xBE, 0xEF]);
    assert_eq!(
        drain(0xDEADBEEFCAFEBABEu64.bytes()),
        vec![0xDE, 0xAD, 0xBE, 0xEF, 0xCA, 0xFE, 0xBA, 0xBE]
    );
    assert_eq!(
        drain(0x0123_4567_89AB_CDEFi64.bytes()),
        vec![0x01, 0x23, 0x45, 0x67, 0x89, 0xAB, 0xCD, 0xEF]
    );
}

#[test]
fn negative_values_decompose_as_their_twos_complement() {
    assert_eq!(drain((-1i8).bytes()), vec![0xFF]);
    assert_eq!(drain((-128i8).bytes()), vec![0x80]);
    assert_eq!(drain((-2i16).bytes()), vec![0xFF, 0xFE]);
    assert_eq!(drain(i16::MIN.bytes()), vec![0x80, 0x00]);
    assert_eq!(drain((-0x1234_5678i32).bytes()), vec![0xED, 0xCB, 0xA9, 0x88]);
    assert_eq!(drain(i32::MIN.bytes()), vec![0x80, 0, 0, 0]);
    assert_eq!(drain((-1i64).bytes()), vec![0xFF; 8]);
    assert_eq!(drain(i64::MIN.bytes()), vec![0x80, 0, 0, 0, 0, 0, 0, 0]);
    assert_eq!(drain((-256i64).bytes()), vec![0xFF, 0xFF, 0xFF, 0xFF, 0xFF, 0xFF, 0xFF, 0x00]);
}

#[test]
fn signed_and_unsigned_of_one_pattern_agree() {
    for num in 0..=255u8 {
        assert_eq!(drain(num.bytes()), drain((num as i8).bytes()));
    }
    for num in [0u16, 1, 0x7FFF, 0x8000, 0xFFFE, 0xFFFF, 0x59FA] {
        assert_eq!(drain(num.bytes()), drain((num as i16).bytes()));
    }
    for num in [0u32, 1, 0x7FFF_FFFF, 0x8000_0000, 0xFFFF_FFFF, 0xDEADBEEF] {
        assert_eq!(drain(num.bytes()), drain((num as i32).bytes()));
    }
    for num in [0u64, 1, 0x7FFF_FFFF_FFFF_FFFF, 0x8000_0000_0000_0000, u64::MAX] {
        assert_eq!(drain(num.bytes()), drain((num as i64).bytes()));
    }
}

#[test]
fn matches_big_endian_representation() {
    for num in [0u16, 1, 255, 256, 0x59FA, u16::MAX] {
        assert_eq!(drain(num.bytes()), num.to_be_bytes().to_vec());
    }
    for num in [i32::MIN, -1, 0, 1, 0x0102_0304, i32::MAX] {
        assert_eq!(drain(num.bytes()), num.to_be_bytes().to_vec());
    }
    for num in [i64::MIN, -1, 0, 1, 0x0102_0304_0506_0708, i64::MAX] {
        assert_eq!(drain(num.bytes()), num.to_be_bytes().to_vec());
    }
}

#[test]
fn folding_the_bytes_recovers_the_value() {
    for v in [0u8, 1, 0x3F, 0x80, 0xFF] {
        let folded = drain(v.bytes()).iter().fold(0u8, |acc, b| *b | (acc << 7 << 1));
        assert_eq!(folded, v);
    }
    for v in [0u16, 1, 0x59FA, 0x8000, u16::MAX] {
        let folded = drain(v.bytes()).iter().fold(0u16, |acc, b| (acc << 8) | *b as u16);
        assert_eq!(folded, v);
    }
    for v in [0u32, 1, 0xDEADBEEF, 0x8000_0000, u32::MAX] {
        let folded = drain(v.bytes()).iter().fold(0u32, |acc, b| (acc << 8) | *b as u32);
        assert_eq!(folded, v);
    }
    for v in [0u64, 1, 0xDEADBEEFCAFEBABE, 1 << 63, u64::MAX] {
        let folded = drain(v.bytes()).iter().fold(0u64, |acc, b| (acc << 8) | *b as u64);
        assert_eq!(folded, v);
    }
    for v in [i8::MIN, -1, 0, 1, i8::MAX] {
        let folded = drain(v.bytes()).iter().fold(0u8, |acc, b| *b | (acc << 7 << 1));
        assert_eq!(folded as i8, v);
    }
    for v in [i16::MIN, -2, -1, 0, 1, i16::MAX] {
        let folded = drain(v.bytes()).iter().fold(0u16, |acc, b| (acc << 8) | *b as u16);
        assert_eq!(folded as i16, v);
    }
    for v in [i32::MIN, -0x1234_5678, -1, 0, 1, i32::MAX] {
        let folded = drain(v.bytes()).iter().fold(0u32, |acc, b| (acc << 8) | *b as u32);
        assert_eq!(folded as i32, v);
    }
    for v in [i64::MIN, -256, -1, 0, 1, i64::MAX] {
        let folded = drain(v.bytes()).iter().fold(0u64, |acc, b| (acc << 8) | *b as u64);
        assert_eq!(folded as i64, v);
    }
}

#[test]
fn exhausted_decomposer_stays_exhausted() {
    let mut bytes = 0x1234u16.bytes();
    assert_eq!(bytes.next(), Some(0x12));
    assert_eq!(bytes.next(), Some(0x34));
    for _ in 0..10 {
        assert_eq!(bytes.next(), None);
        assert_eq!(bytes, Bytes { item: 0x1234u16, pos: 0 });
    }
}

#[test]
fn pull_counts_down_the_remaining_bits() {
    let mut bytes = (-2i32).bytes();
    assert_eq!(bytes.pos, 32);
    assert_eq!(bytes.next(), Some(0xFF));
    assert_eq!(bytes, Bytes { item: -2i32, pos: 24 });
    assert_eq!(bytes.next(), Some(0xFF));
    assert_eq!(bytes.pos, 16);
    assert_eq!(bytes.next(), Some(0xFF));
    assert_eq!(bytes.pos, 8);
    assert_eq!(bytes.next(), Some(0xFE));
    assert_eq!(bytes, Bytes { item: -2i32, pos: 0 });
}

#[test]
fn decomposer_can_start_in_the_middle() {
    let mut bytes = Bytes { item: 0xDEADBEEFu32, pos: 16 };
    assert_eq!(bytes.next(), Some(0xBE));
    assert_eq!(bytes.next(), Some(0xEF));
    assert_eq!(bytes.next(), None);
}

#[test]
fn unsigned_pattern_of_each_type() {
    assert_eq!(0xABu8.to_u64(), 0xAB);
    assert_eq!(0xABCDu16.to_u64(), 0xABCD);
    assert_eq!(0xABCD_EF01u32.to_u64(), 0xABCD_EF01);
    assert_eq!(u64::MAX.to_u64(), u64::MAX);
    assert_eq!((-1i8).to_u64(), 0xFF);
    assert_eq!((-2i16).to_u64(), 0xFFFE);
    assert_eq!(i32::MIN.to_u64(), 0x8000_0000);
    assert_eq!((-1i64).to_u64(), u64::MAX);
    assert_eq!(5i64.to_u64(), 5);
}

#[test]
fn clone_keeps_the_position() {
    let mut bytes = 0xCAFEu16.bytes();
    assert_eq!(bytes.next(), Some(0xCA));
    let mut copy = bytes.clone();
    assert_eq!(copy, bytes);
    assert_eq!(copy.next(), Some(0xFE));
    assert_eq!(bytes.next(), Some(0xFE));
}
