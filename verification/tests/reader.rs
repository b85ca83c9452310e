use h264_reader::rbsp::RbspBitReader;
use h264_reader::rbsp::RbspBitReaderError;
use h264_reader::rbsp::golomb_to_signed_exec;
use bitreader::BitReaderError;

#[test]
fn reads_flags_and_fixed_width_fields() {
    let data = [0b1010_1100, 0xff, 0x12, 0x34];
    let mut r = RbspBitReader::new(&data);
    assert_eq!(Ok(true), r.read_bool());
    assert_eq!(Ok(false), r.read_bool());
    assert_eq!(Ok(0b1011), r.read_u8(4));
    assert_eq!(6, r.position());
    assert_eq!(Ok(0b00_1111_1111), r.read_u16(10));
    assert_eq!(Ok(0x1234), r.read_u32(16));
    assert_eq!(32, r.position());
}

#[test]
fn too_many_bits_for_the_type() {
    let data = [0u8; 8];
    let mut r = RbspBitReader::new(&data);
    assert_eq!(
        Err(BitReaderError::TooManyBitsForType { position: 0, requested: 9, allowed: 8 }),
        r.read_u8(9)
    );
    assert_eq!(
        Err(BitReaderError::TooManyBitsForType { position: 0, requested: 33, allowed: 32 }),
        r.read_u32(33)
    );
}

#[test]
fn reading_past_the_end() {
    let data = [0xffu8];
    let mut r = RbspBitReader::new(&data);
    assert_eq!(Ok(0x7f), r.read_u8(7));
    assert_eq!(
        Err(BitReaderError::NotEnoughData { position: 7, length: 8, requested: 2 }),
        r.read_u8(2)
    );
    assert_eq!(Ok(true), r.read_bool());
    assert_eq!(Err(BitReaderError::NotEnoughData { position: 8, length: 8, requested: 1 }), r.read_bool());
}

#[test]
fn unsigned_exp_golomb_codes() {
    // 1 | 010 | 011 | 00100 | 00111 | 0001000
    let data = [0b1010_0110, 0b0100_0011, 0b1000_1000];
    let mut r = RbspBitReader::new(&data);
    assert_eq!(Ok(0), r.read_ue());
    assert_eq!(Ok(1), r.read_ue());
    assert_eq!(Ok(2), r.read_ue());
    assert_eq!(Ok(3), r.read_ue());
    assert_eq!(Ok(6), r.read_ue());
    assert_eq!(Ok(7), r.read_ue());
    assert_eq!(24, r.position());
}

#[test]
fn signed_exp_golomb_codes() {
    // code numbers 1, 2, 3, 4, 0
    let data = [0b0100_1100, 0b1000_0101, 0b1000_0000];
    let mut r = RbspBitReader::new(&data);
    assert_eq!(Ok(1), r.read_se());
    assert_eq!(Ok(-1), r.read_se());
    assert_eq!(Ok(2), r.read_se());
    assert_eq!(Ok(-2), r.read_se());
    assert_eq!(Ok(0), r.read_se());
}

#[test]
fn golomb_to_signed_values() {
    assert_eq!(0, golomb_to_signed_exec(0));
    assert_eq!(1, golomb_to_signed_exec(1));
    assert_eq!(-1, golomb_to_signed_exec(2));
    assert_eq!(2, golomb_to_signed_exec(3));
    assert_eq!(-2147483647, golomb_to_signed_exec(0xffff_fffe));
    assert_eq!(2147483647, golomb_to_signed_exec(0xffff_fffd));
}

#[test]
fn largest_exp_golomb_code() {
    // 31 zeros, a one, 31 ones: 2^32 - 2
    let mut data = vec![0u8, 0, 0, 1];
    data.extend_from_slice(&[0xff, 0xff, 0xff, 0xfe]);
    let mut r = RbspBitReader::new(&data);
    assert_eq!(Ok(0xffff_fffe), r.read_ue());
    assert_eq!(63, r.position());
}

#[test]
fn over_long_exp_golomb_code() {
    let data = [0u8, 0, 0, 0, 0xff];
    let mut r = RbspBitReader::new(&data);
    assert_eq!(
        Err(BitReaderError::TooManyBitsForType { position: 32, requested: 33, allowed: 32 }),
        r.read_ue()
    );
    let mut r = RbspBitReader::new(&data);
    match r.read_ue_named("x") {
        Err(RbspBitReaderError::ExpGolombTooLarge(name)) => assert_eq!("x", name),
        other => panic!("unexpected: {:?}", other),
    }
}

#[test]
fn truncated_exp_golomb_code() {
    let data = [0b0000_1000u8];
    let mut r = RbspBitReader::new(&data);
    assert!(matches!(r.read_ue(), Err(BitReaderError::NotEnoughData { .. })));
    let data = [0b0001_0000u8];
    let mut r = RbspBitReader::new(&data);
    assert_eq!(Ok(7), r.read_ue());
    let data = [0u8];
    let mut r = RbspBitReader::new(&data);
    match r.read_ue_named("y") {
        Err(RbspBitReaderError::ReaderErrorFor(name, BitReaderError::NotEnoughData { .. })) => assert_eq!("y", name),
        other => panic!("unexpected: {:?}", other),
    }
}

#[test]
fn named_flag() {
    let data = [0b1000_0000u8];
    let mut r = RbspBitReader::new(&data);
    assert!(matches!(r.read_bool_named("f"), Ok(true)));
    let mut r = RbspBitReader::new(&[]);
    assert!(matches!(r.read_bool_named("f"), Err(RbspBitReaderError::ReaderErrorFor("f", _))));
}

#[test]
fn reader_error_from_bitreader_error() {
    let e = BitReaderError::NotEnoughData { position: 1, length: 2, requested: 3 };
    assert!(matches!(RbspBitReaderError::from(e), RbspBitReaderError::ReaderError(x) if x == e));
}
