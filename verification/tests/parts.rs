use h264_reader::nal::sps::Profile;
use h264_reader::nal::sps::ProfileIdc;
use h264_reader::nal::sps::Level;
use h264_reader::nal::sps::ChromaFormat;
use h264_reader::nal::sps::ChromaInfo;
use h264_reader::nal::sps::VideoFormat;
use h264_reader::nal::sps::ScalingList;
use h264_reader::nal::sps::SpsError;
use h264_reader::nal::sps::SeqScalingMatrix;
use h264_reader::nal::pps::ParamSetId;
use h264_reader::nal::pps::ParamSetIdError;
use h264_reader::rbsp::RbspBitReader;
use h264_reader::rbsp::RbspBitReaderError;
use bitreader::BitReaderError;

#[test]
fn profiles_from_and_to_idc() {
    let known: [(u8, fn(&Profile) -> bool); 14] = [
        (66, |p| matches!(p, Profile::Baseline)),
        (77, |p| matches!(p, Profile::Main)),
        (100, |p| matches!(p, Profile::High)),
        (122, |p| matches!(p, Profile::High422)),
        (110, |p| matches!(p, Profile::High10)),
        (144, |p| matches!(p, Profile::High444)),
        (88, |p| matches!(p, Profile::Extended)),
        (83, |p| matches!(p, Profile::ScalableBase)),
        (86, |p| matches!(p, Profile::ScalableHigh)),
        (118, |p| matches!(p, Profile::MultiviewHigh)),
        (128, |p| matches!(p, Profile::StereoHigh)),
        (135, |p| matches!(p, Profile::MFCDepthHigh)),
        (138, |p| matches!(p, Profile::MultiviewDepthHigh)),
        (139, |p| matches!(p, Profile::EnhancedMultiviewDepthHigh)),
    ];
    for (idc, is) in known.iter() {
        let p = Profile::from_profile_idc(ProfileIdc::from(*idc));
        assert!(is(&p));
        assert_eq!(*idc, p.profile_idc());
    }
}

#[test]
fn profile_idc_round_trip_for_every_value() {
    for idc in 0..=255u8 {
        assert_eq!(idc, Profile::from_profile_idc(ProfileIdc::from(idc)).profile_idc());
    }
    assert!(matches!(Profile::from_profile_idc(ProfileIdc::from(1)), Profile::Unknown(1)));
    // an Unknown carrying a known value is not found again
    assert!(matches!(Profile::from_profile_idc(ProfileIdc::from(Profile::Unknown(66).profile_idc())), Profile::Baseline));
}

#[test]
fn levels_from_and_to_idc() {
    let mut flags = [false; 6];
    assert!(matches!(Level::from_constraint_flags_and_level_idc(&flags, 11), Level::L1_1));
    flags[3] = true;
    assert!(matches!(Level::from_constraint_flags_and_level_idc(&flags, 11), Level::L1_b));
    assert_eq!(11, Level::L1_b.level_idc());
    assert!(matches!(Level::from_constraint_flags_and_level_idc(&flags, 52), Level::L5_2));
    assert!(matches!(Level::from_constraint_flags_and_level_idc(&flags, 53), Level::Unknown(53)));
    for idc in 0..=255u8 {
        for f in [false, true] {
            let flags = [false, false, false, f, false, false];
            assert_eq!(idc, Level::from_constraint_flags_and_level_idc(&flags, idc).level_idc());
        }
    }
}

#[test]
fn chroma_formats() {
    assert_eq!(ChromaFormat::Monochrome, ChromaFormat::from_chroma_format_idc(0));
    assert_eq!(ChromaFormat::YUV420, ChromaFormat::from_chroma_format_idc(1));
    assert_eq!(ChromaFormat::YUV422, ChromaFormat::from_chroma_format_idc(2));
    assert_eq!(ChromaFormat::YUV444, ChromaFormat::from_chroma_format_idc(3));
    assert_eq!(ChromaFormat::Invalid(4), ChromaFormat::from_chroma_format_idc(4));
}

#[test]
fn profiles_with_chroma_info() {
    for idc in [100u8, 110, 122, 244, 44, 83, 86] {
        assert!(ProfileIdc::from(idc).has_chroma_info());
    }
    for idc in [66u8, 77, 88, 118, 128, 144, 0, 255] {
        assert!(!ProfileIdc::from(idc).has_chroma_info());
    }
    assert_eq!(244, u8::from(ProfileIdc::from(244)));
}

#[test]
fn video_formats() {
    assert!(matches!(VideoFormat::from(0), VideoFormat::Component));
    assert!(matches!(VideoFormat::from(1), VideoFormat::PAL));
    assert!(matches!(VideoFormat::from(2), VideoFormat::NTSC));
    assert!(matches!(VideoFormat::from(3), VideoFormat::SECAM));
    assert!(matches!(VideoFormat::from(4), VideoFormat::MAC));
    assert!(matches!(VideoFormat::from(5), VideoFormat::Unspecified));
    assert!(matches!(VideoFormat::from(6), VideoFormat::Reserved(6)));
    assert!(matches!(VideoFormat::from(7), VideoFormat::Reserved(7)));
}

#[test]
fn param_set_ids() {
    assert_eq!(31, ParamSetId::from_u32(31).unwrap().id());
    assert_eq!(0, ParamSetId::from_u32(0).unwrap().id());
    assert_eq!(Err(ParamSetIdError::IdTooLarge(32)), ParamSetId::from_u32(32));
}

#[test]
fn scaling_list_ends_at_zero_scale() {
    // delta_scale -8 (code number 16: 000010001) makes the next scale 0
    let data = [0b0000_1000, 0b1000_0000];
    let mut r = RbspBitReader::new(&data);
    assert!(ScalingList::read(&mut r, 16).is_ok());
    assert_eq!(9, r.position());
}

#[test]
fn scaling_list_reads_every_delta() {
    // sixteen deltas of 0: sixteen one bits
    let data = [0xff, 0xff];
    let mut r = RbspBitReader::new(&data);
    assert!(ScalingList::read(&mut r, 16).is_ok());
    assert_eq!(16, r.position());
    let mut r = RbspBitReader::new(&data[..1]);
    assert!(matches!(ScalingList::read(&mut r, 16), Err(BitReaderError::NotEnoughData { .. })));
}

#[test]
fn scaling_list_wraps_at_256() {
    // delta 120 (code 239: 7 zeros, 1, 0110000): 8 + 120 + 256 = 384, % 256 = 128;
    // then delta -128 (code 256: 8 zeros, 1, 00000001): 128 - 128 + 256 = 256 -> 0, ends the list
    let data = [0b0000_0001, 0b1110_0000, 0b0000_0001, 0b0000_0000, 0b1000_0000];
    let mut r = RbspBitReader::new(&data);
    assert!(ScalingList::read(&mut r, 16).is_ok());
    assert_eq!(32, r.position());
}

#[test]
fn chroma_info_absent_for_baseline() {
    let data = [0xffu8];
    let mut r = RbspBitReader::new(&data);
    let c = ChromaInfo::read(&mut r, ProfileIdc::from(66)).unwrap();
    assert_eq!(ChromaFormat::YUV420, c.chroma_format);
    assert!(!c.separate_colour_plane_flag);
    assert_eq!(0, c.bit_depth_luma_minus8);
    assert_eq!(0, c.bit_depth_chroma_minus8);
    assert!(!c.qpprime_y_zero_transform_bypass_flag);
    assert_eq!(0, r.position());
}

#[test]
fn chroma_info_truncated() {
    let data = [0b0100_0000u8];
    let mut r = RbspBitReader::new(&data[..0]);
    assert!(matches!(ChromaInfo::read(&mut r, ProfileIdc::from(100)), Err(SpsError::ReaderError(_))));
    let mut r = RbspBitReader::new(&data);
    assert!(matches!(ChromaInfo::read(&mut r, ProfileIdc::from(100)), Err(SpsError::ReaderError(_))));
}

#[test]
fn sps_error_conversions() {
    let e = BitReaderError::NotEnoughData { position: 0, length: 0, requested: 1 };
    assert!(matches!(SpsError::from(e), SpsError::ReaderError(_)));
    assert!(matches!(
        SpsError::from(RbspBitReaderError::ExpGolombTooLarge("z")),
        SpsError::RbspReaderError(RbspBitReaderError::ExpGolombTooLarge("z"))
    ));
    assert!(matches!(
        h264_reader::nal::sps::PicOrderCntError::from(e),
        h264_reader::nal::sps::PicOrderCntError::ReaderError(_)
    ));
    let _ = SeqScalingMatrix::default();
}

#[test]
fn out_of_range_bit_depth_leaves_reader_after_its_code() {
    // chroma_format_idc 1 (010), luma bit depth 0 (1), chroma bit depth 7 (0001000)
    let data = [0b0101_0001, 0b0000_0000];
    let mut r = RbspBitReader::new(&data);
    assert!(matches!(ChromaInfo::read(&mut r, ProfileIdc::from(100)), Err(SpsError::BitDepthOutOfRange(7))));
    assert_eq!(11, r.position());
}

#[test]
fn failed_exp_golomb_read_leaves_reader_after_the_zeros() {
    let data = [0b0000_0100u8];
    let mut r = RbspBitReader::new(&data);
    assert!(r.read_ue().is_err());
    assert_eq!(5, r.position());
}
