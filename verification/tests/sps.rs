use h264_reader::nal::sps::SeqParameterSet;
use h264_reader::nal::sps::SpsError;
use h264_reader::nal::sps::PicOrderCntError;
use h264_reader::nal::sps::PicOrderCntType;
use h264_reader::nal::sps::ChromaFormat;
use h264_reader::nal::sps::FrameMbsFlags;
use h264_reader::nal::sps::Profile;
use h264_reader::nal::sps::Level;
use h264_reader::nal::pps::ParamSetIdError;
use h264_reader::rbsp::RbspBitReaderError;
use bitreader::BitReaderError;

fn from_hex(s: &str) -> Vec<u8> {
    let digits: Vec<u8> = s
        .chars()
        .filter(|c| c.is_ascii_hexdigit())
        .map(|c| c.to_digit(16).unwrap() as u8)
        .collect();
    digits.chunks(2).map(|p| p[0] * 16 + p[1]).collect()
}

/// Builds a bitstream bit by bit.
struct Bits {
    bits: Vec<bool>,
}

impl Bits {
    fn new() -> Self {
        Bits { bits: Vec::new() }
    }
    fn u(mut self, n: u32, v: u64) -> Self {
        for i in (0..n).rev() {
            self.bits.push((v >> i) & 1 == 1);
        }
        self
    }
    fn flag(self, b: bool) -> Self {
        self.u(1, b as u64)
    }
    fn ue(self, v: u64) -> Self {
        let x = v + 1;
        let len = 64 - x.leading_zeros();
        self.u(len - 1, 0).u(len, x)
    }
    fn se(self, v: i64) -> Self {
        let code = if v > 0 { (2 * v - 1) as u64 } else { (-2 * v) as u64 };
        self.ue(code)
    }
    fn bytes(&self) -> Vec<u8> {
        let mut out = Vec::new();
        for chunk in self.bits.chunks(8) {
            let mut b = 0u8;
            for (i, bit) in chunk.iter().enumerate() {
                if *bit {
                    b |= 0x80 >> i;
                }
            }
            out.push(b);
        }
        out
    }
}

/// An SPS head: profile, six clear constraint flags, reserved bits, level, id.
fn head(profile_idc: u64, level_idc: u64, id: u64) -> Bits {
    Bits::new().u(8, profile_idc).u(6, 0).u(2, 0).u(8, level_idc).ue(id)
}

/// The fields of a baseline SPS after the head, with no VUI.
fn baseline_rest(b: Bits) -> Bits {
    b.ue(0) // log2_max_frame_num_minus4
        .ue(2) // pic_order_cnt_type
        .ue(1) // max_num_ref_frames
        .flag(false)
        .ue(19) // pic_width_in_mbs_minus1
        .ue(14) // pic_height_in_map_units_minus1
        .flag(true) // frame_mbs_only_flag
        .flag(true) // direct_8x8_inference_flag
        .flag(false) // frame_cropping_flag
        .flag(false) // vui_parameters_present_flag
}

#[test]
fn test_it() {
    let data = from_hex(
        "64 00 0A AC 72 84 44 26 84 00 00
            00 04 00 00 00 CA 3C 48 96 11 80",
    );
    match SeqParameterSet::from_bytes(&data[..]) {
        Err(e) => panic!("failed: {:?}", e),
        Ok(sps) => {
            println!("sps: {:#?}", sps);
            assert_eq!(100, u8::from(sps.profile_idc));
            assert_eq!(0, sps.reserved_zero_two_bits);
        }
    }
}

#[test]
fn test_it_fields() {
    let data = from_hex("64 00 0A AC 72 84 44 26 84 00 00 00 04 00 00 00 CA 3C 48 96 11 80");
    let sps = SeqParameterSet::from_bytes(&data[..]).unwrap();
    assert_eq!(10, sps.level_idc);
    assert_eq!(0, sps.seq_parameter_set_id.id());
    assert_eq!(ChromaFormat::YUV420, sps.chroma_info.chroma_format);
    assert_eq!(2, sps.log2_max_frame_num_minus4);
    assert_eq!(6, sps.log2_max_frame_num());
    assert!(matches!(sps.pic_order_cnt, PicOrderCntType::TypeZero { log2_max_pic_order_cnt_lsb_minus4: 4 }));
    assert_eq!(16, sps.max_num_ref_frames);
    assert!(matches!(sps.profile(), Profile::High));
    assert!(matches!(sps.level(), Level::L1));
    assert_eq!([false; 6], sps.constraint_flags);
}

#[test]
fn baseline_without_vui() {
    let data = baseline_rest(head(66, 30, 3)).bytes();
    let sps = SeqParameterSet::from_bytes(&data).unwrap();
    assert!(matches!(sps.profile(), Profile::Baseline));
    assert!(matches!(sps.level(), Level::L3));
    assert_eq!(3, sps.seq_parameter_set_id.id());
    assert_eq!(ChromaFormat::YUV420, sps.chroma_info.chroma_format);
    assert_eq!(0, sps.chroma_info.bit_depth_luma_minus8);
    assert_eq!(4, sps.log2_max_frame_num());
    assert!(matches!(sps.pic_order_cnt, PicOrderCntType::TypeTwo));
    assert_eq!(1, sps.max_num_ref_frames);
    assert_eq!(19, sps.pic_width_in_mbs_minus1);
    assert_eq!(14, sps.pic_height_in_map_units_minus1);
    assert!(matches!(sps.frame_mbs_flags, FrameMbsFlags::Frames));
    assert!(sps.direct_8x8_inference_flag);
    assert!(sps.frame_cropping.is_none());
    assert!(sps.vui_parameters.is_none());
}

#[test]
fn empty_input_is_a_reader_error() {
    match SeqParameterSet::from_bytes(&[]) {
        Err(SpsError::ReaderError(e)) => {
            assert_eq!(BitReaderError::NotEnoughData { position: 0, length: 0, requested: 8 }, e)
        },
        other => panic!("unexpected: {:?}", other),
    }
}

#[test]
fn sps_id_too_large() {
    let data = baseline_rest(head(66, 30, 32)).bytes();
    match SeqParameterSet::from_bytes(&data) {
        Err(SpsError::BadSeqParamSetId(ParamSetIdError::IdTooLarge(32))) => {},
        other => panic!("unexpected: {:?}", other),
    }
}

#[test]
fn sps_id_truncated_names_the_field() {
    let data = Bits::new().u(8, 66).u(8, 0).u(8, 30).u(8, 0).bytes();
    match SeqParameterSet::from_bytes(&data) {
        Err(SpsError::RbspReaderError(RbspBitReaderError::ReaderErrorFor(name, _))) => {
            assert_eq!("seq_parameter_set_id", name)
        },
        other => panic!("unexpected: {:?}", other),
    }
}

#[test]
fn sps_id_over_long_code() {
    let data = Bits::new().u(8, 66).u(8, 0).u(8, 30).u(32, 0).u(8, 0xff).bytes();
    match SeqParameterSet::from_bytes(&data) {
        Err(SpsError::RbspReaderError(RbspBitReaderError::ExpGolombTooLarge(name))) => {
            assert_eq!("seq_parameter_set_id", name)
        },
        other => panic!("unexpected: {:?}", other),
    }
}

#[test]
fn bit_depth_out_of_range() {
    let data = head(100, 40, 0).ue(1).ue(7).ue(0).flag(false).flag(false).bytes();
    match SeqParameterSet::from_bytes(&data) {
        Err(SpsError::BitDepthOutOfRange(7)) => {},
        other => panic!("unexpected: {:?}", other),
    }
}

#[test]
fn log2_max_frame_num_out_of_range() {
    let data = head(66, 30, 0).ue(13).ue(2).bytes();
    match SeqParameterSet::from_bytes(&data) {
        Err(SpsError::Log2MaxFrameNumMinus4OutOfRange(13)) => {},
        other => panic!("unexpected: {:?}", other),
    }
}

#[test]
fn invalid_pic_order_cnt_type() {
    let data = head(66, 30, 0).ue(0).ue(3).u(16, 0xffff).bytes();
    match SeqParameterSet::from_bytes(&data) {
        Err(SpsError::PicOrderCnt(PicOrderCntError::InvalidPicOrderCountType(3))) => {},
        other => panic!("unexpected: {:?}", other),
    }
}

#[test]
fn log2_max_pic_order_cnt_lsb_out_of_range() {
    let data = head(66, 30, 0).ue(0).ue(0).ue(13).u(16, 0xffff).bytes();
    match SeqParameterSet::from_bytes(&data) {
        Err(SpsError::PicOrderCnt(PicOrderCntError::Log2MaxPicOrderCntLsbMinus4OutOfRange(13))) => {},
        other => panic!("unexpected: {:?}", other),
    }
}

#[test]
fn pic_order_cnt_truncated() {
    let data = head(66, 30, 0).ue(0).u(1, 0).bytes();
    match SeqParameterSet::from_bytes(&data) {
        Err(SpsError::PicOrderCnt(PicOrderCntError::ReaderError(_))) => {},
        other => panic!("unexpected: {:?}", other),
    }
}

#[test]
fn pic_order_cnt_type_one_with_offsets() {
    let b = head(66, 30, 0)
        .ue(0)
        .ue(1) // pic_order_cnt_type
        .flag(true)
        .se(-3)
        .se(5)
        .ue(3)
        .se(1)
        .se(-2)
        .se(0)
        .ue(1)
        .flag(false)
        .ue(0)
        .ue(0)
        .flag(false)
        .flag(true)
        .flag(false)
        .flag(false)
        .flag(false);
    let sps = SeqParameterSet::from_bytes(&b.bytes()).unwrap();
    match sps.pic_order_cnt {
        PicOrderCntType::TypeOne {
            delta_pic_order_always_zero_flag,
            offset_for_non_ref_pic,
            offset_for_top_to_bottom_field,
            offsets_for_ref_frame,
        } => {
            assert!(delta_pic_order_always_zero_flag);
            assert_eq!(-3, offset_for_non_ref_pic);
            assert_eq!(5, offset_for_top_to_bottom_field);
            assert_eq!(vec![1, -2, 0], offsets_for_ref_frame);
        },
        other => panic!("unexpected: {:?}", other),
    }
    assert!(matches!(sps.frame_mbs_flags, FrameMbsFlags::Fields { mb_adaptive_frame_field_flag: true }));
}

#[test]
fn high_profile_with_scaling_matrix_and_cropping() {
    let mut b = head(100, 41, 1)
        .ue(3) // chroma_format_idc 4:4:4
        .flag(true) // separate_colour_plane_flag
        .ue(2)
        .ue(4)
        .flag(true)
        .flag(true); // seq_scaling_matrix_present_flag
    // twelve lists; the first present with delta 0 then -8 (ends it), the rest absent
    b = b.flag(true).se(0).se(-8);
    for _ in 1..12 {
        b = b.flag(false);
    }
    b = b
        .ue(12) // log2_max_frame_num_minus4
        .ue(2)
        .ue(4)
        .flag(true)
        .ue(119)
        .ue(67)
        .flag(true)
        .flag(true)
        .flag(true) // frame_cropping_flag
        .ue(0)
        .ue(8)
        .ue(0)
        .ue(4)
        .flag(false);
    let sps = SeqParameterSet::from_bytes(&b.bytes()).unwrap();
    assert_eq!(ChromaFormat::YUV444, sps.chroma_info.chroma_format);
    assert!(sps.chroma_info.separate_colour_plane_flag);
    assert_eq!(2, sps.chroma_info.bit_depth_luma_minus8);
    assert_eq!(4, sps.chroma_info.bit_depth_chroma_minus8);
    assert!(sps.chroma_info.qpprime_y_zero_transform_bypass_flag);
    assert_eq!(16, sps.log2_max_frame_num());
    assert!(sps.gaps_in_frame_num_value_allowed_flag);
    assert_eq!(119, sps.pic_width_in_mbs_minus1);
    let crop = sps.frame_cropping.unwrap();
    assert_eq!((0, 8, 0, 4), (crop.left_offset, crop.right_offset, crop.top_offset, crop.bottom_offset));
}

#[test]
fn vui_with_hrd_parameters() {
    let b = baseline_rest(head(77, 31, 0));
    // replace the final clear vui flag by a full VUI
    let mut bits = b.bits;
    bits.pop();
    let b = Bits { bits }
        .flag(true) // vui_parameters_present_flag
        .flag(true)
        .u(8, 255)
        .u(16, 4)
        .u(16, 3) // aspect ratio 4:3
        .flag(true)
        .flag(false) // overscan inappropriate
        .flag(true)
        .u(3, 5)
        .flag(true)
        .flag(true)
        .u(8, 1)
        .u(8, 1)
        .u(8, 1) // video signal type
        .flag(true)
        .ue(1)
        .ue(2) // chroma loc
        .flag(true)
        .u(32, 1001)
        .u(32, 60000)
        .flag(true) // timing
        .flag(true) // nal hrd present
        .ue(1) // cpb_cnt_minus1
        .u(4, 2)
        .u(4, 3)
        .ue(100)
        .ue(200)
        .flag(true)
        .ue(300)
        .ue(400)
        .flag(false)
        .u(5, 23)
        .u(5, 23)
        .u(5, 23)
        .u(5, 24)
        .flag(false) // vcl hrd absent
        .flag(true) // low_delay_hrd_flag
        .flag(false) // pic_struct_present_flag
        .flag(true) // bitstream_restriction_flag
        .flag(true)
        .ue(0)
        .ue(0)
        .ue(16)
        .ue(16)
        .ue(0)
        .ue(1);
    let sps = SeqParameterSet::from_bytes(&b.bytes()).unwrap();
    let vui = sps.vui_parameters.unwrap();
    assert!(matches!(vui.aspect_ratio_info, Some(h264_reader::nal::sps::AspectRatioInfo::Extended(4, 3))));
    assert!(matches!(vui.overscan_appropriate, h264_reader::nal::sps::OverscanAppropriate::Inappropriate));
    assert!(vui.video_signal_type.is_some());
    assert!(vui.chroma_loc_info.is_some());
    assert!(vui.timing_info.is_some());
    let hrd = vui.nal_hrd_parameters.unwrap();
    assert_eq!(2, hrd.bit_rate_scale);
    assert_eq!(3, hrd.cpb_size_scale);
    assert_eq!(2, hrd.cpb_specs.len());
    assert_eq!(24, hrd.time_offset_length);
    assert!(vui.vcl_hrd_parameters.is_none());
    assert_eq!(Some(true), vui.low_delay_hrd_flag);
    assert!(!vui.pic_struct_present_flag);
    assert!(vui.bitstream_restrictions.is_some());
}

#[test]
fn vui_without_hrd_has_no_low_delay_flag() {
    let b = baseline_rest(head(77, 31, 0));
    let mut bits = b.bits;
    bits.pop();
    let b = Bits { bits }
        .flag(true)
        .flag(false)
        .flag(false)
        .flag(false)
        .flag(false)
        .flag(false)
        .flag(false) // nal hrd
        .flag(false) // vcl hrd
        .flag(true) // pic_struct_present_flag
        .flag(false);
    let sps = SeqParameterSet::from_bytes(&b.bytes()).unwrap();
    let vui = sps.vui_parameters.unwrap();
    assert_eq!(None, vui.low_delay_hrd_flag);
    assert!(vui.pic_struct_present_flag);
    assert!(matches!(vui.overscan_appropriate, h264_reader::nal::sps::OverscanAppropriate::Unspecified));
}

#[test]
fn vui_cpb_spec_truncated_names_the_field() {
    let b = baseline_rest(head(77, 31, 0));
    let mut bits = b.bits;
    bits.pop();
    let b = Bits { bits }
        .flag(true)
        .flag(false)
        .flag(false)
        .flag(false)
        .flag(false)
        .flag(false)
        .flag(true) // nal hrd
        .ue(0)
        .u(4, 0)
        .u(4, 0)
        .ue(5); // bit rate, then nothing
    match SeqParameterSet::from_bytes(&b.bytes()) {
        Err(SpsError::RbspReaderError(RbspBitReaderError::ReaderErrorFor(name, _))) => {
            assert_eq!("cpb_size_value_minus1", name)
        },
        other => panic!("unexpected: {:?}", other),
    }
}

#[test]
fn trailing_bytes_are_not_read() {
    let mut data = baseline_rest(head(66, 30, 3)).bytes();
    let a = SeqParameterSet::from_bytes(&data).unwrap();
    data.extend_from_slice(&[0xff, 0x00, 0x12]);
    let b = SeqParameterSet::from_bytes(&data).unwrap();
    assert_eq!(format!("{:?}", a), format!("{:?}", b));
}
