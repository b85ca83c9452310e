//! What the SPS syntax means, stated against the bits of the RBSP and the
//! numbers of the standard, apart from the parser's own definitions.

use vstd::prelude::*;
use crate::bits::bit_at;
use crate::bits::bit_len;
use crate::bits::bits_value;
use crate::bits::read_flag;
use crate::bits::read_ue;
use crate::bits::pow2;
use crate::bits::lemma_read_flag;
use crate::bits::lemma_bits_value_bound;
use crate::nal::sps::Profile;
use crate::nal::sps::Level;
use crate::nal::sps::ChromaFormat;
use crate::nal::sps::VideoFormat;
use crate::nal::sps::profile_named_by;
use crate::nal::sps::idc_of_profile;
use crate::nal::sps::level_named_by;
use crate::nal::sps::idc_of_level;
use crate::nal::sps::chroma_format_named_by;
use crate::nal::sps::video_format_named_by;
use crate::nal::sps::idc_has_chroma_info;
use crate::nal::sps::flag_list;
use crate::nal::sps::parse_sps;
use crate::nal::sps::parse_sps_head;
use crate::nal::sps::AspectRatioInfo;
use crate::nal::sps::parse_aspect_ratio_info;
use crate::nal::sps::parse_scaling_list;
use crate::nal::sps::scaling_list_steps;
use crate::nal::sps::scaling_matrix_steps;
use crate::nal::sps::parse_scaling_matrix;
use crate::nal::sps::parse_chroma_info;
use crate::bits::zero_run;
use crate::bits::lemma_bits_value_first;
use crate::bits::read_se;
use crate::nal::sps::SpsFault;
use crate::nal::sps::PocFault;
use crate::nal::sps::parse_bit_depth_minus8;
use crate::nal::sps::parse_log2_max_frame_num_minus4;
use crate::nal::sps::parse_log2_max_pic_order_cnt_lsb_minus4;
use crate::nal::sps::parse_pic_order_cnt;

verus! {

// ---------------------------------------------------------------------------
// The numbers of the standard

/// Each level has its number from Table A-1 of H.264, and each number names
/// its level; number 11 names level 1b when `constraint_set3_flag` is set.
pub proof fn law_level_numbers()
    ensures
        idc_of_level(Level::L1) == 10,
        idc_of_level(Level::L1_b) == 11,
        idc_of_level(Level::L1_1) == 11,
        idc_of_level(Level::L1_2) == 12,
        idc_of_level(Level::L1_3) == 13,
        idc_of_level(Level::L2) == 20,
        idc_of_level(Level::L2_1) == 21,
        idc_of_level(Level::L2_2) == 22,
        idc_of_level(Level::L3) == 30,
        idc_of_level(Level::L3_1) == 31,
        idc_of_level(Level::L3_2) == 32,
        idc_of_level(Level::L4) == 40,
        idc_of_level(Level::L4_1) == 41,
        idc_of_level(Level::L4_2) == 42,
        idc_of_level(Level::L5) == 50,
        idc_of_level(Level::L5_1) == 51,
        idc_of_level(Level::L5_2) == 52,
        forall|f: bool| level_named_by(f, 10) == Level::L1,
        level_named_by(true, 11) == Level::L1_b,
        level_named_by(false, 11) == Level::L1_1,
        forall|f: bool| level_named_by(f, 12) == Level::L1_2,
        forall|f: bool| level_named_by(f, 13) == Level::L1_3,
        forall|f: bool| level_named_by(f, 20) == Level::L2,
        forall|f: bool| level_named_by(f, 21) == Level::L2_1,
        forall|f: bool| level_named_by(f, 22) == Level::L2_2,
        forall|f: bool| level_named_by(f, 30) == Level::L3,
        forall|f: bool| level_named_by(f, 31) == Level::L3_1,
        forall|f: bool| level_named_by(f, 32) == Level::L3_2,
        forall|f: bool| level_named_by(f, 40) == Level::L4,
        forall|f: bool| level_named_by(f, 41) == Level::L4_1,
        forall|f: bool| level_named_by(f, 42) == Level::L4_2,
        forall|f: bool| level_named_by(f, 50) == Level::L5,
        forall|f: bool| level_named_by(f, 51) == Level::L5_1,
        forall|f: bool| level_named_by(f, 52) == Level::L5_2,
        forall|f: bool, idc: u8|
            !(idc == 10 || idc == 11 || idc == 12 || idc == 13 || idc == 20 || idc == 21 || idc == 22 || idc == 30
                || idc == 31 || idc == 32 || idc == 40 || idc == 41 || idc == 42 || idc == 50 || idc == 51 || idc == 52)
                ==> #[trigger] level_named_by(f, idc) == Level::Unknown(idc),
{
}

/// Each profile has its `profile_idc` from Annex A, G and H of H.264, and
/// each of those numbers names its profile.
pub proof fn law_profile_numbers()
    ensures
        idc_of_profile(Profile::Baseline) == 66 && profile_named_by(66) == Profile::Baseline,
        idc_of_profile(Profile::Main) == 77 && profile_named_by(77) == Profile::Main,
        idc_of_profile(Profile::Extended) == 88 && profile_named_by(88) == Profile::Extended,
        idc_of_profile(Profile::High) == 100 && profile_named_by(100) == Profile::High,
        idc_of_profile(Profile::High10) == 110 && profile_named_by(110) == Profile::High10,
        idc_of_profile(Profile::High422) == 122 && profile_named_by(122) == Profile::High422,
        idc_of_profile(Profile::High444) == 144 && profile_named_by(144) == Profile::High444,
        idc_of_profile(Profile::ScalableBase) == 83 && profile_named_by(83) == Profile::ScalableBase,
        idc_of_profile(Profile::ScalableHigh) == 86 && profile_named_by(86) == Profile::ScalableHigh,
        idc_of_profile(Profile::MultiviewHigh) == 118 && profile_named_by(118) == Profile::MultiviewHigh,
        idc_of_profile(Profile::StereoHigh) == 128 && profile_named_by(128) == Profile::StereoHigh,
        idc_of_profile(Profile::MFCDepthHigh) == 135 && profile_named_by(135) == Profile::MFCDepthHigh,
        idc_of_profile(Profile::MultiviewDepthHigh) == 138 && profile_named_by(138) == Profile::MultiviewDepthHigh,
        idc_of_profile(Profile::EnhancedMultiviewDepthHigh) == 139 && profile_named_by(139)
            == Profile::EnhancedMultiviewDepthHigh,
        forall|idc: u8|
            !(idc == 66 || idc == 77 || idc == 88 || idc == 100 || idc == 110 || idc == 122 || idc == 144 || idc == 83
                || idc == 86 || idc == 118 || idc == 128 || idc == 135 || idc == 138 || idc == 139)
                ==> #[trigger] profile_named_by(idc) == Profile::Unknown(idc),
{
}

/// The profiles whose SPS carries chroma information are High, High 10,
/// High 4:2:2, High 4:4:4 Predictive (244), CAVLC 4:4:4 Intra (44), Scalable
/// Baseline and Scalable High; no other.
pub proof fn law_profiles_with_chroma_info()
    ensures
        forall|idc: u8|
            #[trigger] idc_has_chroma_info(idc) <==> (idc == 100 || idc == 110 || idc == 122 || idc == 244 || idc
                == 44 || idc == 83 || idc == 86),
{
}

/// `chroma_format_idc` 0 to 3 name monochrome, 4:2:0, 4:2:2 and 4:4:4
/// (Table 6-1); larger values are invalid and keep their number.
pub proof fn law_chroma_format_numbers()
    ensures
        chroma_format_named_by(0) == ChromaFormat::Monochrome,
        chroma_format_named_by(1) == ChromaFormat::YUV420,
        chroma_format_named_by(2) == ChromaFormat::YUV422,
        chroma_format_named_by(3) == ChromaFormat::YUV444,
        forall|idc: u32| idc > 3 ==> #[trigger] chroma_format_named_by(idc) == ChromaFormat::Invalid(idc),
{
}

/// `video_format` 0 to 5 name component, PAL, NTSC, SECAM, MAC and
/// unspecified (Table E-2); 6 and 7 are reserved.
pub proof fn law_video_format_numbers()
    ensures
        video_format_named_by(0) == VideoFormat::Component,
        video_format_named_by(1) == VideoFormat::PAL,
        video_format_named_by(2) == VideoFormat::NTSC,
        video_format_named_by(3) == VideoFormat::SECAM,
        video_format_named_by(4) == VideoFormat::MAC,
        video_format_named_by(5) == VideoFormat::Unspecified,
        video_format_named_by(6) == VideoFormat::Reserved(6),
        video_format_named_by(7) == VideoFormat::Reserved(7),
{
}

// ---------------------------------------------------------------------------
// Where the fields of an SPS lie

/// `n` flags read in a row are the `n` bits from `pos`.
pub proof fn lemma_flag_list_bits(bytes: Seq<u8>, pos: int, n: nat)
    ensures
        flag_list(bytes, pos, n) matches Some((s, p)) ==> s.len() == n && p == pos + n && forall|i: int|
            0 <= i < n ==> s[i] == bit_at(bytes, pos + i),
    decreases n,
{
    if n > 0 {
        lemma_flag_list_bits(bytes, pos, (n - 1) as nat);
        if let Some((s, p)) = flag_list(bytes, pos, (n - 1) as nat) {
            lemma_read_flag(bytes, p);
        }
    }
}

/// `2^8` and `2^2`.
proof fn lemma_small_pow2()
    ensures
        pow2(8) == 256,
        pow2(2) == 4,
{
    reveal_with_fuel(pow2, 9);
}

/// An SPS opens with fixed bits: `profile_idc` is bits 0 to 7, the six
/// constraint flags are bits 8 to 13, `reserved_zero_two_bits` is bits 14
/// and 15, `level_idc` bits 16 to 23, and `seq_parameter_set_id` is the
/// Exp-Golomb code that starts at bit 24.
pub proof fn law_sps_head_bits(bytes: Seq<u8>)
    ensures
        parse_sps(bytes) matches Ok(m) ==> {
            &&& bit_len(bytes) >= 25
            &&& m.profile_idc == bits_value(bytes, 0, 8)
            &&& m.constraint_flags.len() == 6
            &&& forall|i: int| 0 <= i < 6 ==> m.constraint_flags[i] == bit_at(bytes, 8 + i)
            &&& m.reserved_zero_two_bits == bits_value(bytes, 14, 2)
            &&& m.level_idc == bits_value(bytes, 16, 8)
            &&& read_ue(bytes, 24) matches Ok((id, _)) && m.seq_parameter_set_id == id
        },
{
    lemma_flag_list_bits(bytes, 8, 6);
    lemma_bits_value_bound(bytes, 0, 8);
    lemma_bits_value_bound(bytes, 14, 2);
    lemma_bits_value_bound(bytes, 16, 8);
    lemma_small_pow2();
    crate::nal::sps::lemma_parse_sps_head_of(bytes);
}

// ---------------------------------------------------------------------------
// Sample aspect ratios

/// The width and height of the sample aspect ratio that an `AspectRatioInfo`
/// names, as its name reads; none for unspecified and reserved values.
pub open spec fn sample_aspect_ratio(a: AspectRatioInfo) -> Option<(int, int)> {
    match a {
        AspectRatioInfo::Ratio1_1 => Some((1, 1)),
        AspectRatioInfo::Ratio12_11 => Some((12, 11)),
        AspectRatioInfo::Ratio10_11 => Some((10, 11)),
        AspectRatioInfo::Ratio16_11 => Some((16, 11)),
        AspectRatioInfo::Ratio40_33 => Some((40, 33)),
        AspectRatioInfo::Ratio24_11 => Some((24, 11)),
        AspectRatioInfo::Ratio20_11 => Some((20, 11)),
        AspectRatioInfo::Ratio32_11 => Some((32, 11)),
        AspectRatioInfo::Ratio80_33 => Some((80, 33)),
        AspectRatioInfo::Ratio18_11 => Some((18, 11)),
        AspectRatioInfo::Ratio15_11 => Some((15, 11)),
        AspectRatioInfo::Ratio64_33 => Some((64, 33)),
        AspectRatioInfo::Ratio160_99 => Some((160, 99)),
        AspectRatioInfo::Ratio4_3 => Some((4, 3)),
        AspectRatioInfo::Ratio3_2 => Some((3, 2)),
        AspectRatioInfo::Ratio2_1 => Some((2, 1)),
        AspectRatioInfo::Extended(w, h) => Some((w as int, h as int)),
        _ => None,
    }
}

/// Table E-1 of H.264: the sample aspect ratios of `aspect_ratio_idc` 1 to 16.
pub open spec fn table_e1(aspect_ratio_idc: int) -> (int, int) {
    seq![
        (1int, 1int),
        (12, 11),
        (10, 11),
        (16, 11),
        (40, 33),
        (24, 11),
        (20, 11),
        (32, 11),
        (80, 33),
        (18, 11),
        (15, 11),
        (64, 33),
        (160, 99),
        (4, 3),
        (3, 2),
        (2, 1),
    ][aspect_ratio_idc - 1]
}

/// The aspect ratio read from VUI parameters is the one its 8-bit
/// `aspect_ratio_idc` (after the presence flag) stands for in Table E-1; 0 is
/// unspecified, 17 to 254 are reserved, and 255 takes the 16-bit width and
/// height that follow. With the presence flag clear there is none, and only
/// the flag is read.
pub proof fn law_aspect_ratio_bits(bytes: Seq<u8>, pos: int)
    requires
        0 <= pos,
    ensures
        parse_aspect_ratio_info(bytes, pos) matches Some((Some(a), _)) ==> {
            let idc = bits_value(bytes, pos + 1, 8);
            &&& bit_at(bytes, pos)
            &&& pos + 9 <= bit_len(bytes)
            &&& (1 <= idc <= 16 ==> sample_aspect_ratio(a) == Some(table_e1(idc as int)))
            &&& (idc == 0 ==> a is Unspecified)
            &&& (17 <= idc <= 254 ==> a == AspectRatioInfo::Reserved(idc as u8))
            &&& (idc == 255 ==> a == AspectRatioInfo::Extended(
                bits_value(bytes, pos + 9, 16) as u16,
                bits_value(bytes, pos + 25, 16) as u16,
            ))
        },
        parse_aspect_ratio_info(bytes, pos) matches Some((None, end)) ==> !bit_at(bytes, pos) && end == pos + 1,
{
    lemma_read_flag(bytes, pos);
    lemma_bits_value_bound(bytes, pos + 1, 8);
    lemma_small_pow2();
    let idc = bits_value(bytes, pos + 1, 8);
    if 1 <= idc <= 16 {
        assert(table_e1(1) == (1int, 1int));
    }
}

// ---------------------------------------------------------------------------
// Scaling lists

/// All bits from `pos` on, `n` of them, are one.
pub open spec fn ones(bytes: Seq<u8>, pos: int, n: nat) -> bool {
    &&& 0 <= pos
    &&& pos + n <= bit_len(bytes)
    &&& forall|i: int| 0 <= i < n ==> #[trigger] bit_at(bytes, pos + i)
}

/// All bits from `pos` on, `n` of them, are zero.
pub open spec fn zeros(bytes: Seq<u8>, pos: int, n: nat) -> bool {
    &&& 0 <= pos
    &&& pos + n <= bit_len(bytes)
    &&& forall|i: int| 0 <= i < n ==> !#[trigger] bit_at(bytes, pos + i)
}

/// A one bit is the Exp-Golomb code of 0, one bit long.
proof fn lemma_ue_of_one_bit(bytes: Seq<u8>, pos: int)
    requires
        0 <= pos < bit_len(bytes),
        bit_at(bytes, pos),
    ensures
        read_ue(bytes, pos) == Ok::<(u32, int), crate::bits::GolombFault>((0u32, pos + 1)),
{
    assert(zero_run(bytes, pos, 32) == 0);
    assert(bits_value(bytes, pos + 1, 0) == 0);
    assert(pow2(0) == 1);
}

proof fn lemma_flat_steps(bytes: Seq<u8>, pos: int, n: nat)
    requires
        ones(bytes, pos, n),
    ensures
        scaling_list_steps(bytes, pos, n, 8, 8) == Some(pos + n),
    decreases n,
{
    if n > 0 {
        assert(bit_at(bytes, pos + 0));
        lemma_ue_of_one_bit(bytes, pos);
        assert(ones(bytes, pos + 1, (n - 1) as nat)) by {
            assert forall|i: int| 0 <= i < n - 1 implies #[trigger] bit_at(bytes, pos + 1 + i) by {
                assert(bit_at(bytes, pos + (i + 1)));
            }
        }
        lemma_flat_steps(bytes, pos + 1, (n - 1) as nat);
        assert(pos + 1 + (n - 1) == pos + n);
    }
}

/// A scaling list of `n` entries whose every `delta_scale` is 0 (each coded
/// as a single one bit) takes exactly `n` bits.
pub proof fn law_flat_scaling_list(bytes: Seq<u8>, pos: int, n: nat)
    requires
        ones(bytes, pos, n),
    ensures
        parse_scaling_list(bytes, pos, n) == Some(pos + n),
{
    lemma_flat_steps(bytes, pos, n);
}

/// In a scaling matrix, list `i` has 16 entries when it is one of the six 4x4
/// lists (`i < 6`) and 64 when it is an 8x8 list: a present list whose
/// deltas are all 0 is followed by the next list's flag `1 + 16` or `1 + 64`
/// bits on; an absent list takes its flag bit only.
pub proof fn law_scaling_matrix_list_sizes(bytes: Seq<u8>, pos: int, i: nat, count: nat)
    requires
        0 <= pos < bit_len(bytes),
        i < count,
    ensures
        bit_at(bytes, pos) && ones(bytes, pos + 1, if i < 6 { 16 } else { 64 }) ==> scaling_matrix_steps(
            bytes,
            pos,
            i,
            count,
        ) == scaling_matrix_steps(bytes, pos + 1 + if i < 6 { 16int } else { 64int }, i + 1, count),
        !bit_at(bytes, pos) ==> scaling_matrix_steps(bytes, pos, i, count) == scaling_matrix_steps(
            bytes,
            pos + 1,
            i + 1,
            count,
        ),
{
    lemma_read_flag(bytes, pos);
    let n: nat = if i < 6 { 16 } else { 64 };
    if bit_at(bytes, pos) && ones(bytes, pos + 1, n) {
        law_flat_scaling_list(bytes, pos + 1, n);
    }
}

proof fn lemma_absent_lists(bytes: Seq<u8>, pos: int, i: nat, count: nat)
    requires
        i <= count,
        zeros(bytes, pos, (count - i) as nat),
    ensures
        scaling_matrix_steps(bytes, pos, i, count) == Some(pos + (count - i)),
    decreases count - i,
{
    if i < count {
        assert(!bit_at(bytes, pos + 0));
        lemma_read_flag(bytes, pos);
        assert(zeros(bytes, pos + 1, (count - (i + 1)) as nat)) by {
            assert forall|j: int| 0 <= j < count - (i + 1) implies !#[trigger] bit_at(bytes, pos + 1 + j) by {
                assert(!bit_at(bytes, pos + (j + 1)));
            }
        }
        lemma_absent_lists(bytes, pos + 1, i + 1, count);
    }
}

/// A scaling matrix has 12 lists for 4:4:4 (`chroma_format_idc` 3) and 8
/// otherwise: with every list absent it takes that many flag bits.
pub proof fn law_scaling_matrix_list_count(bytes: Seq<u8>, pos: int, chroma_format_idc: u32)
    requires
        zeros(bytes, pos, if chroma_format_idc == 3 { 12 } else { 8 }),
    ensures
        parse_scaling_matrix(bytes, pos, chroma_format_idc) == Some(pos + if chroma_format_idc == 3 {
            12int
        } else {
            8int
        }),
{
    lemma_absent_lists(bytes, pos, 0, if chroma_format_idc == 3 { 12 } else { 8 });
}

// ---------------------------------------------------------------------------
// Chroma information

/// The chroma information of a profile that carries it is read from the bits
/// in order: the chroma format is the one that the Exp-Golomb code at `pos`
/// numbers (0 monochrome, 1 4:2:0, 2 4:2:2, 3 4:4:4, larger invalid);
/// `separate_colour_plane_flag` is the next bit for 4:4:4 and clear otherwise;
/// the luma and chroma bit depths are the two codes after. For other profiles
/// it is 4:2:0 at 8 bits and takes no bits.
pub proof fn law_chroma_info_bits(bytes: Seq<u8>, pos: int, profile_idc: u8)
    requires
        0 <= pos,
    ensures
        parse_chroma_info(bytes, pos, profile_idc) matches Ok((c, end)) ==> if idc_has_chroma_info(profile_idc) {
            read_ue(bytes, pos) matches Ok((v, p1)) && {
                &&& (v == 0 ==> c.chroma_format == ChromaFormat::Monochrome)
                &&& (v == 1 ==> c.chroma_format == ChromaFormat::YUV420)
                &&& (v == 2 ==> c.chroma_format == ChromaFormat::YUV422)
                &&& (v == 3 ==> c.chroma_format == ChromaFormat::YUV444)
                &&& (v > 3 ==> c.chroma_format == ChromaFormat::Invalid(v))
                &&& c.separate_colour_plane_flag == (v == 3 && bit_at(bytes, p1))
                &&& (read_ue(bytes, if v == 3 { p1 + 1 } else { p1 }) matches Ok((luma, p2))
                    && c.bit_depth_luma_minus8 == luma && (read_ue(bytes, p2) matches Ok((chroma, _))
                    && c.bit_depth_chroma_minus8 == chroma))
            }
        } else {
            &&& c.chroma_format == ChromaFormat::YUV420
            &&& !c.separate_colour_plane_flag
            &&& c.bit_depth_luma_minus8 == 0
            &&& c.bit_depth_chroma_minus8 == 0
            &&& end == pos
        },
{
    lemma_chroma_format_read(bytes, pos, profile_idc);
    law_chroma_format_numbers();
    if let Ok((v, p1)) = read_ue(bytes, pos) {
        lemma_read_flag(bytes, p1);
    }
}

proof fn lemma_chroma_format_read(bytes: Seq<u8>, pos: int, profile_idc: u8)
    ensures
        parse_chroma_info(bytes, pos, profile_idc) matches Ok((c, _)) ==> (idc_has_chroma_info(profile_idc)
            ==> (read_ue(bytes, pos) matches Ok((v, _)) && c.chroma_format == chroma_format_named_by(v))),
{
}

/// One step of a scaling list: while the next scale is not 0, a
/// `delta_scale` is read and the next scale becomes `(last + delta) mod 256`;
/// when that is 0 the list ends there, and otherwise it becomes the last
/// scale too (for deltas in the range -128 to 127 that H.264 allows, or any
/// that keep `last + delta + 256` from going negative).
pub proof fn law_scaling_list_step(bytes: Seq<u8>, pos: int, remaining: nat, last: int, next: int)
    requires
        remaining >= 1,
        next != 0,
    ensures
        read_se(bytes, pos) matches Ok((d, p)) ==> {
            &&& (last + d) % 256 == 0 ==> scaling_list_steps(bytes, pos, remaining, last, next) == Some(p)
            &&& ((last + d) % 256 != 0 && last + d + 256 >= 0) ==> scaling_list_steps(
                bytes,
                pos,
                remaining,
                last,
                next,
            ) == scaling_list_steps(bytes, p, (remaining - 1) as nat, (last + d) % 256, (last + d) % 256)
        },
        read_se(bytes, pos) is Err ==> scaling_list_steps(bytes, pos, remaining, last, next) is None,
{
    if let Ok((d, p)) = read_se(bytes, pos) {
        let x = last + d + 256;
        if x >= 0 {
            assert(crate::nal::sps::trunc_rem_256(x) == (last + d) % 256) by {
                assert(x % 256 == (last + d) % 256) by (nonlinear_arith)
                    requires
                        x == last + d + 256,
                ;
            }
        } else {
            assert(((-x) % 256 == 0) <==> ((last + d) % 256 == 0)) by (nonlinear_arith)
                requires
                    x == last + d + 256,
                    x < 0,
            ;
        }
        if (last + d) % 256 == 0 {
            assert(scaling_list_steps(bytes, p, (remaining - 1) as nat, last, 0) == Some(p));
        }
    }
}

// ---------------------------------------------------------------------------
// Limits on coded values

/// A `bit_depth_luma_minus8` or `bit_depth_chroma_minus8` is accepted up to 6
/// (14-bit samples); a larger code is refused, naming the value read.
pub proof fn law_bit_depth_limit(bytes: Seq<u8>, pos: int)
    ensures
        read_ue(bytes, pos) matches Ok((v, p)) ==> parse_bit_depth_minus8(bytes, pos) == if v <= 6 {
            Ok::<(u8, int), SpsFault>((v as u8, p))
        } else {
            Err::<(u8, int), SpsFault>(SpsFault::BitDepthOutOfRange(v))
        },
{
}

/// `log2_max_frame_num_minus4` is accepted up to 12 (frame numbers below
/// 2^16); a larger code is refused, naming the value read.
pub proof fn law_log2_max_frame_num_limit(bytes: Seq<u8>, pos: int)
    ensures
        read_ue(bytes, pos) matches Ok((v, p)) ==> parse_log2_max_frame_num_minus4(bytes, pos) == if v <= 12 {
            Ok::<(u8, int), SpsFault>((v as u8, p))
        } else {
            Err::<(u8, int), SpsFault>(SpsFault::Log2MaxFrameNumMinus4OutOfRange(v))
        },
{
}

/// `log2_max_pic_order_cnt_lsb_minus4` is accepted up to 12; a larger code is
/// refused, naming the value read.
pub proof fn law_log2_max_pic_order_cnt_lsb_limit(bytes: Seq<u8>, pos: int)
    ensures
        read_ue(bytes, pos) matches Ok((v, p)) ==> parse_log2_max_pic_order_cnt_lsb_minus4(bytes, pos) == if v
            <= 12 {
            Ok::<(u8, int), PocFault>((v as u8, p))
        } else {
            Err::<(u8, int), PocFault>(PocFault::Log2MaxPicOrderCntLsbMinus4OutOfRange(v))
        },
{
}

/// The picture order count types are 0, 1 and 2: a larger type is refused,
/// naming it, and a known type is never refused as unknown.
pub proof fn law_pic_order_cnt_types(bytes: Seq<u8>, pos: int)
    ensures
        read_ue(bytes, pos) matches Ok((t, _)) ==> {
            &&& t > 2 ==> parse_pic_order_cnt(bytes, pos) == Err::<(crate::nal::sps::PicOrderCntModel, int), PocFault>(
                PocFault::InvalidPicOrderCountType(t),
            )
            &&& t <= 2 ==> !(parse_pic_order_cnt(bytes, pos) matches Err(PocFault::InvalidPicOrderCountType(_)))
            &&& t == 2 ==> parse_pic_order_cnt(bytes, pos) is Ok
        },
{
}

/// A `delta_scale` that brings the next scale to 0 (a delta of -8 from the
/// initial scale of 8) ends the scaling list: nothing more is read, whatever
/// the list's size.
pub proof fn law_scaling_list_stops_at_zero(bytes: Seq<u8>, pos: int, size: nat)
    requires
        size >= 1,
    ensures
        read_se(bytes, pos) matches Ok((d, p)) ==> (d == -8 ==> parse_scaling_list(bytes, pos, size) == Some(p)),
{
    if let Ok((d, p)) = read_se(bytes, pos) {
        if d == -8 {
            assert(crate::nal::sps::trunc_rem_256(8 + d + 256) == 0);
            assert(scaling_list_steps(bytes, p, (size - 1) as nat, 8, 0) == Some(p));
        }
    }
}

} // verus!
