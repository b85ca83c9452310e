//! Sequence parameter sets: their syntax as spec functions over the bits of
//! the RBSP, and the reader that follows it.

use vstd::prelude::*;
use bitreader::BitReaderError;
use crate::bits::read_bits;
use crate::bits::read_flag;
use crate::bits::read_ue;
use crate::bits::read_se;
use crate::bits::group_read_extend;
use crate::rbsp::RbspBitReader;
use crate::rbsp::RbspBitReaderError;
use crate::rbsp::RbspFault;
use crate::rbsp::ue_named;
use crate::rbsp::flag_named;
use crate::nal::pps::ParamSetId;
use crate::nal::pps::ParamSetIdError;
use crate::nal::NalHeader;
use crate::nal::UnitType;
use crate::context::Context;
use std::marker::PhantomData;

verus! {

// ---------------------------------------------------------------------------
// Errors

#[derive(Debug)]
pub enum SpsError {
    /// Signals that bit_depth_luma_minus8 was greater than the max value, 6
    BitDepthOutOfRange(u32),
    ReaderError(BitReaderError),
    RbspReaderError(RbspBitReaderError),
    PicOrderCnt(PicOrderCntError),
    /// log2_max_frame_num_minus4 must be between 0 and 12
    Log2MaxFrameNumMinus4OutOfRange(u32),
    BadSeqParamSetId(ParamSetIdError),
}

/// What an `SpsError` says, with the `bitreader` errors left out.
pub enum SpsFault {
    BitDepthOutOfRange(u32),
    Reader,
    Rbsp(RbspFault),
    PicOrderCnt(PocFault),
    Log2MaxFrameNumMinus4OutOfRange(u32),
    BadSeqParamSetId(ParamSetIdError),
}

impl View for SpsError {
    type V = SpsFault;

    open spec fn view(&self) -> SpsFault {
        match self {
            SpsError::BitDepthOutOfRange(v) => SpsFault::BitDepthOutOfRange(*v),
            SpsError::ReaderError(_) => SpsFault::Reader,
            SpsError::RbspReaderError(e) => SpsFault::Rbsp(e@),
            SpsError::PicOrderCnt(e) => SpsFault::PicOrderCnt(e@),
            SpsError::Log2MaxFrameNumMinus4OutOfRange(v) => SpsFault::Log2MaxFrameNumMinus4OutOfRange(*v),
            SpsError::BadSeqParamSetId(e) => SpsFault::BadSeqParamSetId(*e),
        }
    }
}

impl From<BitReaderError> for SpsError {
    fn from(e: BitReaderError) -> (res: Self) {
        SpsError::ReaderError(e)
    }
}

impl vstd::std_specs::convert::FromSpecImpl<BitReaderError> for SpsError {
    open spec fn obeys_from_spec() -> bool {
        true
    }

    open spec fn from_spec(e: BitReaderError) -> Self {
        SpsError::ReaderError(e)
    }
}

impl From<RbspBitReaderError> for SpsError {
    fn from(e: RbspBitReaderError) -> (res: Self) {
        SpsError::RbspReaderError(e)
    }
}

impl vstd::std_specs::convert::FromSpecImpl<RbspBitReaderError> for SpsError {
    open spec fn obeys_from_spec() -> bool {
        true
    }

    open spec fn from_spec(e: RbspBitReaderError) -> Self {
        SpsError::RbspReaderError(e)
    }
}

#[derive(Debug)]
pub enum PicOrderCntError {
    InvalidPicOrderCountType(u32),
    ReaderError(BitReaderError),
    /// log2_max_pic_order_cnt_lsb_minus4 must be between 0 and 12
    Log2MaxPicOrderCntLsbMinus4OutOfRange(u32),
}

/// What a `PicOrderCntError` says, with the `bitreader` error left out.
pub enum PocFault {
    InvalidPicOrderCountType(u32),
    Reader,
    Log2MaxPicOrderCntLsbMinus4OutOfRange(u32),
}

impl View for PicOrderCntError {
    type V = PocFault;

    open spec fn view(&self) -> PocFault {
        match self {
            PicOrderCntError::InvalidPicOrderCountType(v) => PocFault::InvalidPicOrderCountType(*v),
            PicOrderCntError::ReaderError(_) => PocFault::Reader,
            PicOrderCntError::Log2MaxPicOrderCntLsbMinus4OutOfRange(v) => PocFault::Log2MaxPicOrderCntLsbMinus4OutOfRange(*v),
        }
    }
}

impl From<BitReaderError> for PicOrderCntError {
    fn from(e: BitReaderError) -> (res: Self) {
        PicOrderCntError::ReaderError(e)
    }
}

impl vstd::std_specs::convert::FromSpecImpl<BitReaderError> for PicOrderCntError {
    open spec fn obeys_from_spec() -> bool {
        true
    }

    open spec fn from_spec(e: BitReaderError) -> Self {
        PicOrderCntError::ReaderError(e)
    }
}

// ---------------------------------------------------------------------------
// Reads whose failures all come from the bit reader

/// An unsigned Exp-Golomb code, any failure being the bit reader's.
pub open spec fn ue_opt(bytes: Seq<u8>, pos: int) -> Option<(u32, int)> {
    match read_ue(bytes, pos) {
        Ok(r) => Some(r),
        Err(_) => None,
    }
}

/// A signed Exp-Golomb code, any failure being the bit reader's.
pub open spec fn se_opt(bytes: Seq<u8>, pos: int) -> Option<(i32, int)> {
    match read_se(bytes, pos) {
        Ok(r) => Some(r),
        Err(_) => None,
    }
}

/// `n` bits (at most 8) as a `u8`.
pub open spec fn bits_u8(bytes: Seq<u8>, pos: int, n: nat) -> Option<(u8, int)> {
    match read_bits(bytes, pos, n) {
        Some((v, p)) => Some((v as u8, p)),
        None => None,
    }
}

/// `n` bits (at most 16) as a `u16`.
pub open spec fn bits_u16(bytes: Seq<u8>, pos: int, n: nat) -> Option<(u16, int)> {
    match read_bits(bytes, pos, n) {
        Some((v, p)) => Some((v as u16, p)),
        None => None,
    }
}

/// `n` bits (at most 32) as a `u32`.
pub open spec fn bits_u32(bytes: Seq<u8>, pos: int, n: nat) -> Option<(u32, int)> {
    match read_bits(bytes, pos, n) {
        Some((v, p)) => Some((v as u32, p)),
        None => None,
    }
}

/// Where the reader stands after reading an unsigned Exp-Golomb code at `pos`:
/// just after the code when it reads, else just after its leading zeros.
pub open spec fn ue_stop(bytes: Seq<u8>, pos: int) -> int {
    match ue_opt(bytes, pos) {
        Some((_, p)) => p,
        None => pos + crate::bits::zero_run(bytes, pos, 32),
    }
}

// ---------------------------------------------------------------------------
// Profiles and levels

#[derive(Debug)]
pub enum Profile {
    Unknown(u8),
    Baseline,
    Main,
    High,
    High422,
    High10,
    High444,
    Extended,
    ScalableBase,
    ScalableHigh,
    MultiviewHigh,
    StereoHigh,
    MFCDepthHigh,
    MultiviewDepthHigh,
    EnhancedMultiviewDepthHigh,
}

/// The profile that a `profile_idc` value names.
pub open spec fn profile_named_by(idc: u8) -> Profile {
    match idc {
        66 => Profile::Baseline,
        77 => Profile::Main,
        100 => Profile::High,
        122 => Profile::High422,
        110 => Profile::High10,
        144 => Profile::High444,
        88 => Profile::Extended,
        83 => Profile::ScalableBase,
        86 => Profile::ScalableHigh,
        118 => Profile::MultiviewHigh,
        128 => Profile::StereoHigh,
        135 => Profile::MFCDepthHigh,
        138 => Profile::MultiviewDepthHigh,
        139 => Profile::EnhancedMultiviewDepthHigh,
        other => Profile::Unknown(other),
    }
}

/// The `profile_idc` value of a profile.
pub open spec fn idc_of_profile(p: Profile) -> u8 {
    match p {
        Profile::Baseline => 66,
        Profile::Main => 77,
        Profile::High => 100,
        Profile::High422 => 122,
        Profile::High10 => 110,
        Profile::High444 => 144,
        Profile::Extended => 88,
        Profile::ScalableBase => 83,
        Profile::ScalableHigh => 86,
        Profile::MultiviewHigh => 118,
        Profile::StereoHigh => 128,
        Profile::MFCDepthHigh => 135,
        Profile::MultiviewDepthHigh => 138,
        Profile::EnhancedMultiviewDepthHigh => 139,
        Profile::Unknown(profile_idc) => profile_idc,
    }
}

impl Profile {
    pub fn from_profile_idc(profile_idc: ProfileIdc) -> (p: Profile)
        ensures
            p == profile_named_by(profile_idc.value()),
    {
        match profile_idc.0 {
            66 => Profile::Baseline,
            77 => Profile::Main,
            100 => Profile::High,
            122 => Profile::High422,
            110 => Profile::High10,
            144 => Profile::High444,
            88 => Profile::Extended,
            83 => Profile::ScalableBase,
            86 => Profile::ScalableHigh,
            118 => Profile::MultiviewHigh,
            128 => Profile::StereoHigh,
            135 => Profile::MFCDepthHigh,
            138 => Profile::MultiviewDepthHigh,
            139 => Profile::EnhancedMultiviewDepthHigh,
            other => Profile::Unknown(other),
        }
    }

    pub fn profile_idc(&self) -> (r: u8)
        ensures
            r == idc_of_profile(*self),
    {
        match *self {
            Profile::Baseline => 66,
            Profile::Main => 77,
            Profile::High => 100,
            Profile::High422 => 122,
            Profile::High10 => 110,
            Profile::High444 => 144,
            Profile::Extended => 88,
            Profile::ScalableBase => 83,
            Profile::ScalableHigh => 86,
            Profile::MultiviewHigh => 118,
            Profile::StereoHigh => 128,
            Profile::MFCDepthHigh => 135,
            Profile::MultiviewDepthHigh => 138,
            Profile::EnhancedMultiviewDepthHigh => 139,
            Profile::Unknown(profile_idc) => profile_idc,
        }
    }
}

#[derive(Debug)]
#[allow(non_camel_case_types)]
pub enum Level {
    Unknown(u8),
    L1,
    L1_b,
    L1_1,
    L1_2,
    L1_3,
    L2,
    L2_1,
    L2_2,
    L3,
    L3_1,
    L3_2,
    L4,
    L4_1,
    L4_2,
    L5,
    L5_1,
    L5_2,
}

/// The level that `level_idc` names; `constraint_set3_flag` tells level 1b
/// from level 1.1.
pub open spec fn level_named_by(constraint_set3_flag: bool, level_idc: u8) -> Level {
    match level_idc {
        10 => Level::L1,
        11 => if constraint_set3_flag {
            Level::L1_b
        } else {
            Level::L1_1
        },
        12 => Level::L1_2,
        13 => Level::L1_3,
        20 => Level::L2,
        21 => Level::L2_1,
        22 => Level::L2_2,
        30 => Level::L3,
        31 => Level::L3_1,
        32 => Level::L3_2,
        40 => Level::L4,
        41 => Level::L4_1,
        42 => Level::L4_2,
        50 => Level::L5,
        51 => Level::L5_1,
        52 => Level::L5_2,
        _ => Level::Unknown(level_idc),
    }
}

/// The `level_idc` value of a level.
pub open spec fn idc_of_level(l: Level) -> u8 {
    match l {
        Level::L1 => 10,
        Level::L1_1 | Level::L1_b => 11,
        Level::L1_2 => 12,
        Level::L1_3 => 13,
        Level::L2 => 20,
        Level::L2_1 => 21,
        Level::L2_2 => 22,
        Level::L3 => 30,
        Level::L3_1 => 31,
        Level::L3_2 => 32,
        Level::L4 => 40,
        Level::L4_1 => 41,
        Level::L4_2 => 42,
        Level::L5 => 50,
        Level::L5_1 => 51,
        Level::L5_2 => 52,
        Level::Unknown(level_idc) => level_idc,
    }
}

impl Level {
    pub fn from_constraint_flags_and_level_idc(constraint_flags: &[bool; 6], level_idc: u8) -> (l: Level)
        ensures
            l == level_named_by(constraint_flags@[3], level_idc),
    {
        match level_idc {
            10 => Level::L1,
            11 => {
                if constraint_flags[3] {
                    Level::L1_b
                } else {
                    Level::L1_1
                }
            },
            12 => Level::L1_2,
            13 => Level::L1_3,
            20 => Level::L2,
            21 => Level::L2_1,
            22 => Level::L2_2,
            30 => Level::L3,
            31 => Level::L3_1,
            32 => Level::L3_2,
            40 => Level::L4,
            41 => Level::L4_1,
            42 => Level::L4_2,
            50 => Level::L5,
            51 => Level::L5_1,
            52 => Level::L5_2,
            _ => Level::Unknown(level_idc),
        }
    }

    pub fn level_idc(&self) -> (r: u8)
        ensures
            r == idc_of_level(*self),
    {
        match *self {
            Level::L1 => 10,
            Level::L1_1 | Level::L1_b => 11,
            Level::L1_2 => 12,
            Level::L1_3 => 13,
            Level::L2 => 20,
            Level::L2_1 => 21,
            Level::L2_2 => 22,
            Level::L3 => 30,
            Level::L3_1 => 31,
            Level::L3_2 => 32,
            Level::L4 => 40,
            Level::L4_1 => 41,
            Level::L4_2 => 42,
            Level::L5 => 50,
            Level::L5_1 => 51,
            Level::L5_2 => 52,
            Level::Unknown(level_idc) => level_idc,
        }
    }
}

/// Reading a `profile_idc` back from the profile it names gives the same value.
pub proof fn law_profile_idc_round_trip(idc: u8)
    ensures
        idc_of_profile(profile_named_by(idc)) == idc,
{
}

/// A profile other than `Unknown` of a value that names a known profile is
/// found again from its `profile_idc`.
pub proof fn law_profile_round_trip(p: Profile)
    requires
        !(p is Unknown && !(profile_named_by(p->Unknown_0) is Unknown)),
    ensures
        profile_named_by(idc_of_profile(p)) == p,
{
}

/// Reading a `level_idc` back from the level it names gives the same value,
/// whatever the constraint flag.
pub proof fn law_level_idc_round_trip(constraint_set3_flag: bool, level_idc: u8)
    ensures
        idc_of_level(level_named_by(constraint_set3_flag, level_idc)) == level_idc,
{
}

/// A level is found again from its `level_idc`, given the constraint flag that
/// tells level 1b from level 1.1, unless it is an `Unknown` level of a value
/// that names a known one.
pub proof fn law_level_round_trip(l: Level, constraint_set3_flag: bool)
    requires
        !(l is Unknown && !(level_named_by(constraint_set3_flag, l->Unknown_0) is Unknown)),
        l is L1_b ==> constraint_set3_flag,
        l is L1_1 ==> !constraint_set3_flag,
    ensures
        level_named_by(constraint_set3_flag, idc_of_level(l)) == l,
{
}

// ---------------------------------------------------------------------------
// Chroma

#[derive(Debug, PartialEq, Clone, Copy)]
pub enum ChromaFormat {
    Monochrome,
    YUV420,
    YUV422,
    YUV444,
    Invalid(u32),
}

/// The chroma format that `chroma_format_idc` names.
pub open spec fn chroma_format_named_by(chroma_format_idc: u32) -> ChromaFormat {
    match chroma_format_idc {
        0 => ChromaFormat::Monochrome,
        1 => ChromaFormat::YUV420,
        2 => ChromaFormat::YUV422,
        3 => ChromaFormat::YUV444,
        _ => ChromaFormat::Invalid(chroma_format_idc),
    }
}

impl ChromaFormat {
    pub fn from_chroma_format_idc(chroma_format_idc: u32) -> (c: ChromaFormat)
        ensures
            c == chroma_format_named_by(chroma_format_idc),
            c is Invalid <==> chroma_format_idc > 3,
    {
        match chroma_format_idc {
            0 => ChromaFormat::Monochrome,
            1 => ChromaFormat::YUV420,
            2 => ChromaFormat::YUV422,
            3 => ChromaFormat::YUV444,
            _ => ChromaFormat::Invalid(chroma_format_idc),
        }
    }
}

#[derive(Copy, Clone, Debug)]
pub struct ProfileIdc(u8);

/// The `profile_idc` values of the profiles whose SPS carries chroma
/// information.
pub open spec fn idc_has_chroma_info(idc: u8) -> bool {
    idc == 100 || idc == 110 || idc == 122 || idc == 244 || idc == 44 || idc == 83 || idc == 86
}

impl ProfileIdc {
    /// The `profile_idc` value.
    pub closed spec fn value(&self) -> u8 {
        self.0
    }

    pub fn has_chroma_info(&self) -> (r: bool)
        ensures
            r == idc_has_chroma_info(self.value()),
    {
        match self.0 {
            100 | 110 | 122 | 244 | 44 | 83 | 86 => true,
            _ => false,
        }
    }
}

impl From<u8> for ProfileIdc {
    fn from(v: u8) -> (r: Self)
        ensures
            r.value() == v,
    {
        ProfileIdc(v)
    }
}

impl vstd::std_specs::convert::FromSpecImpl<u8> for ProfileIdc {
    open spec fn obeys_from_spec() -> bool {
        true
    }

    closed spec fn from_spec(v: u8) -> Self {
        ProfileIdc(v)
    }
}

impl From<ProfileIdc> for u8 {
    fn from(v: ProfileIdc) -> (r: Self)
        ensures
            r == v.value(),
    {
        v.0
    }
}

impl vstd::std_specs::convert::FromSpecImpl<ProfileIdc> for u8 {
    open spec fn obeys_from_spec() -> bool {
        true
    }

    closed spec fn from_spec(v: ProfileIdc) -> Self {
        v.0
    }
}


// ---------------------------------------------------------------------------
// Scaling lists

/// Rust's remainder of `x` by 256, whose sign is that of `x`.
pub open spec fn trunc_rem_256(x: int) -> int {
    if x >= 0 {
        x % 256
    } else {
        -((-x) % 256)
    }
}

/// The rest of a scaling list with `remaining` entries to go, after the scale
/// values `last` and `next`: while `next` is not zero, each entry reads a
/// `delta_scale` and moves `next` to `(last + delta_scale + 256) % 256`; once
/// `next` is zero the remaining entries repeat `last` and read nothing.
pub open spec fn scaling_list_steps(bytes: Seq<u8>, pos: int, remaining: nat, last: int, next: int) -> Option<int>
    decreases remaining,
{
    if remaining == 0 || next == 0 {
        Some(pos)
    } else {
        match se_opt(bytes, pos) {
            Some((delta, p)) => {
                let n = trunc_rem_256(last + delta + 256);
                scaling_list_steps(bytes, p, (remaining - 1) as nat, if n == 0 {
                    last
                } else {
                    n
                }, n)
            },
            None => None,
        }
    }
}

/// The position after a `scaling_list()` of `size` entries at `pos`.
pub open spec fn parse_scaling_list(bytes: Seq<u8>, pos: int, size: nat) -> Option<int> {
    scaling_list_steps(bytes, pos, size, 8, 8)
}

/// The rest of a scaling matrix from list `i` on, of `count` lists: each list
/// has a presence flag, and a present list has 16 entries for the first six
/// lists and 64 after.
pub open spec fn scaling_matrix_steps(bytes: Seq<u8>, pos: int, i: nat, count: nat) -> Option<int>
    decreases count - i,
{
    if i >= count {
        Some(pos)
    } else {
        match read_flag(bytes, pos) {
            None => None,
            Some((present, p)) => if present {
                match parse_scaling_list(bytes, p, if i < 6 {
                    16
                } else {
                    64
                }) {
                    Some(q) => scaling_matrix_steps(bytes, q, i + 1, count),
                    None => None,
                }
            } else {
                scaling_matrix_steps(bytes, p, i + 1, count)
            },
        }
    }
}

/// The position after the scaling lists of a `seq_scaling_matrix`: 12 lists
/// for `chroma_format_idc` 3, else 8.
pub open spec fn parse_scaling_matrix(bytes: Seq<u8>, pos: int, chroma_format_idc: u32) -> Option<int> {
    scaling_matrix_steps(bytes, pos, 0, if chroma_format_idc == 3 {
        12
    } else {
        8
    })
}

/// Remainder by 256 with the sign of the dividend, as Rust's `%` has it.
fn rem_256(x: i64) -> (r: i64)
    requires
        -0x1_0000_0000_0000 < x < 0x1_0000_0000_0000,
    ensures
        r == trunc_rem_256(x as int),
        -256 < r < 256,
{
    if x >= 0 {
        ((x as u64) % 256) as i64
    } else {
        -((((-x) as u64) % 256) as i64)
    }
}

pub struct ScalingList {}

impl ScalingList {
    pub fn read(r: &mut RbspBitReader, size: u8) -> (res: Result<ScalingList, BitReaderError>)
        requires
            old(r).wf(),
        ensures
            final(r).wf(),
            final(r).bytes() == old(r).bytes(),
            match res {
                Ok(_) => parse_scaling_list(old(r).bytes(), old(r).pos(), size as nat) == Some(final(r).pos()),
                Err(_) => parse_scaling_list(old(r).bytes(), old(r).pos(), size as nat) is None,
            },
    {
        let ghost bytes = r.bytes();
        let mut last_scale: i64 = 8;
        let mut next_scale: i64 = 8;
        let mut j: u8 = 0;
        while j < size
            invariant
                r.wf(),
                r.bytes() == bytes,
                bytes == old(r).bytes(),
                j <= size,
                -256 < last_scale < 256,
                -256 < next_scale < 256,
                parse_scaling_list(bytes, old(r).pos(), size as nat) == scaling_list_steps(
                    bytes,
                    r.pos(),
                    (size - j) as nat,
                    last_scale as int,
                    next_scale as int,
                ),
            decreases size - j,
        {
            if next_scale != 0 {
                let delta_scale = r.read_se()?;
                next_scale = rem_256(last_scale + delta_scale as i64 + 256);
            }
            let new_value = if next_scale == 0 {
                last_scale
            } else {
                next_scale
            };
            last_scale = new_value;
            j = j + 1;
        }
        Ok(ScalingList {})
    }
}

#[derive(Debug, Clone)]
pub struct SeqScalingMatrix {}

impl Default for SeqScalingMatrix {
    fn default() -> (r: Self)
        ensures
            r == (SeqScalingMatrix {}),
    {
        SeqScalingMatrix {}
    }
}

impl SeqScalingMatrix {
    fn read(r: &mut RbspBitReader, chroma_format_idc: u32) -> (res: Result<SeqScalingMatrix, BitReaderError>)
        requires
            old(r).wf(),
        ensures
            final(r).wf(),
            final(r).bytes() == old(r).bytes(),
            match res {
                Ok(_) => parse_scaling_matrix(old(r).bytes(), old(r).pos(), chroma_format_idc) == Some(final(r).pos()),
                Err(_) => parse_scaling_matrix(old(r).bytes(), old(r).pos(), chroma_format_idc) is None,
            },
    {
        let ghost bytes = r.bytes();
        let count: u8 = if chroma_format_idc == 3 {
            12
        } else {
            8
        };
        let mut i: u8 = 0;
        while i < count
            invariant
                r.wf(),
                r.bytes() == bytes,
                bytes == old(r).bytes(),
                i <= count,
                count == (if chroma_format_idc == 3 { 12u8 } else { 8u8 }),
                parse_scaling_matrix(bytes, old(r).pos(), chroma_format_idc) == scaling_matrix_steps(
                    bytes,
                    r.pos(),
                    i as nat,
                    count as nat,
                ),
            decreases count - i,
        {
            let seq_scaling_list_present_flag = r.read_bool()?;
            if seq_scaling_list_present_flag {
                if i < 6 {
                    ScalingList::read(r, 16)?;
                } else {
                    ScalingList::read(r, 64)?;
                }
            }
            i = i + 1;
        }
        Ok(SeqScalingMatrix {})
    }
}


// ---------------------------------------------------------------------------
// Chroma information

#[derive(Debug, Clone)]
pub struct ChromaInfo {
    pub chroma_format: ChromaFormat,
    pub separate_colour_plane_flag: bool,
    pub bit_depth_luma_minus8: u8,
    pub bit_depth_chroma_minus8: u8,
    pub qpprime_y_zero_transform_bypass_flag: bool,
    pub scaling_matrix: SeqScalingMatrix,
}

/// The chroma information of a profile whose SPS carries none: 4:2:0, 8 bits.
pub open spec fn default_chroma_info() -> ChromaInfo {
    ChromaInfo {
        chroma_format: ChromaFormat::YUV420,
        separate_colour_plane_flag: false,
        bit_depth_luma_minus8: 0,
        bit_depth_chroma_minus8: 0,
        qpprime_y_zero_transform_bypass_flag: false,
        scaling_matrix: SeqScalingMatrix {},
    }
}

/// A `bit_depth_*_minus8`: an unsigned Exp-Golomb code of at most 6.
pub open spec fn parse_bit_depth_minus8(bytes: Seq<u8>, pos: int) -> Result<(u8, int), SpsFault> {
    match ue_opt(bytes, pos) {
        None => Err(SpsFault::Reader),
        Some((v, p)) => if v > 6 {
            Err(SpsFault::BitDepthOutOfRange(v))
        } else {
            Ok((v as u8, p))
        },
    }
}

/// A `seq_scaling_matrix_present_flag`, then the scaling lists if it is set.
pub open spec fn parse_optional_scaling_matrix(bytes: Seq<u8>, pos: int, chroma_format_idc: u32) -> Result<
    (SeqScalingMatrix, int),
    SpsFault,
> {
    match read_flag(bytes, pos) {
        None => Err(SpsFault::Reader),
        Some((present, p)) => if present {
            match parse_scaling_matrix(bytes, p, chroma_format_idc) {
                Some(q) => Ok((SeqScalingMatrix {}, q)),
                None => Err(SpsFault::Reader),
            }
        } else {
            Ok((SeqScalingMatrix {}, p))
        },
    }
}

/// The chroma part of an SPS, present only for the profiles of
/// `idc_has_chroma_info`: `chroma_format_idc`, `separate_colour_plane_flag`
/// (for 4:4:4 only), the two bit depths, `qpprime_y_zero_transform_bypass_flag`
/// and the scaling matrix.
pub open spec fn parse_chroma_info(bytes: Seq<u8>, pos: int, profile_idc: u8) -> Result<(ChromaInfo, int), SpsFault> {
    if idc_has_chroma_info(profile_idc) {
        match ue_opt(bytes, pos) {
            None => Err(SpsFault::Reader),
            Some((chroma_format_idc, p1)) => match (if chroma_format_idc == 3 {
                read_flag(bytes, p1)
            } else {
                Some((false, p1))
            }) {
                None => Err(SpsFault::Reader),
                Some((separate_colour_plane_flag, p2)) => match parse_bit_depth_minus8(bytes, p2) {
                    Err(f) => Err(f),
                    Ok((luma, p3)) => match parse_bit_depth_minus8(bytes, p3) {
                        Err(f) => Err(f),
                        Ok((chroma, p4)) => match read_flag(bytes, p4) {
                            None => Err(SpsFault::Reader),
                            Some((bypass, p5)) => match parse_optional_scaling_matrix(bytes, p5, chroma_format_idc) {
                                Err(f) => Err(f),
                                Ok((scaling_matrix, p6)) => Ok(
                                    (
                                        ChromaInfo {
                                            chroma_format: chroma_format_named_by(chroma_format_idc),
                                            separate_colour_plane_flag,
                                            bit_depth_luma_minus8: luma,
                                            bit_depth_chroma_minus8: chroma,
                                            qpprime_y_zero_transform_bypass_flag: bypass,
                                            scaling_matrix,
                                        },
                                        p6,
                                    ),
                                ),
                            },
                        },
                    },
                },
            },
        }
    } else {
        Ok((default_chroma_info(), pos))
    }
}

/// Where the bit depths of the chroma information start: after
/// `chroma_format_idc` and, for 4:4:4, `separate_colour_plane_flag`.
pub open spec fn bit_depths_start(bytes: Seq<u8>, pos: int) -> int {
    match ue_opt(bytes, pos) {
        Some((chroma_format_idc, p1)) => if chroma_format_idc == 3 {
            p1 + 1
        } else {
            p1
        },
        None => pos,
    }
}

/// Where the reader stands after an out-of-range bit depth: just after the
/// luma bit depth if it is the one out of range, else just after the chroma one.
pub open spec fn bit_depth_fault_pos(bytes: Seq<u8>, pos: int) -> int {
    let s = bit_depths_start(bytes, pos);
    match ue_opt(bytes, s) {
        Some((luma, p)) => if luma > 6 {
            p
        } else {
            ue_stop(bytes, p)
        },
        None => s,
    }
}

impl ChromaInfo {
    pub fn read(r: &mut RbspBitReader, profile_idc: ProfileIdc) -> (res: Result<ChromaInfo, SpsError>)
        requires
            old(r).wf(),
        ensures
            final(r).wf(),
            final(r).bytes() == old(r).bytes(),
            match res {
                Ok(c) => parse_chroma_info(old(r).bytes(), old(r).pos(), profile_idc.value()) == Ok::<(ChromaInfo, int), SpsFault>((c, final(r).pos())),
                Err(e) => parse_chroma_info(old(r).bytes(), old(r).pos(), profile_idc.value()) == Err::<(ChromaInfo, int), SpsFault>(e@)
                    && (e is BitDepthOutOfRange ==> final(r).pos() == bit_depth_fault_pos(old(r).bytes(), old(r).pos())),
            },
    {
        if profile_idc.has_chroma_info() {
            let chroma_format_idc = match r.read_ue() {
                Ok(v) => v,
                Err(e) => return Err(SpsError::ReaderError(e)),
            };
            let chroma_format = ChromaFormat::from_chroma_format_idc(chroma_format_idc);
            let separate_colour_plane_flag = if chroma_format_idc == 3 {
                match r.read_bool() {
                    Ok(b) => b,
                    Err(e) => return Err(SpsError::ReaderError(e)),
                }
            } else {
                false
            };
            let bit_depth_luma_minus8 = Self::read_bit_depth_minus8(r)?;
            let bit_depth_chroma_minus8 = Self::read_bit_depth_minus8(r)?;
            let qpprime_y_zero_transform_bypass_flag = match r.read_bool() {
                Ok(b) => b,
                Err(e) => return Err(SpsError::ReaderError(e)),
            };
            let scaling_matrix = Self::read_scaling_matrix(r, chroma_format_idc)?;
            Ok(ChromaInfo {
                chroma_format,
                separate_colour_plane_flag,
                bit_depth_luma_minus8,
                bit_depth_chroma_minus8,
                qpprime_y_zero_transform_bypass_flag,
                scaling_matrix,
            })
        } else {
            Ok(ChromaInfo {
                chroma_format: ChromaFormat::YUV420,
                separate_colour_plane_flag: false,
                bit_depth_luma_minus8: 0,
                bit_depth_chroma_minus8: 0,
                qpprime_y_zero_transform_bypass_flag: false,
                scaling_matrix: SeqScalingMatrix::default(),
            })
        }
    }

    fn read_bit_depth_minus8(r: &mut RbspBitReader) -> (res: Result<u8, SpsError>)
        requires
            old(r).wf(),
        ensures
            final(r).wf(),
            final(r).bytes() == old(r).bytes(),
            match res {
                Ok(v) => parse_bit_depth_minus8(old(r).bytes(), old(r).pos()) == Ok::<(u8, int), SpsFault>((v, final(r).pos())),
                Err(e) => parse_bit_depth_minus8(old(r).bytes(), old(r).pos()) == Err::<(u8, int), SpsFault>(e@)
                    && final(r).pos() == ue_stop(old(r).bytes(), old(r).pos()),
            },
    {
        let value = match r.read_ue() {
            Ok(v) => v,
            Err(e) => return Err(SpsError::ReaderError(e)),
        };
        if value > 6 {
            Err(SpsError::BitDepthOutOfRange(value))
        } else {
            Ok(value as u8)
        }
    }

    fn read_scaling_matrix(r: &mut RbspBitReader, chroma_format_idc: u32) -> (res: Result<SeqScalingMatrix, SpsError>)
        requires
            old(r).wf(),
        ensures
            final(r).wf(),
            final(r).bytes() == old(r).bytes(),
            match res {
                Ok(m) => parse_optional_scaling_matrix(old(r).bytes(), old(r).pos(), chroma_format_idc) == Ok::<(SeqScalingMatrix, int), SpsFault>((m, final(r).pos())),
                Err(e) => parse_optional_scaling_matrix(old(r).bytes(), old(r).pos(), chroma_format_idc) == Err::<(SeqScalingMatrix, int), SpsFault>(e@),
            },
    {
        let scaling_matrix_present_flag = match r.read_bool() {
            Ok(b) => b,
            Err(e) => return Err(SpsError::ReaderError(e)),
        };
        if scaling_matrix_present_flag {
            match SeqScalingMatrix::read(r, chroma_format_idc) {
                Ok(m) => Ok(m),
                Err(e) => Err(SpsError::ReaderError(e)),
            }
        } else {
            Ok(SeqScalingMatrix::default())
        }
    }
}


// ---------------------------------------------------------------------------
// Picture order count

#[derive(Debug, Clone)]
pub enum PicOrderCntType {
    TypeZero { log2_max_pic_order_cnt_lsb_minus4: u8 },
    TypeOne {
        delta_pic_order_always_zero_flag: bool,
        offset_for_non_ref_pic: i32,
        offset_for_top_to_bottom_field: i32,
        offsets_for_ref_frame: Vec<i32>,
    },
    TypeTwo,
}

/// A `PicOrderCntType` with its list of offsets as a sequence.
pub enum PicOrderCntModel {
    TypeZero { log2_max_pic_order_cnt_lsb_minus4: u8 },
    TypeOne {
        delta_pic_order_always_zero_flag: bool,
        offset_for_non_ref_pic: i32,
        offset_for_top_to_bottom_field: i32,
        offsets_for_ref_frame: Seq<i32>,
    },
    TypeTwo,
}

impl View for PicOrderCntType {
    type V = PicOrderCntModel;

    open spec fn view(&self) -> PicOrderCntModel {
        match self {
            PicOrderCntType::TypeZero { log2_max_pic_order_cnt_lsb_minus4 } => PicOrderCntModel::TypeZero {
                log2_max_pic_order_cnt_lsb_minus4: *log2_max_pic_order_cnt_lsb_minus4,
            },
            PicOrderCntType::TypeOne {
                delta_pic_order_always_zero_flag,
                offset_for_non_ref_pic,
                offset_for_top_to_bottom_field,
                offsets_for_ref_frame,
            } => PicOrderCntModel::TypeOne {
                delta_pic_order_always_zero_flag: *delta_pic_order_always_zero_flag,
                offset_for_non_ref_pic: *offset_for_non_ref_pic,
                offset_for_top_to_bottom_field: *offset_for_top_to_bottom_field,
                offsets_for_ref_frame: offsets_for_ref_frame@,
            },
            PicOrderCntType::TypeTwo => PicOrderCntModel::TypeTwo,
        }
    }
}

/// `n` signed Exp-Golomb codes in a row.
pub open spec fn se_list(bytes: Seq<u8>, pos: int, n: nat) -> Option<(Seq<i32>, int)>
    decreases n,
{
    if n == 0 {
        Some((Seq::empty(), pos))
    } else {
        match se_list(bytes, pos, (n - 1) as nat) {
            None => None,
            Some((s, p)) => match se_opt(bytes, p) {
                None => None,
                Some((v, q)) => Some((s.push(v), q)),
            },
        }
    }
}

/// `num_ref_frames_in_pic_order_cnt_cycle`, then that many `offset_for_ref_frame`.
pub open spec fn parse_offsets_for_ref_frame(bytes: Seq<u8>, pos: int) -> Result<(Seq<i32>, int), PocFault> {
    match ue_opt(bytes, pos) {
        None => Err(PocFault::Reader),
        Some((n, p)) => match se_list(bytes, p, n as nat) {
            None => Err(PocFault::Reader),
            Some(r) => Ok(r),
        },
    }
}

/// `log2_max_pic_order_cnt_lsb_minus4`, at most 12.
pub open spec fn parse_log2_max_pic_order_cnt_lsb_minus4(bytes: Seq<u8>, pos: int) -> Result<(u8, int), PocFault> {
    match ue_opt(bytes, pos) {
        None => Err(PocFault::Reader),
        Some((v, p)) => if v > 12 {
            Err(PocFault::Log2MaxPicOrderCntLsbMinus4OutOfRange(v))
        } else {
            Ok((v as u8, p))
        },
    }
}

/// `pic_order_cnt_type` and the fields that go with it: type 0 has the size of
/// the count, type 1 a flag, two offsets and a cycle of offsets, type 2
/// nothing; other types are refused.
pub open spec fn parse_pic_order_cnt(bytes: Seq<u8>, pos: int) -> Result<(PicOrderCntModel, int), PocFault> {
    match ue_opt(bytes, pos) {
        None => Err(PocFault::Reader),
        Some((t, p)) => if t == 0 {
            match parse_log2_max_pic_order_cnt_lsb_minus4(bytes, p) {
                Err(f) => Err(f),
                Ok((v, q)) => Ok((PicOrderCntModel::TypeZero { log2_max_pic_order_cnt_lsb_minus4: v }, q)),
            }
        } else if t == 1 {
            match read_flag(bytes, p) {
                None => Err(PocFault::Reader),
                Some((flag, p1)) => match se_opt(bytes, p1) {
                    None => Err(PocFault::Reader),
                    Some((non_ref, p2)) => match se_opt(bytes, p2) {
                        None => Err(PocFault::Reader),
                        Some((top_to_bottom, p3)) => match parse_offsets_for_ref_frame(bytes, p3) {
                            Err(f) => Err(f),
                            Ok((offsets, p4)) => Ok(
                                (
                                    PicOrderCntModel::TypeOne {
                                        delta_pic_order_always_zero_flag: flag,
                                        offset_for_non_ref_pic: non_ref,
                                        offset_for_top_to_bottom_field: top_to_bottom,
                                        offsets_for_ref_frame: offsets,
                                    },
                                    p4,
                                ),
                            ),
                        },
                    },
                },
            }
        } else if t == 2 {
            Ok((PicOrderCntModel::TypeTwo, p))
        } else {
            Err(PocFault::InvalidPicOrderCountType(t))
        },
    }
}

impl PicOrderCntType {
    fn read(r: &mut RbspBitReader) -> (res: Result<PicOrderCntType, PicOrderCntError>)
        requires
            old(r).wf(),
        ensures
            final(r).wf(),
            final(r).bytes() == old(r).bytes(),
            match res {
                Ok(v) => parse_pic_order_cnt(old(r).bytes(), old(r).pos()) == Ok::<(PicOrderCntModel, int), PocFault>((v@, final(r).pos())),
                Err(e) => parse_pic_order_cnt(old(r).bytes(), old(r).pos()) == Err::<(PicOrderCntModel, int), PocFault>(e@)
                    && (e is InvalidPicOrderCountType || ue_opt(old(r).bytes(), old(r).pos()) is None ==> final(r).pos()
                    == ue_stop(old(r).bytes(), old(r).pos()))
                    && (e is Log2MaxPicOrderCntLsbMinus4OutOfRange ==> final(r).pos() == ue_stop(
                    old(r).bytes(),
                    ue_stop(old(r).bytes(), old(r).pos()),
                )),
            },
    {
        let pic_order_cnt_type = match r.read_ue() {
            Ok(v) => v,
            Err(e) => return Err(PicOrderCntError::ReaderError(e)),
        };
        match pic_order_cnt_type {
            0 => {
                let log2_max_pic_order_cnt_lsb_minus4 = Self::read_log2_max_pic_order_cnt_lsb_minus4(r)?;
                Ok(PicOrderCntType::TypeZero { log2_max_pic_order_cnt_lsb_minus4 })
            },
            1 => {
                let delta_pic_order_always_zero_flag = match r.read_bool() {
                    Ok(b) => b,
                    Err(e) => return Err(PicOrderCntError::ReaderError(e)),
                };
                let offset_for_non_ref_pic = match r.read_se() {
                    Ok(v) => v,
                    Err(e) => return Err(PicOrderCntError::ReaderError(e)),
                };
                let offset_for_top_to_bottom_field = match r.read_se() {
                    Ok(v) => v,
                    Err(e) => return Err(PicOrderCntError::ReaderError(e)),
                };
                let offsets_for_ref_frame = Self::read_offsets_for_ref_frame(r)?;
                Ok(
                    PicOrderCntType::TypeOne {
                        delta_pic_order_always_zero_flag,
                        offset_for_non_ref_pic,
                        offset_for_top_to_bottom_field,
                        offsets_for_ref_frame,
                    },
                )
            },
            2 => Ok(PicOrderCntType::TypeTwo),
            _ => Err(PicOrderCntError::InvalidPicOrderCountType(pic_order_cnt_type)),
        }
    }

    fn read_log2_max_pic_order_cnt_lsb_minus4(r: &mut RbspBitReader) -> (res: Result<u8, PicOrderCntError>)
        requires
            old(r).wf(),
        ensures
            final(r).wf(),
            final(r).bytes() == old(r).bytes(),
            match res {
                Ok(v) => parse_log2_max_pic_order_cnt_lsb_minus4(old(r).bytes(), old(r).pos()) == Ok::<(u8, int), PocFault>((v, final(r).pos())),
                Err(e) => parse_log2_max_pic_order_cnt_lsb_minus4(old(r).bytes(), old(r).pos()) == Err::<(u8, int), PocFault>(e@)
                    && final(r).pos() == ue_stop(old(r).bytes(), old(r).pos()),
            },
    {
        let val = match r.read_ue() {
            Ok(v) => v,
            Err(e) => return Err(PicOrderCntError::ReaderError(e)),
        };
        if val > 12 {
            Err(PicOrderCntError::Log2MaxPicOrderCntLsbMinus4OutOfRange(val))
        } else {
            Ok(val as u8)
        }
    }

    fn read_offsets_for_ref_frame(r: &mut RbspBitReader) -> (res: Result<Vec<i32>, PicOrderCntError>)
        requires
            old(r).wf(),
        ensures
            final(r).wf(),
            final(r).bytes() == old(r).bytes(),
            match res {
                Ok(v) => parse_offsets_for_ref_frame(old(r).bytes(), old(r).pos()) == Ok::<(Seq<i32>, int), PocFault>((v@, final(r).pos())),
                Err(e) => parse_offsets_for_ref_frame(old(r).bytes(), old(r).pos()) == Err::<(Seq<i32>, int), PocFault>(e@),
            },
    {
        let ghost bytes = r.bytes();
        let num_ref_frames_in_pic_order_cnt_cycle = match r.read_ue() {
            Ok(v) => v,
            Err(e) => return Err(PicOrderCntError::ReaderError(e)),
        };
        let ghost start = r.pos();
        let mut offsets: Vec<i32> = Vec::new();
        let mut i: u32 = 0;
        while i < num_ref_frames_in_pic_order_cnt_cycle
            invariant
                r.wf(),
                r.bytes() == bytes,
                bytes == old(r).bytes(),
                ue_opt(bytes, old(r).pos()) == Some((num_ref_frames_in_pic_order_cnt_cycle, start)),
                i <= num_ref_frames_in_pic_order_cnt_cycle,
                se_list(bytes, start, i as nat) == Some((offsets@, r.pos())),
            decreases num_ref_frames_in_pic_order_cnt_cycle - i,
        {
            let v = match r.read_se() {
                Ok(v) => v,
                Err(e) => {
                    proof {
                        lemma_se_list_fails(bytes, start, i as nat, num_ref_frames_in_pic_order_cnt_cycle as nat);
                    }
                    return Err(PicOrderCntError::ReaderError(e));
                },
            };
            offsets.push(v);
            i = i + 1;
        }
        Ok(offsets)
    }
}

/// Once one code of a run fails to read, the whole run fails.
pub proof fn lemma_se_list_fails(bytes: Seq<u8>, pos: int, i: nat, n: nat)
    requires
        i < n,
        se_list(bytes, pos, i) matches Some((_, p)) && se_opt(bytes, p) is None,
    ensures
        se_list(bytes, pos, n) is None,
    decreases n,
{
    if n > i + 1 {
        lemma_se_list_fails(bytes, pos, i, (n - 1) as nat);
    }
}

// ---------------------------------------------------------------------------
// Frame layout

#[derive(Debug, Clone)]
pub enum FrameMbsFlags {
    Frames,
    Fields { mb_adaptive_frame_field_flag: bool },
}

/// `frame_mbs_only_flag`, followed when it is clear by `mb_adaptive_frame_field_flag`.
pub open spec fn parse_frame_mbs_flags(bytes: Seq<u8>, pos: int) -> Option<(FrameMbsFlags, int)> {
    match read_flag(bytes, pos) {
        None => None,
        Some((frame_mbs_only_flag, p)) => if frame_mbs_only_flag {
            Some((FrameMbsFlags::Frames, p))
        } else {
            match read_flag(bytes, p) {
                None => None,
                Some((f, q)) => Some((FrameMbsFlags::Fields { mb_adaptive_frame_field_flag: f }, q)),
            }
        },
    }
}

impl FrameMbsFlags {
    fn read(r: &mut RbspBitReader) -> (res: Result<FrameMbsFlags, BitReaderError>)
        requires
            old(r).wf(),
        ensures
            final(r).wf(),
            final(r).bytes() == old(r).bytes(),
            match res {
                Ok(v) => parse_frame_mbs_flags(old(r).bytes(), old(r).pos()) == Some((v, final(r).pos())),
                Err(_) => parse_frame_mbs_flags(old(r).bytes(), old(r).pos()) is None,
            },
    {
        let frame_mbs_only_flag = r.read_bool()?;
        if frame_mbs_only_flag {
            Ok(FrameMbsFlags::Frames)
        } else {
            let mb_adaptive_frame_field_flag = r.read_bool()?;
            Ok(FrameMbsFlags::Fields { mb_adaptive_frame_field_flag })
        }
    }
}

#[derive(Debug, Clone)]
pub struct FrameCropping {
    pub left_offset: u32,
    pub right_offset: u32,
    pub top_offset: u32,
    pub bottom_offset: u32,
}

/// `frame_cropping_flag`, followed when it is set by the four offsets.
pub open spec fn parse_frame_cropping(bytes: Seq<u8>, pos: int) -> Option<(Option<FrameCropping>, int)> {
    match read_flag(bytes, pos) {
        None => None,
        Some((flag, p)) => if !flag {
            Some((None, p))
        } else {
            match ue_opt(bytes, p) {
                None => None,
                Some((left, p1)) => match ue_opt(bytes, p1) {
                    None => None,
                    Some((right, p2)) => match ue_opt(bytes, p2) {
                        None => None,
                        Some((top, p3)) => match ue_opt(bytes, p3) {
                            None => None,
                            Some((bottom, p4)) => Some(
                                (
                                    Some(
                                        FrameCropping {
                                            left_offset: left,
                                            right_offset: right,
                                            top_offset: top,
                                            bottom_offset: bottom,
                                        },
                                    ),
                                    p4,
                                ),
                            ),
                        },
                    },
                },
            }
        },
    }
}

impl FrameCropping {
    fn read(r: &mut RbspBitReader) -> (res: Result<Option<FrameCropping>, BitReaderError>)
        requires
            old(r).wf(),
        ensures
            final(r).wf(),
            final(r).bytes() == old(r).bytes(),
            match res {
                Ok(v) => parse_frame_cropping(old(r).bytes(), old(r).pos()) == Some((v, final(r).pos())),
                Err(_) => parse_frame_cropping(old(r).bytes(), old(r).pos()) is None,
            },
    {
        let frame_cropping_flag = r.read_bool()?;
        Ok(
            if frame_cropping_flag {
                let left_offset = r.read_ue()?;
                let right_offset = r.read_ue()?;
                let top_offset = r.read_ue()?;
                let bottom_offset = r.read_ue()?;
                Some(FrameCropping { left_offset, right_offset, top_offset, bottom_offset })
            } else {
                None
            },
        )
    }
}


// ---------------------------------------------------------------------------
// VUI: aspect ratio, overscan, video signal, chroma location, timing

#[derive(Debug, Clone)]
pub enum AspectRatioInfo {
    Unspecified,
    Ratio1_1,
    Ratio12_11,
    Ratio10_11,
    Ratio16_11,
    Ratio40_33,
    Ratio24_11,
    Ratio20_11,
    Ratio32_11,
    Ratio80_33,
    Ratio18_11,
    Ratio15_11,
    Ratio64_33,
    Ratio160_99,
    Ratio4_3,
    Ratio3_2,
    Ratio2_1,
    Reserved(u8),
    Extended(u16, u16),
}

/// The sample aspect ratio that `aspect_ratio_idc` names, other than 255
/// (`Extended`, whose ratio follows in the bitstream).
pub open spec fn aspect_ratio_named_by(aspect_ratio_idc: u8) -> AspectRatioInfo {
    match aspect_ratio_idc {
        0 => AspectRatioInfo::Unspecified,
        1 => AspectRatioInfo::Ratio1_1,
        2 => AspectRatioInfo::Ratio12_11,
        3 => AspectRatioInfo::Ratio10_11,
        4 => AspectRatioInfo::Ratio16_11,
        5 => AspectRatioInfo::Ratio40_33,
        6 => AspectRatioInfo::Ratio24_11,
        7 => AspectRatioInfo::Ratio20_11,
        8 => AspectRatioInfo::Ratio32_11,
        9 => AspectRatioInfo::Ratio80_33,
        10 => AspectRatioInfo::Ratio18_11,
        11 => AspectRatioInfo::Ratio15_11,
        12 => AspectRatioInfo::Ratio64_33,
        13 => AspectRatioInfo::Ratio160_99,
        14 => AspectRatioInfo::Ratio4_3,
        15 => AspectRatioInfo::Ratio3_2,
        16 => AspectRatioInfo::Ratio2_1,
        _ => AspectRatioInfo::Reserved(aspect_ratio_idc),
    }
}

/// `aspect_ratio_info_present_flag`, then the 8-bit `aspect_ratio_idc`, then
/// for 255 the 16-bit width and height of the sample aspect ratio.
pub open spec fn parse_aspect_ratio_info(bytes: Seq<u8>, pos: int) -> Option<(Option<AspectRatioInfo>, int)> {
    match read_flag(bytes, pos) {
        None => None,
        Some((present, p)) => if !present {
            Some((None, p))
        } else {
            match bits_u8(bytes, p, 8) {
                None => None,
                Some((idc, p1)) => if idc == 255 {
                    match bits_u16(bytes, p1, 16) {
                        None => None,
                        Some((width, p2)) => match bits_u16(bytes, p2, 16) {
                            None => None,
                            Some((height, p3)) => Some((Some(AspectRatioInfo::Extended(width, height)), p3)),
                        },
                    }
                } else {
                    Some((Some(aspect_ratio_named_by(idc)), p1))
                },
            }
        },
    }
}

impl AspectRatioInfo {
    fn read(r: &mut RbspBitReader) -> (res: Result<Option<AspectRatioInfo>, BitReaderError>)
        requires
            old(r).wf(),
        ensures
            final(r).wf(),
            final(r).bytes() == old(r).bytes(),
            match res {
                Ok(v) => parse_aspect_ratio_info(old(r).bytes(), old(r).pos()) == Some((v, final(r).pos())),
                Err(_) => parse_aspect_ratio_info(old(r).bytes(), old(r).pos()) is None,
            },
    {
        let aspect_ratio_info_present_flag = r.read_bool()?;
        Ok(
            if aspect_ratio_info_present_flag {
                let aspect_ratio_idc = r.read_u8(8)?;
                Some(
                    match aspect_ratio_idc {
                        0 => AspectRatioInfo::Unspecified,
                        1 => AspectRatioInfo::Ratio1_1,
                        2 => AspectRatioInfo::Ratio12_11,
                        3 => AspectRatioInfo::Ratio10_11,
                        4 => AspectRatioInfo::Ratio16_11,
                        5 => AspectRatioInfo::Ratio40_33,
                        6 => AspectRatioInfo::Ratio24_11,
                        7 => AspectRatioInfo::Ratio20_11,
                        8 => AspectRatioInfo::Ratio32_11,
                        9 => AspectRatioInfo::Ratio80_33,
                        10 => AspectRatioInfo::Ratio18_11,
                        11 => AspectRatioInfo::Ratio15_11,
                        12 => AspectRatioInfo::Ratio64_33,
                        13 => AspectRatioInfo::Ratio160_99,
                        14 => AspectRatioInfo::Ratio4_3,
                        15 => AspectRatioInfo::Ratio3_2,
                        16 => AspectRatioInfo::Ratio2_1,
                        255 => {
                            let width = r.read_u16(16)?;
                            let height = r.read_u16(16)?;
                            AspectRatioInfo::Extended(width, height)
                        },
                        _ => AspectRatioInfo::Reserved(aspect_ratio_idc),
                    },
                )
            } else {
                None
            },
        )
    }
}

#[derive(Debug, Clone)]
pub enum OverscanAppropriate {
    Unspecified,
    Appropriate,
    Inappropriate,
}

/// `overscan_info_present_flag`, then `overscan_appropriate_flag` if set.
pub open spec fn parse_overscan_appropriate(bytes: Seq<u8>, pos: int) -> Option<(OverscanAppropriate, int)> {
    match read_flag(bytes, pos) {
        None => None,
        Some((present, p)) => if !present {
            Some((OverscanAppropriate::Unspecified, p))
        } else {
            match read_flag(bytes, p) {
                None => None,
                Some((appropriate, q)) => Some(
                    (
                        if appropriate {
                            OverscanAppropriate::Appropriate
                        } else {
                            OverscanAppropriate::Inappropriate
                        },
                        q,
                    ),
                ),
            }
        },
    }
}

impl OverscanAppropriate {
    fn read(r: &mut RbspBitReader) -> (res: Result<OverscanAppropriate, BitReaderError>)
        requires
            old(r).wf(),
        ensures
            final(r).wf(),
            final(r).bytes() == old(r).bytes(),
            match res {
                Ok(v) => parse_overscan_appropriate(old(r).bytes(), old(r).pos()) == Some((v, final(r).pos())),
                Err(_) => parse_overscan_appropriate(old(r).bytes(), old(r).pos()) is None,
            },
    {
        let overscan_info_present_flag = r.read_bool()?;
        Ok(
            if overscan_info_present_flag {
                let overscan_appropriate_flag = r.read_bool()?;
                if overscan_appropriate_flag {
                    OverscanAppropriate::Appropriate
                } else {
                    OverscanAppropriate::Inappropriate
                }
            } else {
                OverscanAppropriate::Unspecified
            },
        )
    }
}

#[derive(Debug, Clone)]
pub enum VideoFormat {
    Component,
    PAL,
    NTSC,
    SECAM,
    MAC,
    Unspecified,
    Reserved(u8),
}

/// The video format that a 3-bit `video_format` value names.
pub open spec fn video_format_named_by(video_format: u8) -> VideoFormat {
    match video_format {
        0 => VideoFormat::Component,
        1 => VideoFormat::PAL,
        2 => VideoFormat::NTSC,
        3 => VideoFormat::SECAM,
        4 => VideoFormat::MAC,
        5 => VideoFormat::Unspecified,
        _ => VideoFormat::Reserved(video_format),
    }
}

impl VideoFormat {
    /// `video_format` is a 3-bit field: values of 8 and up are refused.
    pub fn from(video_format: u8) -> (f: VideoFormat)
        requires
            video_format < 8,
        ensures
            f == video_format_named_by(video_format),
    {
        match video_format {
            0 => VideoFormat::Component,
            1 => VideoFormat::PAL,
            2 => VideoFormat::NTSC,
            3 => VideoFormat::SECAM,
            4 => VideoFormat::MAC,
            5 => VideoFormat::Unspecified,
            _ => VideoFormat::Reserved(video_format),
        }
    }
}

#[derive(Debug, Clone)]
pub struct ColourDescription {
    colour_primaries: u8,
    transfer_characteristics: u8,
    matrix_coefficients: u8,
}

/// The colour description with these fields.
pub closed spec fn colour_description_of(colour_primaries: u8, transfer_characteristics: u8, matrix_coefficients: u8) -> ColourDescription {
    ColourDescription { colour_primaries, transfer_characteristics, matrix_coefficients }
}

/// `colour_description_present_flag`, then three 8-bit fields if set.
pub open spec fn parse_colour_description(bytes: Seq<u8>, pos: int) -> Option<(Option<ColourDescription>, int)> {
    match read_flag(bytes, pos) {
        None => None,
        Some((present, p)) => if !present {
            Some((None, p))
        } else {
            match bits_u8(bytes, p, 8) {
                None => None,
                Some((colour_primaries, p1)) => match bits_u8(bytes, p1, 8) {
                    None => None,
                    Some((transfer_characteristics, p2)) => match bits_u8(bytes, p2, 8) {
                        None => None,
                        Some((matrix_coefficients, p3)) => Some(
                            (
                                Some(
                                    colour_description_of(colour_primaries, transfer_characteristics, matrix_coefficients),
                                ),
                                p3,
                            ),
                        ),
                    },
                },
            }
        },
    }
}

impl ColourDescription {
    fn read(r: &mut RbspBitReader) -> (res: Result<Option<ColourDescription>, BitReaderError>)
        requires
            old(r).wf(),
        ensures
            final(r).wf(),
            final(r).bytes() == old(r).bytes(),
            match res {
                Ok(v) => parse_colour_description(old(r).bytes(), old(r).pos()) == Some((v, final(r).pos())),
                Err(_) => parse_colour_description(old(r).bytes(), old(r).pos()) is None,
            },
    {
        let colour_description_present_flag = r.read_bool()?;
        Ok(
            if colour_description_present_flag {
                let colour_primaries = r.read_u8(8)?;
                let transfer_characteristics = r.read_u8(8)?;
                let matrix_coefficients = r.read_u8(8)?;
                Some(ColourDescription { colour_primaries, transfer_characteristics, matrix_coefficients })
            } else {
                None
            },
        )
    }
}

#[derive(Debug, Clone)]
pub struct VideoSignalType {
    video_format: VideoFormat,
    video_full_range_flag: bool,
    colour_description: Option<ColourDescription>,
}

/// The video signal type with these fields.
pub closed spec fn video_signal_type_of(
    video_format: VideoFormat,
    video_full_range_flag: bool,
    colour_description: Option<ColourDescription>,
) -> VideoSignalType {
    VideoSignalType { video_format, video_full_range_flag, colour_description }
}

/// `video_signal_type_present_flag`, then the 3-bit `video_format`,
/// `video_full_range_flag` and the colour description if set.
pub open spec fn parse_video_signal_type(bytes: Seq<u8>, pos: int) -> Option<(Option<VideoSignalType>, int)> {
    match read_flag(bytes, pos) {
        None => None,
        Some((present, p)) => if !present {
            Some((None, p))
        } else {
            match bits_u8(bytes, p, 3) {
                None => None,
                Some((video_format, p1)) => match read_flag(bytes, p1) {
                    None => None,
                    Some((video_full_range_flag, p2)) => match parse_colour_description(bytes, p2) {
                        None => None,
                        Some((colour_description, p3)) => Some(
                            (
                                Some(
                                    video_signal_type_of(video_format_named_by(video_format), video_full_range_flag, colour_description),
                                ),
                                p3,
                            ),
                        ),
                    },
                },
            }
        },
    }
}

impl VideoSignalType {
    fn read(r: &mut RbspBitReader) -> (res: Result<Option<VideoSignalType>, BitReaderError>)
        requires
            old(r).wf(),
        ensures
            final(r).wf(),
            final(r).bytes() == old(r).bytes(),
            match res {
                Ok(v) => parse_video_signal_type(old(r).bytes(), old(r).pos()) == Some((v, final(r).pos())),
                Err(_) => parse_video_signal_type(old(r).bytes(), old(r).pos()) is None,
            },
    {
        let ghost bytes = r.bytes();
        let video_signal_type_present_flag = r.read_bool()?;
        Ok(
            if video_signal_type_present_flag {
                let ghost p = r.pos();
                let v = r.read_u8(3)?;
                proof {
                    crate::bits::lemma_bits_value_bound(bytes, p, 3);
                    assert(crate::bits::pow2(3) == 8) by {
                        reveal_with_fuel(crate::bits::pow2, 4);
                    }
                }
                let video_format = VideoFormat::from(v);
                let video_full_range_flag = r.read_bool()?;
                let colour_description = ColourDescription::read(r)?;
                Some(VideoSignalType { video_format, video_full_range_flag, colour_description })
            } else {
                None
            },
        )
    }
}

#[derive(Debug, Clone)]
pub struct ChromaLocInfo {
    chroma_sample_loc_type_top_field: u32,
    chroma_sample_loc_type_bottom_field: u32,
}

/// The chroma sample locations with these fields.
pub closed spec fn chroma_loc_info_of(top: u32, bottom: u32) -> ChromaLocInfo {
    ChromaLocInfo { chroma_sample_loc_type_top_field: top, chroma_sample_loc_type_bottom_field: bottom }
}

/// `chroma_loc_info_present_flag`, then the two sample location types if set.
pub open spec fn parse_chroma_loc_info(bytes: Seq<u8>, pos: int) -> Option<(Option<ChromaLocInfo>, int)> {
    match read_flag(bytes, pos) {
        None => None,
        Some((present, p)) => if !present {
            Some((None, p))
        } else {
            match ue_opt(bytes, p) {
                None => None,
                Some((top, p1)) => match ue_opt(bytes, p1) {
                    None => None,
                    Some((bottom, p2)) => Some(
                        (
                            Some(
                                chroma_loc_info_of(top, bottom),
                            ),
                            p2,
                        ),
                    ),
                },
            }
        },
    }
}

impl ChromaLocInfo {
    fn read(r: &mut RbspBitReader) -> (res: Result<Option<ChromaLocInfo>, BitReaderError>)
        requires
            old(r).wf(),
        ensures
            final(r).wf(),
            final(r).bytes() == old(r).bytes(),
            match res {
                Ok(v) => parse_chroma_loc_info(old(r).bytes(), old(r).pos()) == Some((v, final(r).pos())),
                Err(_) => parse_chroma_loc_info(old(r).bytes(), old(r).pos()) is None,
            },
    {
        let chroma_loc_info_present_flag = r.read_bool()?;
        Ok(
            if chroma_loc_info_present_flag {
                let chroma_sample_loc_type_top_field = r.read_ue()?;
                let chroma_sample_loc_type_bottom_field = r.read_ue()?;
                Some(ChromaLocInfo { chroma_sample_loc_type_top_field, chroma_sample_loc_type_bottom_field })
            } else {
                None
            },
        )
    }
}

#[derive(Debug, Clone)]
pub struct TimingInfo {
    num_units_in_tick: u32,
    time_scale: u32,
    fixed_frame_rate_flag: bool,
}

/// The timing information with these fields.
pub closed spec fn timing_info_of(num_units_in_tick: u32, time_scale: u32, fixed_frame_rate_flag: bool) -> TimingInfo {
    TimingInfo { num_units_in_tick, time_scale, fixed_frame_rate_flag }
}

/// `timing_info_present_flag`, then two 32-bit fields and a flag if set.
pub open spec fn parse_timing_info(bytes: Seq<u8>, pos: int) -> Option<(Option<TimingInfo>, int)> {
    match read_flag(bytes, pos) {
        None => None,
        Some((present, p)) => if !present {
            Some((None, p))
        } else {
            match bits_u32(bytes, p, 32) {
                None => None,
                Some((num_units_in_tick, p1)) => match bits_u32(bytes, p1, 32) {
                    None => None,
                    Some((time_scale, p2)) => match read_flag(bytes, p2) {
                        None => None,
                        Some((fixed_frame_rate_flag, p3)) => Some(
                            (Some(timing_info_of(num_units_in_tick, time_scale, fixed_frame_rate_flag)), p3),
                        ),
                    },
                },
            }
        },
    }
}

impl TimingInfo {
    fn read(r: &mut RbspBitReader) -> (res: Result<Option<TimingInfo>, BitReaderError>)
        requires
            old(r).wf(),
        ensures
            final(r).wf(),
            final(r).bytes() == old(r).bytes(),
            match res {
                Ok(v) => parse_timing_info(old(r).bytes(), old(r).pos()) == Some((v, final(r).pos())),
                Err(_) => parse_timing_info(old(r).bytes(), old(r).pos()) is None,
            },
    {
        let timing_info_present_flag = r.read_bool()?;
        Ok(
            if timing_info_present_flag {
                let num_units_in_tick = r.read_u32(32)?;
                let time_scale = r.read_u32(32)?;
                let fixed_frame_rate_flag = r.read_bool()?;
                Some(TimingInfo { num_units_in_tick, time_scale, fixed_frame_rate_flag })
            } else {
                None
            },
        )
    }
}


// ---------------------------------------------------------------------------
// VUI: hypothetical reference decoder parameters, bitstream restrictions

#[derive(Debug, Clone)]
pub struct CpbSpec {
    bit_rate_value_minus1: u32,
    cpb_size_value_minus1: u32,
    cbr_flag: bool,
}

/// The buffer specification with these fields.
pub closed spec fn cpb_spec_of(bit_rate_value_minus1: u32, cpb_size_value_minus1: u32, cbr_flag: bool) -> CpbSpec {
    CpbSpec { bit_rate_value_minus1, cpb_size_value_minus1, cbr_flag }
}

/// One coded picture buffer's `bit_rate_value_minus1`,
/// `cpb_size_value_minus1` and `cbr_flag`.
pub open spec fn parse_cpb_spec(bytes: Seq<u8>, pos: int) -> Result<(CpbSpec, int), RbspFault> {
    match ue_named(bytes, pos, "bit_rate_value_minus1"@) {
        Err(f) => Err(f),
        Ok((bit_rate_value_minus1, p1)) => match ue_named(bytes, p1, "cpb_size_value_minus1"@) {
            Err(f) => Err(f),
            Ok((cpb_size_value_minus1, p2)) => match flag_named(bytes, p2, "cbr_flag"@) {
                Err(f) => Err(f),
                Ok((cbr_flag, p3)) => Ok((cpb_spec_of(bit_rate_value_minus1, cpb_size_value_minus1, cbr_flag), p3)),
            },
        },
    }
}

/// `n` coded picture buffer specifications in a row.
pub open spec fn cpb_list(bytes: Seq<u8>, pos: int, n: nat) -> Result<(Seq<CpbSpec>, int), RbspFault>
    decreases n,
{
    if n == 0 {
        Ok((Seq::empty(), pos))
    } else {
        match cpb_list(bytes, pos, (n - 1) as nat) {
            Err(f) => Err(f),
            Ok((s, p)) => match parse_cpb_spec(bytes, p) {
                Err(f) => Err(f),
                Ok((c, q)) => Ok((s.push(c), q)),
            },
        }
    }
}

/// Once one specification of a run fails to read, the whole run fails the same way.
proof fn lemma_cpb_list_fails(bytes: Seq<u8>, pos: int, i: nat, n: nat, f: RbspFault)
    requires
        i < n,
        cpb_list(bytes, pos, i) matches Ok((_, p)) && parse_cpb_spec(bytes, p) == Err::<(CpbSpec, int), RbspFault>(f),
    ensures
        cpb_list(bytes, pos, n) == Err::<(Seq<CpbSpec>, int), RbspFault>(f),
    decreases n,
{
    if n > i + 1 {
        lemma_cpb_list_fails(bytes, pos, i, (n - 1) as nat, f);
    }
}

impl CpbSpec {
    fn read(r: &mut RbspBitReader) -> (res: Result<CpbSpec, RbspBitReaderError>)
        requires
            old(r).wf(),
        ensures
            final(r).wf(),
            final(r).bytes() == old(r).bytes(),
            match res {
                Ok(v) => parse_cpb_spec(old(r).bytes(), old(r).pos()) == Ok::<(CpbSpec, int), RbspFault>((v, final(r).pos())),
                Err(e) => parse_cpb_spec(old(r).bytes(), old(r).pos()) == Err::<(CpbSpec, int), RbspFault>(e@),
            },
    {
        let bit_rate_value_minus1 = r.read_ue_named("bit_rate_value_minus1")?;
        let cpb_size_value_minus1 = r.read_ue_named("cpb_size_value_minus1")?;
        let cbr_flag = r.read_bool_named("cbr_flag")?;
        Ok(CpbSpec { bit_rate_value_minus1, cpb_size_value_minus1, cbr_flag })
    }
}

#[derive(Debug, Clone)]
pub struct HrdParameters {
    pub bit_rate_scale: u8,
    pub cpb_size_scale: u8,
    pub cpb_specs: Vec<CpbSpec>,
    pub initial_cpb_removal_delay_length_minus1: u8,
    pub cpb_removal_delay_length_minus1: u8,
    pub dpb_output_delay_length_minus1: u8,
    pub time_offset_length: u8,
}

/// `HrdParameters` with its buffer specifications as a sequence.
pub struct HrdModel {
    pub bit_rate_scale: u8,
    pub cpb_size_scale: u8,
    pub cpb_specs: Seq<CpbSpec>,
    pub initial_cpb_removal_delay_length_minus1: u8,
    pub cpb_removal_delay_length_minus1: u8,
    pub dpb_output_delay_length_minus1: u8,
    pub time_offset_length: u8,
}

impl View for HrdParameters {
    type V = HrdModel;

    open spec fn view(&self) -> HrdModel {
        HrdModel {
            bit_rate_scale: self.bit_rate_scale,
            cpb_size_scale: self.cpb_size_scale,
            cpb_specs: self.cpb_specs@,
            initial_cpb_removal_delay_length_minus1: self.initial_cpb_removal_delay_length_minus1,
            cpb_removal_delay_length_minus1: self.cpb_removal_delay_length_minus1,
            dpb_output_delay_length_minus1: self.dpb_output_delay_length_minus1,
            time_offset_length: self.time_offset_length,
        }
    }
}

/// The view of optional HRD parameters.
pub open spec fn hrd_view(h: Option<HrdParameters>) -> Option<HrdModel> {
    match h {
        Some(h) => Some(h@),
        None => None,
    }
}

/// The `hrd_parameters_present_flag` at `pos` reads as set.
pub open spec fn hrd_flag_set(bytes: Seq<u8>, pos: int) -> bool {
    read_flag(bytes, pos) matches Some((true, _))
}

/// The fields of `hrd_parameters()` after `cpb_cnt_minus1`: two 4-bit scales,
/// `cpb_cnt_minus1 + 1` buffer specifications and four 5-bit lengths.
pub open spec fn parse_hrd_body(bytes: Seq<u8>, pos: int, cpb_cnt: nat) -> Result<(HrdModel, int), RbspFault> {
    match bits_u8(bytes, pos, 4) {
        None => Err(RbspFault::Reader),
        Some((bit_rate_scale, p1)) => match bits_u8(bytes, p1, 4) {
            None => Err(RbspFault::Reader),
            Some((cpb_size_scale, p2)) => match cpb_list(bytes, p2, cpb_cnt) {
                Err(f) => Err(f),
                Ok((cpb_specs, p3)) => match bits_u8(bytes, p3, 5) {
                    None => Err(RbspFault::Reader),
                    Some((initial_cpb_removal_delay_length_minus1, p4)) => match bits_u8(bytes, p4, 5) {
                        None => Err(RbspFault::Reader),
                        Some((cpb_removal_delay_length_minus1, p5)) => match bits_u8(bytes, p5, 5) {
                            None => Err(RbspFault::Reader),
                            Some((dpb_output_delay_length_minus1, p6)) => match bits_u8(bytes, p6, 5) {
                                None => Err(RbspFault::Reader),
                                Some((time_offset_length, p7)) => Ok(
                                    (
                                        HrdModel {
                                            bit_rate_scale,
                                            cpb_size_scale,
                                            cpb_specs,
                                            initial_cpb_removal_delay_length_minus1,
                                            cpb_removal_delay_length_minus1,
                                            dpb_output_delay_length_minus1,
                                            time_offset_length,
                                        },
                                        p7,
                                    ),
                                ),
                            },
                        },
                    },
                },
            },
        },
    }
}

/// `hrd_parameters_present_flag`, then if set `cpb_cnt_minus1` and the rest of
/// the HRD parameters.
pub open spec fn parse_hrd(bytes: Seq<u8>, pos: int) -> Result<(Option<HrdModel>, int), RbspFault> {
    match flag_named(bytes, pos, "hrd_parameters_present_flag"@) {
        Err(f) => Err(f),
        Ok((present, p)) => if !present {
            Ok((None, p))
        } else {
            match ue_named(bytes, p, "cpb_cnt_minus1"@) {
                Err(f) => Err(f),
                Ok((cpb_cnt_minus1, p1)) => match parse_hrd_body(bytes, p1, (cpb_cnt_minus1 + 1) as nat) {
                    Err(f) => Err(f),
                    Ok((h, p2)) => Ok((Some(h), p2)),
                },
            }
        },
    }
}

impl HrdParameters {
    /// Reads optional HRD parameters, and records in `hrd_parameters_present`
    /// whether they were present.
    fn read(r: &mut RbspBitReader, hrd_parameters_present: &mut bool) -> (res: Result<Option<HrdParameters>, RbspBitReaderError>)
        requires
            old(r).wf(),
        ensures
            final(r).wf(),
            final(r).bytes() == old(r).bytes(),
            *final(hrd_parameters_present) == (*old(hrd_parameters_present) || hrd_flag_set(old(r).bytes(), old(r).pos())),
            match res {
                Ok(v) => parse_hrd(old(r).bytes(), old(r).pos()) == Ok::<(Option<HrdModel>, int), RbspFault>((hrd_view(v), final(r).pos()))
                    && (v is Some <==> hrd_flag_set(old(r).bytes(), old(r).pos())),
                Err(e) => parse_hrd(old(r).bytes(), old(r).pos()) == Err::<(Option<HrdModel>, int), RbspFault>(e@),
            },
    {
        let ghost bytes = r.bytes();
        let hrd_parameters_present_flag = r.read_bool_named("hrd_parameters_present_flag")?;
        *hrd_parameters_present = *hrd_parameters_present || hrd_parameters_present_flag;
        if hrd_parameters_present_flag {
            let ghost p1 = r.pos();
            let cpb_cnt_minus1 = r.read_ue_named("cpb_cnt_minus1")?;
            proof {
                crate::bits::lemma_ue_bound(bytes, p1);
            }
            let cpb_cnt = cpb_cnt_minus1 + 1;
            let bit_rate_scale = match r.read_u8(4) {
                Ok(v) => v,
                Err(e) => return Err(RbspBitReaderError::ReaderError(e)),
            };
            let cpb_size_scale = match r.read_u8(4) {
                Ok(v) => v,
                Err(e) => return Err(RbspBitReaderError::ReaderError(e)),
            };
            let cpb_specs = Self::read_cpb_specs(r, cpb_cnt)?;
            let initial_cpb_removal_delay_length_minus1 = match r.read_u8(5) {
                Ok(v) => v,
                Err(e) => return Err(RbspBitReaderError::ReaderError(e)),
            };
            let cpb_removal_delay_length_minus1 = match r.read_u8(5) {
                Ok(v) => v,
                Err(e) => return Err(RbspBitReaderError::ReaderError(e)),
            };
            let dpb_output_delay_length_minus1 = match r.read_u8(5) {
                Ok(v) => v,
                Err(e) => return Err(RbspBitReaderError::ReaderError(e)),
            };
            let time_offset_length = match r.read_u8(5) {
                Ok(v) => v,
                Err(e) => return Err(RbspBitReaderError::ReaderError(e)),
            };
            Ok(
                Some(
                    HrdParameters {
                        bit_rate_scale,
                        cpb_size_scale,
                        cpb_specs,
                        initial_cpb_removal_delay_length_minus1,
                        cpb_removal_delay_length_minus1,
                        dpb_output_delay_length_minus1,
                        time_offset_length,
                    },
                ),
            )
        } else {
            Ok(None)
        }
    }

    fn read_cpb_specs(r: &mut RbspBitReader, cpb_cnt: u32) -> (res: Result<Vec<CpbSpec>, RbspBitReaderError>)
        requires
            old(r).wf(),
        ensures
            final(r).wf(),
            final(r).bytes() == old(r).bytes(),
            match res {
                Ok(v) => cpb_list(old(r).bytes(), old(r).pos(), cpb_cnt as nat) == Ok::<(Seq<CpbSpec>, int), RbspFault>((v@, final(r).pos())),
                Err(e) => cpb_list(old(r).bytes(), old(r).pos(), cpb_cnt as nat) == Err::<(Seq<CpbSpec>, int), RbspFault>(e@),
            },
    {
        let ghost bytes = r.bytes();
        let ghost start = r.pos();
        let mut cpb_specs: Vec<CpbSpec> = Vec::new();
        let mut i: u32 = 0;
        while i < cpb_cnt
            invariant
                r.wf(),
                r.bytes() == bytes,
                bytes == old(r).bytes(),
                start == old(r).pos(),
                i <= cpb_cnt,
                cpb_list(bytes, start, i as nat) == Ok::<(Seq<CpbSpec>, int), RbspFault>((cpb_specs@, r.pos())),
            decreases cpb_cnt - i,
        {
            let spec = match CpbSpec::read(r) {
                Ok(s) => s,
                Err(e) => {
                    proof {
                        lemma_cpb_list_fails(bytes, start, i as nat, cpb_cnt as nat, e@);
                    }
                    return Err(e);
                },
            };
            cpb_specs.push(spec);
            i = i + 1;
        }
        Ok(cpb_specs)
    }
}


#[derive(Debug, Clone)]
pub struct BitstreamRestrictions {
    motion_vectors_over_pic_boundaries_flag: bool,
    max_bytes_per_pic_denom: u32,
    max_bits_per_mb_denom: u32,
    log2_max_mv_length_horizontal: u32,
    log2_max_mv_length_vertical: u32,
    max_num_reorder_frames: u32,
    max_dec_frame_buffering: u32,
}

/// The bitstream restrictions with these fields.
pub closed spec fn bitstream_restrictions_of(
    motion_vectors_over_pic_boundaries_flag: bool,
    max_bytes_per_pic_denom: u32,
    max_bits_per_mb_denom: u32,
    log2_max_mv_length_horizontal: u32,
    log2_max_mv_length_vertical: u32,
    max_num_reorder_frames: u32,
    max_dec_frame_buffering: u32,
) -> BitstreamRestrictions {
    BitstreamRestrictions {
        motion_vectors_over_pic_boundaries_flag,
        max_bytes_per_pic_denom,
        max_bits_per_mb_denom,
        log2_max_mv_length_horizontal,
        log2_max_mv_length_vertical,
        max_num_reorder_frames,
        max_dec_frame_buffering,
    }
}

/// `bitstream_restriction_flag`, then if set a flag and six Exp-Golomb codes.
pub open spec fn parse_bitstream_restrictions(bytes: Seq<u8>, pos: int) -> Result<(Option<BitstreamRestrictions>, int), RbspFault> {
    match read_flag(bytes, pos) {
        None => Err(RbspFault::Reader),
        Some((present, p)) => if !present {
            Ok((None, p))
        } else {
            match flag_named(bytes, p, "motion_vectors_over_pic_boundaries_flag"@) {
                Err(f) => Err(f),
                Ok((motion_vectors_over_pic_boundaries_flag, p1)) => match ue_named(bytes, p1, "max_bytes_per_pic_denom"@) {
                    Err(f) => Err(f),
                    Ok((max_bytes_per_pic_denom, p2)) => match ue_named(bytes, p2, "max_bits_per_mb_denom"@) {
                        Err(f) => Err(f),
                        Ok((max_bits_per_mb_denom, p3)) => match ue_named(bytes, p3, "log2_max_mv_length_horizontal"@) {
                            Err(f) => Err(f),
                            Ok((log2_max_mv_length_horizontal, p4)) => match ue_named(bytes, p4, "log2_max_mv_length_vertical"@) {
                                Err(f) => Err(f),
                                Ok((log2_max_mv_length_vertical, p5)) => match ue_named(bytes, p5, "max_num_reorder_frames"@) {
                                    Err(f) => Err(f),
                                    Ok((max_num_reorder_frames, p6)) => match ue_named(bytes, p6, "max_dec_frame_buffering"@) {
                                        Err(f) => Err(f),
                                        Ok((max_dec_frame_buffering, p7)) => Ok(
                                            (
                                                Some(
                                                    bitstream_restrictions_of(
                                                        motion_vectors_over_pic_boundaries_flag,
                                                        max_bytes_per_pic_denom,
                                                        max_bits_per_mb_denom,
                                                        log2_max_mv_length_horizontal,
                                                        log2_max_mv_length_vertical,
                                                        max_num_reorder_frames,
                                                        max_dec_frame_buffering,
                                                    ),
                                                ),
                                                p7,
                                            ),
                                        ),
                                    },
                                },
                            },
                        },
                    },
                },
            }
        },
    }
}

impl BitstreamRestrictions {
    fn read(r: &mut RbspBitReader) -> (res: Result<Option<BitstreamRestrictions>, RbspBitReaderError>)
        requires
            old(r).wf(),
        ensures
            final(r).wf(),
            final(r).bytes() == old(r).bytes(),
            match res {
                Ok(v) => parse_bitstream_restrictions(old(r).bytes(), old(r).pos()) == Ok::<(Option<BitstreamRestrictions>, int), RbspFault>((v, final(r).pos())),
                Err(e) => parse_bitstream_restrictions(old(r).bytes(), old(r).pos()) == Err::<(Option<BitstreamRestrictions>, int), RbspFault>(e@),
            },
    {
        let bitstream_restriction_flag = match r.read_bool() {
            Ok(b) => b,
            Err(e) => return Err(RbspBitReaderError::ReaderError(e)),
        };
        Ok(
            if bitstream_restriction_flag {
                let motion_vectors_over_pic_boundaries_flag = r.read_bool_named("motion_vectors_over_pic_boundaries_flag")?;
                let max_bytes_per_pic_denom = r.read_ue_named("max_bytes_per_pic_denom")?;
                let max_bits_per_mb_denom = r.read_ue_named("max_bits_per_mb_denom")?;
                let log2_max_mv_length_horizontal = r.read_ue_named("log2_max_mv_length_horizontal")?;
                let log2_max_mv_length_vertical = r.read_ue_named("log2_max_mv_length_vertical")?;
                let max_num_reorder_frames = r.read_ue_named("max_num_reorder_frames")?;
                let max_dec_frame_buffering = r.read_ue_named("max_dec_frame_buffering")?;
                Some(
                    BitstreamRestrictions {
                        motion_vectors_over_pic_boundaries_flag,
                        max_bytes_per_pic_denom,
                        max_bits_per_mb_denom,
                        log2_max_mv_length_horizontal,
                        log2_max_mv_length_vertical,
                        max_num_reorder_frames,
                        max_dec_frame_buffering,
                    },
                )
            } else {
                None
            },
        )
    }
}

// ---------------------------------------------------------------------------
// VUI parameters

#[derive(Debug, Clone)]
pub struct VuiParameters {
    pub aspect_ratio_info: Option<AspectRatioInfo>,
    pub overscan_appropriate: OverscanAppropriate,
    pub video_signal_type: Option<VideoSignalType>,
    pub chroma_loc_info: Option<ChromaLocInfo>,
    pub timing_info: Option<TimingInfo>,
    pub nal_hrd_parameters: Option<HrdParameters>,
    pub vcl_hrd_parameters: Option<HrdParameters>,
    pub low_delay_hrd_flag: Option<bool>,
    pub pic_struct_present_flag: bool,
    pub bitstream_restrictions: Option<BitstreamRestrictions>,
}

/// `VuiParameters` with its HRD parameters as models.
pub struct VuiModel {
    pub aspect_ratio_info: Option<AspectRatioInfo>,
    pub overscan_appropriate: OverscanAppropriate,
    pub video_signal_type: Option<VideoSignalType>,
    pub chroma_loc_info: Option<ChromaLocInfo>,
    pub timing_info: Option<TimingInfo>,
    pub nal_hrd_parameters: Option<HrdModel>,
    pub vcl_hrd_parameters: Option<HrdModel>,
    pub low_delay_hrd_flag: Option<bool>,
    pub pic_struct_present_flag: bool,
    pub bitstream_restrictions: Option<BitstreamRestrictions>,
}

impl View for VuiParameters {
    type V = VuiModel;

    open spec fn view(&self) -> VuiModel {
        VuiModel {
            aspect_ratio_info: self.aspect_ratio_info,
            overscan_appropriate: self.overscan_appropriate,
            video_signal_type: self.video_signal_type,
            chroma_loc_info: self.chroma_loc_info,
            timing_info: self.timing_info,
            nal_hrd_parameters: hrd_view(self.nal_hrd_parameters),
            vcl_hrd_parameters: hrd_view(self.vcl_hrd_parameters),
            low_delay_hrd_flag: self.low_delay_hrd_flag,
            pic_struct_present_flag: self.pic_struct_present_flag,
            bitstream_restrictions: self.bitstream_restrictions,
        }
    }
}

/// The view of optional VUI parameters.
pub open spec fn vui_view(v: Option<VuiParameters>) -> Option<VuiModel> {
    match v {
        Some(v) => Some(v@),
        None => None,
    }
}

/// The VUI fields after the timing information: NAL and VCL HRD parameters,
/// `low_delay_hrd_flag` when either of them is present, `pic_struct_present_flag`
/// and the bitstream restrictions.
pub open spec fn parse_vui_tail(
    bytes: Seq<u8>,
    pos: int,
    aspect_ratio_info: Option<AspectRatioInfo>,
    overscan_appropriate: OverscanAppropriate,
    video_signal_type: Option<VideoSignalType>,
    chroma_loc_info: Option<ChromaLocInfo>,
    timing_info: Option<TimingInfo>,
) -> Result<(VuiModel, int), RbspFault> {
    match parse_hrd(bytes, pos) {
        Err(f) => Err(f),
        Ok((nal_hrd_parameters, p1)) => match parse_hrd(bytes, p1) {
            Err(f) => Err(f),
            Ok((vcl_hrd_parameters, p2)) => match (if nal_hrd_parameters is Some || vcl_hrd_parameters is Some {
                match flag_named(bytes, p2, "low_delay_hrd_flag"@) {
                    Err(f) => Err(f),
                    Ok((b, q)) => Ok((Some(b), q)),
                }
            } else {
                Ok((None, p2))
            }) {
                Err(f) => Err(f),
                Ok((low_delay_hrd_flag, p3)) => match flag_named(bytes, p3, "pic_struct_present_flag"@) {
                    Err(f) => Err(f),
                    Ok((pic_struct_present_flag, p4)) => match parse_bitstream_restrictions(bytes, p4) {
                        Err(f) => Err(f),
                        Ok((bitstream_restrictions, p5)) => Ok(
                            (
                                VuiModel {
                                    aspect_ratio_info,
                                    overscan_appropriate,
                                    video_signal_type,
                                    chroma_loc_info,
                                    timing_info,
                                    nal_hrd_parameters,
                                    vcl_hrd_parameters,
                                    low_delay_hrd_flag,
                                    pic_struct_present_flag,
                                    bitstream_restrictions,
                                },
                                p5,
                            ),
                        ),
                    },
                },
            },
        },
    }
}

/// `vui_parameters_present_flag`, then if set the VUI fields in order.
pub open spec fn parse_vui(bytes: Seq<u8>, pos: int) -> Result<(Option<VuiModel>, int), RbspFault> {
    match read_flag(bytes, pos) {
        None => Err(RbspFault::Reader),
        Some((present, p)) => if !present {
            Ok((None, p))
        } else {
            match parse_aspect_ratio_info(bytes, p) {
                None => Err(RbspFault::Reader),
                Some((aspect_ratio_info, p1)) => match parse_overscan_appropriate(bytes, p1) {
                    None => Err(RbspFault::Reader),
                    Some((overscan_appropriate, p2)) => match parse_video_signal_type(bytes, p2) {
                        None => Err(RbspFault::Reader),
                        Some((video_signal_type, p3)) => match parse_chroma_loc_info(bytes, p3) {
                            None => Err(RbspFault::Reader),
                            Some((chroma_loc_info, p4)) => match parse_timing_info(bytes, p4) {
                                None => Err(RbspFault::Reader),
                                Some((timing_info, p5)) => match parse_vui_tail(
                                    bytes,
                                    p5,
                                    aspect_ratio_info,
                                    overscan_appropriate,
                                    video_signal_type,
                                    chroma_loc_info,
                                    timing_info,
                                ) {
                                    Err(f) => Err(f),
                                    Ok((v, q)) => Ok((Some(v), q)),
                                },
                            },
                        },
                    },
                },
            }
        },
    }
}

impl VuiParameters {
    fn read(r: &mut RbspBitReader) -> (res: Result<Option<VuiParameters>, RbspBitReaderError>)
        requires
            old(r).wf(),
        ensures
            final(r).wf(),
            final(r).bytes() == old(r).bytes(),
            match res {
                Ok(v) => parse_vui(old(r).bytes(), old(r).pos()) == Ok::<(Option<VuiModel>, int), RbspFault>((vui_view(v), final(r).pos()))
                    && (v matches Some(vui) ==> vui_in_range(vui@)),
                Err(e) => parse_vui(old(r).bytes(), old(r).pos()) == Err::<(Option<VuiModel>, int), RbspFault>(e@),
            },
    {
        proof {
            law_parsed_vui_in_range(r.bytes(), r.pos());
        }
        let vui_parameters_present_flag = match r.read_bool() {
            Ok(b) => b,
            Err(e) => return Err(RbspBitReaderError::ReaderError(e)),
        };
        if !vui_parameters_present_flag {
            return Ok(None);
        }
        let aspect_ratio_info = match AspectRatioInfo::read(r) {
            Ok(v) => v,
            Err(e) => return Err(RbspBitReaderError::ReaderError(e)),
        };
        let overscan_appropriate = match OverscanAppropriate::read(r) {
            Ok(v) => v,
            Err(e) => return Err(RbspBitReaderError::ReaderError(e)),
        };
        let video_signal_type = match VideoSignalType::read(r) {
            Ok(v) => v,
            Err(e) => return Err(RbspBitReaderError::ReaderError(e)),
        };
        let chroma_loc_info = match ChromaLocInfo::read(r) {
            Ok(v) => v,
            Err(e) => return Err(RbspBitReaderError::ReaderError(e)),
        };
        let timing_info = match TimingInfo::read(r) {
            Ok(v) => v,
            Err(e) => return Err(RbspBitReaderError::ReaderError(e)),
        };
        let v = Self::read_tail(r, aspect_ratio_info, overscan_appropriate, video_signal_type, chroma_loc_info, timing_info)?;
        Ok(Some(v))
    }

    /// The VUI fields after the timing information.
    fn read_tail(
        r: &mut RbspBitReader,
        aspect_ratio_info: Option<AspectRatioInfo>,
        overscan_appropriate: OverscanAppropriate,
        video_signal_type: Option<VideoSignalType>,
        chroma_loc_info: Option<ChromaLocInfo>,
        timing_info: Option<TimingInfo>,
    ) -> (res: Result<VuiParameters, RbspBitReaderError>)
        requires
            old(r).wf(),
        ensures
            final(r).wf(),
            final(r).bytes() == old(r).bytes(),
            match res {
                Ok(v) => parse_vui_tail(
                    old(r).bytes(),
                    old(r).pos(),
                    aspect_ratio_info,
                    overscan_appropriate,
                    video_signal_type,
                    chroma_loc_info,
                    timing_info,
                ) == Ok::<(VuiModel, int), RbspFault>((v@, final(r).pos())),
                Err(e) => parse_vui_tail(
                    old(r).bytes(),
                    old(r).pos(),
                    aspect_ratio_info,
                    overscan_appropriate,
                    video_signal_type,
                    chroma_loc_info,
                    timing_info,
                ) == Err::<(VuiModel, int), RbspFault>(e@),
            },
    {
        let mut hrd_parameters_present = false;
        let nal_hrd_parameters = HrdParameters::read(r, &mut hrd_parameters_present)?;
        let vcl_hrd_parameters = HrdParameters::read(r, &mut hrd_parameters_present)?;
        let low_delay_hrd_flag = if hrd_parameters_present {
            Some(r.read_bool_named("low_delay_hrd_flag")?)
        } else {
            None
        };
        let pic_struct_present_flag = r.read_bool_named("pic_struct_present_flag")?;
        let bitstream_restrictions = BitstreamRestrictions::read(r)?;
        Ok(VuiParameters {
            aspect_ratio_info,
            overscan_appropriate,
            video_signal_type,
            chroma_loc_info,
            timing_info,
            nal_hrd_parameters,
            vcl_hrd_parameters,
            low_delay_hrd_flag,
            pic_struct_present_flag,
            bitstream_restrictions,
        })
    }
}


// ---------------------------------------------------------------------------
// The sequence parameter set

#[derive(Debug, Clone)]
pub struct SeqParameterSet {
    pub profile_idc: ProfileIdc,
    pub constraint_flags: [bool; 6],
    pub reserved_zero_two_bits: u8,
    pub level_idc: u8,
    pub seq_parameter_set_id: ParamSetId,
    pub chroma_info: ChromaInfo,
    pub log2_max_frame_num_minus4: u8,
    pub pic_order_cnt: PicOrderCntType,
    pub max_num_ref_frames: u32,
    pub gaps_in_frame_num_value_allowed_flag: bool,
    pub pic_width_in_mbs_minus1: u32,
    pub pic_height_in_map_units_minus1: u32,
    pub frame_mbs_flags: FrameMbsFlags,
    pub direct_8x8_inference_flag: bool,
    pub frame_cropping: Option<FrameCropping>,
    pub vui_parameters: Option<VuiParameters>,
}

/// A `SeqParameterSet` as plain values.
pub struct SpsModel {
    pub profile_idc: u8,
    pub constraint_flags: Seq<bool>,
    pub reserved_zero_two_bits: u8,
    pub level_idc: u8,
    pub seq_parameter_set_id: u8,
    pub chroma_info: ChromaInfo,
    pub log2_max_frame_num_minus4: u8,
    pub pic_order_cnt: PicOrderCntModel,
    pub max_num_ref_frames: u32,
    pub gaps_in_frame_num_value_allowed_flag: bool,
    pub pic_width_in_mbs_minus1: u32,
    pub pic_height_in_map_units_minus1: u32,
    pub frame_mbs_flags: FrameMbsFlags,
    pub direct_8x8_inference_flag: bool,
    pub frame_cropping: Option<FrameCropping>,
    pub vui_parameters: Option<VuiModel>,
}

impl View for SeqParameterSet {
    type V = SpsModel;

    open spec fn view(&self) -> SpsModel {
        SpsModel {
            profile_idc: self.profile_idc.value(),
            constraint_flags: self.constraint_flags@,
            reserved_zero_two_bits: self.reserved_zero_two_bits,
            level_idc: self.level_idc,
            seq_parameter_set_id: self.seq_parameter_set_id.value(),
            chroma_info: self.chroma_info,
            log2_max_frame_num_minus4: self.log2_max_frame_num_minus4,
            pic_order_cnt: self.pic_order_cnt@,
            max_num_ref_frames: self.max_num_ref_frames,
            gaps_in_frame_num_value_allowed_flag: self.gaps_in_frame_num_value_allowed_flag,
            pic_width_in_mbs_minus1: self.pic_width_in_mbs_minus1,
            pic_height_in_map_units_minus1: self.pic_height_in_map_units_minus1,
            frame_mbs_flags: self.frame_mbs_flags,
            direct_8x8_inference_flag: self.direct_8x8_inference_flag,
            frame_cropping: self.frame_cropping,
            vui_parameters: vui_view(self.vui_parameters),
        }
    }
}

/// `n` flags in a row.
pub open spec fn flag_list(bytes: Seq<u8>, pos: int, n: nat) -> Option<(Seq<bool>, int)>
    decreases n,
{
    if n == 0 {
        Some((Seq::empty(), pos))
    } else {
        match flag_list(bytes, pos, (n - 1) as nat) {
            None => None,
            Some((s, p)) => match read_flag(bytes, p) {
                None => None,
                Some((b, q)) => Some((s.push(b), q)),
            },
        }
    }
}

/// The fields that open an SPS.
pub struct SpsHead {
    pub profile_idc: u8,
    pub constraint_flags: Seq<bool>,
    pub reserved_zero_two_bits: u8,
    pub level_idc: u8,
    pub seq_parameter_set_id: u8,
}

/// The 8-bit `profile_idc`, six constraint flags, two reserved bits, the
/// 8-bit `level_idc` and `seq_parameter_set_id`, which must be at most 31.
pub open spec fn parse_sps_head(bytes: Seq<u8>) -> Result<(SpsHead, int), SpsFault> {
    match bits_u8(bytes, 0, 8) {
        None => Err(SpsFault::Reader),
        Some((profile_idc, p1)) => match flag_list(bytes, p1, 6) {
            None => Err(SpsFault::Reader),
            Some((constraint_flags, p2)) => match bits_u8(bytes, p2, 2) {
                None => Err(SpsFault::Reader),
                Some((reserved_zero_two_bits, p3)) => match bits_u8(bytes, p3, 8) {
                    None => Err(SpsFault::Reader),
                    Some((level_idc, p4)) => match ue_named(bytes, p4, "seq_parameter_set_id"@) {
                        Err(f) => Err(SpsFault::Rbsp(f)),
                        Ok((id, p5)) => match ParamSetId::spec_from_u32(id) {
                            Err(e) => Err(SpsFault::BadSeqParamSetId(e)),
                            Ok(seq_parameter_set_id) => Ok(
                                (
                                    SpsHead {
                                        profile_idc,
                                        constraint_flags,
                                        reserved_zero_two_bits,
                                        level_idc,
                                        seq_parameter_set_id,
                                    },
                                    p5,
                                ),
                            ),
                        },
                    },
                },
            },
        },
    }
}

/// `log2_max_frame_num_minus4`, at most 12.
pub open spec fn parse_log2_max_frame_num_minus4(bytes: Seq<u8>, pos: int) -> Result<(u8, int), SpsFault> {
    match ue_opt(bytes, pos) {
        None => Err(SpsFault::Reader),
        Some((v, p)) => if v > 12 {
            Err(SpsFault::Log2MaxFrameNumMinus4OutOfRange(v))
        } else {
            Ok((v as u8, p))
        },
    }
}

/// The fields of an SPS after its head, read from `pos`.
pub open spec fn parse_sps_body(bytes: Seq<u8>, pos: int, head: SpsHead) -> Result<SpsModel, SpsFault> {
    match parse_chroma_info(bytes, pos, head.profile_idc) {
        Err(f) => Err(f),
        Ok((chroma_info, p1)) => match parse_log2_max_frame_num_minus4(bytes, p1) {
            Err(f) => Err(f),
            Ok((log2_max_frame_num_minus4, p2)) => match parse_pic_order_cnt(bytes, p2) {
                Err(f) => Err(SpsFault::PicOrderCnt(f)),
                Ok((pic_order_cnt, p3)) => match ue_opt(bytes, p3) {
                    None => Err(SpsFault::Reader),
                    Some((max_num_ref_frames, p4)) => match read_flag(bytes, p4) {
                        None => Err(SpsFault::Reader),
                        Some((gaps_in_frame_num_value_allowed_flag, p5)) => match ue_opt(bytes, p5) {
                            None => Err(SpsFault::Reader),
                            Some((pic_width_in_mbs_minus1, p6)) => match ue_opt(bytes, p6) {
                                None => Err(SpsFault::Reader),
                                Some((pic_height_in_map_units_minus1, p7)) => match parse_frame_mbs_flags(bytes, p7) {
                                    None => Err(SpsFault::Reader),
                                    Some((frame_mbs_flags, p8)) => match read_flag(bytes, p8) {
                                        None => Err(SpsFault::Reader),
                                        Some((direct_8x8_inference_flag, p9)) => match parse_frame_cropping(bytes, p9) {
                                            None => Err(SpsFault::Reader),
                                            Some((frame_cropping, p10)) => match parse_vui(bytes, p10) {
                                                Err(f) => Err(SpsFault::Rbsp(f)),
                                                Ok((vui_parameters, _)) => Ok(
                                                    SpsModel {
                                                        profile_idc: head.profile_idc,
                                                        constraint_flags: head.constraint_flags,
                                                        reserved_zero_two_bits: head.reserved_zero_two_bits,
                                                        level_idc: head.level_idc,
                                                        seq_parameter_set_id: head.seq_parameter_set_id,
                                                        chroma_info,
                                                        log2_max_frame_num_minus4,
                                                        pic_order_cnt,
                                                        max_num_ref_frames,
                                                        gaps_in_frame_num_value_allowed_flag,
                                                        pic_width_in_mbs_minus1,
                                                        pic_height_in_map_units_minus1,
                                                        frame_mbs_flags,
                                                        direct_8x8_inference_flag,
                                                        frame_cropping,
                                                        vui_parameters,
                                                    },
                                                ),
                                            },
                                        },
                                    },
                                },
                            },
                        },
                    },
                },
            },
        },
    }
}

/// The sequence parameter set that the RBSP `bytes` hold, read from its first
/// bit; what follows the VUI parameters is not read.
pub open spec fn parse_sps(bytes: Seq<u8>) -> Result<SpsModel, SpsFault> {
    match parse_sps_head(bytes) {
        Err(f) => Err(f),
        Ok((head, p)) => parse_sps_body(bytes, p, head),
    }
}

impl SeqParameterSet {
    #[verifier::spinoff_prover]
    #[verifier::rlimit(60)]
    pub fn from_bytes(buf: &[u8]) -> (res: Result<SeqParameterSet, SpsError>)
        requires
            buf@.len() <= crate::bits::max_buf_len(),
        ensures
            match res {
                Ok(sps) => parse_sps(buf@) == Ok::<SpsModel, SpsFault>(sps@) && sps_in_range(sps@),
                Err(e) => parse_sps(buf@) == Err::<SpsModel, SpsFault>(e@),
            },
    {
        proof {
            law_parsed_sps_in_range(buf@);
        }
        let mut r = RbspBitReader::new(buf);
        let (profile_idc, constraint_flags, reserved_zero_two_bits, level_idc, seq_parameter_set_id) =
            Self::read_head(&mut r)?;
        let chroma_info = ChromaInfo::read(&mut r, profile_idc)?;
        let log2_max_frame_num_minus4 = Self::read_log2_max_frame_num_minus4(&mut r)?;
        let pic_order_cnt = match PicOrderCntType::read(&mut r) {
            Ok(v) => v,
            Err(e) => return Err(SpsError::PicOrderCnt(e)),
        };
        let max_num_ref_frames = match r.read_ue() {
            Ok(v) => v,
            Err(e) => return Err(SpsError::ReaderError(e)),
        };
        let gaps_in_frame_num_value_allowed_flag = match r.read_bool() {
            Ok(v) => v,
            Err(e) => return Err(SpsError::ReaderError(e)),
        };
        let pic_width_in_mbs_minus1 = match r.read_ue() {
            Ok(v) => v,
            Err(e) => return Err(SpsError::ReaderError(e)),
        };
        let pic_height_in_map_units_minus1 = match r.read_ue() {
            Ok(v) => v,
            Err(e) => return Err(SpsError::ReaderError(e)),
        };
        let frame_mbs_flags = match FrameMbsFlags::read(&mut r) {
            Ok(v) => v,
            Err(e) => return Err(SpsError::ReaderError(e)),
        };
        let direct_8x8_inference_flag = match r.read_bool() {
            Ok(v) => v,
            Err(e) => return Err(SpsError::ReaderError(e)),
        };
        let frame_cropping = match FrameCropping::read(&mut r) {
            Ok(v) => v,
            Err(e) => return Err(SpsError::ReaderError(e)),
        };
        let vui_parameters = match VuiParameters::read(&mut r) {
            Ok(v) => v,
            Err(e) => return Err(SpsError::RbspReaderError(e)),
        };
        let sps = SeqParameterSet {
            profile_idc,
            constraint_flags,
            reserved_zero_two_bits,
            level_idc,
            seq_parameter_set_id,
            chroma_info,
            log2_max_frame_num_minus4,
            pic_order_cnt,
            max_num_ref_frames,
            gaps_in_frame_num_value_allowed_flag,
            pic_width_in_mbs_minus1,
            pic_height_in_map_units_minus1,
            frame_mbs_flags,
            direct_8x8_inference_flag,
            frame_cropping,
            vui_parameters,
        };
        Ok(sps)
    }


    /// The head of an SPS, read from the start of the data.
    fn read_head(r: &mut RbspBitReader) -> (res: Result<(ProfileIdc, [bool; 6], u8, u8, ParamSetId), SpsError>)
        requires
            old(r).wf(),
            old(r).pos() == 0,
        ensures
            final(r).wf(),
            final(r).bytes() == old(r).bytes(),
            match res {
                Ok((profile_idc, constraint_flags, reserved_zero_two_bits, level_idc, id)) => parse_sps_head(old(r).bytes())
                    == Ok::<(SpsHead, int), SpsFault>(
                    (
                        SpsHead {
                            profile_idc: profile_idc.value(),
                            constraint_flags: constraint_flags@,
                            reserved_zero_two_bits,
                            level_idc,
                            seq_parameter_set_id: id.value(),
                        },
                        final(r).pos(),
                    ),
                ),
                Err(e) => parse_sps_head(old(r).bytes()) == Err::<(SpsHead, int), SpsFault>(e@),
            },
    {
        let profile_idc_bits = match r.read_u8(8) {
            Ok(v) => v,
            Err(e) => return Err(SpsError::ReaderError(e)),
        };
        let profile_idc = ProfileIdc::from(profile_idc_bits);
        let constraint_flags = match Self::read_constraint_flags(r) {
            Ok(f) => f,
            Err(e) => return Err(SpsError::ReaderError(e)),
        };
        let reserved_zero_two_bits = match r.read_u8(2) {
            Ok(v) => v,
            Err(e) => return Err(SpsError::ReaderError(e)),
        };
        let level_idc = match r.read_u8(8) {
            Ok(v) => v,
            Err(e) => return Err(SpsError::ReaderError(e)),
        };
        let id = match r.read_ue_named("seq_parameter_set_id") {
            Ok(v) => v,
            Err(e) => return Err(SpsError::RbspReaderError(e)),
        };
        let seq_parameter_set_id = match ParamSetId::from_u32(id) {
            Ok(v) => v,
            Err(e) => return Err(SpsError::BadSeqParamSetId(e)),
        };
        Ok((profile_idc, constraint_flags, reserved_zero_two_bits, level_idc, seq_parameter_set_id))
    }

    /// The six constraint set flags.
    fn read_constraint_flags(r: &mut RbspBitReader) -> (res: Result<[bool; 6], BitReaderError>)
        requires
            old(r).wf(),
        ensures
            final(r).wf(),
            final(r).bytes() == old(r).bytes(),
            match res {
                Ok(f) => flag_list(old(r).bytes(), old(r).pos(), 6) == Some((f@, final(r).pos())),
                Err(_) => flag_list(old(r).bytes(), old(r).pos(), 6) is None,
            },
    {
        proof {
            reveal_with_fuel(flag_list, 7);
        }
        let f0 = r.read_bool()?;
        let f1 = r.read_bool()?;
        let f2 = r.read_bool()?;
        let f3 = r.read_bool()?;
        let f4 = r.read_bool()?;
        let f5 = r.read_bool()?;
        let flags = [f0, f1, f2, f3, f4, f5];
        assert(flags@ == seq![f0, f1, f2, f3, f4, f5]);
        Ok(flags)
    }

    fn read_log2_max_frame_num_minus4(r: &mut RbspBitReader) -> (res: Result<u8, SpsError>)
        requires
            old(r).wf(),
        ensures
            final(r).wf(),
            final(r).bytes() == old(r).bytes(),
            match res {
                Ok(v) => parse_log2_max_frame_num_minus4(old(r).bytes(), old(r).pos()) == Ok::<(u8, int), SpsFault>((v, final(r).pos())),
                Err(e) => parse_log2_max_frame_num_minus4(old(r).bytes(), old(r).pos()) == Err::<(u8, int), SpsFault>(e@)
                    && final(r).pos() == ue_stop(old(r).bytes(), old(r).pos()),
            },
    {
        let val = match r.read_ue() {
            Ok(v) => v,
            Err(e) => return Err(SpsError::ReaderError(e)),
        };
        if val > 12 {
            Err(SpsError::Log2MaxFrameNumMinus4OutOfRange(val))
        } else {
            Ok(val as u8)
        }
    }

    pub fn profile(&self) -> (p: Profile)
        ensures
            p == profile_named_by(self.profile_idc.value()),
    {
        Profile::from_profile_idc(self.profile_idc)
    }

    pub fn level(&self) -> (l: Level)
        ensures
            l == level_named_by(self.constraint_flags@[3], self.level_idc),
    {
        Level::from_constraint_flags_and_level_idc(&self.constraint_flags, self.level_idc)
    }

    /// returned value will be in the range 4 to 16 inclusive
    pub fn log2_max_frame_num(&self) -> (r: u8)
        requires
            self.log2_max_frame_num_minus4 <= 251,
        ensures
            r == self.log2_max_frame_num_minus4 + 4,
    {
        self.log2_max_frame_num_minus4 + 4
    }
}

/// Once one flag of a run fails to read, the whole run fails.
pub proof fn lemma_flag_list_fails(bytes: Seq<u8>, pos: int, i: nat, n: nat)
    requires
        i < n,
        flag_list(bytes, pos, i) matches Some((_, p)) && read_flag(bytes, p) is None,
    ensures
        flag_list(bytes, pos, n) is None,
    decreases n,
{
    if n > i + 1 {
        lemma_flag_list_fails(bytes, pos, i, (n - 1) as nat);
    }
}


// ---------------------------------------------------------------------------
// The handler of SPS NAL units

/// Gathers the bytes of an SPS NAL unit, and at its end stores the parsed SPS
/// in the context.
pub struct SeqParameterSetNalHandler<Ctx> {
    buf: Vec<u8>,
    phantom: PhantomData<Ctx>,
}

impl<Ctx> SeqParameterSetNalHandler<Ctx> {
    /// The bytes gathered since the last end of a unit.
    pub closed spec fn pending(&self) -> Seq<u8> {
        self.buf@
    }

    pub fn new() -> (h: Self)
        ensures
            h.pending() == Seq::<u8>::empty(),
    {
        SeqParameterSetNalHandler { buf: Vec::new(), phantom: PhantomData }
    }

    /// The start of a unit, which must be an SPS.
    pub fn start(&mut self, ctx: &mut Context<Ctx>, header: NalHeader)
        requires
            header.unit_type() == UnitType::SeqParameterSet,
        ensures
            final(self).pending() == old(self).pending(),
            *final(ctx) == *old(ctx),
    {
    }

    /// More bytes of the unit.
    pub fn push(&mut self, ctx: &mut Context<Ctx>, buf: &[u8])
        ensures
            final(self).pending() == old(self).pending() + buf@,
            *final(ctx) == *old(ctx),
    {
        let mut i: usize = 0;
        let ghost before = self.buf@;
        while i < buf.len()
            invariant
                i <= buf@.len(),
                self.buf@ == before + buf@.subrange(0, i as int),
            decreases buf@.len() - i,
        {
            self.buf.push(buf[i]);
            i = i + 1;
            assert(buf@.subrange(0, i as int) == buf@.subrange(0, i - 1).push(buf@[i - 1]));
        }
        assert(buf@.subrange(0, buf@.len() as int) == buf@);
    }

    /// The end of the unit: the bytes gathered are parsed, and an SPS that
    /// parses is stored in `ctx` under its identifier.
    pub fn end(&mut self, ctx: &mut Context<Ctx>)
        requires
            old(ctx).wf(),
            old(self).pending().len() <= crate::bits::max_buf_len(),
        ensures
            final(self).pending() == Seq::<u8>::empty(),
            final(ctx).wf(),
            final(ctx).user() == old(ctx).user(),
            match parse_sps(old(self).pending()) {
                Ok(m) => (final(ctx).sps_at(m.seq_parameter_set_id as int) matches Some(s) && s@ == m)
                    && forall|id: int|
                    0 <= id < 32 && id != m.seq_parameter_set_id ==> (#[trigger] final(ctx).sps_at(id)) == old(ctx).sps_at(id),
                Err(_) => forall|id: int| 0 <= id < 32 ==> (#[trigger] final(ctx).sps_at(id)) == old(ctx).sps_at(id),
            },
    {
        let sps = SeqParameterSet::from_bytes(self.buf.as_slice());
        self.buf.clear();
        if let Ok(sps) = sps {
            ctx.put_seq_param_set(sps);
        }
    }
}


// ---------------------------------------------------------------------------
// What every parsed SPS satisfies

/// The ranges and presence rules that the parser enforces on an SPS.
pub open spec fn sps_in_range(m: SpsModel) -> bool {
    &&& m.seq_parameter_set_id <= 31
    &&& m.constraint_flags.len() == 6
    &&& m.log2_max_frame_num_minus4 <= 12
    &&& m.chroma_info.bit_depth_luma_minus8 <= 6
    &&& m.chroma_info.bit_depth_chroma_minus8 <= 6
    &&& (m.chroma_info.separate_colour_plane_flag ==> m.chroma_info.chroma_format == ChromaFormat::YUV444)
    &&& (m.pic_order_cnt matches PicOrderCntModel::TypeZero { log2_max_pic_order_cnt_lsb_minus4 } ==> log2_max_pic_order_cnt_lsb_minus4 <= 12)
    &&& (m.vui_parameters matches Some(v) ==> vui_in_range(v))
}

/// In VUI parameters, `low_delay_hrd_flag` is there exactly when some HRD
/// parameters are, and HRD parameters describe at least one buffer.
pub open spec fn vui_in_range(v: VuiModel) -> bool {
    &&& (v.low_delay_hrd_flag is Some <==> (v.nal_hrd_parameters is Some || v.vcl_hrd_parameters is Some))
    &&& (v.nal_hrd_parameters matches Some(h) ==> h.cpb_specs.len() >= 1)
    &&& (v.vcl_hrd_parameters matches Some(h) ==> h.cpb_specs.len() >= 1)
}

proof fn lemma_cpb_list_len(bytes: Seq<u8>, pos: int, n: nat)
    ensures
        cpb_list(bytes, pos, n) matches Ok((s, _)) ==> s.len() == n,
    decreases n,
{
    if n > 0 {
        lemma_cpb_list_len(bytes, pos, (n - 1) as nat);
    }
}

proof fn lemma_flag_list_len(bytes: Seq<u8>, pos: int, n: nat)
    ensures
        flag_list(bytes, pos, n) matches Some((s, _)) ==> s.len() == n,
    decreases n,
{
    if n > 0 {
        lemma_flag_list_len(bytes, pos, (n - 1) as nat);
    }
}

proof fn lemma_hrd_in_range(bytes: Seq<u8>, pos: int)
    ensures
        parse_hrd(bytes, pos) matches Ok((Some(h), _)) ==> h.cpb_specs.len() >= 1,
{
    if let Ok((present, p)) = flag_named(bytes, pos, "hrd_parameters_present_flag"@) {
        if let Ok((c, p1)) = ue_named(bytes, p, "cpb_cnt_minus1"@) {
            if let Some((_, q1)) = bits_u8(bytes, p1, 4) {
                if let Some((_, q2)) = bits_u8(bytes, q1, 4) {
                    lemma_cpb_list_len(bytes, q2, (c + 1) as nat);
                }
            }
        }
    }
}

/// VUI parameters that parse carry `low_delay_hrd_flag` exactly when they
/// carry HRD parameters, and their HRD parameters describe at least one buffer.
#[verifier::spinoff_prover]
pub proof fn law_parsed_vui_in_range(bytes: Seq<u8>, pos: int)
    ensures
        parse_vui(bytes, pos) matches Ok((Some(v), _)) ==> vui_in_range(v),
{
    if let Some((true, p)) = read_flag(bytes, pos) {
        if let Some((_, p1)) = parse_aspect_ratio_info(bytes, p) {
            if let Some((_, p2)) = parse_overscan_appropriate(bytes, p1) {
                if let Some((_, p3)) = parse_video_signal_type(bytes, p2) {
                    if let Some((_, p4)) = parse_chroma_loc_info(bytes, p3) {
                        if let Some((_, p5)) = parse_timing_info(bytes, p4) {
                            lemma_hrd_in_range(bytes, p5);
                            if let Ok((_, q)) = parse_hrd(bytes, p5) {
                                lemma_hrd_in_range(bytes, q);
                            }
                        }
                    }
                }
            }
        }
    }
}

proof fn lemma_chroma_info_in_range(bytes: Seq<u8>, pos: int, profile_idc: u8)
    ensures
        parse_chroma_info(bytes, pos, profile_idc) matches Ok((c, _)) ==> c.bit_depth_luma_minus8 <= 6
            && c.bit_depth_chroma_minus8 <= 6 && (c.separate_colour_plane_flag ==> c.chroma_format
            == ChromaFormat::YUV444),
{
}

#[verifier::spinoff_prover]
#[verifier::rlimit(40)]
proof fn lemma_sps_body_in_range(bytes: Seq<u8>, pos: int, head: SpsHead)
    ensures
        parse_sps_body(bytes, pos, head) matches Ok(m) ==> {
            &&& m.seq_parameter_set_id == head.seq_parameter_set_id
            &&& m.constraint_flags == head.constraint_flags
            &&& m.log2_max_frame_num_minus4 <= 12
            &&& m.chroma_info.bit_depth_luma_minus8 <= 6
            &&& m.chroma_info.bit_depth_chroma_minus8 <= 6
            &&& (m.chroma_info.separate_colour_plane_flag ==> m.chroma_info.chroma_format == ChromaFormat::YUV444)
            &&& (m.pic_order_cnt matches PicOrderCntModel::TypeZero { log2_max_pic_order_cnt_lsb_minus4 }
                ==> log2_max_pic_order_cnt_lsb_minus4 <= 12)
            &&& (m.vui_parameters matches Some(v) ==> vui_in_range(v))
        },
{
    lemma_chroma_info_in_range(bytes, pos, head.profile_idc);
    if let Ok((_, p1)) = parse_chroma_info(bytes, pos, head.profile_idc) {
        if let Ok((_, p2)) = parse_log2_max_frame_num_minus4(bytes, p1) {
            if let Ok((_, p3)) = parse_pic_order_cnt(bytes, p2) {
                if let Some((_, p4)) = ue_opt(bytes, p3) {
                    if let Some((_, p5)) = read_flag(bytes, p4) {
                        if let Some((_, p6)) = ue_opt(bytes, p5) {
                            if let Some((_, p7)) = ue_opt(bytes, p6) {
                                if let Some((_, p8)) = parse_frame_mbs_flags(bytes, p7) {
                                    if let Some((_, p9)) = read_flag(bytes, p8) {
                                        if let Some((_, p10)) = parse_frame_cropping(bytes, p9) {
                                            law_parsed_vui_in_range(bytes, p10);
                                        }
                                    }
                                }
                            }
                        }
                    }
                }
            }
        }
    }
}

proof fn lemma_sps_head_in_range(bytes: Seq<u8>)
    ensures
        parse_sps_head(bytes) matches Ok((h, _)) ==> h.seq_parameter_set_id <= 31 && h.constraint_flags.len() == 6,
{
    if let Some((_, p1)) = bits_u8(bytes, 0, 8) {
        lemma_flag_list_len(bytes, p1, 6);
    }
}

/// Every SPS that parses has its identifier, sizes and bit depths within the
/// ranges the standard allows, and its VUI presence rules hold.
pub proof fn law_parsed_sps_in_range(bytes: Seq<u8>)
    ensures
        parse_sps(bytes) matches Ok(m) ==> sps_in_range(m),
{
    lemma_sps_head_in_range(bytes);
    if let Ok((head, p)) = parse_sps_head(bytes) {
        lemma_sps_body_in_range(bytes, p, head);
    }
}


// ---------------------------------------------------------------------------
// What follows an SPS is not read

pub broadcast proof fn lemma_scaling_list_steps_extend(
    bytes: Seq<u8>,
    extra: Seq<u8>,
    pos: int,
    remaining: nat,
    last: int,
    next: int,
)
    requires
        0 <= pos,
        scaling_list_steps(bytes, pos, remaining, last, next) is Some,
    ensures
        #[trigger] scaling_list_steps(bytes + extra, pos, remaining, last, next) == scaling_list_steps(
            bytes,
            pos,
            remaining,
            last,
            next,
        ),
        scaling_list_steps(bytes, pos, remaining, last, next) matches Some(p) && p >= pos,
    decreases remaining,
{
    broadcast use group_read_extend;

    if remaining > 0 && next != 0 {
        if let Some((delta, p)) = se_opt(bytes, pos) {
            let n = trunc_rem_256(last + delta + 256);
            lemma_scaling_list_steps_extend(bytes, extra, p, (remaining - 1) as nat, if n == 0 {
                last
            } else {
                n
            }, n);
        }
    }
}

pub broadcast proof fn lemma_scaling_matrix_steps_extend(bytes: Seq<u8>, extra: Seq<u8>, pos: int, i: nat, count: nat)
    requires
        0 <= pos,
        scaling_matrix_steps(bytes, pos, i, count) is Some,
    ensures
        #[trigger] scaling_matrix_steps(bytes + extra, pos, i, count) == scaling_matrix_steps(bytes, pos, i, count),
        scaling_matrix_steps(bytes, pos, i, count) matches Some(p) && p >= pos,
    decreases count - i,
{
    broadcast use group_read_extend, lemma_scaling_list_steps_extend;

    if i < count {
        if let Some((present, p)) = read_flag(bytes, pos) {
            if present {
                if let Some(q) = parse_scaling_list(bytes, p, if i < 6 {
                    16
                } else {
                    64
                }) {
                    lemma_scaling_matrix_steps_extend(bytes, extra, q, i + 1, count);
                }
            } else {
                lemma_scaling_matrix_steps_extend(bytes, extra, p, i + 1, count);
            }
        }
    }
}

pub broadcast proof fn lemma_chroma_info_extend(bytes: Seq<u8>, extra: Seq<u8>, pos: int, profile_idc: u8)
    requires
        0 <= pos,
        parse_chroma_info(bytes, pos, profile_idc) is Ok,
    ensures
        #[trigger] parse_chroma_info(bytes + extra, pos, profile_idc) == parse_chroma_info(bytes, pos, profile_idc),
        parse_chroma_info(bytes, pos, profile_idc) matches Ok((_, p)) && p >= pos,
{
    broadcast use group_read_extend, lemma_scaling_matrix_steps_extend;

}

pub broadcast proof fn lemma_se_list_extend(bytes: Seq<u8>, extra: Seq<u8>, pos: int, n: nat)
    requires
        0 <= pos,
        se_list(bytes, pos, n) is Some,
    ensures
        #[trigger] se_list(bytes + extra, pos, n) == se_list(bytes, pos, n),
        se_list(bytes, pos, n) matches Some((_, p)) && p >= pos,
    decreases n,
{
    broadcast use group_read_extend;

    if n > 0 {
        lemma_se_list_extend(bytes, extra, pos, (n - 1) as nat);
    }
}

pub broadcast proof fn lemma_pic_order_cnt_extend(bytes: Seq<u8>, extra: Seq<u8>, pos: int)
    requires
        0 <= pos,
        parse_pic_order_cnt(bytes, pos) is Ok,
    ensures
        #[trigger] parse_pic_order_cnt(bytes + extra, pos) == parse_pic_order_cnt(bytes, pos),
        parse_pic_order_cnt(bytes, pos) matches Ok((_, p)) && p >= pos,
{
    broadcast use group_read_extend, lemma_se_list_extend;

}

pub broadcast proof fn lemma_frame_mbs_flags_extend(bytes: Seq<u8>, extra: Seq<u8>, pos: int)
    requires
        0 <= pos,
        parse_frame_mbs_flags(bytes, pos) is Some,
    ensures
        #[trigger] parse_frame_mbs_flags(bytes + extra, pos) == parse_frame_mbs_flags(bytes, pos),
        parse_frame_mbs_flags(bytes, pos) matches Some((_, p)) && p >= pos,
{
    broadcast use group_read_extend;

}

pub broadcast proof fn lemma_frame_cropping_extend(bytes: Seq<u8>, extra: Seq<u8>, pos: int)
    requires
        0 <= pos,
        parse_frame_cropping(bytes, pos) is Some,
    ensures
        #[trigger] parse_frame_cropping(bytes + extra, pos) == parse_frame_cropping(bytes, pos),
        parse_frame_cropping(bytes, pos) matches Some((_, p)) && p >= pos,
{
    broadcast use group_read_extend;

}

pub broadcast proof fn lemma_aspect_ratio_info_extend(bytes: Seq<u8>, extra: Seq<u8>, pos: int)
    requires
        0 <= pos,
        parse_aspect_ratio_info(bytes, pos) is Some,
    ensures
        #[trigger] parse_aspect_ratio_info(bytes + extra, pos) == parse_aspect_ratio_info(bytes, pos),
        parse_aspect_ratio_info(bytes, pos) matches Some((_, p)) && p >= pos,
{
    broadcast use group_read_extend;

}

pub broadcast proof fn lemma_overscan_appropriate_extend(bytes: Seq<u8>, extra: Seq<u8>, pos: int)
    requires
        0 <= pos,
        parse_overscan_appropriate(bytes, pos) is Some,
    ensures
        #[trigger] parse_overscan_appropriate(bytes + extra, pos) == parse_overscan_appropriate(bytes, pos),
        parse_overscan_appropriate(bytes, pos) matches Some((_, p)) && p >= pos,
{
    broadcast use group_read_extend;

}

pub broadcast proof fn lemma_colour_description_extend(bytes: Seq<u8>, extra: Seq<u8>, pos: int)
    requires
        0 <= pos,
        parse_colour_description(bytes, pos) is Some,
    ensures
        #[trigger] parse_colour_description(bytes + extra, pos) == parse_colour_description(bytes, pos),
        parse_colour_description(bytes, pos) matches Some((_, p)) && p >= pos,
{
    broadcast use group_read_extend;

}

pub broadcast proof fn lemma_video_signal_type_extend(bytes: Seq<u8>, extra: Seq<u8>, pos: int)
    requires
        0 <= pos,
        parse_video_signal_type(bytes, pos) is Some,
    ensures
        #[trigger] parse_video_signal_type(bytes + extra, pos) == parse_video_signal_type(bytes, pos),
        parse_video_signal_type(bytes, pos) matches Some((_, p)) && p >= pos,
{
    broadcast use group_read_extend, lemma_colour_description_extend;

}

pub broadcast proof fn lemma_chroma_loc_info_extend(bytes: Seq<u8>, extra: Seq<u8>, pos: int)
    requires
        0 <= pos,
        parse_chroma_loc_info(bytes, pos) is Some,
    ensures
        #[trigger] parse_chroma_loc_info(bytes + extra, pos) == parse_chroma_loc_info(bytes, pos),
        parse_chroma_loc_info(bytes, pos) matches Some((_, p)) && p >= pos,
{
    broadcast use group_read_extend;

}

pub broadcast proof fn lemma_timing_info_extend(bytes: Seq<u8>, extra: Seq<u8>, pos: int)
    requires
        0 <= pos,
        parse_timing_info(bytes, pos) is Some,
    ensures
        #[trigger] parse_timing_info(bytes + extra, pos) == parse_timing_info(bytes, pos),
        parse_timing_info(bytes, pos) matches Some((_, p)) && p >= pos,
{
    broadcast use group_read_extend;

}

pub broadcast proof fn lemma_cpb_spec_extend(bytes: Seq<u8>, extra: Seq<u8>, pos: int)
    requires
        0 <= pos,
        parse_cpb_spec(bytes, pos) is Ok,
    ensures
        #[trigger] parse_cpb_spec(bytes + extra, pos) == parse_cpb_spec(bytes, pos),
        parse_cpb_spec(bytes, pos) matches Ok((_, p)) && p >= pos,
{
    broadcast use group_read_extend;

}

pub broadcast proof fn lemma_cpb_list_extend(bytes: Seq<u8>, extra: Seq<u8>, pos: int, n: nat)
    requires
        0 <= pos,
        cpb_list(bytes, pos, n) is Ok,
    ensures
        #[trigger] cpb_list(bytes + extra, pos, n) == cpb_list(bytes, pos, n),
        cpb_list(bytes, pos, n) matches Ok((_, p)) && p >= pos,
    decreases n,
{
    broadcast use lemma_cpb_spec_extend;

    if n > 0 {
        lemma_cpb_list_extend(bytes, extra, pos, (n - 1) as nat);
    }
}

pub broadcast proof fn lemma_hrd_extend(bytes: Seq<u8>, extra: Seq<u8>, pos: int)
    requires
        0 <= pos,
        parse_hrd(bytes, pos) is Ok,
    ensures
        #[trigger] parse_hrd(bytes + extra, pos) == parse_hrd(bytes, pos),
        parse_hrd(bytes, pos) matches Ok((_, p)) && p >= pos,
{
    broadcast use group_read_extend, lemma_cpb_list_extend;

}

pub broadcast proof fn lemma_bitstream_restrictions_extend(bytes: Seq<u8>, extra: Seq<u8>, pos: int)
    requires
        0 <= pos,
        parse_bitstream_restrictions(bytes, pos) is Ok,
    ensures
        #[trigger] parse_bitstream_restrictions(bytes + extra, pos) == parse_bitstream_restrictions(bytes, pos),
        parse_bitstream_restrictions(bytes, pos) matches Ok((_, p)) && p >= pos,
{
    broadcast use group_read_extend;

}

#[verifier::spinoff_prover]
pub broadcast proof fn lemma_vui_tail_extend(
    bytes: Seq<u8>,
    extra: Seq<u8>,
    pos: int,
    aspect_ratio_info: Option<AspectRatioInfo>,
    overscan_appropriate: OverscanAppropriate,
    video_signal_type: Option<VideoSignalType>,
    chroma_loc_info: Option<ChromaLocInfo>,
    timing_info: Option<TimingInfo>,
)
    requires
        0 <= pos,
        parse_vui_tail(bytes, pos, aspect_ratio_info, overscan_appropriate, video_signal_type, chroma_loc_info, timing_info) is Ok,
    ensures
        #[trigger] parse_vui_tail(
            bytes + extra,
            pos,
            aspect_ratio_info,
            overscan_appropriate,
            video_signal_type,
            chroma_loc_info,
            timing_info,
        ) == parse_vui_tail(bytes, pos, aspect_ratio_info, overscan_appropriate, video_signal_type, chroma_loc_info, timing_info),
        parse_vui_tail(bytes, pos, aspect_ratio_info, overscan_appropriate, video_signal_type, chroma_loc_info, timing_info) matches Ok((_, p)) && p >= pos,
{
    broadcast use group_read_extend, lemma_hrd_extend, lemma_bitstream_restrictions_extend;

}

#[verifier::spinoff_prover]
pub broadcast proof fn lemma_vui_extend(bytes: Seq<u8>, extra: Seq<u8>, pos: int)
    requires
        0 <= pos,
        parse_vui(bytes, pos) is Ok,
    ensures
        #[trigger] parse_vui(bytes + extra, pos) == parse_vui(bytes, pos),
        parse_vui(bytes, pos) matches Ok((_, p)) && p >= pos,
{
    broadcast use group_read_extend;

    if let Some((true, p)) = read_flag(bytes, pos) {
        let (a, p1) = parse_aspect_ratio_info(bytes, p)->Some_0;
        lemma_aspect_ratio_info_extend(bytes, extra, p);
        let (o, p2) = parse_overscan_appropriate(bytes, p1)->Some_0;
        lemma_overscan_appropriate_extend(bytes, extra, p1);
        let (v, p3) = parse_video_signal_type(bytes, p2)->Some_0;
        lemma_video_signal_type_extend(bytes, extra, p2);
        let (c, p4) = parse_chroma_loc_info(bytes, p3)->Some_0;
        lemma_chroma_loc_info_extend(bytes, extra, p3);
        let (t, p5) = parse_timing_info(bytes, p4)->Some_0;
        lemma_timing_info_extend(bytes, extra, p4);
        lemma_vui_tail_extend(bytes, extra, p5, a, o, v, c, t);
    }
}

pub broadcast proof fn lemma_flag_list_extend(bytes: Seq<u8>, extra: Seq<u8>, pos: int, n: nat)
    requires
        0 <= pos,
        flag_list(bytes, pos, n) is Some,
    ensures
        #[trigger] flag_list(bytes + extra, pos, n) == flag_list(bytes, pos, n),
        flag_list(bytes, pos, n) matches Some((_, p)) && p >= pos,
    decreases n,
{
    broadcast use group_read_extend;

    if n > 0 {
        lemma_flag_list_extend(bytes, extra, pos, (n - 1) as nat);
    }
}

pub proof fn lemma_sps_head_extend(bytes: Seq<u8>, extra: Seq<u8>)
    requires
        parse_sps_head(bytes) is Ok,
    ensures
        parse_sps_head(bytes + extra) == parse_sps_head(bytes),
        parse_sps_head(bytes) matches Ok((_, p)) && p >= 0,
{
    broadcast use group_read_extend, lemma_flag_list_extend;

}

#[verifier::spinoff_prover]
pub proof fn lemma_sps_body_extend(bytes: Seq<u8>, extra: Seq<u8>, pos: int, head: SpsHead)
    requires
        0 <= pos,
        parse_sps_body(bytes, pos, head) is Ok,
    ensures
        parse_sps_body(bytes + extra, pos, head) == parse_sps_body(bytes, pos, head),
{
    broadcast use group_read_extend, lemma_chroma_info_extend, lemma_pic_order_cnt_extend,
        lemma_frame_mbs_flags_extend, lemma_frame_cropping_extend, lemma_vui_extend;

}

/// Parsing does not look past the end of the SPS: an SPS that parses from
/// `bytes` parses the same with any bytes appended.
pub proof fn law_trailing_data_is_not_read(bytes: Seq<u8>, extra: Seq<u8>)
    ensures
        parse_sps(bytes) matches Ok(m) ==> parse_sps(bytes + extra) == Ok::<SpsModel, SpsFault>(m),
{
    if parse_sps(bytes) is Ok {
        lemma_sps_head_extend(bytes, extra);
        let (head, p) = parse_sps_head(bytes)->Ok_0;
        lemma_sps_body_extend(bytes, extra, p, head);
    }
}

/// No bytes hold no SPS: parsing them fails with a reader error. So the end of
/// a unit with nothing gathered stores nothing.
pub proof fn law_no_bytes_no_sps()
    ensures
        parse_sps(Seq::<u8>::empty()) == Err::<SpsModel, SpsFault>(SpsFault::Reader),
{
}

/// An SPS that parses is made of its head and the body that follows it.
pub proof fn lemma_parse_sps_head_of(bytes: Seq<u8>)
    ensures
        parse_sps(bytes) matches Ok(m) ==> parse_sps_head(bytes) matches Ok((h, _)) && m.profile_idc == h.profile_idc
            && m.constraint_flags == h.constraint_flags && m.reserved_zero_two_bits == h.reserved_zero_two_bits
            && m.level_idc == h.level_idc && m.seq_parameter_set_id == h.seq_parameter_set_id,
{
    if let Ok((head, p)) = parse_sps_head(bytes) {
        lemma_sps_body_in_range(bytes, p, head);
        lemma_sps_body_keeps_head(bytes, p, head);
    }
}

#[verifier::spinoff_prover]
#[verifier::rlimit(40)]
proof fn lemma_sps_body_keeps_head(bytes: Seq<u8>, pos: int, head: SpsHead)
    ensures
        parse_sps_body(bytes, pos, head) matches Ok(m) ==> m.profile_idc == head.profile_idc && m.reserved_zero_two_bits
            == head.reserved_zero_two_bits && m.level_idc == head.level_idc,
{
}

// ---------------------------------------------------------------------------
// Where the fields of each structure lie, read against the bits

/// `frame_cropping_flag`, then, when it is set, the left, right, top and
/// bottom offsets as four Exp-Golomb codes in that order.
pub proof fn law_frame_cropping_bits(bytes: Seq<u8>, pos: int)
    ensures
        parse_frame_cropping(bytes, pos) matches Some((c, end)) ==> match c {
            None => read_flag(bytes, pos) == Some((false, pos + 1)) && end == pos + 1,
            Some(fc) => read_flag(bytes, pos) == Some((true, pos + 1)) && (read_ue(bytes, pos + 1) matches Ok((l, p1))
                && fc.left_offset == l && (read_ue(bytes, p1) matches Ok((r, p2)) && fc.right_offset == r && (read_ue(
                bytes,
                p2,
            ) matches Ok((t, p3)) && fc.top_offset == t && (read_ue(bytes, p3) matches Ok((b, p4)) && fc.bottom_offset
                == b && end == p4)))),
        },
{
    crate::bits::lemma_read_flag(bytes, pos);
}

/// `frame_mbs_only_flag` set gives frames only; clear, it is followed by
/// `mb_adaptive_frame_field_flag`.
pub proof fn law_frame_mbs_flags_bits(bytes: Seq<u8>, pos: int)
    ensures
        parse_frame_mbs_flags(bytes, pos) matches Some((f, end)) ==> match f {
            FrameMbsFlags::Frames => read_flag(bytes, pos) == Some((true, pos + 1)) && end == pos + 1,
            FrameMbsFlags::Fields { mb_adaptive_frame_field_flag } => read_flag(bytes, pos) == Some((false, pos + 1))
                && read_flag(bytes, pos + 1) == Some((mb_adaptive_frame_field_flag, pos + 2)) && end == pos + 2,
        },
{
    crate::bits::lemma_read_flag(bytes, pos);
    crate::bits::lemma_read_flag(bytes, pos + 1);
}

/// `overscan_info_present_flag` clear gives unspecified; set, the next bit
/// tells appropriate (set) from inappropriate (clear).
pub proof fn law_overscan_bits(bytes: Seq<u8>, pos: int)
    ensures
        parse_overscan_appropriate(bytes, pos) matches Some((o, end)) ==> match o {
            OverscanAppropriate::Unspecified => read_flag(bytes, pos) == Some((false, pos + 1)) && end == pos + 1,
            OverscanAppropriate::Appropriate => read_flag(bytes, pos) == Some((true, pos + 1)) && read_flag(bytes, pos + 1)
                == Some((true, pos + 2)) && end == pos + 2,
            OverscanAppropriate::Inappropriate => read_flag(bytes, pos) == Some((true, pos + 1)) && read_flag(
                bytes,
                pos + 1,
            ) == Some((false, pos + 2)) && end == pos + 2,
        },
{
    crate::bits::lemma_read_flag(bytes, pos);
    crate::bits::lemma_read_flag(bytes, pos + 1);
}

/// Timing information: after its presence flag, `num_units_in_tick` is the
/// next 32 bits, `time_scale` the 32 after, then `fixed_frame_rate_flag`.
proof fn law_timing_info_bits(bytes: Seq<u8>, pos: int)
    ensures
        parse_timing_info(bytes, pos) matches Some((Some(t), end)) ==> {
            &&& read_flag(bytes, pos) == Some((true, pos + 1))
            &&& t.num_units_in_tick == crate::bits::bits_value(bytes, pos + 1, 32)
            &&& t.time_scale == crate::bits::bits_value(bytes, pos + 33, 32)
            &&& read_flag(bytes, pos + 65) == Some((t.fixed_frame_rate_flag, pos + 66))
            &&& end == pos + 66
        },
{
    crate::bits::lemma_read_flag(bytes, pos);
    crate::bits::lemma_bits_value_bound(bytes, pos + 1, 32);
    crate::bits::lemma_bits_value_bound(bytes, pos + 33, 32);
    crate::bits::lemma_pow2_widths();
}

/// A colour description: after its presence flag, colour primaries, transfer
/// characteristics and matrix coefficients are the next three bytes' worth
/// of bits, in that order.
proof fn law_colour_description_bits(bytes: Seq<u8>, pos: int)
    ensures
        parse_colour_description(bytes, pos) matches Some((Some(c), end)) ==> {
            &&& read_flag(bytes, pos) == Some((true, pos + 1))
            &&& c.colour_primaries == crate::bits::bits_value(bytes, pos + 1, 8)
            &&& c.transfer_characteristics == crate::bits::bits_value(bytes, pos + 9, 8)
            &&& c.matrix_coefficients == crate::bits::bits_value(bytes, pos + 17, 8)
            &&& end == pos + 25
        },
{
    crate::bits::lemma_read_flag(bytes, pos);
    crate::bits::lemma_bits_value_bound(bytes, pos + 1, 8);
    crate::bits::lemma_bits_value_bound(bytes, pos + 9, 8);
    crate::bits::lemma_bits_value_bound(bytes, pos + 17, 8);
    crate::bits::lemma_pow2_widths();
}

/// A video signal type: after its presence flag, the 3-bit `video_format`,
/// `video_full_range_flag`, then the colour description.
proof fn law_video_signal_type_bits(bytes: Seq<u8>, pos: int)
    ensures
        parse_video_signal_type(bytes, pos) matches Some((Some(v), end)) ==> {
            &&& read_flag(bytes, pos) == Some((true, pos + 1))
            &&& v.video_format == video_format_named_by(crate::bits::bits_value(bytes, pos + 1, 3) as u8)
            &&& read_flag(bytes, pos + 4) == Some((v.video_full_range_flag, pos + 5))
            &&& parse_colour_description(bytes, pos + 5) == Some((v.colour_description, end))
        },
{
    crate::bits::lemma_read_flag(bytes, pos);
}

/// Chroma sample locations: after their presence flag, the top field's and
/// then the bottom field's type, as Exp-Golomb codes.
proof fn law_chroma_loc_info_bits(bytes: Seq<u8>, pos: int)
    ensures
        parse_chroma_loc_info(bytes, pos) matches Some((Some(c), end)) ==> read_flag(bytes, pos) == Some((true, pos + 1))
            && (read_ue(bytes, pos + 1) matches Ok((top, p1)) && c.chroma_sample_loc_type_top_field == top && (read_ue(
            bytes,
            p1,
        ) matches Ok((bottom, p2)) && c.chroma_sample_loc_type_bottom_field == bottom && end == p2)),
{
}

/// A buffer specification: `bit_rate_value_minus1`, `cpb_size_value_minus1`
/// and `cbr_flag`, in that order.
proof fn law_cpb_spec_bits(bytes: Seq<u8>, pos: int)
    ensures
        parse_cpb_spec(bytes, pos) matches Ok((c, end)) ==> (read_ue(bytes, pos) matches Ok((rate, p1))
            && c.bit_rate_value_minus1 == rate && (read_ue(bytes, p1) matches Ok((size, p2)) && c.cpb_size_value_minus1
            == size && read_flag(bytes, p2) == Some((c.cbr_flag, end)))),
{
}

/// Bitstream restrictions: after their presence flag,
/// `motion_vectors_over_pic_boundaries_flag`, then six Exp-Golomb codes:
/// `max_bytes_per_pic_denom`, `max_bits_per_mb_denom`, the horizontal and then
/// vertical `log2_max_mv_length`, `max_num_reorder_frames` and
/// `max_dec_frame_buffering`.
proof fn law_bitstream_restrictions_bits(bytes: Seq<u8>, pos: int)
    ensures
        parse_bitstream_restrictions(bytes, pos) matches Ok((Some(r), end)) ==> {
            &&& read_flag(bytes, pos) == Some((true, pos + 1))
            &&& read_flag(bytes, pos + 1) == Some((r.motion_vectors_over_pic_boundaries_flag, pos + 2))
            &&& read_ue(bytes, pos + 2) matches Ok((a, p1)) && r.max_bytes_per_pic_denom == a && (read_ue(bytes, p1)
                matches Ok((b, p2)) && r.max_bits_per_mb_denom == b && (read_ue(bytes, p2) matches Ok((c, p3))
                && r.log2_max_mv_length_horizontal == c && (read_ue(bytes, p3) matches Ok((d, p4))
                && r.log2_max_mv_length_vertical == d && (read_ue(bytes, p4) matches Ok((e, p5))
                && r.max_num_reorder_frames == e && (read_ue(bytes, p5) matches Ok((f, p6))
                && r.max_dec_frame_buffering == f && end == p6)))))
        },
{
}

/// HRD parameters: after `hrd_parameters_present_flag`, `cpb_cnt_minus1`, the
/// 4-bit bit rate and then CPB size scales, `cpb_cnt_minus1 + 1` buffer
/// specifications, then the initial CPB removal delay length, the CPB removal
/// delay length, the DPB output delay length and the time offset length, 5 bits
/// each.
pub proof fn law_hrd_bits(bytes: Seq<u8>, pos: int)
    ensures
        parse_hrd(bytes, pos) matches Ok((h, end)) ==> match h {
            None => read_flag(bytes, pos) == Some((false, pos + 1)) && end == pos + 1,
            Some(h) => read_flag(bytes, pos) == Some((true, pos + 1)) && (read_ue(bytes, pos + 1) matches Ok((n, p1))
                && h.bit_rate_scale == crate::bits::bits_value(bytes, p1, 4) && h.cpb_size_scale
                == crate::bits::bits_value(bytes, p1 + 4, 4) && h.cpb_specs.len() == n + 1 && (cpb_list(
                bytes,
                p1 + 8,
                (n + 1) as nat,
            ) matches Ok((specs, q)) && h.cpb_specs == specs && h.initial_cpb_removal_delay_length_minus1
                == crate::bits::bits_value(bytes, q, 5) && h.cpb_removal_delay_length_minus1 == crate::bits::bits_value(
                bytes,
                q + 5,
                5,
            ) && h.dpb_output_delay_length_minus1 == crate::bits::bits_value(bytes, q + 10, 5)
                && h.time_offset_length == crate::bits::bits_value(bytes, q + 15, 5) && end == q + 20)),
        },
{
    crate::bits::lemma_pow2_widths();
    if let Ok((true, p)) = flag_named(bytes, pos, "hrd_parameters_present_flag"@) {
        if let Ok((c, p1)) = ue_named(bytes, p, "cpb_cnt_minus1"@) {
            crate::bits::lemma_bits_value_bound(bytes, p1, 4);
            crate::bits::lemma_bits_value_bound(bytes, p1 + 4, 4);
            lemma_cpb_list_len(bytes, p1 + 8, (c + 1) as nat);
            if let Ok((_, q)) = cpb_list(bytes, p1 + 8, (c + 1) as nat) {
                crate::bits::lemma_bits_value_bound(bytes, q, 5);
                crate::bits::lemma_bits_value_bound(bytes, q + 5, 5);
                crate::bits::lemma_bits_value_bound(bytes, q + 10, 5);
                crate::bits::lemma_bits_value_bound(bytes, q + 15, 5);
            }
        }
    }
}

/// VUI parameters: after `vui_parameters_present_flag`, in order, the aspect
/// ratio, overscan, video signal type, chroma sample locations, timing, NAL
/// then VCL HRD parameters, `low_delay_hrd_flag` when either HRD is present,
/// `pic_struct_present_flag`, and the bitstream restrictions.
#[verifier::spinoff_prover]
pub proof fn law_vui_bits(bytes: Seq<u8>, pos: int)
    ensures
        parse_vui(bytes, pos) matches Ok((Some(v), end)) ==> {
            &&& read_flag(bytes, pos) == Some((true, pos + 1))
            &&& parse_aspect_ratio_info(bytes, pos + 1) matches Some((a, p1)) && v.aspect_ratio_info == a && (
            parse_overscan_appropriate(bytes, p1) matches Some((o, p2)) && v.overscan_appropriate == o && (
            parse_video_signal_type(bytes, p2) matches Some((vs, p3)) && v.video_signal_type == vs && (
            parse_chroma_loc_info(bytes, p3) matches Some((cl, p4)) && v.chroma_loc_info == cl && (parse_timing_info(
                bytes,
                p4,
            ) matches Some((t, p5)) && v.timing_info == t && (parse_hrd(bytes, p5) matches Ok((nal, p6))
                && v.nal_hrd_parameters == nal && (parse_hrd(bytes, p6) matches Ok((vcl, p7)) && v.vcl_hrd_parameters
                == vcl && ({
                let p8 = if v.low_delay_hrd_flag is Some {
                    p7 + 1
                } else {
                    p7
                };
                &&& (v.low_delay_hrd_flag matches Some(ld) ==> read_flag(bytes, p7) == Some((ld, p7 + 1)))
                &&& read_flag(bytes, p8) == Some((v.pic_struct_present_flag, p8 + 1))
                &&& parse_bitstream_restrictions(bytes, p8 + 1) == Ok::<
                    (Option<BitstreamRestrictions>, int),
                    RbspFault,
                >((v.bitstream_restrictions, end))
            })))))))
        },
{
    crate::bits::lemma_read_flag(bytes, pos);
}

/// Picture order count: type 0 is followed by the size of the count, type 1
/// by `delta_pic_order_always_zero_flag`, the offsets for non-reference
/// pictures and from top to bottom field, and a cycle of as many reference
/// frame offsets as its length says; type 2 by nothing.
pub proof fn law_pic_order_cnt_bits(bytes: Seq<u8>, pos: int)
    ensures
        parse_pic_order_cnt(bytes, pos) matches Ok((m, end)) ==> match m {
            PicOrderCntModel::TypeZero { log2_max_pic_order_cnt_lsb_minus4 } => read_ue(bytes, pos) matches Ok((0, p1))
                && (read_ue(bytes, p1) matches Ok((l, p2)) && log2_max_pic_order_cnt_lsb_minus4 == l && end == p2),
            PicOrderCntModel::TypeOne {
                delta_pic_order_always_zero_flag,
                offset_for_non_ref_pic,
                offset_for_top_to_bottom_field,
                offsets_for_ref_frame,
            } => read_ue(bytes, pos) matches Ok((1, p1)) && read_flag(bytes, p1) == Some(
                (delta_pic_order_always_zero_flag, p1 + 1),
            ) && (read_se(bytes, p1 + 1) matches Ok((a, p2)) && offset_for_non_ref_pic == a && (read_se(bytes, p2) matches Ok(
                (b, p3),
            ) && offset_for_top_to_bottom_field == b && (read_ue(bytes, p3) matches Ok((n, p4))
                && offsets_for_ref_frame.len() == n && se_list(bytes, p4, n as nat) == Some((offsets_for_ref_frame, end))))),
            PicOrderCntModel::TypeTwo => read_ue(bytes, pos) == Ok::<(u32, int), crate::bits::GolombFault>((2, end)),
        },
{
    if let Some((t, p1)) = ue_opt(bytes, pos) {
        crate::bits::lemma_read_flag(bytes, p1);
        if t == 1 {
            if let Some((_, p2)) = se_opt(bytes, p1 + 1) {
                if let Some((_, p3)) = se_opt(bytes, p2) {
                    if let Some((n, p4)) = ue_opt(bytes, p3) {
                        lemma_se_list_len(bytes, p4, n as nat);
                    }
                }
            }
        }
    }
}

proof fn lemma_se_list_len(bytes: Seq<u8>, pos: int, n: nat)
    ensures
        se_list(bytes, pos, n) matches Some((s, _)) ==> s.len() == n,
    decreases n,
{
    if n > 0 {
        lemma_se_list_len(bytes, pos, (n - 1) as nat);
    }
}

/// After its head (which ends with `seq_parameter_set_id`), an SPS holds, in
/// order: the chroma information, `log2_max_frame_num_minus4`, the picture
/// order count, `max_num_ref_frames`, `gaps_in_frame_num_value_allowed_flag`,
/// the width and then the height in macroblocks (minus 1), the frame
/// macroblock flags, `direct_8x8_inference_flag`, the cropping and the VUI
/// parameters.
#[verifier::spinoff_prover]
#[verifier::rlimit(40)]
pub proof fn law_sps_body_bits(bytes: Seq<u8>)
    ensures
        parse_sps(bytes) matches Ok(m) ==> {
            let p = parse_sps_head(bytes)->Ok_0.1;
            let (c, p1) = parse_chroma_info(bytes, p, m.profile_idc)->Ok_0;
            let (f, p2) = read_ue(bytes, p1)->Ok_0;
            let (poc, p3) = parse_pic_order_cnt(bytes, p2)->Ok_0;
            let (refs, p4) = read_ue(bytes, p3)->Ok_0;
            let (w, p5) = read_ue(bytes, p4 + 1)->Ok_0;
            let (h, p6) = read_ue(bytes, p5)->Ok_0;
            let (fm, p7) = parse_frame_mbs_flags(bytes, p6)->Some_0;
            let (cr, p8) = parse_frame_cropping(bytes, p7 + 1)->Some_0;
            &&& parse_sps_head(bytes) is Ok
            &&& parse_chroma_info(bytes, p, m.profile_idc) is Ok && m.chroma_info == c
            &&& read_ue(bytes, p1) is Ok && m.log2_max_frame_num_minus4 == f
            &&& parse_pic_order_cnt(bytes, p2) is Ok && m.pic_order_cnt == poc
            &&& read_ue(bytes, p3) is Ok && m.max_num_ref_frames == refs
            &&& read_flag(bytes, p4) == Some((m.gaps_in_frame_num_value_allowed_flag, p4 + 1))
            &&& read_ue(bytes, p4 + 1) is Ok && m.pic_width_in_mbs_minus1 == w
            &&& read_ue(bytes, p5) is Ok && m.pic_height_in_map_units_minus1 == h
            &&& parse_frame_mbs_flags(bytes, p6) is Some && m.frame_mbs_flags == fm
            &&& read_flag(bytes, p7) == Some((m.direct_8x8_inference_flag, p7 + 1))
            &&& parse_frame_cropping(bytes, p7 + 1) is Some && m.frame_cropping == cr
            &&& parse_vui(bytes, p8) is Ok && m.vui_parameters == parse_vui(bytes, p8)->Ok_0.0
        },
{
    lemma_parse_sps_head_of(bytes);
    if let Ok((head, p)) = parse_sps_head(bytes) {
        if let Ok((_, p1)) = parse_chroma_info(bytes, p, head.profile_idc) {
            if let Some((_, p2)) = ue_opt(bytes, p1) {
                if let Ok((_, p3)) = parse_pic_order_cnt(bytes, p2) {
                    if let Some((_, p4)) = ue_opt(bytes, p3) {
                        crate::bits::lemma_read_flag(bytes, p4);
                        if let Some((_, p6)) = ue_opt(bytes, p4 + 1) {
                            if let Some((_, p7)) = ue_opt(bytes, p6) {
                                if let Some((_, p8)) = parse_frame_mbs_flags(bytes, p7) {
                                    crate::bits::lemma_read_flag(bytes, p8);
                                }
                            }
                        }
                    }
                }
            }
        }
    }
}

} // verus!
