//! NAL units: their header, and the parameter sets they carry.

pub mod pps;
pub mod sps;
pub mod sps_laws;

use vstd::prelude::*;

verus! {

/// The type of a NAL unit, from the low five bits of its header.
#[derive(Debug, PartialEq, Eq, Copy, Clone)]
pub enum UnitType {
    Unspecified(u8),
    SliceLayerWithoutPartitioningNonIdr,
    SliceDataPartitionALayer,
    SliceDataPartitionBLayer,
    SliceDataPartitionCLayer,
    SliceLayerWithoutPartitioningIdr,
    SEI,
    SeqParameterSet,
    PicParameterSet,
    AccessUnitDelimiter,
    EndOfSeq,
    EndOfStream,
    FillerData,
    SeqParameterSetExtension,
    PrefixNALUnit,
    SubsetSeqParameterSet,
    DepthParameterSet,
    Reserved(u8),
    SliceLayerWithoutPartitioningAux,
    SliceExtension,
    SliceExtensionViewComponent,
}

/// The unit type that a five-bit `nal_unit_type` value names.
pub open spec fn unit_type_named_by(id: u8) -> UnitType {
    match id {
        0 => UnitType::Unspecified(0),
        1 => UnitType::SliceLayerWithoutPartitioningNonIdr,
        2 => UnitType::SliceDataPartitionALayer,
        3 => UnitType::SliceDataPartitionBLayer,
        4 => UnitType::SliceDataPartitionCLayer,
        5 => UnitType::SliceLayerWithoutPartitioningIdr,
        6 => UnitType::SEI,
        7 => UnitType::SeqParameterSet,
        8 => UnitType::PicParameterSet,
        9 => UnitType::AccessUnitDelimiter,
        10 => UnitType::EndOfSeq,
        11 => UnitType::EndOfStream,
        12 => UnitType::FillerData,
        13 => UnitType::SeqParameterSetExtension,
        14 => UnitType::PrefixNALUnit,
        15 => UnitType::SubsetSeqParameterSet,
        16 => UnitType::DepthParameterSet,
        17 | 18 => UnitType::Reserved(id),
        19 => UnitType::SliceLayerWithoutPartitioningAux,
        20 => UnitType::SliceExtension,
        21 => UnitType::SliceExtensionViewComponent,
        22 | 23 => UnitType::Reserved(id),
        _ => UnitType::Unspecified(id),
    }
}

/// Each `nal_unit_type` names its type from Table 7-1 of H.264: 7 a sequence
/// parameter set, 8 a picture parameter set, 5 an IDR slice, and so on;
/// 17, 18, 22 and 23 are reserved, and 0 and 24 to 31 unspecified.
pub proof fn law_unit_type_numbers()
    ensures
        unit_type_named_by(0) == UnitType::Unspecified(0),
        unit_type_named_by(1) == UnitType::SliceLayerWithoutPartitioningNonIdr,
        unit_type_named_by(2) == UnitType::SliceDataPartitionALayer,
        unit_type_named_by(3) == UnitType::SliceDataPartitionBLayer,
        unit_type_named_by(4) == UnitType::SliceDataPartitionCLayer,
        unit_type_named_by(5) == UnitType::SliceLayerWithoutPartitioningIdr,
        unit_type_named_by(6) == UnitType::SEI,
        unit_type_named_by(7) == UnitType::SeqParameterSet,
        unit_type_named_by(8) == UnitType::PicParameterSet,
        unit_type_named_by(9) == UnitType::AccessUnitDelimiter,
        unit_type_named_by(10) == UnitType::EndOfSeq,
        unit_type_named_by(11) == UnitType::EndOfStream,
        unit_type_named_by(12) == UnitType::FillerData,
        unit_type_named_by(13) == UnitType::SeqParameterSetExtension,
        unit_type_named_by(14) == UnitType::PrefixNALUnit,
        unit_type_named_by(15) == UnitType::SubsetSeqParameterSet,
        unit_type_named_by(16) == UnitType::DepthParameterSet,
        unit_type_named_by(17) == UnitType::Reserved(17),
        unit_type_named_by(18) == UnitType::Reserved(18),
        unit_type_named_by(19) == UnitType::SliceLayerWithoutPartitioningAux,
        unit_type_named_by(20) == UnitType::SliceExtension,
        unit_type_named_by(21) == UnitType::SliceExtensionViewComponent,
        unit_type_named_by(22) == UnitType::Reserved(22),
        unit_type_named_by(23) == UnitType::Reserved(23),
        forall|id: u8| 24 <= id < 32 ==> #[trigger] unit_type_named_by(id) == UnitType::Unspecified(id),
{
}

#[derive(Debug, PartialEq, Eq, Copy, Clone)]
pub enum UnitTypeError {
    /// The value is over 31: it does not fit in five bits.
    ValueOutOfRange(u8),
}

impl UnitType {
    pub fn for_id(id: u8) -> (res: Result<UnitType, UnitTypeError>)
        ensures
            match res {
                Ok(t) => id < 32 && t == unit_type_named_by(id),
                Err(e) => id >= 32 && e == UnitTypeError::ValueOutOfRange(id),
            },
    {
        if id >= 32 {
            return Err(UnitTypeError::ValueOutOfRange(id));
        }
        Ok(
            match id {
                0 => UnitType::Unspecified(0),
                1 => UnitType::SliceLayerWithoutPartitioningNonIdr,
                2 => UnitType::SliceDataPartitionALayer,
                3 => UnitType::SliceDataPartitionBLayer,
                4 => UnitType::SliceDataPartitionCLayer,
                5 => UnitType::SliceLayerWithoutPartitioningIdr,
                6 => UnitType::SEI,
                7 => UnitType::SeqParameterSet,
                8 => UnitType::PicParameterSet,
                9 => UnitType::AccessUnitDelimiter,
                10 => UnitType::EndOfSeq,
                11 => UnitType::EndOfStream,
                12 => UnitType::FillerData,
                13 => UnitType::SeqParameterSetExtension,
                14 => UnitType::PrefixNALUnit,
                15 => UnitType::SubsetSeqParameterSet,
                16 => UnitType::DepthParameterSet,
                17 | 18 => UnitType::Reserved(id),
                19 => UnitType::SliceLayerWithoutPartitioningAux,
                20 => UnitType::SliceExtension,
                21 => UnitType::SliceExtensionViewComponent,
                22 | 23 => UnitType::Reserved(id),
                _ => UnitType::Unspecified(id),
            },
        )
    }
}

#[derive(Debug, PartialEq, Eq, Copy, Clone)]
pub enum NalHeaderError {
    /// The most significant bit of a NAL header must be zero.
    ForbiddenZeroBitNonZero,
}

/// The one-byte header of a NAL unit.
#[derive(Debug, Copy, Clone)]
pub struct NalHeader(u8);

impl NalHeader {
    /// The header byte.
    pub closed spec fn value(&self) -> u8 {
        self.0
    }

    /// The unit type that the header names.
    pub open spec fn unit_type(&self) -> UnitType {
        unit_type_named_by((self.value() % 32) as u8)
    }

    pub fn new(header_value: u8) -> (res: Result<NalHeader, NalHeaderError>)
        ensures
            match res {
                Ok(h) => header_value < 128 && h.value() == header_value,
                Err(e) => header_value >= 128 && e == NalHeaderError::ForbiddenZeroBitNonZero,
            },
    {
        if header_value >= 128 {
            Err(NalHeaderError::ForbiddenZeroBitNonZero)
        } else {
            Ok(NalHeader(header_value))
        }
    }

    pub fn nal_unit_type(&self) -> (t: UnitType)
        ensures
            t == self.unit_type(),
    {
        match UnitType::for_id(self.0 % 32) {
            Ok(t) => t,
            Err(_) => UnitType::Unspecified(0),
        }
    }
}

} // verus!
