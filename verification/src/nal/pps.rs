//! Identifiers of parameter sets.

use vstd::prelude::*;

verus! {

/// The identifier of a parameter set, between 0 and 31.
#[derive(Debug, Copy, Clone, PartialEq, Eq, Hash)]
pub struct ParamSetId(u8);

#[derive(Debug, Copy, Clone, PartialEq, Eq)]
pub enum ParamSetIdError {
    IdTooLarge(u32),
}

impl ParamSetId {
    /// The identifier's number.
    pub closed spec fn value(&self) -> u8 {
        self.0
    }

    /// The outcome of `from_u32(id)`.
    pub open spec fn spec_from_u32(id: u32) -> Result<u8, ParamSetIdError> {
        if id > 31 {
            Err(ParamSetIdError::IdTooLarge(id))
        } else {
            Ok(id as u8)
        }
    }

    pub fn from_u32(id: u32) -> (res: Result<ParamSetId, ParamSetIdError>)
        ensures
            match res {
                Ok(p) => Self::spec_from_u32(id) == Ok::<u8, ParamSetIdError>(p.value()),
                Err(e) => Self::spec_from_u32(id) == Err::<u8, ParamSetIdError>(e),
            },
    {
        if id > 31 {
            Err(ParamSetIdError::IdTooLarge(id))
        } else {
            Ok(ParamSetId(id as u8))
        }
    }

    pub fn id(&self) -> (r: u8)
        ensures
            r == self.value(),
            r <= 31,
    {
        proof {
            use_type_invariant(self);
        }
        self.0
    }

    #[verifier::type_invariant]
    spec fn in_range(self) -> bool {
        self.0 <= 31
    }
}

/// Parameter set identifiers run from 0 to 31: each of those is accepted as
/// itself, and any larger number is refused, naming it.
pub proof fn law_param_set_id_range(id: u32)
    ensures
        id <= 31 ==> ParamSetId::spec_from_u32(id) == Ok::<u8, ParamSetIdError>(id as u8),
        id >= 32 ==> ParamSetId::spec_from_u32(id) == Err::<u8, ParamSetIdError>(ParamSetIdError::IdTooLarge(id)),
{
}

} // verus!
