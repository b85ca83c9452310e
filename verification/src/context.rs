//! The state shared by the handlers of a stream's NAL units: the sequence
//! parameter sets seen so far, by identifier, and the user's own data.

use vstd::prelude::*;
use crate::nal::pps::ParamSetId;
use crate::nal::sps::SeqParameterSet;

verus! {

pub struct Context<T> {
    seq_param_sets: Vec<Option<SeqParameterSet>>,
    pub user_context: T,
}

impl<T> Context<T> {
    /// One slot for each of the 32 possible identifiers.
    pub closed spec fn wf(&self) -> bool {
        self.seq_param_sets@.len() == 32
    }

    /// The user's data.
    pub closed spec fn user(&self) -> T {
        self.user_context
    }

    /// The sequence parameter set stored under identifier `id`.
    pub closed spec fn sps_at(&self, id: int) -> Option<SeqParameterSet> {
        self.seq_param_sets@[id]
    }

    pub fn new(user_context: T) -> (c: Self)
        ensures
            c.wf(),
            c.user() == user_context,
            forall|id: int| 0 <= id < 32 ==> (#[trigger] c.sps_at(id)) is None,
    {
        let mut seq_param_sets: Vec<Option<SeqParameterSet>> = Vec::new();
        let mut i: usize = 0;
        while i < 32
            invariant
                i <= 32,
                seq_param_sets@.len() == i,
                forall|j: int| 0 <= j < i ==> (#[trigger] seq_param_sets@[j]) is None,
            decreases 32 - i,
        {
            seq_param_sets.push(None);
            i = i + 1;
        }
        Context { seq_param_sets, user_context }
    }

    /// The sequence parameter set stored under `id`, if any.
    pub fn sps_by_id(&self, id: ParamSetId) -> (r: Option<&SeqParameterSet>)
        requires
            self.wf(),
        ensures
            match r {
                Some(s) => self.sps_at(id.value() as int) == Some(*s),
                None => self.sps_at(id.value() as int) is None,
            },
    {
        let i = id.id() as usize;
        match &self.seq_param_sets[i] {
            Some(s) => Some(s),
            None => None,
        }
    }

    /// Stores `sps` under its identifier, replacing what was there.
    pub fn put_seq_param_set(&mut self, sps: SeqParameterSet)
        requires
            old(self).wf(),
        ensures
            final(self).wf(),
            final(self).user() == old(self).user(),
            final(self).sps_at(sps.seq_parameter_set_id.value() as int) == Some(sps),
            forall|id: int|
                0 <= id < 32 && id != sps.seq_parameter_set_id.value() ==> (#[trigger] final(self).sps_at(id)) == old(self).sps_at(id),
    {
        let i = sps.seq_parameter_set_id.id() as usize;
        self.seq_param_sets.set(i, Some(sps));
    }
}

} // verus!
