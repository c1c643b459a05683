use crate::id::VarId;
use crate::statedata::{StateData, ValidVal};
use std::collections::HashSet;
use vstd::prelude::*;

verus! {

/// A read-only view of a [`StateData`] that shows only the values whose
/// identity is in a given set.
pub struct StateDataFiltered<'sd> {
    allowed_var_ids: HashSet<u32>,
    state_data: &'sd StateData,
}

impl<'sd> StateDataFiltered<'sd> {
    /// The data behind the view.
    pub closed spec fn data(&self) -> Map<VarId, ValidVal> {
        self.state_data@
    }

    /// The numbers of the identities that the view shows.
    pub closed spec fn allowed(&self) -> Set<u32> {
        self.allowed_var_ids@
    }

    /// What the view shows: the data under the allowed identities.
    pub open spec fn view(&self) -> Map<VarId, ValidVal> {
        self.data().restrict(Set::new(|id: VarId| self.allowed().contains(id.0)))
    }

    pub fn new(state_data: &'sd StateData, allowed_var_ids: HashSet<u32>) -> (view: Self)
        ensures
            view.data() == state_data@,
            view.allowed() == allowed_var_ids@,
    {
        Self { state_data, allowed_var_ids }
    }

    pub fn get(&self, var_id: &VarId) -> (r: Option<&ValidVal>)
        ensures
            match r {
                Some(v) => self@.contains_key(*var_id) && *v == self@[*var_id],
                None => !self@.contains_key(*var_id),
            },
    {
        broadcast use vstd::std_specs::hash::group_hash_axioms;

        let v = var_id.0;
        if !self.allowed_var_ids.contains(&v) {
            return None;
        }
        self.state_data.get(var_id)
    }

    pub fn contains(&self, var_id: &VarId) -> (b: bool)
        ensures
            b == self@.contains_key(*var_id),
    {
        broadcast use vstd::std_specs::hash::group_hash_axioms;

        let v = var_id.0;
        if !self.allowed_var_ids.contains(&v) {
            return false;
        }
        self.state_data.contains(var_id)
    }
}

} // verus!
