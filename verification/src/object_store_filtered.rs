use crate::id::ObjectId;
use crate::object_store::{ObjectStore, ObjectStoreContent};
use std::collections::HashSet;
use vstd::prelude::*;

verus! {

/// A read-only view of an [`ObjectStore`] that shows only the objects whose
/// identity is in a given set.
#[verifier::reject_recursive_types(T)]
#[verifier::reject_recursive_types(TID)]
pub struct ObjectStoreFiltered<'os, T, TID> where
    T: ObjectStoreContent<IdType = TID>,
    TID: ObjectId,
 {
    allowed_ids: HashSet<u32>,
    object_store: &'os ObjectStore<T, TID>,
}

impl<'os, T, TID> ObjectStoreFiltered<'os, T, TID> where
    T: ObjectStoreContent<IdType = TID>,
    TID: ObjectId,
 {
    /// The registry behind the view.
    pub closed spec fn store(&self) -> ObjectStore<T, TID> {
        *self.object_store
    }

    /// The numbers of the identities that the view shows.
    pub closed spec fn allowed(&self) -> Set<u32> {
        self.allowed_ids@
    }

    pub open spec fn allows(&self, id: TID) -> bool {
        self.allowed().contains(id.id_val())
    }

    /// Wrap `object_store` with a filtered view. Only identities whose
    /// number is in `allowed_ids` are visible.
    pub fn new(object_store: &'os ObjectStore<T, TID>, allowed_ids: HashSet<u32>) -> (view: Self)
        ensures
            view.store() == *object_store,
            view.allowed() == allowed_ids@,
    {
        Self { allowed_ids, object_store }
    }

    pub fn id_from_name(&self, name: &str) -> (r: Option<&TID>)
        ensures
            match r {
                Some(id) => self.store().has_name(name@) && *id == self.store().named_id(name@)
                    && self.allows(*id),
                None => !self.store().has_name(name@) || !self.allows(
                    self.store().named_id(name@),
                ),
            },
    {
        broadcast use vstd::std_specs::hash::group_hash_axioms;

        if let Some(id) = self.object_store.id_from_name(name) {
            let v = id.raw();
            if self.allowed_ids.contains(&v) {
                return Some(id);
            }
        }
        None
    }

    pub fn name_from_id(&self, id: &TID) -> (r: Option<&str>)
        ensures
            match r {
                Some(name) => self.allows(*id) && self.store().id_has_name(*id) && name@
                    == self.store().name_of(*id),
                None => !self.allows(*id) || !self.store().id_has_name(*id),
            },
    {
        broadcast use vstd::std_specs::hash::group_hash_axioms;

        let v = id.raw();
        if !self.allowed_ids.contains(&v) {
            return None;
        }
        self.object_store.name_from_id(id)
    }

    pub fn get_by_name(&self, name: &str) -> (r: Option<&T>)
        ensures
            match r {
                Some(object) => self.store().has_name(name@) && self.allows(
                    self.store().named_id(name@),
                ) && *object == self.store().object(self.store().named_id(name@)),
                None => !self.store().has_name(name@) || !self.allows(
                    self.store().named_id(name@),
                ),
            },
    {
        proof {
            use_type_invariant(self.object_store);
            self.store().lemma_wf();
        }
        match self.id_from_name(name) {
            Some(id) => self.get(id),
            None => None,
        }
    }

    pub fn get(&self, id: &TID) -> (r: Option<&T>)
        ensures
            match r {
                Some(object) => self.allows(*id) && self.store().contains(*id) && *object
                    == self.store().object(*id),
                None => !self.allows(*id) || !self.store().contains(*id),
            },
    {
        broadcast use vstd::std_specs::hash::group_hash_axioms;

        let v = id.raw();
        if !self.allowed_ids.contains(&v) {
            return None;
        }
        self.object_store.get(id)
    }
}

} // verus!
