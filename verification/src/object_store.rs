use crate::errors::IdError;
use crate::id::{ObjectId};
use crate::text::owned;
use crate::vec_map::{lemma_position_of, position_of, VecMap};
use vstd::prelude::*;

verus! {

/// What a registry needs from the objects it holds: an identity type, a way
/// to make an identity from a number, and the identity of each object.
pub trait ObjectStoreContent {
    type IdType: ObjectId;

    /// The identity that the object carries.
    spec fn id_of(&self) -> Self::IdType;

    fn new_id(id_val: u32) -> (id: Self::IdType)
        ensures
            id.id_val() == id_val,
    ;

    fn id(&self) -> (id: &Self::IdType)
        ensures
            *id == self.id_of(),
    ;
}

/// An append-only registry of objects, each found by its identity and,
/// where it was given one, by a unique name.
#[verifier::reject_recursive_types(T)]
#[verifier::reject_recursive_types(TID)]
pub struct ObjectStore<T, TID> where T: ObjectStoreContent<IdType = TID>, TID: ObjectId {
    objects: VecMap<T>,
    names: Vec<String>,
    name_ids: Vec<TID>,
    next_id: u32,
}

/// The characters of each string of `v`.
pub open spec fn texts(v: Seq<String>) -> Seq<Seq<char>> {
    Seq::new(v.len(), |i: int| v[i]@)
}

/// The number of each identity of `v`.
pub open spec fn id_vals<TID: ObjectId>(v: Seq<TID>) -> Seq<u32> {
    Seq::new(v.len(), |i: int| v[i].id_val())
}

impl<T, TID> ObjectStore<T, TID> where T: ObjectStoreContent<IdType = TID>, TID: ObjectId {
    /// The objects held, by the number of their identity.
    pub closed spec fn object_map(&self) -> Map<u32, T> {
        self.objects@
    }

    /// The numbers under which objects are held, oldest first.
    pub closed spec fn key_seq(&self) -> Seq<u32> {
        self.objects.key_seq()
    }

    /// The names given so far, oldest first.
    pub closed spec fn name_seq(&self) -> Seq<Seq<char>> {
        texts(self.names@)
    }

    /// The identity that each name of `name_seq` stands for.
    pub closed spec fn name_id_seq(&self) -> Seq<TID> {
        self.name_ids@
    }

    /// The number that the next reserved identity gets.
    pub closed spec fn next_val(&self) -> u32 {
        self.next_id
    }

    /// What holds of every registry: the names are distinct, stand for
    /// distinct identities, and every named identity is registered.
    #[verifier::type_invariant]
    pub closed spec fn wf(&self) -> bool {
        &&& self.objects.wf()
        &&& self.names@.len() == self.name_ids@.len()
        &&& texts(self.names@).no_duplicates()
        &&& id_vals(self.name_ids@).no_duplicates()
        &&& forall|i: int|
            0 <= i < self.name_ids@.len() ==> self.objects@.contains_key(
                #[trigger] self.name_ids@[i].id_val(),
            )
    }

    pub open spec fn contains(&self, id: TID) -> bool {
        self.object_map().contains_key(id.id_val())
    }

    pub open spec fn object(&self, id: TID) -> T {
        self.object_map()[id.id_val()]
    }

    pub open spec fn has_name(&self, name: Seq<char>) -> bool {
        self.name_seq().contains(name)
    }

    /// The identity registered under `name`.
    pub open spec fn named_id(&self, name: Seq<char>) -> TID {
        self.name_id_seq()[position_of(self.name_seq(), name)]
    }

    pub open spec fn id_has_name(&self, id: TID) -> bool {
        self.name_id_seq().contains(id)
    }

    /// The name that `id` was registered under.
    pub open spec fn name_of(&self, id: TID) -> Seq<char> {
        self.name_seq()[position_of(self.name_id_seq(), id)]
    }

    /// Same objects and same names, whatever the counter.
    pub open spec fn same_entries(&self, other: &Self) -> bool {
        &&& self.object_map() == other.object_map()
        &&& self.key_seq() == other.key_seq()
        &&& self.name_seq() == other.name_seq()
        &&& self.name_id_seq() == other.name_id_seq()
    }

    /// What well-formedness means for the names: they are distinct, stand for
    /// distinct identities, and every named identity is registered.
    pub proof fn lemma_wf(&self)
        requires
            self.wf(),
        ensures
            self.name_seq().len() == self.name_id_seq().len(),
            self.name_seq().no_duplicates(),
            self.name_id_seq().no_duplicates(),
            forall|i: int|
                0 <= i < self.name_id_seq().len()
                    ==> self.contains(#[trigger] self.name_id_seq()[i]),
            forall|name: Seq<char>| #[trigger]
                self.has_name(name) ==> self.contains(self.named_id(name)) && self.id_has_name(
                    self.named_id(name),
                ) && self.name_of(self.named_id(name)) == name,
            forall|id: TID| #[trigger]
                self.id_has_name(id) ==> self.contains(id) && self.has_name(self.name_of(id))
                    && self.named_id(self.name_of(id)) == id,
    {
        let ids = self.name_ids@;
        assert forall|i: int, j: int| 0 <= i < ids.len()
            && 0 <= j < ids.len()
            && i != j implies ids[i]
            != ids[j] by {
            assert(id_vals(ids)[i] != id_vals(ids)[j]);
        }
        assert forall|name: Seq<char>| #[trigger] self.has_name(name) implies self.contains(
            self.named_id(name),
        ) && self.id_has_name(self.named_id(name)) && self.name_of(self.named_id(name))
            == name by {
            lemma_position_of(self.name_seq(), name);
            let p = position_of(self.name_seq(), name);
            lemma_position_of(ids, ids[p]);
            assert(ids.contains(ids[p]));
        }
        assert forall|id: TID| #[trigger] self.id_has_name(id) implies self.contains(id)
            && self.has_name(self.name_of(id)) && self.named_id(self.name_of(id)) == id by {
            lemma_position_of(ids, id);
            let p = position_of(ids, id);
            lemma_position_of(self.name_seq(), self.name_seq()[p]);
            assert(self.name_seq().contains(self.name_seq()[p]));
        }
    }

    /// The objects are held under exactly the numbers of `key_seq`, each
    /// once.
    pub proof fn lemma_keys(&self)
        requires
            self.wf(),
        ensures
            self.key_seq().no_duplicates(),
            forall|k: u32| #[trigger]
                self.object_map().contains_key(k) <==> self.key_seq().contains(k),
    {
        self.objects.lemma_wf();
    }

    /// Create a new, empty registry.
    pub fn new() -> (store: Self)
        ensures
            store.object_map() == Map::<u32, T>::empty(),
            store.key_seq() == Seq::<u32>::empty(),
            store.name_seq() == Seq::<Seq<char>>::empty(),
            store.name_id_seq() == Seq::<TID>::empty(),
            store.next_val() == 0,
    {
        Self::with_capacity(0)
    }

    /// Create a new, empty registry with room for `capacity` objects.
    pub fn with_capacity(capacity: usize) -> (store: Self)
        ensures
            store.object_map() == Map::<u32, T>::empty(),
            store.key_seq() == Seq::<u32>::empty(),
            store.name_seq() == Seq::<Seq<char>>::empty(),
            store.name_id_seq() == Seq::<TID>::empty(),
            store.next_val() == 0,
    {
        let objects = VecMap::with_capacity(capacity);
        proof {
            use_type_invariant(&objects);
        }
        let store = ObjectStore {
            objects,
            names: Vec::with_capacity(capacity),
            name_ids: Vec::with_capacity(capacity),
            next_id: 0,
        };
        assert(store.name_seq() =~= Seq::<Seq<char>>::empty());
        store
    }

    /// Reserve an identity without storing anything. The counter moves on by
    /// one and wraps at the end of `u32`.
    pub fn reserve_id(&mut self) -> (id: TID)
        ensures
            id.id_val() == old(self).next_val(),
            final(self).next_val() == (if old(self).next_val() == u32::MAX {
                0
            } else {
                old(self).next_val() + 1
            }),
            final(self).same_entries(old(self)),
    {
        proof {
            use_type_invariant(&*self);
        }
        let val = self.next_id;
        self.next_id = self.next_id.wrapping_add(1);
        T::new_id(val)
    }

    /// Store an object under its own identity.
    pub fn register(&mut self, object: T) -> (r: Result<TID, IdError<TID>>)
        ensures
            final(self).next_val() == old(self).next_val(),
            final(self).name_seq() == old(self).name_seq(),
            final(self).name_id_seq() == old(self).name_id_seq(),
            old(self).contains(object.id_of()) ==> r == Err::<TID, IdError<TID>>(
                IdError::IdAlreadyExists(object.id_of()),
            ) && final(self).same_entries(old(self)),
            !old(self).contains(object.id_of()) ==> r == Ok::<TID, IdError<TID>>(object.id_of())
                && final(self).object_map() == old(self).object_map().insert(
                object.id_of().id_val(),
                object,
            ) && final(self).key_seq() == old(self).key_seq().push(object.id_of().id_val()),
    {
        proof {
            use_type_invariant(&*self);
        }
        let object_id = *object.id();
        if self.objects.contains_key(object_id.raw()) {
            return Err(IdError::IdAlreadyExists(object_id));
        }
        let mut taken = ObjectStore::new();
        std::mem::swap(self, &mut taken);
        let ObjectStore { mut objects, names, name_ids, next_id } = taken;
        objects.insert(object_id.raw(), object);
        proof {
            use_type_invariant(&objects);
        }
        *self = ObjectStore { objects, names, name_ids, next_id };
        Ok(object_id)
    }

    /// Position of `name` among the names.
    fn find_name(&self, name: &str) -> (r: Option<usize>)
        ensures
            match r {
                Some(i) => i < self.name_seq().len() && self.has_name(name@) && position_of(
                    self.name_seq(),
                    name@,
                ) == i,
                None => !self.has_name(name@),
            },
    {
        proof {
            use_type_invariant(self);
        }
        let wanted = owned(name);
        let mut i: usize = 0;
        while i < self.names.len()
            invariant
                i <= self.names@.len(),
                wanted@ == name@,
                forall|j: int| 0 <= j < i ==> texts(self.names@)[j] != name@,
            decreases self.names@.len() - i,
        {
            if self.names[i] == wanted {
                proof {
                    assert(texts(self.names@)[i as int] == name@);
                    lemma_position_of(texts(self.names@), name@);
                }
                return Some(i);
            }
            i = i + 1;
        }
        None
    }

    /// Position of `id` among the named identities.
    fn find_named_id(&self, id: &TID) -> (r: Option<usize>)
        ensures
            match r {
                Some(i) => i < self.name_id_seq().len() && self.id_has_name(*id) && position_of(
                    self.name_id_seq(),
                    *id,
                ) == i,
                None => !self.id_has_name(*id),
            },
    {
        proof {
            use_type_invariant(self);
        }
        let mut i: usize = 0;
        while i < self.name_ids.len()
            invariant
                i <= self.name_ids@.len(),
                forall|j: int| 0 <= j < i ==> self.name_ids@[j] != *id,
            decreases self.name_ids@.len() - i,
        {
            if self.name_ids[i].raw() == id.raw() {
                proof {
                    TID::id_val_injective(self.name_ids@[i as int], *id);
                    lemma_position_of(self.name_ids@, *id);
                }
                return Some(i);
            }
            i = i + 1;
        }
        None
    }

    /// Store an object under its own identity and under `name`.
    pub fn register_named(&mut self, name: &str, object: T) -> (r: Result<TID, IdError<TID>>)
        ensures
            final(self).next_val() == old(self).next_val(),
            old(self).has_name(name@) ==> (r matches Err(IdError::NameAlreadyExists(n)) && n@
                == name@) && final(self).same_entries(old(self)),
            !old(self).has_name(name@) && old(self).contains(object.id_of()) ==> r == Err::<
                TID,
                IdError<TID>,
            >(IdError::IdAlreadyExists(object.id_of())) && final(self).same_entries(old(self)),
            !old(self).has_name(name@) && !old(self).contains(object.id_of()) ==> r == Ok::<
                TID,
                IdError<TID>,
            >(object.id_of()) && final(self).object_map() == old(self).object_map().insert(
                object.id_of().id_val(),
                object,
            ) && final(self).key_seq() == old(self).key_seq().push(object.id_of().id_val())
                    && final(self).name_seq() == old(self).name_seq().push(name@)
                    && final(self).name_id_seq() == old(self).name_id_seq().push(object.id_of()),
    {
        proof {
            use_type_invariant(&*self);
        }
        if self.find_name(name).is_some() {
            return Err(IdError::NameAlreadyExists(owned(name)));
        }
        let object_id = *object.id();
        if self.objects.contains_key(object_id.raw()) {
            return Err(IdError::IdAlreadyExists(object_id));
        }
        let mut taken = ObjectStore::new();
        std::mem::swap(self, &mut taken);
        let ObjectStore { mut objects, mut names, mut name_ids, next_id } = taken;
        objects.insert(object_id.raw(), object);
        proof {
            use_type_invariant(&objects);
        }
        names.push(owned(name));
        name_ids.push(object_id);
        proof {
            let pre = old(self);
            assert(texts(names@) =~= texts(pre.names@).push(name@));
            assert(id_vals(name_ids@) =~= id_vals(pre.name_ids@).push(object_id.id_val()));
            assert forall|i: int| 0 <= i < pre.name_ids@.len() implies id_vals(pre.name_ids@)[i]
                != object_id.id_val() by {
                assert(pre.objects@.contains_key(pre.name_ids@[i].id_val()));
            }
        }
        *self = ObjectStore { objects, names, name_ids, next_id };
        Ok(object_id)
    }

    /// The second half of `insert_new`: checks what the factory made for the
    /// reserved identity `id` and registers it.
    pub fn insert_made(&mut self, id: TID, made: Result<T, IdError<TID>>) -> (r: Result<
        TID,
        IdError<TID>,
    >)
        ensures
            final(self).next_val() == old(self).next_val(),
            final(self).name_seq() == old(self).name_seq(),
            final(self).name_id_seq() == old(self).name_id_seq(),
            match made {
                Err(e) => r == Err::<TID, IdError<TID>>(e) && final(self).same_entries(old(self)),
                Ok(object) => if object.id_of() != id {
                    r == Err::<TID, IdError<TID>>(IdError::IdNotReserved(object.id_of()))
                        && final(self).same_entries(old(self))
                } else if old(self).contains(id) {
                    r == Err::<TID, IdError<TID>>(IdError::IdAlreadyExists(id))
                        && final(self).same_entries(old(self))
                } else {
                    r == Ok::<TID, IdError<TID>>(id)
                        && final(self).object_map()
                            == old(self).object_map().insert(id.id_val(), object)
                        && final(self).key_seq() == old(self).key_seq().push(id.id_val())
                },
            },
    {
        match made {
            Err(e) => Err(e),
            Ok(object) => {
                let object_id = *object.id();
                if object_id.raw() != id.raw() {
                    return Err(IdError::IdNotReserved(object_id));
                }
                proof {
                    TID::id_val_injective(object_id, id);
                }
                self.register(object)
            },
        }
    }

    /// Reserve an identity, let `cb` make the object for it, and register
    /// the object. The object must carry the identity given to `cb`.
    pub fn insert_new<CB>(&mut self, cb: CB) -> (r: Result<TID, IdError<TID>>) where
        CB: FnOnce(TID) -> Result<T, IdError<TID>>,

        requires
            forall|id: TID| id.id_val() == old(self).next_val() ==> call_requires(cb, (id,)),
        ensures
            final(self).next_val() == (if old(self).next_val() == u32::MAX {
                0
            } else {
                old(self).next_val() + 1
            }),
            final(self).name_seq() == old(self).name_seq(),
            final(self).name_id_seq() == old(self).name_id_seq(),
            exists|id: TID, made: Result<T, IdError<TID>>|
                id.id_val() == old(self).next_val()
                    && call_ensures(cb, (id,), made)
                    && match made {
                    Err(e) => r == Err::<TID, IdError<TID>>(e) && final(self).same_entries(
                        old(self),
                    ),
                    Ok(object) => if object.id_of() != id {
                        r == Err::<TID, IdError<TID>>(IdError::IdNotReserved(object.id_of()))
                            && final(self).same_entries(old(self))
                    } else if old(self).contains(id) {
                        r == Err::<TID, IdError<TID>>(IdError::IdAlreadyExists(id))
                            && final(self).same_entries(old(self))
                    } else {
                        r == Ok::<TID, IdError<TID>>(id)
                            && final(self).object_map()
                                == old(self).object_map().insert(id.id_val(), object)
                            && final(self).key_seq()
                            == old(self).key_seq().push(id.id_val())
                    },
                },
    {
        let id: TID = self.reserve_id();
        let made = cb(id);
        let ghost made_copy = made;
        let r = self.insert_made(id, made);
        proof {
            assert(call_ensures(cb, (id,), made_copy));
        }
        r
    }

    /// The second half of `insert_new_named`: checks what the factory made
    /// for the reserved identity `id` and registers it under `name`.
    pub fn insert_made_named(&mut self, name: &str, id: TID, made: Result<T, IdError<TID>>) -> (r:
        Result<TID, IdError<TID>>)
        ensures
            final(self).next_val() == old(self).next_val(),
            match made {
                Err(e) => r == Err::<TID, IdError<TID>>(e) && final(self).same_entries(old(self)),
                Ok(object) => if object.id_of() != id {
                    r == Err::<TID, IdError<TID>>(IdError::IdNotReserved(object.id_of()))
                        && final(self).same_entries(old(self))
                } else if old(self).has_name(name@) {
                    (r matches Err(IdError::NameAlreadyExists(n)) && n@ == name@)
                        && final(self).same_entries(old(self))
                } else if old(self).contains(id) {
                    r == Err::<TID, IdError<TID>>(IdError::IdAlreadyExists(id))
                        && final(self).same_entries(old(self))
                } else {
                    r == Ok::<TID, IdError<TID>>(id)
                        && final(self).object_map()
                            == old(self).object_map().insert(id.id_val(), object)
                        && final(self).key_seq() == old(self).key_seq().push(id.id_val())
                        && final(self).name_seq() == old(self).name_seq().push(name@)
                        && final(self).name_id_seq() == old(self).name_id_seq().push(id)
                },
            },
    {
        match made {
            Err(e) => Err(e),
            Ok(object) => {
                let object_id = *object.id();
                if object_id.raw() != id.raw() {
                    return Err(IdError::IdNotReserved(object_id));
                }
                proof {
                    TID::id_val_injective(object_id, id);
                }
                self.register_named(name, object)
            },
        }
    }

    /// Reserve an identity, let `cb` make the object for it, and register
    /// the object under `name`.
    pub fn insert_new_named<CB>(&mut self, name: &str, cb: CB) -> (r: Result<TID, IdError<TID>>) where
        CB: FnOnce(TID) -> Result<T, IdError<TID>>,

        requires
            forall|id: TID| id.id_val() == old(self).next_val() ==> call_requires(cb, (id,)),
        ensures
            final(self).next_val() == (if old(self).next_val() == u32::MAX {
                0
            } else {
                old(self).next_val() + 1
            }),
            exists|id: TID, made: Result<T, IdError<TID>>|
                id.id_val() == old(self).next_val()
                    && call_ensures(cb, (id,), made)
                    && match made {
                    Err(e) => r == Err::<TID, IdError<TID>>(e) && final(self).same_entries(
                        old(self),
                    ),
                    Ok(object) => if object.id_of() != id {
                        r == Err::<TID, IdError<TID>>(IdError::IdNotReserved(object.id_of()))
                            && final(self).same_entries(old(self))
                    } else if old(self).has_name(name@) {
                        (r matches Err(IdError::NameAlreadyExists(n)) && n@ == name@)
                            && final(self).same_entries(old(self))
                    } else if old(self).contains(id) {
                        r == Err::<TID, IdError<TID>>(IdError::IdAlreadyExists(id))
                            && final(self).same_entries(old(self))
                    } else {
                        r == Ok::<TID, IdError<TID>>(id)
                            && final(self).object_map()
                                == old(self).object_map().insert(id.id_val(), object)
                            && final(self).key_seq()
                            == old(self).key_seq().push(id.id_val()) && final(self).name_seq()
                            == old(self).name_seq().push(name@) && final(self).name_id_seq()
                            == old(self).name_id_seq().push(id)
                    },
                },
    {
        let id: TID = self.reserve_id();
        let made = cb(id);
        let ghost made_copy = made;
        let r = self.insert_made_named(name, id, made);
        proof {
            assert(call_ensures(cb, (id,), made_copy));
        }
        r
    }

    /// Get the identity registered under `name`.
    pub fn id_from_name(&self, name: &str) -> (r: Option<&TID>)
        ensures
            match r {
                Some(id) => self.has_name(name@) && *id == self.named_id(name@),
                None => !self.has_name(name@),
            },
    {
        proof {
            use_type_invariant(self);
        }
        match self.find_name(name) {
            Some(i) => Some(&self.name_ids[i]),
            None => None,
        }
    }

    /// Get the name that `id` was registered under.
    pub fn name_from_id(&self, id: &TID) -> (r: Option<&str>)
        ensures
            match r {
                Some(name) => self.id_has_name(*id) && name@ == self.name_of(*id),
                None => !self.id_has_name(*id),
            },
    {
        proof {
            use_type_invariant(self);
        }
        match self.find_named_id(id) {
            Some(i) => Some(self.names[i].as_str()),
            None => None,
        }
    }

    /// Get an object by its name.
    pub fn get_by_name(&self, name: &str) -> (r: Option<&T>)
        ensures
            match r {
                Some(object) => self.has_name(name@) && *object == self.object(
                    self.named_id(name@),
                ),
                None => !self.has_name(name@),
            },
    {
        proof {
            use_type_invariant(self);
            self.lemma_wf();
        }
        match self.id_from_name(name) {
            Some(id) => self.get(id),
            None => None,
        }
    }

    /// Get an object by its identity.
    pub fn get(&self, id: &TID) -> (r: Option<&T>)
        ensures
            match r {
                Some(object) => self.contains(*id) && *object == self.object(*id),
                None => !self.contains(*id),
            },
    {
        proof {
            use_type_invariant(self);
        }
        self.objects.get(id.raw())
    }

    /// Get a mutable reference to the object with identity `id`. Whatever
    /// the caller writes there replaces the object; nothing else changes.
    pub fn get_mut(&mut self, id: &TID) -> (r: Option<&mut T>)
        ensures
            final(self).next_val() == old(self).next_val(),
            final(self).key_seq() == old(self).key_seq(),
            final(self).name_seq() == old(self).name_seq(),
            final(self).name_id_seq() == old(self).name_id_seq(),
            match r {
                Some(object) => old(self).contains(*id) && *object == old(self).object(*id)
                    && final(self).object_map() == old(self).object_map().insert(
                    id.id_val(),
                    *final(object),
                ),
                None => !old(self).contains(*id) && *final(self) == *old(self),
            },
    {
        proof {
            use_type_invariant(&*self);
        }
        self.objects.get_mut(id.raw())
    }

    /// The registered names with their identities, oldest first.
    pub fn iter_names(&self) -> (r: Vec<(String, TID)>)
        ensures
            r@.len() == self.name_seq().len(),
            forall|i: int|
                0 <= i < r@.len() ==> (#[trigger] r@[i]).0@ == self.name_seq()[i] && r@[i].1
                    == self.name_id_seq()[i],
    {
        proof {
            use_type_invariant(self);
        }
        let mut out: Vec<(String, TID)> = Vec::new();
        let mut i: usize = 0;
        while i < self.names.len()
            invariant
                self.names@.len() == self.name_ids@.len(),
                i <= self.names@.len(),
                out@.len() == i,
                forall|j: int|
                    0 <= j < i ==> (#[trigger] out@[j]).0@ == texts(self.names@)[j] && out@[j].1
                        == self.name_ids@[j],
            decreases self.names@.len() - i,
        {
            out.push((self.names[i].clone(), self.name_ids[i]));
            i = i + 1;
        }
        out
    }
}

} // verus!
