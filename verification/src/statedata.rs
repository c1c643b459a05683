use crate::errors::{InvalidValue, InvalidVars};
use crate::id::VarId;
use crate::value::Value;
use crate::var::Var;
use crate::vec_map::VecMap;
use std::collections::HashMap;
use vstd::prelude::*;

verus! {

/// A value together with the identity of the declaration that accepted it.
#[derive(Debug)]
pub struct ValidVal {
    val: Value,
    validated_by: VarId,
}

impl ValidVal {
    /// The value that was accepted.
    pub closed spec fn value(&self) -> Value {
        self.val
    }

    /// The identity of the declaration that accepted the value.
    pub closed spec fn validator(&self) -> VarId {
        self.validated_by
    }

    /// Same validator, and values of the same kind with the same content.
    pub open spec fn alike(&self, other: &ValidVal) -> bool {
        self.value().alike(&other.value()) && self.validator() == other.validator()
    }

    /// Binds `val` to `validate_with`, if `val` is of the kind that the
    /// declaration wants.
    pub fn try_new(val: Value, validate_with: &Var) -> (r: Result<Self, InvalidValue>)
        ensures
            match r {
                Ok(v) => val.kind_of() == validate_with.kind_of() && v.value() == val
                    && v.validator() == validate_with.var_id(),
                Err(e) => val.kind_of() != validate_with.kind_of() && e == InvalidValue::WrongType,
            },
    {
        match validate_with.validate_val_type(&val) {
            Ok(_) => Ok(Self { val, validated_by: *validate_with.id() }),
            Err(e) => Err(e),
        }
    }

    pub fn get_val(&self) -> (v: &Value)
        ensures
            *v == self.value(),
    {
        &self.val
    }

    /// Whether two validated values hold alike values from the same
    /// declaration.
    pub fn eq_valid(&self, other: &ValidVal) -> (b: bool)
        ensures
            b == self.alike(other),
    {
        self.val.eq_box(&other.val) && self.validated_by.0 == other.validated_by.0
    }
}

impl PartialEq for ValidVal {
    fn eq(&self, other: &Self) -> (b: bool) {
        self.eq_valid(other)
    }
}

impl vstd::std_specs::cmp::PartialEqSpecImpl for ValidVal {
    open spec fn obeys_eq_spec() -> bool {
        true
    }

    open spec fn eq_spec(&self, other: &Self) -> bool {
        self.alike(other)
    }
}

impl Clone for ValidVal {
    fn clone(&self) -> (v: Self)
        ensures
            v == *self,
    {
        ValidVal { val: self.val.clone_box(), validated_by: self.validated_by }
    }
}

/// The identities of `ids`, as a set.
pub open spec fn id_set(ids: Seq<VarId>) -> Set<VarId> {
    Set::new(|id: VarId| ids.contains(id))
}

/// The state that a run of insertions leaves: the pairs of `pairs` bound
/// one after the other, a later one replacing an earlier one.
pub open spec fn bound_all(pairs: Seq<(&Var, Value)>) -> Map<VarId, (Value, VarId)>
    decreases pairs.len(),
{
    if pairs.len() == 0 {
        Map::empty()
    } else {
        bound_all(pairs.drop_last()).insert(
            pairs.last().0.var_id(),
            (pairs.last().1, pairs.last().0.var_id()),
        )
    }
}

/// The pairs of `pairs` whose value is not of the kind that its declaration
/// wants, each under the number of the declaration's identity.
pub open spec fn faults(pairs: Seq<(&Var, Value)>) -> Map<u32, InvalidValue>
    decreases pairs.len(),
{
    if pairs.len() == 0 {
        Map::empty()
    } else if pairs.last().1.kind_of() != pairs.last().0.kind_of() {
        faults(pairs.drop_last()).insert(pairs.last().0.var_id().0, InvalidValue::WrongType)
    } else {
        faults(pairs.drop_last())
    }
}

/// Every value of `pairs` is of the kind that its declaration wants.
pub open spec fn all_valid(pairs: Seq<(&Var, Value)>) -> bool {
    forall|i: int| 0 <= i < pairs.len()
        ==> (#[trigger] pairs[i]).1.kind_of() == pairs[i].0.kind_of()
}

/// The accumulated data of a flow: validated values by the identity of
/// their declaration.
#[derive(Debug)]
pub struct StateData {
    data: VecMap<ValidVal>,
}

impl View for StateData {
    type V = Map<VarId, ValidVal>;

    closed spec fn view(&self) -> Map<VarId, ValidVal> {
        Map::new(|id: VarId| self.data@.contains_key(id.0), |id: VarId| self.data@[id.0])
    }
}

impl StateData {
    /// The identities that hold a value, oldest first.
    pub closed spec fn var_seq(&self) -> Seq<VarId> {
        Seq::new(self.data.key_seq().len(), |i: int| VarId(self.data.key_seq()[i]))
    }

    /// Create a new StateData instance
    pub fn new() -> (data: Self)
        ensures
            data@ == Map::<VarId, ValidVal>::empty(),
    {
        let data = StateData { data: VecMap::new() };
        assert(data@ =~= Map::<VarId, ValidVal>::empty());
        data
    }

    /// Add a new value, checked against its declaration.
    pub fn insert(&mut self, var: &Var, state_val: Value) -> (r: Result<(), InvalidValue>)
        ensures
            match r {
                Ok(()) => state_val.kind_of() == var.kind_of() && final(self)@.dom() == old(
                    self,
                )@.dom().insert(var.var_id()) && final(self)@[var.var_id()].value() == state_val
                    && final(self)@[var.var_id()].validator() == var.var_id() && (forall|id: VarId|
                    id != var.var_id() && old(self)@.contains_key(id) ==> final(self)@[id] == old(
                        self,
                    )@[id]),
                Err(e) => state_val.kind_of() != var.kind_of() && e == InvalidValue::WrongType
                    && final(self)@ == old(self)@,
            },
    {
        proof {
            use_type_invariant(&self.data);
        }
        match ValidVal::try_new(state_val, var) {
            Ok(valid) => {
                self.data.insert(var.id().0, valid);
                proof {
                    assert(final(self)@.dom() =~= old(self)@.dom().insert(var.var_id()));
                }
                Ok(())
            },
            Err(e) => Err(e),
        }
    }

    /// Get the value under an identity.
    pub fn get(&self, var_id: &VarId) -> (r: Option<&ValidVal>)
        ensures
            match r {
                Some(v) => self@.contains_key(*var_id) && *v == self@[*var_id],
                None => !self@.contains_key(*var_id),
            },
    {
        proof {
            use_type_invariant(&self.data);
        }
        self.data.get(var_id.0)
    }

    pub fn contains(&self, var_id: &VarId) -> (b: bool)
        ensures
            b == self@.contains_key(*var_id),
    {
        proof {
            use_type_invariant(&self.data);
        }
        self.data.contains_key(var_id.0)
    }

    /// How many identities hold a value.
    pub fn len(&self) -> (n: usize)
        ensures
            n == self@.dom().len(),
            self@.dom().finite(),
    {
        proof {
            use_type_invariant(&self.data);
            self.lemma_dom();
        }
        self.data.len()
    }

    /// The identities with a value are those of `var_seq`, each once.
    proof fn lemma_dom(&self)
        requires
            self.data.wf(),
        ensures
            self.var_seq().no_duplicates(),
            self@.dom() == id_set(self.var_seq()),
            self@.dom() == self.var_seq().to_set(),
            self@.dom().finite(),
            self@.dom().len() == self.var_seq().len(),
    {
        self.data.lemma_wf();
        let s = self.var_seq();
        let ks = self.data.key_seq();
        assert forall|i: int, j: int| 0 <= i < s.len() && 0 <= j < s.len() && i != j implies s[i]
            != s[j] by {
            assert(ks[i] != ks[j]);
        }
        assert forall|id: VarId| self@.dom().contains(id) <==> s.contains(id) by {
            if self@.dom().contains(id) {
                let i = choose|i: int| 0 <= i < ks.len() && ks[i] == id.0;
                assert(s[i] == id);
            }
            if s.contains(id) {
                let i = choose|i: int| 0 <= i < s.len() && s[i] == id;
                assert(ks[i] == id.0);
            }
        }
        assert(self@.dom() =~= id_set(s));
        assert(self@.dom() =~= s.to_set());
        s.unique_seq_to_set();
    }

    /// Confirm that the identities with a value are exactly those listed.
    pub fn contains_only(&self, contains_only: &Vec<VarId>) -> (b: bool)
        ensures
            b == (self@.dom() == id_set(contains_only@)),
    {
        proof {
            use_type_invariant(&self.data);
            self.lemma_dom();
            self.data.lemma_wf();
        }
        let n = self.data.len();
        let mut i: usize = 0;
        while i < n
            invariant
                self.data.wf(),
                n == self.data.key_seq().len(),
                i <= n,
                forall|j: int| 0 <= j < i
                    ==> contains_only@.contains(#[trigger] self.var_seq()[j]),
            decreases n - i,
        {
            let key = self.data.key_at(i);
            if !has_id(contains_only, VarId(key)) {
                proof {
                    assert(self@.dom().contains(VarId(key)));
                    assert(!id_set(contains_only@).contains(VarId(key)));
                }
                return false;
            }
            assert(self.var_seq()[i as int] == VarId(key));
            i = i + 1;
        }
        let mut k: usize = 0;
        while k < contains_only.len()
            invariant
                k <= contains_only@.len(),
                forall|j: int| 0 <= j < k ==> self@.contains_key(#[trigger] contains_only@[j]),
            decreases contains_only@.len() - k,
        {
            if !self.contains(&contains_only[k]) {
                proof {
                    assert(contains_only@.contains(contains_only@[k as int]));
                    assert(id_set(contains_only@).contains(contains_only@[k as int]));
                }
                return false;
            }
            k = k + 1;
        }
        proof {
            assert forall|id: VarId| self@.dom().contains(id) <==> id_set(contains_only@).contains(
                id,
            ) by {
                if self@.dom().contains(id) {
                    let j = choose|j: int| 0 <= j < self.var_seq().len()
                        && self.var_seq()[j] == id;
                    assert(contains_only@.contains(self.var_seq()[j]));
                }
                if contains_only@.contains(id) {
                    let j = choose|j: int| 0 <= j < contains_only@.len()
                        && contains_only@[j] == id;
                    assert(self@.contains_key(contains_only@[j]));
                }
            }
            assert(self@.dom() =~= id_set(contains_only@));
        }
        true
    }

    /// Merge the data from another `StateData` into this one. Where both
    /// hold a value under an identity, the one of `src` stays.
    pub fn merge_from(&mut self, src: StateData)
        ensures
            final(self)@ == old(self)@.union_prefer_right(src@),
    {
        self.merge_from_ref(&src);
    }

    /// Merge copies of the data of another `StateData` into this one.
    pub fn merge_from_ref(&mut self, src: &StateData)
        ensures
            final(self)@ == old(self)@.union_prefer_right(src@),
    {
        proof {
            use_type_invariant(&self.data);
            use_type_invariant(&src.data);
            src.data.lemma_wf();
        }
        let mut data = VecMap::new();
        std::mem::swap(&mut data, &mut self.data);
        let ghost start = data@;
        let ghost keys = src.data.key_seq();
        let n = src.data.len();
        let mut i: usize = 0;
        while i < n
            invariant
                data.wf(),
                src.data.wf(),
                keys == src.data.key_seq(),
                n == keys.len(),
                i <= n,
                forall|k: u32| #[trigger]
                    data@.contains_key(k) <==> (start.contains_key(k) || exists|j: int|
                        0 <= j < i && keys[j] == k),
                forall|k: u32| #[trigger]
                    data@.contains_key(k) ==> data@[k] == (if exists|j: int|
                        0 <= j < i && keys[j] == k {
                        src.data@[k]
                    } else {
                        start[k]
                    }),
            decreases n - i,
        {
            let key = src.data.key_at(i);
            let val = src.data.val_at(i).clone();
            let ghost before = data@;
            data.insert(key, val);
            proof {
                assert forall|k: u32| #[trigger]
                    data@.contains_key(k) <==> (start.contains_key(k) || exists|j: int|
                        0 <= j < i + 1 && keys[j] == k) by {
                    if k == key {
                        assert(keys[i as int] == k);
                    }
                    if before.contains_key(k) && !start.contains_key(k) {
                        let j = choose|j: int| 0 <= j < i && keys[j] == k;
                        assert(0 <= j < i + 1);
                    }
                }
                assert forall|k: u32| #[trigger] data@.contains_key(k) implies data@[k] == (
                if exists|j: int| 0 <= j < i + 1 && keys[j] == k {
                    src.data@[k]
                } else {
                    start[k]
                }) by {
                    if k == key {
                        assert(keys[i as int] == k);
                    } else if exists|j: int| 0 <= j < i + 1 && keys[j] == k {
                        let j = choose|j: int| 0 <= j < i + 1 && keys[j] == k;
                        assert(0 <= j < i);
                    }
                }
            }
            i = i + 1;
        }
        self.data = data;
        proof {
            let want = old(self)@.union_prefer_right(src@);
            assert forall|id: VarId| self@.contains_key(id) <==> want.contains_key(id) by {
                if src@.contains_key(id) {
                    let j = choose|j: int| 0 <= j < keys.len() && keys[j] == id.0;
                    assert(0 <= j < i);
                }
            }
            assert forall|id: VarId| self@.contains_key(id) implies self@[id] == want[id] by {
                if src@.contains_key(id) {
                    let j = choose|j: int| 0 <= j < keys.len() && keys[j] == id.0;
                    assert(0 <= j < i);
                }
            }
            assert(self@ =~= want);
        }
    }

    /// The identities with their values, oldest first.
    pub fn iter_val(&self) -> (r: Vec<(VarId, &Value)>)
        ensures
            r@.len() == self.var_seq().len(),
            forall|i: int|
                0 <= i < r@.len() ==> (#[trigger] r@[i]).0 == self.var_seq()[i]
                    && self@.contains_key(
                    r@[i].0,
                ) && *r@[i].1 == self@[r@[i].0].value(),
    {
        proof {
            use_type_invariant(&self.data);
            self.data.lemma_wf();
        }
        let n = self.data.len();
        let mut out: Vec<(VarId, &Value)> = Vec::new();
        let mut i: usize = 0;
        while i < n
            invariant
                self.data.wf(),
                n == self.data.key_seq().len(),
                i <= n,
                out@.len() == i,
                forall|j: int|
                    0 <= j < i ==> (#[trigger] out@[j]).0 == self.var_seq()[j]
                        && self@.contains_key(out@[j].0) && *out@[j].1 == self@[out@[j].0].value(),
            decreases n - i,
        {
            let key = self.data.key_at(i);
            let val = self.data.val_at(i);
            out.push((VarId(key), val.get_val()));
            i = i + 1;
        }
        out
    }

    /// Create a `StateData` from pairs of declaration and value. Where a
    /// value is not of the kind that its declaration wants, nothing is
    /// created and every such pair is reported.
    pub fn from_vals(vals: Vec<(&Var, Value)>) -> (r: Result<Self, InvalidVars>)
        ensures
            match r {
                Ok(data) => all_valid(vals@) && data@.dom() == bound_all(vals@).dom() && (forall|
                    id: VarId,
                |
                    data@.contains_key(id) ==> (data@[id].value(), data@[id].validator())
                        == bound_all(vals@)[id]),
                Err(e) => !all_valid(vals@) && e.0@ == faults(vals@),
            },
    {
        let mut vals = vals;
        let ghost all = vals@;
        let n = vals.len();
        // find the pairs that do not fit
        let mut invalid: HashMap<u32, InvalidValue> = HashMap::new();
        let mut all_ok = true;
        let mut i: usize = 0;
        while i < n
            invariant
                vals@ == all,
                n == all.len(),
                i <= n,
                invalid@ == faults(all.subrange(0, i as int)),
                all_ok == all_valid(all.subrange(0, i as int)),
            decreases n - i,
        {
            broadcast use vstd::std_specs::hash::group_hash_axioms;

            proof {
                assert(all.subrange(0, i + 1).drop_last() =~= all.subrange(0, i as int));
                assert(all.subrange(0, i + 1).last() == all[i as int]);
            }
            let var: &Var = vals[i].0;
            if var.validate_val_type(&vals[i].1).is_err() {
                invalid.insert(var.id().0, InvalidValue::WrongType);
                all_ok = false;
                proof {
                    assert(all.subrange(0, i + 1)[i as int] == all[i as int]);
                }
            } else {
                proof {
                    assert forall|j: int| 0 <= j < i + 1
                        && all_ok implies (#[trigger] all.subrange(
                        0,
                        i + 1,
                    )[j]).1.kind_of() == all.subrange(0, i + 1)[j].0.kind_of() by {
                        if j < i {
                            assert(all.subrange(0, i as int)[j] == all[j]);
                        }
                    }
                    if !all_ok {
                        let j = choose|j: int|
                            0 <= j < i && (#[trigger] all.subrange(0, i as int)[j]).1.kind_of()
                                != all.subrange(0, i as int)[j].0.kind_of();
                        assert(all.subrange(0, i + 1)[j] == all[j]);
                    }
                }
            }
            i = i + 1;
        }
        proof {
            assert(all.subrange(0, n as int) =~= all);
        }
        if !all_ok {
            return Err(InvalidVars::new(invalid));
        }
        // bind them, last first, so that each value can be moved out

        let mut data = StateData::new();
        let mut rest: usize = n;
        while rest > 0
            invariant
                rest <= n,
                n == all.len(),
                vals@ == all.subrange(0, rest as int),
                all_valid(all),
                forall|id: VarId| #[trigger]
                    data@.contains_key(id) <==> exists|j: int|
                        rest <= j < n && all[j].0.var_id() == id,
                forall|id: VarId| #[trigger]
                    data@.contains_key(id) ==> (data@[id].value(), data@[id].validator())
                        == bound_all(all)[id],
            decreases rest,
        {
            let pair = vals.pop().unwrap();
            rest = rest - 1;
            proof {
                assert(pair == all[rest as int]);
            }
            if !data.contains(pair.0.id()) {
                let ghost before = data@;
                proof {
                    assert forall|j: int| rest < j < n implies all[j].0.var_id()
                        != all[rest as int].0.var_id() by {
                        if all[j].0.var_id() == pair.0.var_id() {
                            assert(rest + 1 <= j < n);
                            assert(before.contains_key(pair.0.var_id()));
                        }
                    }
                    lemma_bound_all(all, rest as int);
                }
                let _ = data.insert(pair.0, pair.1);
                proof {
                    assert forall|id: VarId| #[trigger]
                        data@.contains_key(id) <==> exists|j: int|
                            rest <= j < n && all[j].0.var_id() == id by {
                        if before.contains_key(id) {
                            let j = choose|j: int| rest + 1 <= j < n && all[j].0.var_id() == id;
                            assert(rest <= j < n);
                        }
                        if exists|j: int| rest <= j < n && all[j].0.var_id() == id {
                            let j = choose|j: int| rest <= j < n && all[j].0.var_id() == id;
                            if j != rest {
                                assert(rest + 1 <= j < n);
                            }
                        }
                    }
                }
            } else {
                proof {
                    assert forall|id: VarId| #[trigger]
                        data@.contains_key(id) <==> exists|j: int|
                            rest <= j < n && all[j].0.var_id() == id by {
                        if data@.contains_key(id) {
                            let j = choose|j: int| rest + 1 <= j < n && all[j].0.var_id() == id;
                            assert(rest <= j < n);
                        }
                        if exists|j: int| rest <= j < n && all[j].0.var_id() == id {
                            let j = choose|j: int| rest <= j < n && all[j].0.var_id() == id;
                            if j == rest {
                                assert(data@.contains_key(pair.0.var_id()));
                            } else {
                                assert(rest + 1 <= j < n);
                            }
                        }
                    }
                }
            }
        }
        proof {
            lemma_bound_all_dom(all);
            assert forall|id: VarId| data@.contains_key(id) <==> bound_all(all).contains_key(id) by {
                if data@.contains_key(id) {
                    let j = choose|j: int| 0 <= j < n && all[j].0.var_id() == id;
                }
            }
            assert(data@.dom() =~= bound_all(all).dom());
        }
        Ok(data)
    }
}

/// What `bound_all` holds under an identity is the last pair for it.
pub proof fn lemma_bound_all(pairs: Seq<(&Var, Value)>, i: int)
    requires
        0 <= i < pairs.len(),
        forall|j: int| i < j < pairs.len() ==> pairs[j].0.var_id() != pairs[i].0.var_id(),
    ensures
        bound_all(pairs).contains_key(pairs[i].0.var_id()),
        bound_all(pairs)[pairs[i].0.var_id()] == (pairs[i].1, pairs[i].0.var_id()),
    decreases pairs.len(),
{
    if i < pairs.len() - 1 {
        lemma_bound_all(pairs.drop_last(), i);
    }
}

/// `bound_all` holds a value under exactly the identities of the pairs.
pub proof fn lemma_bound_all_dom(pairs: Seq<(&Var, Value)>)
    ensures
        forall|id: VarId|
            bound_all(pairs).contains_key(id) <==> exists|j: int|
                0 <= j < pairs.len() && (#[trigger] pairs[j]).0.var_id() == id,
    decreases pairs.len(),
{
    if pairs.len() > 0 {
        lemma_bound_all_dom(pairs.drop_last());
        assert forall|id: VarId|
            bound_all(pairs).contains_key(id) <==> exists|j: int|
                0 <= j < pairs.len() && (#[trigger] pairs[j]).0.var_id() == id by {
            if bound_all(pairs.drop_last()).contains_key(id) {
                let j = choose|j: int|
                    0 <= j < pairs.drop_last().len()
                        && (#[trigger] pairs.drop_last()[j]).0.var_id()
                        == id;
                assert(pairs[j].0.var_id() == id);
            }
            if exists|j: int| 0 <= j < pairs.len() && (#[trigger] pairs[j]).0.var_id() == id {
                let j = choose|j: int| 0 <= j < pairs.len()
                    && (#[trigger] pairs[j]).0.var_id() == id;
                if j < pairs.len() - 1 {
                    assert(pairs.drop_last()[j].0.var_id() == id);
                }
            }
        }
    }
}

/// Whether `id` is one of `ids`.
pub fn has_id(ids: &Vec<VarId>, id: VarId) -> (b: bool)
    ensures
        b == ids@.contains(id),
{
    let mut i: usize = 0;
    while i < ids.len()
        invariant
            i <= ids@.len(),
            forall|j: int| 0 <= j < i ==> ids@[j] != id,
        decreases ids@.len() - i,
    {
        if ids[i].0 == id.0 {
            return true;
        }
        i = i + 1;
    }
    false
}

impl StateData {
    /// Same identities, and alike values under each.
    pub open spec fn alike(&self, other: &StateData) -> bool {
        &&& self@.dom() == other@.dom()
        &&& forall|id: VarId| self@.contains_key(id) ==> (#[trigger] self@[id]).alike(&other@[id])
    }

    /// Whether two states hold alike values under the same identities.
    pub fn eq_data(&self, other: &StateData) -> (b: bool)
        ensures
            b == self.alike(other),
    {
        proof {
            use_type_invariant(&self.data);
            use_type_invariant(&other.data);
            self.lemma_dom();
            other.lemma_dom();
            self.data.lemma_wf();
        }
        if self.data.len() != other.data.len() {
            return false;
        }
        let n = self.data.len();
        let mut i: usize = 0;
        while i < n
            invariant
                self.data.wf(),
                other.data.wf(),
                n == self.data.key_seq().len(),
                i <= n,
                forall|j: int|
                    0 <= j < i ==> other@.contains_key(#[trigger] self.var_seq()[j])
                        && self@[self.var_seq()[j]].alike(&other@[self.var_seq()[j]]),
            decreases n - i,
        {
            let key = self.data.key_at(i);
            let mine = self.data.val_at(i);
            proof {
                assert(self.var_seq()[i as int] == VarId(key));
                assert(self@.contains_key(VarId(key)));
            }
            match other.data.get(key) {
                None => {
                    proof {
                        assert(!other@.dom().contains(VarId(key)));
                    }
                    return false;
                },
                Some(theirs) => {
                    if !mine.eq_valid(theirs) {
                        proof {
                            assert(self@[VarId(key)] == *mine);
                            assert(other@[VarId(key)] == *theirs);
                            assert(!self@[VarId(key)].alike(&other@[VarId(key)]));
                        }
                        return false;
                    }
                    proof {
                        assert(self@[VarId(key)] == *mine);
                        assert(other@[VarId(key)] == *theirs);
                    }
                },
            }
            i = i + 1;
        }
        proof {
            assert forall|id: VarId| self@.contains_key(id) implies other@.contains_key(id) && (
            #[trigger] self@[id]).alike(&other@[id]) by {
                let j = choose|j: int| 0 <= j < self.var_seq().len() && self.var_seq()[j] == id;
                assert(other@.contains_key(self.var_seq()[j]));
            }
            assert(self@.dom().subset_of(other@.dom()));
            vstd::set_lib::lemma_subset_equality(self@.dom(), other@.dom());
        }
        true
    }
}

impl PartialEq for StateData {
    fn eq(&self, other: &Self) -> (b: bool) {
        self.eq_data(other)
    }
}

impl vstd::std_specs::cmp::PartialEqSpecImpl for StateData {
    open spec fn obeys_eq_spec() -> bool {
        true
    }

    open spec fn eq_spec(&self, other: &Self) -> bool {
        self.alike(other)
    }
}

impl Clone for StateData {
    fn clone(&self) -> (data: Self)
        ensures
            data@ == self@,
    {
        let mut data = StateData::new();
        data.merge_from_ref(self);
        data
    }
}

} // verus!
