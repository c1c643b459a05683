use crate::errors::IdError;
use crate::id::{StepId, VarId};
use crate::object_store::ObjectStoreContent;
use crate::statedata::{StateData, ValidVal};
use crate::vec_map::{lemma_position_of, position_of};
use vstd::prelude::*;

verus! {

/// The first identity of `ids` that `have` lacks.
pub open spec fn first_missing(ids: Seq<VarId>, have: Set<VarId>) -> Option<VarId>
    decreases ids.len(),
{
    if ids.len() == 0 {
        None
    } else {
        match first_missing(ids.drop_last(), have) {
            Some(id) => Some(id),
            None => if have.contains(ids.last()) {
                None
            } else {
                Some(ids.last())
            },
        }
    }
}

/// What is missing in a prefix is missing in the whole.
pub proof fn lemma_first_missing_prefix(ids: Seq<VarId>, have: Set<VarId>, n: int)
    requires
        0 <= n <= ids.len(),
        first_missing(ids.subrange(0, n), have) is Some,
    ensures
        first_missing(ids, have) == first_missing(ids.subrange(0, n), have),
    decreases ids.len() - n,
{
    if n < ids.len() {
        assert(ids.subrange(0, n + 1).drop_last() =~= ids.subrange(0, n));
        lemma_first_missing_prefix(ids, have, n + 1);
    } else {
        assert(ids.subrange(0, n) =~= ids);
    }
}

/// Nothing is missing exactly when `have` holds every identity of `ids`,
/// and what is missing is one of `ids` that `have` lacks.
pub proof fn lemma_first_missing(ids: Seq<VarId>, have: Set<VarId>)
    ensures
        first_missing(ids, have) is None <==> forall|i: int|
            0 <= i < ids.len() ==> have.contains(#[trigger] ids[i]),
        first_missing(ids, have) matches Some(id) ==> ids.contains(id) && !have.contains(id),
    decreases ids.len(),
{
    if ids.len() > 0 {
        lemma_first_missing(ids.drop_last(), have);
        if first_missing(ids.drop_last(), have) is None {
            assert forall|i: int| 0 <= i < ids.len() - 1 implies have.contains(#[trigger] ids[i]) by {
                assert(ids.drop_last()[i] == ids[i]);
            }
            if !have.contains(ids.last()) {
                assert(ids[ids.len() - 1] == ids.last());
            }
        } else {
            let id = first_missing(ids.drop_last(), have)->0;
            let i = choose|i: int| 0 <= i < ids.drop_last().len() && ids.drop_last()[i] == id;
            assert(ids[i] == id);
        }
    }
}

/// The step that follows `prev` among `subs`: the one behind the first
/// place where `prev` stands.
pub open spec fn next_after(subs: Seq<StepId>, prev: StepId) -> Option<StepId> {
    if position_of(subs, prev) + 1 < subs.len() {
        Some(subs[position_of(subs, prev) + 1])
    } else {
        None
    }
}

/// A single step in a flow.
///
/// A step is defined by the inputs it needs before it can be entered and
/// the outputs that must be there before it can be left. Substeps group
/// steps and are walked in order.
#[derive(Debug)]
pub struct Step {
    pub id: StepId,
    pub input_vars: Option<Vec<VarId>>,
    pub output_vars: Vec<VarId>,
    substep_step_ids: Option<Vec<StepId>>,
}

impl Step {
    /// The substeps in the order in which they were pushed.
    pub closed spec fn substeps(&self) -> Seq<StepId> {
        match self.substep_step_ids {
            Some(ids) => ids@,
            None => Seq::empty(),
        }
    }

    /// The identity of the step.
    pub closed spec fn step_id(&self) -> StepId {
        self.id
    }

    /// The inputs as they were declared: `None` for a step that asks for none.
    pub closed spec fn declared_inputs(&self) -> Option<Seq<VarId>> {
        match self.input_vars {
            Some(ids) => Some(ids@),
            None => None,
        }
    }

    /// The outputs that the step must fulfill.
    pub closed spec fn outputs(&self) -> Seq<VarId> {
        self.output_vars@
    }

    /// The inputs that the step needs: none where it declares none.
    pub open spec fn inputs(&self) -> Seq<VarId> {
        match self.declared_inputs() {
            Some(ids) => ids,
            None => Seq::empty(),
        }
    }

    /// What `can_enter` answers for a state: the first input that the
    /// state lacks, as a missing identity.
    pub open spec fn enter_outcome(&self, state: Map<VarId, ValidVal>) -> Result<(), IdError<VarId>> {
        match first_missing(self.inputs(), state.dom()) {
            Some(id) => Err(IdError::IdMissing(id)),
            None => Ok(()),
        }
    }

    /// What `can_exit` answers for a state: what `can_enter` objects to,
    /// else the first output that the state lacks.
    pub open spec fn exit_outcome(&self, state: Map<VarId, ValidVal>) -> Result<(), IdError<VarId>> {
        match first_missing(self.inputs(), state.dom()) {
            Some(id) => Err(IdError::IdMissing(id)),
            None => match first_missing(self.outputs(), state.dom()) {
                Some(id) => Err(IdError::IdMissing(id)),
                None => Ok(()),
            },
        }
    }

    /// Create a new step.
    ///
    /// If no inputs are required, pass in `None` for `input_vars`
    pub fn new(id: StepId, input_vars: Option<Vec<VarId>>, output_vars: Vec<VarId>) -> (step: Self)
        ensures
            step.step_id() == id,
            step.declared_inputs() == (match input_vars {
                Some(ids) => Some(ids@),
                None => None,
            }),
            step.outputs() == output_vars@,
            step.substeps() == Seq::<StepId>::empty(),
    {
        Step { id, input_vars, output_vars, substep_step_ids: None }
    }

    /// A step without inputs, outputs or substeps.
    pub fn test_new(id: StepId) -> (step: Self)
        ensures
            step.step_id() == id,
            step.declared_inputs() is None,
            step.outputs() == Seq::<VarId>::empty(),
            step.substeps() == Seq::<StepId>::empty(),
    {
        Step::new(id, None, Vec::new())
    }

    pub fn get_input_vars(&self) -> (r: &Option<Vec<VarId>>)
        ensures
            self.declared_inputs() == (match *r {
                Some(ids) => Some(ids@),
                None => None,
            }),
    {
        &self.input_vars
    }

    pub fn get_output_vars(&self) -> (r: &Vec<VarId>)
        ensures
            r@ == self.outputs(),
    {
        &self.output_vars
    }

    /// Push a substep to the end of the current sub-steps
    pub fn push_substep(&mut self, substep_step_id: StepId)
        ensures
            final(self).substeps() == old(self).substeps().push(substep_step_id),
            final(self).step_id() == old(self).step_id(),
            final(self).declared_inputs() == old(self).declared_inputs(),
            final(self).outputs() == old(self).outputs(),
    {
        let mut ids: Vec<StepId> = match self.substep_step_ids.take() {
            None => Vec::new(),
            Some(ids) => ids,
        };
        ids.push(substep_step_id);
        self.substep_step_ids = Some(ids);
    }

    /// Get the sub-step that directly follows `prev_substep_id`
    pub fn next_substep(&self, prev_substep_id: &StepId) -> (r: Option<&StepId>)
        ensures
            match r {
                Some(id) => next_after(self.substeps(), *prev_substep_id) == Some(*id),
                None => next_after(self.substeps(), *prev_substep_id) is None,
            },
    {
        let ids = match &self.substep_step_ids {
            None => {
                return None;
            },
            Some(ids) => ids,
        };
        let mut i: usize = 0;
        while i < ids.len()
            invariant
                ids@ == self.substeps(),
                i <= ids@.len(),
                forall|j: int| 0 <= j < i ==> ids@[j] != *prev_substep_id,
            decreases ids@.len() - i,
        {
            if ids[i].0 == prev_substep_id.0 {
                proof {
                    lemma_position_of(ids@, *prev_substep_id);
                }
                if i + 1 < ids.len() {
                    return Some(&ids[i + 1]);
                }
                return None;
            }
            i = i + 1;
        }
        proof {
            lemma_position_of(ids@, *prev_substep_id);
        }
        None
    }

    pub fn first_substep(&self) -> (r: Option<&StepId>)
        ensures
            match r {
                Some(id) => self.substeps().len() > 0 && *id == self.substeps()[0],
                None => self.substeps().len() == 0,
            },
    {
        match &self.substep_step_ids {
            None => None,
            Some(ids) => {
                if ids.len() > 0 {
                    Some(&ids[0])
                } else {
                    None
                }
            },
        }
    }

    /// Verifies that `inputs` fulfills the required inputs to enter the step
    pub fn can_enter(&self, inputs: &StateData) -> (r: Result<(), IdError<VarId>>)
        ensures
            r == self.enter_outcome(inputs@),
    {
        if let Some(input_vars) = &self.input_vars {
            match find_missing(input_vars, inputs) {
                Some(id) => {
                    return Err(IdError::IdMissing(id));
                },
                None => {},
            }
        }
        Ok(())
    }

    /// Verifies that `state_data` fulfills the required outputs to exit the step
    pub fn can_exit(&self, state_data: &StateData) -> (r: Result<(), IdError<VarId>>)
        ensures
            r == self.exit_outcome(state_data@),
    {
        match self.can_enter(state_data) {
            Err(e) => {
                return Err(e);
            },
            Ok(()) => {},
        }
        match find_missing(&self.output_vars, state_data) {
            Some(id) => Err(IdError::IdMissing(id)),
            None => Ok(()),
        }
    }
}

/// A step may be entered exactly when the state holds a value for each of
/// its inputs, and left exactly when it may be entered and the state holds
/// a value for each of its outputs.
pub proof fn lemma_guards(step: &Step, state: Map<VarId, ValidVal>)
    ensures
        step.enter_outcome(state) is Ok <==> forall|i: int|
            0 <= i < step.inputs().len() ==> state.contains_key(#[trigger] step.inputs()[i]),
        step.exit_outcome(state) is Ok <==> step.enter_outcome(state) is Ok && forall|i: int|
            0 <= i < step.outputs().len() ==> state.contains_key(#[trigger] step.outputs()[i]),
{
    lemma_first_missing(step.inputs(), state.dom());
    lemma_first_missing(step.outputs(), state.dom());
}

/// The first identity of `ids` for which `state` holds no value.
pub fn find_missing(ids: &Vec<VarId>, state: &StateData) -> (r: Option<VarId>)
    ensures
        r == first_missing(ids@, state@.dom()),
{
    let mut i: usize = 0;
    while i < ids.len()
        invariant
            i <= ids@.len(),
            first_missing(ids@.subrange(0, i as int), state@.dom()) is None,
        decreases ids@.len() - i,
    {
        proof {
            assert(ids@.subrange(0, i + 1).drop_last() =~= ids@.subrange(0, i as int));
        }
        if !state.contains(&ids[i]) {
            proof {
                lemma_first_missing_prefix(ids@, state@.dom(), i + 1);
            }
            return Some(ids[i]);
        }
        i = i + 1;
    }
    proof {
        assert(ids@.subrange(0, i as int) =~= ids@);
    }
    None
}

impl ObjectStoreContent for Step {
    type IdType = StepId;

    open spec fn id_of(&self) -> StepId {
        self.step_id()
    }

    fn new_id(id_val: u32) -> (id: StepId) {
        StepId::new(id_val)
    }

    fn id(&self) -> (id: &StepId) {
        &self.id
    }
}

} // verus!
