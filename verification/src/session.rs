use crate::action::{Action, ActionResult};
use crate::dfs::{descent_ends, next_outcome, ranks_descent, DFSDirection, DepthFirstSearch};
use crate::errors::{ActionError, Error, IdError};
use crate::id::{ActionId, ObjectId, SessionId, StepId, VarId};
use crate::object_store::{ObjectStore, ObjectStoreContent};
use crate::object_store_filtered::ObjectStoreFiltered;
use crate::run::{
    advance_run, answer_fits, carries, cursor_moves, is_move, lemma_carries_end, lemma_carries_on,
    lemma_carries_start, Flow, Place, Turn,
};
use crate::statedata::{id_set, StateData, ValidVal};
use crate::statedata_filtered::StateDataFiltered;
use crate::step::Step;
use crate::value::Value;
use crate::var::Var;
use crate::vec_map::VecMap;
use std::collections::HashSet;
use vstd::prelude::*;

verus! {

/// What [`Session::advance`] has blocked on
#[derive(Debug)]
pub enum AdvanceBlockedOn {
    /// Same as [`ActionResult::StartWith`] but with the identity of the
    /// action that blocked.
    ActionStartWith(ActionId, Value),
    /// Same as [`ActionResult::CannotFulfill`]
    ActionCannotFulfill,
    /// The session has come to the end of the flow
    FinishedAdvancing,
}

impl AdvanceBlockedOn {
    /// Two results are alike when they are of the same variant and, where
    /// an action blocked, name the same action and hold alike values.
    pub open spec fn alike(&self, other: &AdvanceBlockedOn) -> bool {
        match (*self, *other) {
            (
                AdvanceBlockedOn::ActionStartWith(action_id, val),
                AdvanceBlockedOn::ActionStartWith(action_id_other, val_other),
            ) => action_id == action_id_other && val.alike(&val_other),
            (AdvanceBlockedOn::ActionCannotFulfill, AdvanceBlockedOn::ActionCannotFulfill) => true,
            (AdvanceBlockedOn::FinishedAdvancing, AdvanceBlockedOn::FinishedAdvancing) => true,
            _ => false,
        }
    }

    /// Whether two results are alike.
    pub fn eq_blocked(&self, other: &AdvanceBlockedOn) -> (b: bool)
        ensures
            b == self.alike(other),
    {
        match (self, other) {
            (
                AdvanceBlockedOn::ActionStartWith(action_id, val),
                AdvanceBlockedOn::ActionStartWith(action_id_other, val_other),
            ) => action_id.0 == action_id_other.0 && val.eq_box(val_other),
            (AdvanceBlockedOn::ActionCannotFulfill, AdvanceBlockedOn::ActionCannotFulfill) => true,
            (AdvanceBlockedOn::FinishedAdvancing, AdvanceBlockedOn::FinishedAdvancing) => true,
            _ => false,
        }
    }
}

impl PartialEq for AdvanceBlockedOn {
    fn eq(&self, other: &Self) -> (b: bool) {
        self.eq_blocked(other)
    }
}

impl vstd::std_specs::cmp::PartialEqSpecImpl for AdvanceBlockedOn {
    open spec fn obeys_eq_spec() -> bool {
        true
    }

    open spec fn eq_spec(&self, other: &Self) -> bool {
        self.alike(other)
    }
}

/// Where [`Session::advance`] stands between two of its moves.
#[derive(Debug)]
pub enum States {
    /// Move the cursor.
    AdvanceStep,
    /// Look for the action of the step; the error is the one that moving
    /// the cursor gave, if it gave one.
    GetSpecificAction(StepId, Option<Error>),
    /// Look for the action of every step.
    GetGenericAction(StepId, Option<Error>),
    /// Start the step's own action.
    StartSpecific(ActionId, StepId, Option<Error>),
    /// Start the action of every step.
    StartGeneric(ActionId, StepId, Option<Error>),
    /// The call is over.
    Done(Result<AdvanceBlockedOn, Error>),
}

/// How many moves one call of [`Session::advance`] makes at most.
pub const MAX_ADVANCE_MOVES: u64 = 0xffff_ffff_ffff_ffff;

/// What the guard at the entry of a step answers in a state: a step that is
/// not registered is missing, and a registered one answers for itself.
pub open spec fn enter_guard(steps: &ObjectStore<Step, StepId>, state: Map<VarId, ValidVal>) -> spec_fn(
    StepId,
) -> Result<(), Error> {
    |id: StepId|
        if steps.contains(id) {
            match steps.object(id).enter_outcome(state) {
                Ok(()) => Ok(()),
                Err(e) => Err(Error::VarId(e)),
            }
        } else {
            Err(Error::StepId(IdError::IdMissing(id)))
        }
}

/// What the guard at the exit of a step answers in a state.
pub open spec fn exit_guard(steps: &ObjectStore<Step, StepId>, state: Map<VarId, ValidVal>) -> spec_fn(
    StepId,
) -> Result<(), Error> {
    |id: StepId|
        if steps.contains(id) {
            match steps.object(id).exit_outcome(state) {
                Ok(()) => Ok(()),
                Err(e) => Err(Error::VarId(e)),
            }
        } else {
            Err(Error::StepId(IdError::IdMissing(id)))
        }
}

/// The error of the engine that stands for an action's error.
pub open spec fn action_error(e: ActionError) -> Error {
    match e {
        ActionError::VarId(id_error) => Error::VarId(id_error),
        ActionError::StepId(id_error) => Error::StepId(id_error),
        ActionError::Other => Error::Other,
    }
}

/// The numbers of the identities that a step declares as input or output.
pub open spec fn step_var_set(step: &Step) -> Set<u32> {
    Set::new(|v: u32| step.inputs().contains(VarId(v)) || step.outputs().contains(VarId(v)))
}

/// The identities that a step declares as input or output: what an action
/// gets to see when it is started for the step.
pub fn get_step_input_output_vars(step: &Step) -> (r: HashSet<u32>)
    ensures
        r@ == step_var_set(step),
{
    broadcast use vstd::std_specs::hash::group_hash_axioms;

    let mut allowed: HashSet<u32> = HashSet::new();
    if let Some(inputs) = step.get_input_vars() {
        let mut i: usize = 0;
        while i < inputs.len()
            invariant
                inputs@ == step.inputs(),
                i <= inputs@.len(),
                allowed@ == Set::new(|v: u32| inputs@.subrange(0, i as int).contains(VarId(v))),
            decreases inputs@.len() - i,
        {
            allowed.insert(inputs[i].0);
            proof {
                let before = inputs@.subrange(0, i as int);
                let after = inputs@.subrange(0, i + 1);
                assert forall|v: u32| after.contains(VarId(v)) <==> (before.contains(VarId(v)) || v
                    == inputs@[i as int].0) by {
                    if before.contains(VarId(v)) {
                        let j = choose|j: int| 0 <= j < before.len() && before[j] == VarId(v);
                        assert(after[j] == VarId(v));
                    }
                    if v == inputs@[i as int].0 {
                        assert(after[i as int] == VarId(v));
                    }
                    if after.contains(VarId(v)) {
                        let j = choose|j: int| 0 <= j < after.len() && after[j] == VarId(v);
                        if j < i {
                            assert(before[j] == VarId(v));
                        }
                    }
                }
                assert(allowed@ =~= Set::new(|v: u32| after.contains(VarId(v))));
            }
            i = i + 1;
        }
        proof {
            assert(inputs@.subrange(0, i as int) =~= inputs@);
        }
    } else {
        proof {
            assert(allowed@ =~= Set::new(|v: u32| step.inputs().contains(VarId(v))));
        }
    }
    let outputs = step.get_output_vars();
    let mut k: usize = 0;
    while k < outputs.len()
        invariant
            outputs@ == step.outputs(),
            k <= outputs@.len(),
            allowed@ == Set::new(
                |v: u32|
                    step.inputs().contains(VarId(v)) || outputs@.subrange(0, k as int).contains(
                        VarId(v),
                    ),
            ),
        decreases outputs@.len() - k,
    {
        allowed.insert(outputs[k].0);
        proof {
            let before = outputs@.subrange(0, k as int);
            let after = outputs@.subrange(0, k + 1);
            assert forall|v: u32| after.contains(VarId(v)) <==> (before.contains(VarId(v)) || v
                == outputs@[k as int].0) by {
                if before.contains(VarId(v)) {
                    let j = choose|j: int| 0 <= j < before.len() && before[j] == VarId(v);
                    assert(after[j] == VarId(v));
                }
                if v == outputs@[k as int].0 {
                    assert(after[k as int] == VarId(v));
                }
                if after.contains(VarId(v)) {
                    let j = choose|j: int| 0 <= j < after.len() && after[j] == VarId(v);
                    if j < k {
                        assert(before[j] == VarId(v));
                    }
                }
            }
            assert(allowed@ =~= Set::new(
                |v: u32| step.inputs().contains(VarId(v)) || after.contains(VarId(v)),
            ));
        }
        k = k + 1;
    }
    proof {
        assert(outputs@.subrange(0, k as int) =~= outputs@);
    }
    allowed
}

/// Holds the answer of an action for a step against what the step
/// declares: see [`checked_result`].
pub fn check_action_result(step: &Step, answer: Result<ActionResult, ActionError>) -> (r: Result<
    ActionResult,
    Error,
>)
    ensures
        r == checked_result(step, answer),
{
    match answer {
        Err(e) => Err(Error::from(e)),
        Ok(ActionResult::Finished(data)) => {
            if !data.contains_only(step.get_output_vars()) {
                return Err(Error::InvalidStateDataError);
            }
            Ok(ActionResult::Finished(data))
        },
        Ok(result) => Ok(result),
    }
}

/// What the engine makes of the answer of an action for a step. An error
/// of the action becomes the engine's error for it. Data that the action
/// finished with must hold a value for exactly the outputs of the step,
/// else the answer is refused. Every other answer stands.
pub open spec fn checked_result(step: &Step, answer: Result<ActionResult, ActionError>) -> Result<
    ActionResult,
    Error,
> {
    match answer {
        Err(e) => Err(action_error(e)),
        Ok(ActionResult::Finished(data)) => if data@.dom() == id_set(step.outputs()) {
            Ok(ActionResult::Finished(data))
        } else {
            Err(Error::InvalidStateDataError)
        },
        Ok(result) => Ok(result),
    }
}

/// Where `advance` goes after it moved the cursor.
pub open spec fn state_after_advance(
    moved: Result<Option<StepId>, Error>,
    stack: Seq<StepId>,
) -> States {
    match moved {
        Ok(Some(step_id)) => States::GetSpecificAction(step_id, None),
        Ok(None) => States::Done(Ok(AdvanceBlockedOn::FinishedAdvancing)),
        Err(e) => if stack.len() == 0 {
            States::Done(Err(Error::NoStateToEval))
        } else {
            States::GetSpecificAction(stack.last(), Some(e))
        },
    }
}

/// Where `advance` goes when it looks for the action of a step.
pub open spec fn state_for_specific(
    step_actions: Map<StepId, ActionId>,
    step_id: StepId,
    error: Option<Error>,
) -> States {
    if step_actions.contains_key(step_id) {
        States::StartSpecific(step_actions[step_id], step_id, error)
    } else {
        States::GetGenericAction(step_id, error)
    }
}

/// Where `advance` goes when it looks for the action of every step, which
/// is registered for the step `all`.
pub open spec fn state_for_generic(
    step_actions: Map<StepId, ActionId>,
    all: StepId,
    step_id: StepId,
    error: Option<Error>,
) -> States {
    if step_actions.contains_key(all) {
        States::StartGeneric(step_actions[all], step_id, error)
    } else {
        match error {
            None => States::AdvanceStep,
            Some(e) => States::Done(Err(e)),
        }
    }
}

/// Where `advance` goes after an action answered.
pub open spec fn state_after_action(
    specific: bool,
    action_id: ActionId,
    step_id: StepId,
    error: Option<Error>,
    answer: Result<ActionResult, Error>,
) -> States {
    match answer {
        Err(e) => States::Done(Err(e)),
        Ok(ActionResult::StartWith(val)) => States::Done(
            Ok(AdvanceBlockedOn::ActionStartWith(action_id, val)),
        ),
        Ok(ActionResult::Finished(_)) => States::AdvanceStep,
        Ok(ActionResult::CannotFulfill) => if specific {
            States::GetGenericAction(step_id, error)
        } else {
            States::Done(Ok(AdvanceBlockedOn::ActionCannotFulfill))
        },
    }
}

/// The action is set for some step, or for every step.
pub open spec fn action_is_set(step_actions: Map<StepId, ActionId>, action_id: ActionId) -> bool {
    exists|step_id: StepId| #[trigger]
        step_actions.contains_key(step_id) && step_actions[step_id] == action_id
}

/// What holds of a state of `advance` whatever the actions answered: an
/// action that is started is the one set for the step, or the one set for
/// every step; an action that blocked is one that was set; and only where
/// an action is set for every step does a call end by not fulfilling.
pub open spec fn state_fits(step_actions: Map<StepId, ActionId>, all: StepId, state: States) -> bool {
    match state {
        States::StartSpecific(action_id, step_id, _) => step_actions.contains_key(step_id)
            && step_actions[step_id] == action_id,
        States::StartGeneric(action_id, _, _) => step_actions.contains_key(all)
            && step_actions[all]
            == action_id,
        States::Done(Ok(AdvanceBlockedOn::ActionStartWith(action_id, _))) => action_is_set(
            step_actions,
            action_id,
        ),
        States::Done(Ok(AdvanceBlockedOn::ActionCannotFulfill)) => step_actions.contains_key(all),
        _ => true,
    }
}

/// The data that `advance` merges after an action answered.
pub open spec fn merged_after_action(
    state: Map<VarId, ValidVal>,
    answer: Result<ActionResult, Error>,
) -> Map<VarId, ValidVal> {
    match answer {
        Ok(ActionResult::Finished(data)) => state.union_prefer_right(data@),
        _ => state,
    }
}

/// A step's own action is asked before the action of every step: where a
/// step has its own action, that one is started first, and the action of
/// every step is started for it only after the step's own action answered
/// that it cannot fulfill.
pub proof fn lemma_specific_before_generic(
    step_actions: Map<StepId, ActionId>,
    all: StepId,
    step_id: StepId,
    error: Option<Error>,
    answer: Result<ActionResult, Error>,
)
    requires
        step_actions.contains_key(step_id),
        step_actions.contains_key(all),
    ensures
        state_for_specific(step_actions, step_id, error) == States::StartSpecific(
            step_actions[step_id],
            step_id,
            error,
        ),
        state_after_action(true, step_actions[step_id], step_id, error, answer)
            is GetGenericAction <==> answer matches Ok(ActionResult::CannotFulfill),
        answer matches Ok(ActionResult::CannotFulfill) ==> state_for_generic(
            step_actions,
            all,
            step_id,
            error,
        ) == States::StartGeneric(step_actions[all], step_id, error),
{
}

/// Data that an action finished with and that does not hold a value for
/// exactly the outputs of the step is never merged: the answer is refused
/// with the error for data of the wrong shape, `advance` ends with that
/// error, and the data of the session stays as it was.
pub proof fn lemma_wrong_shape_is_not_merged(
    step: &Step,
    data: StateData,
    specific: bool,
    action_id: ActionId,
    step_id: StepId,
    error: Option<Error>,
    state: Map<VarId, ValidVal>,
)
    requires
        data@.dom() != id_set(step.outputs()),
    ensures
        checked_result(step, Ok(ActionResult::Finished(data))) == Err::<ActionResult, Error>(
            Error::InvalidStateDataError,
        ),
        state_after_action(
            specific,
            action_id,
            step_id,
            error,
            checked_result(step, Ok(ActionResult::Finished(data))),
        ) == States::Done(Err(Error::InvalidStateDataError)),
        merged_after_action(state, checked_result(step, Ok(ActionResult::Finished(data))))
            == state,
{
}

/// Sessions both define a flow and execute it: they hold the steps, the
/// declarations, the actions and the data, and the cursor that walks the
/// steps.
pub struct Session {
    id: SessionId,
    state_data: StateData,
    actions: VecMap<ActionId>,
    step_store: ObjectStore<Step, StepId>,
    action_store: ObjectStore<Box<dyn Action>, ActionId>,
    var_store: ObjectStore<Var, VarId>,
    step_id_all: StepId,
    step_id_root: StepId,
    step_id_dfs: DepthFirstSearch,
}

impl ObjectStoreContent for Session {
    type IdType = SessionId;

    open spec fn id_of(&self) -> SessionId {
        self.session_id()
    }

    fn new_id(id_val: u32) -> (id: SessionId) {
        SessionId::new(id_val)
    }

    fn id(&self) -> (id: &SessionId) {
        &self.id
    }
}

impl Session {
    pub closed spec fn session_id(&self) -> SessionId {
        self.id
    }

    /// The data gathered so far.
    pub closed spec fn state(&self) -> Map<VarId, ValidVal> {
        self.state_data@
    }

    /// The registry of steps.
    pub closed spec fn steps(&self) -> ObjectStore<Step, StepId> {
        self.step_store
    }

    /// The registry of declarations.
    pub closed spec fn vars(&self) -> ObjectStore<Var, VarId> {
        self.var_store
    }

    /// The registry of actions.
    pub closed spec fn action_registry(&self) -> ObjectStore<Box<dyn Action>, ActionId> {
        self.action_store
    }

    /// The action set for each step; the action of every step stands under
    /// `all_step`.
    pub closed spec fn step_actions(&self) -> Map<StepId, ActionId> {
        Map::new(|id: StepId| self.actions@.contains_key(id.0), |id: StepId| self.actions@[id.0])
    }

    /// The synthetic step that stands for every step.
    pub closed spec fn all_step(&self) -> StepId {
        self.step_id_all
    }

    /// The synthetic step that collects the top-level steps.
    pub closed spec fn root_step(&self) -> StepId {
        self.step_id_root
    }

    /// The cursor's path from the root to the current step.
    pub closed spec fn stack(&self) -> Seq<StepId> {
        self.step_id_dfs.stack()
    }

    /// Where the cursor goes next.
    pub closed spec fn direction(&self) -> DFSDirection {
        self.step_id_dfs.direction()
    }

    /// What a call of `advance` works with and leaves as it is.
    pub open spec fn flow(&self) -> Flow {
        Flow {
            steps: self.steps(),
            step_actions: self.step_actions(),
            all: self.all_step(),
            known: self.action_registry().object_map().dom(),
        }
    }

    /// Where the session stands: its data and its cursor.
    pub open spec fn place(&self) -> Place {
        Place { state: self.state(), stack: self.stack(), dir: self.direction() }
    }

    /// The root step is registered.
    pub open spec fn wf(&self) -> bool {
        self.steps().contains(self.root_step())
    }

    /// Everything but the data, the cursor and the actions' own state is
    /// as it was.
    pub open spec fn same_flow(&self, other: &Self) -> bool {
        &&& self.session_id() == other.session_id()
        &&& self.steps() == other.steps()
        &&& self.vars() == other.vars()
        &&& self.step_actions() == other.step_actions()
        &&& self.all_step() == other.all_step()
        &&& self.root_step() == other.root_step()
    }

    /// Create a new `Session`
    pub fn new(id: SessionId) -> (session: Self)
        ensures
            session.wf(),
            session.session_id() == id,
            session.state() == Map::<VarId, ValidVal>::empty(),
            session.step_actions() == Map::<StepId, ActionId>::empty(),
            session.all_step() == StepId(0),
            session.root_step() == StepId(1),
            session.stack() == seq![StepId(1)],
            session.direction() == DFSDirection::Down,
            session.steps().key_seq() == seq![0u32, 1u32],
            session.steps().name_seq() == seq!["STEP_ID_ACTION_ALL"@, "SESSION_ROOT"@],
            session.steps().next_val() == 2,
            session.steps().object(StepId(0)).substeps().len() == 0,
            session.steps().object(StepId(1)).substeps().len() == 0,
            session.vars().key_seq() == Seq::<u32>::empty(),
            session.action_registry().key_seq() == Seq::<u32>::empty(),
            descent_ends(&session.steps()),
    {
        Self::with_capacity(id, 0, 0, 0)
    }

    /// Create a new session with room for the given numbers of
    /// declarations, steps and actions.
    pub fn with_capacity(
        id: SessionId,
        var_capacity: usize,
        step_capacity: usize,
        action_capacity: usize,
    ) -> (session: Self)
        ensures
            session.wf(),
            session.session_id() == id,
            session.state() == Map::<VarId, ValidVal>::empty(),
            session.step_actions() == Map::<StepId, ActionId>::empty(),
            session.all_step() == StepId(0),
            session.root_step() == StepId(1),
            session.stack() == seq![StepId(1)],
            session.direction() == DFSDirection::Down,
            session.steps().key_seq() == seq![0u32, 1u32],
            session.steps().name_seq() == seq!["STEP_ID_ACTION_ALL"@, "SESSION_ROOT"@],
            session.steps().next_val() == 2,
            session.steps().object(StepId(0)).substeps().len() == 0,
            session.steps().object(StepId(1)).substeps().len() == 0,
            session.vars().key_seq() == Seq::<u32>::empty(),
            session.action_registry().key_seq() == Seq::<u32>::empty(),
            descent_ends(&session.steps()),
    {
        // create the step store
        let mut step_store: ObjectStore<Step, StepId> = ObjectStore::with_capacity(step_capacity);
        // the step that the action of every step is registered for
        let step_id_all = step_store.reserve_id();
        proof {
            StepId::id_val_injective(step_id_all, StepId(0));
        }
        let all = step_store.register_named(
            "STEP_ID_ACTION_ALL",
            Step::new(step_id_all, None, Vec::new()),
        );
        // the root step: the first advance goes from it to the first real step
        let step_id_root = step_store.reserve_id();
        proof {
            StepId::id_val_injective(step_id_root, StepId(1));
            reveal_strlit("STEP_ID_ACTION_ALL");
            reveal_strlit("SESSION_ROOT");
            assert("STEP_ID_ACTION_ALL"@.len() != "SESSION_ROOT"@.len());
            assert(!step_store.has_name("SESSION_ROOT"@)) by {
                if step_store.name_seq().contains("SESSION_ROOT"@) {
                    let i = choose|i: int|
                        0 <= i < step_store.name_seq().len() && step_store.name_seq()[i]
                            == "SESSION_ROOT"@;
                    assert(step_store.name_seq()[0] == "STEP_ID_ACTION_ALL"@);
                }
            }
        }
        let root = step_store.register_named(
            "SESSION_ROOT",
            Step::new(step_id_root, None, Vec::new()),
        );
        let session = Session {
            id,
            state_data: StateData::new(),
            actions: VecMap::new(),
            step_store,
            action_store: ObjectStore::with_capacity(action_capacity),
            var_store: ObjectStore::with_capacity(var_capacity),
            step_id_all,
            step_id_root,
            step_id_dfs: DepthFirstSearch::new(step_id_root),
        };
        proof {
            assert(session.step_actions() =~= Map::<StepId, ActionId>::empty());
            assert(session.steps().name_seq() =~= seq!["STEP_ID_ACTION_ALL"@, "SESSION_ROOT"@]);
            let rank = |id: StepId| 0nat;
            assert(ranks_descent(&session.steps(), rank)) by {
                assert forall|id: StepId| #[trigger]
                    crate::dfs::first_child(&session.steps(), id) is None by {
                    if session.steps().contains(id) {
                        assert(id.0 == 0 || id.0 == 1);
                    }
                }
            }
        }
        session
    }

    /// Get the ID of the `Session`
    pub fn id(&self) -> (id: &SessionId)
        ensures
            *id == self.session_id(),
    {
        &self.id
    }

    /// Get the current session data
    pub fn state_data(&self) -> (data: &StateData)
        ensures
            data@ == self.state(),
    {
        &self.state_data
    }

    /// The step that the cursor stands on.
    pub fn current_step(&self) -> (r: Result<&StepId, Error>)
        ensures
            match r {
                Ok(id) => self.stack().len() > 0 && *id == self.stack().last(),
                Err(e) => self.stack().len() == 0 && e == Error::NoStateToEval,
            },
    {
        match self.step_id_dfs.current() {
            Some(id) => Ok(id),
            None => Err(Error::NoStateToEval),
        }
    }

    /// Store for [`Step`]s
    pub fn step_store(&self) -> (store: &ObjectStore<Step, StepId>)
        ensures
            *store == self.steps(),
    {
        &self.step_store
    }

    /// Mutable store for [`Step`]s
    pub fn step_store_mut(&mut self) -> (store: &mut ObjectStore<Step, StepId>)
        ensures
            *store == old(self).steps(),
            final(self).steps() == *final(store),
            final(self).session_id() == old(self).session_id(),
            final(self).state() == old(self).state(),
            final(self).vars() == old(self).vars(),
            final(self).action_registry() == old(self).action_registry(),
            final(self).step_actions() == old(self).step_actions(),
            final(self).all_step() == old(self).all_step(),
            final(self).root_step() == old(self).root_step(),
            final(self).stack() == old(self).stack(),
            final(self).direction() == old(self).direction(),
    {
        &mut self.step_store
    }

    /// Add a registered [`Step`] to the end of the root step
    pub fn push_root_substep(&mut self, step_id: StepId)
        requires
            old(self).wf(),
        ensures
            final(self).steps().name_seq() == old(self).steps().name_seq(),
            final(self).steps().name_id_seq() == old(self).steps().name_id_seq(),
            final(self).steps().next_val() == old(self).steps().next_val(),
            final(self).steps().key_seq() == old(self).steps().key_seq(),
            final(self).steps().object_map().dom() == old(self).steps().object_map().dom(),
            forall|id: StepId|
                id != old(self).root_step()
                    && old(self).steps().contains(id)
                        ==> final(self).steps().object(id) == old(self).steps().object(id),
            final(self).steps().object(old(self).root_step()).substeps()
                == old(self).steps().object(
                old(self).root_step(),
            ).substeps().push(step_id),
            final(self).session_id() == old(self).session_id(),
            final(self).state() == old(self).state(),
            final(self).vars() == old(self).vars(),
            final(self).action_registry() == old(self).action_registry(),
            final(self).step_actions() == old(self).step_actions(),
            final(self).all_step() == old(self).all_step(),
            final(self).root_step() == old(self).root_step(),
            final(self).stack() == old(self).stack(),
            final(self).direction() == old(self).direction(),
    {
        let root = self.step_id_root;
        match self.step_store.get_mut(&root) {
            Some(root_step) => {
                root_step.push_substep(step_id);
            },
            None => {},
        }
        proof {
            assert(final(self).step_store.object_map().dom() =~= old(self).step_store.object_map().dom());
        }
    }

    /// Store for [`Action`]s
    pub fn action_store(&self) -> (store: &ObjectStore<Box<dyn Action>, ActionId>)
        ensures
            *store == self.action_registry(),
    {
        &self.action_store
    }

    /// Mutable store for [`Action`]s
    pub fn action_store_mut(&mut self) -> (store: &mut ObjectStore<Box<dyn Action>, ActionId>)
        ensures
            *store == old(self).action_registry(),
            final(self).action_registry() == *final(store),
            final(self).session_id() == old(self).session_id(),
            final(self).state() == old(self).state(),
            final(self).vars() == old(self).vars(),
            final(self).steps() == old(self).steps(),
            final(self).step_actions() == old(self).step_actions(),
            final(self).all_step() == old(self).all_step(),
            final(self).root_step() == old(self).root_step(),
            final(self).stack() == old(self).stack(),
            final(self).direction() == old(self).direction(),
    {
        &mut self.action_store
    }

    /// Store for [`Var`]s
    pub fn var_store(&self) -> (store: &ObjectStore<Var, VarId>)
        ensures
            *store == self.vars(),
    {
        &self.var_store
    }

    /// Mutable store for [`Var`]s
    pub fn var_store_mut(&mut self) -> (store: &mut ObjectStore<Var, VarId>)
        ensures
            *store == old(self).vars(),
            final(self).vars() == *final(store),
            final(self).session_id() == old(self).session_id(),
            final(self).state() == old(self).state(),
            final(self).steps() == old(self).steps(),
            final(self).action_registry() == old(self).action_registry(),
            final(self).step_actions() == old(self).step_actions(),
            final(self).all_step() == old(self).all_step(),
            final(self).root_step() == old(self).root_step(),
            final(self).stack() == old(self).stack(),
            final(self).direction() == old(self).direction(),
    {
        &mut self.var_store
    }

    /// Set the [`Action`] for a [`Step`]
    ///
    /// If `step_id` is None, it is set as the action of every step. The
    /// step's own action is started first, and the action of every step
    /// after it, if the step's own cannot fulfill.
    pub fn set_action_for_step(&mut self, action_id: ActionId, step_id: Option<&StepId>) -> (r:
        Result<(), Error>)
        ensures
            final(self).session_id() == old(self).session_id(),
            final(self).state() == old(self).state(),
            final(self).steps() == old(self).steps(),
            final(self).vars() == old(self).vars(),
            final(self).action_registry() == old(self).action_registry(),
            final(self).all_step() == old(self).all_step(),
            final(self).root_step() == old(self).root_step(),
            final(self).stack() == old(self).stack(),
            final(self).direction() == old(self).direction(),
            ({
                let step = match step_id {
                    Some(id) => *id,
                    None => old(self).all_step(),
                };
                if old(self).step_actions().contains_key(step) {
                    r == Err::<(), Error>(Error::StepId(IdError::IdAlreadyExists(step)))
                        && final(self).step_actions() == old(self).step_actions()
                } else {
                    r == Ok::<(), Error>(())
                        && final(self).step_actions()
                            == old(self).step_actions().insert(step, action_id)
                }
            }),
    {
        let step_id_use = match step_id {
            Some(id) => *id,
            None => self.step_id_all,
        };
        if self.actions.contains_key(step_id_use.0) {
            return Err(Error::StepId(IdError::IdAlreadyExists(step_id_use)));
        }
        self.actions.insert(step_id_use.0, action_id);
        proof {
            assert(final(self).step_actions() =~= old(self).step_actions().insert(
                step_id_use,
                action_id,
            ));
        }
        Ok(())
    }

    /// What `try_enter_next_step` does with the output it is given: output
    /// for a step that is not the current one is refused, and so is output
    /// when there is no current step.
    pub open spec fn output_refused(&self, step_output: Option<(&StepId, StateData)>) -> Option<
        Error,
    > {
        match step_output {
            None => None,
            Some((step_id, _)) => if self.stack().len() == 0 {
                Some(Error::NoStateToEval)
            } else if self.stack().last() != *step_id {
                Some(Error::StepId(IdError::IdUnexpected(*step_id)))
            } else {
                None
            },
        }
    }

    /// The data after the output given was merged in.
    pub open spec fn state_with_output(&self, step_output: Option<(&StepId, StateData)>) -> Map<
        VarId,
        ValidVal,
    > {
        match step_output {
            None => self.state(),
            Some((_, data)) => self.state().union_prefer_right(data@),
        }
    }

    /// Merges the output of the current step, if any is given, and moves
    /// the cursor to the next step that the data lets it reach.
    ///
    /// Output that names another step than the current one is refused and
    /// nothing changes. Output that is accepted stays merged whatever the
    /// cursor does.
    pub fn try_enter_next_step(&mut self, step_output: Option<(&StepId, StateData)>) -> (r: Result<
        Option<StepId>,
        Error,
    >)
        requires
            descent_ends(&old(self).steps()),
        ensures
            final(self).same_flow(old(self)),
            final(self).action_registry() == old(self).action_registry(),
            match old(self).output_refused(step_output) {
                Some(e) => r == Err::<Option<StepId>, Error>(e)
                    && final(self).state() == old(self).state()
                    && final(self).stack() == old(self).stack()
                    && final(self).direction()
                    == old(self).direction(),
                None => final(self).state() == old(self).state_with_output(step_output)
                    && next_outcome(
                    &old(self).steps(),
                    enter_guard(&old(self).steps(), final(self).state()),
                    exit_guard(&old(self).steps(), final(self).state()),
                    old(self).stack(),
                    old(self).direction(),
                    final(self).stack(),
                    final(self).direction(),
                    r,
                ),
            },
    {
        if let Some(output) = step_output {
            // make sure we're updating the right state
            match self.step_id_dfs.current() {
                None => {
                    return Err(Error::NoStateToEval);
                },
                Some(current) => {
                    if current.0 != output.0.0 {
                        return Err(Error::StepId(IdError::IdUnexpected(*output.0)));
                    }
                },
            }
            // merge the new inputs in first. best to not lose this even if the rest fails
            self.state_data.merge_from(output.1);
        }
        let state_data = &self.state_data;
        let step_store = &self.step_store;
        let can_enter = |step_id: &StepId| -> (r: Result<(), Error>)
            ensures
                r == enter_guard(step_store, state_data@)(*step_id),
            {
                match step_store.get(step_id) {
                    None => Err(Error::StepId(IdError::IdMissing(*step_id))),
                    Some(step) => match step.can_enter(state_data) {
                        Ok(()) => Ok(()),
                        Err(e) => Err(Error::VarId(e)),
                    },
                }
            };
        let can_exit = |step_id: &StepId| -> (r: Result<(), Error>)
            ensures
                r == exit_guard(step_store, state_data@)(*step_id),
            {
                match step_store.get(step_id) {
                    None => Err(Error::StepId(IdError::IdMissing(*step_id))),
                    Some(step) => match step.can_exit(state_data) {
                        Ok(()) => Ok(()),
                        Err(e) => Err(Error::VarId(e)),
                    },
                }
            };
        self.step_id_dfs.next(can_enter, can_exit, &self.step_store)
    }

    /// A session with one step, named `root_step`, below the root: the
    /// session and the identity of that step.
    pub fn test_new(id: SessionId) -> (r: (Session, StepId))
        ensures
            r.0.wf(),
            r.0.session_id() == id,
            r.1 == StepId(2),
            r.0.steps().key_seq() == seq![0u32, 1u32, 2u32],
            r.0.steps().object(r.0.root_step()).substeps() == seq![r.1],
            r.0.steps().object(r.1).substeps().len() == 0,
            r.0.stack() == seq![r.0.root_step()],
            r.0.direction() == DFSDirection::Down,
    {
        let mut session = Session::new(id);
        let store = session.step_store_mut();
        let root_step_id = store.reserve_id();
        proof {
            use_type_invariant(&*store);
            StepId::id_val_injective(root_step_id, StepId(2));
            reveal_strlit("STEP_ID_ACTION_ALL");
            reveal_strlit("SESSION_ROOT");
            reveal_strlit("root_step");
            assert(!store.has_name("root_step"@)) by {
                if store.name_seq().contains("root_step"@) {
                    let i = choose|i: int|
                        0 <= i < store.name_seq().len() && store.name_seq()[i] == "root_step"@;
                    assert(store.name_seq()[i].len() != "root_step"@.len());
                }
            }
            assert(!store.contains(root_step_id)) by {
                if store.object_map().contains_key(2u32) {
                    store.lemma_keys();
                    let i = choose|i: int| 0 <= i < store.key_seq().len()
                        && store.key_seq()[i] == 2u32;
                }
            }
        }
        let _ = store.register_named("root_step", Step::new(root_step_id, None, Vec::new()));
        proof {
            use_type_invariant(&*store);
            store.lemma_keys();
            assert(store.contains(StepId(1)));
        }
        session.push_root_substep(root_step_id);
        (session, root_step_id)
    }

    /// Registers a declaration of a string under `var_id`, which must be
    /// free.
    pub fn test_new_stringvar(&mut self, var_id: VarId) -> (id: VarId)
        requires
            !old(self).vars().contains(var_id),
        ensures
            id == var_id,
            final(self).vars().contains(var_id),
            final(self).vars().object(var_id) == Var::String(crate::var::StringVar { id: var_id }),
            final(self).session_id() == old(self).session_id(),
            final(self).state() == old(self).state(),
            final(self).steps() == old(self).steps(),
            final(self).action_registry() == old(self).action_registry(),
            final(self).step_actions() == old(self).step_actions(),
            final(self).all_step() == old(self).all_step(),
            final(self).root_step() == old(self).root_step(),
            final(self).stack() == old(self).stack(),
            final(self).direction() == old(self).direction(),
    {
        let var = crate::var::StringVar::new(var_id);
        let _ = self.var_store.register(var.boxed());
        var_id
    }

    /// Starts an action for a step and holds its answer against what the
    /// step declares.
    ///
    /// The action sees the data and the declarations only as far as the
    /// step names them as input or output. Whatever the action answers,
    /// data that comes back as finished holds a value for exactly the
    /// outputs of the step.
    pub fn call_action(&mut self, action_id: &ActionId, step_id: &StepId) -> (r: Result<
        ActionResult,
        Error,
    >)
        ensures
            final(self).same_flow(old(self)),
            final(self).state() == old(self).state(),
            final(self).stack() == old(self).stack(),
            final(self).direction() == old(self).direction(),
            final(self).action_registry().key_seq() == old(self).action_registry().key_seq(),
            final(self).action_registry().name_seq() == old(self).action_registry().name_seq(),
            final(self).action_registry().object_map().dom()
                == old(self).action_registry().object_map().dom(),
            !old(self).steps().contains(*step_id) ==> r == Err::<ActionResult, Error>(
                Error::StepId(IdError::IdMissing(*step_id)),
            ) && final(self).action_registry() == old(self).action_registry(),
            old(self).steps().contains(*step_id) && !old(self).action_registry().contains(
                *action_id,
            ) ==> r == Err::<ActionResult, Error>(Error::ActionId(IdError::IdMissing(*action_id)))
                && final(self).action_registry() == old(self).action_registry(),
            old(self).steps().contains(*step_id) && old(self).action_registry().contains(
                *action_id,
            ) ==> exists|answer: Result<ActionResult, ActionError>|
                r == checked_result(&old(self).steps().object(*step_id), answer),
            r matches Ok(ActionResult::Finished(data)) ==> data@.dom() == id_set(
                old(self).steps().object(*step_id).outputs(),
            ),
    {
        let step = match self.step_store.get(step_id) {
            Some(step) => step,
            None => {
                return Err(Error::StepId(IdError::IdMissing(*step_id)));
            },
        };
        let step_name = self.step_store.name_from_id(step_id);
        let step_data = StateDataFiltered::new(&self.state_data, get_step_input_output_vars(step));
        let vars = ObjectStoreFiltered::new(&self.var_store, get_step_input_output_vars(step));
        // call it
        let action = match self.action_store.get_mut(action_id) {
            Some(action) => action,
            None => {
                return Err(Error::ActionId(IdError::IdMissing(*action_id)));
            },
        };
        let answer = action.start(step, step_name, &step_data, &vars);
        let ghost seen = answer;
        let r = check_action_result(step, answer);
        proof {
            assert(r == checked_result(&old(self).steps().object(*step_id), seen));
            assert(final(self).action_registry().object_map().dom() =~= old(self).action_registry().object_map().dom());
        }
        r
    }

    /// Where `advance` goes after it moved the cursor: see
    /// [`state_after_advance`].
    pub fn after_advance(&self, moved: Result<Option<StepId>, Error>) -> (next: States)
        ensures
            next == state_after_advance(moved, self.stack()),
    {
        match moved {
            Ok(Some(step_id)) => States::GetSpecificAction(step_id, None),
            Ok(None) => States::Done(Ok(AdvanceBlockedOn::FinishedAdvancing)),
            Err(err) => match self.current_step() {
                Err(e) => States::Done(Err(e)),
                Ok(step_id) => States::GetSpecificAction(*step_id, Some(err)),
            },
        }
    }

    /// Where `advance` goes when it looks for the action of a step: see
    /// [`state_for_specific`].
    pub fn resolve_specific(&self, step_id: StepId, error: Option<Error>) -> (next: States)
        ensures
            next == state_for_specific(self.step_actions(), step_id, error),
    {
        match self.actions.get(step_id.0) {
            Some(action_id) => States::StartSpecific(*action_id, step_id, error),
            None => States::GetGenericAction(step_id, error),
        }
    }

    /// Where `advance` goes when it looks for the action of every step:
    /// see [`state_for_generic`].
    pub fn resolve_generic(&self, step_id: StepId, error: Option<Error>) -> (next: States)
        ensures
            next == state_for_generic(self.step_actions(), self.all_step(), step_id, error),
    {
        match self.actions.get(self.step_id_all.0) {
            Some(action_id) => States::StartGeneric(*action_id, step_id, error),
            None => match error {
                None => States::AdvanceStep,
                Some(err) => States::Done(Err(err)),
            },
        }
    }

    /// Takes the answer of an action: data that the action finished with
    /// is merged, and `advance` goes where [`state_after_action`] says. An
    /// answer that is an error leaves the data as it was.
    pub fn after_action(
        &mut self,
        specific: bool,
        action_id: ActionId,
        step_id: StepId,
        error: Option<Error>,
        answer: Result<ActionResult, Error>,
    ) -> (next: States)
        ensures
            final(self).same_flow(old(self)),
            final(self).action_registry() == old(self).action_registry(),
            final(self).stack() == old(self).stack(),
            final(self).direction() == old(self).direction(),
            final(self).state() == merged_after_action(old(self).state(), answer),
            next == state_after_action(specific, action_id, step_id, error, answer),
    {
        match answer {
            Err(e) => States::Done(Err(e)),
            Ok(ActionResult::StartWith(val)) => States::Done(
                Ok(AdvanceBlockedOn::ActionStartWith(action_id, val)),
            ),
            Ok(ActionResult::Finished(state_data)) => {
                // merge the new data and see if we can keep advancing
                self.state_data.merge_from_ref(&state_data);
                States::AdvanceStep
            },
            Ok(ActionResult::CannotFulfill) => {
                if specific {
                    // couldn't fulfill specific action, try generic one
                    States::GetGenericAction(step_id, error)
                } else {
                    // couldn't fulfill generic one -- nothing else we can do
                    States::Done(Ok(AdvanceBlockedOn::ActionCannotFulfill))
                }
            },
        }
    }

    /// Main function for advancing the flow to the next step.
    ///
    /// `step_output` is what the current step generated. It is merged with
    /// the data before the cursor moves. Output that names another step
    /// than the current one is refused: the call fails and changes nothing.
    ///
    /// Advancing tries to get as far as it can until something blocks it:
    /// - Move the cursor to the next step. Whether or not that worked:
    /// - Start the current step's own action
    /// - If it has none or that one cannot fulfill, start the action of every step
    /// - If the action finished, merge its data and go on; else the call is over
    ///
    /// One call makes at most [`MAX_ADVANCE_MOVES`] such moves and fails
    /// with [`Error::Other`] after that.
    ///
    /// What the call does is told by [`advance_run`]: for some answers of
    /// the actions that it started, it is the run with those answers.
    #[verifier::rlimit(50)]
    pub fn advance(&mut self, step_output: Option<(&StepId, StateData)>) -> (r: Result<
        AdvanceBlockedOn,
        Error,
    >)
        requires
            descent_ends(&old(self).steps()),
        ensures
            final(self).same_flow(old(self)),
            final(self).action_registry().key_seq() == old(self).action_registry().key_seq(),
            final(self).action_registry().name_seq() == old(self).action_registry().name_seq(),
            old(self).output_refused(step_output) matches Some(e) ==> r == Err::<
                AdvanceBlockedOn,
                Error,
            >(e)
                && final(self).state() == old(self).state()
                && final(self).stack() == old(self).stack()
                && final(self).direction() == old(self).direction()
                && final(self).action_registry() == old(self).action_registry(),
            old(self).output_refused(step_output) is None ==> exists|
                answers: Seq<Result<ActionResult, Error>>,
                turns: Seq<Turn>,
            |
                #[trigger] advance_run(
                    old(self).flow(),
                    Place {
                        state: old(self).state_with_output(step_output),
                        stack: old(self).stack(),
                        dir: old(self).direction(),
                    },
                    answers,
                    turns,
                    final(self).place(),
                    r,
                ),
            old(self).output_refused(step_output) is None ==> old(self).state_with_output(
                step_output,
            ).dom().subset_of(final(self).state().dom()),
            old(self).direction() == DFSDirection::Done && step_output is None ==> r == Ok::<
                AdvanceBlockedOn,
                Error,
            >(AdvanceBlockedOn::FinishedAdvancing) && final(self).state() == old(self).state()
                && final(self).stack() == old(self).stack() && final(self).direction()
                == DFSDirection::Done
                    && final(self).action_registry() == old(self).action_registry(),
            r == Ok::<AdvanceBlockedOn, Error>(AdvanceBlockedOn::FinishedAdvancing)
                ==> final(self).direction() == DFSDirection::Done,
            r matches Ok(AdvanceBlockedOn::ActionStartWith(action_id, _)) ==> action_is_set(
                old(self).step_actions(),
                action_id,
            ),
            r == Ok::<AdvanceBlockedOn, Error>(AdvanceBlockedOn::ActionCannotFulfill)
                ==> old(self).step_actions().contains_key(old(self).all_step()),
            old(self).step_actions().dom() == Set::<StepId>::empty()
                ==> final(self).action_registry() == old(self).action_registry()
                && (r is Ok ==> r == Ok::<
                AdvanceBlockedOn,
                Error,
            >(AdvanceBlockedOn::FinishedAdvancing)),
    {
        if let Some(output) = &step_output {
            match self.step_id_dfs.current() {
                None => {
                    return Err(Error::NoStateToEval);
                },
                Some(current) => {
                    if current.0 != output.0.0 {
                        return Err(Error::StepId(IdError::IdUnexpected(*output.0)));
                    }
                },
            }
        }
        // generally we're trying to advance as much as possible without user interaction:
        // loop until we get to a blocking state
        let ghost flow = self.flow();
        let ghost start = Place {
            state: self.state_with_output(step_output),
            stack: self.stack(),
            dir: self.direction(),
        };
        let ghost was_done = self.direction() == DFSDirection::Done && step_output is None;
        let ghost mut pristine = true;
        let ghost mut used: Seq<Result<ActionResult, Error>> = Seq::empty();
        let ghost mut turned_so_far: Seq<Turn> = Seq::empty();
        let mut pending = step_output;
        let mut state = States::AdvanceStep;
        let mut moves: u64 = MAX_ADVANCE_MOVES;
        proof {
            lemma_carries_start(flow, start);
        }
        loop
            invariant
                self.same_flow(old(self)),
                descent_ends(&self.steps()),
                flow == old(self).flow(),
                flow.known == self.action_registry().object_map().dom(),
                start.state == old(self).state_with_output(step_output),
                start.stack == old(self).stack(),
                start.dir == old(self).direction(),
                self.action_registry().key_seq() == old(self).action_registry().key_seq(),
                self.action_registry().name_seq() == old(self).action_registry().name_seq(),
                old(self).output_refused(step_output) is None,
                was_done == (old(self).direction() == DFSDirection::Done && step_output is None),
                pristine ==> moves == MAX_ADVANCE_MOVES && state is AdvanceStep && pending
                    == step_output
                        && self.state() == old(self).state()
                        && self.stack() == old(self).stack()
                        && self.direction() == old(self).direction()
                        && self.action_registry()
                    == old(self).action_registry(),
                !pristine ==> pending is None && start.state.dom().subset_of(self.state().dom()),
                carries(
                    flow,
                    start,
                    used,
                    turned_so_far,
                    if pristine {
                        start
                    } else {
                        self.place()
                    },
                    state,
                    moves as nat,
                ),
                was_done && !pristine ==> state == States::Done(
                    Ok(AdvanceBlockedOn::FinishedAdvancing),
                ) && self.state() == old(self).state() && self.stack() == old(self).stack()
                        && self.direction() == old(self).direction()
                        && self.action_registry() == old(self).action_registry(),
                state == States::Done(Ok(AdvanceBlockedOn::FinishedAdvancing)) ==> self.direction()
                    == DFSDirection::Done,
                state_fits(self.step_actions(), self.all_step(), state),
                old(self).step_actions().dom() == Set::<StepId>::empty() ==> self.action_registry()
                    == old(self).action_registry(),
            decreases moves,
        {
            let ghost at = state;
            let ghost place = if pristine {
                start
            } else {
                self.place()
            };
            let ghost mut taken: Seq<Result<ActionResult, Error>> = Seq::empty();
            let ghost mut turned: Seq<Turn> = Seq::empty();
            let next = match state {
                States::Done(result) => {
                    proof {
                        lemma_carries_end(
                            flow,
                            start,
                            used,
                            turned_so_far,
                            place,
                            result,
                            moves as nat,
                        );
                    }
                    return result;
                },
                States::AdvanceStep => {
                    let output = pending.take();
                    let advance_result = self.try_enter_next_step(output);
                    proof {
                        pristine = false;
                        let turn = Turn {
                            stack: self.stack(),
                            dir: self.direction(),
                            moved: advance_result,
                        };
                        turned = seq![turn];
                        assert(cursor_moves(flow, place, turn)) by {
                            reveal(cursor_moves);
                        }
                        lemma_finished_is_done(
                            &self.steps(),
                            enter_guard(&self.steps(), self.state()),
                            exit_guard(&self.steps(), self.state()),
                            place.stack,
                            place.dir,
                            self.stack(),
                            self.direction(),
                            advance_result,
                        );
                    }
                    self.after_advance(advance_result)
                },
                States::GetSpecificAction(step_id, error) => self.resolve_specific(step_id, error),
                States::GetGenericAction(step_id, error) => self.resolve_generic(step_id, error),
                States::StartSpecific(action_id, step_id, error_opt) => {
                    let action_result = self.call_action(&action_id, &step_id);
                    proof {
                        taken = seq![action_result];
                        assert(answer_fits(flow, action_id, step_id, action_result)) by {
                            reveal(answer_fits);
                        }
                    }
                    self.after_action(true, action_id, step_id, error_opt, action_result)
                },
                States::StartGeneric(action_id, step_id, error_opt) => {
                    let action_result = self.call_action(&action_id, &step_id);
                    proof {
                        taken = seq![action_result];
                        assert(answer_fits(flow, action_id, step_id, action_result)) by {
                            reveal(answer_fits);
                        }
                    }
                    self.after_action(false, action_id, step_id, error_opt, action_result)
                },
            };
            proof {
                assert(is_move(flow, place, at, taken, turned, self.place(), next));
                lemma_carries_on(
                    flow,
                    start,
                    used,
                    turned_so_far,
                    place,
                    at,
                    moves as nat,
                    taken,
                    turned,
                    self.place(),
                    next,
                );
                used = used + taken;
                turned_so_far = turned_so_far + turned;
            }
            if moves == 0 {
                return Err(Error::Other);
            }
            moves = moves - 1;
            state = next;
        }
    }
}

/// A call of `next` that finds no further step leaves the cursor done, and
/// a cursor that is done stays as it is.
pub proof fn lemma_finished_is_done(
    store: &ObjectStore<Step, StepId>,
    enter: spec_fn(StepId) -> Result<(), Error>,
    exit: spec_fn(StepId) -> Result<(), Error>,
    stack: Seq<StepId>,
    from: DFSDirection,
    post: Seq<StepId>,
    dir: DFSDirection,
    r: Result<Option<StepId>, Error>,
)
    requires
        next_outcome(store, enter, exit, stack, from, post, dir, r),
    ensures
        r == Ok::<Option<StepId>, Error>(None) ==> dir == DFSDirection::Done,
        from == DFSDirection::Done ==> r == Ok::<Option<StepId>, Error>(None)
            && post == stack
            && dir
            == DFSDirection::Done,
{
    if r == Ok::<Option<StepId>, Error>(None) && from == DFSDirection::SiblingOrUp {
        let up = choose|up: int| crate::dfs::up_outcome_by(store, enter, exit, stack, up, post, dir, r);
    }
}

} // verus!
