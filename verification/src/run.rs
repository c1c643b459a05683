use crate::action::ActionResult;
use crate::dfs::{next_outcome, DFSDirection};
use crate::errors::{ActionError, Error, IdError};
use crate::id::{ActionId, StepId, VarId};
use crate::object_store::ObjectStore;
use crate::session::{
    checked_result, enter_guard, exit_guard, merged_after_action, state_after_action,
    state_after_advance, state_for_generic, state_for_specific, AdvanceBlockedOn, States,
    MAX_ADVANCE_MOVES,
};
use crate::statedata::ValidVal;
use crate::step::Step;
use vstd::prelude::*;

verus! {

/// What a call of `advance` works with and leaves as it is: the steps,
/// the action set for each step, the step that stands for every step, and
/// the numbers of the actions that are registered.
pub struct Flow {
    pub steps: ObjectStore<Step, StepId>,
    pub step_actions: Map<StepId, ActionId>,
    pub all: StepId,
    pub known: Set<u32>,
}

/// Where a call of `advance` stands: the data, and the stack and direction
/// of the cursor.
pub struct Place {
    pub state: Map<VarId, ValidVal>,
    pub stack: Seq<StepId>,
    pub dir: DFSDirection,
}

/// One move of the cursor as it turned out: the stack and the direction
/// that it left, and what it returned.
pub struct Turn {
    pub stack: Seq<StepId>,
    pub dir: DFSDirection,
    pub moved: Result<Option<StepId>, Error>,
}

/// The cursor moves from `place` as [`next_outcome`] says for the guards
/// that the data makes of the steps.
#[verifier::opaque]
pub open spec fn cursor_moves(flow: Flow, place: Place, turn: Turn) -> bool {
    next_outcome(
        &flow.steps,
        enter_guard(&flow.steps, place.state),
        exit_guard(&flow.steps, place.state),
        place.stack,
        place.dir,
        turn.stack,
        turn.dir,
        turn.moved,
    )
}

/// The answer of an action as `call_action` hands it on: for a step or an
/// action that is not registered it is the error for the missing one, and
/// else it is what the engine makes of some answer of the action.
#[verifier::opaque]
pub open spec fn answer_fits(
    flow: Flow,
    action_id: ActionId,
    step_id: StepId,
    answer: Result<ActionResult, Error>,
) -> bool {
    if !flow.steps.contains(step_id) {
        answer == Err::<ActionResult, Error>(Error::StepId(IdError::IdMissing(step_id)))
    } else if !flow.known.contains(action_id.0) {
        answer == Err::<ActionResult, Error>(Error::ActionId(IdError::IdMissing(action_id)))
    } else {
        exists|raw: Result<ActionResult, ActionError>|
            answer == #[trigger] checked_result(&flow.steps.object(step_id), raw)
    }
}

/// The place after the cursor turned.
pub open spec fn after_turn(place: Place, turn: Turn) -> Place {
    Place { state: place.state, stack: turn.stack, dir: turn.dir }
}

/// The place after an action answered: its data is merged.
pub open spec fn after_answer(place: Place, answer: Result<ActionResult, Error>) -> Place {
    Place {
        state: merged_after_action(place.state, answer),
        stack: place.stack,
        dir: place.dir,
    }
}

/// A call of `advance`, told as a run of its moves.
///
/// The run starts in the state `at` at `place` and has `moves` moves left.
/// `answers` are what the actions that it starts answer, and `turns` how
/// the moves of the cursor turn out, each in the order in which they
/// happen. The run ends with the result `r` at the place `end`.
///
/// Each move does what the state says: the cursor moves as
/// [`next_outcome`] says for the guards of the data, an action is looked
/// up, or the next answer is taken and its data merged. A state that is
/// done ends the run with its result. A run that has no move left after a
/// move ends with `Error::Other`.
pub open spec fn runs_to(
    flow: Flow,
    place: Place,
    at: States,
    answers: Seq<Result<ActionResult, Error>>,
    turns: Seq<Turn>,
    moves: nat,
    end: Place,
    r: Result<AdvanceBlockedOn, Error>,
) -> bool
    decreases moves, 1nat,
{
    match at {
        States::Done(result) => answers.len() == 0 && turns.len() == 0 && r == result && end
            == place,
        States::AdvanceStep => turns.len() > 0 && cursor_moves(flow, place, turns[0]) && runs_on(
            flow,
            after_turn(place, turns[0]),
            state_after_advance(turns[0].moved, turns[0].stack),
            answers,
            turns.skip(1),
            moves,
            end,
            r,
        ),
        States::GetSpecificAction(step_id, error) => runs_on(
            flow,
            place,
            state_for_specific(flow.step_actions, step_id, error),
            answers,
            turns,
            moves,
            end,
            r,
        ),
        States::GetGenericAction(step_id, error) => runs_on(
            flow,
            place,
            state_for_generic(flow.step_actions, flow.all, step_id, error),
            answers,
            turns,
            moves,
            end,
            r,
        ),
        States::StartSpecific(action_id, step_id, error) => answers.len() > 0 && answer_fits(
            flow,
            action_id,
            step_id,
            answers[0],
        ) && runs_on(
            flow,
            after_answer(place, answers[0]),
            state_after_action(true, action_id, step_id, error, answers[0]),
            answers.skip(1),
            turns,
            moves,
            end,
            r,
        ),
        States::StartGeneric(action_id, step_id, error) => answers.len() > 0 && answer_fits(
            flow,
            action_id,
            step_id,
            answers[0],
        ) && runs_on(
            flow,
            after_answer(place, answers[0]),
            state_after_action(false, action_id, step_id, error, answers[0]),
            answers.skip(1),
            turns,
            moves,
            end,
            r,
        ),
    }
}

/// How a run goes on after a move: it ends with `Error::Other` where no
/// move is left, and else runs on from the state that the move led to.
pub open spec fn runs_on(
    flow: Flow,
    place: Place,
    at: States,
    answers: Seq<Result<ActionResult, Error>>,
    turns: Seq<Turn>,
    moves: nat,
    end: Place,
    r: Result<AdvanceBlockedOn, Error>,
) -> bool
    decreases moves, 0nat,
{
    if moves == 0 {
        answers.len() == 0 && turns.len() == 0 && r == Err::<AdvanceBlockedOn, Error>(Error::Other)
            && end == place
    } else {
        runs_to(flow, place, at, answers, turns, (moves - 1) as nat, end, r)
    }
}

/// A whole call of `advance`: the run from `AdvanceStep` with all the
/// moves that a call may make.
#[verifier::opaque]
pub open spec fn advance_run(
    flow: Flow,
    start: Place,
    answers: Seq<Result<ActionResult, Error>>,
    turns: Seq<Turn>,
    end: Place,
    r: Result<AdvanceBlockedOn, Error>,
) -> bool {
    runs_to(flow, start, States::AdvanceStep, answers, turns, MAX_ADVANCE_MOVES as nat, end, r)
}

/// One move of `advance`: from the state `at` at `place` it takes the
/// answers `taken`, which is one answer where an action is started and
/// none otherwise, and the turns `turned`, which is one turn where the
/// cursor moves and none otherwise. It leads to the state `next` at
/// `place2`.
pub open spec fn is_move(
    flow: Flow,
    place: Place,
    at: States,
    taken: Seq<Result<ActionResult, Error>>,
    turned: Seq<Turn>,
    place2: Place,
    next: States,
) -> bool {
    match at {
        States::Done(_) => false,
        States::AdvanceStep => taken.len() == 0 && turned.len() == 1 && cursor_moves(
            flow,
            place,
            turned[0],
        ) && place2 == after_turn(place, turned[0]) && next == state_after_advance(
            turned[0].moved,
            turned[0].stack,
        ),
        States::GetSpecificAction(step_id, error) => taken.len() == 0 && turned.len() == 0
            && place2 == place && next == state_for_specific(flow.step_actions, step_id, error),
        States::GetGenericAction(step_id, error) => taken.len() == 0 && turned.len() == 0 && place2
            == place && next == state_for_generic(flow.step_actions, flow.all, step_id, error),
        States::StartSpecific(action_id, step_id, error) => taken.len() == 1 && turned.len() == 0
            && answer_fits(flow, action_id, step_id, taken[0]) && place2 == after_answer(
            place,
            taken[0],
        ) && next == state_after_action(true, action_id, step_id, error, taken[0]),
        States::StartGeneric(action_id, step_id, error) => taken.len() == 1 && turned.len() == 0
            && answer_fits(flow, action_id, step_id, taken[0]) && place2 == after_answer(
            place,
            taken[0],
        ) && next == state_after_action(false, action_id, step_id, error, taken[0]),
    }
}

/// A move of `advance` is a move of a run: where the run goes on from the
/// state that the move led to, it is a run from the state before the move
/// that takes the answers and the turns of the move first.
pub proof fn lemma_move(
    flow: Flow,
    place: Place,
    at: States,
    taken: Seq<Result<ActionResult, Error>>,
    turned: Seq<Turn>,
    place2: Place,
    next: States,
    rest: Seq<Result<ActionResult, Error>>,
    rest_turns: Seq<Turn>,
    moves: nat,
    end: Place,
    r: Result<AdvanceBlockedOn, Error>,
)
    requires
        is_move(flow, place, at, taken, turned, place2, next),
        runs_on(flow, place2, next, rest, rest_turns, moves, end, r),
    ensures
        runs_to(flow, place, at, taken + rest, turned + rest_turns, moves, end, r),
{
    if taken.len() == 0 {
        assert(taken + rest =~= rest);
    } else {
        assert((taken + rest)[0] == taken[0]);
        assert((taken + rest).skip(1) =~= rest);
    }
    if turned.len() == 0 {
        assert(turned + rest_turns =~= rest_turns);
    } else {
        assert((turned + rest_turns)[0] == turned[0]);
        assert((turned + rest_turns).skip(1) =~= rest_turns);
    }
}

/// Every run from the state `at` at `place` with `moves` moves left is the
/// end of a whole run of `advance` from `start` that took the answers
/// `used` and the turns `turned_so_far` before.
pub open spec fn carries(
    flow: Flow,
    start: Place,
    used: Seq<Result<ActionResult, Error>>,
    turned_so_far: Seq<Turn>,
    place: Place,
    at: States,
    moves: nat,
) -> bool {
    forall|
        rest: Seq<Result<ActionResult, Error>>,
        rest_turns: Seq<Turn>,
        end: Place,
        r: Result<AdvanceBlockedOn, Error>,
    | #[trigger]
        runs_to(flow, place, at, rest, rest_turns, moves, end, r) ==> advance_run(
            flow,
            start,
            used + rest,
            turned_so_far + rest_turns,
            end,
            r,
        )
}

/// At the start of a call every run is a whole run.
pub proof fn lemma_carries_start(flow: Flow, start: Place)
    ensures
        carries(
            flow,
            start,
            Seq::empty(),
            Seq::empty(),
            start,
            States::AdvanceStep,
            MAX_ADVANCE_MOVES as nat,
        ),
{
    reveal(advance_run);
    assert forall|
        rest: Seq<Result<ActionResult, Error>>,
        rest_turns: Seq<Turn>,
        end: Place,
        r: Result<AdvanceBlockedOn, Error>,
    | #[trigger]
        runs_to(
            flow,
            start,
            States::AdvanceStep,
            rest,
            rest_turns,
            MAX_ADVANCE_MOVES as nat,
            end,
            r,
        ) implies advance_run(
        flow,
        start,
        Seq::<Result<ActionResult, Error>>::empty() + rest,
        Seq::<Turn>::empty() + rest_turns,
        end,
        r,
    ) by {
        assert(Seq::<Result<ActionResult, Error>>::empty() + rest =~= rest);
        assert(Seq::<Turn>::empty() + rest_turns =~= rest_turns);
    }
}

/// After a move with moves left, every run from the state that the move
/// led to is the end of a whole run; a move with no move left ends a whole
/// run with `Error::Other`.
pub proof fn lemma_carries_on(
    flow: Flow,
    start: Place,
    used: Seq<Result<ActionResult, Error>>,
    turned_so_far: Seq<Turn>,
    place: Place,
    at: States,
    moves: nat,
    taken: Seq<Result<ActionResult, Error>>,
    turned: Seq<Turn>,
    place2: Place,
    next: States,
)
    requires
        carries(flow, start, used, turned_so_far, place, at, moves),
        is_move(flow, place, at, taken, turned, place2, next),
    ensures
        moves > 0 ==> carries(
            flow,
            start,
            used + taken,
            turned_so_far + turned,
            place2,
            next,
            (moves - 1) as nat,
        ),
        moves == 0 ==> advance_run(
            flow,
            start,
            used + taken,
            turned_so_far + turned,
            place2,
            Err(Error::Other),
        ),
{
    if moves > 0 {
        assert forall|
            rest: Seq<Result<ActionResult, Error>>,
            rest_turns: Seq<Turn>,
            end: Place,
            r: Result<AdvanceBlockedOn, Error>,
        | #[trigger]
            runs_to(
                flow,
                place2,
                next,
                rest,
                rest_turns,
                (moves - 1) as nat,
                end,
                r,
            ) implies advance_run(
            flow,
            start,
            (used + taken) + rest,
            (turned_so_far + turned) + rest_turns,
            end,
            r,
        ) by {
            lemma_move(
                flow,
                place,
                at,
                taken,
                turned,
                place2,
                next,
                rest,
                rest_turns,
                moves,
                end,
                r,
            );
            assert(used + (taken + rest) =~= (used + taken) + rest);
            assert(turned_so_far + (turned + rest_turns) =~= (turned_so_far + turned) + rest_turns);
        }
    } else {
        let none = Seq::<Result<ActionResult, Error>>::empty();
        let no_turns = Seq::<Turn>::empty();
        lemma_move(
            flow,
            place,
            at,
            taken,
            turned,
            place2,
            next,
            none,
            no_turns,
            moves,
            place2,
            Err(Error::Other),
        );
        assert(taken + none =~= taken);
        assert(turned + no_turns =~= turned);
    }
}

/// A state that is done ends a whole run with its result.
pub proof fn lemma_carries_end(
    flow: Flow,
    start: Place,
    used: Seq<Result<ActionResult, Error>>,
    turned_so_far: Seq<Turn>,
    place: Place,
    result: Result<AdvanceBlockedOn, Error>,
    moves: nat,
)
    requires
        carries(flow, start, used, turned_so_far, place, States::Done(result), moves),
    ensures
        advance_run(flow, start, used, turned_so_far, place, result),
{
    let none = Seq::<Result<ActionResult, Error>>::empty();
    let no_turns = Seq::<Turn>::empty();
    assert(runs_to(flow, place, States::Done(result), none, no_turns, moves, place, result));
    assert(used + none =~= used);
    assert(turned_so_far + no_turns =~= turned_so_far);
}

} // verus!
