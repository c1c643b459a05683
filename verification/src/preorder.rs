use crate::action::ActionResult;
use crate::dfs::{
    bottom, children, descent_ends, down_outcome_by, entered_chain, first_child, leaves_level,
    next_outcome, next_sibling, ranks_descent, up_outcome_by, DFSDirection,
};
use crate::errors::Error;
use crate::id::{StepId, VarId};
use crate::object_store::ObjectStore;
use crate::run::{after_answer, after_turn, cursor_moves, runs_on, runs_to, Flow, Place, Turn};
use crate::session::{
    enter_guard, exit_guard, state_after_action, state_after_advance, state_for_generic,
    state_for_specific, AdvanceBlockedOn, States,
};
use crate::statedata::ValidVal;
use crate::step::Step;
use crate::vec_map::{lemma_position_of, position_of};
use vstd::prelude::*;

verus! {

/// The guard lets every registered step pass.
pub open spec fn lets_pass(
    store: &ObjectStore<Step, StepId>,
    guard: spec_fn(StepId) -> Result<(), Error>,
) -> bool {
    forall|id: StepId| store.contains(id) ==> #[trigger] guard(id) is Ok
}

/// The steps form trees: no step lists a substep twice, every substep is
/// registered, and `rank` falls from every step to each of its substeps.
pub open spec fn is_tree(store: &ObjectStore<Step, StepId>, rank: spec_fn(StepId) -> nat) -> bool {
    forall|id: StepId|
        #![trigger children(store, id)]
        children(store, id).no_duplicates() && forall|i: int|
            0 <= i < children(store, id).len() ==> store.contains(
                #[trigger] children(store, id)[i],
            ) && rank(children(store, id)[i]) < rank(id)
}

/// Every step on the stack is registered.
pub open spec fn all_registered(store: &ObjectStore<Step, StepId>, stack: Seq<StepId>) -> bool {
    forall|i: int| 0 <= i < stack.len() ==> store.contains(#[trigger] stack[i])
}

/// The steps without substeps below `id`, `id` itself if it has none, in
/// the order in which a walk that goes down first and then to the next
/// substep meets them.
pub open spec fn leaves_below(
    store: &ObjectStore<Step, StepId>,
    rank: spec_fn(StepId) -> nat,
    id: StepId,
) -> Seq<StepId>
    decreases rank(id), children(store, id).len() + 1,
{
    if children(store, id).len() == 0 {
        seq![id]
    } else {
        leaves_after(store, rank, id, 0)
    }
}

/// The leaves below the substeps of `parent` from the substep at `from`
/// on.
pub open spec fn leaves_after(
    store: &ObjectStore<Step, StepId>,
    rank: spec_fn(StepId) -> nat,
    parent: StepId,
    from: int,
) -> Seq<StepId>
    decreases rank(parent), children(store, parent).len() - from,
{
    if from < 0 || from >= children(store, parent).len() {
        Seq::empty()
    } else {
        (if rank(children(store, parent)[from]) < rank(parent) {
            leaves_below(store, rank, children(store, parent)[from])
        } else {
            Seq::empty()
        }) + leaves_after(store, rank, parent, from + 1)
    }
}

/// The leaves that a walk still meets after it is through with the step on
/// top of `stack`: those below the later substeps of each step on the
/// stack, innermost first.
pub open spec fn leaves_behind(
    store: &ObjectStore<Step, StepId>,
    rank: spec_fn(StepId) -> nat,
    stack: Seq<StepId>,
) -> Seq<StepId>
    decreases stack.len(),
{
    if stack.len() < 2 {
        Seq::empty()
    } else {
        leaves_after(
            store,
            rank,
            stack[stack.len() - 2],
            position_of(children(store, stack[stack.len() - 2]), stack.last()) + 1,
        ) + leaves_behind(store, rank, stack.drop_last())
    }
}

/// The leaves that a cursor with the given stack and direction has still
/// to return.
pub open spec fn leaves_ahead(
    store: &ObjectStore<Step, StepId>,
    rank: spec_fn(StepId) -> nat,
    stack: Seq<StepId>,
    dir: DFSDirection,
) -> Seq<StepId> {
    match dir {
        DFSDirection::Done => Seq::empty(),
        DFSDirection::Down => if stack.len() == 0 {
            Seq::empty()
        } else {
            leaves_below(store, rank, stack.last()) + leaves_behind(store, rank, stack)
        },
        DFSDirection::SiblingOrUp => leaves_behind(store, rank, stack),
    }
}

/// In a tree, going down from substep to first substep comes to an end.
pub proof fn lemma_tree_descent_ends(store: &ObjectStore<Step, StepId>, rank: spec_fn(StepId) -> nat)
    requires
        is_tree(store, rank),
    ensures
        descent_ends(store),
{
    assert forall|id: StepId| #[trigger] first_child(store, id) is Some implies rank(
        first_child(store, id)->0,
    ) < rank(id) by {
        assert(children(store, id)[0] == first_child(store, id)->0);
    }
    assert(ranks_descent(store, rank));
}

/// Going down from the top of `stack` to the leaf at the end of `path`
/// changes what is ahead by that leaf alone.
pub proof fn lemma_down(
    store: &ObjectStore<Step, StepId>,
    rank: spec_fn(StepId) -> nat,
    enter: spec_fn(StepId) -> Result<(), Error>,
    stack: Seq<StepId>,
    path: Seq<StepId>,
)
    requires
        is_tree(store, rank),
        stack.len() > 0,
        all_registered(store, stack),
        entered_chain(store, enter, stack.last(), path),
        first_child(store, bottom(stack.last(), path)) is None,
    ensures
        leaves_below(store, rank, stack.last()) + leaves_behind(store, rank, stack) == seq![
            bottom(stack.last(), path),
        ] + leaves_behind(store, rank, stack + path),
        all_registered(store, stack + path),
    decreases path.len(),
{
    let top = stack.last();
    if path.len() == 0 {
        assert(stack + path =~= stack);
        assert(leaves_below(store, rank, top) == seq![top]);
    } else {
        let child = path[0];
        let rest = path.subrange(1, path.len() as int);
        let deeper = stack.push(child);
        assert(path.subrange(0, 0) =~= Seq::<StepId>::empty());
        assert(first_child(store, top) == Some(child));
        assert(children(store, top)[0] == child);
        assert(rank(child) < rank(top));
        assert forall|i: int| 0 <= i < rest.len() implies first_child(
            store,
            bottom(child, rest.subrange(0, i)),
        ) == Some(#[trigger] rest[i]) && enter(rest[i]) is Ok by {
            assert(rest[i] == path[i + 1]);
            if i == 0 {
                assert(path.subrange(0, 1).last() == child);
            } else {
                assert(path.subrange(0, i + 1).last() == rest.subrange(0, i).last());
            }
        }
        assert(bottom(child, rest) == bottom(top, path)) by {
            if rest.len() > 0 {
                assert(rest.last() == path.last());
            }
        }
        lemma_down(store, rank, enter, deeper, rest);
        assert(deeper + rest =~= stack + path);
        assert(deeper.drop_last() =~= stack);
        lemma_position_of(children(store, top), child);
        assert(position_of(children(store, top), child) == 0);
        assert(leaves_behind(store, rank, deeper) == leaves_after(store, rank, top, 1)
            + leaves_behind(store, rank, stack));
        assert(leaves_below(store, rank, top) == leaves_below(store, rank, child) + leaves_after(
            store,
            rank,
            top,
            1,
        ));
        assert(leaves_below(store, rank, top) + leaves_behind(store, rank, stack) =~= leaves_below(
            store,
            rank,
            child,
        ) + leaves_behind(store, rank, deeper));
    }
}

/// Leaving levels that have no step after them changes nothing in what is
/// ahead.
pub proof fn lemma_up(
    store: &ObjectStore<Step, StepId>,
    rank: spec_fn(StepId) -> nat,
    exit: spec_fn(StepId) -> Result<(), Error>,
    stack: Seq<StepId>,
    up: int,
)
    requires
        0 <= up <= stack.len(),
        forall|i: int|
            0 <= i < up
                ==> leaves_level(store, exit, #[trigger] stack.subrange(0, stack.len() - i)),
    ensures
        leaves_behind(store, rank, stack) == leaves_behind(
            store,
            rank,
            stack.subrange(0, stack.len() - up),
        ),
    decreases up,
{
    if up == 0 {
        assert(stack.subrange(0, stack.len() as int) =~= stack);
    } else {
        lemma_up(store, rank, exit, stack, up - 1);
        let level = stack.subrange(0, stack.len() - (up - 1));
        assert(leaves_level(store, exit, level));
        assert(level.drop_last() =~= stack.subrange(0, stack.len() - up));
        if level.len() >= 2 {
            let parent = level[level.len() - 2];
            lemma_position_of(children(store, parent), level.last());
            assert(leaves_after(
                store,
                rank,
                parent,
                position_of(children(store, parent), level.last()) + 1,
            ) =~= Seq::<StepId>::empty());
            assert(leaves_behind(store, rank, level) =~= leaves_behind(
                store,
                rank,
                level.drop_last(),
            ));
        }
    }
}

/// Moving from the top of `level` to the step after it puts the leaves
/// below that step ahead, and leaves the rest as it was.
pub proof fn lemma_sideways(
    store: &ObjectStore<Step, StepId>,
    rank: spec_fn(StepId) -> nat,
    level: Seq<StepId>,
    sibling: StepId,
)
    requires
        is_tree(store, rank),
        all_registered(store, level),
        next_sibling(store, level) == Some(sibling),
    ensures
        leaves_behind(store, rank, level) == leaves_below(store, rank, sibling) + leaves_behind(
            store,
            rank,
            level.drop_last().push(sibling),
        ),
        all_registered(store, level.drop_last().push(sibling)),
{
    let parent = level[level.len() - 2];
    let subs = children(store, parent);
    let at = position_of(subs, level.last());
    let moved = level.drop_last().push(sibling);
    lemma_position_of(subs, level.last());
    lemma_position_of(subs, sibling);
    assert(subs[at + 1] == sibling);
    assert(position_of(subs, sibling) == at + 1) by {
        let found = position_of(subs, sibling);
        if found != at + 1 {
            assert(subs[found] == subs[at + 1]);
        }
    }
    assert(rank(sibling) < rank(parent));
    assert(moved.drop_last() =~= level.drop_last());
    assert(moved[moved.len() - 2] == parent);
    assert(leaves_after(store, rank, parent, at + 1) == leaves_below(store, rank, sibling)
        + leaves_after(store, rank, parent, at + 2));
    assert(leaves_behind(store, rank, level) =~= leaves_below(store, rank, sibling) + leaves_behind(
        store,
        rank,
        moved,
    ));
    assert forall|i: int| 0 <= i < moved.len() implies store.contains(#[trigger] moved[i]) by {
        if i < moved.len() - 1 {
            assert(moved[i] == level[i]);
        }
    }
}

/// What `lemma_next_returns_next_leaf` says, for a cursor that goes down.
pub proof fn lemma_went_down(
    store: &ObjectStore<Step, StepId>,
    rank: spec_fn(StepId) -> nat,
    enter: spec_fn(StepId) -> Result<(), Error>,
    stack: Seq<StepId>,
    path: Seq<StepId>,
    post: Seq<StepId>,
    dir: DFSDirection,
    r: Result<Option<StepId>, Error>,
)
    requires
        is_tree(store, rank),
        lets_pass(store, enter),
        all_registered(store, stack),
        down_outcome_by(store, enter, stack, path, post, dir, r),
    ensures
        r == Ok::<Option<StepId>, Error>(Some(bottom(stack.last(), path))),
        dir == DFSDirection::SiblingOrUp,
        all_registered(store, post),
        leaves_ahead(store, rank, post, dir) == (leaves_below(store, rank, stack.last())
            + leaves_behind(store, rank, stack)).skip(1),
        (leaves_below(store, rank, stack.last()) + leaves_behind(store, rank, stack)).len() > 0,
        (leaves_below(store, rank, stack.last()) + leaves_behind(store, rank, stack))[0] == bottom(
            stack.last(),
            path,
        ),
{
    let low = bottom(stack.last(), path);
    if first_child(store, low) is Some {
        // the first substep is registered, so its guard lets it pass
        assert(children(store, low)[0] == first_child(store, low)->0);
        assert(store.contains(first_child(store, low)->0));
    }
    lemma_down(store, rank, enter, stack, path);
    let all = leaves_below(store, rank, stack.last()) + leaves_behind(store, rank, stack);
    assert(all.skip(1) =~= leaves_behind(store, rank, post));
}

/// Where the guards let every registered step pass, a call of `next`
/// returns the first leaf that is still ahead and leaves the others ahead,
/// in their order. When no leaf is ahead it returns `None` and the walk is
/// done.
pub proof fn lemma_next_returns_next_leaf(
    store: &ObjectStore<Step, StepId>,
    rank: spec_fn(StepId) -> nat,
    enter: spec_fn(StepId) -> Result<(), Error>,
    exit: spec_fn(StepId) -> Result<(), Error>,
    stack: Seq<StepId>,
    from: DFSDirection,
    post: Seq<StepId>,
    dir: DFSDirection,
    r: Result<Option<StepId>, Error>,
)
    requires
        is_tree(store, rank),
        lets_pass(store, enter),
        lets_pass(store, exit),
        all_registered(store, stack),
        next_outcome(store, enter, exit, stack, from, post, dir, r),
    ensures
        all_registered(store, post),
        leaves_ahead(store, rank, stack, from).len() == 0
            ==> r == Ok::<Option<StepId>, Error>(None)
            && dir == DFSDirection::Done,
        leaves_ahead(store, rank, stack, from).len() > 0 ==> r == Ok::<Option<StepId>, Error>(
            Some(leaves_ahead(store, rank, stack, from)[0]),
        ) && leaves_ahead(store, rank, post, dir)
            == leaves_ahead(store, rank, stack, from).skip(1),
{
    match from {
        DFSDirection::Done => {},
        DFSDirection::Down => {
            if stack.len() > 0 {
                let path = choose|path: Seq<StepId>|
                    down_outcome_by(store, enter, stack, path, post, dir, r);
                lemma_went_down(store, rank, enter, stack, path, post, dir, r);
            }
        },
        DFSDirection::SiblingOrUp => {
            let up = choose|up: int| up_outcome_by(store, enter, exit, stack, up, post, dir, r);
            lemma_up(store, rank, exit, stack, up);
            let rest = stack.subrange(0, stack.len() - up);
            assert(all_registered(store, rest)) by {
                assert forall|i: int| 0 <= i < rest.len() implies store.contains(
                    #[trigger] rest[i],
                ) by {
                    assert(rest[i] == stack[i]);
                }
            }
            if rest.len() > 0 {
                assert(store.contains(rest[rest.len() - 1]));
                assert(exit(rest.last()) is Ok);
                let sibling = next_sibling(store, rest)->0;
                let subs = children(store, rest[rest.len() - 2]);
                lemma_position_of(subs, rest.last());
                assert(subs[position_of(subs, rest.last()) + 1] == sibling);
                assert(store.contains(sibling));
                let moved = rest.drop_last().push(sibling);
                lemma_sideways(store, rank, rest, sibling);
                let path = choose|path: Seq<StepId>|
                    down_outcome_by(store, enter, moved, path, post, dir, r);
                lemma_went_down(store, rank, enter, moved, path, post, dir, r);
                assert(moved.last() == sibling);
            }
        },
    }
}

/// A run of calls of `next`: each starts where the one before it left the
/// cursor, and `results` are what they return.
pub open spec fn walk(
    store: &ObjectStore<Step, StepId>,
    enter: spec_fn(StepId) -> Result<(), Error>,
    exit: spec_fn(StepId) -> Result<(), Error>,
    stacks: Seq<Seq<StepId>>,
    dirs: Seq<DFSDirection>,
    results: Seq<Result<Option<StepId>, Error>>,
) -> bool {
    &&& stacks.len() == results.len() + 1
    &&& dirs.len() == results.len() + 1
    &&& forall|k: int|
        0 <= k < results.len() ==> next_outcome(
            store,
            enter,
            exit,
            stacks[k],
            dirs[k],
            stacks[k + 1],
            dirs[k + 1],
            #[trigger] results[k],
        )
}

/// What the call with number `k` returns when the leaves `ahead` are to
/// come: the leaf with that number, and `None` when there are not so many.
pub open spec fn nth_visit(ahead: Seq<StepId>, k: int) -> Result<Option<StepId>, Error> {
    if k < ahead.len() {
        Ok(Some(ahead[k]))
    } else {
        Ok(None)
    }
}

/// In a tree of steps and with guards that let every registered step pass,
/// calling `next` again and again on a fresh cursor returns every leaf
/// below the root once, in the order of a walk that goes down first, and
/// `None` from then on.
pub proof fn lemma_walk_visits_leaves_in_preorder(
    store: &ObjectStore<Step, StepId>,
    rank: spec_fn(StepId) -> nat,
    enter: spec_fn(StepId) -> Result<(), Error>,
    exit: spec_fn(StepId) -> Result<(), Error>,
    root: StepId,
    stacks: Seq<Seq<StepId>>,
    dirs: Seq<DFSDirection>,
    results: Seq<Result<Option<StepId>, Error>>,
)
    requires
        is_tree(store, rank),
        lets_pass(store, enter),
        lets_pass(store, exit),
        store.contains(root),
        walk(store, enter, exit, stacks, dirs, results),
        stacks[0] == seq![root],
        dirs[0] == DFSDirection::Down,
    ensures
        forall|k: int|
            0 <= k < results.len() ==> #[trigger] results[k] == nth_visit(
                leaves_below(store, rank, root),
                k,
            ),
{
    let leaves = leaves_below(store, rank, root);
    assert(leaves_behind(store, rank, seq![root]) =~= Seq::<StepId>::empty());
    assert(leaves_ahead(store, rank, stacks[0], dirs[0]) =~= leaves);
    lemma_walk_from(store, rank, enter, exit, stacks, dirs, results, results.len() as int);
}

/// After `n` calls of such a run the leaves ahead are those of the start
/// without the first `n`, and each call returned the leaf of its number.
pub proof fn lemma_walk_from(
    store: &ObjectStore<Step, StepId>,
    rank: spec_fn(StepId) -> nat,
    enter: spec_fn(StepId) -> Result<(), Error>,
    exit: spec_fn(StepId) -> Result<(), Error>,
    stacks: Seq<Seq<StepId>>,
    dirs: Seq<DFSDirection>,
    results: Seq<Result<Option<StepId>, Error>>,
    n: int,
)
    requires
        is_tree(store, rank),
        lets_pass(store, enter),
        lets_pass(store, exit),
        all_registered(store, stacks[0]),
        walk(store, enter, exit, stacks, dirs, results),
        0 <= n <= results.len(),
    ensures
        all_registered(store, stacks[n]),
        forall|k: int|
            0 <= k < n ==> #[trigger] results[k] == nth_visit(
                leaves_ahead(store, rank, stacks[0], dirs[0]),
                k,
            ),
        n <= leaves_ahead(store, rank, stacks[0], dirs[0]).len() ==> leaves_ahead(
            store,
            rank,
            stacks[n],
            dirs[n],
        ) == leaves_ahead(store, rank, stacks[0], dirs[0]).skip(n),
        n > leaves_ahead(store, rank, stacks[0], dirs[0]).len() ==> leaves_ahead(
            store,
            rank,
            stacks[n],
            dirs[n],
        ) == Seq::<StepId>::empty(),
    decreases n,
{
    let start = leaves_ahead(store, rank, stacks[0], dirs[0]);
    if n == 0 {
        assert(start.skip(0) =~= start);
    } else {
        lemma_walk_from(store, rank, enter, exit, stacks, dirs, results, n - 1);
        let k = n - 1;
        assert(next_outcome(
            store,
            enter,
            exit,
            stacks[k],
            dirs[k],
            stacks[k + 1],
            dirs[k + 1],
            results[k],
        ));
        lemma_next_returns_next_leaf(
            store,
            rank,
            enter,
            exit,
            stacks[k],
            dirs[k],
            stacks[k + 1],
            dirs[k + 1],
            results[k],
        );
        if k < start.len() {
            assert(start.skip(k)[0] == start[k]);
            assert(start.skip(k).skip(1) =~= start.skip(n));
        } else {
            assert(leaves_ahead(store, rank, stacks[k], dirs[k]).len() == 0) by {
                if k == start.len() {
                    assert(start.skip(k).len() == 0);
                }
            }
            assert(leaves_ahead(store, rank, stacks[n], dirs[n]) =~= Seq::<StepId>::empty());
        }
    }
}

/// No registered step asks for an input or an output.
pub open spec fn steps_are_free(store: &ObjectStore<Step, StepId>) -> bool {
    forall|id: StepId|
        store.contains(id) ==> (#[trigger] store.object(id)).inputs().len() == 0 && store.object(
            id,
        ).outputs().len() == 0
}

/// Steps that declare no inputs and no outputs can always be entered and
/// left: the guards of a session let every registered step pass, whatever
/// the data.
pub proof fn lemma_free_steps_pass(
    steps: &ObjectStore<Step, StepId>,
    state: Map<VarId, ValidVal>,
)
    requires
        steps_are_free(steps),
    ensures
        lets_pass(steps, enter_guard(steps, state)),
        lets_pass(steps, exit_guard(steps, state)),
{
    assert forall|id: StepId| steps.contains(id) implies #[trigger] enter_guard(steps, state)(
        id,
    ) is Ok && #[trigger] exit_guard(steps, state)(id) is Ok by {
        assert(steps.object(id).inputs().len() == 0);
    }
}

/// The leaves that are ahead after `n` of the leaves `ahead` were returned.
pub open spec fn ahead_after(ahead: Seq<StepId>, n: int) -> Seq<StepId> {
    if n <= ahead.len() {
        ahead.skip(n)
    } else {
        Seq::empty()
    }
}

/// In a tree of steps that ask for no inputs and no outputs, the cursor
/// of a session visits the leaves in the order of a walk that goes down
/// first, whatever the actions do: in every run of `advance`, each move of
/// the cursor returns the next leaf that is still ahead, and `None` when
/// none is left, and the run leaves ahead what it did not return.
///
/// With several calls in a row, each starts where the one before it ended:
/// so every leaf is returned once and in order, and after the last one the
/// cursor returns `None` for good.
pub proof fn lemma_run_visits_leaves_in_preorder(
    flow: Flow,
    rank: spec_fn(StepId) -> nat,
    place: Place,
    at: States,
    answers: Seq<Result<ActionResult, Error>>,
    turns: Seq<Turn>,
    moves: nat,
    end: Place,
    r: Result<AdvanceBlockedOn, Error>,
)
    requires
        is_tree(&flow.steps, rank),
        steps_are_free(&flow.steps),
        all_registered(&flow.steps, place.stack),
        runs_to(flow, place, at, answers, turns, moves, end, r),
    ensures
        all_registered(&flow.steps, end.stack),
        forall|k: int|
            0 <= k < turns.len() ==> (#[trigger] turns[k]).moved == nth_visit(
                leaves_ahead(&flow.steps, rank, place.stack, place.dir),
                k,
            ),
        leaves_ahead(&flow.steps, rank, end.stack, end.dir) == ahead_after(
            leaves_ahead(&flow.steps, rank, place.stack, place.dir),
            turns.len() as int,
        ),
    decreases moves, 1nat,
{
    let steps = &flow.steps;
    let ahead = leaves_ahead(steps, rank, place.stack, place.dir);
    match at {
        States::Done(_) => {
            assert(ahead.skip(0) =~= ahead);
        },
        States::AdvanceStep => {
            let turn = turns[0];
            let place2 = after_turn(place, turn);
            assert(next_outcome(
                steps,
                enter_guard(steps, place.state),
                exit_guard(steps, place.state),
                place.stack,
                place.dir,
                turn.stack,
                turn.dir,
                turn.moved,
            )) by {
                reveal(cursor_moves);
            }
            lemma_free_steps_pass(steps, place.state);
            lemma_next_returns_next_leaf(
                steps,
                rank,
                enter_guard(steps, place.state),
                exit_guard(steps, place.state),
                place.stack,
                place.dir,
                turn.stack,
                turn.dir,
                turn.moved,
            );
            let ahead2 = leaves_ahead(steps, rank, place2.stack, place2.dir);
            lemma_run_on_visits_leaves(
                flow,
                rank,
                place2,
                state_after_advance(turn.moved, turn.stack),
                answers,
                turns.skip(1),
                moves,
                end,
                r,
            );
            assert(ahead2 =~= ahead_after(ahead, 1)) by {
                if ahead.len() == 0 {
                    assert(turn.dir == DFSDirection::Done);
                }
            }
            assert forall|k: int| 0 <= k < turns.len() implies (#[trigger] turns[k]).moved
                == nth_visit(ahead, k) by {
                if k > 0 {
                    assert(turns.skip(1)[k - 1] == turns[k]);
                    if k - 1 < ahead2.len() {
                        assert(ahead2[k - 1] == ahead[k]);
                    }
                }
            }
            assert(ahead_after(ahead2, turns.skip(1).len() as int) =~= ahead_after(
                ahead,
                turns.len() as int,
            ));
        },
        States::GetSpecificAction(step_id, error) => {
            lemma_run_on_visits_leaves(
                flow,
                rank,
                place,
                state_for_specific(flow.step_actions, step_id, error),
                answers,
                turns,
                moves,
                end,
                r,
            );
        },
        States::GetGenericAction(step_id, error) => {
            lemma_run_on_visits_leaves(
                flow,
                rank,
                place,
                state_for_generic(flow.step_actions, flow.all, step_id, error),
                answers,
                turns,
                moves,
                end,
                r,
            );
        },
        States::StartSpecific(action_id, step_id, error) => {
            lemma_run_on_visits_leaves(
                flow,
                rank,
                after_answer(place, answers[0]),
                state_after_action(true, action_id, step_id, error, answers[0]),
                answers.skip(1),
                turns,
                moves,
                end,
                r,
            );
        },
        States::StartGeneric(action_id, step_id, error) => {
            lemma_run_on_visits_leaves(
                flow,
                rank,
                after_answer(place, answers[0]),
                state_after_action(false, action_id, step_id, error, answers[0]),
                answers.skip(1),
                turns,
                moves,
                end,
                r,
            );
        },
    }
}

/// What `lemma_run_visits_leaves_in_preorder` says, for a run that goes on
/// after a move.
pub proof fn lemma_run_on_visits_leaves(
    flow: Flow,
    rank: spec_fn(StepId) -> nat,
    place: Place,
    at: States,
    answers: Seq<Result<ActionResult, Error>>,
    turns: Seq<Turn>,
    moves: nat,
    end: Place,
    r: Result<AdvanceBlockedOn, Error>,
)
    requires
        is_tree(&flow.steps, rank),
        steps_are_free(&flow.steps),
        all_registered(&flow.steps, place.stack),
        runs_on(flow, place, at, answers, turns, moves, end, r),
    ensures
        all_registered(&flow.steps, end.stack),
        forall|k: int|
            0 <= k < turns.len() ==> (#[trigger] turns[k]).moved == nth_visit(
                leaves_ahead(&flow.steps, rank, place.stack, place.dir),
                k,
            ),
        leaves_ahead(&flow.steps, rank, end.stack, end.dir) == ahead_after(
            leaves_ahead(&flow.steps, rank, place.stack, place.dir),
            turns.len() as int,
        ),
    decreases moves, 0nat,
{
    let ahead = leaves_ahead(&flow.steps, rank, place.stack, place.dir);
    if moves == 0 {
        assert(ahead.skip(0) =~= ahead);
    } else {
        lemma_run_visits_leaves_in_preorder(
            flow,
            rank,
            place,
            at,
            answers,
            turns,
            (moves - 1) as nat,
            end,
            r,
        );
    }
}

} // verus!
