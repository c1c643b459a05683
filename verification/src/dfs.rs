use crate::errors::Error;
use crate::id::StepId;
use crate::object_store::ObjectStore;
use crate::step::{next_after, Step};
use vstd::prelude::*;

verus! {

/// Where the cursor goes at its next move.
#[derive(PartialEq, Eq, Clone, Copy, Debug, Structural)]
pub enum DFSDirection {
    Down,
    SiblingOrUp,
    Done,
}

/// What one move of the cursor did.
#[derive(Debug)]
pub enum DFSStep {
    DownTo(StepId),
    SiblingTo(StepId),
    CannotGoto(Error),
    CannotLeaveForSibling(Error),
    NothingMoreDown,
    NothingMoreInStack,
    PoppedUp,
}

/// The substeps of a step, in order; none for a step that is not registered.
pub open spec fn children(store: &ObjectStore<Step, StepId>, id: StepId) -> Seq<StepId> {
    if store.contains(id) {
        store.object(id).substeps()
    } else {
        Seq::empty()
    }
}

/// The first substep of a step.
pub open spec fn first_child(store: &ObjectStore<Step, StepId>, id: StepId) -> Option<StepId> {
    if children(store, id).len() > 0 {
        Some(children(store, id)[0])
    } else {
        None
    }
}

/// The step that follows the top of `stack` among the substeps of the step
/// below it.
pub open spec fn next_sibling(store: &ObjectStore<Step, StepId>, stack: Seq<StepId>) -> Option<
    StepId,
> {
    if stack.len() < 2 {
        None
    } else {
        next_after(children(store, stack[stack.len() - 2]), stack[stack.len() - 1])
    }
}

/// `rank` falls from every step to its first substep.
pub open spec fn ranks_descent(store: &ObjectStore<Step, StepId>, rank: spec_fn(StepId) -> nat) -> bool {
    forall|id: StepId| #[trigger]
        first_child(store, id) matches Some(c) ==> rank(c) < rank(id)
}

/// Going down from substep to first substep comes to an end everywhere:
/// no step is reached again on the way down from itself.
pub open spec fn descent_ends(store: &ObjectStore<Step, StepId>) -> bool {
    exists|rank: spec_fn(StepId) -> nat| ranks_descent(store, rank)
}

/// The guard may be asked about every step.
pub open spec fn guard_is_total<F: Fn(&StepId) -> Result<(), Error>>(guard: F) -> bool {
    forall|id: StepId| call_requires(guard, (&id,))
}

/// The guard can let the step pass.
pub open spec fn guard_passes<F: Fn(&StepId) -> Result<(), Error>>(guard: F, id: StepId) -> bool {
    exists|r: Result<(), Error>| r is Ok && call_ensures(guard, (&id,), r)
}

/// Whatever the guard answers for a step is what `answer` says.
pub open spec fn guard_obeys<F: Fn(&StepId) -> Result<(), Error>>(
    guard: F,
    answer: spec_fn(StepId) -> Result<(), Error>,
) -> bool {
    forall|id: StepId, r: Result<(), Error>| #[trigger]
        call_ensures(guard, (&id,), r) ==> r == answer(id)
}

/// `path` goes down from `top` by first substeps, and the guard let each of
/// its steps be entered.
pub open spec fn chain_was_entered<F: Fn(&StepId) -> Result<(), Error>>(
    store: &ObjectStore<Step, StepId>,
    can_enter: F,
    top: StepId,
    path: Seq<StepId>,
) -> bool {
    forall|i: int|
        0 <= i < path.len() ==> first_child(store, bottom(top, path.subrange(0, i))) == Some(
            #[trigger] path[i],
        ) && guard_passes(can_enter, path[i])
}

/// The guard let the top of `stack` be left, and no step follows it.
pub open spec fn level_was_left<F: Fn(&StepId) -> Result<(), Error>>(
    store: &ObjectStore<Step, StepId>,
    can_exit: F,
    stack: Seq<StepId>,
) -> bool {
    &&& stack.len() > 0
    &&& guard_passes(can_exit, stack.last())
    &&& next_sibling(store, stack) is None
}

/// The cursor left `up` levels of `stack` and moved on to the step after
/// the level it reached, which the guards allowed and which leaves it with
/// the stack `moved`.
pub open spec fn was_moved_to<FE: Fn(&StepId) -> Result<(), Error>, FX: Fn(&StepId) -> Result<
    (),
    Error,
>>(
    store: &ObjectStore<Step, StepId>,
    can_enter: FE,
    can_exit: FX,
    stack: Seq<StepId>,
    up: int,
    moved: Seq<StepId>,
) -> bool {
    &&& 0 <= up < stack.len()
    &&& forall|i: int|
        0 <= i < up ==> level_was_left(
            store,
            can_exit,
            #[trigger] stack.subrange(0, stack.len() - i),
        )
    &&& guard_passes(can_exit, stack.subrange(0, stack.len() - up).last())
    &&& next_sibling(store, stack.subrange(0, stack.len() - up)) matches Some(sibling)
    &&& guard_passes(can_enter, sibling)
    &&& moved == stack.subrange(0, stack.len() - up).drop_last().push(sibling)
}

/// The step reached after `path`: its last step, or `top` if it is empty.
pub open spec fn bottom(top: StepId, path: Seq<StepId>) -> StepId {
    if path.len() == 0 {
        top
    } else {
        path.last()
    }
}

/// `path` goes down from `top` by first substeps, and each of its steps
/// may be entered.
pub open spec fn entered_chain(
    store: &ObjectStore<Step, StepId>,
    enter: spec_fn(StepId) -> Result<(), Error>,
    top: StepId,
    path: Seq<StepId>,
) -> bool {
    forall|i: int|
        0 <= i < path.len() ==> first_child(store, bottom(top, path.subrange(0, i))) == Some(
            #[trigger] path[i],
        ) && enter(path[i]) is Ok
}

/// What going down from the top of `stack` ends in: the cursor descends by
/// first substeps as long as there is one and it may be entered. It stops
/// on a step without substeps, which is the new current step, or before a
/// substep that may not be entered, with that guard's error.
pub open spec fn down_outcome(
    store: &ObjectStore<Step, StepId>,
    enter: spec_fn(StepId) -> Result<(), Error>,
    stack: Seq<StepId>,
    post: Seq<StepId>,
    dir: DFSDirection,
    r: Result<Option<StepId>, Error>,
) -> bool {
    exists|path: Seq<StepId>|
        down_outcome_by(store, enter, stack, path, post, dir, r)
}

/// `down_outcome` with the way down given.
pub open spec fn down_outcome_by(
    store: &ObjectStore<Step, StepId>,
    enter: spec_fn(StepId) -> Result<(), Error>,
    stack: Seq<StepId>,
    path: Seq<StepId>,
    post: Seq<StepId>,
    dir: DFSDirection,
    r: Result<Option<StepId>, Error>,
) -> bool {
    &&& stack.len() > 0
    &&& entered_chain(store, enter, stack.last(), path)
    &&& post == stack + path
    &&& match first_child(store, bottom(stack.last(), path)) {
        None => r == Ok::<Option<StepId>, Error>(Some(bottom(stack.last(), path))) && dir
            == DFSDirection::SiblingOrUp,
        Some(c) => enter(c) is Err && r == Err::<Option<StepId>, Error>(enter(c)->Err_0) && dir
            == DFSDirection::Down,
    }
}

/// The top of `stack` may be left and no step follows it.
pub open spec fn leaves_level(
    store: &ObjectStore<Step, StepId>,
    exit: spec_fn(StepId) -> Result<(), Error>,
    stack: Seq<StepId>,
) -> bool {
    &&& stack.len() > 0
    &&& exit(stack.last()) is Ok
    &&& next_sibling(store, stack) is None
}

/// What looking for the next step from the top of `stack` ends in. The
/// cursor leaves `up` levels, each of which may be left and has no step
/// after it. Then the stack is used up and the walk is done; or the level
/// reached may not be left, or the step after it may not be entered, and
/// the guard's error is the result; or the cursor moves to that step and
/// goes down from it.
pub open spec fn up_outcome(
    store: &ObjectStore<Step, StepId>,
    enter: spec_fn(StepId) -> Result<(), Error>,
    exit: spec_fn(StepId) -> Result<(), Error>,
    stack: Seq<StepId>,
    post: Seq<StepId>,
    dir: DFSDirection,
    r: Result<Option<StepId>, Error>,
) -> bool {
    exists|up: int| up_outcome_by(store, enter, exit, stack, up, post, dir, r)
}

/// `up_outcome` with the number of levels left given.
pub open spec fn up_outcome_by(
    store: &ObjectStore<Step, StepId>,
    enter: spec_fn(StepId) -> Result<(), Error>,
    exit: spec_fn(StepId) -> Result<(), Error>,
    stack: Seq<StepId>,
    up: int,
    post: Seq<StepId>,
    dir: DFSDirection,
    r: Result<Option<StepId>, Error>,
) -> bool {
    &&& 0 <= up <= stack.len()
    &&& forall|i: int|
        0 <= i < up ==> leaves_level(store, exit, #[trigger] stack.subrange(0, stack.len() - i))
    &&& {
        let rest = stack.subrange(0, stack.len() - up);
        if rest.len() == 0 {
            post == rest && dir == DFSDirection::Done && r == Ok::<Option<StepId>, Error>(None)
        } else {
            match exit(rest.last()) {
                Err(e) => post == rest && dir == DFSDirection::SiblingOrUp && r == Err::<
                    Option<StepId>,
                    Error,
                >(e),
                Ok(()) => match next_sibling(store, rest) {
                    None => false,
                    Some(sibling) => match enter(sibling) {
                        Err(e) => post == rest && dir == DFSDirection::SiblingOrUp && r == Err::<
                            Option<StepId>,
                            Error,
                        >(e),
                        Ok(()) => down_outcome(
                            store,
                            enter,
                            rest.drop_last().push(sibling),
                            post,
                            dir,
                            r,
                        ),
                    },
                },
            }
        }
    }
}

/// What one call of `next` does to a cursor with stack `stack` and
/// direction `from`: the stack and direction it leaves and its result.
pub open spec fn next_outcome(
    store: &ObjectStore<Step, StepId>,
    enter: spec_fn(StepId) -> Result<(), Error>,
    exit: spec_fn(StepId) -> Result<(), Error>,
    stack: Seq<StepId>,
    from: DFSDirection,
    post: Seq<StepId>,
    dir: DFSDirection,
    r: Result<Option<StepId>, Error>,
) -> bool {
    match from {
        DFSDirection::Done => post == stack && dir == DFSDirection::Done && r == Ok::<
            Option<StepId>,
            Error,
        >(None),
        DFSDirection::Down => if stack.len() == 0 {
            post == stack && dir == DFSDirection::Done && r == Ok::<Option<StepId>, Error>(None)
        } else {
            down_outcome(store, enter, stack, post, dir, r)
        },
        DFSDirection::SiblingOrUp => up_outcome(store, enter, exit, stack, post, dir, r),
    }
}

/// A resumable depth-first walk over a tree of steps: the path from the
/// root to the current step, and where to go next.
#[derive(Debug)]
pub struct DepthFirstSearch {
    stack: Vec<StepId>,
    next_direction: DFSDirection,
}

impl DepthFirstSearch {
    /// The path from the root to the current step.
    pub closed spec fn stack(&self) -> Seq<StepId> {
        self.stack@
    }

    /// Where the next move goes.
    pub closed spec fn direction(&self) -> DFSDirection {
        self.next_direction
    }

    pub fn new(root: StepId) -> (dfs: Self)
        ensures
            dfs.stack() == seq![root],
            dfs.direction() == DFSDirection::Down,
    {
        let mut stack = Vec::new();
        stack.push(root);
        DepthFirstSearch { stack, next_direction: DFSDirection::Down }
    }

    /// The current step: the top of the stack.
    pub fn current(&self) -> (r: Option<&StepId>)
        ensures
            match r {
                Some(id) => self.stack().len() > 0 && *id == self.stack().last(),
                None => self.stack().len() == 0,
            },
    {
        if self.stack.len() == 0 {
            None
        } else {
            Some(&self.stack[self.stack.len() - 1])
        }
    }

    pub fn next_sibling_of_current<'store>(&self, step_store: &'store ObjectStore<Step, StepId>) -> (r:
        Option<&'store StepId>)
        ensures
            match r {
                Some(id) => next_sibling(step_store, self.stack()) == Some(*id),
                None => next_sibling(step_store, self.stack()) is None,
            },
    {
        let stack_len = self.stack.len();
        if stack_len < 2 {
            return None;
        }
        let current_id = &self.stack[stack_len - 1];
        let parent_id = &self.stack[stack_len - 2];
        match step_store.get(parent_id) {
            None => None,
            Some(parent_step) => parent_step.next_substep(current_id),
        }
    }

    pub fn first_child_of<'store>(
        &self,
        step_id: &StepId,
        step_store: &'store ObjectStore<Step, StepId>,
    ) -> (r: Option<&'store StepId>)
        ensures
            match r {
                Some(id) => first_child(step_store, *step_id) == Some(*id),
                None => first_child(step_store, *step_id) is None,
            },
    {
        match step_store.get(step_id) {
            None => None,
            Some(step) => step.first_substep(),
        }
    }

    /// One move down: to the first substep of the current step, if there is
    /// one and it may be entered.
    pub fn go_down<FnCanEnter>(
        &mut self,
        can_enter: &FnCanEnter,
        step_store: &ObjectStore<Step, StepId>,
    ) -> (r: DFSStep) where FnCanEnter: Fn(&StepId) -> Result<(), Error>
        requires
            guard_is_total(*can_enter),
        ensures
            final(self).direction() == old(self).direction(),
            old(self).stack().len() == 0 ==> r is NothingMoreInStack
                && final(self).stack() == old(self).stack(),
            old(self).stack().len() > 0
                ==> match first_child(step_store, old(self).stack().last()) {
                None => r is NothingMoreDown && final(self).stack() == old(self).stack(),
                Some(c) => match r {
                    DFSStep::CannotGoto(e) => call_ensures(*can_enter, (&c,), Err(e))
                        && final(self).stack() == old(self).stack(),
                    DFSStep::DownTo(to) => to == c && guard_passes(*can_enter, c)
                        && final(self).stack() == old(self).stack().push(c),
                    _ => false,
                },
            },
    {
        if self.stack.len() == 0 {
            return DFSStep::NothingMoreInStack;
        }
        let step_id = self.stack[self.stack.len() - 1];
        match self.first_child_of(&step_id, step_store) {
            Some(first_child) => {
                let child = *first_child;
                let answer = can_enter(&child);
                proof {
                    if answer is Ok {
                        assert(guard_passes(*can_enter, child));
                    }
                }
                match answer {
                    Err(e) => DFSStep::CannotGoto(e),
                    Ok(()) => {
                        self.stack.push(child);
                        DFSStep::DownTo(child)
                    },
                }
            },
            None => DFSStep::NothingMoreDown,
        }
    }

    /// One move sideways or up: if the current step may be left, to the
    /// step after it if there is one and it may be entered, else up.
    pub fn go_sibling_or_up<FnCanEnter, FnCanExit>(
        &mut self,
        can_enter: &FnCanEnter,
        can_exit: &FnCanExit,
        step_store: &ObjectStore<Step, StepId>,
    ) -> (r: DFSStep) where
        FnCanEnter: Fn(&StepId) -> Result<(), Error>,
        FnCanExit: Fn(&StepId) -> Result<(), Error>,

        requires
            guard_is_total(*can_enter),
            guard_is_total(*can_exit),
        ensures
            final(self).direction() == old(self).direction(),
            old(self).stack().len() == 0 ==> r is NothingMoreInStack
                && final(self).stack() == old(self).stack(),
            old(self).stack().len() > 0 ==> match r {
                DFSStep::CannotLeaveForSibling(e) => call_ensures(
                    *can_exit,
                    (&old(self).stack().last(),),
                    Err(e),
                ) && final(self).stack() == old(self).stack(),
                DFSStep::PoppedUp => guard_passes(*can_exit, old(self).stack().last())
                    && next_sibling(step_store, old(self).stack()) is None && final(self).stack()
                    == old(self).stack().drop_last(),
                DFSStep::CannotGoto(e) => guard_passes(*can_exit, old(self).stack().last())
                    && next_sibling(step_store, old(self).stack()) is Some
                    && call_ensures(
                    *can_enter,
                    (&next_sibling(step_store, old(self).stack())->0,),
                    Err(e),
                ) && final(self).stack() == old(self).stack(),
                DFSStep::SiblingTo(to) => guard_passes(*can_exit, old(self).stack().last())
                    && next_sibling(step_store, old(self).stack()) == Some(to)
                    && guard_passes(*can_enter, to)
                    && final(self).stack() == old(self).stack().drop_last().push(to),
                _ => false,
            },
    {
        if self.stack.len() == 0 {
            return DFSStep::NothingMoreInStack;
        }
        let top = self.stack[self.stack.len() - 1];
        let may_leave = can_exit(&top);
        proof {
            if may_leave is Ok {
                assert(guard_passes(*can_exit, top));
            }
        }
        match may_leave {
            Err(e) => {
                return DFSStep::CannotLeaveForSibling(e);
            },
            Ok(()) => {},
        }
        match self.next_sibling_of_current(step_store) {
            Some(next_sibling) => {
                let sibling = *next_sibling;
                let may_enter = can_enter(&sibling);
                proof {
                    if may_enter is Ok {
                        assert(guard_passes(*can_enter, sibling));
                    }
                }
                match may_enter {
                    Err(e) => DFSStep::CannotGoto(e),
                    Ok(()) => {
                        self.stack.pop();
                        self.stack.push(sibling);
                        DFSStep::SiblingTo(sibling)
                    },
                }
            },
            None => {
                self.stack.pop();
                DFSStep::PoppedUp
            },
        }
    }

    /// Moves the cursor to the next step that has no substeps, as far as
    /// the guards allow, and returns it; `None` when the walk is over.
    ///
    /// A guard's error is returned as it is. The cursor then stays where the
    /// guard stopped it, and the next call asks the same guard again.
    ///
    /// The outcome is stated for guards that answer as a function of the
    /// step: whatever functions the two guards obey, the call does what
    /// [`next_outcome`] says for them.
    pub fn next<FnCanEnter, FnCanExit>(
        &mut self,
        can_enter: FnCanEnter,
        can_exit: FnCanExit,
        step_store: &ObjectStore<Step, StepId>,
    ) -> (r: Result<Option<StepId>, Error>) where
        FnCanEnter: Fn(&StepId) -> Result<(), Error>,
        FnCanExit: Fn(&StepId) -> Result<(), Error>,

        requires
            descent_ends(step_store),
            guard_is_total(can_enter),
            guard_is_total(can_exit),
        ensures
            forall|
                enter: spec_fn(StepId) -> Result<(), Error>,
                exit: spec_fn(StepId) -> Result<(), Error>,
            |
                guard_obeys(can_enter, enter)
                    && guard_obeys(can_exit, exit) ==> #[trigger] next_outcome(
                    step_store,
                    enter,
                    exit,
                    old(self).stack(),
                    old(self).direction(),
                    final(self).stack(),
                    final(self).direction(),
                    r,
                ),
    {
        let ghost start = self.stack@;
        let ghost mut up: int = 0;
        match self.next_direction {
            DFSDirection::Done => {
                return Ok(None);
            },
            DFSDirection::Down => {
                if self.stack.len() == 0 {
                    self.next_direction = DFSDirection::Done;
                    return Ok(None);
                }
            },
            DFSDirection::SiblingOrUp => {
                let mut moved = false;
                while !moved
                    invariant
                        guard_is_total(can_enter),
                        guard_is_total(can_exit),
                        self.next_direction == DFSDirection::SiblingOrUp,
                        old(self).direction() == DFSDirection::SiblingOrUp,
                        start == old(self).stack(),
                        0 <= up <= start.len(),
                        forall|i: int|
                            0 <= i < up ==> level_was_left(
                                step_store,
                                can_exit,
                                #[trigger] start.subrange(0, start.len() - i),
                            ),
                        !moved ==> self.stack@ == start.subrange(0, start.len() - up),
                        moved ==> was_moved_to(
                            step_store,
                            can_enter,
                            can_exit,
                            start,
                            up,
                            self.stack@,
                        ),
                    decreases self.stack@.len() + (if moved { 0int } else { 1int }),
                {
                    let ghost rest = self.stack@;
                    match self.go_sibling_or_up(&can_enter, &can_exit, step_store) {
                        DFSStep::PoppedUp => {
                            proof {
                                assert(start.subrange(0, start.len() - (up + 1)) =~= rest.drop_last());
                                up = up + 1;
                            }
                        },
                        DFSStep::SiblingTo(_) => {
                            moved = true;
                        },
                        DFSStep::CannotGoto(e) => {
                            proof {
                                assert forall|
                                    enter: spec_fn(StepId) -> Result<(), Error>,
                                    exit: spec_fn(StepId) -> Result<(), Error>,
                                |
                                    guard_obeys(can_enter, enter) && guard_obeys(
                                        can_exit,
                                        exit,
                                    ) implies #[trigger] next_outcome(
                                    step_store,
                                    enter,
                                    exit,
                                    start,
                                    DFSDirection::SiblingOrUp,
                                    self.stack@,
                                    DFSDirection::SiblingOrUp,
                                    Err(e),
                                ) by {
                                    lemma_levels(step_store, can_exit, exit, start, up);
                                    assert(up_outcome_by(
                                        step_store,
                                        enter,
                                        exit,
                                        start,
                                        up,
                                        self.stack@,
                                        DFSDirection::SiblingOrUp,
                                        Err(e),
                                    ));
                                }
                            }
                            return Err(e);
                        },
                        DFSStep::CannotLeaveForSibling(e) => {
                            proof {
                                assert forall|
                                    enter: spec_fn(StepId) -> Result<(), Error>,
                                    exit: spec_fn(StepId) -> Result<(), Error>,
                                |
                                    guard_obeys(can_enter, enter) && guard_obeys(
                                        can_exit,
                                        exit,
                                    ) implies #[trigger] next_outcome(
                                    step_store,
                                    enter,
                                    exit,
                                    start,
                                    DFSDirection::SiblingOrUp,
                                    self.stack@,
                                    DFSDirection::SiblingOrUp,
                                    Err(e),
                                ) by {
                                    lemma_levels(step_store, can_exit, exit, start, up);
                                    assert(up_outcome_by(
                                        step_store,
                                        enter,
                                        exit,
                                        start,
                                        up,
                                        self.stack@,
                                        DFSDirection::SiblingOrUp,
                                        Err(e),
                                    ));
                                }
                            }
                            return Err(e);
                        },
                        _ => {
                            self.next_direction = DFSDirection::Done;
                            proof {
                                assert forall|
                                    enter: spec_fn(StepId) -> Result<(), Error>,
                                    exit: spec_fn(StepId) -> Result<(), Error>,
                                |
                                    guard_obeys(can_enter, enter) && guard_obeys(
                                        can_exit,
                                        exit,
                                    ) implies #[trigger] next_outcome(
                                    step_store,
                                    enter,
                                    exit,
                                    start,
                                    DFSDirection::SiblingOrUp,
                                    self.stack@,
                                    DFSDirection::Done,
                                    Ok(None),
                                ) by {
                                    lemma_levels(step_store, can_exit, exit, start, up);
                                    assert(up_outcome_by(
                                        step_store,
                                        enter,
                                        exit,
                                        start,
                                        up,
                                        self.stack@,
                                        DFSDirection::Done,
                                        Ok(None),
                                    ));
                                }
                            }
                            return Ok(None);
                        },
                    }
                }
            },
        }
        // from here on the cursor goes down
        let ghost base = self.stack@;
        let ghost mut path: Seq<StepId> = Seq::empty();
        let ghost rank = choose|rank: spec_fn(StepId) -> nat| ranks_descent(step_store, rank);
        let ghost from = old(self).direction();
        let mut result: Result<Option<StepId>, Error> = Ok(None);
        proof {
            assert(base + path =~= base);
        }
        loop
            invariant
                guard_is_total(can_enter),
                ranks_descent(step_store, rank),
                base.len() > 0,
                self.stack@ == base + path,
                chain_was_entered(step_store, can_enter, base.last(), path),
            ensures
                base.len() > 0,
                chain_was_entered(step_store, can_enter, base.last(), path),
                self.stack@ == base + path,
                match first_child(step_store, bottom(base.last(), path)) {
                    None => result == Ok::<Option<StepId>, Error>(Some(bottom(base.last(), path)))
                        && self.next_direction == DFSDirection::SiblingOrUp,
                    Some(c) => result matches Err(e) && call_ensures(can_enter, (&c,), Err(e))
                        && self.next_direction == DFSDirection::Down,
                },
            decreases rank(bottom(base.last(), path)),
        {
            let ghost top = bottom(base.last(), path);
            proof {
                assert((base + path).last() == top);
            }
            match self.go_down(&can_enter, step_store) {
                DFSStep::DownTo(to) => {
                    proof {
                        let longer = path.push(to);
                        assert forall|i: int| 0 <= i < longer.len() implies first_child(
                            step_store,
                            bottom(base.last(), longer.subrange(0, i)),
                        ) == Some(#[trigger] longer[i]) && guard_passes(can_enter, longer[i]) by {
                            if i < path.len() {
                                assert(longer.subrange(0, i) =~= path.subrange(0, i));
                            } else {
                                assert(longer.subrange(0, i) =~= path);
                            }
                        }
                        assert(base + longer =~= (base + path).push(to));
                        path = longer;
                    }
                },
                DFSStep::NothingMoreDown => {
                    self.next_direction = DFSDirection::SiblingOrUp;
                    let current = self.stack[self.stack.len() - 1];
                    result = Ok(Some(current));
                    break ;
                },
                DFSStep::CannotGoto(e) => {
                    self.next_direction = DFSDirection::Down;
                    result = Err(e);
                    break ;
                },
                _ => {
                    self.next_direction = DFSDirection::Done;
                    result = Ok(None);
                    break ;
                },
            }
        }
        proof {
            assert forall|
                enter: spec_fn(StepId) -> Result<(), Error>,
                exit: spec_fn(StepId) -> Result<(), Error>,
            |
                guard_obeys(can_enter, enter)
                    && guard_obeys(can_exit, exit) implies #[trigger] next_outcome(
                step_store,
                enter,
                exit,
                start,
                from,
                self.stack@,
                self.next_direction,
                result,
            ) by {
                assert(entered_chain(step_store, enter, base.last(), path));
                assert(down_outcome_by(
                    step_store,
                    enter,
                    base,
                    path,
                    self.stack@,
                    self.next_direction,
                    result,
                ));
                if from == DFSDirection::SiblingOrUp {
                    lemma_levels(step_store, can_exit, exit, start, up);
                    assert(up_outcome_by(
                        step_store,
                        enter,
                        exit,
                        start,
                        up,
                        self.stack@,
                        self.next_direction,
                        result,
                    ));
                }
            }
        }
        result
    }
}

/// The levels that the guard let the cursor leave are levels that may be
/// left, for any function that the guard obeys.
pub proof fn lemma_levels<FX: Fn(&StepId) -> Result<(), Error>>(
    store: &ObjectStore<Step, StepId>,
    can_exit: FX,
    exit: spec_fn(StepId) -> Result<(), Error>,
    stack: Seq<StepId>,
    up: int,
)
    requires
        guard_obeys(can_exit, exit),
        0 <= up <= stack.len(),
        forall|i: int|
            0 <= i < up ==> level_was_left(
                store,
                can_exit,
                #[trigger] stack.subrange(0, stack.len() - i),
            ),
    ensures
        forall|i: int|
            0 <= i < up
                ==> leaves_level(store, exit, #[trigger] stack.subrange(0, stack.len() - i)),
{
}

} // verus!
