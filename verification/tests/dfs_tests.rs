use std::cell::Cell;
use stepflow::dfs::DepthFirstSearch;
use stepflow::errors::Error;
use stepflow::id::StepId;
use stepflow::object_store::ObjectStore;
use stepflow::step::Step;

fn check_fail(fail: Option<&StepId>, step_id_check: &StepId, has_failed: &Cell<bool>) -> Result<(), Error> {
    if has_failed.get() {
        return Ok(());
    }
    if let Some(step_id_fail) = fail {
        if step_id_fail == step_id_check {
            has_failed.set(true);
            return Err(Error::InvalidStateDataError);
        }
    }
    Ok(())
}

fn assert_dfs_order(
    root: StepId,
    step_store: &ObjectStore<Step, StepId>,
    expected_children: &Vec<StepId>,
    fail_on_enter: Option<&StepId>,
    fail_on_exit: Option<&StepId>,
) {
    let mut dfs = DepthFirstSearch::new(root);
    let mut count_matches = 0;
    let failed_enter = Cell::new(false);
    let failed_exit = Cell::new(false);
    let mut expected_iter = expected_children.iter();
    let mut expected_child_opt = expected_iter.next();
    loop {
        // get next expected child
        if expected_child_opt.is_none() {
            break;
        }
        let expected_child = expected_child_opt.unwrap();

        // get next child from DFS
        let next = dfs.next(
            |step_id: &StepId| check_fail(fail_on_enter, step_id, &failed_enter),
            |step_id: &StepId| check_fail(fail_on_exit, step_id, &failed_exit),
            step_store,
        );

        // handle result
        match next {
            Ok(step_id_opt) => {
                if let Some(step_id) = step_id_opt {
                    if step_id != *expected_child {
                        break;
                    } else {
                        count_matches = count_matches + 1;
                        expected_child_opt = expected_iter.next();
                    }
                } else {
                    // we're done with the entire tree
                    break;
                }
            }
            Err(err) => {
                // make sure it came from check_fail
                assert_eq!(err, Error::InvalidStateDataError);
            }
        }
    }
    assert_eq!(count_matches, expected_children.len());

    // we may be on the last step and asked to fail it's exit so we allow for
    // 2 passes on the final next() call for this situation (the first pass generates an error from the forced failure)
    for pass in 0..1 {
        let final_next = dfs.next(
            |step_id: &StepId| check_fail(fail_on_enter, step_id, &failed_enter),
            |step_id: &StepId| check_fail(fail_on_exit, step_id, &failed_exit),
            step_store,
        );

        match final_next {
            Ok(step_id_opt) => assert_eq!(step_id_opt, None),
            Err(err) => {
                assert_eq!(pass, 0); // we only force-fail once so it should only happen on the first pass
                assert_eq!(err, Error::InvalidStateDataError);
            }
        }
    }

    // make sure we failed something if we're testing for it
    if fail_on_enter.is_some() {
        assert_eq!(failed_enter.get(), true);
    }
    if fail_on_exit.is_some() {
        assert_eq!(failed_exit.get(), true);
    }
}

fn assert_dfs_order_with_failures(
    root: StepId,
    step_store: &ObjectStore<Step, StepId>,
    expected_children: &Vec<StepId>,
) {
    assert_dfs_order(root.clone(), step_store, expected_children, None, None);
    for ienter in 0..expected_children.len() {
        for iexit in 0..expected_children.len() {
            assert_dfs_order(
                root.clone(),
                step_store,
                expected_children,
                Some(&expected_children[ienter]),
                Some(&expected_children[iexit]),
            );
        }
    }
}

fn add_substeps(num: usize, parent_id: &StepId, step_store: &mut ObjectStore<Step, StepId>) -> Vec<StepId> {
    let mut result = Vec::new();
    for _ in 0..num {
        let substep_id = step_store.insert_new(|id| Ok(Step::new(id, None, vec![]))).unwrap();
        let parent_step = step_store.get_mut(parent_id).unwrap();
        parent_step.push_substep(substep_id.clone());
        result.push(substep_id);
    }
    result
}

#[test]
fn one_deep() {
    let mut step_store: ObjectStore<Step, StepId> = ObjectStore::new();
    let root = step_store.insert_new(|id| Ok(Step::new(id, None, vec![]))).unwrap();
    let child_ids = add_substeps(2, &root, &mut step_store);
    assert_dfs_order_with_failures(root, &step_store, &child_ids);
}

#[test]
fn two_deep() {
    let mut step_store: ObjectStore<Step, StepId> = ObjectStore::new();
    let root = step_store.insert_new(|id| Ok(Step::new(id, None, vec![]))).unwrap();
    let root_children = add_substeps(2, &root, &mut step_store);
    let children_1 = add_substeps(3, &root_children[0], &mut step_store);
    let children_2 = add_substeps(3, &root_children[1], &mut step_store);

    let mut expected_children = Vec::new();
    expected_children.extend(children_1);
    expected_children.extend(children_2);
    assert_dfs_order_with_failures(root, &step_store, &expected_children);
}

#[test]
fn mixed_depth() {
    let mut step_store: ObjectStore<Step, StepId> = ObjectStore::new();
    let root = step_store.insert_new(|id| Ok(Step::new(id, None, vec![]))).unwrap();
    let root_children = add_substeps(3, &root, &mut step_store);
    let children1 = add_substeps(1, &root_children[0].clone(), &mut step_store);
    let children3 = add_substeps(3, &root_children[2].clone(), &mut step_store);
    let children3_children2 = add_substeps(3, &children3[1].clone(), &mut step_store);

    let mut expected_children = Vec::new();
    expected_children.extend(children1);
    expected_children.push(root_children[1].clone());
    expected_children.push(children3[0].clone());
    expected_children.extend(children3_children2);
    expected_children.push(children3[2].clone());

    assert_dfs_order_with_failures(root, &step_store, &expected_children);
}

#[test]
fn leaves_in_preorder_then_done_for_good() {
    let mut step_store: ObjectStore<Step, StepId> = ObjectStore::new();
    let root = step_store.insert_new(|id| Ok(Step::new(id, None, vec![]))).unwrap();
    let top = add_substeps(2, &root, &mut step_store);
    let below = add_substeps(2, &top[0], &mut step_store);
    let mut dfs = DepthFirstSearch::new(root);
    assert_eq!(dfs.current(), Some(&root));
    let mut seen = Vec::new();
    while let Some(step) = dfs.next(|_| Ok(()), |_| Ok(()), &step_store).unwrap() {
        assert_eq!(dfs.current(), Some(&step));
        seen.push(step);
    }
    assert_eq!(seen, vec![below[0], below[1], top[1]]);
    assert_eq!(dfs.current(), None);
    for _ in 0..3 {
        assert_eq!(dfs.next(|_| Ok(()), |_| Ok(()), &step_store), Ok(None));
    }
}

#[test]
fn a_root_without_substeps_is_the_only_step() {
    let mut step_store: ObjectStore<Step, StepId> = ObjectStore::new();
    let root = step_store.insert_new(|id| Ok(Step::new(id, None, vec![]))).unwrap();
    let mut dfs = DepthFirstSearch::new(root);
    assert_eq!(dfs.next(|_| Ok(()), |_| Ok(()), &step_store), Ok(Some(root)));
    assert_eq!(dfs.next(|_| Ok(()), |_| Ok(()), &step_store), Ok(None));
}

#[test]
fn exit_guard_is_asked_before_the_entry_of_the_sibling() {
    let mut step_store: ObjectStore<Step, StepId> = ObjectStore::new();
    let root = step_store.insert_new(|id| Ok(Step::new(id, None, vec![]))).unwrap();
    let top = add_substeps(2, &root, &mut step_store);
    let mut dfs = DepthFirstSearch::new(root);
    assert_eq!(dfs.next(|_| Ok(()), |_| Ok(()), &step_store), Ok(Some(top[0])));
    // both guards object: the error is the one of the exit
    let blocked = dfs.next(|_| Err(Error::Other), |_| Err(Error::NoStateToEval), &step_store);
    assert_eq!(blocked, Err(Error::NoStateToEval));
    assert_eq!(dfs.current(), Some(&top[0]));
    // only the entry objects: the cursor stays and the same guards are asked again
    let blocked = dfs.next(|_| Err(Error::Other), |_| Ok(()), &step_store);
    assert_eq!(blocked, Err(Error::Other));
    assert_eq!(dfs.current(), Some(&top[0]));
    assert_eq!(dfs.next(|_| Ok(()), |_| Ok(()), &step_store), Ok(Some(top[1])));
    assert_eq!(dfs.next(|_| Ok(()), |_| Ok(()), &step_store), Ok(None));
}

#[test]
fn entry_guard_stops_the_way_down() {
    let mut step_store: ObjectStore<Step, StepId> = ObjectStore::new();
    let root = step_store.insert_new(|id| Ok(Step::new(id, None, vec![]))).unwrap();
    let top = add_substeps(1, &root, &mut step_store);
    let below = add_substeps(1, &top[0], &mut step_store);
    let mut dfs = DepthFirstSearch::new(root);
    let deep = below[0];
    let blocked = dfs.next(
        |id: &StepId| if *id == deep { Err(Error::Other) } else { Ok(()) },
        |_| Ok(()),
        &step_store,
    );
    assert_eq!(blocked, Err(Error::Other));
    assert_eq!(dfs.current(), Some(&top[0]));
    assert_eq!(dfs.next(|_| Ok(()), |_| Ok(()), &step_store), Ok(Some(deep)));
}
