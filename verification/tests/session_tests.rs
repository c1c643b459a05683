use stepflow::action::{Action, ActionResult, SetDataAction, TestAction};
use stepflow::errors::{ActionError, Error, IdError};
use stepflow::id::{ActionId, SessionId, StepId, VarId};
use stepflow::object_store::ObjectStore;
use stepflow::object_store_filtered::ObjectStoreFiltered;
use stepflow::session::{AdvanceBlockedOn, Session};
use stepflow::statedata::StateData;
use stepflow::statedata_filtered::StateDataFiltered;
use stepflow::step::Step;
use stepflow::value::{BoolValue, StringValue, TrueValue};
use stepflow::var::Var;

fn new_simple_step(id: StepId) -> Result<Step, IdError<StepId>> {
    Ok(Step::new(id, None, vec![]))
}

fn add_new_simple_substep(parent_id: &StepId, step_store: &mut ObjectStore<Step, StepId>) -> StepId {
    let substep_id = step_store.insert_new(new_simple_step).unwrap();
    push_substep(parent_id, substep_id, step_store)
}

fn push_substep(parent_id: &StepId, step_id: StepId, step_store: &mut ObjectStore<Step, StepId>) -> StepId {
    let parent = step_store.get_mut(parent_id).unwrap();
    parent.push_substep(step_id.clone());
    step_id
}

fn step_str_output(session: &Session, var_id: &VarId, val: &'static str) -> (StepId, StateData) {
    let mut state_data = StateData::new();
    let var = session.var_store().get(var_id).unwrap();
    state_data.insert(var, StringValue::try_new(val).unwrap().boxed()).unwrap();
    (session.current_step().unwrap().clone(), state_data)
}

#[test]
fn empty_session_advance() {
    let mut session = Session::new(SessionId::new(0xff00));
    let advance_result = session.advance(None);
    assert_eq!(advance_result, Ok(AdvanceBlockedOn::FinishedAdvancing));
}

#[test]
fn progress_session_inputs_outputs() {
    let mut session = Session::new(SessionId::new(0xff00));

    let var_output1_id = session.test_new_stringvar(VarId::new(0xff00));
    let var_input2_id = session.test_new_stringvar(VarId::new(0xff01));
    let var_output2_id = session.test_new_stringvar(VarId::new(0xff02));

    let root_step_id = session
        .step_store_mut()
        .insert_new_named("root_step", |id| {
            Ok(Step::new(
                id,
                Some(vec![var_input2_id.clone()]),
                vec![var_output1_id.clone(), var_output2_id.clone()],
            ))
        })
        .unwrap();
    session.push_root_substep(root_step_id);

    let substep1_id = session
        .step_store_mut()
        .insert_new_named("SubStep 1", |id| Ok(Step::new(id, None, vec![var_output1_id.clone()])))
        .unwrap();
    let substep2_id = session
        .step_store_mut()
        .insert_new_named("SubStep 2", |id| {
            Ok(Step::new(id, Some(vec![var_input2_id.clone()]), vec![var_output2_id.clone()]))
        })
        .unwrap();

    let root_step = session.step_store_mut().get_mut(&root_step_id).unwrap();
    root_step.push_substep(substep1_id.clone());
    root_step.push_substep(substep2_id.clone());

    assert_eq!(
        session.try_enter_next_step(None),
        Err(Error::VarId(IdError::IdMissing(var_input2_id.clone())))
    ); // start without proper input

    // go to substep1
    let output1 = step_str_output(&session, &var_input2_id, "input2");
    assert_eq!(session.try_enter_next_step(Some((&output1.0, output1.1))), Ok(Some(substep1_id.clone())));

    // go to substep2
    assert_eq!(
        session.try_enter_next_step(None),
        Err(Error::VarId(IdError::IdMissing(var_output1_id.clone())))
    ); // didn't add output
    let output2 = step_str_output(&session, &var_output1_id, "output1");
    assert_eq!(session.try_enter_next_step(Some((&output2.0, output2.1))), Ok(Some(substep2_id.clone())));

    // done with states but can't leave root without the output from substep 2
    assert_eq!(
        session.try_enter_next_step(None),
        Err(Error::VarId(IdError::IdMissing(var_output2_id.clone())))
    );
    let output3 = step_str_output(&session, &var_output2_id, "output2");
    assert_eq!(session.try_enter_next_step(Some((&output3.0, output3.1))), Ok(None));

    // try it again to check we're still done advancing
    assert_eq!(session.try_enter_next_step(None), Ok(None));
}

#[test]
fn simple_action() {
    let (mut session, root_step_id) = Session::test_new(SessionId::new(0xff00));

    let substep1 = add_new_simple_substep(&root_step_id, session.step_store_mut());
    let substep2 = add_new_simple_substep(&root_step_id, session.step_store_mut());
    let substep3 = add_new_simple_substep(&root_step_id, session.step_store_mut());

    let test_action_id = session
        .action_store_mut()
        .insert_new(|id| Ok(TestAction::new_with_id(id, true).boxed()))
        .unwrap();
    session.set_action_for_step(test_action_id, None).unwrap();

    let mut steps_executed: Vec<StepId> = vec![];
    loop {
        match session.advance(None) {
            Ok(advance_result) => match advance_result {
                AdvanceBlockedOn::ActionStartWith(_, _) => (),
                AdvanceBlockedOn::FinishedAdvancing => break,
                _ => panic!("Unexpected advance result: {:?}", advance_result),
            },
            Err(err) => {
                panic!("unexpected error trying to advance: {:?}", err);
            }
        }
        steps_executed.push(session.current_step().unwrap().clone());
    }

    // make sure we advanced all the steps
    assert_eq!(steps_executed, vec![substep1, substep2, substep3]);
}

#[test]
fn specific_generic_actions() {
    // create session + steps
    let (mut session, root_step_id) = Session::test_new(SessionId::new(0xff00));
    let var_id = session.test_new_stringvar(VarId::new(0xff00));

    let substep1 = session
        .step_store_mut()
        .insert_new(|id| Ok(Step::new(id, None, vec![var_id.clone()])))
        .unwrap();
    push_substep(&root_step_id, substep1.clone(), session.step_store_mut());

    let substep2 = session
        .step_store_mut()
        .insert_new(|id| Ok(Step::new(id, Some(vec![var_id.clone()]), vec![var_id.clone()])))
        .unwrap();
    push_substep(&root_step_id, substep2.clone(), session.step_store_mut());

    // create statedata for action
    let mut statedata_exec = StateData::new();
    let var = session.var_store().get(&var_id).unwrap();
    statedata_exec.insert(var, StringValue::try_new("hi").unwrap().boxed()).unwrap();

    // create actions
    let set_action_id = session
        .action_store_mut()
        .insert_new(|id| Ok(SetDataAction::new(id, statedata_exec, 2).boxed()))
        .unwrap();

    let test_action_id = session
        .action_store_mut()
        .insert_new(|id| Ok(TestAction::new_with_id(id, true).boxed()))
        .unwrap();

    // set action for substep1, test_action as generic one
    session.set_action_for_step(set_action_id, Some(&substep1)).unwrap();
    session.set_action_for_step(test_action_id, None).unwrap();

    // 1. advance to substep 1, fail to execute specific setval, succeed generic test_action
    if let AdvanceBlockedOn::ActionStartWith(_, _) = session.advance(None).unwrap() {
        assert_eq!(*session.current_step().unwrap(), substep1.clone()); // advanced to substep1
    } else {
        panic!("did not advance");
    }

    // 2. fail advance to substep2 (setval::count=1 now but min is 2), succeed setval::count=2
    if let AdvanceBlockedOn::ActionStartWith(_, _) = session.advance(None).unwrap() {
        assert!(!session.state_data().contains(&var_id)); // setval still hasn't worked
    } else {
        panic!("did not advance");
    }

    // 3. succeed advance to substep2 (setval executed, then advanced step), succeed generic test_action
    if let AdvanceBlockedOn::ActionStartWith(_, _) = session.advance(None).unwrap() {
        assert_eq!(*session.current_step().unwrap(), substep2.clone()); // advanced to substep2
        assert!(session.state_data().contains(&var_id)); // setval worked
    } else {
        panic!("did not advance");
    }

    // 4. done
    assert_eq!(session.advance(None).unwrap(), AdvanceBlockedOn::FinishedAdvancing);
}

#[test]
fn auto_advance() {
    let (mut session, root_step_id) = Session::test_new(SessionId::new(0xff00));
    let test_action_id = session
        .action_store_mut()
        .insert_new(|id| Ok(TestAction::new_with_id(id, false).boxed()))
        .unwrap();

    let _substep1 = add_new_simple_substep(&root_step_id, session.step_store_mut());
    let _substep2 = add_new_simple_substep(&root_step_id, session.step_store_mut());
    let _substep3 = add_new_simple_substep(&root_step_id, session.step_store_mut());

    session.set_action_for_step(test_action_id, None).unwrap();

    // one call should advance to the end as we test_action keeps finishing so can keep advancing
    let advance = session.advance(None);
    assert_eq!(advance, Ok(AdvanceBlockedOn::FinishedAdvancing));
    // no data came of it
    assert_eq!(session.state_data().len(), 0);
}

#[test]
fn advance_blocked_on_eq() {
    let abo_finish = AdvanceBlockedOn::FinishedAdvancing;
    assert_eq!(abo_finish, abo_finish);

    let abo_cannot_fulfill = AdvanceBlockedOn::ActionCannotFulfill;
    assert_ne!(abo_finish, abo_cannot_fulfill);

    let action_id = ActionId::new(0xff00);
    let abo_start_true = AdvanceBlockedOn::ActionStartWith(action_id.clone(), BoolValue::new(true).boxed());
    let abo_start_false = AdvanceBlockedOn::ActionStartWith(action_id, BoolValue::new(false).boxed());
    assert_eq!(abo_start_false, abo_start_false);
    assert_ne!(abo_start_true, abo_start_false);
    assert_ne!(abo_start_false, abo_finish);
}

#[test]
fn declarations_are_registered_by_name() {
    let mut session = Session::new(SessionId::new(1));
    let var_id = session
        .var_store_mut()
        .insert_new_named("my_var", |id| Ok(stepflow::var::StringVar::new(id).boxed()))
        .unwrap();
    assert_eq!(session.var_store().id_from_name("my_var"), Some(&var_id));
    assert!(session.var_store().get(&var_id).unwrap().is::<stepflow::var::StringVar>());
    // the two steps of a fresh session are the one for every step and the root
    assert_eq!(session.step_store().id_from_name("STEP_ID_ACTION_ALL"), Some(&StepId::new(0)));
    assert_eq!(session.step_store().id_from_name("SESSION_ROOT"), Some(&StepId::new(1)));
    assert_eq!(session.current_step(), Ok(&StepId::new(1)));
}

#[test]
fn finished_stays_finished() {
    let (mut session, root_step_id) = Session::test_new(SessionId::new(1));
    add_new_simple_substep(&root_step_id, session.step_store_mut());
    assert_eq!(session.advance(None), Ok(AdvanceBlockedOn::FinishedAdvancing));
    for _ in 0..3 {
        assert_eq!(session.advance(None), Ok(AdvanceBlockedOn::FinishedAdvancing));
    }
    assert_eq!(session.current_step(), Err(Error::NoStateToEval));
    // output for a step when there is none left is refused
    let stray = (root_step_id, StateData::new());
    assert_eq!(session.advance(Some((&stray.0, stray.1))), Err(Error::NoStateToEval));
}

#[test]
fn output_for_another_step_is_refused() {
    let (mut session, root_step_id) = Session::test_new(SessionId::new(1));
    let var_id = session.test_new_stringvar(VarId::new(7));
    let substep1 = session
        .step_store_mut()
        .insert_new(|id| Ok(Step::new(id, None, vec![var_id])))
        .unwrap();
    push_substep(&root_step_id, substep1, session.step_store_mut());
    let substep2 = add_new_simple_substep(&root_step_id, session.step_store_mut());
    let action_id = session
        .action_store_mut()
        .insert_new(|id| Ok(TestAction::new_with_id(id, true).boxed()))
        .unwrap();
    session.set_action_for_step(action_id, None).unwrap();
    assert!(matches!(session.advance(None), Ok(AdvanceBlockedOn::ActionStartWith(_, _))));
    assert_eq!(session.current_step(), Ok(&substep1));

    // the output names substep2, the cursor stands on substep1
    let output = step_str_output(&session, &var_id, "hi");
    let refused = session.advance(Some((&substep2, output.1)));
    assert_eq!(refused, Err(Error::StepId(IdError::IdUnexpected(substep2))));
    assert!(!session.state_data().contains(&var_id));
    assert_eq!(session.state_data().len(), 0);
    assert_eq!(session.current_step(), Ok(&substep1));

    // the same output under the right step is merged and the cursor moves
    let output = step_str_output(&session, &var_id, "hi");
    let moved = session.advance(Some((&output.0, output.1)));
    assert!(matches!(moved, Ok(AdvanceBlockedOn::ActionStartWith(id, _)) if id == action_id));
    assert!(session.state_data().contains(&var_id));
    assert_eq!(session.current_step(), Ok(&substep2));
}

struct Recorder {
    id: ActionId,
    name: &'static str,
    answer_finished: Option<StateData>,
    log: std::rc::Rc<std::cell::RefCell<Vec<&'static str>>>,
}

impl Action for Recorder {
    fn action_id(&self) -> ActionId {
        self.id
    }

    fn id(&self) -> &ActionId {
        &self.id
    }

    fn start(
        &mut self,
        _step: &Step,
        _step_name: Option<&str>,
        _step_data: &StateDataFiltered,
        _vars: &ObjectStoreFiltered<Var, VarId>,
    ) -> Result<ActionResult, ActionError> {
        self.log.borrow_mut().push(self.name);
        match &self.answer_finished {
            Some(data) => Ok(ActionResult::Finished(data.clone())),
            None => Ok(ActionResult::CannotFulfill),
        }
    }
}

#[test]
fn specific_action_is_asked_before_the_generic_one() {
    let (mut session, root_step_id) = Session::test_new(SessionId::new(1));
    let substep1 = add_new_simple_substep(&root_step_id, session.step_store_mut());
    let log = std::rc::Rc::new(std::cell::RefCell::new(Vec::new()));
    let specific = session
        .action_store_mut()
        .insert_new(|id| {
            let action: Box<dyn Action> =
                Box::new(Recorder { id, name: "specific", answer_finished: None, log: log.clone() });
            Ok(action)
        })
        .unwrap();
    let generic = session
        .action_store_mut()
        .insert_new(|id| {
            let action: Box<dyn Action> = Box::new(Recorder {
                id,
                name: "generic",
                answer_finished: Some(StateData::new()),
                log: log.clone(),
            });
            Ok(action)
        })
        .unwrap();
    session.set_action_for_step(specific, Some(&substep1)).unwrap();
    session.set_action_for_step(generic, None).unwrap();
    assert_eq!(
        session.set_action_for_step(generic, Some(&substep1)),
        Err(Error::StepId(IdError::IdAlreadyExists(substep1)))
    );
    assert_eq!(session.advance(None), Ok(AdvanceBlockedOn::FinishedAdvancing));
    assert_eq!(*log.borrow(), vec!["specific", "generic"]);
}

#[test]
fn finished_with_the_wrong_data_is_an_error_and_not_merged() {
    let (mut session, root_step_id) = Session::test_new(SessionId::new(1));
    let var_id = session.test_new_stringvar(VarId::new(7));
    let other_id = session.test_new_stringvar(VarId::new(8));
    let substep1 = session
        .step_store_mut()
        .insert_new(|id| Ok(Step::new(id, None, vec![var_id])))
        .unwrap();
    push_substep(&root_step_id, substep1, session.step_store_mut());

    // data for another declaration than the step's output
    let mut wrong = StateData::new();
    let other = session.var_store().get(&other_id).unwrap();
    wrong.insert(other, StringValue::try_new("hi").unwrap().boxed()).unwrap();
    let action_id = session
        .action_store_mut()
        .insert_new(|id| Ok(SetDataAction::new(id, wrong, 0).boxed()))
        .unwrap();
    session.set_action_for_step(action_id, Some(&substep1)).unwrap();
    assert_eq!(session.advance(None), Err(Error::InvalidStateDataError));
    assert_eq!(session.state_data().len(), 0);

    // no data at all where the step declares an output
    let empty_id = session
        .action_store_mut()
        .insert_new(|id| Ok(TestAction::new_with_id(id, false).boxed()))
        .unwrap();
    assert_eq!(session.call_action(&empty_id, &substep1), Err(Error::InvalidStateDataError));
    assert_eq!(
        session.call_action(&empty_id, &StepId::new(99)),
        Err(Error::StepId(IdError::IdMissing(StepId::new(99))))
    );
    assert_eq!(
        session.call_action(&ActionId::new(99), &substep1),
        Err(Error::ActionId(IdError::IdMissing(ActionId::new(99))))
    );
    assert_eq!(session.state_data().len(), 0);
}

#[test]
fn no_action_and_a_closed_guard_is_the_guards_error() {
    let (mut session, root_step_id) = Session::test_new(SessionId::new(1));
    let var_id = session.test_new_stringvar(VarId::new(7));
    let substep1 = session
        .step_store_mut()
        .insert_new(|id| Ok(Step::new(id, Some(vec![var_id]), vec![])))
        .unwrap();
    push_substep(&root_step_id, substep1, session.step_store_mut());
    assert_eq!(session.advance(None), Err(Error::VarId(IdError::IdMissing(var_id))));
    assert_eq!(session.current_step(), Ok(&root_step_id));
    assert_eq!(*session.id(), SessionId::new(1));
    assert_eq!(session.step_store().get_by_name("root_step").unwrap().id, root_step_id);
    assert!(session.action_store().get(&ActionId::new(0)).is_none());
    let _ = TrueValue::new();
}
