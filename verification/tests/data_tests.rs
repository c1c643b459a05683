use std::collections::{HashMap, HashSet};
use stepflow::errors::{IdError, InvalidValue, InvalidVars};
use stepflow::id::{StepId, VarId};
use stepflow::statedata::{StateData, ValidVal};
use stepflow::statedata_filtered::StateDataFiltered;
use stepflow::step::Step;
use stepflow::value::{StringValue, TrueValue, Value};
use stepflow::var::{StringVar, Var};

fn test_var_val(count: &mut u32) -> (Var, Value) {
    let id = VarId::new(0xff00 | *count);
    *count += 1;
    let var = StringVar::new(id).boxed();
    let val: Value = StringValue::try_new("test").unwrap().boxed();
    (var, val)
}

#[test]
fn merge() {
    let mut count = 0;
    let mut data1 = StateData::new();
    let mut data2 = StateData::new();
    let mut data_merged = StateData::new();

    let var1 = test_var_val(&mut count);
    let var2 = test_var_val(&mut count);
    let var3 = test_var_val(&mut count);
    let var4 = test_var_val(&mut count);

    data1.insert(&var1.0, var1.1).unwrap();
    data2.insert(&var2.0, var2.1).unwrap();
    data2.insert(&var3.0, var3.1).unwrap();
    data_merged.insert(&var4.0, var4.1).unwrap();

    assert!(!data_merged.contains(var1.0.id()));
    data_merged.merge_from(data1);
    assert!(data_merged.contains(var1.0.id()));

    assert!(!data_merged.contains(var2.0.id()));
    assert!(!data_merged.contains(var3.0.id()));
    data_merged.merge_from(data2);
    assert!(data_merged.contains(var2.0.id()));
    assert!(data_merged.contains(var3.0.id()));
}

#[test]
fn merge_prefers_the_new_value() {
    let var = StringVar::new(VarId::new(1)).boxed();
    let other = StringVar::new(VarId::new(2)).boxed();
    let mut data = StateData::new();
    data.insert(&var, StringValue::try_new("old").unwrap().boxed()).unwrap();
    data.insert(&other, StringValue::try_new("kept").unwrap().boxed()).unwrap();
    let mut src = StateData::new();
    src.insert(&var, StringValue::try_new("new").unwrap().boxed()).unwrap();
    data.merge_from(src);
    assert_eq!(data.len(), 2);
    assert_eq!(data.get(var.id()).unwrap().get_val().downcast::<StringValue>().unwrap().val(), "new");
    assert_eq!(data.get(other.id()).unwrap().get_val().downcast::<StringValue>().unwrap().val(), "kept");
}

#[test]
fn insert_checks_the_kind() {
    let var = StringVar::new(VarId::new(1)).boxed();
    let mut data = StateData::new();
    assert_eq!(data.insert(&var, TrueValue::new().boxed()), Err(InvalidValue::WrongType));
    assert!(!data.contains(var.id()));
    assert_eq!(data.get(var.id()), None);
    assert_eq!(data.insert(&var, StringValue::try_new("x").unwrap().boxed()), Ok(()));
    let expected = ValidVal::try_new(StringValue::try_new("x").unwrap().boxed(), &var).unwrap();
    assert_eq!(data.get(var.id()), Some(&expected));
}

#[test]
fn from_vals_err() {
    let mut count = 0;
    let var1 = test_var_val(&mut count);
    let var2 = test_var_val(&mut count);
    let badvar1: (Var, Value) =
        (StringVar::new(VarId::new(0xff00 | 10)).boxed(), TrueValue::new().boxed());
    let badvar2: (Var, Value) =
        (StringVar::new(VarId::new(0xff00 | 11)).boxed(), TrueValue::new().boxed());
    let badvar1_id = badvar1.0.id().clone();
    let badvar2_id = badvar2.0.id().clone();

    let vars = vec![var1, badvar1, var2, badvar2];
    let vars = vars.iter().map(|(var, val)| (var, val.clone())).collect::<Vec<_>>();

    let mut bad_ids = HashMap::new();
    bad_ids.insert(badvar1_id.val(), InvalidValue::WrongType);
    bad_ids.insert(badvar2_id.val(), InvalidValue::WrongType);
    let expected_err = InvalidVars(bad_ids);

    assert_eq!(StateData::from_vals(vars), Err(expected_err));
}

#[test]
fn from_vals_ok() {
    let mut count = 0;
    let var1 = test_var_val(&mut count);
    let var2 = test_var_val(&mut count);
    let later: Value = StringValue::try_new("later").unwrap().boxed();
    let vars = vec![(&var1.0, var1.1.clone()), (&var2.0, var2.1.clone()), (&var1.0, later.clone())];
    let data = StateData::from_vals(vars).unwrap();
    assert_eq!(data.len(), 2);
    assert_eq!(data.get(var1.0.id()).unwrap().get_val(), &later);
    assert_eq!(data.get(var2.0.id()).unwrap().get_val(), &var2.1);
    assert_eq!(StateData::from_vals(vec![]), Ok(StateData::new()));
}

#[test]
fn contains_only() {
    let mut count = 0;
    let mut data = StateData::new();

    let var1 = test_var_val(&mut count);
    let var2 = test_var_val(&mut count);
    let var3 = test_var_val(&mut count);

    // add var1 + var2
    data.insert(&var1.0, var1.1).unwrap();
    data.insert(&var2.0, var2.1).unwrap();

    let contains_only = vec![*var1.0.id(), *var2.0.id()];

    // check only contains var1 + var2
    assert_eq!(data.contains_only(&contains_only), true);

    // add var3
    data.insert(&var3.0, var3.1).unwrap();

    // check only contains var1 + var2
    assert!(!data.contains_only(&contains_only));
}

#[test]
fn contains_only_asks_for_every_identity() {
    let mut count = 0;
    let var1 = test_var_val(&mut count);
    let var2 = test_var_val(&mut count);
    let mut data = StateData::new();
    assert!(data.contains_only(&vec![]));
    data.insert(&var1.0, var1.1).unwrap();
    assert!(data.contains_only(&vec![*var1.0.id()]));
    assert!(data.contains_only(&vec![*var1.0.id(), *var1.0.id()]));
    assert!(!data.contains_only(&vec![*var1.0.id(), *var2.0.id()]));
    assert!(!data.contains_only(&vec![]));
}

#[test]
fn iter() {
    let mut count = 0;
    let mut data = StateData::new();
    let var1 = test_var_val(&mut count);
    let var2 = test_var_val(&mut count);
    data.insert(&var1.0, var1.1.clone()).unwrap();
    data.insert(&var2.0, var2.1.clone()).unwrap();

    let hashmap = data.iter_val().into_iter().collect::<HashMap<_, _>>();
    assert_eq!(hashmap.len(), 2);
    assert_eq!(hashmap.get(var1.0.id()), Some(&&var1.1));
    assert_eq!(hashmap.get(var2.0.id()), Some(&&var2.1));
}

#[test]
fn state_data_eq_and_clone() {
    let mut count = 0;
    let var1 = test_var_val(&mut count);
    let var2 = test_var_val(&mut count);
    let mut a = StateData::new();
    a.insert(&var1.0, var1.1.clone()).unwrap();
    a.insert(&var2.0, var2.1.clone()).unwrap();
    let mut b = StateData::new();
    b.insert(&var2.0, var2.1.clone()).unwrap();
    assert!(a != b);
    b.insert(&var1.0, var1.1.clone()).unwrap();
    assert!(a == b);
    assert!(a.clone() == a);
    b.insert(&var1.0, StringValue::try_new("other").unwrap().boxed()).unwrap();
    assert!(a != b);
}

#[test]
fn statedata_filtered_basic() {
    let mut count = 0;
    let var1 = test_var_val(&mut count);
    let var2 = test_var_val(&mut count);

    let val1_valid = ValidVal::try_new(var1.1.clone(), &var1.0).unwrap();

    // add var1 + var2
    let mut data = StateData::new();
    data.insert(&var1.0, var1.1).unwrap();
    data.insert(&var2.0, var2.1).unwrap();

    // create filtered statedata
    let mut filter = HashSet::new();
    filter.insert(var1.0.id().val());
    let data_filtered = StateDataFiltered::new(&data, filter);

    assert_eq!(data_filtered.get(var1.0.id()), Some(&val1_valid));
    assert_eq!(data_filtered.get(var2.0.id()), None);
    assert!(data_filtered.contains(var1.0.id()));
    assert!(!data_filtered.contains(var2.0.id()));
    assert!(!data_filtered.contains(&VarId::new(5)));
}

#[test]
fn test_add_get_substep() {
    // no substep
    let mut step = Step::test_new(StepId::new(0xff00));
    assert_eq!(step.first_substep(), None);

    // add one
    let substep1 = Step::test_new(StepId::new(0xff01));
    step.push_substep(substep1.id.clone());
    assert_eq!(step.first_substep().unwrap(), &substep1.id);
    assert_eq!(step.next_substep(&substep1.id), None);

    // add another
    let substep2 = Step::test_new(StepId::new(0xff02));
    step.push_substep(substep2.id.clone());
    assert_eq!(step.first_substep().unwrap(), &substep1.id);
    assert_eq!(step.next_substep(&substep1.id).unwrap(), &substep2.id);
    assert_eq!(step.next_substep(&substep2.id), None);
    assert_eq!(step.next_substep(&StepId::new(5)), None);
}

#[test]
fn step_guards() {
    let mut count = 0;
    let in1 = test_var_val(&mut count);
    let in2 = test_var_val(&mut count);
    let out1 = test_var_val(&mut count);
    let step = Step::new(
        StepId::new(1),
        Some(vec![*in1.0.id(), *in2.0.id()]),
        vec![*out1.0.id()],
    );
    assert_eq!(step.get_input_vars(), &Some(vec![*in1.0.id(), *in2.0.id()]));
    assert_eq!(step.get_output_vars(), &vec![*out1.0.id()]);
    let mut data = StateData::new();
    // the first input that is missing is named
    assert_eq!(step.can_enter(&data), Err(IdError::IdMissing(*in1.0.id())));
    data.insert(&in2.0, in2.1).unwrap();
    assert_eq!(step.can_enter(&data), Err(IdError::IdMissing(*in1.0.id())));
    data.insert(&in1.0, in1.1).unwrap();
    assert_eq!(step.can_enter(&data), Ok(()));
    assert_eq!(step.can_exit(&data), Err(IdError::IdMissing(*out1.0.id())));
    data.insert(&out1.0, out1.1).unwrap();
    assert_eq!(step.can_exit(&data), Ok(()));

    // no inputs declared: entry is free, and leaving asks for the outputs
    let free = Step::new(StepId::new(2), None, vec![VarId::new(77)]);
    assert_eq!(free.can_enter(&StateData::new()), Ok(()));
    assert_eq!(free.can_exit(&StateData::new()), Err(IdError::IdMissing(VarId::new(77))));
}
