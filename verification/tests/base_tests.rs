use std::collections::HashSet;
use stepflow::errors::IdError;
use stepflow::id::{StepId, TestObjectId};
use stepflow::object_store::ObjectStore;
use stepflow::object_store_filtered::ObjectStoreFiltered;
use stepflow::test_object::TestObject;

#[test]
fn test_id_vals_count_up() {
    let mut count: u16 = 0;
    assert_eq!(stepflow::test_object::test_id_val(&mut count), 0xff00);
    assert_eq!(stepflow::test_object::test_id_val(&mut count), 0xff01);
    assert_eq!(count, 2);
    let mut last = u16::MAX;
    assert_eq!(stepflow::test_object::test_id_val(&mut last), 0xffff);
    assert_eq!(last, 0);
}

fn test_id_val(count: &mut u32) -> u32 {
    let val = (u8::MAX as u32) << 8 | *count;
    *count += 1;
    val
}

#[test]
fn new_id() {
    let test_id = TestObjectId::new(10);

    // check eq & val()
    assert_eq!(test_id.val(), 10);
    assert_ne!(test_id.val(), TestObjectId::new(15).val());
}

#[test]
fn test_testid() {
    let mut count = 0;
    let test_id1: TestObjectId = TestObjectId::new(test_id_val(&mut count));
    let test_id2: TestObjectId = TestObjectId::new(test_id_val(&mut count));
    assert_ne!(test_id1.val(), test_id2.val());
}

#[test]
fn id_from_str() {
    let test_id = "48".parse::<TestObjectId>().unwrap();
    assert_eq!(test_id, TestObjectId::new(48));
}

#[test]
fn id_from_str_rejects_other_text() {
    assert_eq!("x48".parse::<StepId>(), Err(IdError::CannotParse("x48".to_owned())));
    assert_eq!(StepId::parse(""), Err(IdError::CannotParse(String::new())));
    assert_eq!(StepId::parse("4294967296"), Err(IdError::CannotParse("4294967296".to_owned())));
    assert_eq!(StepId::parse("4294967295"), Ok(StepId::new(u32::MAX)));
}

#[test]
fn ids_are_ordered_by_their_number() {
    assert!(StepId::new(1) < StepId::new(2));
    assert!(StepId::new(2) > StepId::new(1));
    assert_eq!(StepId::new(7).max(StepId::new(3)), StepId::new(7));
}

#[test]
fn id_to_string_and_default() {
    assert_eq!(StepId::new(48).to_string(), "48");
    assert_eq!(StepId::new(0).to_string(), "0");
    assert_eq!(StepId::default(), StepId::new(0));
}

#[test]
fn object_store_basic() {
    let mut test_store: ObjectStore<TestObject, TestObjectId> = ObjectStore::new();
    let t1 = test_store.insert_new(|id| Ok(TestObject::new(id, 100))).unwrap();
    let t2 = test_store.insert_new(|id| Ok(TestObject::new(id, 200))).unwrap();
    assert_ne!(t1, t2);

    // don't allow dupe
    let t1_dupe = TestObject::new(t1.clone(), 3);
    let dupe_result = test_store.register(t1_dupe);
    assert_eq!(dupe_result, Err(IdError::IdAlreadyExists(t1.clone())));

    // don't allow custom ids
    let testid_bad = TestObjectId::new(1000);
    let t_custom = test_store.insert_new(|_id| Ok(TestObject::new(testid_bad.clone(), 10)));
    assert_eq!(t_custom, Err(IdError::IdNotReserved(testid_bad)));

    // check values
    assert_eq!(test_store.get(&t1).unwrap().val(), 100);
    assert_eq!(test_store.get(&TestObjectId::new(999)), None);

    // callback failure
    assert_eq!(
        test_store.insert_new(|_id| Err(IdError::CannotParse("hi".to_owned()))),
        Err(IdError::CannotParse("hi".to_owned()))
    );
}

#[test]
fn register() {
    let mut count = 0;
    let mut test_store: ObjectStore<TestObject, TestObjectId> = ObjectStore::new();
    let id1 = TestObjectId::new(test_id_val(&mut count));
    let id2 = TestObjectId::new(test_id_val(&mut count));
    test_store.register(TestObject::new(id1, 100)).unwrap();
    test_store.register(TestObject::new(id2, 100)).unwrap();
    assert_eq!(test_store.register(TestObject::new(id1, 100)), Err(IdError::IdAlreadyExists(id1)));
}

#[test]
fn names() {
    let mut test_store: ObjectStore<TestObject, TestObjectId> = ObjectStore::new();
    let t1 = test_store.insert_new_named("t1", |id| Ok(TestObject::new(id, 100))).unwrap();
    let _t2 = test_store.insert_new_named(&"t2".to_owned(), |id| Ok(TestObject::new(id, 200))).unwrap();

    // don't allow register dupe name
    let t1_dupe = test_store.insert_new_named("t1", |id| Ok(TestObject::new(id, 150)));
    assert_eq!(t1_dupe, Err(IdError::NameAlreadyExists("t1".to_owned())));

    // check values
    assert_eq!(test_store.id_from_name("t1").unwrap().val(), t1.val());
    assert_eq!(test_store.get_by_name("t1").unwrap().val(), 100);
    assert_eq!(test_store.get_by_name("BAD"), None);
}

#[test]
fn get() {
    let mut test_store: ObjectStore<TestObject, TestObjectId> = ObjectStore::new();
    let t1 = test_store.insert_new_named("t1", |id| Ok(TestObject::new(id, 100))).unwrap();
    let _t2 = test_store.insert_new_named("t2", |id| Ok(TestObject::new(id, 200))).unwrap();

    test_store.get_mut(&t1).unwrap().set_val(5);
    assert_eq!(test_store.get(&t1).unwrap().val(), 5);
}

#[test]
fn object_store_filtered_basic() {
    let mut object_store: ObjectStore<TestObject, TestObjectId> = ObjectStore::new();
    let t1 = object_store.insert_new_named("t1", |id| Ok(TestObject::new(id, 100))).unwrap();
    let t2 = object_store.insert_new_named("t2", |id| Ok(TestObject::new(id, 200))).unwrap();

    // create filtered store
    let mut filter = HashSet::new();
    filter.insert(t1.val());
    let filtered = ObjectStoreFiltered::new(&object_store, filter);

    assert_eq!(filtered.id_from_name("t1"), Some(&t1));
    assert_eq!(filtered.id_from_name("t2"), None);

    assert_eq!(filtered.name_from_id(&t1), Some("t1"));
    assert_eq!(filtered.name_from_id(&t2), None);

    assert!(matches!(filtered.get_by_name("t1"), Some(_)));
    assert_eq!(filtered.get_by_name("t2"), None);

    assert!(matches!(filtered.get(&t1), Some(_)));
    assert_eq!(filtered.get(&t2), None);
}

#[test]
fn reserve_twice_gives_increasing_ids() {
    let mut test_store: ObjectStore<TestObject, TestObjectId> = ObjectStore::new();
    let a = test_store.reserve_id();
    let b = test_store.reserve_id();
    assert_ne!(a, b);
    assert_eq!(a.val(), 0);
    assert_eq!(b.val(), 1);
    assert!(a.val() < b.val());

    // an object under a forged identity that is taken already is refused
    test_store.register(TestObject::new(a, 1)).unwrap();
    let forged = TestObject::new(TestObjectId::new(0), 2);
    assert_eq!(test_store.register(forged), Err(IdError::IdAlreadyExists(a)));
    assert_eq!(test_store.get(&a).unwrap().val(), 1);
}

#[test]
fn names_and_ids_are_found_both_ways() {
    let mut test_store: ObjectStore<TestObject, TestObjectId> = ObjectStore::new();
    let t1 = test_store.insert_new_named("t1", |id| Ok(TestObject::new(id, 100))).unwrap();
    let t2 = test_store.insert_new(|id| Ok(TestObject::new(id, 200))).unwrap();
    assert_eq!(test_store.name_from_id(&t1), Some("t1"));
    assert_eq!(test_store.name_from_id(&t2), None);
    assert_eq!(test_store.id_from_name("t2"), None);
    assert_eq!(test_store.iter_names(), vec![("t1".to_owned(), t1)]);

    // a taken name is refused before the identity is looked at
    let again = test_store.register_named("t1", TestObject::new(TestObjectId::new(77), 1));
    assert_eq!(again, Err(IdError::NameAlreadyExists("t1".to_owned())));
    assert_eq!(test_store.get(&TestObjectId::new(77)), None);
    let taken = test_store.register_named("t3", TestObject::new(t2, 1));
    assert_eq!(taken, Err(IdError::IdAlreadyExists(t2)));
    assert_eq!(test_store.id_from_name("t3"), None);
}
