use crate::id::TestObjectId;
use crate::object_store::ObjectStoreContent;
use vstd::prelude::*;

verus! {

/// A minimal registry object: an identity and a number.
#[derive(Debug, PartialEq)]
pub struct TestObject {
    pub id: TestObjectId,
    pub val: usize,
}

impl TestObject {
    pub fn new(id: TestObjectId, val: usize) -> (object: Self)
        ensures
            object == (TestObject { id, val }),
    {
        Self { id, val }
    }

    pub fn val(&self) -> (v: usize)
        ensures
            v == self.val,
    {
        self.val
    }

    pub fn set_val(&mut self, val: usize)
        ensures
            *final(self) == (TestObject { id: old(self).id, val }),
    {
        self.val = val;
    }
}

impl ObjectStoreContent for TestObject {
    type IdType = TestObjectId;

    open spec fn id_of(&self) -> TestObjectId {
        self.id
    }

    fn new_id(id_val: u32) -> (id: TestObjectId) {
        TestObjectId::new(id_val)
    }

    fn id(&self) -> (id: &TestObjectId) {
        &self.id
    }
}

/// A number for an identity that is easy to tell from those that a
/// registry hands out: the high byte set, and the count in the low bits.
/// The count moves on by one.
pub fn test_id_val(count: &mut u16) -> (val: u16)
    ensures
        val == 0xff00u16 | *old(count),
        *final(count) == (if *old(count) == u16::MAX {
            0
        } else {
            *old(count) + 1
        }),
{
    let val = 0xff00u16 | *count;
    *count = count.wrapping_add(1);
    val
}

} // verus!
