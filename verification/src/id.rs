use crate::errors::IdError;
use crate::text::{decimal_text, format_u32, owned, parse_u32, parsed_u32};
use vstd::prelude::*;

verus! {

/// An identity handle: a copyable value that stands for exactly one `u32`.
pub trait ObjectId: Copy {
    /// The number behind the handle.
    spec fn id_val(self) -> u32;

    /// The number behind the handle.
    fn raw(&self) -> (v: u32)
        ensures
            v == self.id_val(),
    ;

    /// Two handles with the same number are the same handle.
    proof fn id_val_injective(a: Self, b: Self)
        requires
            a.id_val() == b.id_val(),
        ensures
            a == b,
    ;
}

/// Identity of a variable declaration.
#[derive(Hash, Clone, Copy, Debug, PartialEq, Eq, PartialOrd, Ord, Structural)]
pub struct VarId(pub u32);

impl VarId {
    pub fn new(val: u32) -> (id: Self)
        ensures
            id == VarId(val),
            id.id_val() == val,
    {
        VarId(val)
    }

    pub fn val(&self) -> (v: u32)
        ensures
            v == self.0,
    {
        self.0
    }

    /// The identity as decimal text.
    pub fn to_string(&self) -> (s: String)
        ensures
            s@ == decimal_text(self.0),
    {
        format_u32(self.0)
    }

    /// Reads an identity from decimal text; a text that is no `u32` is
    /// handed back in `CannotParse`.
    pub fn parse(s: &str) -> (r: Result<Self, IdError<VarId>>)
        ensures
            match parsed_u32(s@) {
                Some(v) => r == Ok::<VarId, IdError<VarId>>(VarId(v)),
                None => r matches Err(IdError::CannotParse(t)) && t@ == s@,
            },
    {
        match parse_u32(s) {
            Some(v) => Ok(VarId(v)),
            None => Err(IdError::CannotParse(owned(s))),
        }
    }
}

impl ObjectId for VarId {
    open spec fn id_val(self) -> u32 {
        self.0
    }

    fn raw(&self) -> (v: u32) {
        self.0
    }

    proof fn id_val_injective(a: Self, b: Self) {
    }
}

impl std::str::FromStr for VarId {
    type Err = IdError<VarId>;

    fn from_str(s: &str) -> (r: Result<Self, Self::Err>)
        ensures
            match parsed_u32(s@) {
                Some(v) => r == Ok::<VarId, IdError<VarId>>(VarId(v)),
                None => r matches Err(IdError::CannotParse(t)) && t@ == s@,
            },
    {
        VarId::parse(s)
    }
}

impl Default for VarId {
    fn default() -> (id: Self)
        ensures
            id == VarId(0),
    {
        VarId(0)
    }
}

/// Identity of a step.
#[derive(Hash, Clone, Copy, Debug, PartialEq, Eq, PartialOrd, Ord, Structural)]
pub struct StepId(pub u32);

impl StepId {
    pub fn new(val: u32) -> (id: Self)
        ensures
            id == StepId(val),
            id.id_val() == val,
    {
        StepId(val)
    }

    pub fn val(&self) -> (v: u32)
        ensures
            v == self.0,
    {
        self.0
    }

    /// The identity as decimal text.
    pub fn to_string(&self) -> (s: String)
        ensures
            s@ == decimal_text(self.0),
    {
        format_u32(self.0)
    }

    /// Reads an identity from decimal text; a text that is no `u32` is
    /// handed back in `CannotParse`.
    pub fn parse(s: &str) -> (r: Result<Self, IdError<StepId>>)
        ensures
            match parsed_u32(s@) {
                Some(v) => r == Ok::<StepId, IdError<StepId>>(StepId(v)),
                None => r matches Err(IdError::CannotParse(t)) && t@ == s@,
            },
    {
        match parse_u32(s) {
            Some(v) => Ok(StepId(v)),
            None => Err(IdError::CannotParse(owned(s))),
        }
    }
}

impl ObjectId for StepId {
    open spec fn id_val(self) -> u32 {
        self.0
    }

    fn raw(&self) -> (v: u32) {
        self.0
    }

    proof fn id_val_injective(a: Self, b: Self) {
    }
}

impl std::str::FromStr for StepId {
    type Err = IdError<StepId>;

    fn from_str(s: &str) -> (r: Result<Self, Self::Err>)
        ensures
            match parsed_u32(s@) {
                Some(v) => r == Ok::<StepId, IdError<StepId>>(StepId(v)),
                None => r matches Err(IdError::CannotParse(t)) && t@ == s@,
            },
    {
        StepId::parse(s)
    }
}

impl Default for StepId {
    fn default() -> (id: Self)
        ensures
            id == StepId(0),
    {
        StepId(0)
    }
}

/// Identity of a action.
#[derive(Hash, Clone, Copy, Debug, PartialEq, Eq, PartialOrd, Ord, Structural)]
pub struct ActionId(pub u32);

impl ActionId {
    pub fn new(val: u32) -> (id: Self)
        ensures
            id == ActionId(val),
            id.id_val() == val,
    {
        ActionId(val)
    }

    pub fn val(&self) -> (v: u32)
        ensures
            v == self.0,
    {
        self.0
    }

    /// The identity as decimal text.
    pub fn to_string(&self) -> (s: String)
        ensures
            s@ == decimal_text(self.0),
    {
        format_u32(self.0)
    }

    /// Reads an identity from decimal text; a text that is no `u32` is
    /// handed back in `CannotParse`.
    pub fn parse(s: &str) -> (r: Result<Self, IdError<ActionId>>)
        ensures
            match parsed_u32(s@) {
                Some(v) => r == Ok::<ActionId, IdError<ActionId>>(ActionId(v)),
                None => r matches Err(IdError::CannotParse(t)) && t@ == s@,
            },
    {
        match parse_u32(s) {
            Some(v) => Ok(ActionId(v)),
            None => Err(IdError::CannotParse(owned(s))),
        }
    }
}

impl ObjectId for ActionId {
    open spec fn id_val(self) -> u32 {
        self.0
    }

    fn raw(&self) -> (v: u32) {
        self.0
    }

    proof fn id_val_injective(a: Self, b: Self) {
    }
}

impl std::str::FromStr for ActionId {
    type Err = IdError<ActionId>;

    fn from_str(s: &str) -> (r: Result<Self, Self::Err>)
        ensures
            match parsed_u32(s@) {
                Some(v) => r == Ok::<ActionId, IdError<ActionId>>(ActionId(v)),
                None => r matches Err(IdError::CannotParse(t)) && t@ == s@,
            },
    {
        ActionId::parse(s)
    }
}

impl Default for ActionId {
    fn default() -> (id: Self)
        ensures
            id == ActionId(0),
    {
        ActionId(0)
    }
}

/// Identity of a session.
#[derive(Hash, Clone, Copy, Debug, PartialEq, Eq, PartialOrd, Ord, Structural)]
pub struct SessionId(pub u32);

impl SessionId {
    pub fn new(val: u32) -> (id: Self)
        ensures
            id == SessionId(val),
            id.id_val() == val,
    {
        SessionId(val)
    }

    pub fn val(&self) -> (v: u32)
        ensures
            v == self.0,
    {
        self.0
    }

    /// The identity as decimal text.
    pub fn to_string(&self) -> (s: String)
        ensures
            s@ == decimal_text(self.0),
    {
        format_u32(self.0)
    }

    /// Reads an identity from decimal text; a text that is no `u32` is
    /// handed back in `CannotParse`.
    pub fn parse(s: &str) -> (r: Result<Self, IdError<SessionId>>)
        ensures
            match parsed_u32(s@) {
                Some(v) => r == Ok::<SessionId, IdError<SessionId>>(SessionId(v)),
                None => r matches Err(IdError::CannotParse(t)) && t@ == s@,
            },
    {
        match parse_u32(s) {
            Some(v) => Ok(SessionId(v)),
            None => Err(IdError::CannotParse(owned(s))),
        }
    }
}

impl ObjectId for SessionId {
    open spec fn id_val(self) -> u32 {
        self.0
    }

    fn raw(&self) -> (v: u32) {
        self.0
    }

    proof fn id_val_injective(a: Self, b: Self) {
    }
}

impl std::str::FromStr for SessionId {
    type Err = IdError<SessionId>;

    fn from_str(s: &str) -> (r: Result<Self, Self::Err>)
        ensures
            match parsed_u32(s@) {
                Some(v) => r == Ok::<SessionId, IdError<SessionId>>(SessionId(v)),
                None => r matches Err(IdError::CannotParse(t)) && t@ == s@,
            },
    {
        SessionId::parse(s)
    }
}

impl Default for SessionId {
    fn default() -> (id: Self)
        ensures
            id == SessionId(0),
    {
        SessionId(0)
    }
}

/// Identity of a [`TestObject`](crate::test_object::TestObject).
#[derive(Hash, Clone, Copy, Debug, PartialEq, Eq, PartialOrd, Ord, Structural)]
pub struct TestObjectId(pub u32);

impl TestObjectId {
    pub fn new(val: u32) -> (id: Self)
        ensures
            id == TestObjectId(val),
            id.id_val() == val,
    {
        TestObjectId(val)
    }

    pub fn val(&self) -> (v: u32)
        ensures
            v == self.0,
    {
        self.0
    }

    /// The identity as decimal text.
    pub fn to_string(&self) -> (s: String)
        ensures
            s@ == decimal_text(self.0),
    {
        format_u32(self.0)
    }

    /// Reads an identity from decimal text; a text that is no `u32` is
    /// handed back in `CannotParse`.
    pub fn parse(s: &str) -> (r: Result<Self, IdError<TestObjectId>>)
        ensures
            match parsed_u32(s@) {
                Some(v) => r == Ok::<TestObjectId, IdError<TestObjectId>>(TestObjectId(v)),
                None => r matches Err(IdError::CannotParse(t)) && t@ == s@,
            },
    {
        match parse_u32(s) {
            Some(v) => Ok(TestObjectId(v)),
            None => Err(IdError::CannotParse(owned(s))),
        }
    }
}

impl ObjectId for TestObjectId {
    open spec fn id_val(self) -> u32 {
        self.0
    }

    fn raw(&self) -> (v: u32) {
        self.0
    }

    proof fn id_val_injective(a: Self, b: Self) {
    }
}

impl std::str::FromStr for TestObjectId {
    type Err = IdError<TestObjectId>;

    fn from_str(s: &str) -> (r: Result<Self, Self::Err>)
        ensures
            match parsed_u32(s@) {
                Some(v) => r == Ok::<TestObjectId, IdError<TestObjectId>>(TestObjectId(v)),
                None => r matches Err(IdError::CannotParse(t)) && t@ == s@,
            },
    {
        TestObjectId::parse(s)
    }
}

impl Default for TestObjectId {
    fn default() -> (id: Self)
        ensures
            id == TestObjectId(0),
    {
        TestObjectId(0)
    }
}

} // verus!
