use crate::id::{ActionId, SessionId, StepId, VarId};
use std::collections::HashMap;
use vstd::prelude::*;

verus! {

/// What can go wrong with an identity or a name in a registry.
#[derive(Debug, PartialEq, Clone)]
pub enum IdError<TID> {
    CannotParse(String),
    IdNotReserved(TID),
    IdAlreadyExists(TID),
    IdMissing(TID),
    IdUnexpected(TID),
    IdHasNoName(TID),
    NameAlreadyExists(String),
    NoSuchName(String),
}

/// Why a value was refused.
#[derive(Debug, PartialEq, Eq, Clone, Copy, Structural)]
pub enum InvalidValue {
    WrongType,
    BadFormat,
    Empty,
    WrongValue,
}

impl InvalidValue {
    /// The variant's name as text.
    pub fn to_string(&self) -> (s: String)
        ensures
            s@ == match *self {
                InvalidValue::WrongType => "WrongType"@,
                InvalidValue::BadFormat => "BadFormat"@,
                InvalidValue::Empty => "Empty"@,
                InvalidValue::WrongValue => "WrongValue"@,
            },
    {
        match self {
            InvalidValue::WrongType => "WrongType".to_string(),
            InvalidValue::BadFormat => "BadFormat".to_string(),
            InvalidValue::Empty => "Empty".to_string(),
            InvalidValue::WrongValue => "WrongValue".to_string(),
        }
    }
}

/// The declarations whose value was refused, by the number of their
/// identity, each with the reason.
#[derive(Debug, PartialEq, Clone)]
pub struct InvalidVars(pub HashMap<u32, InvalidValue>);

impl InvalidVars {
    pub fn new(invalid: HashMap<u32, InvalidValue>) -> (e: Self)
        ensures
            e.0 == invalid,
    {
        Self(invalid)
    }
}

/// What an action can report instead of a result.
#[derive(Debug, PartialEq, Clone)]
pub enum ActionError {
    VarId(IdError<VarId>),
    StepId(IdError<StepId>),
    Other,
}

/// What the flow engine can report instead of a result.
#[derive(Debug, PartialEq, Clone)]
pub enum Error {
    // ID errors
    VarId(IdError<VarId>),
    StepId(IdError<StepId>),
    ActionId(IdError<ActionId>),
    SessionId(IdError<SessionId>),
    // data errors
    InvalidValue(InvalidValue),
    InvalidVars(InvalidVars),
    InvalidStateDataError,
    // action + step execution errors
    NoStateToEval,
    // something we try to not use
    Other,
}

impl From<ActionError> for Error {
    fn from(err: ActionError) -> (e: Self) {
        match err {
            ActionError::VarId(id_error) => Error::VarId(id_error),
            ActionError::StepId(id_error) => Error::StepId(id_error),
            ActionError::Other => Error::Other,
        }
    }
}

impl vstd::std_specs::convert::FromSpecImpl<ActionError> for Error {
    open spec fn obeys_from_spec() -> bool {
        true
    }

    open spec fn from_spec(err: ActionError) -> Self {
        match err {
            ActionError::VarId(id_error) => Error::VarId(id_error),
            ActionError::StepId(id_error) => Error::StepId(id_error),
            ActionError::Other => Error::Other,
        }
    }
}

impl From<InvalidValue> for Error {
    fn from(err: InvalidValue) -> (e: Self) {
        Error::InvalidValue(err)
    }
}

impl vstd::std_specs::convert::FromSpecImpl<InvalidValue> for Error {
    open spec fn obeys_from_spec() -> bool {
        true
    }

    open spec fn from_spec(err: InvalidValue) -> Self {
        Error::InvalidValue(err)
    }
}

} // verus!
