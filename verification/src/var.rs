use crate::errors::InvalidValue;
use crate::id::VarId;
use crate::object_store::ObjectStoreContent;
use crate::text::lowercase;
use crate::value::{
    email_fault, string_fault, uri_fault, BoolValue, EmailValue, StringValue, TrueValue, UriValue,
    Value, ValueKind,
};
use vstd::prelude::*;

verus! {

/// Why a text is no value of a kind, if it is none.
pub open spec fn text_fault(kind: ValueKind, text: Seq<char>) -> Option<InvalidValue> {
    match kind {
        ValueKind::String => string_fault(text),
        ValueKind::Email => email_fault(text),
        ValueKind::Uri => uri_fault(text),
        ValueKind::True => if lowercase(text) == "true"@ {
            None
        } else {
            Some(InvalidValue::WrongValue)
        },
        ValueKind::Bool => if lowercase(text) == "true"@ || lowercase(text) == "false"@ {
            None
        } else {
            Some(InvalidValue::WrongValue)
        },
    }
}

/// `value` is what a text reads as in a kind.
pub open spec fn reads_as(kind: ValueKind, text: Seq<char>, value: Value) -> bool {
    &&& value.kind_of() == kind
    &&& match kind {
        ValueKind::String | ValueKind::Email | ValueKind::Uri => value.text() == text,
        ValueKind::True => true,
        ValueKind::Bool => value.flag() == (lowercase(text) == "true"@),
    }
}

/// What reading a text in a kind gives: the value, or why there is none.
pub open spec fn read_outcome(kind: ValueKind, text: Seq<char>, r: Result<Value, InvalidValue>) -> bool {
    match r {
        Ok(value) => text_fault(kind, text) is None && reads_as(kind, text, value),
        Err(e) => text_fault(kind, text) == Some(e),
    }
}

/// What checking a value against a kind gives: `WrongType` unless the
/// value is of that kind.
pub open spec fn type_outcome(kind: ValueKind, value: &Value, r: Result<(), InvalidValue>) -> bool {
    r == (if value.kind_of() == kind {
        Ok::<(), InvalidValue>(())
    } else {
        Err::<(), InvalidValue>(InvalidValue::WrongType)
    })
}

/// Declares that an e-mail address is wanted under an identity.
#[derive(Debug, PartialEq)]
pub struct EmailVar {
    pub id: VarId,
}

impl EmailVar {
    /// Create a new var
    pub fn new(id: VarId) -> (var: Self)
        ensures
            var.id == id,
    {
        Self { id }
    }

    /// The declaration as a member of the closed sum of kinds.
    pub fn boxed(self) -> (var: Var)
        ensures
            var == Var::Email(self),
    {
        Var::Email(self)
    }

    /// Gets the ID
    pub fn id(&self) -> (id: &VarId)
        ensures
            *id == self.id,
    {
        &self.id
    }

    /// Convert a text to this var's kind of value
    pub fn value_from_str(&self, s: &str) -> (r: Result<Value, InvalidValue>)
        ensures
            read_outcome(ValueKind::Email, s@, r),
    {
        match EmailValue::parse(s) {
            Ok(v) => Ok(v.boxed()),
            Err(e) => Err(e),
        }
    }

    /// Validate that the value is of this var's kind
    pub fn validate_val_type(&self, val: &Value) -> (r: Result<(), InvalidValue>)
        ensures
            type_outcome(ValueKind::Email, val, r),
    {
        if val.is::<EmailValue>() {
            Ok(())
        } else {
            Err(InvalidValue::WrongType)
        }
    }
}

impl VarType for EmailVar {
    open spec fn kind_spec() -> ValueKind {
        ValueKind::Email
    }

    open spec fn wrap(self) -> Var {
        Var::Email(self)
    }

    fn from_var(v: &Var) -> (r: Option<&Self>) {
        match v {
            Var::Email(x) => Some(x),
            _ => None,
        }
    }
}

/// Declares that a text that is not empty is wanted under an identity.
#[derive(Debug, PartialEq)]
pub struct StringVar {
    pub id: VarId,
}

impl StringVar {
    /// Create a new var
    pub fn new(id: VarId) -> (var: Self)
        ensures
            var.id == id,
    {
        Self { id }
    }

    /// The declaration as a member of the closed sum of kinds.
    pub fn boxed(self) -> (var: Var)
        ensures
            var == Var::String(self),
    {
        Var::String(self)
    }

    /// Gets the ID
    pub fn id(&self) -> (id: &VarId)
        ensures
            *id == self.id,
    {
        &self.id
    }

    /// Convert a text to this var's kind of value
    pub fn value_from_str(&self, s: &str) -> (r: Result<Value, InvalidValue>)
        ensures
            read_outcome(ValueKind::String, s@, r),
    {
        match StringValue::parse(s) {
            Ok(v) => Ok(v.boxed()),
            Err(e) => Err(e),
        }
    }

    /// Validate that the value is of this var's kind
    pub fn validate_val_type(&self, val: &Value) -> (r: Result<(), InvalidValue>)
        ensures
            type_outcome(ValueKind::String, val, r),
    {
        if val.is::<StringValue>() {
            Ok(())
        } else {
            Err(InvalidValue::WrongType)
        }
    }
}

impl VarType for StringVar {
    open spec fn kind_spec() -> ValueKind {
        ValueKind::String
    }

    open spec fn wrap(self) -> Var {
        Var::String(self)
    }

    fn from_var(v: &Var) -> (r: Option<&Self>) {
        match v {
            Var::String(x) => Some(x),
            _ => None,
        }
    }
}

/// Declares that the sentinel `true` is wanted under an identity.
#[derive(Debug, PartialEq)]
pub struct TrueVar {
    pub id: VarId,
}

impl TrueVar {
    /// Create a new var
    pub fn new(id: VarId) -> (var: Self)
        ensures
            var.id == id,
    {
        Self { id }
    }

    /// The declaration as a member of the closed sum of kinds.
    pub fn boxed(self) -> (var: Var)
        ensures
            var == Var::True(self),
    {
        Var::True(self)
    }

    /// Gets the ID
    pub fn id(&self) -> (id: &VarId)
        ensures
            *id == self.id,
    {
        &self.id
    }

    /// Convert a text to this var's kind of value
    pub fn value_from_str(&self, s: &str) -> (r: Result<Value, InvalidValue>)
        ensures
            read_outcome(ValueKind::True, s@, r),
    {
        match TrueValue::parse(s) {
            Ok(v) => Ok(v.boxed()),
            Err(e) => Err(e),
        }
    }

    /// Validate that the value is of this var's kind
    pub fn validate_val_type(&self, val: &Value) -> (r: Result<(), InvalidValue>)
        ensures
            type_outcome(ValueKind::True, val, r),
    {
        if val.is::<TrueValue>() {
            Ok(())
        } else {
            Err(InvalidValue::WrongType)
        }
    }
}

impl VarType for TrueVar {
    open spec fn kind_spec() -> ValueKind {
        ValueKind::True
    }

    open spec fn wrap(self) -> Var {
        Var::True(self)
    }

    fn from_var(v: &Var) -> (r: Option<&Self>) {
        match v {
            Var::True(x) => Some(x),
            _ => None,
        }
    }
}

/// Declares that a URI is wanted under an identity.
#[derive(Debug, PartialEq)]
pub struct UriVar {
    pub id: VarId,
}

impl UriVar {
    /// Create a new var
    pub fn new(id: VarId) -> (var: Self)
        ensures
            var.id == id,
    {
        Self { id }
    }

    /// The declaration as a member of the closed sum of kinds.
    pub fn boxed(self) -> (var: Var)
        ensures
            var == Var::Uri(self),
    {
        Var::Uri(self)
    }

    /// Gets the ID
    pub fn id(&self) -> (id: &VarId)
        ensures
            *id == self.id,
    {
        &self.id
    }

    /// Convert a text to this var's kind of value
    pub fn value_from_str(&self, s: &str) -> (r: Result<Value, InvalidValue>)
        ensures
            read_outcome(ValueKind::Uri, s@, r),
    {
        match UriValue::parse(s) {
            Ok(v) => Ok(v.boxed()),
            Err(e) => Err(e),
        }
    }

    /// Validate that the value is of this var's kind
    pub fn validate_val_type(&self, val: &Value) -> (r: Result<(), InvalidValue>)
        ensures
            type_outcome(ValueKind::Uri, val, r),
    {
        if val.is::<UriValue>() {
            Ok(())
        } else {
            Err(InvalidValue::WrongType)
        }
    }
}

impl VarType for UriVar {
    open spec fn kind_spec() -> ValueKind {
        ValueKind::Uri
    }

    open spec fn wrap(self) -> Var {
        Var::Uri(self)
    }

    fn from_var(v: &Var) -> (r: Option<&Self>) {
        match v {
            Var::Uri(x) => Some(x),
            _ => None,
        }
    }
}

/// Declares that a yes or a no is wanted under an identity.
#[derive(Debug, PartialEq)]
pub struct BoolVar {
    pub id: VarId,
}

impl BoolVar {
    /// Create a new var
    pub fn new(id: VarId) -> (var: Self)
        ensures
            var.id == id,
    {
        Self { id }
    }

    /// The declaration as a member of the closed sum of kinds.
    pub fn boxed(self) -> (var: Var)
        ensures
            var == Var::Bool(self),
    {
        Var::Bool(self)
    }

    /// Gets the ID
    pub fn id(&self) -> (id: &VarId)
        ensures
            *id == self.id,
    {
        &self.id
    }

    /// Convert a text to this var's kind of value
    pub fn value_from_str(&self, s: &str) -> (r: Result<Value, InvalidValue>)
        ensures
            read_outcome(ValueKind::Bool, s@, r),
    {
        match BoolValue::parse(s) {
            Ok(v) => Ok(v.boxed()),
            Err(e) => Err(e),
        }
    }

    /// Validate that the value is of this var's kind
    pub fn validate_val_type(&self, val: &Value) -> (r: Result<(), InvalidValue>)
        ensures
            type_outcome(ValueKind::Bool, val, r),
    {
        if val.is::<BoolValue>() {
            Ok(())
        } else {
            Err(InvalidValue::WrongType)
        }
    }
}

impl VarType for BoolVar {
    open spec fn kind_spec() -> ValueKind {
        ValueKind::Bool
    }

    open spec fn wrap(self) -> Var {
        Var::Bool(self)
    }

    fn from_var(v: &Var) -> (r: Option<&Self>) {
        match v {
            Var::Bool(x) => Some(x),
            _ => None,
        }
    }
}

/// One kind of declaration: it knows the kind of value it wants and can be
/// found again inside a [`Var`].
pub trait VarType: Sized {
    /// The kind of value that declarations of this type want.
    spec fn kind_spec() -> ValueKind;

    /// The declaration as a member of the closed sum of kinds.
    spec fn wrap(self) -> Var;

    /// The declaration of this type inside `v`, if `v` is of this kind.
    fn from_var(v: &Var) -> (r: Option<&Self>)
        ensures
            match r {
                Some(x) => x.wrap() == *v && v.kind_of() == Self::kind_spec(),
                None => v.kind_of() != Self::kind_spec(),
            },
    ;
}

/// A declaration of which kind of value is wanted under an identity.
#[derive(Debug, PartialEq)]
pub enum Var {
    String(StringVar),
    Email(EmailVar),
    Uri(UriVar),
    True(TrueVar),
    Bool(BoolVar),
}

impl Var {
    /// The kind of value that the declaration wants.
    pub open spec fn kind_of(&self) -> ValueKind {
        match self {
            Var::String(_) => ValueKind::String,
            Var::Email(_) => ValueKind::Email,
            Var::Uri(_) => ValueKind::Uri,
            Var::True(_) => ValueKind::True,
            Var::Bool(_) => ValueKind::Bool,
        }
    }

    /// The identity of the declaration.
    pub open spec fn var_id(&self) -> VarId {
        match self {
            Var::String(v) => v.id,
            Var::Email(v) => v.id,
            Var::Uri(v) => v.id,
            Var::True(v) => v.id,
            Var::Bool(v) => v.id,
        }
    }

    pub fn kind(&self) -> (k: ValueKind)
        ensures
            k == self.kind_of(),
    {
        match self {
            Var::String(_) => ValueKind::String,
            Var::Email(_) => ValueKind::Email,
            Var::Uri(_) => ValueKind::Uri,
            Var::True(_) => ValueKind::True,
            Var::Bool(_) => ValueKind::Bool,
        }
    }

    /// Gets the ID
    pub fn id(&self) -> (id: &VarId)
        ensures
            *id == self.var_id(),
    {
        match self {
            Var::String(v) => &v.id,
            Var::Email(v) => &v.id,
            Var::Uri(v) => &v.id,
            Var::True(v) => &v.id,
            Var::Bool(v) => &v.id,
        }
    }

    /// Convert a text to the kind of value that the declaration wants
    pub fn value_from_str(&self, s: &str) -> (r: Result<Value, InvalidValue>)
        ensures
            read_outcome(self.kind_of(), s@, r),
    {
        match self {
            Var::String(v) => v.value_from_str(s),
            Var::Email(v) => v.value_from_str(s),
            Var::Uri(v) => v.value_from_str(s),
            Var::True(v) => v.value_from_str(s),
            Var::Bool(v) => v.value_from_str(s),
        }
    }

    /// Validate that the value is of the kind that the declaration wants.
    /// What the value holds is not looked at again.
    pub fn validate_val_type(&self, val: &Value) -> (r: Result<(), InvalidValue>)
        ensures
            type_outcome(self.kind_of(), val, r),
    {
        match self {
            Var::String(v) => v.validate_val_type(val),
            Var::Email(v) => v.validate_val_type(val),
            Var::Uri(v) => v.validate_val_type(val),
            Var::True(v) => v.validate_val_type(val),
            Var::Bool(v) => v.validate_val_type(val),
        }
    }

    /// The declaration as a `T`, if it is of `T`'s kind.
    pub fn downcast<T: VarType>(&self) -> (r: Option<&T>)
        ensures
            match r {
                Some(x) => x.wrap() == *self && self.kind_of() == T::kind_spec(),
                None => self.kind_of() != T::kind_spec(),
            },
    {
        T::from_var(self)
    }

    /// Whether the declaration is of `T`'s kind.
    pub fn is<T: VarType>(&self) -> (b: bool)
        ensures
            b == (self.kind_of() == T::kind_spec()),
    {
        T::from_var(self).is_some()
    }
}

impl ObjectStoreContent for Var {
    type IdType = VarId;

    open spec fn id_of(&self) -> VarId {
        self.var_id()
    }

    fn new_id(id_val: u32) -> (id: VarId) {
        VarId::new(id_val)
    }

    fn id(&self) -> (id: &VarId) {
        Var::id(self)
    }
}

} // verus!
