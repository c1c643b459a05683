use crate::email::{domain_of, has_login, split_login};
use crate::errors::InvalidValue;
use crate::text::owned;
use crate::text::{lowercase, to_lowercase};
use crate::uri::{uri_accepted, uri_parses};
use vstd::prelude::*;
use vstd::string::StrSliceExecFns;

verus! {

/// The closed set of value kinds.
#[derive(Debug, PartialEq, Eq, Clone, Copy, Structural)]
pub enum ValueKind {
    String,
    Email,
    Uri,
    True,
    Bool,
}

/// What every value reduces to for storage: a text or a flag.
#[derive(Debug, PartialEq, Clone)]
pub enum BaseValue {
    String(String),
    Boolean(bool),
}

/// A text is a valid string value when it is not empty.
pub open spec fn valid_string(text: Seq<char>) -> bool {
    text.len() > 0
}

/// A text is a valid e-mail address when it is not empty, has a login
/// before its `@`, and a dot in the domain after it.
pub open spec fn valid_email(text: Seq<char>) -> bool {
    text.len() > 0 && has_login(text) && domain_of(text).contains('.')
}

/// A text is a valid URI when the URI parser accepts it.
pub open spec fn valid_uri(text: Seq<char>) -> bool {
    uri_accepted(text)
}

/// Why a text is no string value, if it is none.
pub open spec fn string_fault(text: Seq<char>) -> Option<InvalidValue> {
    if text.len() == 0 {
        Some(InvalidValue::Empty)
    } else {
        None
    }
}

/// Why a text is no e-mail address, if it is none.
pub open spec fn email_fault(text: Seq<char>) -> Option<InvalidValue> {
    if text.len() == 0 {
        Some(InvalidValue::Empty)
    } else if !has_login(text) || !domain_of(text).contains('.') {
        Some(InvalidValue::BadFormat)
    } else {
        None
    }
}

/// Why a text is no URI, if it is none.
pub open spec fn uri_fault(text: Seq<char>) -> Option<InvalidValue> {
    if !uri_accepted(text) {
        Some(InvalidValue::BadFormat)
    } else {
        None
    }
}

/// Whether `c` occurs in `s`.
fn has_char_from(s: &str, from: usize, c: char) -> (b: bool)
    requires
        from <= s@.len(),
    ensures
        b == s@.subrange(from as int, s@.len() as int).contains(c),
{
    let n = s.unicode_len();
    let mut i: usize = from;
    while i < n
        invariant
            n == s@.len(),
            from <= i <= n,
            forall|t: int| from <= t < i ==> s@[t] != c,
        decreases n - i,
    {
        if s.get_char(i) == c {
            assert(s@.subrange(from as int, s@.len() as int)[i - from] == c);
            return true;
        }
        i = i + 1;
    }
    assert forall|t: int| 0 <= t < s@.subrange(from as int, s@.len() as int).len() implies s@.subrange(
        from as int,
        s@.len() as int,
    )[t] != c by {
        assert(s@[t + from] != c);
    }
    false
}

/// A text that is not empty.
#[derive(Debug, PartialEq)]
pub struct StringValue {
    val: String,
}

impl View for StringValue {
    type V = Seq<char>;

    closed spec fn view(&self) -> Seq<char> {
        self.val@
    }
}

impl StringValue {
    #[verifier::type_invariant]
    spec fn inv(self) -> bool {
        valid_string(self.val@)
    }

    /// Makes the value from a text that passes `validate`.
    pub fn try_new(val: &str) -> (r: Result<Self, InvalidValue>)
        ensures
            match r {
                Ok(v) => string_fault(val@) is None && v@ == val@,
                Err(e) => string_fault(val@) == Some(e),
            },
    {
        match Self::validate(val) {
            Ok(()) => Ok(Self { val: owned(val) }),
            Err(e) => Err(e),
        }
    }

    pub fn validate(val: &str) -> (r: Result<(), InvalidValue>)
        ensures
            match r {
                Ok(()) => string_fault(val@) is None,
                Err(e) => string_fault(val@) == Some(e),
            },
    {
        if val.is_empty() {
            return Err(InvalidValue::Empty);
        }
        Ok(())
    }

    pub fn val(&self) -> (s: &str)
        ensures
            s@ == self@,
            valid_string(self@),
    {
        proof {
            use_type_invariant(self);
        }
        self.val.as_str()
    }

    /// The value as a member of the closed sum of kinds.
    pub fn boxed(self) -> (v: Value)
        ensures
            v == Value::String(self),
    {
        Value::String(self)
    }

    /// A copy of the value.
    pub fn duplicate(&self) -> (v: Self)
        ensures
            v == *self,
    {
        proof {
            use_type_invariant(self);
        }
        Self { val: self.val.clone() }
    }

    /// Reads the value from a text, as `try_new` does.
    pub fn parse(s: &str) -> (r: Result<Self, InvalidValue>)
        ensures
            match r {
                Ok(v) => string_fault(s@) is None && v@ == s@,
                Err(e) => string_fault(s@) == Some(e),
            },
    {
        Self::try_new(s)
    }
}

impl std::str::FromStr for StringValue {
    type Err = InvalidValue;

    fn from_str(s: &str) -> (r: Result<Self, Self::Err>)
        ensures
            match r {
                Ok(v) => string_fault(s@) is None && v@ == s@,
                Err(e) => string_fault(s@) == Some(e),
            },
    {
        Self::parse(s)
    }
}

impl Clone for StringValue {
    fn clone(&self) -> (v: Self)
        ensures
            v == *self,
    {
        self.duplicate()
    }
}

impl ValueType for StringValue {
    open spec fn kind_spec() -> ValueKind {
        ValueKind::String
    }

    open spec fn wrap(self) -> Value {
        Value::String(self)
    }

    fn from_value(v: &Value) -> (r: Option<&Self>) {
        match v {
            Value::String(x) => Some(x),
            _ => None,
        }
    }
}

/// An e-mail address.
///
/// The check is a basic one: a login of the usual characters, one `@`, and a
/// domain with a dot in it.
#[derive(Debug, PartialEq)]
pub struct EmailValue {
    val: String,
}

impl View for EmailValue {
    type V = Seq<char>;

    closed spec fn view(&self) -> Seq<char> {
        self.val@
    }
}

impl EmailValue {
    #[verifier::type_invariant]
    spec fn inv(self) -> bool {
        valid_email(self.val@)
    }

    /// Makes the value from a text that passes `validate`.
    pub fn try_new(val: &str) -> (r: Result<Self, InvalidValue>)
        ensures
            match r {
                Ok(v) => email_fault(val@) is None && v@ == val@,
                Err(e) => email_fault(val@) == Some(e),
            },
    {
        match Self::validate(val) {
            Ok(()) => Ok(Self { val: owned(val) }),
            Err(e) => Err(e),
        }
    }

    pub fn validate(val: &str) -> (r: Result<(), InvalidValue>)
        ensures
            match r {
                Ok(()) => email_fault(val@) is None,
                Err(e) => email_fault(val@) == Some(e),
            },
    {
        if val.is_empty() {
            return Err(InvalidValue::Empty);
        }
        match split_login(val) {
            None => Err(InvalidValue::BadFormat),
            Some((_, at)) => {
                if has_char_from(val, at + 1, '.') {
                    Ok(())
                } else {
                    Err(InvalidValue::BadFormat)
                }
            },
        }
    }

    pub fn val(&self) -> (s: &str)
        ensures
            s@ == self@,
            valid_email(self@),
    {
        proof {
            use_type_invariant(self);
        }
        self.val.as_str()
    }

    /// The value as a member of the closed sum of kinds.
    pub fn boxed(self) -> (v: Value)
        ensures
            v == Value::Email(self),
    {
        Value::Email(self)
    }

    /// A copy of the value.
    pub fn duplicate(&self) -> (v: Self)
        ensures
            v == *self,
    {
        proof {
            use_type_invariant(self);
        }
        Self { val: self.val.clone() }
    }

    /// Reads the value from a text, as `try_new` does.
    pub fn parse(s: &str) -> (r: Result<Self, InvalidValue>)
        ensures
            match r {
                Ok(v) => email_fault(s@) is None && v@ == s@,
                Err(e) => email_fault(s@) == Some(e),
            },
    {
        Self::try_new(s)
    }
}

impl std::str::FromStr for EmailValue {
    type Err = InvalidValue;

    fn from_str(s: &str) -> (r: Result<Self, Self::Err>)
        ensures
            match r {
                Ok(v) => email_fault(s@) is None && v@ == s@,
                Err(e) => email_fault(s@) == Some(e),
            },
    {
        Self::parse(s)
    }
}

impl Clone for EmailValue {
    fn clone(&self) -> (v: Self)
        ensures
            v == *self,
    {
        self.duplicate()
    }
}

impl ValueType for EmailValue {
    open spec fn kind_spec() -> ValueKind {
        ValueKind::Email
    }

    open spec fn wrap(self) -> Value {
        Value::Email(self)
    }

    fn from_value(v: &Value) -> (r: Option<&Self>) {
        match v {
            Value::Email(x) => Some(x),
            _ => None,
        }
    }
}

/// A text that parses as a URI.
#[derive(Debug, PartialEq)]
pub struct UriValue {
    val: String,
}

impl View for UriValue {
    type V = Seq<char>;

    closed spec fn view(&self) -> Seq<char> {
        self.val@
    }
}

impl UriValue {
    #[verifier::type_invariant]
    spec fn inv(self) -> bool {
        valid_uri(self.val@)
    }

    /// Makes the value from a text that passes `validate`.
    pub fn try_new(val: &str) -> (r: Result<Self, InvalidValue>)
        ensures
            match r {
                Ok(v) => uri_fault(val@) is None && v@ == val@,
                Err(e) => uri_fault(val@) == Some(e),
            },
    {
        match Self::validate(val) {
            Ok(()) => Ok(Self { val: owned(val) }),
            Err(e) => Err(e),
        }
    }

    pub fn validate(val: &str) -> (r: Result<(), InvalidValue>)
        ensures
            match r {
                Ok(()) => uri_fault(val@) is None,
                Err(e) => uri_fault(val@) == Some(e),
            },
    {
        if uri_parses(val) {
            Ok(())
        } else {
            Err(InvalidValue::BadFormat)
        }
    }

    pub fn val(&self) -> (s: &str)
        ensures
            s@ == self@,
            valid_uri(self@),
    {
        proof {
            use_type_invariant(self);
        }
        self.val.as_str()
    }

    /// The value as a member of the closed sum of kinds.
    pub fn boxed(self) -> (v: Value)
        ensures
            v == Value::Uri(self),
    {
        Value::Uri(self)
    }

    /// A copy of the value.
    pub fn duplicate(&self) -> (v: Self)
        ensures
            v == *self,
    {
        proof {
            use_type_invariant(self);
        }
        Self { val: self.val.clone() }
    }

    /// Reads the value from a text, as `try_new` does.
    pub fn parse(s: &str) -> (r: Result<Self, InvalidValue>)
        ensures
            match r {
                Ok(v) => uri_fault(s@) is None && v@ == s@,
                Err(e) => uri_fault(s@) == Some(e),
            },
    {
        Self::try_new(s)
    }
}

impl std::str::FromStr for UriValue {
    type Err = InvalidValue;

    fn from_str(s: &str) -> (r: Result<Self, Self::Err>)
        ensures
            match r {
                Ok(v) => uri_fault(s@) is None && v@ == s@,
                Err(e) => uri_fault(s@) == Some(e),
            },
    {
        Self::parse(s)
    }
}

impl Clone for UriValue {
    fn clone(&self) -> (v: Self)
        ensures
            v == *self,
    {
        self.duplicate()
    }
}

impl ValueType for UriValue {
    open spec fn kind_spec() -> ValueKind {
        ValueKind::Uri
    }

    open spec fn wrap(self) -> Value {
        Value::Uri(self)
    }

    fn from_value(v: &Value) -> (r: Option<&Self>) {
        match v {
            Value::Uri(x) => Some(x),
            _ => None,
        }
    }
}

/// The sentinel value: it says only that something is so.
#[derive(Debug, PartialEq, Clone)]
pub struct TrueValue;

impl TrueValue {
    pub fn new() -> (v: Self) {
        TrueValue
    }

    pub fn val(&self) -> (b: bool)
        ensures
            b,
    {
        true
    }

    /// The value as a member of the closed sum of kinds.
    pub fn boxed(self) -> (v: Value)
        ensures
            v == Value::True(self),
    {
        Value::True(self)
    }

    /// Reads the value from a text: any spelling of `true`, in whatever case.
    pub fn parse(s: &str) -> (r: Result<Self, InvalidValue>)
        ensures
            lowercase(s@) == "true"@ ==> r is Ok,
            lowercase(s@) != "true"@ ==> r == Err::<Self, InvalidValue>(InvalidValue::WrongValue),
    {
        if to_lowercase(s) == owned("true") {
            Ok(TrueValue)
        } else {
            Err(InvalidValue::WrongValue)
        }
    }
}

impl std::str::FromStr for TrueValue {
    type Err = InvalidValue;

    fn from_str(s: &str) -> (r: Result<Self, Self::Err>)
        ensures
            lowercase(s@) == "true"@ ==> r is Ok,
            lowercase(s@) != "true"@ ==> r == Err::<Self, InvalidValue>(InvalidValue::WrongValue),
    {
        Self::parse(s)
    }
}

impl ValueType for TrueValue {
    open spec fn kind_spec() -> ValueKind {
        ValueKind::True
    }

    open spec fn wrap(self) -> Value {
        Value::True(self)
    }

    fn from_value(v: &Value) -> (r: Option<&Self>) {
        match v {
            Value::True(x) => Some(x),
            _ => None,
        }
    }
}

/// A yes or a no.
#[derive(Debug, PartialEq, Clone)]
pub struct BoolValue {
    val: bool,
}

impl View for BoolValue {
    type V = bool;

    closed spec fn view(&self) -> bool {
        self.val
    }
}

impl BoolValue {
    pub fn new(val: bool) -> (v: Self)
        ensures
            v@ == val,
    {
        BoolValue { val }
    }

    pub fn val(&self) -> (b: &bool)
        ensures
            *b == self@,
    {
        &self.val
    }

    /// The value as a member of the closed sum of kinds.
    pub fn boxed(self) -> (v: Value)
        ensures
            v == Value::Bool(self),
    {
        Value::Bool(self)
    }

    /// Reads the value from a text: `true` or `false`, in whatever case.
    pub fn parse(s: &str) -> (r: Result<Self, InvalidValue>)
        ensures
            match r {
                Ok(v) => (lowercase(s@) == "true"@ && v@) || (lowercase(s@) != "true"@
                    && lowercase(s@) == "false"@ && !v@),
                Err(e) => e == InvalidValue::WrongValue && lowercase(s@) != "true"@ && lowercase(
                    s@,
                ) != "false"@,
            },
    {
        let lower = to_lowercase(s);
        if lower == owned("true") {
            Ok(BoolValue { val: true })
        } else if lower == owned("false") {
            Ok(BoolValue { val: false })
        } else {
            Err(InvalidValue::WrongValue)
        }
    }
}

impl std::str::FromStr for BoolValue {
    type Err = InvalidValue;

    fn from_str(s: &str) -> (r: Result<Self, Self::Err>)
        ensures
            match r {
                Ok(v) => (lowercase(s@) == "true"@ && v@) || (lowercase(s@) != "true"@
                    && lowercase(s@) == "false"@ && !v@),
                Err(e) => e == InvalidValue::WrongValue && lowercase(s@) != "true"@ && lowercase(s@)
                    != "false"@,
            },
    {
        Self::parse(s)
    }
}

impl ValueType for BoolValue {
    open spec fn kind_spec() -> ValueKind {
        ValueKind::Bool
    }

    open spec fn wrap(self) -> Value {
        Value::Bool(self)
    }

    fn from_value(v: &Value) -> (r: Option<&Self>) {
        match v {
            Value::Bool(x) => Some(x),
            _ => None,
        }
    }
}

/// One kind of value: it knows its kind and can be found again inside a
/// [`Value`].
pub trait ValueType: Sized {
    /// The kind that values of this type have.
    spec fn kind_spec() -> ValueKind;

    /// The value as a member of the closed sum of kinds.
    spec fn wrap(self) -> Value;

    /// The value of this type inside `v`, if `v` is of this kind.
    fn from_value(v: &Value) -> (r: Option<&Self>)
        ensures
            match r {
                Some(x) => x.wrap() == *v && v.kind_of() == Self::kind_spec(),
                None => v.kind_of() != Self::kind_spec(),
            },
    ;
}

/// A value of one of the closed set of kinds.
#[derive(Debug)]
pub enum Value {
    String(StringValue),
    Email(EmailValue),
    Uri(UriValue),
    True(TrueValue),
    Bool(BoolValue),
}

impl PartialEq for Value {
    fn eq(&self, other: &Self) -> (b: bool) {
        self.eq_box(other)
    }
}

impl vstd::std_specs::cmp::PartialEqSpecImpl for Value {
    open spec fn obeys_eq_spec() -> bool {
        true
    }

    open spec fn eq_spec(&self, other: &Self) -> bool {
        self.alike(other)
    }
}

impl Clone for Value {
    fn clone(&self) -> (v: Self)
        ensures
            v == *self,
    {
        self.clone_box()
    }
}

impl Value {
    /// The kind of the value.
    pub open spec fn kind_of(&self) -> ValueKind {
        match self {
            Value::String(_) => ValueKind::String,
            Value::Email(_) => ValueKind::Email,
            Value::Uri(_) => ValueKind::Uri,
            Value::True(_) => ValueKind::True,
            Value::Bool(_) => ValueKind::Bool,
        }
    }

    /// The text of a value that reduces to a text; empty for the others.
    pub open spec fn text(&self) -> Seq<char> {
        match self {
            Value::String(v) => v@,
            Value::Email(v) => v@,
            Value::Uri(v) => v@,
            Value::True(_) => Seq::<char>::empty(),
            Value::Bool(_) => Seq::<char>::empty(),
        }
    }

    /// The flag of a value that reduces to a flag; `false` for the others.
    pub open spec fn flag(&self) -> bool {
        match self {
            Value::True(_) => true,
            Value::Bool(v) => v@,
            _ => false,
        }
    }

    /// Two values are alike when they have the same kind and reduce to the
    /// same text or flag.
    pub open spec fn alike(&self, other: &Value) -> bool {
        &&& self.kind_of() == other.kind_of()
        &&& self.text() == other.text()
        &&& self.flag() == other.flag()
    }

    pub fn kind(&self) -> (k: ValueKind)
        ensures
            k == self.kind_of(),
    {
        match self {
            Value::String(_) => ValueKind::String,
            Value::Email(_) => ValueKind::Email,
            Value::Uri(_) => ValueKind::Uri,
            Value::True(_) => ValueKind::True,
            Value::Bool(_) => ValueKind::Bool,
        }
    }

    /// The reduction of the value to its base encoding.
    pub fn get_baseval(&self) -> (b: BaseValue)
        ensures
            match b {
                BaseValue::String(s) => s@ == self.text() && self.kind_of() != ValueKind::True
                    && self.kind_of() != ValueKind::Bool,
                BaseValue::Boolean(f) => f == self.flag() && (self.kind_of() == ValueKind::True
                    || self.kind_of() == ValueKind::Bool),
            },
    {
        match self {
            Value::String(v) => BaseValue::String(owned(v.val())),
            Value::Email(v) => BaseValue::String(owned(v.val())),
            Value::Uri(v) => BaseValue::String(owned(v.val())),
            Value::True(_) => BaseValue::Boolean(true),
            Value::Bool(v) => BaseValue::Boolean(*v.val()),
        }
    }

    /// A copy of the value.
    pub fn clone_box(&self) -> (v: Value)
        ensures
            v == *self,
    {
        match self {
            Value::String(v) => Value::String(v.duplicate()),
            Value::Email(v) => Value::Email(v.duplicate()),
            Value::Uri(v) => Value::Uri(v.duplicate()),
            Value::True(_) => Value::True(TrueValue),
            Value::Bool(v) => Value::Bool(BoolValue { val: v.val }),
        }
    }

    /// Kind-aware equality.
    pub fn eq_box(&self, other: &Value) -> (b: bool)
        ensures
            b == self.alike(other),
    {
        match (self, other) {
            (Value::String(a), Value::String(b)) => owned(a.val()) == owned(b.val()),
            (Value::Email(a), Value::Email(b)) => owned(a.val()) == owned(b.val()),
            (Value::Uri(a), Value::Uri(b)) => owned(a.val()) == owned(b.val()),
            (Value::True(_), Value::True(_)) => true,
            (Value::Bool(a), Value::Bool(b)) => *a.val() == *b.val(),
            _ => false,
        }
    }

    /// The value as a `T`, if it is of `T`'s kind.
    pub fn downcast<T: ValueType>(&self) -> (r: Option<&T>)
        ensures
            match r {
                Some(x) => x.wrap() == *self && self.kind_of() == T::kind_spec(),
                None => self.kind_of() != T::kind_spec(),
            },
    {
        T::from_value(self)
    }

    /// Whether the value is of `T`'s kind.
    pub fn is<T: ValueType>(&self) -> (b: bool)
        ensures
            b == (self.kind_of() == T::kind_spec()),
    {
        T::from_value(self).is_some()
    }
}

} // verus!
