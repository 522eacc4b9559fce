//! The scalar values a configuration line can hold.
use vstd::prelude::*;

verus! {

/// A typed configuration value.
///
/// `Float` holds the text of a floating-point literal (the part of the line
/// that std's `f64` parser accepts); the caller reads the number from it.
#[derive(Debug, Clone, PartialEq)]
pub enum Value {
    String(String),
    Char(char),
    Integer(i32),
    Float(String),
    Boolean(bool),
}

/// What a `Value` means, with strings seen as character sequences.
pub ghost enum Scalar {
    Str(Seq<char>),
    Chr(char),
    Int(i32),
    Flt(Seq<char>),
    Bool(bool),
}

impl View for Value {
    type V = Scalar;

    open spec fn view(&self) -> Scalar {
        match self {
            Value::String(s) => Scalar::Str(s@),
            Value::Char(c) => Scalar::Chr(*c),
            Value::Integer(i) => Scalar::Int(*i),
            Value::Float(t) => Scalar::Flt(t@),
            Value::Boolean(b) => Scalar::Bool(*b),
        }
    }
}

/// The semantic type a record field asks for.
#[derive(Debug, Clone, Copy, PartialEq, Eq, Structural)]
pub enum Kind {
    String,
    Char,
    Integer,
    Float,
    Boolean,
}

/// The kind of a value.
pub open spec fn kind_of(v: Scalar) -> Kind {
    match v {
        Scalar::Str(_) => Kind::String,
        Scalar::Chr(_) => Kind::Char,
        Scalar::Int(_) => Kind::Integer,
        Scalar::Flt(_) => Kind::Float,
        Scalar::Bool(_) => Kind::Boolean,
    }
}

impl Value {
    /// The kind of this value.
    pub fn kind(&self) -> (r: Kind)
        ensures
            r == kind_of(self@),
    {
        match self {
            Value::String(_) => Kind::String,
            Value::Char(_) => Kind::Char,
            Value::Integer(_) => Kind::Integer,
            Value::Float(_) => Kind::Float,
            Value::Boolean(_) => Kind::Boolean,
        }
    }

    /// The text of a `String` value; no other variant converts.
    pub fn as_string(&self) -> (r: Option<&str>)
        ensures
            match self@ {
                Scalar::Str(s) => r is Some && r->0@ == s,
                _ => r is None,
            },
    {
        match self {
            Value::String(s) => Some(s.as_str()),
            _ => None,
        }
    }

    /// The number of an `Integer` value; no other variant converts.
    pub fn as_i32(&self) -> (r: Option<i32>)
        ensures
            match self@ {
                Scalar::Int(i) => r == Some(i),
                _ => r is None,
            },
    {
        match self {
            Value::Integer(i) => Some(*i),
            _ => None,
        }
    }

    /// The literal text of a `Float` value; no other variant converts.
    pub fn as_float_text(&self) -> (r: Option<&str>)
        ensures
            match self@ {
                Scalar::Flt(t) => r is Some && r->0@ == t,
                _ => r is None,
            },
    {
        match self {
            Value::Float(t) => Some(t.as_str()),
            _ => None,
        }
    }

    /// The flag of a `Boolean` value; no other variant converts.
    pub fn as_bool(&self) -> (r: Option<bool>)
        ensures
            match self@ {
                Scalar::Bool(b) => r == Some(b),
                _ => r is None,
            },
    {
        match self {
            Value::Boolean(b) => Some(*b),
            _ => None,
        }
    }

    /// The character of a `Char` value; no other variant converts.
    pub fn as_char(&self) -> (r: Option<char>)
        ensures
            match self@ {
                Scalar::Chr(c) => r == Some(c),
                _ => r is None,
            },
    {
        match self {
            Value::Char(c) => Some(*c),
            _ => None,
        }
    }
}

} // verus!
