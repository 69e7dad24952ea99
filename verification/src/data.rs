//! The value and type model: every value that may live on the stack.

use vstd::prelude::*;

verus! {

/// The types of the values used by the machine. `Any` is a wildcard that only
/// appears in an operation's advertised inputs, never as a value's own type.
#[derive(Debug, Copy, Clone, PartialEq, Eq, Structural)]
pub enum Type {
    Any,
    Bool,
    Color,
    String,
    U8,
    U32,
}

/// A color: four unsigned 8-bit channels.
#[derive(Debug, Copy, Clone, PartialEq, Eq, Structural)]
pub struct Color {
    pub r: u8,
    pub g: u8,
    pub b: u8,
    pub a: u8,
}

/// A value that may live on the stack.
#[derive(Debug)]
pub enum Data {
    Bool(bool),
    Color(Color),
    String(String),
    U8(u8),
    U32(u32),
}

/// Structural equality on values, with strings compared by contents.
pub open spec fn data_eq(a: Data, b: Data) -> bool {
    match (a, b) {
        (Data::Bool(x), Data::Bool(y)) => x == y,
        (Data::Color(x), Data::Color(y)) => x == y,
        (Data::String(x), Data::String(y)) => x@ == y@,
        (Data::U8(x), Data::U8(y)) => x == y,
        (Data::U32(x), Data::U32(y)) => x == y,
        _ => false,
    }
}

impl Data {
    /// Returns the type for the data.
    pub fn get_type(&self) -> (t: Type)
        ensures
            t == self.spec_type(),
    {
        match self {
            Data::Bool(_) => Type::Bool,
            Data::Color(_) => Type::Color,
            Data::String(_) => Type::String,
            Data::U8(_) => Type::U8,
            Data::U32(_) => Type::U32,
        }
    }

    /// The type tag of this value.
    pub open spec fn spec_type(&self) -> Type {
        match self {
            Data::Bool(_) => Type::Bool,
            Data::Color(_) => Type::Color,
            Data::String(_) => Type::String,
            Data::U8(_) => Type::U8,
            Data::U32(_) => Type::U32,
        }
    }
}

impl Clone for Data {
    fn clone(&self) -> (r: Data)
        ensures
            r == *self,
    {
        match self {
            Data::Bool(v) => Data::Bool(*v),
            Data::Color(v) => Data::Color(*v),
            Data::String(v) => Data::String(v.clone()),
            Data::U8(v) => Data::U8(*v),
            Data::U32(v) => Data::U32(*v),
        }
    }
}

impl PartialEq for Data {
    fn eq(&self, other: &Data) -> (r: bool) {
        match (self, other) {
            (Data::Bool(x), Data::Bool(y)) => *x == *y,
            (Data::Color(x), Data::Color(y)) => *x == *y,
            (Data::String(x), Data::String(y)) => *x == *y,
            (Data::U8(x), Data::U8(y)) => *x == *y,
            (Data::U32(x), Data::U32(y)) => *x == *y,
            _ => false,
        }
    }
}

impl vstd::std_specs::cmp::PartialEqSpecImpl for Data {
    open spec fn obeys_eq_spec() -> bool {
        true
    }

    open spec fn eq_spec(&self, other: &Data) -> bool {
        data_eq(*self, *other)
    }
}

impl From<(u8, u8, u8)> for Color {
    /// Builds a color from three channels; the alpha channel defaults to 255.
    fn from(t: (u8, u8, u8)) -> (c: Color) {
        let (r, g, b) = t;
        Color { r, g, b, a: 255 }
    }
}

impl vstd::std_specs::convert::FromSpecImpl<(u8, u8, u8)> for Color {
    open spec fn obeys_from_spec() -> bool {
        true
    }

    open spec fn from_spec(t: (u8, u8, u8)) -> Color {
        Color { r: t.0, g: t.1, b: t.2, a: 255 }
    }
}

impl From<(u8, u8, u8, u8)> for Color {
    /// Builds a color from all four channels.
    fn from(t: (u8, u8, u8, u8)) -> (c: Color) {
        let (r, g, b, a) = t;
        Color { r, g, b, a }
    }
}

impl vstd::std_specs::convert::FromSpecImpl<(u8, u8, u8, u8)> for Color {
    open spec fn obeys_from_spec() -> bool {
        true
    }

    open spec fn from_spec(t: (u8, u8, u8, u8)) -> Color {
        Color { r: t.0, g: t.1, b: t.2, a: t.3 }
    }
}

} // verus!
