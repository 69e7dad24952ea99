//! The closed set of operations of the machine.

use vstd::prelude::*;

use crate::data::{data_eq, Data, Type};

verus! {

/// One instruction of the stack language, with a fixed stack effect.
///
/// The exact semantics of every operation is `crate::machine::step`; the
/// advertised inputs of [`Op::required_inputs`] only serve error reporting.
#[derive(Debug)]
pub enum Op {
    /// Adds two values on the stack.
    /// OP: `+ = [a:Number b:Number] -> [Number]`
    Add,
    /// Push some form of data onto the stack.
    /// OP: `[] -> [A]`
    Data(Data),
    /// Returns the width and height of the image.
    /// OP: `dim = [] -> [w:u32 h:u32]`
    Dimensions,
    /// Divides a number by a second number.
    /// OP: `/ = [divisor:Number n:Number] -> [Number]`
    Divide,
    /// Drops an item off the stack.
    /// OP: `drop = [A] -> []`
    Drop,
    /// Duplicates the top element of the stack.
    /// OP: `dup = [A] -> [A A]`
    Dup,
    /// Checks whether two things are equal.
    /// OP: `== = [A A] -> [bool]`
    Equal,
    /// Puts the given fragment position onto the stack.
    /// OP: `fragPos = [] -> [x:u32 y:u32]`
    FragPos,
    /// Checks whether a is greater than b.
    /// OP: `> = [a:Number b:Number] -> [bool]`
    GreaterThan,
    /// Checks whether a is greater than or equal to b.
    /// OP: `>= = [a:Number b:Number] -> [bool]`
    GreaterThanEqual,
    /// Checks whether a is less than b.
    /// OP: `< = [a:Number b:Number] -> [bool]`
    LessThan,
    /// Checks whether a is less than or equal to b.
    /// OP: `<= = [a:Number b:Number] -> [bool]`
    LessThanEqual,
    /// Converts 4 u8's to a color.
    /// OP: `makeColor = [r:u8 g:u8 b:u8 a:u8] -> [color:Color]`
    MakeColor,
    /// Performs a modulo on two numbers.
    /// OP: `% = [n:Number modulus:Number] -> [Number]`
    Modulo,
    /// Multiplies two numbers.
    /// OP: `* = [multiplier:Number n:Number] -> [Number]`
    Multiply,
    /// Rotates the top two elements of the stack.
    /// OP: `rot = [A B] -> [B A]`
    Rot,
    /// Rotates the top element and the Nth element of the stack.
    /// OP: `rotN = [A .. B N] -> [B .. A]`
    RotN,
    /// Splits a color into each individual part.
    /// OP: `splitColor = [c:color] -> [r:u8 g:u8 b:u8 a:u8]`
    SplitColor,
    /// Subtracts the top two elements of the stack.
    /// OP: `- = [subtractor:Number n:Number] -> [Number]`
    Subtract,
    /// Loads a pixel from the given texture.
    /// OP: `texturePixel = [x:u32 y:u32 textureIdx:u32] -> [color]`
    TexturePixel,
}

/// Structural equality on operations, with the carried data compared by
/// [`data_eq`].
pub open spec fn op_eq(a: Op, b: Op) -> bool {
    match (a, b) {
        (Op::Add, Op::Add) => true,
        (Op::Data(x), Op::Data(y)) => data_eq(x, y),
        (Op::Dimensions, Op::Dimensions) => true,
        (Op::Divide, Op::Divide) => true,
        (Op::Drop, Op::Drop) => true,
        (Op::Dup, Op::Dup) => true,
        (Op::Equal, Op::Equal) => true,
        (Op::FragPos, Op::FragPos) => true,
        (Op::GreaterThan, Op::GreaterThan) => true,
        (Op::GreaterThanEqual, Op::GreaterThanEqual) => true,
        (Op::LessThan, Op::LessThan) => true,
        (Op::LessThanEqual, Op::LessThanEqual) => true,
        (Op::MakeColor, Op::MakeColor) => true,
        (Op::Modulo, Op::Modulo) => true,
        (Op::Multiply, Op::Multiply) => true,
        (Op::Rot, Op::Rot) => true,
        (Op::RotN, Op::RotN) => true,
        (Op::SplitColor, Op::SplitColor) => true,
        (Op::Subtract, Op::Subtract) => true,
        (Op::TexturePixel, Op::TexturePixel) => true,
        _ => false,
    }
}

impl Op {
    /// The types an operation consumes, top of stack first, as advertised for
    /// error reporting.
    pub open spec fn spec_required_inputs(&self) -> Seq<Type> {
        match self {
            Op::Add => seq![Type::U32, Type::U32],
            Op::Data(_) => Seq::empty(),
            Op::Dimensions => Seq::empty(),
            Op::Divide => seq![Type::U32, Type::U32],
            Op::Drop => seq![Type::Any],
            Op::Dup => seq![Type::Any],
            Op::Equal => seq![Type::Any, Type::Any],
            Op::FragPos => Seq::empty(),
            Op::GreaterThan => seq![Type::U32, Type::U32],
            Op::GreaterThanEqual => seq![Type::U32, Type::U32],
            Op::LessThan => seq![Type::U32, Type::U32],
            Op::LessThanEqual => seq![Type::U32, Type::U32],
            Op::MakeColor => seq![Type::U8, Type::U8, Type::U8, Type::U8],
            Op::Modulo => seq![Type::U32, Type::U32],
            Op::Multiply => seq![Type::U32, Type::U32],
            Op::Rot => seq![Type::Any, Type::Any],
            Op::RotN => seq![Type::Any, Type::Any, Type::U32],
            Op::SplitColor => seq![Type::Color],
            Op::Subtract => seq![Type::U32, Type::U32],
            Op::TexturePixel => seq![Type::U32, Type::U32, Type::U32],
        }
    }

    /// Returns the required inputs for the given op.
    pub fn required_inputs(&self) -> (r: Vec<Type>)
        ensures
            r@ == self.spec_required_inputs(),
    {
        let r = match self {
            Op::Add => vec![Type::U32, Type::U32],
            Op::Data(_) => vec![],
            Op::Dimensions => vec![],
            Op::Divide => vec![Type::U32, Type::U32],
            Op::Drop => vec![Type::Any],
            Op::Dup => vec![Type::Any],
            Op::Equal => vec![Type::Any, Type::Any],
            Op::FragPos => vec![],
            Op::GreaterThan => vec![Type::U32, Type::U32],
            Op::GreaterThanEqual => vec![Type::U32, Type::U32],
            Op::LessThan => vec![Type::U32, Type::U32],
            Op::LessThanEqual => vec![Type::U32, Type::U32],
            Op::MakeColor => vec![Type::U8, Type::U8, Type::U8, Type::U8],
            Op::Modulo => vec![Type::U32, Type::U32],
            Op::Multiply => vec![Type::U32, Type::U32],
            Op::Rot => vec![Type::Any, Type::Any],
            Op::RotN => vec![Type::Any, Type::Any, Type::U32],
            Op::SplitColor => vec![Type::Color],
            Op::Subtract => vec![Type::U32, Type::U32],
            Op::TexturePixel => vec![Type::U32, Type::U32, Type::U32],
        };
        proof {
            assert(r@ =~= self.spec_required_inputs());
        }
        r
    }
}

impl Clone for Op {
    fn clone(&self) -> (r: Op)
        ensures
            r == *self,
    {
        match self {
            Op::Add => Op::Add,
            Op::Data(d) => Op::Data(d.clone()),
            Op::Dimensions => Op::Dimensions,
            Op::Divide => Op::Divide,
            Op::Drop => Op::Drop,
            Op::Dup => Op::Dup,
            Op::Equal => Op::Equal,
            Op::FragPos => Op::FragPos,
            Op::GreaterThan => Op::GreaterThan,
            Op::GreaterThanEqual => Op::GreaterThanEqual,
            Op::LessThan => Op::LessThan,
            Op::LessThanEqual => Op::LessThanEqual,
            Op::MakeColor => Op::MakeColor,
            Op::Modulo => Op::Modulo,
            Op::Multiply => Op::Multiply,
            Op::Rot => Op::Rot,
            Op::RotN => Op::RotN,
            Op::SplitColor => Op::SplitColor,
            Op::Subtract => Op::Subtract,
            Op::TexturePixel => Op::TexturePixel,
        }
    }
}

impl PartialEq for Op {
    fn eq(&self, other: &Op) -> (r: bool) {
        match (self, other) {
            (Op::Add, Op::Add) => true,
            (Op::Data(x), Op::Data(y)) => *x == *y,
            (Op::Dimensions, Op::Dimensions) => true,
            (Op::Divide, Op::Divide) => true,
            (Op::Drop, Op::Drop) => true,
            (Op::Dup, Op::Dup) => true,
            (Op::Equal, Op::Equal) => true,
            (Op::FragPos, Op::FragPos) => true,
            (Op::GreaterThan, Op::GreaterThan) => true,
            (Op::GreaterThanEqual, Op::GreaterThanEqual) => true,
            (Op::LessThan, Op::LessThan) => true,
            (Op::LessThanEqual, Op::LessThanEqual) => true,
            (Op::MakeColor, Op::MakeColor) => true,
            (Op::Modulo, Op::Modulo) => true,
            (Op::Multiply, Op::Multiply) => true,
            (Op::Rot, Op::Rot) => true,
            (Op::RotN, Op::RotN) => true,
            (Op::SplitColor, Op::SplitColor) => true,
            (Op::Subtract, Op::Subtract) => true,
            (Op::TexturePixel, Op::TexturePixel) => true,
            _ => false,
        }
    }
}

impl vstd::std_specs::cmp::PartialEqSpecImpl for Op {
    open spec fn obeys_eq_spec() -> bool {
        true
    }

    open spec fn eq_spec(&self, other: &Op) -> bool {
        op_eq(*self, *other)
    }
}

} // verus!
