//! Expression trees.

use vstd::prelude::*;

use crate::number::Number;
use crate::resolver::Type;

verus! {

/// An expression over the local variables and the arguments of a function.
/// A position in `Variable` and `FunctionArg` is one among the variables of
/// the control-flow graph that the expression belongs to.
#[derive(Debug)]
pub enum Expression {
    BoolLiteral(bool),
    BytesLiteral(Vec<u8>),
    CodeLiteral(usize, bool),
    /// A number of the given width in bits.
    NumberLiteral(u16, Number),
    StructLiteral(Type, Vec<Expression>),
    /// The elements of an array of the given dimensions, in one flat list.
    ArrayLiteral(Type, Vec<u32>, Vec<Expression>),
    ConstArrayLiteral(Vec<u32>, Vec<Expression>),
    Add(Box<Expression>, Box<Expression>),
    Subtract(Box<Expression>, Box<Expression>),
    Multiply(Box<Expression>, Box<Expression>),
    UDivide(Box<Expression>, Box<Expression>),
    SDivide(Box<Expression>, Box<Expression>),
    UModulo(Box<Expression>, Box<Expression>),
    SModulo(Box<Expression>, Box<Expression>),
    Power(Box<Expression>, Box<Expression>),
    BitwiseOr(Box<Expression>, Box<Expression>),
    BitwiseAnd(Box<Expression>, Box<Expression>),
    BitwiseXor(Box<Expression>, Box<Expression>),
    ShiftLeft(Box<Expression>, Box<Expression>),
    ShiftRight(Box<Expression>, Box<Expression>, bool),
    Variable(usize),
    FunctionArg(usize),
    Load(Box<Expression>),
    /// The value in contract storage under the key that the expression gives.
    StorageLoad(Type, Box<Expression>),
    ZeroExt(Type, Box<Expression>),
    SignExt(Type, Box<Expression>),
    Trunc(Type, Box<Expression>),
    UMore(Box<Expression>, Box<Expression>),
    ULess(Box<Expression>, Box<Expression>),
    UMoreEqual(Box<Expression>, Box<Expression>),
    ULessEqual(Box<Expression>, Box<Expression>),
    SMore(Box<Expression>, Box<Expression>),
    SLess(Box<Expression>, Box<Expression>),
    SMoreEqual(Box<Expression>, Box<Expression>),
    SLessEqual(Box<Expression>, Box<Expression>),
    Equal(Box<Expression>, Box<Expression>),
    NotEqual(Box<Expression>, Box<Expression>),
    Not(Box<Expression>),
    Complement(Box<Expression>),
    UnaryMinus(Box<Expression>),
    Ternary(Box<Expression>, Box<Expression>, Box<Expression>),
    ArraySubscript(Box<Expression>, Box<Expression>),
    StructMember(Box<Expression>, usize),
    AllocDynamicArray(Type, Box<Expression>, Option<Vec<u8>>),
    DynamicArrayLength(Box<Expression>),
    DynamicArraySubscript(Box<Expression>, Type, Box<Expression>),
    StorageBytesSubscript(Box<Expression>, Box<Expression>),
    StorageBytesPush(Box<Expression>, Box<Expression>),
    StorageBytesPop(Box<Expression>),
    StorageBytesLength(Box<Expression>),
    Or(Box<Expression>, Box<Expression>),
    And(Box<Expression>, Box<Expression>),
    LocalFunctionCall(usize, Vec<Expression>),
    /// The hash of the listed values, each with its type. It stands for the
    /// address of a storage slot: one value names the slot itself, two name a
    /// mapping and the key into it.
    Keccak256(Vec<(Expression, Type)>),
    ReturnData,
    Poison,
    Unreachable,
}

} // verus!
