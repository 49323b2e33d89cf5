//! The resolved form of a contract: its state variables, its functions, and
//! the types that values have.

pub mod cfg;
pub mod expression;

use vstd::prelude::*;

use crate::number::Number;
use crate::resolver::cfg::ControlFlowGraph;

verus! {

/// The type of a value.
#[derive(Debug)]
pub enum Type {
    /// An account address; the flag says whether it is payable.
    Address(bool),
    Bool,
    /// A signed integer of the given width in bits.
    Int(u16),
    /// An unsigned integer of the given width in bits.
    Uint(u16),
    /// A byte string of the given fixed length.
    Bytes(u8),
    DynamicBytes,
    String,
    /// An array of the element type; each dimension is a fixed length or
    /// dynamic, the innermost dimension first.
    Array(Box<Type>, Vec<Option<Number>>),
    Enum(usize),
    Struct(usize),
    Mapping(Box<Type>, Box<Type>),
    Contract(usize),
    Ref(Box<Type>),
    StorageRef(Box<Type>),
    Undef,
}

/// A state variable of a contract. Its position among the contract's
/// variables is what a storage access names it by.
#[derive(Debug)]
pub struct ContractVariable {
    pub name: String,
    pub ty: Type,
}

/// A parameter of a function.
#[derive(Debug)]
pub struct Parameter {
    pub name: String,
    pub ty: Type,
}

/// A function of a contract, with its body as a control-flow graph.
#[derive(Debug)]
pub struct FunctionDecl {
    pub name: String,
    /// The name with the parameter types, as in `transfer(address,uint256)`.
    pub signature: String,
    pub params: Vec<Parameter>,
    pub is_constructor: bool,
    pub is_public: bool,
    pub cfg: ControlFlowGraph,
}

/// A resolved contract.
#[derive(Debug)]
pub struct Contract {
    pub name: String,
    pub functions: Vec<FunctionDecl>,
    pub variables: Vec<ContractVariable>,
}

} // verus!
