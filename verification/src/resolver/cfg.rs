//! Control-flow graphs: basic blocks of instructions over local variables.

use vstd::prelude::*;

use crate::resolver::expression::Expression;
use crate::resolver::{Parameter, Type};

verus! {

/// The hash functions that an instruction can apply.
#[derive(Clone, Copy, Debug)]
pub enum HashTy {
    Keccak256,
    Ripemd160,
    Sha256,
    Blake2_256,
    Blake2_128,
}

/// One instruction of a basic block. Positions of variables are those among
/// the graph's variables, positions of blocks those among its blocks, and the
/// position of a function is one among the contract's functions.
#[derive(Debug)]
#[allow(inconsistent_fields)]
pub enum Instr {
    ClearStorage { ty: Type, storage: Expression },
    SetStorage { ty: Type, local: usize, storage: Expression },
    SetStorageBytes { local: usize, storage: Box<Expression>, offset: Box<Expression> },
    /// Gives a local variable the value of an expression.
    SetLocal { res: usize, expr: Expression },
    Eval { expr: Expression },
    Constant { res: usize, constant: usize },
    Call { res: Vec<usize>, func: usize, args: Vec<Expression> },
    Return { value: Vec<Expression> },
    Branch { bb: usize },
    BranchCond { cond: Expression, true_: usize, false_: usize },
    Store { dest: Expression, pos: usize },
    AssertFailure { expr: Option<Expression> },
    Print { expr: Expression },
    Constructor {
        success: Option<usize>,
        res: usize,
        contract_no: usize,
        constructor_no: usize,
        args: Vec<Expression>,
        value: Option<Expression>,
        gas: Expression,
        salt: Option<Expression>,
    },
    ExternalCall {
        success: Option<usize>,
        address: Expression,
        contract_no: Option<usize>,
        function_no: usize,
        args: Vec<Expression>,
        value: Expression,
        gas: Expression,
    },
    AbiDecode {
        res: Vec<usize>,
        selector: Option<u32>,
        exception: Option<usize>,
        tys: Vec<Parameter>,
        data: Expression,
    },
    Unreachable,
    SelfDestruct { recipient: Expression },
    Hash { res: usize, hash: HashTy, expr: Expression },
}

/// A labelled run of instructions.
#[derive(Debug)]
pub struct BasicBlock {
    /// The label that the builder of the graph gave the block, such as
    /// `entry`, `then`, `else`, `endif`, `cond`, `body`, `endwhile`, `endfor`.
    pub name: String,
    pub instr: Vec<Instr>,
}

/// The name of a variable, as the source wrote it or the builder made it up.
#[derive(Debug)]
pub struct Identifier {
    pub name: String,
}

/// A local variable of a function.
#[derive(Debug)]
pub struct Variable {
    pub id: Identifier,
    pub ty: Type,
}

/// The body of a function. The block at position 0 is its entry.
#[derive(Debug)]
pub struct ControlFlowGraph {
    pub vars: Vec<Variable>,
    pub bb: Vec<BasicBlock>,
}

} // verus!
