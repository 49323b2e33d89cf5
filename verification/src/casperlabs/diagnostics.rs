//! What a caller may want to report about a contract before or after it is
//! written: the instruction that stands in the way of writing it, and
//! whether it names a type or an expression for which only a placeholder can
//! be written.

use vstd::prelude::*;
use vstd::string::*;

use crate::casperlabs::functions::{is_blacklisted, is_blacklisted_fn};
use crate::casperlabs::CasperlabsContract;
use crate::resolver::cfg::{ControlFlowGraph, Instr};
use crate::resolver::expression::Expression;
use crate::resolver::{Contract, FunctionDecl, Type};
use crate::text::option_view;

verus! {

/// The name of an instruction that has no counterpart, and nothing for an
/// instruction that has one.
pub open spec fn unhandled_name(instr: &Instr) -> Option<Seq<char>> {
    match instr {
        Instr::ClearStorage { .. } => Some("ClearStorage"@),
        Instr::SetStorageBytes { .. } => Some("SetStorageBytes"@),
        Instr::Constant { .. } => Some("Constant"@),
        Instr::Print { .. } => Some("Print"@),
        Instr::Constructor { .. } => Some("Constructor"@),
        Instr::ExternalCall { .. } => Some("ExternalCall"@),
        Instr::AbiDecode { .. } => Some("AbiDecode"@),
        Instr::SelfDestruct { .. } => Some("SelfDestruct"@),
        Instr::Hash { .. } => Some("Hash"@),
        _ => None,
    }
}

/// The first of the items that is present, if any is.
pub open spec fn first_present(items: Seq<Option<Seq<char>>>) -> Option<Seq<char>>
    decreases items.len(),
{
    if items.len() == 0 {
        None
    } else {
        match first_present(items.drop_last()) {
            Some(found) => Some(found),
            None => items.last(),
        }
    }
}

/// What is found among the first items is what is found among them all.
pub proof fn lemma_first_present_stays(items: Seq<Option<Seq<char>>>, upto: int)
    requires
        0 <= upto <= items.len(),
        first_present(items.take(upto)) is Some,
    ensures
        first_present(items) == first_present(items.take(upto)),
    decreases items.len() - upto,
{
    if upto < items.len() {
        assert(items.take(upto + 1).drop_last() =~= items.take(upto));
        lemma_first_present_stays(items, upto + 1);
    } else {
        assert(items.take(upto) =~= items);
    }
}

/// Where something is found, it is one of the items.
pub proof fn lemma_first_present_is_an_item(items: Seq<Option<Seq<char>>>) -> (at: int)
    requires
        first_present(items) is Some,
    ensures
        0 <= at < items.len(),
        items[at] == first_present(items),
    decreases items.len(),
{
    if first_present(items.drop_last()) is Some {
        lemma_first_present_is_an_item(items.drop_last())
    } else {
        items.len() - 1
    }
}

/// The names of the instructions of a block, each where it has no counterpart.
pub open spec fn block_unhandled_names(
    cfg: &ControlFlowGraph,
    block: int,
) -> Seq<Option<Seq<char>>> {
    Seq::new(
        cfg.bb[block].instr.len() as nat,
        |i: int| unhandled_name(&cfg.bb[block].instr[i]),
    )
}

/// For each block of a graph, the first instruction in it without counterpart.
pub open spec fn cfg_unhandled_names(cfg: &ControlFlowGraph) -> Seq<Option<Seq<char>>> {
    Seq::new(cfg.bb.len() as nat, |b: int| first_present(block_unhandled_names(cfg, b)))
}

/// The first instruction of a graph without counterpart, block by block.
pub open spec fn cfg_unhandled(cfg: &ControlFlowGraph) -> Option<Seq<char>> {
    first_present(cfg_unhandled_names(cfg))
}

/// For each function of a contract, the first instruction in it without
/// counterpart; nothing for a function that is not written.
pub open spec fn contract_unhandled_names(contract: &Contract) -> Seq<Option<Seq<char>>> {
    Seq::new(
        contract.functions.len() as nat,
        |k: int|
            if is_blacklisted(contract.functions[k].signature@) {
                None
            } else {
                cfg_unhandled(&contract.functions[k].cfg)
            },
    )
}

/// The first instruction without counterpart in the functions that are
/// written, in the order of functions, blocks and instructions.
pub open spec fn contract_unhandled(contract: &Contract) -> Option<Seq<char>> {
    first_present(contract_unhandled_names(contract))
}

/// Whether a type has a counterpart of its own, whatever it is made of.
pub open spec fn type_in_table(ty: &Type) -> bool {
    match ty {
        Type::Bool => true,
        Type::String => true,
        Type::Uint(n) => *n == 8 || *n == 16 || *n == 32 || *n == 64 || *n == 128 || *n == 256,
        Type::Int(n) => *n == 8 || *n == 16 || *n == 32 || *n == 64 || *n == 128,
        Type::Address(payable) => !*payable,
        Type::Bytes(_) => true,
        Type::Array(_, _) => true,
        Type::Ref(_) => true,
        Type::StorageRef(_) => true,
        _ => false,
    }
}

/// Whether a type is written without a placeholder: it has a counterpart,
/// and so has what it is an array of or a reference to.
pub open spec fn type_known(ty: &Type) -> bool
    decreases ty,
{
    match ty {
        Type::Array(element, _) => type_known(element),
        Type::Ref(inner) => type_known(inner),
        Type::StorageRef(inner) => type_known(inner),
        _ => type_in_table(ty),
    }
}

/// Whether an expression has a counterpart of its own, whatever its operands.
pub open spec fn expression_in_table(e: &Expression) -> bool {
    match e {
        Expression::BoolLiteral(_) => true,
        Expression::BytesLiteral(_) => true,
        Expression::NumberLiteral(_, _) => true,
        Expression::ArrayLiteral(_, _, _) => true,
        Expression::Add(_, _) => true,
        Expression::Subtract(_, _) => true,
        Expression::Multiply(_, _) => true,
        Expression::UDivide(_, _) => true,
        Expression::SDivide(_, _) => true,
        Expression::UModulo(_, _) => true,
        Expression::SModulo(_, _) => true,
        Expression::Power(_, _) => true,
        Expression::BitwiseOr(_, _) => true,
        Expression::BitwiseAnd(_, _) => true,
        Expression::BitwiseXor(_, _) => true,
        Expression::Variable(_) => true,
        Expression::FunctionArg(_) => true,
        Expression::StorageLoad(_, _) => true,
        Expression::ZeroExt(_, _) => true,
        Expression::UMore(_, _) => true,
        Expression::ULess(_, _) => true,
        Expression::UMoreEqual(_, _) => true,
        Expression::ULessEqual(_, _) => true,
        Expression::SMore(_, _) => true,
        Expression::SLess(_, _) => true,
        Expression::SMoreEqual(_, _) => true,
        Expression::SLessEqual(_, _) => true,
        Expression::Equal(_, _) => true,
        Expression::NotEqual(_, _) => true,
        Expression::Not(_) => true,
        Expression::UnaryMinus(_) => true,
        Expression::Ternary(_, _, _) => true,
        Expression::ArraySubscript(_, _) => true,
        Expression::Keccak256(_) => true,
        _ => false,
    }
}

/// Whether an expression names nothing for which only a placeholder can be
/// written: it has a counterpart, and so have the operands that are written
/// with it and the type that a load from storage reads.
pub open spec fn expression_known(e: &Expression) -> bool
    decreases e,
{
    match e {
        Expression::ArrayLiteral(_, _, exprs) => forall|k: int|
            0 <= k < exprs.len() ==> expression_known(&exprs[k]),
        Expression::Add(l, r) => expression_known(l) && expression_known(r),
        Expression::Subtract(l, r) => expression_known(l) && expression_known(r),
        Expression::Multiply(l, r) => expression_known(l) && expression_known(r),
        Expression::UDivide(l, r) => expression_known(l) && expression_known(r),
        Expression::SDivide(l, r) => expression_known(l) && expression_known(r),
        Expression::UModulo(l, r) => expression_known(l) && expression_known(r),
        Expression::SModulo(l, r) => expression_known(l) && expression_known(r),
        Expression::Power(l, r) => expression_known(l) && expression_known(r),
        Expression::BitwiseOr(l, r) => expression_known(l) && expression_known(r),
        Expression::BitwiseAnd(l, r) => expression_known(l) && expression_known(r),
        Expression::BitwiseXor(l, r) => expression_known(l) && expression_known(r),
        Expression::UMore(l, r) => expression_known(l) && expression_known(r),
        Expression::ULess(l, r) => expression_known(l) && expression_known(r),
        Expression::UMoreEqual(l, r) => expression_known(l) && expression_known(r),
        Expression::ULessEqual(l, r) => expression_known(l) && expression_known(r),
        Expression::SMore(l, r) => expression_known(l) && expression_known(r),
        Expression::SLess(l, r) => expression_known(l) && expression_known(r),
        Expression::SMoreEqual(l, r) => expression_known(l) && expression_known(r),
        Expression::SLessEqual(l, r) => expression_known(l) && expression_known(r),
        Expression::Equal(l, r) => expression_known(l) && expression_known(r),
        Expression::NotEqual(l, r) => expression_known(l) && expression_known(r),
        Expression::ArraySubscript(a, i) => expression_known(a) && expression_known(i),
        Expression::Ternary(c, l, r) => {
            &&& expression_known(c)
            &&& expression_known(l)
            &&& expression_known(r)
        },
        Expression::Not(inner) => expression_known(inner),
        Expression::UnaryMinus(inner) => expression_known(inner),
        Expression::ZeroExt(_, inner) => expression_known(inner),
        Expression::StorageLoad(ty, key) => type_known(ty) && expression_known(key),
        Expression::Keccak256(pairs) => forall|k: int|
            0 <= k < pairs.len() && k < 2 ==> expression_known(&pairs[k].0),
        _ => expression_in_table(e),
    }
}

/// Whether an instruction names nothing for which only a placeholder can be
/// written: the expressions that are written for it, and for an assignment
/// the type of the variable.
pub open spec fn instr_known(instr: &Instr, cfg: &ControlFlowGraph) -> bool {
    match instr {
        Instr::Return { value } => value.len() > 0 ==> expression_known(&value[0]),
        Instr::SetStorage { storage, .. } => expression_known(storage),
        Instr::SetLocal { res, expr } => {
            &&& expression_known(expr)
            &&& *res < cfg.vars.len() ==> type_known(&cfg.vars[*res as int].ty)
        },
        Instr::Call { args, .. } => forall|k: int|
            0 <= k < args.len() ==> expression_known(&args[k]),
        Instr::BranchCond { cond, .. } => expression_known(cond),
        Instr::Store { dest, .. } => expression_known(dest),
        _ => true,
    }
}

/// Whether a function names nothing for which only a placeholder can be
/// written: the types of its parameters and the instructions of its blocks.
pub open spec fn function_known(function: &FunctionDecl) -> bool {
    &&& forall|k: int|
        0 <= k < function.params.len() ==> type_known(&(#[trigger] function.params[k]).ty)
    &&& forall|b: int, i: int|
        0 <= b < function.cfg.bb.len() && 0 <= i < function.cfg.bb[b].instr.len() ==> instr_known(
            #[trigger] &function.cfg.bb[b].instr[i],
            &function.cfg,
        )
}

/// Whether the functions of a contract that are written name nothing for
/// which only a placeholder can be written.
pub open spec fn contract_known(contract: &Contract) -> bool {
    forall|k: int|
        0 <= k < contract.functions.len() && !is_blacklisted(
            (#[trigger] contract.functions[k]).signature@,
        ) ==> function_known(&contract.functions[k])
}

/// The name of an instruction that has no counterpart.
pub fn unhandled_instr_name(instr: &Instr) -> (name: Option<String>)
    ensures
        option_view(name) == unhandled_name(instr),
{
    match instr {
        Instr::ClearStorage { .. } => Some(String::from_str("ClearStorage")),
        Instr::SetStorageBytes { .. } => Some(String::from_str("SetStorageBytes")),
        Instr::Constant { .. } => Some(String::from_str("Constant")),
        Instr::Print { .. } => Some(String::from_str("Print")),
        Instr::Constructor { .. } => Some(String::from_str("Constructor")),
        Instr::ExternalCall { .. } => Some(String::from_str("ExternalCall")),
        Instr::AbiDecode { .. } => Some(String::from_str("AbiDecode")),
        Instr::SelfDestruct { .. } => Some(String::from_str("SelfDestruct")),
        Instr::Hash { .. } => Some(String::from_str("Hash")),
        _ => None,
    }
}

/// The name of the first instruction of a graph that has no counterpart.
pub fn cfg_unhandled_name(cfg: &ControlFlowGraph) -> (name: Option<String>)
    ensures
        option_view(name) == cfg_unhandled(cfg),
{
    let ghost blocks = cfg_unhandled_names(cfg);
    let mut b: usize = 0;
    while b < cfg.bb.len()
        invariant
            b <= cfg.bb.len(),
            blocks == cfg_unhandled_names(cfg),
            first_present(blocks.take(b as int)) is None,
        decreases cfg.bb.len() - b,
    {
        let instrs = &cfg.bb[b].instr;
        let ghost names = block_unhandled_names(cfg, b as int);
        let mut i: usize = 0;
        while i < instrs.len()
            invariant
                b < cfg.bb.len(),
                instrs == &cfg.bb[b as int].instr,
                i <= instrs.len(),
                blocks == cfg_unhandled_names(cfg),
                names == block_unhandled_names(cfg, b as int),
                first_present(blocks.take(b as int)) is None,
                first_present(names.take(i as int)) is None,
            decreases instrs.len() - i,
        {
            proof {
                assert(names.take(i + 1).drop_last() =~= names.take(i as int));
                assert(blocks.take(b + 1).drop_last() =~= blocks.take(b as int));
            }
            let found = unhandled_instr_name(&instrs[i]);
            if found.is_some() {
                proof {
                    lemma_first_present_stays(names, i + 1);
                    lemma_first_present_stays(blocks, b + 1);
                }
                return found;
            }
            i = i + 1;
        }
        proof {
            assert(names.take(instrs.len() as int) =~= names);
            assert(blocks.take(b + 1).drop_last() =~= blocks.take(b as int));
        }
        b = b + 1;
    }
    proof {
        assert(blocks.take(cfg.bb.len() as int) =~= blocks);
    }
    None
}

/// Whether a type is written without a placeholder.
pub fn type_is_known(ty: &Type) -> (known: bool)
    ensures
        known == type_known(ty),
    decreases ty,
{
    match ty {
        Type::Bool => true,
        Type::String => true,
        Type::Uint(n) => *n == 8 || *n == 16 || *n == 32 || *n == 64 || *n == 128 || *n == 256,
        Type::Int(n) => *n == 8 || *n == 16 || *n == 32 || *n == 64 || *n == 128,
        Type::Address(payable) => !*payable,
        Type::Bytes(_) => true,
        Type::Array(element, _) => type_is_known(element),
        Type::Ref(inner) => type_is_known(inner),
        Type::StorageRef(inner) => type_is_known(inner),
        _ => false,
    }
}

/// Whether an expression names nothing for which only a placeholder can be
/// written.
#[verifier::loop_isolation(false)]
pub fn expression_is_known(e: &Expression) -> (known: bool)
    ensures
        known == expression_known(e),
    decreases e,
{
    match e {
        Expression::BoolLiteral(_)
        | Expression::BytesLiteral(_)
        | Expression::NumberLiteral(_, _)
        | Expression::Variable(_)
        | Expression::FunctionArg(_) => true,
        Expression::ArrayLiteral(_, _, exprs) => {
            let mut i: usize = 0;
            while i < exprs.len()
                invariant
                    i <= exprs.len(),
                    forall|k: int| 0 <= k < i ==> expression_known(&exprs[k]),
                decreases exprs.len() - i,
            {
                if !expression_is_known(&exprs[i]) {
                    return false;
                }
                i = i + 1;
            }
            true
        },
        Expression::Add(l, r)
        | Expression::Subtract(l, r)
        | Expression::Multiply(l, r)
        | Expression::UDivide(l, r)
        | Expression::SDivide(l, r)
        | Expression::UModulo(l, r)
        | Expression::SModulo(l, r)
        | Expression::Power(l, r)
        | Expression::BitwiseOr(l, r)
        | Expression::BitwiseAnd(l, r)
        | Expression::BitwiseXor(l, r)
        | Expression::UMore(l, r)
        | Expression::ULess(l, r)
        | Expression::UMoreEqual(l, r)
        | Expression::ULessEqual(l, r)
        | Expression::SMore(l, r)
        | Expression::SLess(l, r)
        | Expression::SMoreEqual(l, r)
        | Expression::SLessEqual(l, r)
        | Expression::Equal(l, r)
        | Expression::NotEqual(l, r)
        | Expression::ArraySubscript(l, r) => expression_is_known(l) && expression_is_known(r),
        Expression::Ternary(c, l, r) => expression_is_known(c) && expression_is_known(l)
            && expression_is_known(r),
        Expression::Not(inner) | Expression::UnaryMinus(inner) => expression_is_known(inner),
        Expression::ZeroExt(_, inner) => expression_is_known(inner),
        Expression::StorageLoad(ty, key) => type_is_known(ty) && expression_is_known(key),
        Expression::Keccak256(pairs) => {
            if pairs.len() > 0 && !expression_is_known(&pairs[0].0) {
                return false;
            }
            if pairs.len() > 1 && !expression_is_known(&pairs[1].0) {
                return false;
            }
            true
        },
        _ => false,
    }
}

/// Whether an instruction names nothing for which only a placeholder can be
/// written.
#[verifier::loop_isolation(false)]
pub fn instr_is_known(instr: &Instr, cfg: &ControlFlowGraph) -> (known: bool)
    ensures
        known == instr_known(instr, cfg),
{
    match instr {
        Instr::Return { value } => value.len() == 0 || expression_is_known(&value[0]),
        Instr::SetStorage { storage, .. } => expression_is_known(storage),
        Instr::SetLocal { res, expr } => expression_is_known(expr) && (*res >= cfg.vars.len()
            || type_is_known(&cfg.vars[*res].ty)),
        Instr::Call { args, .. } => {
            let mut i: usize = 0;
            while i < args.len()
                invariant
                    i <= args.len(),
                    forall|k: int| 0 <= k < i ==> expression_known(&args[k]),
                decreases args.len() - i,
            {
                if !expression_is_known(&args[i]) {
                    return false;
                }
                i = i + 1;
            }
            true
        },
        Instr::BranchCond { cond, .. } => expression_is_known(cond),
        Instr::Store { dest, .. } => expression_is_known(dest),
        _ => true,
    }
}

/// Whether a function names nothing for which only a placeholder can be
/// written.
#[verifier::loop_isolation(false)]
pub fn function_is_known(function: &FunctionDecl) -> (known: bool)
    ensures
        known == function_known(function),
{
    let mut k: usize = 0;
    while k < function.params.len()
        invariant
            k <= function.params.len(),
            forall|p: int| 0 <= p < k ==> type_known(&(#[trigger] function.params[p]).ty),
        decreases function.params.len() - k,
    {
        if !type_is_known(&function.params[k].ty) {
            return false;
        }
        k = k + 1;
    }
    let cfg = &function.cfg;
    let mut b: usize = 0;
    while b < cfg.bb.len()
        invariant
            b <= cfg.bb.len(),
            forall|p: int, i: int|
                0 <= p < b && 0 <= i < cfg.bb[p].instr.len() ==> instr_known(
                    #[trigger] &cfg.bb[p].instr[i],
                    cfg,
                ),
        decreases cfg.bb.len() - b,
    {
        let instrs = &cfg.bb[b].instr;
        let mut i: usize = 0;
        while i < instrs.len()
            invariant
                b < cfg.bb.len(),
                instrs == &cfg.bb[b as int].instr,
                i <= instrs.len(),
                forall|j: int| 0 <= j < i ==> instr_known(#[trigger] &instrs[j], cfg),
            decreases instrs.len() - i,
        {
            if !instr_is_known(&instrs[i], cfg) {
                assert(!instr_known(&function.cfg.bb[b as int].instr[i as int], &function.cfg));
                return false;
            }
            i = i + 1;
        }
        b = b + 1;
    }
    true
}

impl<'a> CasperlabsContract<'a> {
    /// The name of the first instruction without counterpart in the
    /// functions that are written: with one there, the contract cannot be
    /// written.
    pub fn first_unhandled(&self) -> (name: Option<String>)
        ensures
            option_view(name) == contract_unhandled(self.contract),
    {
        let ghost names = contract_unhandled_names(self.contract);
        let mut k: usize = 0;
        while k < self.contract.functions.len()
            invariant
                k <= self.contract.functions.len(),
                names == contract_unhandled_names(self.contract),
                first_present(names.take(k as int)) is None,
            decreases self.contract.functions.len() - k,
        {
            proof {
                assert(names.take(k + 1).drop_last() =~= names.take(k as int));
            }
            let function = &self.contract.functions[k];
            if !is_blacklisted_fn(function.signature.as_str()) {
                let found = cfg_unhandled_name(&function.cfg);
                if found.is_some() {
                    proof {
                        lemma_first_present_stays(names, k + 1);
                    }
                    return found;
                }
            }
            k = k + 1;
        }
        proof {
            assert(names.take(self.contract.functions.len() as int) =~= names);
        }
        None
    }

    /// Whether the functions that are written name nothing for which only a
    /// placeholder can be written.
    pub fn names_only_known(&self) -> (known: bool)
        ensures
            known == contract_known(self.contract),
    {
        let mut k: usize = 0;
        while k < self.contract.functions.len()
            invariant
                k <= self.contract.functions.len(),
                forall|p: int|
                    0 <= p < k && !is_blacklisted(
                        (#[trigger] self.contract.functions[p]).signature@,
                    ) ==> function_known(&self.contract.functions[p]),
            decreases self.contract.functions.len() - k,
        {
            let function = &self.contract.functions[k];
            if !is_blacklisted_fn(function.signature.as_str()) && !function_is_known(function) {
                return false;
            }
            k = k + 1;
        }
        true
    }
}

} // verus!
