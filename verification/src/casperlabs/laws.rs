//! What holds of the output, whatever the contract.

use vstd::prelude::*;

use crate::casperlabs::blocks::{block_text, cfg_valid, else_clause, instr_text, instr_valid};
use crate::casperlabs::diagnostics::{
    block_unhandled_names, cfg_unhandled_names, contract_unhandled, contract_unhandled_names,
    expression_in_table, lemma_first_present_is_an_item, type_in_table, unhandled_name,
};
use crate::casperlabs::expressions::{
    expression_text, storage_key_text, storage_slot_text, UNKNOWN_EXPRESSION,
};
use crate::casperlabs::functions::{contract_valid, emitted, function_valid, is_blacklisted};
use crate::casperlabs::module::module_text;
use crate::casperlabs::names::{local_var_text, GET_CALLER, MSG_SENDER};
use crate::casperlabs::nesting::{branches_nest, is_branch_join, is_loop_exit};
use crate::casperlabs::types::{type_text, UNKNOWN_TYPE};
use crate::casperlabs::CasperlabsContract;
use crate::number::Number;
use crate::resolver::cfg::{ControlFlowGraph, Instr};
use crate::resolver::expression::Expression;
use crate::resolver::{Contract, FunctionDecl, Type};
use crate::text::quoted;

verus! {

/// The output is a function of the contract alone: two renderers over equal
/// contracts write the same text, character for character, and so does one
/// renderer asked twice.
pub proof fn render_is_deterministic(
    a: CasperlabsContract,
    b: CasperlabsContract,
    first: String,
    second: String,
)
    requires
        a.contract == b.contract,
        first@ == module_text(a.contract),
        second@ == module_text(b.contract),
    ensures
        first@ == second@,
{
}

/// No blacklisted function is among those written, and the functions written
/// are the same as if a blacklisted one had not been declared at all.
pub proof fn blacklisted_function_is_not_emitted(functions: Seq<FunctionDecl>, at: int)
    requires
        0 <= at < functions.len(),
        is_blacklisted(functions[at].signature@),
    ensures
        emitted(functions) == emitted(functions.remove(at)),
        forall|k: int|
            0 <= k < emitted(functions).len() ==> !is_blacklisted(
                (#[trigger] emitted(functions)[k]).signature@,
            ),
{
    let keep = |f: FunctionDecl| !is_blacklisted(f.signature@);
    let before = functions.take(at);
    let after = functions.skip(at + 1);
    assert(functions =~= before + seq![functions[at]] + after);
    assert(functions.remove(at) =~= before + after);
    Seq::filter_distributes_over_add(before + seq![functions[at]], after, keep);
    Seq::filter_distributes_over_add(before, seq![functions[at]], keep);
    Seq::filter_distributes_over_add(before, after, keep);
    assert(seq![functions[at]].filter(keep) =~= Seq::<FunctionDecl>::empty()) by {
        reveal_with_fuel(Seq::filter, 2);
        assert(seq![functions[at]].drop_last() =~= Seq::<FunctionDecl>::empty());
    }
    assert(before.filter(keep) + Seq::<FunctionDecl>::empty() =~= before.filter(keep));
    assert forall|k: int| 0 <= k < emitted(functions).len() implies !is_blacklisted(
        (#[trigger] emitted(functions)[k]).signature@,
    ) by {
        functions.lemma_filter_pred(keep, k);
    }
}

/// Giving a variable its own value writes nothing.
pub proof fn self_assignment_is_silent(
    contract: &Contract,
    cfg: &ControlFlowGraph,
    variable: usize,
    visited: Seq<usize>,
)
    ensures
        instr_text(
            contract,
            &(Instr::SetLocal { res: variable, expr: Expression::Variable(variable) }),
            cfg,
            visited,
        ) is None,
{
}

/// A load from storage under a number names the state variable at that
/// position: it reads the key that is the variable's name, and for
/// `msg_sender` it is the caller's call, with no read around it.
pub proof fn storage_load_names_the_variable(
    contract: &Contract,
    cfg: &ControlFlowGraph,
    ty: Type,
    bits: u16,
    number: Number,
)
    requires
        0 <= number@ < contract.variables.len(),
    ensures
        ({
            let name = contract.variables[number@].name@;
            let load = Expression::StorageLoad(
                ty,
                Box::new(Expression::NumberLiteral(bits, number)),
            );
            expression_text(contract, &load, cfg) == if name == MSG_SENDER@ {
                GET_CALLER@
            } else {
                "get_key::<"@ + type_text(&ty) + ">("@ + quoted(name) + ")"@
            }
        }),
{
    let name = contract.variables[number@].name@;
    let key = Expression::NumberLiteral(bits, number);
    assert(storage_key_text(contract, &key, cfg) == storage_slot_text(contract, number@));
    reveal_strlit("\"");
    reveal_strlit("runtime::get_caller()");
    assert(quoted(name)[0] == '"');
    assert(GET_CALLER@[0] == 'r');
}

/// No name of a local variable holds a dot.
pub proof fn local_names_have_no_dot(cfg: &ControlFlowGraph, id: int)
    ensures
        !local_var_text(cfg, id).contains('.'),
{
    let name = cfg.vars[id].id.name@;
    let keep = |c: char| c != '.';
    assert forall|k: int| 0 <= k < name.filter(keep).len() implies name.filter(keep)[k]
        != '.' by {
        name.lemma_filter_pred(keep, k);
    }
}

/// In a graph whose branches nest, a conditional branch whose failing side is
/// labelled as the exit of a loop becomes a `while` over the block on its
/// other side, followed by the exit.
pub proof fn loop_exit_label_gives_while(
    contract: &Contract,
    cfg: &ControlFlowGraph,
    cond: Expression,
    true_: usize,
    false_: usize,
    visited: Seq<usize>,
)
    requires
        true_ < cfg.bb.len(),
        false_ < cfg.bb.len(),
        is_loop_exit(cfg.bb[false_ as int].name@),
        branches_nest(cfg),
    ensures
        instr_text(contract, &(Instr::BranchCond { cond, true_, false_ }), cfg, visited) == Some(
            "while "@ + expression_text(contract, &cond, cfg) + " { "@ + block_text(
                contract,
                true_,
                cfg,
                visited,
            ) + " } "@ + block_text(contract, false_, cfg, visited),
        ),
{
}

/// In a graph whose branches nest, a conditional branch whose failing side is
/// labelled as the join of an `if` becomes an `if`, with an `else` part
/// exactly when the failing side writes anything.
pub proof fn branch_join_label_gives_if(
    contract: &Contract,
    cfg: &ControlFlowGraph,
    cond: Expression,
    true_: usize,
    false_: usize,
    visited: Seq<usize>,
)
    requires
        true_ < cfg.bb.len(),
        false_ < cfg.bb.len(),
        is_branch_join(cfg.bb[false_ as int].name@),
        branches_nest(cfg),
    ensures
        ({
            let then = block_text(contract, true_, cfg, visited);
            let otherwise = block_text(contract, false_, cfg, visited);
            let head = "if "@ + expression_text(contract, &cond, cfg) + " { "@ + then + " } "@;
            instr_text(contract, &(Instr::BranchCond { cond, true_, false_ }), cfg, visited)
                == Some(
                if otherwise.len() == 0 {
                    head
                } else {
                    head + ("else { "@ + otherwise + " }"@)
                },
            )
        }),
{
    reveal_strlit("endif");
    reveal_strlit("else");
    reveal_strlit("endwhile");
    reveal_strlit("endfor");
    let label = cfg.bb[false_ as int].name@;
    assert(!is_loop_exit(label)) by {
        if label == "endif"@ {
            assert(label.len() == 5);
        } else {
            assert(label.len() == 4);
        }
    }
    let then = block_text(contract, true_, cfg, visited);
    let otherwise = block_text(contract, false_, cfg, visited);
    let head = "if "@ + expression_text(contract, &cond, cfg) + " { "@ + then + " } "@;
    if otherwise.len() == 0 {
        assert(head + else_clause(otherwise) =~= head);
    }
}

/// A conditional branch whose failing side carries any other label writes
/// nothing.
pub proof fn other_label_is_silent(
    contract: &Contract,
    cfg: &ControlFlowGraph,
    cond: Expression,
    true_: usize,
    false_: usize,
    visited: Seq<usize>,
)
    requires
        false_ < cfg.bb.len(),
        !is_loop_exit(cfg.bb[false_ as int].name@),
        !is_branch_join(cfg.bb[false_ as int].name@),
    ensures
        instr_text(contract, &(Instr::BranchCond { cond, true_, false_ }), cfg, visited) is None,
{
}

/// A branch to a block that is on the list already writes nothing.
pub proof fn visited_branch_is_silent(
    contract: &Contract,
    cfg: &ControlFlowGraph,
    bb: usize,
    visited: Seq<usize>,
)
    requires
        visited.contains(bb),
    ensures
        instr_text(contract, &(Instr::Branch { bb }), cfg, visited) is None,
{
}

/// An expression that has no counterpart of its own is written as the
/// placeholder, whatever it holds.
pub proof fn unknown_expression_is_placeholder(
    contract: &Contract,
    e: &Expression,
    cfg: &ControlFlowGraph,
)
    requires
        !expression_in_table(e),
    ensures
        expression_text(contract, e, cfg) == UNKNOWN_EXPRESSION@,
{
}

/// A type that has no counterpart of its own is written as the placeholder.
pub proof fn unknown_type_is_placeholder(ty: &Type)
    requires
        !type_in_table(ty),
    ensures
        type_text(ty) == UNKNOWN_TYPE@,
{
}

/// A contract in which an instruction without counterpart is found cannot be
/// written.
pub proof fn unhandled_instruction_refuses_contract(contract: &Contract)
    requires
        contract_unhandled(contract) is Some,
    ensures
        !contract_valid(contract),
{
    let k = lemma_first_present_is_an_item(contract_unhandled_names(contract));
    let function = &contract.functions[k];
    let cfg = &function.cfg;
    assert(!is_blacklisted(function.signature@));
    let b = lemma_first_present_is_an_item(cfg_unhandled_names(cfg));
    let i = lemma_first_present_is_an_item(block_unhandled_names(cfg, b));
    assert(unhandled_name(&cfg.bb[b].instr[i]) is Some);
    assert(!instr_valid(contract, &cfg.bb[b].instr[i], cfg));
    assert(!cfg_valid(contract, cfg));
    assert(!function_valid(contract, &contract.functions[k]));
}

} // verus!
