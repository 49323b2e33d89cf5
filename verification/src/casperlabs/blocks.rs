//! Instructions as statements, and structured control flow out of the flat
//! graph of labelled blocks.

use vstd::prelude::*;
use vstd::string::*;

use crate::casperlabs::expressions::{
    expression_is_valid, expression_text, expression_texts, expression_valid,
    storage_key_is_valid, storage_key_text, storage_key_valid,
};
use crate::casperlabs::names::local_var_text;
use crate::casperlabs::nesting::{
    branches_nest, check_nesting, instr_rank, is_branch_join, is_loop_exit, is_ranking, ranking,
};
use crate::casperlabs::types::type_text;
use crate::casperlabs::CasperlabsContract;
use crate::resolver::cfg::{ControlFlowGraph, Instr};
use crate::resolver::Contract;
use crate::text::{enclose, enclose2, join, join_text, option_view, same_text, views};

verus! {

/// How many of the first `n` block positions are not on the list.
pub open spec fn unvisited_below(n: nat, visited: Seq<usize>) -> nat
    decreases n,
{
    if n == 0 {
        0
    } else {
        unvisited_below((n - 1) as nat, visited) + if visited.contains((n - 1) as usize) {
            0nat
        } else {
            1nat
        }
    }
}

/// How many blocks of the graph are not on the list.
pub open spec fn unvisited(cfg: &ControlFlowGraph, visited: Seq<usize>) -> nat {
    unvisited_below(cfg.bb.len() as nat, visited)
}

/// A text that may be absent, as a text.
pub open spec fn text_or_empty(text: Option<Seq<char>>) -> Seq<char> {
    match text {
        Some(s) => s,
        None => Seq::empty(),
    }
}

/// The `else` part of an `if`: nothing where there is nothing to do.
pub open spec fn else_clause(otherwise: Seq<char>) -> Seq<char> {
    if otherwise.len() == 0 {
        otherwise
    } else {
        "else { "@ + otherwise + " }"@
    }
}

/// Adding a block to the list leaves no more blocks unvisited than before.
pub proof fn lemma_visit_keeps(n: nat, visited: Seq<usize>, block: usize)
    ensures
        unvisited_below(n, visited.push(block)) <= unvisited_below(n, visited),
    decreases n,
{
    if n > 0 {
        lemma_visit_keeps((n - 1) as nat, visited, block);
        let last = (n - 1) as usize;
        if visited.contains(last) {
            let k = choose|k: int| 0 <= k < visited.len() && visited[k] == last;
            assert(visited.push(block)[k] == last);
        }
    }
}

/// Adding a block that was not on the list leaves fewer blocks unvisited.
pub proof fn lemma_visit_counts(n: nat, visited: Seq<usize>, block: usize)
    requires
        block < n,
        !visited.contains(block),
    ensures
        unvisited_below(n, visited.push(block)) < unvisited_below(n, visited),
    decreases n,
{
    let last = (n - 1) as usize;
    if last == block {
        lemma_visit_keeps((n - 1) as nat, visited, block);
        assert(visited.push(block)[visited.len() as int] == block);
    } else {
        lemma_visit_counts((n - 1) as nat, visited, block);
        if visited.contains(last) {
            let k = choose|k: int| 0 <= k < visited.len() && visited[k] == last;
            assert(visited.push(block)[k] == last);
        }
    }
}

/// Whether an instruction can be written: it is one of those that have a
/// counterpart, the variables, blocks and functions that it names exist,
/// and its expressions can be written.
pub open spec fn instr_valid(contract: &Contract, instr: &Instr, cfg: &ControlFlowGraph) -> bool {
    match instr {
        Instr::Eval { .. } => true,
        Instr::Return { value } => value.len() > 0 ==> expression_valid(&value[0], cfg),
        Instr::SetStorage { local, storage, .. } => {
            &&& *local < cfg.vars.len()
            &&& storage_key_valid(storage, cfg)
        },
        Instr::SetLocal { res, expr } => {
            &&& *res < cfg.vars.len()
            &&& expression_valid(expr, cfg)
        },
        Instr::Call { func, args, .. } => {
            &&& *func < contract.functions.len()
            &&& forall|k: int| 0 <= k < args.len() ==> expression_valid(&args[k], cfg)
        },
        Instr::BranchCond { cond, true_, false_ } => {
            &&& *true_ < cfg.bb.len()
            &&& *false_ < cfg.bb.len()
            &&& expression_valid(cond, cfg)
        },
        Instr::Branch { bb } => *bb < cfg.bb.len(),
        Instr::Store { dest, pos } => {
            &&& *pos < cfg.vars.len()
            &&& storage_key_valid(dest, cfg)
        },
        Instr::AssertFailure { .. } => true,
        Instr::Unreachable => true,
        _ => false,
    }
}

/// Whether a graph can be written: each of its instructions can, and its
/// conditional branches nest.
pub open spec fn cfg_valid(contract: &Contract, cfg: &ControlFlowGraph) -> bool {
    &&& forall|b: int, i: int|
        0 <= b < cfg.bb.len() && 0 <= i < cfg.bb[b].instr.len() ==> instr_valid(
            contract,
            #[trigger] &cfg.bb[b].instr[i],
            cfg,
        )
    &&& branches_nest(cfg)
}

/// The statement for an instruction, if it has one. `visited` lists the
/// blocks on the way from the entry to the instruction's own block, that
/// block included.
///
/// A conditional branch becomes a loop or an `if`, by the label of the
/// block that it leads to when the condition fails; with any other label
/// there it is silent. A plain branch continues with its target, unless
/// that block is on the list already.
pub open spec fn instr_text(
    contract: &Contract,
    instr: &Instr,
    cfg: &ControlFlowGraph,
    visited: Seq<usize>,
) -> Option<Seq<char>>
    decreases unvisited(cfg, visited), instr_rank(cfg, ranking(cfg), instr), 0nat, 0nat,
{
    match instr {
        Instr::Eval { .. } => None,
        Instr::Return { value } => {
            if value.len() == 0 {
                None
            } else {
                Some("ret("@ + expression_text(contract, &value[0], cfg) + ");"@)
            }
        },
        Instr::SetStorage { local, storage, .. } => Some(
            "set_key("@ + storage_key_text(contract, storage, cfg) + ", "@ + local_var_text(
                cfg,
                *local as int,
            ) + ");"@,
        ),
        Instr::SetLocal { res, expr } => {
            let left = local_var_text(cfg, *res as int);
            let right = expression_text(contract, expr, cfg);
            if left == right {
                None
            } else {
                Some(
                    "let "@ + left + ": "@ + type_text(&cfg.vars[*res as int].ty) + " = "@
                        + right + ";"@,
                )
            }
        },
        Instr::Call { func, args, .. } => Some(
            contract.functions[*func as int].name@ + "("@ + join(
                expression_texts(contract, args, cfg),
                ", "@,
            ) + ");"@,
        ),
        Instr::BranchCond { cond, true_, false_ } => {
            if *true_ < cfg.bb.len() && *false_ < cfg.bb.len() {
                let label = cfg.bb[*false_ as int].name@;
                if is_loop_exit(label) {
                    proof {
                        lemma_visit_keeps(cfg.bb.len() as nat, visited, *true_);
                        lemma_visit_keeps(cfg.bb.len() as nat, visited, *false_);
                    }
                    Some(
                        "while "@ + expression_text(contract, cond, cfg) + " { "@ + block_text(
                            contract,
                            *true_,
                            cfg,
                            visited,
                        ) + " } "@ + block_text(contract, *false_, cfg, visited),
                    )
                } else if is_branch_join(label) {
                    proof {
                        lemma_visit_keeps(cfg.bb.len() as nat, visited, *true_);
                        lemma_visit_keeps(cfg.bb.len() as nat, visited, *false_);
                    }
                    Some(
                        "if "@ + expression_text(contract, cond, cfg) + " { "@ + block_text(
                            contract,
                            *true_,
                            cfg,
                            visited,
                        ) + " } "@ + else_clause(block_text(contract, *false_, cfg, visited)),
                    )
                } else {
                    None
                }
            } else {
                None
            }
        },
        Instr::Branch { bb } => {
            if visited.contains(*bb) || *bb >= cfg.bb.len() {
                None
            } else {
                proof {
                    lemma_visit_counts(cfg.bb.len() as nat, visited, *bb);
                }
                Some(block_text(contract, *bb, cfg, visited))
            }
        },
        Instr::Store { dest, pos } => Some(
            storage_key_text(contract, dest, cfg) + " = "@ + local_var_text(cfg, *pos as int),
        ),
        Instr::AssertFailure { .. } => Some("assert(false);"@),
        Instr::Unreachable => Some("assert(false);"@),
        _ => None,
    }
}

/// The statements for the first `count` instructions of a block, one
/// after the other. `visited` is as for a single instruction.
pub open spec fn instrs_text(
    contract: &Contract,
    block_id: usize,
    count: nat,
    cfg: &ControlFlowGraph,
    visited: Seq<usize>,
) -> Seq<char>
    decreases unvisited(cfg, visited), ranking(cfg)[block_id as int], 1nat, count,
    when branches_nest(cfg) && block_id < cfg.bb.len() && count
        <= cfg.bb[block_id as int].instr.len()
{
    if count == 0 {
        Seq::empty()
    } else {
        instrs_text(contract, block_id, (count - 1) as nat, cfg, visited) + text_or_empty(
            instr_text(contract, &cfg.bb[block_id as int].instr[count - 1], cfg, visited),
        )
    }
}

/// The statements for a block, reached over the blocks on the list: the
/// statements for its instructions, with the block itself put on the list.
pub open spec fn block_text(
    contract: &Contract,
    block_id: usize,
    cfg: &ControlFlowGraph,
    visited: Seq<usize>,
) -> Seq<char>
    decreases unvisited(cfg, visited.push(block_id)), ranking(cfg)[block_id as int], 2nat, 0nat,
    when branches_nest(cfg) && block_id < cfg.bb.len()
{
    instrs_text(
        contract,
        block_id,
        cfg.bb[block_id as int].instr.len() as nat,
        cfg,
        visited.push(block_id),
    )
}

impl<'a> CasperlabsContract<'a> {
    /// Writes the statement for an instruction, if it has one.
    pub fn render_instruction(
        &self,
        instruction: &Instr,
        cfg: &ControlFlowGraph,
        visited_bbs: Vec<usize>,
    ) -> (out: Option<String>)
        requires
            cfg_valid(self.contract, cfg),
            instr_valid(self.contract, instruction, cfg),
        ensures
            option_view(out) == instr_text(self.contract, instruction, cfg, visited_bbs@),
        decreases unvisited(cfg, visited_bbs@), instr_rank(cfg, ranking(cfg), instruction), 0nat,
    {
        match instruction {
            Instr::Eval { .. } => None,
            Instr::Return { value } => {
                if value.len() == 0 {
                    None
                } else {
                    let expression = self.render_expression(&value[0], cfg);
                    Some(enclose("ret(", expression.as_str(), ");"))
                }
            },
            Instr::SetStorage { local, storage, .. } => {
                let key = self.render_var_name_or_default(storage, cfg);
                let value = self.render_local_var(*local, cfg);
                Some(enclose2("set_key(", key.as_str(), ", ", value.as_str(), ");"))
            },
            Instr::SetLocal { res, expr } => {
                let left = self.render_local_var(*res, cfg);
                let right = self.render_expression(expr, cfg);
                if left == right {
                    return None;
                }
                let ty = self.render_type(&cfg.vars[*res].ty);
                let mut out = enclose2("let ", left.as_str(), ": ", ty.as_str(), " = ");
                out.append(right.as_str());
                out.append(";");
                Some(out)
            },
            Instr::Call { func, args, .. } => {
                let mut result: Vec<String> = Vec::new();
                let mut i: usize = 0;
                while i < args.len()
                    invariant
                        i <= args.len(),
                        result.len() == i,
                        forall|k: int| 0 <= k < args.len() ==> expression_valid(&args[k], cfg),
                        forall|k: int|
                            0 <= k < i ==> (#[trigger] result[k])@ == expression_text(
                                self.contract,
                                &args[k],
                                cfg,
                            ),
                    decreases args.len() - i,
                {
                    result.push(self.render_expression(&args[i], cfg));
                    i = i + 1;
                }
                proof {
                    assert(views(result@) =~= expression_texts(self.contract, args, cfg));
                }
                let list = join_text(&result, ", ");
                let mut out = self.contract.functions[*func].name.clone();
                out.append("(");
                out.append(list.as_str());
                out.append(");");
                Some(out)
            },
            Instr::BranchCond { cond, true_, false_ } => {
                let false_bb = &cfg.bb[*false_];
                let cond = self.render_expression(cond, cfg);
                let label = false_bb.name.as_str();
                proof {
                    lemma_visit_keeps(cfg.bb.len() as nat, visited_bbs@, *true_);
                    lemma_visit_keeps(cfg.bb.len() as nat, visited_bbs@, *false_);
                }
                if same_text(label, "endwhile") || same_text(label, "endfor") {
                    let body = self.render_block(*true_, cfg, copy_of(&visited_bbs));
                    let exit = self.render_block(*false_, cfg, copy_of(&visited_bbs));
                    let mut out = enclose2("while ", cond.as_str(), " { ", body.as_str(), " } ");
                    out.append(exit.as_str());
                    Some(out)
                } else if same_text(label, "endif") || same_text(label, "else") {
                    let code = self.render_block(*false_, cfg, copy_of(&visited_bbs));
                    let else_stm = if code.as_str().is_empty() {
                        code
                    } else {
                        enclose("else { ", code.as_str(), " }")
                    };
                    let then = self.render_block(*true_, cfg, copy_of(&visited_bbs));
                    let mut out = enclose2("if ", cond.as_str(), " { ", then.as_str(), " } ");
                    out.append(else_stm.as_str());
                    Some(out)
                } else {
                    None
                }
            },
            Instr::Branch { bb } => {
                if contains_block(&visited_bbs, *bb) {
                    None
                } else {
                    proof {
                        lemma_visit_counts(cfg.bb.len() as nat, visited_bbs@, *bb);
                    }
                    Some(self.render_block(*bb, cfg, visited_bbs))
                }
            },
            Instr::Store { dest, pos } => {
                let key = self.render_var_name_or_default(dest, cfg);
                let value = self.render_local_var(*pos, cfg);
                let mut out = key;
                out.append(" = ");
                out.append(value.as_str());
                Some(out)
            },
            Instr::AssertFailure { .. } | Instr::Unreachable => Some(
                String::from_str("assert(false);"),
            ),
            _ => None,
        }
    }

    /// Writes the statements for a block that is reached over the blocks
    /// listed.
    pub fn render_block(
        &self,
        block_id: usize,
        cfg: &ControlFlowGraph,
        visited_bbs: Vec<usize>,
    ) -> (out: String)
        requires
            cfg_valid(self.contract, cfg),
            block_id < cfg.bb.len(),
        ensures
            out@ == block_text(self.contract, block_id, cfg, visited_bbs@),
        decreases unvisited(cfg, visited_bbs@.push(block_id)), ranking(cfg)[block_id as int], 1nat,
    {
        let mut visited = visited_bbs;
        visited.push(block_id);
        let block = &cfg.bb[block_id];
        let mut result = String::new();
        let mut i: usize = 0;
        while i < block.instr.len()
            invariant
                cfg_valid(self.contract, cfg),
                block_id < cfg.bb.len(),
                block == &cfg.bb[block_id as int],
                i <= block.instr.len(),
                visited@ == visited_bbs@.push(block_id),
                result@ == instrs_text(self.contract, block_id, i as nat, cfg, visited@),
            decreases block.instr.len() - i,
        {
            let instruction = &block.instr[i];
            proof {
                assert(is_ranking(cfg, ranking(cfg)));
                assert(instr_valid(self.contract, &cfg.bb[block_id as int].instr[i as int], cfg));
            }
            match self.render_instruction(instruction, cfg, copy_of(&visited)) {
                Some(statement) => {
                    result.append(statement.as_str());
                },
                None => {
                    assert(result@ + Seq::<char>::empty() =~= result@);
                },
            }
            i = i + 1;
        }
        result
    }
}

/// A copy of a list of block positions.
pub fn copy_of(list: &Vec<usize>) -> (out: Vec<usize>)
    ensures
        out@ == list@,
{
    let out = list.clone();
    assert(out@ =~= list@);
    out
}

/// Whether a block position is on a list.
pub fn contains_block(list: &Vec<usize>, block: usize) -> (found: bool)
    ensures
        found == list@.contains(block),
{
    let mut i: usize = 0;
    while i < list.len()
        invariant
            i <= list.len(),
            forall|k: int| 0 <= k < i ==> list[k] != block,
        decreases list.len() - i,
    {
        if list[i] == block {
            return true;
        }
        i = i + 1;
    }
    false
}

/// Whether an instruction can be written.
#[verifier::loop_isolation(false)]
pub fn instr_is_valid(contract: &Contract, instr: &Instr, cfg: &ControlFlowGraph) -> (valid: bool)
    ensures
        valid == instr_valid(contract, instr, cfg),
{
    match instr {
        Instr::Eval { .. } => true,
        Instr::Return { value } => value.len() == 0 || expression_is_valid(&value[0], cfg),
        Instr::SetStorage { local, storage, .. } => *local < cfg.vars.len() && storage_key_is_valid(
            storage,
            cfg,
        ),
        Instr::SetLocal { res, expr } => *res < cfg.vars.len() && expression_is_valid(expr, cfg),
        Instr::Call { func, args, .. } => {
            if *func >= contract.functions.len() {
                return false;
            }
            let mut i: usize = 0;
            while i < args.len()
                invariant
                    i <= args.len(),
                    forall|k: int| 0 <= k < i ==> expression_valid(&args[k], cfg),
                decreases args.len() - i,
            {
                if !expression_is_valid(&args[i], cfg) {
                    return false;
                }
                i = i + 1;
            }
            true
        },
        Instr::BranchCond { cond, true_, false_ } => *true_ < cfg.bb.len() && *false_
            < cfg.bb.len() && expression_is_valid(cond, cfg),
        Instr::Branch { bb } => *bb < cfg.bb.len(),
        Instr::Store { dest, pos } => *pos < cfg.vars.len() && storage_key_is_valid(dest, cfg),
        Instr::AssertFailure { .. } => true,
        Instr::Unreachable => true,
        _ => false,
    }
}

/// Whether a graph can be written.
pub fn cfg_is_valid(contract: &Contract, cfg: &ControlFlowGraph) -> (valid: bool)
    ensures
        valid == cfg_valid(contract, cfg),
{
    let mut b: usize = 0;
    while b < cfg.bb.len()
        invariant
            b <= cfg.bb.len(),
            forall|p: int, i: int|
                0 <= p < b && 0 <= i < cfg.bb[p].instr.len() ==> instr_valid(
                    contract,
                    #[trigger] &cfg.bb[p].instr[i],
                    cfg,
                ),
        decreases cfg.bb.len() - b,
    {
        let instrs = &cfg.bb[b].instr;
        let mut i: usize = 0;
        while i < instrs.len()
            invariant
                b < cfg.bb.len(),
                instrs == &cfg.bb[b as int].instr,
                i <= instrs.len(),
                forall|k: int| 0 <= k < i ==> instr_valid(contract, #[trigger] &instrs[k], cfg),
            decreases instrs.len() - i,
        {
            if !instr_is_valid(contract, &instrs[i], cfg) {
                assert(!instr_valid(contract, &cfg.bb[b as int].instr[i as int], cfg));
                return false;
            }
            i = i + 1;
        }
        b = b + 1;
    }
    check_nesting(cfg)
}

} // verus!
