//! Which graphs can be written out as nested loops and conditionals, and how
//! to tell.

use vstd::prelude::*;

use crate::resolver::cfg::{ControlFlowGraph, Instr};
use crate::text::same_text;

verus! {

/// Whether a label marks the block behind a loop.
pub open spec fn is_loop_exit(label: Seq<char>) -> bool {
    label == "endwhile"@ || label == "endfor"@
}

/// Whether a label marks the block that an `if` falls to when its condition
/// does not hold.
pub open spec fn is_branch_join(label: Seq<char>) -> bool {
    label == "endif"@ || label == "else"@
}

/// Whether an instruction opens a loop or an `if`: it is a conditional branch
/// between two blocks of the graph, and the block on its failing side is
/// labelled as the exit of a loop or the join of an `if`.
pub open spec fn opens_structure(cfg: &ControlFlowGraph, instr: &Instr) -> bool {
    match instr {
        Instr::BranchCond { true_, false_, .. } => {
            &&& *true_ < cfg.bb.len()
            &&& *false_ < cfg.bb.len()
            &&& (is_loop_exit(cfg.bb[*false_ as int].name@) || is_branch_join(
                cfg.bb[*false_ as int].name@,
            ))
        },
        _ => false,
    }
}

/// Under a ranking of the blocks, the rank of an instruction: one above the
/// higher of the two blocks that it leads into where it opens a loop or an
/// `if`, and zero where it opens none.
pub open spec fn instr_rank(cfg: &ControlFlowGraph, rank: Seq<nat>, instr: &Instr) -> nat {
    match instr {
        Instr::BranchCond { true_, false_, .. } => {
            if opens_structure(cfg, instr) {
                if rank[*true_ as int] >= rank[*false_ as int] {
                    rank[*true_ as int] + 1
                } else {
                    rank[*false_ as int] + 1
                }
            } else {
                0
            }
        },
        _ => 0,
    }
}

/// Whether each block ranks at least as high as each of its instructions.
pub open spec fn is_ranking(cfg: &ControlFlowGraph, rank: Seq<nat>) -> bool {
    &&& rank.len() == cfg.bb.len()
    &&& forall|b: int, i: int|
        0 <= b < cfg.bb.len() && 0 <= i < cfg.bb[b].instr.len() ==> instr_rank(
            cfg,
            rank,
            #[trigger] &cfg.bb[b].instr[i],
        ) <= rank[b]
}

/// Whether the conditional branches of a graph nest: the blocks can be ranked
/// so that a conditional branch that opens a loop or an `if` leads only to
/// blocks of lower rank than its own. Where such a branch leads back to its
/// own block, directly or through others of its kind, writing the graph out
/// would never end.
pub open spec fn branches_nest(cfg: &ControlFlowGraph) -> bool {
    exists|rank: Seq<nat>| is_ranking(cfg, rank)
}

/// A ranking of the blocks, where the branches nest.
pub open spec fn ranking(cfg: &ControlFlowGraph) -> Seq<nat> {
    choose|rank: Seq<nat>| is_ranking(cfg, rank)
}

/// Whether a label marks the exit of a loop or the join of an `if`.
pub fn is_structure_label(label: &str) -> (marks: bool)
    ensures
        marks == (is_loop_exit(label@) || is_branch_join(label@)),
{
    same_text(label, "endwhile") || same_text(label, "endfor") || same_text(label, "endif")
        || same_text(label, "else")
}

/// Whether an instruction, where it opens a loop or an `if`, leads only into
/// marked blocks.
pub open spec fn instr_settled(cfg: &ControlFlowGraph, instr: &Instr, done: Seq<bool>) -> bool {
    match instr {
        Instr::BranchCond { true_, false_, .. } => opens_structure(cfg, instr) ==> {
            &&& done[*true_ as int]
            &&& done[*false_ as int]
        },
        _ => true,
    }
}

/// Whether each instruction of a block is settled.
pub open spec fn block_settled(cfg: &ControlFlowGraph, block: int, done: Seq<bool>) -> bool {
    forall|i: int|
        0 <= i < cfg.bb[block].instr.len() ==> instr_settled(
            cfg,
            #[trigger] &cfg.bb[block].instr[i],
            done,
        )
}

/// Whether an instruction, where it opens a loop or an `if`, leads only into
/// marked blocks that rank below a bound.
pub open spec fn instr_below(
    cfg: &ControlFlowGraph,
    instr: &Instr,
    done: Seq<bool>,
    rank: Seq<nat>,
    bound: nat,
) -> bool {
    match instr {
        Instr::BranchCond { true_, false_, .. } => opens_structure(cfg, instr) ==> {
            &&& done[*true_ as int]
            &&& done[*false_ as int]
            &&& rank[*true_ as int] < bound
            &&& rank[*false_ as int] < bound
        },
        _ => true,
    }
}

/// Whether the marked blocks are ranked: each below `next`, and each above
/// the blocks that its instructions lead into.
pub open spec fn ranked_so_far(
    cfg: &ControlFlowGraph,
    done: Seq<bool>,
    rank: Seq<nat>,
    next: nat,
) -> bool {
    &&& done.len() == cfg.bb.len()
    &&& rank.len() == cfg.bb.len()
    &&& forall|b: int| 0 <= b < done.len() && #[trigger] done[b] ==> rank[b] < next
    &&& forall|b: int, i: int|
        0 <= b < cfg.bb.len() && done[b] && 0 <= i < cfg.bb[b].instr.len() ==> instr_below(
            cfg,
            #[trigger] &cfg.bb[b].instr[i],
            done,
            rank,
            rank[b],
        )
}

/// Whether no unmarked block is settled: each leads into another unmarked
/// one.
pub open spec fn stuck(cfg: &ControlFlowGraph, done: Seq<bool>) -> bool {
    forall|b: int| 0 <= b < done.len() && !#[trigger] done[b] ==> !block_settled(cfg, b, done)
}

/// How many blocks are not marked.
pub open spec fn unmarked(done: Seq<bool>) -> nat
    decreases done.len(),
{
    if done.len() == 0 {
        0
    } else {
        unmarked(done.drop_last()) + if done.last() {
            0nat
        } else {
            1nat
        }
    }
}

/// Marking one more block leaves one fewer unmarked.
pub proof fn lemma_mark_counts(done: Seq<bool>, block: int)
    requires
        0 <= block < done.len(),
        !done[block],
    ensures
        unmarked(done.update(block, true)) + 1 == unmarked(done),
    decreases done.len(),
{
    if block == done.len() - 1 {
        assert(done.update(block, true).drop_last() =~= done.drop_last());
    } else {
        lemma_mark_counts(done.drop_last(), block);
        assert(done.update(block, true).drop_last() =~= done.drop_last().update(block, true));
    }
}

/// Where no unmarked block is settled, a ranking puts every unmarked block
/// above any height: so with an unmarked block left there is no ranking.
pub proof fn lemma_stuck_ranks_high(
    cfg: &ControlFlowGraph,
    done: Seq<bool>,
    rank: Seq<nat>,
    height: nat,
)
    requires
        is_ranking(cfg, rank),
        done.len() == cfg.bb.len(),
        stuck(cfg, done),
    ensures
        forall|b: int| 0 <= b < done.len() && !#[trigger] done[b] ==> rank[b] >= height,
    decreases height,
{
    if height > 0 {
        lemma_stuck_ranks_high(cfg, done, rank, (height - 1) as nat);
        assert forall|b: int| 0 <= b < done.len() && !#[trigger] done[b] implies rank[b]
            >= height by {
            assert(!block_settled(cfg, b, done));
            let i = choose|i: int|
                0 <= i < cfg.bb[b].instr.len() && !instr_settled(cfg, &cfg.bb[b].instr[i], done);
            let instr = &cfg.bb[b].instr[i];
            assert(instr_rank(cfg, rank, instr) <= rank[b]);
            match instr {
                Instr::BranchCond { true_, false_, .. } => {
                    assert(opens_structure(cfg, instr));
                    if !done[*true_ as int] {
                        assert(rank[*true_ as int] >= height - 1);
                    } else {
                        assert(!done[*false_ as int]);
                        assert(rank[*false_ as int] >= height - 1);
                    }
                },
                _ => {},
            }
        }
    }
}

/// Whether every instruction of a block, where it opens a loop or an `if`,
/// leads only into marked blocks.
pub fn block_is_settled(cfg: &ControlFlowGraph, block: usize, done: &Vec<bool>) -> (settled: bool)
    requires
        block < cfg.bb.len(),
        done.len() == cfg.bb.len(),
    ensures
        settled == block_settled(cfg, block as int, done@),
{
    let instrs = &cfg.bb[block].instr;
    let mut i: usize = 0;
    while i < instrs.len()
        invariant
            block < cfg.bb.len(),
            done.len() == cfg.bb.len(),
            instrs == &cfg.bb[block as int].instr,
            i <= instrs.len(),
            forall|k: int| 0 <= k < i ==> instr_settled(cfg, #[trigger] &instrs[k], done@),
        decreases instrs.len() - i,
    {
        match &instrs[i] {
            Instr::BranchCond { true_, false_, .. } => {
                if *true_ < cfg.bb.len() && *false_ < cfg.bb.len() && is_structure_label(
                    cfg.bb[*false_].name.as_str(),
                ) {
                    if !(done[*true_] && done[*false_]) {
                        assert(!instr_settled(cfg, &cfg.bb[block as int].instr[i as int], done@));
                        return false;
                    }
                }
            },
            _ => {},
        }
        i = i + 1;
    }
    true
}

/// Whether the conditional branches of a graph nest.
///
/// Blocks are marked one by one, a block as soon as all that it leads into
/// is marked. The order of marking ranks the blocks; where marking comes to
/// a halt before every block is marked, no ranking exists.
pub fn check_nesting(cfg: &ControlFlowGraph) -> (nests: bool)
    ensures
        nests == branches_nest(cfg),
{
    let n = cfg.bb.len();
    let mut done: Vec<bool> = Vec::new();
    while done.len() < n
        invariant
            n == cfg.bb.len(),
            done.len() <= n,
            forall|b: int| 0 <= b < done.len() ==> !done[b],
        decreases n - done.len(),
    {
        done.push(false);
    }
    let ghost mut rank: Seq<nat> = Seq::new(n as nat, |b: int| 0nat);
    let ghost mut next: nat = 0;
    let mut progress = true;
    while progress
        invariant
            n == cfg.bb.len(),
            ranked_so_far(cfg, done@, rank, next),
            !progress ==> stuck(cfg, done@),
        decreases unmarked(done@), (if progress { 1nat } else { 0nat }),
    {
        progress = false;
        let ghost before = done@;
        let mut block: usize = 0;
        while block < n
            invariant
                n == cfg.bb.len(),
                block <= n,
                before.len() == n,
                ranked_so_far(cfg, done@, rank, next),
                !progress ==> done@ == before,
                !progress ==> forall|b: int|
                    0 <= b < block && !#[trigger] done[b] ==> !block_settled(cfg, b, done@),
                progress ==> unmarked(done@) < unmarked(before),
            decreases n - block,
        {
            if !done[block] && block_is_settled(cfg, block, &done) {
                proof {
                    lemma_mark_counts(done@, block as int);
                    let marked = done@.update(block as int, true);
                    let ranked = rank.update(block as int, next);
                    assert forall|b: int, i: int|
                        0 <= b < cfg.bb.len() && marked[b] && 0 <= i < cfg.bb[b].instr.len()
                        implies instr_below(
                        cfg,
                        #[trigger] &cfg.bb[b].instr[i],
                        marked,
                        ranked,
                        ranked[b],
                    ) by {
                        let instr = &cfg.bb[b].instr[i];
                        if b == block {
                            assert(instr_settled(cfg, instr, done@));
                        } else {
                            assert(instr_below(cfg, instr, done@, rank, rank[b]));
                        }
                    }
                    rank = ranked;
                    next = next + 1;
                }
                done.set(block, true);
                progress = true;
            }
            block = block + 1;
        }
    }
    let mut block: usize = 0;
    while block < n
        invariant
            n == cfg.bb.len(),
            block <= n,
            ranked_so_far(cfg, done@, rank, next),
            stuck(cfg, done@),
            forall|b: int| 0 <= b < block ==> done[b],
        decreases n - block,
    {
        if !done[block] {
            proof {
                if branches_nest(cfg) {
                    let other = choose|other: Seq<nat>| is_ranking(cfg, other);
                    lemma_stuck_ranks_high(cfg, done@, other, other[block as int] + 1);
                }
            }
            return false;
        }
        block = block + 1;
    }
    proof {
        assert forall|b: int, i: int|
            0 <= b < cfg.bb.len() && 0 <= i < cfg.bb[b].instr.len() implies instr_rank(
            cfg,
            rank,
            #[trigger] &cfg.bb[b].instr[i],
        ) <= rank[b] by {
            assert(instr_below(cfg, &cfg.bb[b].instr[i], done@, rank, rank[b]));
        }
        assert(is_ranking(cfg, rank));
    }
    true
}

} // verus!
