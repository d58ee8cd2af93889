//! The repair engine: the sole mutator of the tree. For each `SmallArray`
//! finding it replaces the destination's capacity literal, in place in the
//! arena, with the finding's transfer size, so that declared capacity
//! equals the statically known transfer length. `Risk` findings are never
//! auto-repaired: repairing without knowing both sizes would be unsound. A
//! finding whose stored literal handle no longer resolves into the arena is
//! skipped — never a fatal error for the whole pass.

use crate::ast::{Finding, SourceTree};
use vstd::prelude::*;

verus! {

/// The arena after applying the first `n` findings in order: a `SmallArray`
/// finding with an in-range handle replaces that literal's value with the
/// finding's transfer size; an out-of-range handle and every `Risk` finding
/// leave the arena unchanged.
pub open spec fn repair_upto(lits: Seq<u64>, fs: Seq<Finding>, n: int) -> Seq<u64>
    decreases n,
{
    if n <= 0 {
        lits
    } else {
        let prev = repair_upto(lits, fs, n - 1);
        match fs[n - 1] {
            Finding::SmallArray { transfer_size, lit } => if lit < prev.len() {
                prev.update(lit as int, transfer_size)
            } else {
                prev
            },
            Finding::Risk { .. } => prev,
        }
    }
}

/// The arena after applying every finding in order.
pub open spec fn spec_repair(lits: Seq<u64>, fs: Seq<Finding>) -> Seq<u64> {
    repair_upto(lits, fs, fs.len() as int)
}

/// Repair never grows or shrinks the arena: each step replaces one value in
/// place, preserving every literal's identity and position.
pub proof fn lemma_repair_preserves_len(lits: Seq<u64>, fs: Seq<Finding>, n: int)
    ensures
        repair_upto(lits, fs, n).len() == lits.len(),
    decreases n,
{
    if n > 0 {
        lemma_repair_preserves_len(lits, fs, n - 1);
    }
}

/// Rewrites, in place, the capacity literal of every `SmallArray` finding
/// to the finding's transfer size. The statements are untouched: only the
/// arena of literal values changes, exactly as [`spec_repair`] states.
pub fn repair(tree: &mut SourceTree, findings: &Vec<Finding>)
    ensures
        final(tree).stmts == old(tree).stmts,
        final(tree).lits@ == spec_repair(old(tree).lits@, findings@),
{
    let n = findings.len();
    let mut i: usize = 0;
    while i < n
        invariant
            0 <= i <= n,
            n == findings@.len(),
            tree.stmts == old(tree).stmts,
            tree.lits@ == repair_upto(old(tree).lits@, findings@, i as int),
        decreases n - i,
    {
        match &findings[i] {
            Finding::SmallArray { transfer_size, lit } => {
                if *lit < tree.lits.len() {
                    tree.lits.set(*lit, *transfer_size);
                }
            },
            Finding::Risk { .. } => {},
        }
        i = i + 1;
    }
}

} // verus!
