//! The analyzer's laws, proved once and for all over the specification
//! functions of the catalog, the oracle and the repair engine: what the
//! catalog records for a fixed-length array declaration, how shadowing
//! governs a call site, when the oracle emits `SmallArray` and when `Risk`,
//! that findings are never silently dropped, and that repair is idempotent.

use crate::ast::{ArgShape, CountInfo, DeclInfo, Finding, Stmt, TypeShape};
use crate::catalog::{catalog_lookup, records, spec_classify};
use crate::oracle::{
    call_args, dst_of, findings_upto, is_copy_call, oracle_spec, site_count, site_dst,
    site_finding, spec_count,
};
use crate::repair::{lemma_repair_preserves_len, repair_upto, spec_repair};
use vstd::prelude::*;

verus! {

/// The catalog is governed by the last declaration that records anything
/// under a name: every later statement records nothing, so the lookup
/// answers exactly what statement `j` recorded.
pub proof fn lemma_last_recorded_governs(
    stmts: Seq<Stmt>,
    lits: Seq<u64>,
    name: Seq<char>,
    j: int,
)
    requires
        0 <= j < stmts.len(),
        records(stmts[j], lits, name) is Some,
        forall|k: int|
            j < k < stmts.len() ==> #[trigger] records(stmts[k], lits, name) is None,
    ensures
        catalog_lookup(stmts, lits, name) == records(stmts[j], lits, name),
    decreases stmts.len(),
{
    if j == stmts.len() - 1 {
        assert(stmts.last() == stmts[j]);
    } else {
        assert(records(stmts[stmts.len() - 1], lits, name) is None);
        assert(stmts.last() == stmts[stmts.len() - 1]);
        assert(stmts.drop_last()[j] == stmts[j]);
        assert forall|k: int|
            j < k < stmts.drop_last().len() implies #[trigger] records(
            stmts.drop_last()[k],
            lits,
            name,
        ) is None by {
            assert(stmts.drop_last()[k] == stmts[k]);
        }
        lemma_last_recorded_governs(stmts.drop_last(), lits, name, j);
    }
}

/// For every fixed-length array declaration of literal size `S` that is the
/// last recorded declaration of its name, the catalog entry has capacity
/// exactly `S` — the arena's value under the declaration's literal handle —
/// together with that handle.
pub proof fn lemma_fixed_array_capacity(
    stmts: Seq<Stmt>,
    lits: Seq<u64>,
    name: Seq<char>,
    j: int,
    lit: usize,
)
    requires
        0 <= j < stmts.len(),
        stmts[j] matches Stmt::Decl { name: n, ty: TypeShape::ArrayLit { lit: l } } && n@
            == name && l == lit,
        lit < lits.len(),
        forall|k: int|
            j < k < stmts.len() ==> #[trigger] records(stmts[k], lits, name) is None,
    ensures
        catalog_lookup(stmts, lits, name) == Some(
            DeclInfo::Known { capacity: lits[lit as int], lit },
        ),
{
    lemma_last_recorded_governs(stmts, lits, name, j);
}

/// Shadowing: when a name is re-declared, the later recorded declaration
/// overwrites the prior entry, and the lookup answers what the later one
/// recorded.
pub proof fn lemma_shadowing_overwrites(
    stmts: Seq<Stmt>,
    lits: Seq<u64>,
    name: Seq<char>,
    j1: int,
    j2: int,
)
    requires
        0 <= j1 < j2 < stmts.len(),
        records(stmts[j1], lits, name) is Some,
        records(stmts[j2], lits, name) is Some,
        forall|k: int|
            j2 < k < stmts.len() ==> #[trigger] records(stmts[k], lits, name) is None,
    ensures
        catalog_lookup(stmts, lits, name) == records(stmts[j2], lits, name),
{
    lemma_last_recorded_governs(stmts, lits, name, j2);
}

/// The latest recorded declaration of the destination's receiver governs
/// classification at a later call site. The catalog is built in one
/// traversal of the whole file before any site is examined, so this holds
/// of a declaration that no other recorded declaration of the same name
/// follows anywhere in the file.
pub proof fn lemma_latest_decl_governs_site(
    stmts: Seq<Stmt>,
    lits: Seq<u64>,
    name: Seq<char>,
    i: int,
    j: int,
)
    requires
        0 <= i < stmts.len(),
        is_copy_call(stmts[i]),
        call_args(stmts[i])[1] matches ArgShape::MethodOnName { receiver } && receiver@ == name,
        0 <= j < i,
        records(stmts[j], lits, name) is Some,
        forall|k: int|
            j < k < stmts.len() ==> #[trigger] records(stmts[k], lits, name) is None,
    ensures
        site_dst(stmts, lits, i) == dst_of(records(stmts[j], lits, name)),
{
    lemma_last_recorded_governs(stmts, lits, name, j);
}

/// For a call site where both destination capacity and transfer count are
/// statically known, the oracle emits `SmallArray` if and only if the count
/// exceeds the capacity, and never otherwise.
pub proof fn lemma_known_site_iff_overflow(
    stmts: Seq<Stmt>,
    lits: Seq<u64>,
    i: int,
    cap: u64,
    lit: usize,
    k: u64,
)
    requires
        0 <= i < stmts.len(),
        is_copy_call(stmts[i]),
        site_dst(stmts, lits, i) == Some((cap, lit)),
        site_count(stmts, lits, i) == Some(k),
    ensures
        site_finding(stmts, lits, i) == if k > cap {
            Some(Finding::SmallArray { transfer_size: k, lit })
        } else {
            None::<Finding>
        },
        (site_finding(stmts, lits, i) matches Some(Finding::SmallArray { .. })) <==> k > cap,
{
}

/// For a call site where either side is unresolved, the oracle emits `Risk`
/// — never `SmallArray`, and never silence.
pub proof fn lemma_unresolved_site_risk(stmts: Seq<Stmt>, lits: Seq<u64>, i: int)
    requires
        0 <= i < stmts.len(),
        is_copy_call(stmts[i]),
        site_dst(stmts, lits, i) is None || site_count(stmts, lits, i) is None,
    ensures
        site_finding(stmts, lits, i) == Some(Finding::Risk { site: i as usize }),
{
}

/// A classified site is never silently dropped: whatever `site_finding`
/// yields for a site within the first `n` statements stands in the findings
/// of those statements.
pub proof fn lemma_site_finding_emitted(stmts: Seq<Stmt>, lits: Seq<u64>, i: int, n: int)
    requires
        0 <= i < n <= stmts.len(),
        site_finding(stmts, lits, i) is Some,
    ensures
        findings_upto(stmts, lits, n).contains(site_finding(stmts, lits, i)->Some_0),
    decreases n,
{
    let f = site_finding(stmts, lits, i)->Some_0;
    if i == n - 1 {
        let fs = findings_upto(stmts, lits, n);
        assert(fs[fs.len() - 1] == f);
    } else {
        lemma_site_finding_emitted(stmts, lits, i, n - 1);
        let fs1 = findings_upto(stmts, lits, n - 1);
        let fs = findings_upto(stmts, lits, n);
        let j = choose|j: int| 0 <= j < fs1.len() && fs1[j] == f;
        assert(fs[j] == f);
    }
}

/// Whether two findings agree on their repair: `SmallArray` findings on the
/// same literal handle carry the same transfer size.
pub open spec fn consistent_pair(f: Finding, g: Finding) -> bool {
    match (f, g) {
        (
            Finding::SmallArray { transfer_size: t1, lit: l1 },
            Finding::SmallArray { transfer_size: t2, lit: l2 },
        ) => l1 == l2 ==> t1 == t2,
        _ => true,
    }
}

/// Whether every pair of findings agrees on its repair.
pub open spec fn consistent_repairs(fs: Seq<Finding>) -> bool {
    forall|a: int, b: int|
        0 <= a < fs.len() && 0 <= b < fs.len() ==> #[trigger] consistent_pair(fs[a], fs[b])
}

/// Whether a lookup result under a second arena has the same shape as one
/// under the first: absent stays absent, unknown stays unknown, and a known
/// entry keeps its literal handle while reading the second arena's value.
spec fn same_shape_as(
    r1: Option<DeclInfo>,
    r2: Option<DeclInfo>,
    lits2: Seq<u64>,
) -> bool {
    match r1 {
        None => r2 is None,
        Some(DeclInfo::Unknown) => r2 == Some(DeclInfo::Unknown),
        Some(DeclInfo::Known { capacity, lit }) => lit < lits2.len() && r2 == Some(
            DeclInfo::Known { capacity: lits2[lit as int], lit },
        ),
    }
}

proof fn lemma_classify_same_shape(ty: TypeShape, lits: Seq<u64>, lits2: Seq<u64>)
    requires
        lits2.len() == lits.len(),
    ensures
        same_shape_as(spec_classify(ty, lits), spec_classify(ty, lits2), lits2),
    decreases ty,
{
    match ty {
        TypeShape::Reference { inner } => {
            lemma_classify_same_shape(*inner, lits, lits2);
        },
        _ => {},
    }
}

/// Replacing literal values without growing or shrinking the arena
/// preserves the shape of every catalog answer: which names are known,
/// unknown or absent, and which literal handle a known entry carries.
proof fn lemma_catalog_same_shape(
    stmts: Seq<Stmt>,
    lits: Seq<u64>,
    lits2: Seq<u64>,
    name: Seq<char>,
)
    requires
        lits2.len() == lits.len(),
    ensures
        same_shape_as(
            catalog_lookup(stmts, lits, name),
            catalog_lookup(stmts, lits2, name),
            lits2,
        ),
    decreases stmts.len(),
{
    if stmts.len() > 0 {
        match stmts.last() {
            Stmt::Decl { name: n, ty } => {
                if n@ == name {
                    lemma_classify_same_shape(ty, lits, lits2);
                }
            },
            _ => {},
        }
        lemma_catalog_same_shape(stmts.drop_last(), lits, lits2, name);
    }
}

proof fn lemma_classify_known_valid(ty: TypeShape, lits: Seq<u64>)
    ensures
        spec_classify(ty, lits) matches Some(DeclInfo::Known { capacity, lit }) ==> lit
            < lits.len() && capacity == lits[lit as int],
    decreases ty,
{
    match ty {
        TypeShape::Reference { inner } => {
            lemma_classify_known_valid(*inner, lits);
        },
        _ => {},
    }
}

/// Every known catalog entry reads its capacity from the arena: the handle
/// is in range and the recorded capacity is the arena's value under it.
pub proof fn lemma_catalog_known_valid(stmts: Seq<Stmt>, lits: Seq<u64>, name: Seq<char>)
    ensures
        catalog_lookup(stmts, lits, name) matches Some(DeclInfo::Known { capacity, lit })
            ==> lit < lits.len() && capacity == lits[lit as int],
    decreases stmts.len(),
{
    if stmts.len() > 0 {
        match stmts.last() {
            Stmt::Decl { name: n, ty } => {
                if n@ == name {
                    lemma_classify_known_valid(ty, lits);
                }
            },
            _ => {},
        }
        lemma_catalog_known_valid(stmts.drop_last(), lits, name);
    }
}

/// Whether a finding's repair would be sound against this arena: a
/// `SmallArray` finding carries an in-range handle and a transfer size
/// strictly above the arena's current value there.
spec fn sa_valid(f: Finding, lits: Seq<u64>) -> bool {
    match f {
        Finding::SmallArray { transfer_size, lit } => lit < lits.len() && transfer_size
            > lits[lit as int],
        _ => true,
    }
}

/// Every `SmallArray` finding the oracle emits is sound to repair: its
/// handle is in range and its transfer size strictly exceeds the capacity
/// the arena held when it was emitted.
proof fn lemma_findings_smallarray_valid(stmts: Seq<Stmt>, lits: Seq<u64>, n: int)
    requires
        n <= stmts.len(),
    ensures
        forall|j: int|
            0 <= j < findings_upto(stmts, lits, n).len() ==> sa_valid(
                #[trigger] findings_upto(stmts, lits, n)[j],
                lits,
            ),
    decreases n,
{
    if n > 0 {
        lemma_findings_smallarray_valid(stmts, lits, n - 1);
        let fs1 = findings_upto(stmts, lits, n - 1);
        let fs = findings_upto(stmts, lits, n);
        if site_finding(stmts, lits, n - 1) is Some {
            match call_args(stmts[n - 1])[1] {
                ArgShape::MethodOnName { receiver } => {
                    lemma_catalog_known_valid(stmts, lits, receiver@);
                },
                _ => {},
            }
        }
        assert forall|j: int| 0 <= j < fs.len() implies sa_valid(#[trigger] fs[j], lits) by {
            if j < fs1.len() {
                assert(fs[j] == fs1[j]);
            } else {
                assert(fs[j] == site_finding(stmts, lits, n - 1)->Some_0);
            }
        }
    }
}

/// Whether a finding is a `SmallArray` on literal handle `l`.
spec fn is_sa_on(f: Finding, l: usize) -> bool {
    match f {
        Finding::SmallArray { lit, .. } => lit == l,
        _ => false,
    }
}

/// The transfer size of a `SmallArray` finding.
spec fn sa_size(f: Finding) -> u64 {
    match f {
        Finding::SmallArray { transfer_size, .. } => transfer_size,
        _ => 0,
    }
}

/// What repair leaves under a handle: the literal keeps its value when no
/// `SmallArray` finding targets it, and otherwise holds the (consistent)
/// transfer size of the findings that do.
proof fn lemma_repair_value(lits: Seq<u64>, fs: Seq<Finding>, l: usize, n: int)
    requires
        consistent_repairs(fs),
        0 <= n <= fs.len(),
        l < lits.len(),
    ensures
        (forall|j: int| 0 <= j < n ==> !is_sa_on(#[trigger] fs[j], l)) ==> repair_upto(
            lits,
            fs,
            n,
        )[l as int] == lits[l as int],
        forall|j: int|
            0 <= j < n && is_sa_on(#[trigger] fs[j], l) ==> repair_upto(lits, fs, n)[
                l as int
            ] == sa_size(fs[j]),
    decreases n,
{
    lemma_repair_preserves_len(lits, fs, n);
    if n > 0 {
        lemma_repair_value(lits, fs, l, n - 1);
        lemma_repair_preserves_len(lits, fs, n - 1);
        if is_sa_on(fs[n - 1], l) {
            assert forall|j: int|
                0 <= j < n && is_sa_on(#[trigger] fs[j], l) implies repair_upto(lits, fs, n)[
                l as int
            ] == sa_size(fs[j]) by {
                assert(consistent_pair(fs[j], fs[n - 1]));
            }
        }
    }
}

/// Repair never lowers a literal's value when every finding's transfer size
/// exceeds the value it was emitted against.
proof fn lemma_repair_monotone(lits: Seq<u64>, fs: Seq<Finding>, l: usize, n: int)
    requires
        0 <= n <= fs.len(),
        l < lits.len(),
        forall|j: int| 0 <= j < fs.len() ==> sa_valid(#[trigger] fs[j], lits),
    ensures
        repair_upto(lits, fs, n)[l as int] >= lits[l as int],
    decreases n,
{
    lemma_repair_preserves_len(lits, fs, n);
    if n > 0 {
        lemma_repair_monotone(lits, fs, l, n - 1);
        lemma_repair_preserves_len(lits, fs, n - 1);
    }
}

/// Whether an optional finding is absent or a `Risk`.
spec fn risk_or_none(f: Option<Finding>) -> bool {
    match f {
        None => true,
        Some(Finding::Risk { .. }) => true,
        Some(Finding::SmallArray { .. }) => false,
    }
}

/// Whether a finding is a `Risk`.
pub open spec fn is_risk(f: Finding) -> bool {
    match f {
        Finding::Risk { .. } => true,
        _ => false,
    }
}

/// When every site classifies as safe or `Risk`, the findings list holds
/// `Risk` findings only.
proof fn lemma_findings_all_risk(stmts: Seq<Stmt>, lits: Seq<u64>, n: int)
    requires
        forall|i: int| 0 <= i < n ==> risk_or_none(#[trigger] site_finding(stmts, lits, i)),
    ensures
        forall|j: int|
            0 <= j < findings_upto(stmts, lits, n).len() ==> is_risk(
                #[trigger] findings_upto(stmts, lits, n)[j],
            ),
    decreases n,
{
    if n > 0 {
        lemma_findings_all_risk(stmts, lits, n - 1);
        let fs1 = findings_upto(stmts, lits, n - 1);
        let fs = findings_upto(stmts, lits, n);
        assert forall|j: int| 0 <= j < fs.len() implies is_risk(#[trigger] fs[j]) by {
            if j < fs1.len() {
                assert(fs[j] == fs1[j]);
            } else {
                assert(fs[j] == site_finding(stmts, lits, n - 1)->Some_0);
            }
        }
    }
}

/// Applying a list of `Risk` findings repairs nothing.
proof fn lemma_repair_of_risks_identity(lits: Seq<u64>, fs: Seq<Finding>, n: int)
    requires
        0 <= n <= fs.len(),
        forall|j: int| 0 <= j < fs.len() ==> is_risk(#[trigger] fs[j]),
    ensures
        repair_upto(lits, fs, n) == lits,
    decreases n,
{
    if n > 0 {
        lemma_repair_of_risks_identity(lits, fs, n - 1);
    }
}

/// A transfer count that is not derived symbolically from another buffer's
/// declared capacity reads nothing repair can change: replacing literal
/// values without growing or shrinking the arena leaves it as it was.
pub proof fn lemma_nonsymbolic_count_unchanged(
    stmts: Seq<Stmt>,
    lits: Seq<u64>,
    lits2: Seq<u64>,
    i: int,
)
    requires
        lits2.len() == lits.len(),
        0 <= i < stmts.len(),
        !(spec_count(stmts, lits, call_args(stmts[i])[2]) matches CountInfo::Symbolic { .. }),
    ensures
        site_count(stmts, lits2, i) == site_count(stmts, lits, i),
{
    match call_args(stmts[i])[2] {
        ArgShape::MethodOnName { receiver } => {
            lemma_catalog_same_shape(stmts, lits, lits2, receiver@);
        },
        _ => {},
    }
}

/// Repair is idempotent. Given that the `SmallArray` findings agree on
/// their repairs (no two target one literal with different transfer sizes)
/// and that repairing leaves every site's transfer count unchanged,
/// re-analyzing the repaired tree reclassifies every repaired site as safe:
/// the re-analysis yields `Risk` findings only — no further `SmallArray`
/// finding — and a second repair pass is a no-op.
pub proof fn lemma_repair_idempotent(stmts: Seq<Stmt>, lits: Seq<u64>)
    requires
        consistent_repairs(oracle_spec(stmts, lits)),
        forall|i: int|
            0 <= i < stmts.len() && is_copy_call(#[trigger] stmts[i]) ==> site_count(
                stmts,
                spec_repair(lits, oracle_spec(stmts, lits)),
                i,
            ) == site_count(stmts, lits, i),
    ensures
        forall|j: int|
            0 <= j < oracle_spec(stmts, spec_repair(lits, oracle_spec(stmts, lits))).len()
                ==> is_risk(
                #[trigger] oracle_spec(stmts, spec_repair(lits, oracle_spec(stmts, lits)))[j],
            ),
        spec_repair(
            spec_repair(lits, oracle_spec(stmts, lits)),
            oracle_spec(stmts, spec_repair(lits, oracle_spec(stmts, lits))),
        ) == spec_repair(lits, oracle_spec(stmts, lits)),
{
    let fs = oracle_spec(stmts, lits);
    let lits2 = spec_repair(lits, fs);
    lemma_repair_preserves_len(lits, fs, fs.len() as int);
    lemma_findings_smallarray_valid(stmts, lits, stmts.len() as int);
    assert forall|i: int|
        0 <= i < stmts.len() implies risk_or_none(site_finding(stmts, lits2, i)) by {
        if is_copy_call(stmts[i]) {
            match call_args(stmts[i])[1] {
                ArgShape::MethodOnName { receiver } => {
                    lemma_catalog_same_shape(stmts, lits, lits2, receiver@);
                    lemma_catalog_known_valid(stmts, lits, receiver@);
                },
                _ => {},
            }
            match (site_dst(stmts, lits, i), site_count(stmts, lits, i)) {
                (Some(d), Some(k)) => {
                    let cap = d.0;
                    let l = d.1;
                    assert(site_dst(stmts, lits2, i) == Some((lits2[l as int], l)));
                    assert(site_count(stmts, lits2, i) == Some(k));
                    if k > cap {
                        lemma_site_finding_emitted(stmts, lits, i, stmts.len() as int);
                        let f = site_finding(stmts, lits, i)->Some_0;
                        assert(f == Finding::SmallArray { transfer_size: k, lit: l });
                        let j = choose|j: int| 0 <= j < fs.len() && fs[j] == f;
                        lemma_repair_value(lits, fs, l, fs.len() as int);
                        assert(lits2[l as int] == k);
                    } else {
                        lemma_repair_monotone(lits, fs, l, fs.len() as int);
                        assert(lits2[l as int] >= cap);
                    }
                    assert(site_finding(stmts, lits2, i) is None);
                },
                _ => {},
            }
        }
    }
    lemma_findings_all_risk(stmts, lits2, stmts.len() as int);
    let fs2 = oracle_spec(stmts, lits2);
    lemma_repair_of_risks_identity(lits2, fs2, fs2.len() as int);
}

/// Idempotence needs no proviso about counts when no site's transfer count
/// is derived symbolically from another buffer's declared capacity: repair
/// cannot change a literal or unresolved count, so re-analysis yields
/// `Risk` findings only and a second repair pass is a no-op.
pub proof fn lemma_repair_idempotent_nonsymbolic(stmts: Seq<Stmt>, lits: Seq<u64>)
    requires
        consistent_repairs(oracle_spec(stmts, lits)),
        forall|i: int|
            0 <= i < stmts.len() && is_copy_call(#[trigger] stmts[i]) ==> !(spec_count(
                stmts,
                lits,
                call_args(stmts[i])[2],
            ) matches CountInfo::Symbolic { .. }),
    ensures
        forall|j: int|
            0 <= j < oracle_spec(stmts, spec_repair(lits, oracle_spec(stmts, lits))).len()
                ==> is_risk(
                #[trigger] oracle_spec(stmts, spec_repair(lits, oracle_spec(stmts, lits)))[j],
            ),
        spec_repair(
            spec_repair(lits, oracle_spec(stmts, lits)),
            oracle_spec(stmts, spec_repair(lits, oracle_spec(stmts, lits))),
        ) == spec_repair(lits, oracle_spec(stmts, lits)),
{
    let fs = oracle_spec(stmts, lits);
    let lits2 = spec_repair(lits, fs);
    lemma_repair_preserves_len(lits, fs, fs.len() as int);
    assert forall|i: int|
        0 <= i < stmts.len() && is_copy_call(#[trigger] stmts[i]) implies site_count(
        stmts,
        lits2,
        i,
    ) == site_count(stmts, lits, i) by {
        lemma_nonsymbolic_count_unchanged(stmts, lits, lits2, i);
    }
    lemma_repair_idempotent(stmts, lits);
}

} // verus!
