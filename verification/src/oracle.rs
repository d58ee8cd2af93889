//! The overflow oracle: a second traversal that finds every call to the raw
//! memory-copy primitive (source, destination, count) and classifies it
//! against the declaration catalog.
//!
//! A site with both destination capacity and transfer count statically known
//! is provably unsafe exactly when the count exceeds the capacity
//! (`SmallArray`); with either side undeterminable it is reported as `Risk`
//! and never auto-repaired; otherwise it is provably safe and yields no
//! finding. Findings preserve source encounter order.

use crate::ast::{ArgShape, CountInfo, DeclInfo, Finding, SiteDiag, SourceTree, Stmt};
use crate::catalog::{build_catalog, catalog_lookup, entries_lookup, Catalog, CatalogEntry};
use crate::strutil::{str_eq_str, str_has_prefix};
use vstd::prelude::*;

verus! {

/// Whether position `j` of a callee path is the raw copy primitive's
/// trailing name: a `ptr` segment followed by a segment beginning with
/// `copy`.
pub open spec fn seg_is_copy_marker(segs: Seq<String>, j: int) -> bool {
    segs[j]@ == "ptr"@ && "copy"@.is_prefix_of(segs[j + 1]@)
}

/// Whether a callee path names the raw memory-copy primitive.
pub open spec fn path_is_copy(segs: Seq<String>) -> bool {
    exists|j: int| 0 <= j && j + 1 < segs.len() && #[trigger] seg_is_copy_marker(segs, j)
}

/// Whether a statement is a call to the copy primitive with exactly three
/// arguments (source, destination, count).
pub open spec fn is_copy_call(s: Stmt) -> bool {
    match s {
        Stmt::Call { path, args } => path_is_copy(path@) && args@.len() == 3,
        _ => false,
    }
}

/// The argument list of a call statement.
pub open spec fn call_args(s: Stmt) -> Seq<ArgShape> {
    match s {
        Stmt::Call { args, .. } => args@,
        _ => Seq::empty(),
    }
}

/// The catalog entry governing an argument's named receiver, if the
/// argument is a method invocation on a simple named receiver.
pub open spec fn arg_lookup(stmts: Seq<Stmt>, lits: Seq<u64>, arg: ArgShape) -> Option<DeclInfo> {
    match arg {
        ArgShape::MethodOnName { receiver } => catalog_lookup(stmts, lits, receiver@),
        _ => None,
    }
}

/// The same lookup against an already-built catalog's entries.
pub open spec fn entries_arg_lookup(entries: Seq<CatalogEntry>, arg: ArgShape) -> Option<
    DeclInfo,
> {
    match arg {
        ArgShape::MethodOnName { receiver } => entries_lookup(entries, receiver@),
        _ => None,
    }
}

/// The destination capacity a lookup result yields: known capacity and
/// literal handle, or nothing.
pub open spec fn dst_of(lk: Option<DeclInfo>) -> Option<(u64, usize)> {
    match lk {
        Some(DeclInfo::Known { capacity, lit }) => Some((capacity, lit)),
        _ => None,
    }
}

/// The transfer count an argument resolves to: a literal integer is the
/// count directly; a method invocation on a named receiver resolves
/// symbolically through the catalog; every other shape is unresolved.
pub open spec fn count_of(arg: ArgShape, lk: Option<DeclInfo>) -> CountInfo {
    match arg {
        ArgShape::IntLiteral { value } => CountInfo::Literal { value },
        ArgShape::MethodOnName { receiver } => match lk {
            Some(DeclInfo::Known { capacity, .. }) => CountInfo::Symbolic {
                name: receiver,
                capacity,
            },
            _ => CountInfo::Unresolved,
        },
        ArgShape::Other => CountInfo::Unresolved,
    }
}

/// The numeric value of a resolved count, if it has one.
pub open spec fn count_value(c: CountInfo) -> Option<u64> {
    match c {
        CountInfo::Literal { value } => Some(value),
        CountInfo::Symbolic { capacity, .. } => Some(capacity),
        CountInfo::Unresolved => None,
    }
}

/// The destination resolution of one argument against the whole tree.
pub open spec fn spec_dst(stmts: Seq<Stmt>, lits: Seq<u64>, arg: ArgShape) -> Option<
    (u64, usize),
> {
    dst_of(arg_lookup(stmts, lits, arg))
}

/// The count resolution of one argument against the whole tree.
pub open spec fn spec_count(stmts: Seq<Stmt>, lits: Seq<u64>, arg: ArgShape) -> CountInfo {
    count_of(arg, arg_lookup(stmts, lits, arg))
}

/// The destination resolution of call site `i` (second argument).
pub open spec fn site_dst(stmts: Seq<Stmt>, lits: Seq<u64>, i: int) -> Option<(u64, usize)> {
    spec_dst(stmts, lits, call_args(stmts[i])[1])
}

/// The numeric transfer count of call site `i` (third argument).
pub open spec fn site_count(stmts: Seq<Stmt>, lits: Seq<u64>, i: int) -> Option<u64> {
    count_value(spec_count(stmts, lits, call_args(stmts[i])[2]))
}

/// The classification of statement `i`: no finding for a statement that is
/// not a copy call or for a provably safe site; `Risk` when either side is
/// undeterminable; `SmallArray` exactly when both sides are known and the
/// count exceeds the capacity.
pub open spec fn site_finding(stmts: Seq<Stmt>, lits: Seq<u64>, i: int) -> Option<Finding> {
    if 0 <= i < stmts.len() && is_copy_call(stmts[i]) {
        match (site_dst(stmts, lits, i), site_count(stmts, lits, i)) {
            (Some(d), Some(k)) => if k > d.0 {
                Some(Finding::SmallArray { transfer_size: k, lit: d.1 })
            } else {
                None
            },
            _ => Some(Finding::Risk { site: i as usize }),
        }
    } else {
        None
    }
}

/// An optional finding as a sequence of zero or one findings.
pub open spec fn opt_to_seq(f: Option<Finding>) -> Seq<Finding> {
    match f {
        Some(x) => seq![x],
        None => Seq::empty(),
    }
}

/// The findings of the first `n` statements, in source encounter order.
pub open spec fn findings_upto(stmts: Seq<Stmt>, lits: Seq<u64>, n: int) -> Seq<Finding>
    decreases n,
{
    if n <= 0 {
        Seq::empty()
    } else {
        findings_upto(stmts, lits, n - 1) + opt_to_seq(site_finding(stmts, lits, n - 1))
    }
}

/// Every finding of the whole tree, in source encounter order.
pub open spec fn oracle_spec(stmts: Seq<Stmt>, lits: Seq<u64>) -> Seq<Finding> {
    findings_upto(stmts, lits, stmts.len() as int)
}

/// The diagnostic of statement `i`: for a copy call site, the destination
/// capacity and the transfer count as far as they resolved; nothing for any
/// other statement.
pub open spec fn site_diag(stmts: Seq<Stmt>, lits: Seq<u64>, i: int) -> Option<SiteDiag> {
    if 0 <= i < stmts.len() && is_copy_call(stmts[i]) {
        Some(
            SiteDiag {
                site: i as usize,
                dst_capacity: match site_dst(stmts, lits, i) {
                    Some(d) => Some(d.0),
                    None => None,
                },
                transfer: site_count(stmts, lits, i),
            },
        )
    } else {
        None
    }
}

/// An optional diagnostic as a sequence of zero or one diagnostics.
pub open spec fn opt_diag_to_seq(d: Option<SiteDiag>) -> Seq<SiteDiag> {
    match d {
        Some(x) => seq![x],
        None => Seq::empty(),
    }
}

/// The diagnostics of the first `n` statements, in source encounter order.
pub open spec fn diags_upto(stmts: Seq<Stmt>, lits: Seq<u64>, n: int) -> Seq<SiteDiag>
    decreases n,
{
    if n <= 0 {
        Seq::empty()
    } else {
        diags_upto(stmts, lits, n - 1) + opt_diag_to_seq(site_diag(stmts, lits, n - 1))
    }
}

/// One diagnostic per copy call site of the whole tree, in source
/// encounter order.
pub open spec fn diags_spec(stmts: Seq<Stmt>, lits: Seq<u64>) -> Seq<SiteDiag> {
    diags_upto(stmts, lits, stmts.len() as int)
}

/// Whether a callee path names the copy primitive, exactly as
/// [`path_is_copy`] states.
pub fn path_matches_copy(path: &Vec<String>) -> (r: bool)
    ensures
        r == path_is_copy(path@),
{
    if path.len() < 2 {
        return false;
    }
    let m = path.len() - 1;
    let mut j: usize = 0;
    while j < m
        invariant
            0 <= j <= m,
            m + 1 == path@.len(),
            forall|k: int|
                0 <= k && k + 1 < path@.len() && k < j ==> !#[trigger] seg_is_copy_marker(
                    path@,
                    k,
                ),
        decreases m - j,
    {
        if str_eq_str(path[j].as_str(), "ptr") && str_has_prefix(path[j + 1].as_str(), "copy") {
            proof {
                assert(seg_is_copy_marker(path@, j as int));
            }
            return true;
        }
        j = j + 1;
    }
    false
}

/// Resolves the destination argument against the catalog: the known
/// capacity and literal handle of its named receiver, or nothing.
pub fn resolve_dst(cat: &Catalog, arg: &ArgShape) -> (r: Option<(u64, usize)>)
    ensures
        r == dst_of(entries_arg_lookup(cat.entries@, *arg)),
{
    match arg {
        ArgShape::MethodOnName { receiver } => match cat.lookup(receiver.as_str()) {
            Some(DeclInfo::Known { capacity, lit }) => Some((capacity, lit)),
            _ => None,
        },
        _ => None,
    }
}

/// Resolves the count argument against the catalog, keeping a literal count
/// and a count derived symbolically from another buffer's declared capacity
/// as distinct cases.
pub fn resolve_count(cat: &Catalog, arg: &ArgShape) -> (r: CountInfo)
    ensures
        r == count_of(*arg, entries_arg_lookup(cat.entries@, *arg)),
{
    match arg {
        ArgShape::IntLiteral { value } => CountInfo::Literal { value: *value },
        ArgShape::MethodOnName { receiver } => match cat.lookup(receiver.as_str()) {
            Some(DeclInfo::Known { capacity, .. }) => CountInfo::Symbolic {
                name: receiver.clone(),
                capacity,
            },
            _ => CountInfo::Unresolved,
        },
        ArgShape::Other => CountInfo::Unresolved,
    }
}

/// The numeric value of a resolved count, exactly as [`count_value`]
/// states.
pub fn count_value_of(c: &CountInfo) -> (r: Option<u64>)
    ensures
        r == count_value(*c),
{
    match c {
        CountInfo::Literal { value } => Some(*value),
        CountInfo::Symbolic { capacity, .. } => Some(*capacity),
        CountInfo::Unresolved => None,
    }
}

/// The overflow oracle: builds the declaration catalog in a first
/// traversal, then classifies every copy call site in a second, returning
/// every finding in source encounter order.
pub fn oracle(tree: &SourceTree) -> (findings: Vec<Finding>)
    ensures
        findings@ == oracle_spec(tree.stmts@, tree.lits@),
{
    let cat = build_catalog(tree);
    let mut findings: Vec<Finding> = Vec::new();
    let n = tree.stmts.len();
    let mut i: usize = 0;
    while i < n
        invariant
            0 <= i <= n,
            n == tree.stmts@.len(),
            forall|name: Seq<char>| #[trigger]
                entries_lookup(cat.entries@, name) == catalog_lookup(
                    tree.stmts@,
                    tree.lits@,
                    name,
                ),
            findings@ == findings_upto(tree.stmts@, tree.lits@, i as int),
        decreases n - i,
    {
        let ghost fu_prev = findings@;
        let ghost sf = site_finding(tree.stmts@, tree.lits@, i as int);
        match &tree.stmts[i] {
            Stmt::Call { path, args } => {
                if args.len() == 3 && path_matches_copy(path) {
                    proof {
                        assert(is_copy_call(tree.stmts@[i as int]));
                        assert(call_args(tree.stmts@[i as int]) == args@);
                    }
                    let d = resolve_dst(&cat, &args[1]);
                    let c = resolve_count(&cat, &args[2]);
                    let k = count_value_of(&c);
                    proof {
                        assert(entries_arg_lookup(cat.entries@, args@[1]) == arg_lookup(
                            tree.stmts@,
                            tree.lits@,
                            args@[1],
                        ));
                        assert(entries_arg_lookup(cat.entries@, args@[2]) == arg_lookup(
                            tree.stmts@,
                            tree.lits@,
                            args@[2],
                        ));
                        assert(d == site_dst(tree.stmts@, tree.lits@, i as int));
                        assert(k == site_count(tree.stmts@, tree.lits@, i as int));
                    }
                    match (d, k) {
                        (Some((cap, lit)), Some(kv)) => {
                            if kv > cap {
                                findings.push(Finding::SmallArray { transfer_size: kv, lit });
                                proof {
                                    assert(sf == Some(
                                        Finding::SmallArray { transfer_size: kv, lit },
                                    ));
                                }
                            } else {
                                proof {
                                    assert(sf is None);
                                }
                            }
                        },
                        _ => {
                            findings.push(Finding::Risk { site: i });
                            proof {
                                assert(sf == Some(Finding::Risk { site: i }));
                            }
                        },
                    }
                } else {
                    proof {
                        assert(!is_copy_call(tree.stmts@[i as int]));
                        assert(sf is None);
                    }
                }
            },
            _ => {
                proof {
                    assert(!is_copy_call(tree.stmts@[i as int]));
                    assert(sf is None);
                }
            },
        }
        proof {
            assert(findings_upto(tree.stmts@, tree.lits@, i as int + 1) == findings_upto(
                tree.stmts@,
                tree.lits@,
                i as int,
            ) + opt_to_seq(sf));
            assert(findings@ =~= fu_prev + opt_to_seq(sf));
        }
        i = i + 1;
    }
    findings
}

/// Resolves every copy call site to its per-site diagnostic: the
/// destination capacity and the transfer count, each as far as static
/// analysis determined them, in source encounter order.
pub fn diagnose(tree: &SourceTree) -> (diags: Vec<SiteDiag>)
    ensures
        diags@ == diags_spec(tree.stmts@, tree.lits@),
{
    let cat = build_catalog(tree);
    let mut diags: Vec<SiteDiag> = Vec::new();
    let n = tree.stmts.len();
    let mut i: usize = 0;
    while i < n
        invariant
            0 <= i <= n,
            n == tree.stmts@.len(),
            forall|name: Seq<char>| #[trigger]
                entries_lookup(cat.entries@, name) == catalog_lookup(
                    tree.stmts@,
                    tree.lits@,
                    name,
                ),
            diags@ == diags_upto(tree.stmts@, tree.lits@, i as int),
        decreases n - i,
    {
        let ghost d_prev = diags@;
        let ghost sd = site_diag(tree.stmts@, tree.lits@, i as int);
        match &tree.stmts[i] {
            Stmt::Call { path, args } => {
                if args.len() == 3 && path_matches_copy(path) {
                    proof {
                        assert(is_copy_call(tree.stmts@[i as int]));
                        assert(call_args(tree.stmts@[i as int]) == args@);
                    }
                    let d = resolve_dst(&cat, &args[1]);
                    let c = resolve_count(&cat, &args[2]);
                    let k = count_value_of(&c);
                    proof {
                        assert(entries_arg_lookup(cat.entries@, args@[1]) == arg_lookup(
                            tree.stmts@,
                            tree.lits@,
                            args@[1],
                        ));
                        assert(entries_arg_lookup(cat.entries@, args@[2]) == arg_lookup(
                            tree.stmts@,
                            tree.lits@,
                            args@[2],
                        ));
                        assert(d == site_dst(tree.stmts@, tree.lits@, i as int));
                        assert(k == site_count(tree.stmts@, tree.lits@, i as int));
                    }
                    let cap = match d {
                        Some((capacity, _)) => Some(capacity),
                        None => None,
                    };
                    diags.push(SiteDiag { site: i, dst_capacity: cap, transfer: k });
                    proof {
                        assert(sd == Some(SiteDiag { site: i, dst_capacity: cap, transfer: k }));
                    }
                } else {
                    proof {
                        assert(!is_copy_call(tree.stmts@[i as int]));
                        assert(sd is None);
                    }
                }
            },
            _ => {
                proof {
                    assert(!is_copy_call(tree.stmts@[i as int]));
                    assert(sd is None);
                }
            },
        }
        proof {
            assert(diags_upto(tree.stmts@, tree.lits@, i as int + 1) == diags_upto(
                tree.stmts@,
                tree.lits@,
                i as int,
            ) + opt_diag_to_seq(sd));
            assert(diags@ =~= d_prev + opt_diag_to_seq(sd));
        }
        i = i + 1;
    }
    diags
}

} // verus!
