//! The declaration catalog: one traversal of the source tree that records,
//! for every simply-named local declaration, whether its declared type is a
//! fixed-length array and, if so, its element count and the handle of the
//! capacity literal.
//!
//! The catalog is a flat namespace: re-declaring a name overwrites its
//! entry, and no block-scope stack is modeled. This deliberately preserves
//! the shadow-overwrite semantics suited to straight-line analysis. The
//! catalog is built once and consumed read-only.

use crate::ast::{DeclInfo, SourceTree, Stmt, TypeShape};
use crate::strutil::str_eq_str;
use vstd::prelude::*;

verus! {

/// What one declared type contributes to the catalog: a fixed-length array
/// of literal size records its capacity and literal handle; a slice or an
/// array of statically unknown extent records an explicit unknown; a
/// reference is unwrapped and its referent classified the same way; any
/// other type records nothing. A literal handle outside the arena records
/// nothing.
pub open spec fn spec_classify(ty: TypeShape, lits: Seq<u64>) -> Option<DeclInfo>
    decreases ty,
{
    match ty {
        TypeShape::ArrayLit { lit } => if lit < lits.len() {
            Some(DeclInfo::Known { capacity: lits[lit as int], lit })
        } else {
            None
        },
        TypeShape::ArrayOther => Some(DeclInfo::Unknown),
        TypeShape::Slice => Some(DeclInfo::Unknown),
        TypeShape::Reference { inner } => spec_classify(*inner, lits),
        TypeShape::Other => None,
    }
}

/// What one statement records in the catalog under `name`: the
/// classification of its declared type if it is a declaration binding that
/// very name, and nothing otherwise.
pub open spec fn records(s: Stmt, lits: Seq<u64>, name: Seq<char>) -> Option<DeclInfo> {
    match s {
        Stmt::Decl { name: n, ty } => if n@ == name {
            spec_classify(ty, lits)
        } else {
            None
        },
        _ => None,
    }
}

/// The catalog entry that governs `name` after all of `stmts` have been
/// traversed: the classification recorded by the last declaration of that
/// name that records anything, or nothing if the name was never observed.
pub open spec fn catalog_lookup(stmts: Seq<Stmt>, lits: Seq<u64>, name: Seq<char>) -> Option<
    DeclInfo,
>
    decreases stmts.len(),
{
    if stmts.len() == 0 {
        None
    } else if records(stmts.last(), lits, name) is Some {
        records(stmts.last(), lits, name)
    } else {
        catalog_lookup(stmts.drop_last(), lits, name)
    }
}

/// One recorded binding: the name and what its last recorded declaration
/// said of it.
pub struct CatalogEntry {
    pub name: String,
    pub info: DeclInfo,
}

/// What a sequence of catalog entries says of `name`: the info of the last
/// entry carrying that name, if any.
pub open spec fn entries_lookup(entries: Seq<CatalogEntry>, name: Seq<char>) -> Option<DeclInfo>
    decreases entries.len(),
{
    if entries.len() == 0 {
        None
    } else if entries.last().name@ == name {
        Some(entries.last().info)
    } else {
        entries_lookup(entries.drop_last(), name)
    }
}

proof fn lemma_entries_push(entries: Seq<CatalogEntry>, e: CatalogEntry, name: Seq<char>)
    ensures
        entries_lookup(entries.push(e), name) == if e.name@ == name {
            Some(e.info)
        } else {
            entries_lookup(entries, name)
        },
{
    assert(entries.push(e).drop_last() =~= entries);
    assert(entries.push(e).last() == e);
}

proof fn lemma_entries_take_step(entries: Seq<CatalogEntry>, i: int, name: Seq<char>)
    requires
        0 <= i < entries.len(),
    ensures
        entries_lookup(entries.take(i + 1), name) == if entries[i].name@ == name {
            Some(entries[i].info)
        } else {
            entries_lookup(entries.take(i), name)
        },
{
    assert(entries.take(i + 1).drop_last() =~= entries.take(i));
    assert(entries.take(i + 1).last() == entries[i]);
}

/// Unfolds one traversal step of [`catalog_lookup`] over a growing prefix.
proof fn lemma_catalog_take_step(stmts: Seq<Stmt>, lits: Seq<u64>, i: int, name: Seq<char>)
    requires
        0 <= i < stmts.len(),
    ensures
        catalog_lookup(stmts.take(i + 1), lits, name) == if records(stmts[i], lits, name)
            is Some {
            records(stmts[i], lits, name)
        } else {
            catalog_lookup(stmts.take(i), lits, name)
        },
{
    assert(stmts.take(i + 1).drop_last() =~= stmts.take(i));
    assert(stmts.take(i + 1).last() == stmts[i]);
}

/// The declaration catalog, as built by one traversal of the tree.
pub struct Catalog {
    pub entries: Vec<CatalogEntry>,
}

/// Classifies one declared type against the arena of literals, exactly as
/// [`spec_classify`] states.
pub fn classify(ty: &TypeShape, lits: &Vec<u64>) -> (r: Option<DeclInfo>)
    ensures
        r == spec_classify(*ty, lits@),
    decreases *ty,
{
    match ty {
        TypeShape::ArrayLit { lit } => {
            if *lit < lits.len() {
                Some(DeclInfo::Known { capacity: lits[*lit], lit: *lit })
            } else {
                None
            }
        },
        TypeShape::ArrayOther => Some(DeclInfo::Unknown),
        TypeShape::Slice => Some(DeclInfo::Unknown),
        TypeShape::Reference { inner } => classify(&**inner, lits),
        TypeShape::Other => None,
    }
}

/// Builds the declaration catalog in a single traversal of the tree. The
/// catalog answers every name exactly as [`catalog_lookup`] does over the
/// whole statement sequence: the last recorded declaration of a name wins.
pub fn build_catalog(tree: &SourceTree) -> (cat: Catalog)
    ensures
        forall|name: Seq<char>| #[trigger]
            entries_lookup(cat.entries@, name) == catalog_lookup(
                tree.stmts@,
                tree.lits@,
                name,
            ),
{
    let mut entries: Vec<CatalogEntry> = Vec::new();
    let n = tree.stmts.len();
    let mut i: usize = 0;
    while i < n
        invariant
            0 <= i <= n,
            n == tree.stmts@.len(),
            forall|name: Seq<char>| #[trigger]
                entries_lookup(entries@, name) == catalog_lookup(
                    tree.stmts@.take(i as int),
                    tree.lits@,
                    name,
                ),
        decreases n - i,
    {
        let ghost prev = entries@;
        match &tree.stmts[i] {
            Stmt::Decl { name, ty } => {
                if let Some(info) = classify(ty, &tree.lits) {
                    entries.push(CatalogEntry { name: name.clone(), info });
                }
            },
            _ => {},
        }
        proof {
            assert forall|name: Seq<char>| #[trigger]
                entries_lookup(entries@, name) == catalog_lookup(
                    tree.stmts@.take(i + 1),
                    tree.lits@,
                    name,
                ) by {
                lemma_catalog_take_step(tree.stmts@, tree.lits@, i as int, name);
                if entries@ != prev {
                    lemma_entries_push(prev, entries@.last(), name);
                }
            }
        }
        i = i + 1;
    }
    proof {
        assert(tree.stmts@.take(n as int) =~= tree.stmts@);
    }
    Catalog { entries }
}

impl Catalog {
    /// Looks a binding name up, answering with the info of its last
    /// recorded declaration, or nothing if the name was never observed.
    pub fn lookup(&self, name: &str) -> (r: Option<DeclInfo>)
        ensures
            r == entries_lookup(self.entries@, name@),
    {
        let n = self.entries.len();
        let mut i: usize = n;
        proof {
            assert(self.entries@.take(n as int) =~= self.entries@);
        }
        while i > 0
            invariant
                0 <= i <= n,
            n == self.entries@.len(),
                entries_lookup(self.entries@, name@) == entries_lookup(
                    self.entries@.take(i as int),
                    name@,
                ),
            decreases i,
        {
            i = i - 1;
            proof {
                lemma_entries_take_step(self.entries@, i as int, name@);
            }
            if str_eq_str(self.entries[i].name.as_str(), name) {
                return Some(self.entries[i].info);
            }
        }
        None
    }
}

} // verus!
