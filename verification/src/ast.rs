//! The analyzed program's model: a flat source tree that owns every capacity
//! literal in an arena (`lits`) and records, in source encounter order, the
//! two statement shapes the analysis reads — simply-named local declarations
//! and call expressions. Catalog entries and findings refer back into the
//! arena by integer handle, so the repair pass can replace a literal's value
//! in place without aliasing into the tree.

use vstd::prelude::*;

verus! {

/// The declared type of a local binding, reduced to what classification
/// reads: a fixed-length array whose size is a numeric literal (held in the
/// arena under handle `lit`), a fixed-length array of some other size
/// expression, a reference or pointer around an inner type, a slice, or
/// anything else.
pub enum TypeShape {
    ArrayLit { lit: usize },
    ArrayOther,
    Reference { inner: Box<TypeShape> },
    Slice,
    Other,
}

/// The shape of one argument of a call expression, reduced to what the
/// oracle reads: a method invocation on a simple named receiver, an integer
/// literal, or anything else.
pub enum ArgShape {
    MethodOnName { receiver: String },
    IntLiteral { value: u64 },
    Other,
}

/// One statement the analysis reads, in source encounter order: a local
/// declaration binding a simple name, or a call expression with a path
/// callee.
pub enum Stmt {
    Decl { name: String, ty: TypeShape },
    Call { path: Vec<String>, args: Vec<ArgShape> },
}

/// The analyzed program: the arena of numeric literal tokens, and the
/// statements in source encounter order. `lits[h]` is the current value of
/// the literal with handle `h`; repair mutates it in place.
pub struct SourceTree {
    pub lits: Vec<u64>,
    pub stmts: Vec<Stmt>,
}

/// What the catalog records of one binding: a fixed capacity together with
/// the handle of its literal token, or an explicitly unknown extent (a slice
/// or an array of statically unknown size).
#[derive(Clone, Copy, Debug, PartialEq, Eq)]
pub enum DeclInfo {
    Known { capacity: u64, lit: usize },
    Unknown,
}

/// A resolved transfer count. A literal count and a count derived
/// symbolically from another buffer's declared capacity are kept as distinct
/// tagged cases; `Unresolved` covers every expression shape the analysis
/// does not model, and is never treated as safe.
#[derive(Debug, PartialEq, Eq)]
pub enum CountInfo {
    Literal { value: u64 },
    Symbolic { name: String, capacity: u64 },
    Unresolved,
}

/// The classification of one copy call site. `SmallArray` is provably
/// unsafe and repairable: the transfer size exceeds the destination's known
/// capacity, whose literal token is under handle `lit`. `Risk` records a
/// site where either side is undeterminable; it is reported and never
/// auto-repaired.
#[derive(Clone, Copy, Debug, PartialEq, Eq)]
pub enum Finding {
    SmallArray { transfer_size: u64, lit: usize },
    Risk { site: usize },
}

/// The per-site diagnostic of one copy call: the destination capacity and
/// the transfer count, each as far as static analysis resolved them.
#[derive(Clone, Copy, Debug, PartialEq, Eq)]
pub struct SiteDiag {
    pub site: usize,
    pub dst_capacity: Option<u64>,
    pub transfer: Option<u64>,
}

} // verus!
