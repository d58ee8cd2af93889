//! Static analysis and auto-repair for one unsafe memory pattern: copying N
//! elements into a fixed-capacity destination array through a raw
//! pointer-copy primitive, where N may exceed the declared capacity.
//!
//! The analysis runs over [`ast::SourceTree`], a flat model of the parsed
//! source that owns every capacity literal in an arena and refers to it by
//! integer handle. Three components run in sequence: the declaration catalog
//! builder ([`catalog`]), the overflow oracle ([`oracle`]), and the repair
//! engine ([`repair`]). The properties that hold of the pipeline as a whole
//! — classification soundness, shadowing, idempotence of repair — are proved
//! once and for all in [`laws`].

pub mod ast;
pub mod catalog;
pub mod laws;
pub mod oracle;
pub mod repair;
pub mod strutil;
