use overflow_oracle::ast::{ArgShape, CountInfo, DeclInfo, Finding, SiteDiag, SourceTree, Stmt, TypeShape};
use overflow_oracle::catalog::{build_catalog, classify};
use overflow_oracle::oracle::{diagnose, oracle, path_matches_copy, resolve_count, resolve_dst};
use overflow_oracle::repair::repair;

fn decl(name: &str, ty: TypeShape) -> Stmt {
    Stmt::Decl { name: name.to_string(), ty }
}

fn copy_call(dst: ArgShape, count: ArgShape) -> Stmt {
    Stmt::Call {
        path: vec!["std".to_string(), "ptr".to_string(), "copy".to_string()],
        args: vec![ArgShape::Other, dst, count],
    }
}

fn method_on(name: &str) -> ArgShape {
    ArgShape::MethodOnName { receiver: name.to_string() }
}

/// Scenario A: `buf: [u8;16]`, copy count literal 16: capacity 16, count 16,
/// no finding.
#[test]
fn scenario_literal_count_fits() {
    let tree = SourceTree {
        lits: vec![16],
        stmts: vec![
            decl("buf", TypeShape::ArrayLit { lit: 0 }),
            copy_call(method_on("buf"), ArgShape::IntLiteral { value: 16 }),
        ],
    };
    assert_eq!(oracle(&tree), vec![]);
    assert_eq!(
        diagnose(&tree),
        vec![SiteDiag { site: 1, dst_capacity: Some(16), transfer: Some(16) }]
    );
}

/// Scenario B: `buf: [u8;16]`, copy count literal 23: `SmallArray` with
/// transfer size 23; after repair the declared capacity changes from 16 to
/// 23.
#[test]
fn scenario_literal_count_exceeds_and_repair() {
    let mut tree = SourceTree {
        lits: vec![16],
        stmts: vec![
            decl("buf", TypeShape::ArrayLit { lit: 0 }),
            copy_call(method_on("buf"), ArgShape::IntLiteral { value: 23 }),
        ],
    };
    let findings = oracle(&tree);
    assert_eq!(findings, vec![Finding::SmallArray { transfer_size: 23, lit: 0 }]);
    repair(&mut tree, &findings);
    assert_eq!(tree.lits, vec![23]);
}

/// The per-site diagnostic of an overflowing site lists both resolved
/// sizes.
#[test]
fn diagnose_overflow_site() {
    let tree = SourceTree {
        lits: vec![16],
        stmts: vec![
            decl("buf", TypeShape::ArrayLit { lit: 0 }),
            copy_call(method_on("buf"), ArgShape::IntLiteral { value: 23 }),
        ],
    };
    assert_eq!(
        diagnose(&tree),
        vec![SiteDiag { site: 1, dst_capacity: Some(16), transfer: Some(23) }]
    );
}

/// Idempotence is conditioned on transfer counts staying unchanged: when a
/// repair grows the very buffer another site reads its count from, that
/// site's symbolic count grows with it, and re-analysis flags it anew.
#[test]
fn repair_reflags_when_symbolic_count_grows() {
    let mut tree = SourceTree {
        lits: vec![16, 8],
        stmts: vec![
            decl("a", TypeShape::ArrayLit { lit: 0 }),
            decl("b", TypeShape::ArrayLit { lit: 1 }),
            copy_call(method_on("b"), method_on("a")),
            copy_call(method_on("a"), ArgShape::IntLiteral { value: 20 }),
        ],
    };
    let findings = oracle(&tree);
    assert_eq!(
        findings,
        vec![
            Finding::SmallArray { transfer_size: 16, lit: 1 },
            Finding::SmallArray { transfer_size: 20, lit: 0 },
        ]
    );
    repair(&mut tree, &findings);
    assert_eq!(tree.lits, vec![20, 16]);
    assert_eq!(
        oracle(&tree),
        vec![Finding::SmallArray { transfer_size: 20, lit: 1 }]
    );
}

/// Repair is idempotent: re-analyzing the repaired tree of scenario B
/// produces no further findings, and a second repair changes nothing.
#[test]
fn repair_idempotent_on_repaired_tree() {
    let mut tree = SourceTree {
        lits: vec![16],
        stmts: vec![
            decl("buf", TypeShape::ArrayLit { lit: 0 }),
            copy_call(method_on("buf"), ArgShape::IntLiteral { value: 23 }),
        ],
    };
    let findings = oracle(&tree);
    repair(&mut tree, &findings);
    let findings_again = oracle(&tree);
    assert_eq!(findings_again, vec![]);
    repair(&mut tree, &findings_again);
    assert_eq!(tree.lits, vec![23]);
}

/// Scenario C: `buf: [u8;16]`, copy count taken from a runtime-length
/// input: capacity 16, count unresolved, `Risk`, and no repair applied.
#[test]
fn scenario_runtime_count_is_risk() {
    let mut tree = SourceTree {
        lits: vec![16],
        stmts: vec![
            decl(
                "input_bytes",
                TypeShape::Reference { inner: Box::new(TypeShape::Slice) },
            ),
            decl("buf", TypeShape::ArrayLit { lit: 0 }),
            copy_call(method_on("buf"), method_on("input_bytes")),
        ],
    };
    let findings = oracle(&tree);
    assert_eq!(findings, vec![Finding::Risk { site: 2 }]);
    assert_eq!(
        diagnose(&tree),
        vec![SiteDiag { site: 2, dst_capacity: Some(16), transfer: None }]
    );
    repair(&mut tree, &findings);
    assert_eq!(tree.lits, vec![16]);
}

/// Scenario D: destination typed as a slice parameter records an explicitly
/// unknown extent, so any copy into it is `Risk` regardless of the count's
/// literal value.
#[test]
fn scenario_slice_destination_is_risk() {
    let tree = SourceTree {
        lits: vec![],
        stmts: vec![
            decl("buf", TypeShape::Slice),
            copy_call(method_on("buf"), ArgShape::IntLiteral { value: 2 }),
        ],
    };
    assert_eq!(oracle(&tree), vec![Finding::Risk { site: 1 }]);
}

/// A count resolved from another buffer's declared capacity is kept as a
/// distinct symbolic case, and still classifies numerically: copying a
/// 23-element source into a 16-element destination is `SmallArray`.
#[test]
fn symbolic_count_from_other_buffer() {
    let tree = SourceTree {
        lits: vec![23, 16],
        stmts: vec![
            decl("input_bytes", TypeShape::ArrayLit { lit: 0 }),
            decl("buffer", TypeShape::ArrayLit { lit: 1 }),
            copy_call(method_on("buffer"), method_on("input_bytes")),
        ],
    };
    let cat = build_catalog(&tree);
    assert_eq!(
        resolve_count(&cat, &method_on("input_bytes")),
        CountInfo::Symbolic { name: "input_bytes".to_string(), capacity: 23 }
    );
    assert_eq!(
        resolve_count(&cat, &ArgShape::IntLiteral { value: 23 }),
        CountInfo::Literal { value: 23 }
    );
    assert_eq!(oracle(&tree), vec![Finding::SmallArray { transfer_size: 23, lit: 1 }]);
}

/// Shadowing: re-declaring a name overwrites its catalog entry, and the
/// latest recorded declaration governs classification at the call site.
#[test]
fn shadowing_overwrites_catalog_entry() {
    let tree = SourceTree {
        lits: vec![16, 8],
        stmts: vec![
            decl("buf", TypeShape::ArrayLit { lit: 0 }),
            decl("buf", TypeShape::ArrayLit { lit: 1 }),
            copy_call(method_on("buf"), ArgShape::IntLiteral { value: 12 }),
        ],
    };
    let cat = build_catalog(&tree);
    assert_eq!(cat.lookup("buf"), Some(DeclInfo::Known { capacity: 8, lit: 1 }));
    assert_eq!(oracle(&tree), vec![Finding::SmallArray { transfer_size: 12, lit: 1 }]);
}

/// Re-declaring an array name as a slice overwrites the entry with an
/// explicit unknown, so a later site is `Risk` even with a literal count.
#[test]
fn shadowing_array_by_slice_is_risk() {
    let tree = SourceTree {
        lits: vec![16],
        stmts: vec![
            decl("buf", TypeShape::ArrayLit { lit: 0 }),
            decl("buf", TypeShape::Slice),
            copy_call(method_on("buf"), ArgShape::IntLiteral { value: 4 }),
        ],
    };
    assert_eq!(oracle(&tree), vec![Finding::Risk { site: 2 }]);
}

/// For every fixed-length array declaration of literal size S, the catalog
/// entry has capacity exactly S; references are transparently unwrapped;
/// slices and arrays of unknown extent record an explicit unknown; other
/// types and never-declared names record nothing.
#[test]
fn catalog_classification() {
    let tree = SourceTree {
        lits: vec![16, 32],
        stmts: vec![
            decl("plain", TypeShape::ArrayLit { lit: 0 }),
            decl(
                "borrowed",
                TypeShape::Reference { inner: Box::new(TypeShape::ArrayLit { lit: 1 }) },
            ),
            decl("varlen", TypeShape::ArrayOther),
            decl("sliced", TypeShape::Slice),
            decl("scalar", TypeShape::Other),
        ],
    };
    let cat = build_catalog(&tree);
    assert_eq!(cat.lookup("plain"), Some(DeclInfo::Known { capacity: 16, lit: 0 }));
    assert_eq!(cat.lookup("borrowed"), Some(DeclInfo::Known { capacity: 32, lit: 1 }));
    assert_eq!(cat.lookup("varlen"), Some(DeclInfo::Unknown));
    assert_eq!(cat.lookup("sliced"), Some(DeclInfo::Unknown));
    assert_eq!(cat.lookup("scalar"), None);
    assert_eq!(cat.lookup("never_seen"), None);
}

/// A declaration whose literal handle does not resolve into the arena
/// records nothing.
#[test]
fn classify_out_of_range_handle_records_nothing() {
    let lits: Vec<u64> = vec![16];
    assert_eq!(classify(&TypeShape::ArrayLit { lit: 5 }, &lits), None);
    assert_eq!(
        classify(&TypeShape::ArrayLit { lit: 0 }, &lits),
        Some(DeclInfo::Known { capacity: 16, lit: 0 })
    );
}

/// The callee path matches the copy primitive by its trailing name: a
/// `ptr` segment followed by a segment beginning with `copy`.
#[test]
fn copy_path_matching() {
    let yes = vec!["std".to_string(), "ptr".to_string(), "copy".to_string()];
    let nonoverlapping =
        vec!["core".to_string(), "ptr".to_string(), "copy_nonoverlapping".to_string()];
    let bare = vec!["ptr".to_string(), "copy".to_string()];
    let no_ptr = vec!["std".to_string(), "mem".to_string(), "copy".to_string()];
    let reversed = vec!["copy".to_string(), "ptr".to_string()];
    let short = vec!["copy".to_string()];
    assert!(path_matches_copy(&yes));
    assert!(path_matches_copy(&nonoverlapping));
    assert!(path_matches_copy(&bare));
    assert!(!path_matches_copy(&no_ptr));
    assert!(!path_matches_copy(&reversed));
    assert!(!path_matches_copy(&short));
}

/// A call to the primitive with an argument count other than three is not
/// a copy call site.
#[test]
fn wrong_arity_is_ignored() {
    let tree = SourceTree {
        lits: vec![16],
        stmts: vec![
            decl("buf", TypeShape::ArrayLit { lit: 0 }),
            Stmt::Call {
                path: vec!["std".to_string(), "ptr".to_string(), "copy".to_string()],
                args: vec![ArgShape::Other, method_on("buf")],
            },
        ],
    };
    assert_eq!(oracle(&tree), vec![]);
    assert_eq!(diagnose(&tree), vec![]);
}

/// A call to some other function is not a copy call site, whatever its
/// arguments look like.
#[test]
fn other_calls_are_ignored() {
    let tree = SourceTree {
        lits: vec![4],
        stmts: vec![
            decl("buf", TypeShape::ArrayLit { lit: 0 }),
            Stmt::Call {
                path: vec!["memmove".to_string()],
                args: vec![ArgShape::Other, method_on("buf"), ArgShape::IntLiteral { value: 9 }],
            },
        ],
    };
    assert_eq!(oracle(&tree), vec![]);
}

/// Destination resolution: a method invocation on a catalogued array
/// resolves to its capacity and handle; any other shape is unresolved.
#[test]
fn destination_resolution() {
    let tree = SourceTree {
        lits: vec![16],
        stmts: vec![decl("buf", TypeShape::ArrayLit { lit: 0 })],
    };
    let cat = build_catalog(&tree);
    assert_eq!(resolve_dst(&cat, &method_on("buf")), Some((16, 0)));
    assert_eq!(resolve_dst(&cat, &method_on("other")), None);
    assert_eq!(resolve_dst(&cat, &ArgShape::IntLiteral { value: 16 }), None);
    assert_eq!(resolve_dst(&cat, &ArgShape::Other), None);
}

/// A count argument of an unmodeled expression shape is unresolved and the
/// site is `Risk`, even with the destination fully known.
#[test]
fn unmodeled_count_shape_is_risk() {
    let tree = SourceTree {
        lits: vec![16],
        stmts: vec![
            decl("buf", TypeShape::ArrayLit { lit: 0 }),
            copy_call(method_on("buf"), ArgShape::Other),
        ],
    };
    assert_eq!(oracle(&tree), vec![Finding::Risk { site: 1 }]);
}

/// Findings preserve source encounter order, one finding per call site at
/// most.
#[test]
fn findings_preserve_source_order() {
    let tree = SourceTree {
        lits: vec![16],
        stmts: vec![
            decl("buf", TypeShape::ArrayLit { lit: 0 }),
            copy_call(method_on("buf"), ArgShape::IntLiteral { value: 20 }),
            copy_call(method_on("buf"), ArgShape::IntLiteral { value: 3 }),
            copy_call(method_on("mystery"), ArgShape::IntLiteral { value: 3 }),
            copy_call(method_on("buf"), ArgShape::IntLiteral { value: 21 }),
        ],
    };
    assert_eq!(
        oracle(&tree),
        vec![
            Finding::SmallArray { transfer_size: 20, lit: 0 },
            Finding::Risk { site: 3 },
            Finding::SmallArray { transfer_size: 21, lit: 0 },
        ]
    );
}

/// A finding whose stored literal handle no longer resolves into the arena
/// is skipped — the rest of the pass still runs.
#[test]
fn repair_skips_stale_handle() {
    let mut tree = SourceTree { lits: vec![16], stmts: vec![] };
    let findings = vec![
        Finding::SmallArray { transfer_size: 40, lit: 9 },
        Finding::SmallArray { transfer_size: 23, lit: 0 },
    ];
    repair(&mut tree, &findings);
    assert_eq!(tree.lits, vec![23]);
}

/// `Risk` findings are never auto-repaired.
#[test]
fn repair_never_touches_risk() {
    let mut tree = SourceTree { lits: vec![16], stmts: vec![] };
    repair(&mut tree, &vec![Finding::Risk { site: 0 }]);
    assert_eq!(tree.lits, vec![16]);
}

/// An empty tree yields no findings and no diagnostics.
#[test]
fn empty_tree() {
    let tree = SourceTree { lits: vec![], stmts: vec![] };
    assert_eq!(oracle(&tree), vec![]);
    assert_eq!(diagnose(&tree), vec![]);
}
