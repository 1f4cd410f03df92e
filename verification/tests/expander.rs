use alumina_boot::ast::{
    AstCtx, BuiltinMacro, BuiltinMacroKind, Expr, ExprKind, Item, ItemRef, LetDeclaration, Lit,
    Macro, MacroParameter, Statement,
};
use alumina_boot::diag::ErrorKind;
use alumina_boot::global::{GlobalCtx, OutputType};
use alumina_boot::macros::MacroExpander;
use alumina_boot::Span;

fn err_of(r: Result<Expr, ErrorKind>) -> ErrorKind {
    match r {
        Err(k) => k,
        Ok(_) => panic!("expected an error"),
    }
}

fn lit_int(v: u128) -> Expr {
    Expr { kind: ExprKind::Lit(Lit::Int(v)), span: None }
}

fn lit_str(s: &str) -> Expr {
    Expr {
        kind: ExprKind::Lit(Lit::Str(s.as_bytes().to_vec())),
        span: None,
    }
}

fn span(line: usize, column: usize) -> Span {
    Span { file: 0, start: 0, line, column }
}

/// `macro m($x) { let y = $x; y + 1 }`
fn make_m(ctx: &mut AstCtx) -> (ItemRef, u64) {
    let x = ctx.make_id();
    let y = ctx.make_id();
    let body = Expr {
        kind: ExprKind::Block(
            vec![Statement::LetDeclaration(LetDeclaration {
                id: y,
                typ: None,
                value: Some(Expr { kind: ExprKind::Local(x), span: None }),
            })],
            Box::new(Expr {
                kind: ExprKind::Binary(
                    alumina_boot::ast::BinOp::Plus,
                    Box::new(Expr { kind: ExprKind::Local(y), span: None }),
                    Box::new(lit_int(1)),
                ),
                span: None,
            }),
        ),
        span: None,
    };
    let sym = ctx.make_symbol();
    ctx.assign(
        sym,
        Item::Macro(Macro {
            name: Some("m".to_string()),
            args: vec![MacroParameter { id: x, et_cetera: false, span: None }],
            body: Some(body),
            span: None,
        }),
    )
    .unwrap();
    (sym, y.id as u64)
}

fn expand(
    ctx: &mut AstCtx,
    global: &GlobalCtx,
    item: ItemRef,
    args: Vec<Expr>,
    at: Option<Span>,
) -> Result<Expr, ErrorKind> {
    MacroExpander::new(at, item, args, 16).expand(ctx, global)
}

fn let_id_of(e: &Expr) -> usize {
    match &e.kind {
        ExprKind::Block(stmts, _) => match &stmts[0] {
            Statement::LetDeclaration(d) => d.id.id,
            _ => panic!("expected a let declaration"),
        },
        _ => panic!("expected a block"),
    }
}

#[test]
fn hygiene_two_expansions_bind_distinct_names() {
    let mut ctx = AstCtx::new();
    let global = GlobalCtx::new(OutputType::Executable);
    let (m, y_orig) = make_m(&mut ctx);
    let e1 = expand(&mut ctx, &global, m, vec![lit_int(3)], Some(span(1, 1))).unwrap();
    let e2 = expand(&mut ctx, &global, m, vec![lit_int(4)], Some(span(1, 10))).unwrap();
    let id1 = let_id_of(&e1);
    let id2 = let_id_of(&e2);
    assert_ne!(id1, id2);
    assert_ne!(id1 as u64, y_orig);
    assert_ne!(id2 as u64, y_orig);
}

#[test]
fn expansion_root_carries_invocation_span() {
    let mut ctx = AstCtx::new();
    let global = GlobalCtx::new(OutputType::Executable);
    let (m, _) = make_m(&mut ctx);
    let at = span(7, 3);
    let e = expand(&mut ctx, &global, m, vec![lit_int(3)], Some(at)).unwrap();
    assert_eq!(e.span, Some(at));
    match &e.kind {
        ExprKind::Block(stmts, ret) => {
            assert_eq!(ret.span, Some(at));
            match &stmts[0] {
                Statement::LetDeclaration(d) => {
                    assert_eq!(d.value.as_ref().unwrap().span, None);
                }
                _ => panic!("expected a let declaration"),
            }
        }
        _ => panic!("expected a block"),
    }
}

#[test]
fn arity_mismatch_is_exact() {
    let mut ctx = AstCtx::new();
    let global = GlobalCtx::new(OutputType::Executable);
    let (m, _) = make_m(&mut ctx);
    let r = expand(&mut ctx, &global, m, vec![lit_int(1), lit_int(2)], None);
    assert_eq!(err_of(r), ErrorKind::ParamCountMismatch(1, 2));
}

fn make_builtin(ctx: &mut AstCtx, kind: BuiltinMacroKind) -> ItemRef {
    let sym = ctx.make_symbol();
    ctx.assign(sym, Item::BuiltinMacro(BuiltinMacro { kind, span: None }))
        .unwrap();
    sym
}

#[test]
fn concat_round_trip() {
    let mut ctx = AstCtx::new();
    let global = GlobalCtx::new(OutputType::Executable);
    let c = make_builtin(&mut ctx, BuiltinMacroKind::Concat);
    let e = expand(
        &mut ctx,
        &global,
        c,
        vec![lit_str("a"), lit_str("b"), lit_str("c")],
        None,
    )
    .unwrap();
    match e.kind {
        ExprKind::Lit(Lit::Str(bytes)) => assert_eq!(bytes, b"abc".to_vec()),
        _ => panic!("expected a string literal"),
    }
}

#[test]
fn concat_rejects_non_strings() {
    let mut ctx = AstCtx::new();
    let global = GlobalCtx::new(OutputType::Executable);
    let c = make_builtin(&mut ctx, BuiltinMacroKind::Concat);
    let r = expand(&mut ctx, &global, c, vec![lit_str("a"), lit_int(1)], None);
    assert_eq!(err_of(r), ErrorKind::ConstantStringExpected);
}

#[test]
fn line_and_column_are_one_based() {
    let mut ctx = AstCtx::new();
    let global = GlobalCtx::new(OutputType::Executable);
    let l = make_builtin(&mut ctx, BuiltinMacroKind::Line);
    let c = make_builtin(&mut ctx, BuiltinMacroKind::Column);
    let at = span(41, 7);
    let le = expand(&mut ctx, &global, l, vec![], Some(at)).unwrap();
    let ce = expand(&mut ctx, &global, c, vec![], Some(at)).unwrap();
    match le.kind {
        ExprKind::Lit(Lit::Int(v)) => assert_eq!(v, 42),
        _ => panic!("expected an int literal"),
    }
    match ce.kind {
        ExprKind::Lit(Lit::Int(v)) => assert_eq!(v, 8),
        _ => panic!("expected an int literal"),
    }
    let r = expand(&mut ctx, &global, l, vec![], None);
    assert_eq!(err_of(r), ErrorKind::NoSpanInformation);
}

#[test]
fn env_reads_the_snapshot() {
    let mut ctx = AstCtx::new();
    let mut global = GlobalCtx::new(OutputType::Executable);
    global.env.push((b"N".to_vec(), b"8".to_vec()));
    let e = make_builtin(&mut ctx, BuiltinMacroKind::Env);
    let v = expand(&mut ctx, &global, e, vec![lit_str("N")], None).unwrap();
    match v.kind {
        ExprKind::Lit(Lit::Str(bytes)) => assert_eq!(bytes, b"8".to_vec()),
        _ => panic!("expected a string literal"),
    }
    let missing = expand(&mut ctx, &global, e, vec![lit_str("M")], None);
    assert_eq!(err_of(missing), ErrorKind::EnvVarNotFound);
}

#[test]
fn include_bytes_reads_the_snapshot() {
    let mut ctx = AstCtx::new();
    let mut global = GlobalCtx::new(OutputType::Executable);
    global.files.push((b"a.bin".to_vec(), vec![1, 2, 3]));
    let ib = make_builtin(&mut ctx, BuiltinMacroKind::IncludeBytes);
    let v = expand(&mut ctx, &global, ib, vec![lit_str("a.bin")], None).unwrap();
    match v.kind {
        ExprKind::Lit(Lit::Str(bytes)) => assert_eq!(bytes, vec![1, 2, 3]),
        _ => panic!("expected a string literal"),
    }
    let missing = expand(&mut ctx, &global, ib, vec![lit_str("b.bin")], None);
    assert_eq!(err_of(missing), ErrorKind::CannotReadFile);
}

#[test]
fn bind_concatenates_bound_arguments() {
    let mut ctx = AstCtx::new();
    let global = GlobalCtx::new(OutputType::Executable);
    let (m, _) = make_m(&mut ctx);
    let b = make_builtin(&mut ctx, BuiltinMacroKind::Bind);
    let mref = Expr { kind: ExprKind::Macro(m, vec![]), span: None };
    let bound = expand(&mut ctx, &global, b, vec![mref, lit_int(9)], None).unwrap();
    match bound.kind {
        ExprKind::Macro(item, args) => {
            assert_eq!(item, m);
            assert_eq!(args.len(), 1);
            match &args[0].kind {
                ExprKind::Lit(Lit::Int(v)) => assert_eq!(*v, 9),
                _ => panic!("expected an int literal"),
            }
        }
        _ => panic!("expected a macro reference"),
    }
}

/// `macro tup($rest...) { ($rest...,) }` with zero variadic arguments.
#[test]
fn et_cetera_with_zero_variadic_arguments_is_legal() {
    let mut ctx = AstCtx::new();
    let global = GlobalCtx::new(OutputType::Executable);
    let rest = ctx.make_id();
    let body = Expr {
        kind: ExprKind::Tuple(vec![Expr {
            kind: ExprKind::EtCetera(Box::new(Expr {
                kind: ExprKind::Local(rest),
                span: None,
            })),
            span: None,
        }]),
        span: None,
    };
    let sym = ctx.make_symbol();
    ctx.assign(
        sym,
        Item::Macro(Macro {
            name: Some("tup".to_string()),
            args: vec![MacroParameter { id: rest, et_cetera: true, span: None }],
            body: Some(body),
            span: None,
        }),
    )
    .unwrap();
    let e = expand(&mut ctx, &global, sym, vec![], None).unwrap();
    match e.kind {
        ExprKind::Tuple(elems) => assert_eq!(elems.len(), 0),
        _ => panic!("expected a tuple"),
    }
}

/// `macro sum($first, $rest...) { reduce!(add, $first, $rest...) }` and
/// `sum!(1,2,3,4)` expands like `add!(add!(add!(1,2),3),4)`.
#[test]
fn variadic_reduce_left_folds() {
    let mut ctx = AstCtx::new();
    let global = GlobalCtx::new(OutputType::Executable);
    let a = ctx.make_id();
    let b = ctx.make_id();
    let add_body = Expr {
        kind: ExprKind::Binary(
            alumina_boot::ast::BinOp::Plus,
            Box::new(Expr { kind: ExprKind::Local(a), span: None }),
            Box::new(Expr { kind: ExprKind::Local(b), span: None }),
        ),
        span: None,
    };
    let add = ctx.make_symbol();
    ctx.assign(
        add,
        Item::Macro(Macro {
            name: Some("add".to_string()),
            args: vec![
                MacroParameter { id: a, et_cetera: false, span: None },
                MacroParameter { id: b, et_cetera: false, span: None },
            ],
            body: Some(add_body),
            span: None,
        }),
    )
    .unwrap();
    let reduce = make_builtin(&mut ctx, BuiltinMacroKind::Reduce);
    let first = ctx.make_id();
    let rest = ctx.make_id();
    let sum_body = Expr {
        kind: ExprKind::MacroInvocation(
            Box::new(Expr { kind: ExprKind::Macro(reduce, vec![]), span: None }),
            vec![
                Expr { kind: ExprKind::Macro(add, vec![]), span: None },
                Expr { kind: ExprKind::Local(first), span: None },
                Expr {
                    kind: ExprKind::EtCetera(Box::new(Expr {
                        kind: ExprKind::Local(rest),
                        span: None,
                    })),
                    span: None,
                },
            ],
        ),
        span: None,
    };
    let sum = ctx.make_symbol();
    ctx.assign(
        sum,
        Item::Macro(Macro {
            name: Some("sum".to_string()),
            args: vec![
                MacroParameter { id: first, et_cetera: false, span: None },
                MacroParameter { id: rest, et_cetera: true, span: None },
            ],
            body: Some(sum_body),
            span: None,
        }),
    )
    .unwrap();
    let e = expand(
        &mut ctx,
        &global,
        sum,
        vec![lit_int(1), lit_int(2), lit_int(3), lit_int(4)],
        None,
    )
    .unwrap();
    // ((1 + 2) + 3) + 4
    let (lhs1, r4) = as_plus(&e);
    assert_eq!(as_int(r4), 4);
    let (lhs2, r3) = as_plus(lhs1);
    assert_eq!(as_int(r3), 3);
    let (l1, r2) = as_plus(lhs2);
    assert_eq!(as_int(l1), 1);
    assert_eq!(as_int(r2), 2);
}

fn as_plus(e: &Expr) -> (&Expr, &Expr) {
    match &e.kind {
        ExprKind::Binary(alumina_boot::ast::BinOp::Plus, l, r) => (l, r),
        _ => panic!("expected an addition"),
    }
}

fn as_int(e: &Expr) -> u128 {
    match &e.kind {
        ExprKind::Lit(Lit::Int(v)) => *v,
        _ => panic!("expected an int literal"),
    }
}

#[test]
fn format_args_with_hole_but_no_arguments_is_an_error() {
    let mut ctx = AstCtx::new();
    let global = GlobalCtx::new(OutputType::Executable);
    let rest = ctx.make_id();
    let body = Expr {
        kind: ExprKind::Tuple(vec![Expr {
            kind: ExprKind::EtCetera(Box::new(Expr {
                kind: ExprKind::Local(rest),
                span: None,
            })),
            span: None,
        }]),
        span: None,
    };
    let wrapper = ctx.make_symbol();
    ctx.assign(
        wrapper,
        Item::Macro(Macro {
            name: Some("wrap".to_string()),
            args: vec![MacroParameter { id: rest, et_cetera: true, span: None }],
            body: Some(body),
            span: None,
        }),
    )
    .unwrap();
    let fa = make_builtin(&mut ctx, BuiltinMacroKind::FormatArgs);
    let wref = Expr { kind: ExprKind::Macro(wrapper, vec![]), span: None };
    let r = expand(&mut ctx, &global, fa, vec![wref, lit_str("{}")], None);
    assert_eq!(err_of(r), ErrorKind::InvalidFormatString);
}

#[test]
fn format_args_ignores_extra_positional_arguments() {
    let mut ctx = AstCtx::new();
    let global = GlobalCtx::new(OutputType::Executable);
    let rest = ctx.make_id();
    let body = Expr {
        kind: ExprKind::Tuple(vec![Expr {
            kind: ExprKind::EtCetera(Box::new(Expr {
                kind: ExprKind::Local(rest),
                span: None,
            })),
            span: None,
        }]),
        span: None,
    };
    let wrapper = ctx.make_symbol();
    ctx.assign(
        wrapper,
        Item::Macro(Macro {
            name: Some("wrap".to_string()),
            args: vec![MacroParameter { id: rest, et_cetera: true, span: None }],
            body: Some(body),
            span: None,
        }),
    )
    .unwrap();
    let fa = make_builtin(&mut ctx, BuiltinMacroKind::FormatArgs);
    let wref = Expr { kind: ExprKind::Macro(wrapper, vec![]), span: None };
    let e = expand(
        &mut ctx,
        &global,
        fa,
        vec![wref, lit_str("hi"), lit_int(1), lit_int(2)],
        None,
    )
    .unwrap();
    match e.kind {
        ExprKind::Tuple(elems) => {
            assert_eq!(elems.len(), 1);
            match &elems[0].kind {
                ExprKind::Lit(Lit::Str(bytes)) => assert_eq!(bytes, &b"hi".to_vec()),
                _ => panic!("expected a string literal"),
            }
        }
        _ => panic!("expected a tuple"),
    }
}

#[test]
fn stringify_produces_a_string_literal() {
    let mut ctx = AstCtx::new();
    let global = GlobalCtx::new(OutputType::Executable);
    let st = make_builtin(&mut ctx, BuiltinMacroKind::Stringify);
    let e = expand(&mut ctx, &global, st, vec![lit_int(42)], None).unwrap();
    match e.kind {
        ExprKind::Lit(Lit::Str(bytes)) => assert_eq!(bytes, b"42".to_vec()),
        _ => panic!("expected a string literal"),
    }
}

#[test]
fn expanding_a_macro_without_body_is_a_recursive_call() {
    let mut ctx = AstCtx::new();
    let global = GlobalCtx::new(OutputType::Executable);
    let x = ctx.make_id();
    let sym = ctx.make_symbol();
    ctx.assign(
        sym,
        Item::Macro(Macro {
            name: Some("m".to_string()),
            args: vec![MacroParameter { id: x, et_cetera: false, span: None }],
            body: None,
            span: None,
        }),
    )
    .unwrap();
    let r = expand(&mut ctx, &global, sym, vec![lit_int(1)], None);
    assert_eq!(err_of(r), ErrorKind::RecursiveMacroCall);
}

#[test]
fn variadic_needs_enough_arguments() {
    let mut ctx = AstCtx::new();
    let global = GlobalCtx::new(OutputType::Executable);
    let a = ctx.make_id();
    let b = ctx.make_id();
    let rest = ctx.make_id();
    let body = Expr { kind: ExprKind::Local(a), span: None };
    let sym = ctx.make_symbol();
    ctx.assign(
        sym,
        Item::Macro(Macro {
            name: Some("v".to_string()),
            args: vec![
                MacroParameter { id: a, et_cetera: false, span: None },
                MacroParameter { id: rest, et_cetera: true, span: None },
                MacroParameter { id: b, et_cetera: false, span: None },
            ],
            body: Some(body),
            span: None,
        }),
    )
    .unwrap();
    let r = expand(&mut ctx, &global, sym, vec![lit_int(1)], None);
    assert_eq!(err_of(r), ErrorKind::NotEnoughMacroArguments(2));
}

/// `reduce!(op, base)` with no further operands folds zero times and
/// yields the base expression unchanged.
#[test]
fn reduce_with_base_only_returns_base() {
    let mut ctx = AstCtx::new();
    let global = GlobalCtx::new(OutputType::Executable);
    let a = ctx.make_id();
    let b = ctx.make_id();
    let add_body = Expr {
        kind: ExprKind::Binary(
            alumina_boot::ast::BinOp::Plus,
            Box::new(Expr { kind: ExprKind::Local(a), span: None }),
            Box::new(Expr { kind: ExprKind::Local(b), span: None }),
        ),
        span: None,
    };
    let add = ctx.make_symbol();
    ctx.assign(
        add,
        Item::Macro(Macro {
            name: Some("add".to_string()),
            args: vec![
                MacroParameter { id: a, et_cetera: false, span: None },
                MacroParameter { id: b, et_cetera: false, span: None },
            ],
            body: Some(add_body),
            span: None,
        }),
    )
    .unwrap();
    let reduce = make_builtin(&mut ctx, BuiltinMacroKind::Reduce);
    let e = expand(
        &mut ctx,
        &global,
        reduce,
        vec![Expr { kind: ExprKind::Macro(add, vec![]), span: None }, lit_int(42)],
        None,
    )
    .unwrap();
    assert_eq!(as_int(&e), 42);
}

/// A macro whose body is a single literal always expands, whatever
/// surrounds the invocation.
#[test]
fn leaf_body_macro_always_expands() {
    let mut ctx = AstCtx::new();
    let global = GlobalCtx::new(OutputType::Executable);
    let sym = ctx.make_symbol();
    ctx.assign(
        sym,
        Item::Macro(Macro {
            name: Some("seven".to_string()),
            args: vec![],
            body: Some(lit_int(7)),
            span: None,
        }),
    )
    .unwrap();
    let e = expand(&mut ctx, &global, sym, vec![], None).unwrap();
    assert_eq!(as_int(&e), 7);
}
