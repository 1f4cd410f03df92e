use alumina_boot::ast::{AstCtx, BuiltinType, Item, Macro, Ty};
use alumina_boot::diag::ErrorKind;
use alumina_boot::ir;

/// Structurally equal types share one interned index, in both arenas.
#[test]
fn intern_uniqueness_ast() {
    let mut ctx = AstCtx::new();
    let a = ctx.intern_type(Ty::Builtin(BuiltinType::U8));
    let p1 = ctx.intern_type(Ty::Pointer(a));
    let b = ctx.intern_type(Ty::Builtin(BuiltinType::U8));
    let p2 = ctx.intern_type(Ty::Pointer(b));
    assert_eq!(a, b);
    assert_eq!(p1, p2);
    let c = ctx.intern_type(Ty::Builtin(BuiltinType::U16));
    assert_ne!(a, c);
}

#[test]
fn intern_uniqueness_ir() {
    let mut ctx = ir::IrCtx::new();
    let a = ctx.intern_type(ir::Ty::Builtin(BuiltinType::I32));
    let b = ctx.intern_type(ir::Ty::Builtin(BuiltinType::I32));
    assert_eq!(a, b);
    let l = ctx.intern_type_list(vec![a]);
    let l2 = ctx.intern_type_list(vec![a]);
    assert_eq!(l, l2);
    let t1 = ctx.intern_type(ir::Ty::Tuple(l));
    let t2 = ctx.intern_type(ir::Ty::Tuple(l2));
    assert_eq!(t1, t2);
}

/// At most one assignment to an item cell ever succeeds.
#[test]
fn write_once_cells() {
    let mut ctx = AstCtx::new();
    let sym = ctx.make_symbol();
    let mk = |name: &str| {
        Item::Macro(Macro {
            name: Some(name.to_string()),
            args: vec![],
            body: None,
            span: None,
        })
    };
    assert!(ctx.assign(sym, mk("first")).is_ok());
    assert_eq!(ctx.assign(sym, mk("second")).unwrap_err(), ErrorKind::InternalError);
    match ctx.get(sym).unwrap() {
        Item::Macro(m) => assert_eq!(m.name.as_deref(), Some("first")),
        _ => panic!("expected the first assignment to stick"),
    }
}

#[test]
fn reading_an_empty_cell_is_unpopulated() {
    let mut ctx = ir::IrCtx::new();
    let sym = ctx.make_symbol();
    match ctx.get(sym) {
        Err(k) => assert_eq!(k, ErrorKind::UnpopulatedSymbol),
        Ok(_) => panic!("expected an unpopulated symbol"),
    }
    match ctx.get_function(sym) {
        Err(k) => assert_eq!(k, ErrorKind::UnpopulatedSymbol),
        Ok(_) => panic!("expected an unpopulated symbol"),
    }
}

#[test]
fn ids_are_unique_per_arena() {
    let mut ctx = AstCtx::new();
    let a = ctx.make_id();
    let b = ctx.make_id();
    assert_ne!(a.id, b.id);
}

#[test]
fn zero_sized_types_follow_their_structure() {
    let mut ctx = ir::IrCtx::new();
    let never = ctx.intern_type(ir::Ty::Builtin(BuiltinType::Never));
    let u8t = ctx.intern_type(ir::Ty::Builtin(BuiltinType::U8));
    let void = ctx.intern_type(ir::Ty::Tuple(0));
    let arr0 = ctx.intern_type(ir::Ty::Array(u8t, 0));
    let arr2 = ctx.intern_type(ir::Ty::Array(u8t, 2));
    let ptr = ctx.intern_type(ir::Ty::Pointer(never, true));
    assert_eq!(ctx.is_zero_sized(never).unwrap(), true);
    assert_eq!(ctx.is_zero_sized(u8t).unwrap(), false);
    assert_eq!(ctx.is_zero_sized(void).unwrap(), true);
    assert_eq!(ctx.is_zero_sized(arr0).unwrap(), true);
    assert_eq!(ctx.is_zero_sized(arr2).unwrap(), false);
    assert_eq!(ctx.is_zero_sized(ptr).unwrap(), false);
}

#[test]
fn struct_zero_sizedness_is_cached_at_assignment() {
    let mut ctx = ir::IrCtx::new();
    let void = ctx.intern_type(ir::Ty::Tuple(0));
    let sym = ctx.make_symbol();
    ctx.assign(
        sym,
        ir::IRItem::StructLike(ir::StructLike {
            name: Some("empty".to_string()),
            attributes: vec![],
            fields: vec![ir::Field { id: ir::IrId { id: 9 }, ty: void }],
            is_union: false,
        }),
    )
    .unwrap();
    let st = ctx.intern_type(ir::Ty::Item(sym));
    assert_eq!(ctx.is_zero_sized(st).unwrap(), true);
}

#[test]
fn type_relations_match_the_hierarchy() {
    let mut ctx = ir::IrCtx::new();
    let u8t = ctx.intern_type(ir::Ty::Builtin(BuiltinType::U8));
    let never = ir::Ty::Builtin(BuiltinType::Never);
    let pc = ir::Ty::Pointer(u8t, true);
    let pm = ir::Ty::Pointer(u8t, false);
    assert!(pc.assignable_from(&pm));
    assert!(!pm.assignable_from(&pc));
    assert!(pm.assignable_from(&never));
    assert_eq!(ir::Ty::gcd(&pm, &pc), pm);
    assert_eq!(ir::Ty::gcd(&pc, &never), pc);
    assert_eq!(ir::Ty::gcd(&ir::Ty::Builtin(BuiltinType::U8), &ir::Ty::Builtin(BuiltinType::U16)), ir::Ty::void());
    let pp = ctx.intern_type(pm);
    let ppp = ctx.intern_type(ir::Ty::Pointer(pp, false));
    assert_eq!(ctx.canonical_type(ppp), u8t);
    assert!(ir::Ty::void().is_void());
    assert!(never.is_never());
}

#[test]
fn purity_follows_the_expression_kind() {
    let mut ctx = ir::IrCtx::new();
    let u8t = ctx.intern_type(ir::Ty::Builtin(BuiltinType::U8));
    let lit = ir::Expr::rvalue(ir::ExprKind::Literal(ir::Value::U8(1)), u8t, None);
    assert!(lit.pure());
    let call = ir::Expr::rvalue(
        ir::ExprKind::Call(
            Box::new(ir::Expr::rvalue(ir::ExprKind::Local(ir::IrId { id: 0 }), u8t, None)),
            vec![],
        ),
        u8t,
        None,
    );
    assert!(!call.pure());
    assert!(!ir::Statement::Label(ir::IrId { id: 1 }).pure());
}
