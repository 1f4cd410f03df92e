use alumina_boot::ast::BuiltinType;
use alumina_boot::codegen::{
    emit_const_val, force_float, u128_dec, i64_dec, FunctionWriter,
};
use alumina_boot::ir::{
    Expr, ExprKind, FuncBody, Function, IrCtx, IrId, Parameter, Statement, Ty, Value,
};

fn rv(kind: ExprKind, ty: usize) -> Expr {
    Expr::rvalue(kind, ty, None)
}

#[test]
fn decimal_rendering_is_exact() {
    assert_eq!(u128_dec(0).as_str(), "0");
    assert_eq!(u128_dec(12345).as_str(), "12345");
    assert_eq!(i64_dec(-7).as_str(), "-7");
    assert_eq!(i64_dec(i64::MIN).as_str(), "-9223372036854775808");
}

#[test]
fn float_spellings_are_forced_to_float() {
    assert_eq!(force_float("1").as_str(), "1e0");
    assert_eq!(force_float("-10").as_str(), "-10e0");
    assert_eq!(force_float("1.5").as_str(), "1.5");
    assert_eq!(force_float("1e3").as_str(), "1e3");
}

/// The 128-bit literal `1 << 100` is assembled from its two halves.
#[test]
fn u128_literal_is_assembled_from_halves() {
    let mut buf = String::new();
    emit_const_val(&mut buf, &Value::U128(1u128 << 100)).unwrap();
    assert_eq!(
        buf.as_str(),
        "((((uint128_t)68719476736ULL) << 64) | ((uint128_t)0ULL))"
    );
}

#[test]
fn string_literal_escaping_terminates_hex_escapes() {
    let mut w = FunctionWriter::new(false);
    w.write_string_literal(&vec![1u8, b'a', b'"', 0xff]);
    let mut out = String::new();
    w.write(&mut out);
    assert_eq!(out.as_str(), "(const uint8_t*)\"\\x01\"\"a\\\"\\xff\"");
}

#[test]
fn const_val_rejects_strings() {
    let mut buf = String::new();
    assert!(emit_const_val(&mut buf, &Value::Str(vec![], 0)).is_err());
    assert_eq!(buf.as_str(), "");
}

/// No call site in emitted C passes a zero-sized argument.
#[test]
fn zero_sized_call_arguments_are_elided() {
    let mut ir = IrCtx::new();
    let void = ir.intern_type(Ty::Tuple(0));
    let u8t = ir.intern_type(Ty::Builtin(BuiltinType::U8));
    let call = rv(
        ExprKind::Call(
            Box::new(rv(ExprKind::Local(IrId { id: 5 }), u8t)),
            vec![
                rv(ExprKind::Literal(Value::U8(1)), u8t),
                rv(ExprKind::Local(IrId { id: 6 }), void),
                rv(ExprKind::Literal(Value::U8(2)), u8t),
            ],
        ),
        u8t,
    );
    let mut w = FunctionWriter::new(false);
    w.write_expr(&ir, &call, false).unwrap();
    let mut out = String::new();
    w.write(&mut out);
    assert_eq!(out.as_str(), "_5(((uint8_t)1), ((uint8_t)2))");
}

/// `fn f() -> ()` emits return type `void` and no `return` at its tail.
#[test]
fn zero_sized_return_emits_void_and_no_return() {
    let mut ir = IrCtx::new();
    let void = ir.intern_type(Ty::Tuple(0));
    let f = Function {
        name: Some("f".to_string()),
        attributes: vec![],
        args: vec![],
        return_type: void,
        body: Some(FuncBody {
            local_defs: vec![],
            statements: vec![Statement::Expression(rv(ExprKind::Void, void))],
            raw_body: None,
        }),
        varargs: false,
    };
    let mut w = FunctionWriter::new(false);
    w.write_function_body(&ir, 3, &f).unwrap();
    let mut out = String::new();
    w.write(&mut out);
    assert!(out.contains("void _3()"));
    assert!(!out.contains("return"));
}

/// `fn g(x: !)` emits a body containing exactly `__builtin_unreachable();`.
#[test]
fn never_parameter_body_is_unreachable() {
    let mut ir = IrCtx::new();
    let never = ir.intern_type(Ty::Builtin(BuiltinType::Never));
    let g = Function {
        name: Some("g".to_string()),
        attributes: vec![],
        args: vec![Parameter { id: IrId { id: 1 }, ty: never }],
        return_type: never,
        body: Some(FuncBody {
            local_defs: vec![],
            statements: vec![],
            raw_body: None,
        }),
        varargs: false,
    };
    let mut w = FunctionWriter::new(false);
    w.write_function_body(&ir, 4, &g).unwrap();
    let mut out = String::new();
    w.write(&mut out);
    assert!(out.contains("{\n  __builtin_unreachable();\n}"));
}

#[test]
fn zero_sized_if_lowers_to_a_statement() {
    let mut ir = IrCtx::new();
    let void = ir.intern_type(Ty::Tuple(0));
    let boolt = ir.intern_type(Ty::Builtin(BuiltinType::Bool));
    let e = rv(
        ExprKind::If(
            Box::new(rv(ExprKind::Literal(Value::Bool(true)), boolt)),
            Box::new(rv(ExprKind::Void, void)),
            Box::new(rv(ExprKind::Void, void)),
            None,
        ),
        void,
    );
    let mut w = FunctionWriter::new(false);
    w.write_expr(&ir, &e, false).unwrap();
    let mut out = String::new();
    w.write(&mut out);
    assert!(out.starts_with("if (((_Bool)1)) {"));
    assert!(!out.contains("?"));
}

#[test]
fn sized_if_lowers_to_the_ternary_operator() {
    let mut ir = IrCtx::new();
    let boolt = ir.intern_type(Ty::Builtin(BuiltinType::Bool));
    let u8t = ir.intern_type(Ty::Builtin(BuiltinType::U8));
    let e = rv(
        ExprKind::If(
            Box::new(rv(ExprKind::Literal(Value::Bool(false)), boolt)),
            Box::new(rv(ExprKind::Literal(Value::U8(1)), u8t)),
            Box::new(rv(ExprKind::Literal(Value::U8(2)), u8t)),
            None,
        ),
        u8t,
    );
    let mut w = FunctionWriter::new(false);
    w.write_expr(&ir, &e, false).unwrap();
    let mut out = String::new();
    w.write(&mut out);
    assert_eq!(out.as_str(), "(((_Bool)0)?((uint8_t)1):((uint8_t)2))");
}

#[test]
fn binary_operations_cast_back_to_their_type() {
    let mut ir = IrCtx::new();
    let u8t = ir.intern_type(Ty::Builtin(BuiltinType::U8));
    let e = rv(
        ExprKind::Binary(
            alumina_boot::ast::BinOp::Plus,
            Box::new(rv(ExprKind::Literal(Value::U8(1)), u8t)),
            Box::new(rv(ExprKind::Literal(Value::U8(2)), u8t)),
        ),
        u8t,
    );
    let mut w = FunctionWriter::new(false);
    w.write_expr(&ir, &e, false).unwrap();
    let mut out = String::new();
    w.write(&mut out);
    assert_eq!(out.as_str(), "(uint8_t)(((uint8_t)1)+((uint8_t)2))");
}

#[test]
fn const_eval_only_intrinsics_never_reach_emission() {
    let mut ir = IrCtx::new();
    let u8t = ir.intern_type(Ty::Builtin(BuiltinType::U8));
    let e = rv(
        ExprKind::Intrinsic(alumina_boot::ir::IntrinsicValueKind::ConstPanic),
        u8t,
    );
    let mut w = FunctionWriter::new(false);
    assert!(w.write_expr(&ir, &e, false).is_err());
    let mut out = String::new();
    w.write(&mut out);
    assert_eq!(out.as_str(), "");
}

/// Line directives are present exactly in debug mode, once per new line.
#[test]
fn debug_mode_emits_line_directives() {
    let mut ir = IrCtx::new();
    let void = ir.intern_type(Ty::Tuple(0));
    let u8t = ir.intern_type(Ty::Builtin(BuiltinType::U8));
    let sp = alumina_boot::Span { file: 0, start: 0, line: 41, column: 0 };
    let stmt = |span| Statement::Expression(Expr {
        value_type: alumina_boot::ir::ValueType::RValue,
        is_const: false,
        kind: ExprKind::Literal(Value::U8(1)),
        span,
        ty: u8t,
    });
    let f = Function {
        name: Some("f".to_string()),
        attributes: vec![],
        args: vec![],
        return_type: void,
        body: Some(FuncBody {
            local_defs: vec![],
            statements: vec![stmt(Some(sp)), stmt(Some(sp))],
            raw_body: None,
        }),
        varargs: false,
    };
    let mut w = FunctionWriter::new(true);
    w.write_function_body(&ir, 3, &f).unwrap();
    let mut out = String::new();
    w.write(&mut out);
    assert_eq!(out.matches("\n#line 42\n").count(), 1);
    let mut w3 = FunctionWriter::new(true);
    w3.file_paths.push("src/x.alu".to_string());
    w3.write_function_body(&ir, 3, &f).unwrap();
    let mut out3 = String::new();
    w3.write(&mut out3);
    assert_eq!(out3.matches("\n#line 42 \"src/x.alu\"\n").count(), 1);
    let mut w2 = FunctionWriter::new(false);
    w2.write_function_body(&ir, 3, &f).unwrap();
    let mut out2 = String::new();
    w2.write(&mut out2);
    assert!(!out2.contains("#line"));
}
