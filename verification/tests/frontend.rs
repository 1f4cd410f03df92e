use alumina_boot::ast::{AstCtx, Attribute, MacroParameter, Placeholder};
use alumina_boot::cli::{infer_module_name, parse_cfg, parse_module, sysroot_module_path};
use alumina_boot::diag::{DiagCtx, ErrorKind};
use alumina_boot::fmt::{parse_fmt, Piece};
use alumina_boot::global::{GlobalCtx, OutputType};
use alumina_boot::macros::MacroMaker;
use alumina_boot::maker::{
    Abi, AstItemMaker, FunctionDecl, Group, NamedItem, NamedItemKind, StaticConstDecl, StructDecl,
};
use alumina_boot::pass1::FirstPassVisitor;
use alumina_boot::visitors::{AttributeVisitor, CfgVisitor, MetaItem};

fn meta(name: &str) -> MetaItem {
    MetaItem { name: name.to_string(), args: vec![], value: None }
}

fn meta_args(name: &str, args: Vec<MetaItem>) -> MetaItem {
    MetaItem { name: name.to_string(), args, value: None }
}

fn plain_function(body: bool) -> FunctionDecl {
    FunctionDecl {
        name: Some("f".to_string()),
        placeholders: vec![],
        parameters: vec![],
        return_type: None,
        body: if body {
            Some(alumina_boot::ast::Expr { kind: alumina_boot::ast::ExprKind::Void, span: None })
        } else {
            None
        },
        attributes: vec![],
        is_extern: false,
        abi: Abi::C,
        varargs: false,
        is_protocol_fn: false,
        span: None,
    }
}

#[test]
fn exported_main_is_not_the_entry_point() {
    let mut v = FirstPassVisitor::with_main(false);
    let r = v.visit_function_definition(0, "main", &vec![Attribute::Export], true);
    assert!(r.is_ok());
    assert_eq!(v.main_candidate(), None);
    let r2 = v.visit_function_definition(1, "main", &vec![Attribute::LinkName(b"m".to_vec())], true);
    assert!(r2.is_ok());
    assert_eq!(v.main_candidate(), None);
    let r3 = v.visit_function_definition(2, "main", &vec![], true);
    assert!(r3.is_ok());
    assert_eq!(v.main_candidate(), Some(2));
}

#[test]
fn two_main_functions_are_a_hard_error() {
    let mut v = FirstPassVisitor::with_main(false);
    v.visit_function_definition(0, "main", &vec![], true).unwrap();
    let r = v.visit_function_definition(1, "main", &vec![], true);
    assert_eq!(r.unwrap_err(), ErrorKind::MultipleMainFunctions);
}

#[test]
fn two_test_mains_are_a_hard_error() {
    let mut v = FirstPassVisitor::with_main(true);
    v.visit_function_definition(0, "a", &vec![Attribute::TestMain], true).unwrap();
    let r = v.visit_function_definition(1, "b", &vec![Attribute::TestMain], true);
    assert_eq!(r.unwrap_err(), ErrorKind::MultipleMainFunctions);
}

#[test]
fn varargs_need_extern() {
    let mut ctx = AstCtx::new();
    let mut diag = DiagCtx::new();
    let mut maker = AstItemMaker::new();
    let sym = ctx.make_symbol();
    let mut d = plain_function(true);
    d.varargs = true;
    let r = maker.make_function(&mut ctx, &mut diag, sym, d);
    assert_eq!(r.unwrap_err(), ErrorKind::VarArgsCanOnlyBeExtern);
}

#[test]
fn plain_functions_need_a_body() {
    let mut ctx = AstCtx::new();
    let mut diag = DiagCtx::new();
    let mut maker = AstItemMaker::new();
    let sym = ctx.make_symbol();
    let r = maker.make_function(&mut ctx, &mut diag, sym, plain_function(false));
    assert_eq!(r.unwrap_err(), ErrorKind::FunctionMustHaveBody);
}

#[test]
fn extern_functions_cannot_be_generic() {
    let mut ctx = AstCtx::new();
    let mut diag = DiagCtx::new();
    let mut maker = AstItemMaker::new();
    let sym = ctx.make_symbol();
    let mut d = plain_function(false);
    d.is_extern = true;
    d.placeholders = vec![Placeholder { id: ctx.make_id(), default: None, bounds: vec![], span: None }];
    let r = maker.make_function(&mut ctx, &mut diag, sym, d);
    assert_eq!(r.unwrap_err(), ErrorKind::ExternCGenericParams);
}

#[test]
fn unknown_intrinsics_are_rejected() {
    let mut ctx = AstCtx::new();
    let mut diag = DiagCtx::new();
    let mut maker = AstItemMaker::new();
    let sym = ctx.make_symbol();
    let mut d = plain_function(false);
    d.abi = Abi::Intrinsic;
    d.name = Some("frobnicate".to_string());
    let r = maker.make_function(&mut ctx, &mut diag, sym, d);
    assert_eq!(r.unwrap_err(), ErrorKind::UnknownIntrinsic);
    let mut d2 = plain_function(false);
    d2.abi = Abi::Intrinsic;
    d2.name = Some("size_of".to_string());
    let sym2 = ctx.make_symbol();
    assert!(maker.make_function(&mut ctx, &mut diag, sym2, d2).is_ok());
}

#[test]
fn extern_statics_need_a_type_and_no_initializer() {
    let mut ctx = AstCtx::new();
    let mut maker = AstItemMaker::new();
    let base = StaticConstDecl {
        name: Some("s".to_string()),
        typ: None,
        init: None,
        placeholders: vec![],
        attributes: vec![],
        is_extern: false,
        span: None,
    };
    let sym = ctx.make_symbol();
    let mut d = StaticConstDecl { is_extern: true, ..clone_static(&base) };
    d.typ = None;
    let r = maker.make_static_or_const(&mut ctx, false, sym, d);
    assert_eq!(r.unwrap_err(), ErrorKind::TypeHintRequired);
    let sym2 = ctx.make_symbol();
    let mut d2 = clone_static(&base);
    d2.is_extern = true;
    d2.typ = Some(ctx.intern_type(alumina_boot::ast::Ty::Builtin(
        alumina_boot::ast::BuiltinType::U8,
    )));
    d2.init = Some(alumina_boot::ast::Expr {
        kind: alumina_boot::ast::ExprKind::Void,
        span: None,
    });
    let r2 = maker.make_static_or_const(&mut ctx, false, sym2, d2);
    assert_eq!(r2.unwrap_err(), ErrorKind::ExternStaticMustHaveType);
}

fn clone_static(d: &StaticConstDecl) -> StaticConstDecl {
    StaticConstDecl {
        name: d.name.clone(),
        typ: d.typ,
        init: None,
        placeholders: vec![],
        attributes: vec![],
        is_extern: d.is_extern,
        span: d.span,
    }
}

#[test]
fn transparent_needs_exactly_one_field() {
    let mut ctx = AstCtx::new();
    let mut maker = AstItemMaker::new();
    let sym = ctx.make_symbol();
    let d = StructDecl {
        name: Some("w".to_string()),
        placeholders: vec![],
        fields: vec![],
        is_union: false,
        span: None,
    };
    let r = maker.make_struct_like(&mut ctx, sym, d, vec![Attribute::Transparent], vec![], vec![]);
    assert_eq!(r.unwrap_err(), ErrorKind::InvalidTransparent);
}

#[test]
fn free_standing_impls_are_rejected() {
    let mut ctx = AstCtx::new();
    let mut diag = DiagCtx::new();
    let mut maker = AstItemMaker::new();
    let group = Group {
        name: Some("lonely".to_string()),
        items: vec![NamedItem {
            kind: NamedItemKind::Impl(vec![], vec![]),
            attributes: vec![],
        }],
    };
    let r = maker.make_item_group(&mut ctx, &mut diag, group, 4);
    assert_eq!(r.unwrap_err(), ErrorKind::NoFreeStandingImpl);
}

#[test]
fn two_et_cetera_parameters_are_rejected() {
    let mut ctx = AstCtx::new();
    let mut mm = MacroMaker::new();
    let sym = ctx.make_symbol();
    let p1 = MacroParameter { id: ctx.make_id(), et_cetera: true, span: None };
    let p2 = MacroParameter { id: ctx.make_id(), et_cetera: true, span: None };
    let body = alumina_boot::ast::Expr {
        kind: alumina_boot::ast::ExprKind::Void,
        span: None,
    };
    let r = mm.make(&mut ctx, Some("m".to_string()), sym, vec![p1, p2], body, &vec![], None);
    assert_eq!(r.unwrap_err(), ErrorKind::MultipleEtCeteras);
}

#[test]
fn unknown_builtin_macro_names_are_rejected() {
    let mut ctx = AstCtx::new();
    let mut mm = MacroMaker::new();
    let sym = ctx.make_symbol();
    let body = alumina_boot::ast::Expr {
        kind: alumina_boot::ast::ExprKind::Void,
        span: None,
    };
    let r = mm.make(
        &mut ctx,
        Some("mystery".to_string()),
        sym,
        vec![],
        body,
        &vec![Attribute::Builtin],
        None,
    );
    assert_eq!(r.unwrap_err(), ErrorKind::UnknownBuiltinMacro);
}

#[test]
fn cfg_evaluation_follows_the_dsl() {
    let mut global = GlobalCtx::new(OutputType::Executable);
    global.add_flag("debug".to_string());
    global.add_cfg("target".to_string(), "linux".to_string());
    let mut v = CfgVisitor::new();
    assert_eq!(v.visit_meta_item(&global, &meta("debug")).unwrap(), true);
    assert_eq!(v.visit_meta_item(&global, &meta("release")).unwrap(), false);
    let mut tl = meta("target");
    tl.value = Some("linux".to_string());
    assert_eq!(v.visit_meta_item(&global, &tl).unwrap(), true);
    let mut tw = meta("target");
    tw.value = Some("windows".to_string());
    assert_eq!(v.visit_meta_item(&global, &tw).unwrap(), false);
    let all = meta_args("all", vec![meta("debug"), meta("release")]);
    assert_eq!(v.visit_meta_item(&global, &all).unwrap(), false);
    let any = meta_args("any", vec![meta("release"), meta("debug")]);
    assert_eq!(v.visit_meta_item(&global, &any).unwrap(), true);
    let not = meta_args("not", vec![meta("release")]);
    assert_eq!(v.visit_meta_item(&global, &not).unwrap(), true);
    let bad = meta_args("not", vec![meta("a"), meta("b")]);
    assert_eq!(bad.args.len(), 2);
    assert_eq!(v.visit_meta_item(&global, &bad).unwrap_err(), ErrorKind::InvalidAttribute);
}

#[test]
fn align_must_be_a_power_of_two() {
    let mut global = GlobalCtx::new(OutputType::Executable);
    let mut ctx = AstCtx::new();
    let r = AttributeVisitor::parse_attributes(
        &mut global,
        &mut ctx,
        None,
        &vec![meta_args("align", vec![meta("3")])],
        None,
    );
    assert_eq!(r.unwrap_err(), ErrorKind::InvalidAttribute);
    let ok = AttributeVisitor::parse_attributes(
        &mut global,
        &mut ctx,
        None,
        &vec![meta_args("align", vec![meta("8")])],
        None,
    )
    .unwrap()
    .unwrap();
    assert_eq!(ok, vec![Attribute::Align(8)]);
}

#[test]
fn lang_attribute_registers_the_item() {
    let mut global = GlobalCtx::new(OutputType::Executable);
    let mut ctx = AstCtx::new();
    let sym = ctx.make_symbol();
    let ok = AttributeVisitor::parse_attributes(
        &mut global,
        &mut ctx,
        Some(sym),
        &vec![meta_args("lang", vec![meta("dyn_self")])],
        None,
    );
    assert!(ok.is_ok());
    assert_eq!(
        ctx.lang_item_kind(sym),
        Some(alumina_boot::ast::LangItemKind::DynSelf)
    );
    let unknown = AttributeVisitor::parse_attributes(
        &mut global,
        &mut ctx,
        Some(sym),
        &vec![meta_args("lang", vec![meta("mystery")])],
        None,
    );
    assert_eq!(unknown.unwrap_err(), ErrorKind::UnknownLangItem);
    let no_item = AttributeVisitor::parse_attributes(
        &mut global,
        &mut ctx,
        None,
        &vec![meta_args("lang", vec![meta("dyn_self")])],
        None,
    );
    assert_eq!(no_item.unwrap_err(), ErrorKind::CannotBeALangItem);
}

#[test]
fn empty_cfg_combinators_keep_their_identities() {
    let global = GlobalCtx::new(OutputType::Executable);
    let mut v = CfgVisitor::new();
    assert_eq!(v.visit_meta_item(&global, &meta_args("all", vec![])).unwrap(), true);
    assert_eq!(v.visit_meta_item(&global, &meta_args("any", vec![])).unwrap(), false);
    assert_eq!(
        v.visit_meta_item(&global, &meta("not")).unwrap_err(),
        ErrorKind::InvalidAttribute
    );
    assert_eq!(
        v.visit_meta_item(&global, &meta("cfg")).unwrap_err(),
        ErrorKind::InvalidAttribute
    );
}

#[test]
fn large_alignments_parse_to_the_full_usize_range() {
    let mut global = GlobalCtx::new(OutputType::Executable);
    let mut ctx = AstCtx::new();
    let ok = AttributeVisitor::parse_attributes(
        &mut global,
        &mut ctx,
        None,
        &vec![meta_args("align", vec![meta("1048576")])],
        None,
    )
    .unwrap()
    .unwrap();
    assert_eq!(ok, vec![Attribute::Align(1048576)]);
}

#[test]
fn align_one_merely_warns() {
    let mut global = GlobalCtx::new(OutputType::Executable);
    let mut ctx = AstCtx::new();
    let ok = AttributeVisitor::parse_attributes(
        &mut global,
        &mut ctx,
        None,
        &vec![meta_args("align", vec![meta("1")])],
        None,
    )
    .unwrap()
    .unwrap();
    assert_eq!(ok.len(), 0);
    assert_eq!(global.diag.warnings.len(), 1);
    assert_eq!(global.diag.warnings[0].kind, ErrorKind::Align1);
}

#[test]
fn align_and_packed_exclude_each_other() {
    let mut global = GlobalCtx::new(OutputType::Executable);
    let mut ctx = AstCtx::new();
    let r = AttributeVisitor::parse_attributes(
        &mut global,
        &mut ctx,
        None,
        &vec![meta("packed"), meta_args("align", vec![meta("8")])],
        None,
    );
    assert_eq!(r.unwrap_err(), ErrorKind::AlignAndPacked);
}

#[test]
fn duplicate_attributes_are_rejected() {
    let mut global = GlobalCtx::new(OutputType::Executable);
    let mut ctx = AstCtx::new();
    let r = AttributeVisitor::parse_attributes(&mut global, &mut ctx, None, &vec![meta("cold"), meta("cold")], None);
    assert_eq!(r.unwrap_err(), ErrorKind::DuplicateAttribute);
}

#[test]
fn cfg_gates_the_whole_item() {
    let mut global = GlobalCtx::new(OutputType::Executable);
    let mut ctx = AstCtx::new();
    let r = AttributeVisitor::parse_attributes(
        &mut global,
        &mut ctx,
        None,
        &vec![meta_args("cfg", vec![meta("never_set")]), meta("cold")],
        None,
    )
    .unwrap();
    assert!(r.is_none());
}

#[test]
fn thread_local_needs_the_threading_flag() {
    let mut global = GlobalCtx::new(OutputType::Executable);
    let mut ctx = AstCtx::new();
    let off = AttributeVisitor::parse_attributes(&mut global, &mut ctx, None, &vec![meta("thread_local")], None)
        .unwrap()
        .unwrap();
    assert_eq!(off.len(), 0);
    global.add_flag("threading".to_string());
    let on = AttributeVisitor::parse_attributes(&mut global, &mut ctx, None, &vec![meta("thread_local")], None)
        .unwrap()
        .unwrap();
    assert_eq!(on, vec![Attribute::ThreadLocal]);
}

#[test]
fn format_strings_split_into_pieces() {
    let pieces = parse_fmt(&b"a{}b{1}".to_vec(), 2).unwrap();
    assert_eq!(pieces.len(), 4);
    match &pieces[0] {
        Piece::Text(t) => assert_eq!(t, &b"a".to_vec()),
        _ => panic!("expected text"),
    }
    match &pieces[1] {
        Piece::Argument(i) => assert_eq!(*i, 0),
        _ => panic!("expected a hole"),
    }
    match &pieces[3] {
        Piece::Argument(i) => assert_eq!(*i, 1),
        _ => panic!("expected a hole"),
    }
    assert_eq!(
        parse_fmt(&b"{2}".to_vec(), 2).unwrap_err(),
        ErrorKind::InvalidFormatString
    );
    assert_eq!(
        parse_fmt(&b"{".to_vec(), 2).unwrap_err(),
        ErrorKind::InvalidFormatString
    );
}

#[test]
fn module_arguments_split_at_the_first_equals() {
    let (module, file) = parse_module("std::io=io.alu");
    assert_eq!(module.as_deref(), Some("std::io"));
    assert_eq!(file.as_str(), "io.alu");
    let (module2, file2) = parse_module("main.alu");
    assert!(module2.is_none());
    assert_eq!(file2.as_str(), "main.alu");
}

#[test]
fn cfg_arguments_split_at_the_first_equals() {
    let (k, v) = parse_cfg("target=linux");
    assert_eq!(k.as_str(), "target");
    assert_eq!(v.as_deref(), Some("linux"));
    let (k2, v2) = parse_cfg("debug");
    assert_eq!(k2.as_str(), "debug");
    assert!(v2.is_none());
}

#[test]
fn module_names_come_from_the_file_stem() {
    assert_eq!(infer_module_name("dir/sub/mod.alu").as_str(), "mod");
    assert_eq!(infer_module_name("plain.alu").as_str(), "plain");
    assert_eq!(infer_module_name("noext").as_str(), "noext");
}

#[test]
fn sysroot_paths_bind_root_files_to_their_module() {
    let segs = vec!["std".to_string(), "io".to_string(), "file.alu".to_string()];
    assert_eq!(sysroot_module_path(&segs, "__root__").as_str(), "::std::io::file");
    let root = vec!["std".to_string(), "__root__.alu".to_string()];
    assert_eq!(sysroot_module_path(&root, "__root__").as_str(), "::std");
    let top = vec!["__root__.alu".to_string()];
    assert_eq!(sysroot_module_path(&top, "__root__").as_str(), "::");
}

#[test]
fn making_a_macro_twice_is_idempotent() {
    let mut ctx = AstCtx::new();
    let mut mm = MacroMaker::new();
    let sym = ctx.make_symbol();
    let body = alumina_boot::ast::Expr {
        kind: alumina_boot::ast::ExprKind::Void,
        span: None,
    };
    let body2 = alumina_boot::ast::Expr {
        kind: alumina_boot::ast::ExprKind::Void,
        span: None,
    };
    assert!(mm.make(&mut ctx, Some("m".to_string()), sym, vec![], body, &vec![], None).is_ok());
    assert!(mm.make(&mut ctx, Some("m".to_string()), sym, vec![], body2, &vec![], None).is_ok());
}

#[test]
fn associated_function_shadowing_warns_once_per_duplicate() {
    let mut diag = DiagCtx::new();
    let maker = AstItemMaker::new();
    let fns = vec![
        alumina_boot::ast::AssociatedFn { name: "f".to_string(), item: 0 },
        alumina_boot::ast::AssociatedFn { name: "g".to_string(), item: 1 },
        alumina_boot::ast::AssociatedFn { name: "f".to_string(), item: 2 },
    ];
    let r = maker.resolve_associated_items(&mut diag, fns);
    assert_eq!(r.len(), 3);
    assert_eq!(diag.warnings.len(), 1);
    assert_eq!(diag.warnings[0].kind, ErrorKind::DuplicateNameShadow);
}
