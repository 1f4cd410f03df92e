use vstd::prelude::*;
use crate::Span;
use crate::ast::{
    copy_vec, expr_clone, exprs_clone, expr_view, exprs_view, fieldinits_clone, lit_clone,
    opt_expr_clone, stmts_clone, AstCtx, AstId, BuiltinMacro, BuiltinMacroKind, Expr, ExprKind,
    FieldInitializer, Item, ItemRef, LetDeclaration, Lit, Macro, MacroParameter, Statement,
    Attribute, TyRef,
};
use crate::diag::ErrorKind;
use crate::fmt::{parse_fmt, Piece};
use crate::global::GlobalCtx;
use crate::text::str_eq;

verus! {

/// Whether the code being visited sits inside a macro definition, and
/// whether that macro has an et-cetera parameter.
#[derive(Clone, Copy, PartialEq, Eq, Structural, Debug)]
pub struct MacroCtx {
    pub in_a_macro: bool,
    pub has_et_cetera: bool,
}

impl MacroCtx {
    pub fn none() -> (r: MacroCtx)
        ensures
            r.in_a_macro == false,
            r.has_et_cetera == false,
    {
        MacroCtx { in_a_macro: false, has_et_cetera: false }
    }

    pub fn for_macro(has_et_cetera: bool) -> (r: MacroCtx)
        ensures
            r.in_a_macro == true,
            r.has_et_cetera == has_et_cetera,
    {
        MacroCtx { in_a_macro: true, has_et_cetera }
    }
}

/// The builtin a macro name with the `builtin` attribute binds to.
pub open spec fn builtin_kind_of(name: Seq<char>) -> Option<BuiltinMacroKind> {
    if name == "env"@ {
        Some(BuiltinMacroKind::Env)
    } else if name == "include_bytes"@ {
        Some(BuiltinMacroKind::IncludeBytes)
    } else if name == "concat"@ {
        Some(BuiltinMacroKind::Concat)
    } else if name == "line"@ {
        Some(BuiltinMacroKind::Line)
    } else if name == "column"@ {
        Some(BuiltinMacroKind::Column)
    } else if name == "file"@ {
        Some(BuiltinMacroKind::File)
    } else if name == "format_args"@ {
        Some(BuiltinMacroKind::FormatArgs)
    } else if name == "bind"@ {
        Some(BuiltinMacroKind::Bind)
    } else if name == "reduce"@ {
        Some(BuiltinMacroKind::Reduce)
    } else if name == "stringify"@ {
        Some(BuiltinMacroKind::Stringify)
    } else {
        None
    }
}

/// Looks a builtin macro name up.
pub fn builtin_macro_kind(name: &str) -> (r: Option<BuiltinMacroKind>)
    ensures
        r == builtin_kind_of(name@),
{
    if str_eq(name, "env") {
        Some(BuiltinMacroKind::Env)
    } else if str_eq(name, "include_bytes") {
        Some(BuiltinMacroKind::IncludeBytes)
    } else if str_eq(name, "concat") {
        Some(BuiltinMacroKind::Concat)
    } else if str_eq(name, "line") {
        Some(BuiltinMacroKind::Line)
    } else if str_eq(name, "column") {
        Some(BuiltinMacroKind::Column)
    } else if str_eq(name, "file") {
        Some(BuiltinMacroKind::File)
    } else if str_eq(name, "format_args") {
        Some(BuiltinMacroKind::FormatArgs)
    } else if str_eq(name, "bind") {
        Some(BuiltinMacroKind::Bind)
    } else if str_eq(name, "reduce") {
        Some(BuiltinMacroKind::Reduce)
    } else if str_eq(name, "stringify") {
        Some(BuiltinMacroKind::Stringify)
    } else {
        None
    }
}

/// Whether a parameter list carries more than one et-cetera parameter.
pub open spec fn multiple_et_ceteras(params: Seq<MacroParameter>, n: int) -> bool
    decreases n,
{
    if n <= 0 || n > params.len() {
        false
    } else {
        multiple_et_ceteras(params, n - 1) || (params[n - 1].et_cetera && exists|j: int|
            0 <= j < n - 1 && params[j].et_cetera)
    }
}

/// Two et-cetera parameters among the first `i` are still two among the
/// first `n`.
pub proof fn lemma_multiple_et_ceteras_mono(params: Seq<MacroParameter>, i: int, n: int)
    requires
        0 <= i <= n <= params.len(),
        multiple_et_ceteras(params, i),
    ensures
        multiple_et_ceteras(params, n),
    decreases n,
{
    if n > i {
        lemma_multiple_et_ceteras_mono(params, i, n - 1);
    }
}

/// Builds macro items.  A macro with the `builtin` attribute becomes a
/// builtin macro; a user macro is assigned in two steps so that a
/// reference to the macro from its own body is detected as recursion.
pub struct MacroMaker {
}

impl MacroMaker {
    pub fn new() -> (r: MacroMaker) {
        MacroMaker {  }
    }

    /// Materializes one macro item.  Making an already made macro again is
    /// fine; making one whose body is still pending is a recursive call.
    /// On a fresh cell, a `builtin` macro is assigned its builtin kind and a
    /// user macro its parameters and body (assigned in two steps, so that
    /// recursion during body construction is detectable).
    pub fn make(
        &mut self,
        ctx: &mut AstCtx,
        name: Option<String>,
        symbol: ItemRef,
        params: Vec<MacroParameter>,
        body: Expr,
        attributes: &Vec<Attribute>,
        span: Option<Span>,
    ) -> (r: Result<(), ErrorKind>)
        ensures
            final(ctx).extends(*old(ctx)),
            old(ctx).wf() ==> final(ctx).wf(),
            (symbol as int) >= old(ctx).items@.len() ==> r == Err::<(), _>(
                ErrorKind::InternalError,
            ) && final(ctx).items@ == old(ctx).items@,
            (symbol as int) < old(ctx).items@.len() ==> match old(
                ctx,
            ).items@[symbol as int].contents {
                Some(Item::Macro(m)) => final(ctx).items@ == old(ctx).items@ && (if m.body
                    is Some {
                    r == Ok::<(), ErrorKind>(())
                } else {
                    r == Err::<(), ErrorKind>(ErrorKind::RecursiveMacroCall)
                }),
                Some(Item::BuiltinMacro(_)) => final(ctx).items@ == old(ctx).items@ && r
                    == Ok::<(), ErrorKind>(()),
                Some(_) => final(ctx).items@ == old(ctx).items@ && r == Err::<(), ErrorKind>(
                    ErrorKind::InternalError,
                ),
                None => {
                    if crate::maker::has_attr(attributes@, Attribute::Builtin) {
                        match name {
                            Some(n) => match builtin_kind_of(n@) {
                                Some(kind) => r == Ok::<(), ErrorKind>(()) && final(ctx).items@
                                    == old(ctx).items@.update(
                                    symbol as int,
                                    crate::ast::ItemCell {
                                        id: old(ctx).items@[symbol as int].id,
                                        contents: Some(
                                            Item::BuiltinMacro(BuiltinMacro { kind, span }),
                                        ),
                                    },
                                ),
                                None => r == Err::<(), ErrorKind>(ErrorKind::UnknownBuiltinMacro)
                                    && final(ctx).items@ == old(ctx).items@,
                            },
                            None => r == Err::<(), ErrorKind>(ErrorKind::UnknownBuiltinMacro)
                                && final(ctx).items@ == old(ctx).items@,
                        }
                    } else {
                        if multiple_et_ceteras(params@, params@.len() as int) {
                            r == Err::<(), ErrorKind>(ErrorKind::MultipleEtCeteras) && final(ctx).items@ == old(ctx).items@
                        } else {
                            r == Ok::<(), ErrorKind>(()) && final(ctx).items@ == old(
                                ctx,
                            ).items@.update(
                                symbol as int,
                                crate::ast::ItemCell {
                                    id: old(ctx).items@[symbol as int].id,
                                    contents: Some(
                                        Item::Macro(
                                            Macro {
                                                name,
                                                args: params,
                                                body: Some(body),
                                                span,
                                            },
                                        ),
                                    ),
                                },
                            )
                        }
                    }
                },
            },
    {
        if symbol >= ctx.items.len() {
            return Err(ErrorKind::InternalError);
        }
        let already = match ctx.get(symbol) {
            Ok(Item::Macro(m)) => Some(m.body.is_some()),
            Ok(Item::BuiltinMacro(_)) => Some(true),
            Ok(_) => None,
            Err(_) => Some(false),
        };
        match already {
            Some(true) => {
                return Ok(());
            },
            Some(false) => {},
            None => {
                return Err(ErrorKind::InternalError);
            },
        }
        // A populated cell that is a macro without a body means we are
        // being asked to make the macro while already making it.
        let pending = match ctx.get(symbol) {
            Ok(Item::Macro(m)) => m.body.is_none(),
            _ => false,
        };
        if pending {
            return Err(ErrorKind::RecursiveMacroCall);
        }
        let mut is_builtin = false;
        let nattrs = attributes.len();
        let mut i: usize = 0;
        while i < nattrs
            invariant
                i <= nattrs,
                nattrs == attributes@.len(),
                is_builtin == exists|k: int| 0 <= k < i && attributes@[k] == Attribute::Builtin,
            decreases nattrs - i,
        {
            match &attributes[i] {
                Attribute::Builtin => {
                    is_builtin = true;
                },
                _ => {},
            }
            i = i + 1;
        }
        proof {
            assert(is_builtin == crate::maker::has_attr(attributes@, Attribute::Builtin));
        }
        if is_builtin {
            let kind = match &name {
                Some(n) => match builtin_macro_kind(n.as_str()) {
                    Some(k) => k,
                    None => {
                        return Err(ErrorKind::UnknownBuiltinMacro);
                    },
                },
                None => {
                    return Err(ErrorKind::UnknownBuiltinMacro);
                },
            };
            match ctx.assign(symbol, Item::BuiltinMacro(BuiltinMacro { kind, span })) {
                Ok(()) => Ok(()),
                Err(e) => Err(e),
            }
        } else {
            let n = params.len();
            let mut has_etc = false;
            let mut k: usize = 0;
            while k < n
                invariant
                    k <= n,
                    n == params@.len(),
                    has_etc == exists|j: int| 0 <= j < k && params@[j].et_cetera,
                    !multiple_et_ceteras(params@, k as int),
                    !crate::maker::has_attr(attributes@, Attribute::Builtin),
                    *ctx == *old(ctx),
                    (symbol as int) < old(ctx).items@.len(),
                    old(ctx).items@[symbol as int].contents is None,
                decreases n - k,
            {
                if params[k].et_cetera {
                    if has_etc {
                        proof {
                            lemma_multiple_et_ceteras_mono(params@, k + 1, n as int);
                        }
                        return Err(ErrorKind::MultipleEtCeteras);
                    }
                    has_etc = true;
                }
                k = k + 1;
            }
            let ghost items0 = ctx.items@;
            match ctx.assign(symbol, Item::Macro(Macro { name, args: params, body: None, span })) {
                Ok(()) => {},
                Err(e) => {
                    return Err(e);
                },
            }
            // Two-step assignment so that recursion during body construction
            // is detectable.
            let r = ctx.set_macro_body(symbol, body);
            proof {
                if r is Ok {
                    assert(ctx.items@ =~= old(ctx).items@.update(
                        symbol as int,
                        crate::ast::ItemCell {
                            id: old(ctx).items@[symbol as int].id,
                            contents: Some(
                                Item::Macro(Macro { name, args: params, body: Some(body), span }),
                            ),
                        },
                    ));
                }
            }
            match r {
                Ok(()) => Ok(()),
                Err(e) => Err(e),
            }
        }
    }
}

/// Expands one macro invocation.  The expander carries the bound arguments,
/// the α-renaming table for hygiene, and the current et-cetera splice
/// index; a fresh expander is made for each nested invocation, with a
/// smaller recursion budget.
pub struct MacroExpander {
    pub macro_item: ItemRef,
    pub args: Vec<Expr>,
    pub invocation_span: Option<Span>,
    pub replacements: Vec<(AstId, Expr)>,
    pub id_replacements: Vec<(AstId, AstId)>,
    pub et_cetera_arg: Option<(AstId, Vec<Expr>)>,
    pub et_cetera_index: Option<usize>,
    /// Remaining nesting budget; expanding past it reports
    /// `RecursiveMacroCall`.
    pub depth: usize,
}

/// Whether an expression view appears among the supplied arguments.
pub open spec fn from_args(v: crate::ast::ExprView, args: Seq<Expr>) -> bool {
    exists|i: int| 0 <= i < args.len() && expr_view(#[trigger] args[i]) == v
}

impl MacroExpander {
    /// Everything that identifies the expansion is unchanged; only the
    /// α-renaming table and the splice index evolve.
    pub open spec fn same_frame(w2: MacroExpander, w1: MacroExpander) -> bool {
        w2 == (MacroExpander {
            id_replacements: w2.id_replacements,
            et_cetera_index: w2.et_cetera_index,
            ..w1
        })
    }

    pub fn new(
        invocation_span: Option<Span>,
        macro_item: ItemRef,
        arguments: Vec<Expr>,
        depth: usize,
    ) -> (r: MacroExpander)
        ensures
            r.macro_item == macro_item,
            r.args == arguments,
            r.invocation_span == invocation_span,
            r.replacements@.len() == 0,
            r.id_replacements@.len() == 0,
            r.et_cetera_arg is None,
            r.et_cetera_index is None,
            r.depth == depth,
    {
        MacroExpander {
            macro_item,
            args: arguments,
            invocation_span,
            replacements: Vec::new(),
            id_replacements: Vec::new(),
            et_cetera_arg: None,
            et_cetera_index: None,
            depth,
        }
    }

    /// The bound argument an id is substituted by, if any.
    fn lookup_replacement(&self, id: AstId) -> (r: Option<&Expr>)
        ensures
            match r {
                Some(v) => find_repl(self.replacements@, id) == Some(*v) && exists|i: int|
                    0 <= i < self.replacements@.len() && (#[trigger] self.replacements@[i]).0 == id
                        && self.replacements@[i].1 == *v,
                None => find_repl(self.replacements@, id) is None,
            },
    {
        let n = self.replacements.len();
        let mut i: usize = 0;
        proof {
            assert(self.replacements@.skip(0) =~= self.replacements@);
        }
        while i < n
            invariant
                n == self.replacements@.len(),
                i <= n,
                find_repl(self.replacements@, id) == find_repl(
                    self.replacements@.skip(i as int),
                    id,
                ),
                forall|k: int| 0 <= k < i ==> (#[trigger] self.replacements@[k]).0 != id,
            decreases n - i,
        {
            proof {
                assert(self.replacements@.skip(i as int).len() > 0);
                assert(self.replacements@.skip(i as int)[0] == self.replacements@[i as int]);
                assert(self.replacements@.skip(i as int).drop_first() =~= self.replacements@.skip(
                    i + 1,
                ));
            }
            if self.replacements[i].0 == id {
                return Some(&self.replacements[i].1);
            }
            i = i + 1;
        }
        proof {
            assert(self.replacements@.skip(n as int).len() == 0);
        }
        None
    }

    /// The fresh id a let-bound id was renamed to, if any.
    fn lookup_id_replacement(&self, id: AstId) -> (r: Option<AstId>)
        ensures
            r == find_id_repl(self.id_replacements@, id),
    {
        let n = self.id_replacements.len();
        let mut i: usize = 0;
        proof {
            assert(self.id_replacements@.skip(0) =~= self.id_replacements@);
        }
        while i < n
            invariant
                n == self.id_replacements@.len(),
                i <= n,
                find_id_repl(self.id_replacements@, id) == find_id_repl(
                    self.id_replacements@.skip(i as int),
                    id,
                ),
            decreases n - i,
        {
            proof {
                assert(self.id_replacements@.skip(i as int).len() > 0);
                assert(self.id_replacements@.skip(i as int)[0]
                    == self.id_replacements@[i as int]);
                assert(self.id_replacements@.skip(i as int).drop_first()
                    =~= self.id_replacements@.skip(i + 1));
            }
            if self.id_replacements[i].0 == id {
                return Some(self.id_replacements[i].1);
            }
            i = i + 1;
        }
        proof {
            assert(self.id_replacements@.skip(n as int).len() == 0);
        }
        None
    }
}


/// A file path as the bytes of a string literal, character by character.
pub open spec fn path_bytes(s: Seq<char>) -> Seq<u8> {
    Seq::new(s.len(), |i: int| s[i] as u8)
}

/// Renders a file path as literal bytes.
pub fn path_to_bytes(s: &str) -> (r: Vec<u8>)
    ensures
        r@ == path_bytes(s@),
{
    let n = s.unicode_len();
    let mut out: Vec<u8> = Vec::new();
    let mut i: usize = 0;
    while i < n
        invariant
            n == s@.len(),
            i <= n,
            out@.len() == i,
            forall|k: int| 0 <= k < i ==> out@[k] == (s@[k] as u8),
        decreases n - i,
    {
        let c = s.get_char(i);
        out.push(#[verifier::truncate] (c as u8));
        i = i + 1;
    }
    proof {
        assert(out@ =~= path_bytes(s@));
    }
    out
}

/// The byte concatenation of the first `n` arguments, when they are all
/// constant strings.
pub open spec fn concat_strs(args: Seq<Expr>, n: int) -> Option<Seq<u8>>
    decreases n,
{
    if n <= 0 || n > args.len() {
        Some(Seq::empty())
    } else {
        match concat_strs(args, n - 1) {
            None => None,
            Some(prefix) => match args[n - 1].kind {
                ExprKind::Lit(Lit::Str(bytes)) => Some(prefix + bytes@),
                _ => None,
            },
        }
    }
}

/// What expanding a builtin macro returns, for each builtin and argument
/// shape (see the builtin table of the macro expander).
pub open spec fn builtin_post(
    kind: BuiltinMacroKind,
    args: Seq<Expr>,
    span: Option<Span>,
    global: GlobalCtx,
    r: Result<Expr, ErrorKind>,
) -> bool {
    match kind {
        BuiltinMacroKind::Concat => match concat_strs(args, args.len() as int) {
            Some(bytes) => match r {
                Ok(e) => e.span == span && match e.kind {
                    ExprKind::Lit(Lit::Str(b)) => b@ == bytes,
                    _ => false,
                },
                Err(_) => false,
            },
            None => r == Err::<Expr, _>(ErrorKind::ConstantStringExpected),
        },
        BuiltinMacroKind::Line => match span {
            None => r == Err::<Expr, _>(ErrorKind::NoSpanInformation),
            Some(sp) => match r {
                Ok(e) => e.span == span && e.kind == ExprKind::Lit(
                    Lit::Int((sp.line + 1) as u128),
                ),
                Err(_) => false,
            },
        },
        BuiltinMacroKind::Column => match span {
            None => r == Err::<Expr, _>(ErrorKind::NoSpanInformation),
            Some(sp) => match r {
                Ok(e) => e.span == span && e.kind == ExprKind::Lit(
                    Lit::Int((sp.column + 1) as u128),
                ),
                Err(_) => false,
            },
        },
        BuiltinMacroKind::File => if args.len() != 0 {
            r == Err::<Expr, _>(ErrorKind::ParamCountMismatch(0, args.len() as usize))
        } else {
            match span {
                None => r == Err::<Expr, _>(ErrorKind::NoSpanInformation),
                Some(sp) => if sp.file < global.diag.file_paths@.len() {
                    match r {
                        Ok(e) => e.span == span && match e.kind {
                            ExprKind::Lit(Lit::Str(b)) => b@ == path_bytes(
                                global.diag.file_paths@[sp.file as int]@,
                            ),
                            _ => false,
                        },
                        Err(_) => false,
                    }
                } else {
                    r == Err::<Expr, _>(ErrorKind::NoSpanInformation)
                },
            }
        },
        BuiltinMacroKind::Env => if args.len() != 1 {
            r == Err::<Expr, _>(ErrorKind::ParamCountMismatch(1, args.len() as usize))
        } else {
            match args[0].kind {
                ExprKind::Lit(Lit::Str(name)) => match crate::global::assoc_find_bytes(global.env@, name@) {
                    Some(value) => match r {
                        Ok(e) => e.span == span && match e.kind {
                            ExprKind::Lit(Lit::Str(b)) => b@ == value@,
                            _ => false,
                        },
                        Err(_) => false,
                    },
                    None => r == Err::<Expr, _>(ErrorKind::EnvVarNotFound),
                },
                _ => r == Err::<Expr, _>(ErrorKind::ConstantStringExpected),
            }
        },
        BuiltinMacroKind::IncludeBytes => if args.len() != 1 {
            r == Err::<Expr, _>(ErrorKind::ParamCountMismatch(1, args.len() as usize))
        } else {
            match args[0].kind {
                ExprKind::Lit(Lit::Str(name)) => match crate::global::assoc_find_bytes(global.files@, name@) {
                    Some(data) => match r {
                        Ok(e) => e.span == span && match e.kind {
                            ExprKind::Lit(Lit::Str(b)) => b@ == data@,
                            _ => false,
                        },
                        Err(_) => false,
                    },
                    None => r == Err::<Expr, _>(ErrorKind::CannotReadFile),
                },
                _ => r == Err::<Expr, _>(ErrorKind::ConstantStringExpected),
            }
        },
        BuiltinMacroKind::Bind => if args.len() == 0 {
            r == Err::<Expr, _>(ErrorKind::NotEnoughMacroArguments(1))
        } else {
            match args[0].kind {
                ExprKind::Macro(item, bound) => match r {
                    Ok(e) => e.span == span && match expr_view(e).kind {
                        crate::ast::ExprKindView::Macro(item2, bound2) => item2 == item && bound2
                            == exprs_view(bound@) + exprs_view(args.skip(1)),
                        _ => false,
                    },
                    Err(_) => false,
                },
                _ => r == Err::<Expr, _>(ErrorKind::MacroExpected),
            }
        },
        BuiltinMacroKind::Reduce => if args.len() < 2 {
            r == Err::<Expr, _>(ErrorKind::NotEnoughMacroArguments(2))
        } else {
            match args[0].kind {
                ExprKind::Macro(_, _) => if args.len() == 2 {
                    // The fold over an empty tail is the first operand.
                    r is Ok && expr_view(r->Ok_0) == expr_view(args[1])
                } else {
                    true
                },
                _ => r == Err::<Expr, _>(ErrorKind::MacroExpected),
            }
        },
        BuiltinMacroKind::FormatArgs => if args.len() < 2 {
            r == Err::<Expr, _>(ErrorKind::NotEnoughMacroArguments(2))
        } else {
            match args[0].kind {
                ExprKind::Macro(_, _) => match args[1].kind {
                    ExprKind::Lit(Lit::Str(fs)) => match crate::fmt::parse_fmt_spec(
                        fs@,
                        0,
                        0,
                        args.len() - 2,
                    ) {
                        Err(k) => r == Err::<Expr, _>(k),
                        Ok(_) => true,
                    },
                    _ => r == Err::<Expr, _>(ErrorKind::ConstantStringExpected),
                },
                _ => r == Err::<Expr, _>(ErrorKind::MacroExpected),
            }
        },
        BuiltinMacroKind::Stringify => if args.len() != 1 {
            r == Err::<Expr, _>(ErrorKind::ParamCountMismatch(1, args.len() as usize))
        } else {
            match r {
                Ok(e) => e.span == span && (e.kind matches ExprKind::Lit(Lit::Str(b)) && b@
                    == path_bytes(pretty_text(args[0]))),
                Err(_) => false,
            }
        },
    }
}


/// The bound argument an id is substituted by: first match in the
/// binding table.
pub open spec fn find_repl(s: Seq<(AstId, Expr)>, id: AstId) -> Option<Expr>
    decreases s.len(),
{
    if s.len() == 0 {
        None
    } else if s[0].0 == id {
        Some(s[0].1)
    } else {
        find_repl(s.drop_first(), id)
    }
}

/// The fresh name a let-bound id was renamed to: first match in the
/// renaming table.
pub open spec fn find_id_repl(s: Seq<(AstId, AstId)>, id: AstId) -> Option<AstId>
    decreases s.len(),
{
    if s.len() == 0 {
        None
    } else if s[0].0 == id {
        Some(s[0].1)
    } else {
        find_id_repl(s.drop_first(), id)
    }
}

/// How many expressions a list with et-cetera splices expands to: a splice
/// contributes one copy per variadic argument, anything else one element.
pub open spec fn expanded_len(s: Seq<Expr>, n: int, etc: int) -> int
    decreases n,
{
    if n <= 0 || n > s.len() {
        0
    } else {
        expanded_len(s, n - 1, etc) + (match s[n - 1].kind {
            ExprKind::EtCetera(_) => etc,
            _ => 1,
        })
    }
}

/// The renaming table only grows: every earlier entry stays in place.
pub open spec fn id_repls_extend(new: Seq<(AstId, AstId)>, prev: Seq<(AstId, AstId)>) -> bool {
    prev.len() <= new.len() && forall|t: int| 0 <= t < prev.len() ==> new[t] == prev[t]
}

/// Every renaming entry from position `from` on maps a bound id to one
/// minted from the arena counter while the table grew: its value lies in
/// `[lo, hi)`.
pub open spec fn repls_fresh_in(s: Seq<(AstId, AstId)>, from: int, lo: int, hi: int) -> bool {
    forall|t: int| from <= t < s.len() ==> lo <= (#[trigger] s[t]).1.id < hi
}

/// Hygiene across expansions: the fresh names one run of the expander
/// enters into its renaming table are all minted from the id arena's
/// counter while that run holds it, and a later run starts at or above the
/// counter the first one left.  So no `let` binding renamed by one
/// expansion can collide with a binding renamed by the other.
pub proof fn lemma_renamings_disjoint(
    a: Seq<(AstId, AstId)>,
    a_from: int,
    c0: int,
    c1: int,
    b: Seq<(AstId, AstId)>,
    b_from: int,
    c2: int,
)
    requires
        repls_fresh_in(a, a_from, c0, c1),
        repls_fresh_in(b, b_from, c1, c2),
    ensures
        forall|i: int, j: int|
            a_from <= i < a.len() && b_from <= j < b.len() ==> (#[trigger] a[i]).1 != (
            #[trigger] b[j]).1,
{
}

/// An expression a macro body may consist of so that its expansion is
/// owed to succeed when no variadic parameter is in scope: it holds no
/// `...` splice and no nested macro invocation, and every type it
/// mentions lies below `nty` in the type arena.
pub open spec fn plain_expr(e: Expr, nty: int) -> bool
    decreases e, 0int, 0int,
{
    match e.kind {
        ExprKind::Block(stmts, ret) => plain_stmts(stmts@, stmts@.len() as int, nty)
            && plain_expr(*ret, nty),
        ExprKind::Binary(_, a, b) => plain_expr(*a, nty) && plain_expr(*b, nty),
        ExprKind::Call(c, args) => plain_expr(*c, nty) && plain_exprs(
            args@,
            args@.len() as int,
            nty,
        ),
        ExprKind::Function(_) => true,
        ExprKind::GenericFunction(inner, _) => plain_expr(*inner, nty),
        ExprKind::Ref(inner) => plain_expr(*inner, nty),
        ExprKind::Deref(inner) => plain_expr(*inner, nty),
        ExprKind::Unary(_, inner) => plain_expr(*inner, nty),
        ExprKind::Assign(a, b) => plain_expr(*a, nty) && plain_expr(*b, nty),
        ExprKind::AssignOp(_, a, b) => plain_expr(*a, nty) && plain_expr(*b, nty),
        ExprKind::Local(_) => true,
        ExprKind::Static(_) => true,
        ExprKind::Const(_) => true,
        ExprKind::EnumValue(_, _) => true,
        ExprKind::Lit(_) => true,
        ExprKind::Loop(inner) => plain_expr(*inner, nty),
        ExprKind::Break(inner) => match inner {
            Some(x) => plain_expr(*x, nty),
            None => true,
        },
        ExprKind::Continue => true,
        ExprKind::Return(inner) => match inner {
            Some(x) => plain_expr(*x, nty),
            None => true,
        },
        ExprKind::Defer(inner) => plain_expr(*inner, nty),
        ExprKind::Tuple(args) => plain_exprs(args@, args@.len() as int, nty),
        ExprKind::Array(args) => plain_exprs(args@, args@.len() as int, nty),
        ExprKind::Struct(ty, inits) => (ty as int) < nty && plain_inits(
            inits@,
            inits@.len() as int,
            nty,
        ),
        ExprKind::Field(inner, _) => plain_expr(*inner, nty),
        ExprKind::TupleIndex(inner, _) => plain_expr(*inner, nty),
        ExprKind::Index(a, b) => plain_expr(*a, nty) && plain_expr(*b, nty),
        ExprKind::Range(lo, hi, _) => (match lo {
            Some(x) => plain_expr(*x, nty),
            None => true,
        }) && (match hi {
            Some(x) => plain_expr(*x, nty),
            None => true,
        }),
        ExprKind::If(c, t, f) => plain_expr(*c, nty) && plain_expr(*t, nty) && plain_expr(
            *f,
            nty,
        ),
        ExprKind::StaticIf(c, t, f) => plain_expr(*c, nty) && plain_expr(*t, nty) && plain_expr(
            *f,
            nty,
        ),
        ExprKind::TypeCheck(inner, ty) => (ty as int) < nty && plain_expr(*inner, nty),
        ExprKind::Cast(inner, ty) => (ty as int) < nty && plain_expr(*inner, nty),
        ExprKind::DeferredFunction(_, _) => true,
        ExprKind::MacroInvocation(_, _) => false,
        ExprKind::Macro(_, _) => true,
        ExprKind::EtCetera(_) => false,
        ExprKind::Void => true,
    }
}

/// Plainness of one statement (see `plain_expr`).
pub open spec fn plain_stmt(st: Statement, nty: int) -> bool
    decreases st, 1int, 0int,
{
    match st {
        Statement::Expression(e) => plain_expr(e, nty),
        Statement::LetDeclaration(d) => (match d.typ {
            Some(t) => (t as int) < nty,
            None => true,
        }) && (match d.value {
            Some(v) => plain_expr(v, nty),
            None => true,
        }),
    }
}

/// Plainness of the first `n` statements of a list.
pub open spec fn plain_stmts(s: Seq<Statement>, n: int, nty: int) -> bool
    decreases s, 2int, n,
{
    if n <= 0 || n > s.len() {
        true
    } else {
        plain_stmts(s, n - 1, nty) && plain_stmt(s[n - 1], nty)
    }
}

/// Plainness of the first `n` expressions of a list.
pub open spec fn plain_exprs(s: Seq<Expr>, n: int, nty: int) -> bool
    decreases s, 2int, n,
{
    if n <= 0 || n > s.len() {
        true
    } else {
        plain_exprs(s, n - 1, nty) && plain_expr(s[n - 1], nty)
    }
}

/// Plainness of the first `n` field initializers of a list.
pub open spec fn plain_inits(s: Seq<FieldInitializer>, n: int, nty: int) -> bool
    decreases s, 2int, n,
{
    if n <= 0 || n > s.len() {
        true
    } else {
        plain_inits(s, n - 1, nty) && plain_expr(s[n - 1].value, nty)
    }
}

proof fn lemma_plain_stmts_element(s: Seq<Statement>, n: int, nty: int, i: int)
    requires
        plain_stmts(s, n, nty),
        0 <= i < n <= s.len(),
    ensures
        plain_stmt(s[i], nty),
    decreases n,
{
    if i < n - 1 {
        lemma_plain_stmts_element(s, n - 1, nty, i);
    }
}

proof fn lemma_plain_exprs_element(s: Seq<Expr>, n: int, nty: int, i: int)
    requires
        plain_exprs(s, n, nty),
        0 <= i < n <= s.len(),
    ensures
        plain_expr(s[i], nty),
    decreases n,
{
    if i < n - 1 {
        lemma_plain_exprs_element(s, n - 1, nty, i);
    }
}

proof fn lemma_plain_inits_element(s: Seq<FieldInitializer>, n: int, nty: int, i: int)
    requires
        plain_inits(s, n, nty),
        0 <= i < n <= s.len(),
    ensures
        plain_expr(s[i].value, nty),
    decreases n,
{
    if i < n - 1 {
        lemma_plain_inits_element(s, n - 1, nty, i);
    }
}

/// Whether a view is one of the bound or variadic argument values.
pub open spec fn in_pool(w: MacroExpander, v: crate::ast::ExprView) -> bool {
    (exists|i: int|
        0 <= i < w.replacements@.len() && expr_view((#[trigger] w.replacements@[i]).1) == v) || (
    match w.et_cetera_arg {
        Some(p) => exists|i: int| 0 <= i < p.1@.len() && expr_view(#[trigger] p.1@[i]) == v,
        None => false,
    })
}

/// A macro body consisting of one leaf form: a name, a literal or the
/// void value.  Such a body survives the copy a lookup hands out with its
/// form intact, so its expansion is owed to succeed outright.
pub open spec fn leaf_body(e: Expr) -> bool {
    match e.kind {
        ExprKind::Function(_) => true,
        ExprKind::Static(_) => true,
        ExprKind::Const(_) => true,
        ExprKind::EnumValue(_, _) => true,
        ExprKind::Lit(_) => true,
        ExprKind::Continue => true,
        ExprKind::DeferredFunction(_, _) => true,
        ExprKind::Local(_) => true,
        ExprKind::Void => true,
        _ => false,
    }
}

/// What expanding a macro reference returns: the builtin table for builtin
/// macros; for user macros, exact argument-count errors, and results that
/// carry the invocation span at the root unless they are a substituted
/// argument or come from a nested invocation.
pub open spec fn expand_post(
    w: MacroExpander,
    pre: AstCtx,
    global: GlobalCtx,
    r: Result<Expr, ErrorKind>,
) -> bool {
    if w.macro_item as int >= pre.items@.len() {
        r == Err::<Expr, _>(ErrorKind::InternalError)
    } else {
        match pre.items@[w.macro_item as int].contents {
            None => r == Err::<Expr, _>(ErrorKind::UnpopulatedSymbol),
            Some(Item::BuiltinMacro(b)) => builtin_post(
                b.kind,
                w.args@,
                w.invocation_span,
                global,
                r,
            ),
            Some(Item::Macro(m)) => match m.body {
                None => r == Err::<Expr, _>(ErrorKind::RecursiveMacroCall),
                Some(body) => {
                    &&& ((forall|j: int| 0 <= j < m.args@.len() ==> !(#[trigger] m.args@[j]).et_cetera)
                        && w.args@.len() != m.args@.len()) ==> r == Err::<Expr, _>(
                        ErrorKind::ParamCountMismatch(
                            m.args@.len() as usize,
                            w.args@.len() as usize,
                        ),
                    )
                    &&& ((exists|j: int| 0 <= j < m.args@.len() && (#[trigger] m.args@[j]).et_cetera)
                        && w.args@.len() + 1 < m.args@.len()) ==> r == Err::<Expr, _>(
                        ErrorKind::NotEnoughMacroArguments((m.args@.len() - 1) as usize),
                    )
                    &&& ((forall|j: int| 0 <= j < m.args@.len() ==> !(#[trigger] m.args@[j]).et_cetera)
                        && r is Ok) ==> w.args@.len() == m.args@.len()
                    &&& ((exists|j: int| 0 <= j < m.args@.len() && (#[trigger] m.args@[j]).et_cetera)
                        && r is Ok) ==> w.args@.len() + 1 >= m.args@.len()
                    &&& ((forall|j: int| 0 <= j < m.args@.len() ==> !(#[trigger] m.args@[j]).et_cetera)
                        && w.args@.len() == m.args@.len() && leaf_body(body)) ==> r is Ok
                    &&& match r {
                        Ok(e2) => e2.span == w.invocation_span || from_args(expr_view(e2), w.args@)
                            || (body.kind matches ExprKind::MacroInvocation(_, _)),
                        Err(_) => true,
                    }
                },
            },
            Some(_) => r == Err::<Expr, _>(ErrorKind::NotAMacro),
        }
    }
}

/// A failed prefix of a concatenation fails the whole concatenation.
proof fn lemma_concat_none(args: Seq<Expr>, i: int, n: int)
    requires
        0 <= i < n <= args.len(),
        concat_strs(args, i + 1) is None,
    ensures
        concat_strs(args, n) is None,
    decreases n,
{
    if n > i + 1 {
        lemma_concat_none(args, i, n - 1);
    }
}

impl MacroExpander {
    /// Expands the invocation this expander was made for.
    pub fn expand(self, ctx: &mut AstCtx, global: &GlobalCtx) -> (r: Result<Expr, ErrorKind>)
        requires
            old(ctx).wf(),
            self.replacements@.len() == 0,
            self.et_cetera_arg is None,
        ensures
            final(ctx).wf(),
            final(ctx).extends(*old(ctx)),
            expand_post(self, *old(ctx), *global, r),
        decreases self.depth, 3int,
    {
        if self.macro_item >= ctx.items.len() {
            return Err(ErrorKind::InternalError);
        }
        let mut user: Option<(Vec<MacroParameter>, Option<Expr>)> = None;
        let mut builtin: Option<BuiltinMacroKind> = None;
        let mut empty = false;
        let mut other = false;
        let ghost mut gbody: Option<Expr> = None;
        match ctx.get(self.macro_item) {
            Ok(Item::Macro(m)) => {
                let body = match &m.body {
                    Some(b) => {
                        proof {
                            gbody = Some(*b);
                        }
                        Some(expr_clone(b))
                    },
                    None => None,
                };
                user = Some((copy_vec(&m.args), body));
            },
            Ok(Item::BuiltinMacro(b)) => {
                builtin = Some(b.kind);
            },
            Ok(_) => {
                other = true;
            },
            Err(_) => {
                empty = true;
            },
        }
        if empty {
            return Err(ErrorKind::UnpopulatedSymbol);
        }
        if other {
            return Err(ErrorKind::NotAMacro);
        }
        match user {
            Some((params, Some(body))) => {
                proof {
                    if leaf_body(gbody->Some_0) {
                        assert(expr_view(body) == expr_view(gbody->Some_0));
                        assert(leaf_body(body));
                        assert(plain_expr(body, old(ctx).types@.len() as int));
                    }
                }
                self.expand_regular(ctx, global, params, body)
            },
            Some((_, None)) => Err(ErrorKind::RecursiveMacroCall),
            None => match builtin {
                Some(kind) => self.expand_builtin(ctx, global, kind),
                None => Err(ErrorKind::InternalError),
            },
        }
    }
}


impl MacroExpander {
    /// Binds the arguments to the parameters per the binding table (a
    /// mismatch is an exact arity error) and expands the body.
    fn expand_regular(
        self,
        ctx: &mut AstCtx,
        global: &GlobalCtx,
        params: Vec<MacroParameter>,
        body: Expr,
    ) -> (r: Result<Expr, ErrorKind>)
        requires
            old(ctx).wf(),
            self.replacements@.len() == 0,
            self.et_cetera_arg is None,
        ensures
            final(ctx).wf(),
            final(ctx).extends(*old(ctx)),
            ((forall|j: int| 0 <= j < params@.len() ==> !(#[trigger] params@[j]).et_cetera)
                && self.args@.len() != params@.len()) ==> r == Err::<Expr, _>(
                ErrorKind::ParamCountMismatch(
                    params@.len() as usize,
                    self.args@.len() as usize,
                ),
            ),
            ((exists|j: int| 0 <= j < params@.len() && (#[trigger] params@[j]).et_cetera)
                && self.args@.len() + 1 < params@.len()) ==> r == Err::<Expr, _>(
                ErrorKind::NotEnoughMacroArguments((params@.len() - 1) as usize),
            ),
            ((forall|j: int| 0 <= j < params@.len() ==> !(#[trigger] params@[j]).et_cetera) && r
                is Ok) ==> self.args@.len() == params@.len(),
            ((exists|j: int| 0 <= j < params@.len() && (#[trigger] params@[j]).et_cetera) && r
                is Ok) ==> self.args@.len() + 1 >= params@.len(),
            ((forall|j: int| 0 <= j < params@.len() ==> !(#[trigger] params@[j]).et_cetera)
                && self.args@.len() == params@.len() && plain_expr(
                body,
                old(ctx).types@.len() as int,
            )) ==> r is Ok,
            match r {
                Ok(e2) => e2.span == self.invocation_span || from_args(
                    expr_view(e2),
                    self.args@,
                ) || (body.kind matches ExprKind::MacroInvocation(_, _)),
                Err(_) => true,
            },
        decreases self.depth, 2int,
    {
        let ghost self0 = self;
        let mut this = self;
        let n = params.len();
        let m = this.args.len();
        let mut etc_index: Option<usize> = None;
        let mut k: usize = 0;
        while k < n
            invariant
                n == params@.len(),
                k <= n,
                match etc_index {
                    Some(p) => p < k && params@[p as int].et_cetera && forall|j: int|
                        0 <= j < p ==> !(#[trigger] params@[j]).et_cetera,
                    None => forall|j: int| 0 <= j < k ==> !(#[trigger] params@[j]).et_cetera,
                },
            decreases n - k,
        {
            if etc_index.is_none() && params[k].et_cetera {
                etc_index = Some(k);
            }
            k = k + 1;
        }
        match etc_index {
            None => {
                if m != n {
                    return Err(ErrorKind::ParamCountMismatch(n, m));
                }
                let mut i: usize = 0;
                while i < n
                    invariant
                        n == params@.len(),
                        n == this.args@.len(),
                        i <= n,
                        this.replacements@.len() == i,
                        this == (MacroExpander { replacements: this.replacements, ..self0 }),
                        forall|t: int|
                            0 <= t < i ==> exists|j: int|
                                0 <= j < this.args@.len() && expr_view(
                                    (#[trigger] this.replacements@[t]).1,
                                ) == expr_view(this.args@[j]),
                    decreases n - i,
                {
                    let ghost pre = this.replacements@;
                    let cloned = expr_clone(&this.args[i]);
                    let id = params[i].id;
                    this.replacements.push((id, cloned));
                    proof {
                        assert(expr_view(this.replacements@[i as int].1) == expr_view(
                            this.args@[i as int],
                        ));
                        assert(forall|t: int|
                            0 <= t < i ==> this.replacements@[t] == pre[t]);
                    }
                    i = i + 1;
                }
                let r = this.visit_expr(ctx, global, &body);
                proof {
                    if plain_expr(body, old(ctx).types@.len() as int) {
                        assert(r is Ok);
                    }
                    if r is Ok {
                        let v = expr_view(r->Ok_0);
                        if in_pool(this, v) {
                            if exists|t: int|
                                0 <= t < this.replacements@.len() && expr_view(
                                    (#[trigger] this.replacements@[t]).1,
                                ) == v {
                                let t = choose|t: int|
                                    0 <= t < this.replacements@.len() && expr_view(
                                        (#[trigger] this.replacements@[t]).1,
                                    ) == v;
                                let j = choose|j: int|
                                    0 <= j < this.args@.len() && expr_view(
                                        this.replacements@[t].1,
                                    ) == expr_view(this.args@[j]);
                                assert(expr_view(self0.args@[j]) == v);
                            } else {
                                match this.et_cetera_arg {
                                    Some(p) => {
                                        let t = choose|t: int|
                                            0 <= t < p.1@.len() && expr_view(#[trigger] p.1@[t])
                                                == v;
                                        let j = choose|j: int|
                                            0 <= j < this.args@.len() && expr_view(p.1@[t])
                                                == expr_view(this.args@[j]);
                                        assert(expr_view(self0.args@[j]) == v);
                                    },
                                    None => {},
                                }
                            }
                            assert(from_args(v, self0.args@));
                        }
                    }
                }
                r
            },
            Some(kpos) => {
                proof {
                    assert(n >= 1);
                }
                if m < n - 1 {
                    return Err(ErrorKind::NotEnoughMacroArguments(n - 1));
                }
                let etc_count = m - (n - 1);
                let mut i: usize = 0;
                while i < kpos
                    invariant
                        n == params@.len(),
                        m == this.args@.len(),
                        kpos < n,
                        m + 1 >= n,
                        i <= kpos,
                        this.replacements@.len() == i,
                        this == (MacroExpander { replacements: this.replacements, ..self0 }),
                        forall|t: int|
                            0 <= t < i ==> exists|j: int|
                                0 <= j < this.args@.len() && expr_view(
                                    (#[trigger] this.replacements@[t]).1,
                                ) == expr_view(this.args@[j]),
                    decreases kpos - i,
                {
                    let ghost pre = this.replacements@;
                    let cloned = expr_clone(&this.args[i]);
                    let id = params[i].id;
                    this.replacements.push((id, cloned));
                    proof {
                        assert(expr_view(this.replacements@[i as int].1) == expr_view(
                            this.args@[i as int],
                        ));
                        assert(forall|t: int|
                            0 <= t < i ==> this.replacements@[t] == pre[t]);
                    }
                    i = i + 1;
                }
                let mut etc_args: Vec<Expr> = Vec::new();
                let mut j: usize = 0;
                while j < etc_count
                    invariant
                        n == params@.len(),
                        m == this.args@.len(),
                        kpos < n,
                        etc_count == m + 1 - n,
                        j <= etc_count,
                        etc_args@.len() == j,
                        this == (MacroExpander { replacements: this.replacements, ..self0 }),
                        forall|t: int|
                            0 <= t < i ==> exists|jj: int|
                                0 <= jj < this.args@.len() && expr_view(
                                    (#[trigger] this.replacements@[t]).1,
                                ) == expr_view(this.args@[jj]),
                        forall|t: int|
                            0 <= t < j ==> exists|jj: int|
                                0 <= jj < this.args@.len() && expr_view(#[trigger] etc_args@[t])
                                    == expr_view(this.args@[jj]),
                        i == kpos,
                        this.replacements@.len() == i,
                    decreases etc_count - j,
                {
                    let ghost pre = etc_args@;
                    let cloned = expr_clone(&this.args[kpos + j]);
                    etc_args.push(cloned);
                    proof {
                        assert(expr_view(etc_args@[j as int]) == expr_view(
                            this.args@[kpos + j],
                        ));
                        assert(forall|t: int| 0 <= t < j ==> etc_args@[t] == pre[t]);
                    }
                    j = j + 1;
                }
                let mut i2: usize = kpos + 1;
                while i2 < n
                    invariant
                        n == params@.len(),
                        m == this.args@.len(),
                        kpos < n,
                        etc_count == m + 1 - n,
                        kpos + 1 <= i2 <= n,
                        this.replacements@.len() == kpos + (i2 - (kpos + 1)),
                        this == (MacroExpander { replacements: this.replacements, ..self0 }),
                        forall|t: int|
                            0 <= t < this.replacements@.len() ==> exists|jj: int|
                                0 <= jj < this.args@.len() && expr_view(
                                    (#[trigger] this.replacements@[t]).1,
                                ) == expr_view(this.args@[jj]),
                        forall|t: int|
                            0 <= t < etc_args@.len() ==> exists|jj: int|
                                0 <= jj < this.args@.len() && expr_view(#[trigger] etc_args@[t])
                                    == expr_view(this.args@[jj]),
                        etc_args@.len() == etc_count,
                    decreases n - i2,
                {
                    let ghost pre = this.replacements@;
                    let cloned = expr_clone(&this.args[i2 + etc_count - 1]);
                    let id = params[i2].id;
                    this.replacements.push((id, cloned));
                    proof {
                        assert(expr_view(this.replacements@[pre.len() as int].1) == expr_view(
                            this.args@[i2 + etc_count - 1],
                        ));
                        assert(forall|t: int|
                            0 <= t < pre.len() ==> this.replacements@[t] == pre[t]);
                    }
                    i2 = i2 + 1;
                }
                let pid = params[kpos].id;
                this.et_cetera_arg = Some((pid, etc_args));
                let r = this.visit_expr(ctx, global, &body);
                proof {
                    if r is Ok {
                        let v = expr_view(r->Ok_0);
                        if in_pool(this, v) {
                            if exists|t: int|
                                0 <= t < this.replacements@.len() && expr_view(
                                    (#[trigger] this.replacements@[t]).1,
                                ) == v {
                                let t = choose|t: int|
                                    0 <= t < this.replacements@.len() && expr_view(
                                        (#[trigger] this.replacements@[t]).1,
                                    ) == v;
                                let j = choose|j: int|
                                    0 <= j < this.args@.len() && expr_view(
                                        this.replacements@[t].1,
                                    ) == expr_view(this.args@[j]);
                                assert(expr_view(self0.args@[j]) == v);
                            } else {
                                match this.et_cetera_arg {
                                    Some(p) => {
                                        let t = choose|t: int|
                                            0 <= t < p.1@.len() && expr_view(#[trigger] p.1@[t])
                                                == v;
                                        let j = choose|j: int|
                                            0 <= j < this.args@.len() && expr_view(p.1@[t])
                                                == expr_view(this.args@[j]);
                                        assert(expr_view(self0.args@[j]) == v);
                                    },
                                    None => {},
                                }
                            }
                            assert(from_args(v, self0.args@));
                        }
                    }
                }
                r
            },
        }
    }

    /// Expands a list of expressions, splicing each et-cetera element into
    /// one copy per variadic argument.
    fn expand_args(
        &mut self,
        ctx: &mut AstCtx,
        global: &GlobalCtx,
        args: &Vec<Expr>,
    ) -> (r: Result<Vec<Expr>, ErrorKind>)
        requires
            old(ctx).wf(),
        ensures
            final(ctx).wf(),
            final(ctx).extends(*old(ctx)),
            MacroExpander::same_frame(*final(self), *old(self)),
            id_repls_extend(final(self).id_replacements@, old(self).id_replacements@),
            repls_fresh_in(
                final(self).id_replacements@,
                old(self).id_replacements@.len() as int,
                old(ctx).counter(),
                final(ctx).counter(),
            ),
            forall|nty: int|
                nty <= old(ctx).types@.len() && old(self).et_cetera_arg is None && plain_exprs(
                    args@,
                    args@.len() as int,
                    nty,
                ) ==> r is Ok,
            match r {
                Ok(v) => final(self).et_cetera_index == old(self).et_cetera_index && v@.len()
                    == expanded_len(
                    args@,
                    args@.len() as int,
                    match old(self).et_cetera_arg {
                        Some(p) => p.1@.len() as int,
                        None => 0,
                    },
                ),
                Err(_) => true,
            },
        decreases old(self).depth, 1int, *args,
    {
        let ghost etc_n: int = if self.et_cetera_arg is Some {
            self.et_cetera_arg->Some_0.1@.len() as int
        } else {
            0
        };
        let mut out: Vec<Expr> = Vec::new();
        let n = args.len();
        let mut i: usize = 0;
        while i < n
            invariant
                old(ctx).wf(),
                ctx.wf(),
                ctx.extends(*old(ctx)),
                n == args@.len(),
                i <= n,
                MacroExpander::same_frame(*self, *old(self)),
                id_repls_extend(self.id_replacements@, old(self).id_replacements@),
                repls_fresh_in(
                    self.id_replacements@,
                    old(self).id_replacements@.len() as int,
                    old(ctx).counter(),
                    ctx.counter(),
                ),
                self.et_cetera_index == old(self).et_cetera_index,
                self.depth == old(self).depth,
                etc_n == (match old(self).et_cetera_arg {
                    Some(p) => p.1@.len() as int,
                    None => 0,
                }),
                out@.len() == expanded_len(args@, i as int, etc_n),
            decreases n - i,
        {
            let ghost ctx_pre = *ctx;
            proof {
                assert(decreases_to!(*args => args@[i as int]));
                assert forall|nty: int|
                    nty <= old(ctx).types@.len() && plain_exprs(
                        args@,
                        args@.len() as int,
                        nty,
                    ) implies plain_expr(args@[i as int], nty) by {
                    lemma_plain_exprs_element(args@, args@.len() as int, nty, i as int);
                }
            }
            let is_splice = match &args[i].kind {
                ExprKind::EtCetera(_) => true,
                _ => false,
            };
            if is_splice {
                proof {
                    assert(args@[i as int].kind matches ExprKind::EtCetera(_));
                    assert forall|nty: int|
                        nty <= old(ctx).types@.len() && old(self).et_cetera_arg is None
                            && plain_exprs(args@, args@.len() as int, nty) implies false by {
                        lemma_plain_exprs_element(args@, args@.len() as int, nty, i as int);
                        assert(!plain_expr(args@[i as int], nty));
                    }
                }
                if self.et_cetera_index.is_some() {
                    return Err(ErrorKind::EtCeteraInEtCetera);
                }
                let etc_len = match &self.et_cetera_arg {
                    Some(p) => p.1.len(),
                    None => {
                        return Err(ErrorKind::CannotEtCeteraHere);
                    },
                };
                let mut idx: usize = 0;
                while idx < etc_len
                    invariant
                        old(ctx).wf(),
                        ctx.wf(),
                        ctx.extends(*old(ctx)),
                        n == args@.len(),
                        i < n,
                        idx <= etc_len,
                        MacroExpander::same_frame(*self, *old(self)),
                        id_repls_extend(self.id_replacements@, old(self).id_replacements@),
                        repls_fresh_in(
                            self.id_replacements@,
                            old(self).id_replacements@.len() as int,
                            old(ctx).counter(),
                            ctx.counter(),
                        ),
                        self.depth == old(self).depth,
                        args@[i as int].kind matches ExprKind::EtCetera(_),
                        etc_n == (match old(self).et_cetera_arg {
                            Some(p) => p.1@.len() as int,
                            None => 0,
                        }),
                        etc_len as int == etc_n,
                        out@.len() == expanded_len(args@, i as int, etc_n) + idx,
                    decreases etc_len - idx,
                {
                    self.et_cetera_index = Some(idx);
                    let ghost ctx_mid = *ctx;
                    proof {
                        assert(decreases_to!(*args => args@[i as int]));
                        assert(decreases_to!(args@[i as int] => args@[i as int].kind));
                        assert forall|nty: int|
                            nty <= old(ctx).types@.len() && plain_exprs(
                                args@,
                                args@.len() as int,
                                nty,
                            ) implies false by {
                            lemma_plain_exprs_element(args@, args@.len() as int, nty, i as int);
                        }
                    }
                    let inner_r = match &args[i].kind {
                        ExprKind::EtCetera(inner) => {
                            proof {
                                assert(decreases_to!(args@[i as int].kind => args@[i as int].kind->EtCetera_0));
                            }
                            self.visit_expr(ctx, global, &**inner)
                        },
                        _ => Err(ErrorKind::InternalError),
                    };
                    proof {
                        crate::ast::lemma_extends_trans(*old(ctx), ctx_mid, *ctx);
                    }
                    match inner_r {
                        Ok(v) => {
                            out.push(v);
                        },
                        Err(e) => {
                            return Err(e);
                        },
                    }
                    idx = idx + 1;
                }
                self.et_cetera_index = None;
            } else {
                let r = self.visit_expr(ctx, global, &args[i]);
                proof {
                    crate::ast::lemma_extends_trans(*old(ctx), ctx_pre, *ctx);
                }
                match r {
                    Ok(v) => {
                        out.push(v);
                    },
                    Err(e) => {
                        proof {
                            assert forall|nty: int|
                                nty <= old(ctx).types@.len() && old(self).et_cetera_arg is None
                                    && plain_exprs(
                                    args@,
                                    args@.len() as int,
                                    nty,
                                ) implies false by {
                                lemma_plain_exprs_element(
                                    args@,
                                    args@.len() as int,
                                    nty,
                                    i as int,
                                );
                            }
                        }
                        return Err(e);
                    },
                }
            }
            i = i + 1;
        }
        Ok(out)
    }

    /// Expanding a type is the identity: interned types carry no
    /// substitutable parts, they are shared by construction.
    fn visit_typ(&mut self, ctx: &mut AstCtx, t: TyRef) -> (r: Result<TyRef, ErrorKind>)
        ensures
            *final(ctx) == *old(ctx),
            *final(self) == *old(self),
            match r {
                Ok(t2) => t2 == t && (t as int) < old(ctx).types@.len(),
                Err(k) => k == ErrorKind::InternalError && (t as int) >= old(ctx).types@.len(),
            },
    {
        if t < ctx.types.len() {
            Ok(t)
        } else {
            Err(ErrorKind::InternalError)
        }
    }

    /// Expands one statement; a let declaration gets a fresh id so that
    /// the same macro expanded twice in one scope binds distinct names.
    fn visit_stmt(
        &mut self,
        ctx: &mut AstCtx,
        global: &GlobalCtx,
        st: &Statement,
    ) -> (r: Result<Statement, ErrorKind>)
        requires
            old(ctx).wf(),
        ensures
            final(ctx).wf(),
            final(ctx).extends(*old(ctx)),
            MacroExpander::same_frame(*final(self), *old(self)),
            id_repls_extend(final(self).id_replacements@, old(self).id_replacements@),
            repls_fresh_in(
                final(self).id_replacements@,
                old(self).id_replacements@.len() as int,
                old(ctx).counter(),
                final(ctx).counter(),
            ),
            forall|nty: int|
                nty <= old(ctx).types@.len() && old(self).et_cetera_arg is None && plain_stmt(
                    *st,
                    nty,
                ) ==> r is Ok,
            match r {
                Ok(_) => final(self).et_cetera_index == old(self).et_cetera_index,
                Err(_) => true,
            },
            match *st {
                Statement::LetDeclaration(d) => match r {
                    Ok(st2) => {
                        &&& st2 matches Statement::LetDeclaration(d2) && d2.id.id == old(
                            ctx,
                        ).counter() && (match d2.value {
                            Some(_) => d.value is Some,
                            None => d.value is None,
                        })
                        &&& final(self).id_replacements@.len() > old(
                            self,
                        ).id_replacements@.len()
                        &&& final(self).id_replacements@[old(self).id_replacements@.len() as int]
                            == (d.id, AstId { id: old(ctx).counter() as usize })
                    },
                    Err(_) => true,
                },
                _ => true,
            },
        decreases old(self).depth, 1int, *st,
    {
        match st {
            Statement::Expression(e) => {
                let r2 = self.visit_expr(ctx, global, e);
                match r2 {
                    Ok(e2) => Ok(Statement::Expression(e2)),
                    Err(err) => {
                        proof {
                            assert forall|nty: int|
                                nty <= old(ctx).types@.len() && old(self).et_cetera_arg is None
                                    && plain_stmt(*st, nty) implies false by {
                                assert(plain_expr(*e, nty));
                            }
                        }
                        Err(err)
                    },
                }
            },
            Statement::LetDeclaration(d) => {
                let fresh = ctx.make_id();
                self.id_replacements.push((d.id, fresh));
                let typ = match d.typ {
                    Some(t) => match self.visit_typ(ctx, t) {
                        Ok(t2) => Some(t2),
                        Err(e) => {
                            return Err(e);
                        },
                    },
                    None => None,
                };
                let ghost ctx_mid = *ctx;
                let value = match &d.value {
                    Some(v) => match self.visit_expr(ctx, global, v) {
                        Ok(v2) => Some(v2),
                        Err(e) => {
                            proof {
                                assert forall|nty: int|
                                    nty <= old(ctx).types@.len() && old(self).et_cetera_arg
                                        is None && plain_stmt(*st, nty) implies false by {
                                    assert(plain_expr(*v, nty));
                                }
                            }
                            return Err(e);
                        },
                    },
                    None => None,
                };
                proof {
                    crate::ast::lemma_extends_trans(*old(ctx), ctx_mid, *ctx);
                }
                Ok(Statement::LetDeclaration(LetDeclaration { id: fresh, typ, value }))
            },
        }
    }
}


impl MacroExpander {
    /// Expands one expression of a macro body: parameters are replaced by
    /// their bound arguments, let-bound locals by their fresh names,
    /// nested invocations by their own expansion, and every node built
    /// here carries the invocation span.
    fn visit_expr(
        &mut self,
        ctx: &mut AstCtx,
        global: &GlobalCtx,
        e: &Expr,
    ) -> (r: Result<Expr, ErrorKind>)
        requires
            old(ctx).wf(),
        ensures
            final(ctx).wf(),
            final(ctx).extends(*old(ctx)),
            MacroExpander::same_frame(*final(self), *old(self)),
            id_repls_extend(final(self).id_replacements@, old(self).id_replacements@),
            repls_fresh_in(
                final(self).id_replacements@,
                old(self).id_replacements@.len() as int,
                old(ctx).counter(),
                final(ctx).counter(),
            ),
            forall|nty: int|
                nty <= old(ctx).types@.len() && old(self).et_cetera_arg is None && plain_expr(
                    *e,
                    nty,
                ) ==> r is Ok,
            match r {
                Ok(e2) => final(self).et_cetera_index == old(self).et_cetera_index && (e2.span
                    == old(self).invocation_span || in_pool(*old(self), expr_view(e2)) || (
                e.kind matches ExprKind::MacroInvocation(_, _))),
                Err(_) => true,
            },
            (e.kind matches ExprKind::EtCetera(_)) ==> r == Err::<Expr, _>(
                ErrorKind::CannotEtCeteraHere,
            ),
            match e.kind {
                ExprKind::Local(id) => match find_repl(old(self).replacements@, id) {
                    Some(v) => r is Ok && expr_view(r->Ok_0) == expr_view(v),
                    None => {
                        if (match old(self).et_cetera_arg {
                            Some(p) => p.0 == id,
                            None => false,
                        }) {
                            match old(self).et_cetera_index {
                                Some(ix) => match old(self).et_cetera_arg {
                                    Some(p) => {
                                        &&& ((ix as int) < p.1@.len() ==> (r is Ok && expr_view(
                                            r->Ok_0,
                                        ) == expr_view(p.1@[ix as int])))
                                        &&& ((ix as int) >= p.1@.len() ==> r == Err::<Expr, _>(
                                            ErrorKind::InternalError,
                                        ))
                                    },
                                    None => true,
                                },
                                None => r == Err::<Expr, _>(ErrorKind::CannotEtCeteraHere),
                            }
                        } else {
                            r == Ok::<Expr, ErrorKind>(
                                Expr {
                                    kind: ExprKind::Local(
                                        match find_id_repl(old(self).id_replacements@, id) {
                                            Some(nid) => nid,
                                            None => id,
                                        },
                                    ),
                                    span: old(self).invocation_span,
                                },
                            )
                        }
                    },
                },
                _ => true,
            },
        decreases old(self).depth, 1int, *e,
    {
        let span = self.invocation_span;
        match &e.kind {
            ExprKind::Local(id) => {
                let hit = match self.lookup_replacement(*id) {
                    Some(v) => Some(expr_clone(v)),
                    None => None,
                };
                match hit {
                    Some(v) => {
                        proof {
                            assert(in_pool(*old(self), expr_view(v)));
                        }
                        return Ok(v);
                    },
                    None => {},
                }
                let etc_hit = match &self.et_cetera_arg {
                    Some(p) => p.0 == *id,
                    None => false,
                };
                if etc_hit {
                    match self.et_cetera_index {
                        Some(index) => {
                            let v = match &self.et_cetera_arg {
                                Some(p) => {
                                    if index < p.1.len() {
                                        Some(expr_clone(&p.1[index]))
                                    } else {
                                        None
                                    }
                                },
                                None => None,
                            };
                            match v {
                                Some(v2) => {
                                    proof {
                                        assert(in_pool(*old(self), expr_view(v2)));
                                    }
                                    Ok(v2)
                                },
                                None => Err(ErrorKind::InternalError),
                            }
                        },
                        None => Err(ErrorKind::CannotEtCeteraHere),
                    }
                } else {
                    let new_id = match self.lookup_id_replacement(*id) {
                        Some(r2) => r2,
                        None => *id,
                    };
                    Ok(Expr { kind: ExprKind::Local(new_id), span })
                }
            },
            ExprKind::EtCetera(_) => Err(ErrorKind::CannotEtCeteraHere),
            ExprKind::MacroInvocation(inner, args) => {
                if self.depth == 0 {
                    return Err(ErrorKind::RecursiveMacroCall);
                }
                let ghost ctx0 = *ctx;
                let inner2 = match self.visit_expr(ctx, global, &**inner) {
                    Ok(v) => v,
                    Err(e2) => {
                        return Err(e2);
                    },
                };
                let (item, bound) = match inner2.kind {
                    ExprKind::Macro(item, bound) => (item, bound),
                    _ => {
                        return Err(ErrorKind::NotAMacro);
                    },
                };
                let ghost ctx1 = *ctx;
                let expanded = match self.expand_args(ctx, global, args) {
                    Ok(v) => v,
                    Err(e2) => {
                        proof {
                            crate::ast::lemma_extends_trans(ctx0, ctx1, *ctx);
                        }
                        return Err(e2);
                    },
                };
                let mut child_args = bound;
                let n2 = expanded.len();
                let mut t: usize = 0;
                let mut expanded2 = expanded;
                while t < n2
                    invariant
                        t <= n2,
                        n2 == expanded2@.len() + t,
                    decreases n2 - t,
                {
                    let mut rest = expanded2;
                    let first = rest.remove(0);
                    child_args.push(first);
                    expanded2 = rest;
                    t = t + 1;
                }
                let child = MacroExpander::new(
                    self.invocation_span,
                    item,
                    child_args,
                    self.depth - 1,
                );
                let ghost ctx2 = *ctx;
                let r2 = child.expand(ctx, global);
                proof {
                    crate::ast::lemma_extends_trans(ctx0, ctx1, ctx2);
                    crate::ast::lemma_extends_trans(ctx0, ctx2, *ctx);
                }
                r2
            },
            ExprKind::Block(stmts, ret) => {
                let mut new_statements: Vec<Statement> = Vec::new();
                let n = stmts.len();
                let mut i: usize = 0;
                while i < n
                    invariant
                        old(ctx).wf(),
                        ctx.wf(),
                        ctx.extends(*old(ctx)),
                        n == stmts@.len(),
                        i <= n,
                        MacroExpander::same_frame(*self, *old(self)),
                        id_repls_extend(self.id_replacements@, old(self).id_replacements@),
                        repls_fresh_in(
                            self.id_replacements@,
                            old(self).id_replacements@.len() as int,
                            old(ctx).counter(),
                            ctx.counter(),
                        ),
                        self.et_cetera_index == old(self).et_cetera_index,
                        self.depth == old(self).depth,
                        self.invocation_span == old(self).invocation_span,
                        e.kind matches ExprKind::Block(s2, _) && s2 == *stmts,
                    decreases n - i,
                {
                    let ghost ctx_pre = *ctx;
                    proof {
                        assert(decreases_to!(*e => e.kind));
                        assert(decreases_to!(e.kind => stmts@[i as int]));
                        assert forall|nty: int|
                            nty <= old(ctx).types@.len() && plain_expr(*e, nty) implies plain_stmt(
                            stmts@[i as int],
                            nty,
                        ) by {
                            lemma_plain_stmts_element(stmts@, stmts@.len() as int, nty, i as int);
                        }
                    }
                    let is_splice = match &stmts[i] {
                        Statement::Expression(se) => match &se.kind {
                            ExprKind::EtCetera(_) => true,
                            _ => false,
                        },
                        _ => false,
                    };
                    if is_splice {
                        if self.et_cetera_index.is_some() {
                            return Err(ErrorKind::EtCeteraInEtCetera);
                        }
                        let etc_len = match &self.et_cetera_arg {
                            Some(p) => p.1.len(),
                            None => {
                                return Err(ErrorKind::CannotEtCeteraHere);
                            },
                        };
                        let mut idx: usize = 0;
                        while idx < etc_len
                            invariant
                                old(ctx).wf(),
                                ctx.wf(),
                                ctx.extends(*old(ctx)),
                                n == stmts@.len(),
                                i < n,
                                idx <= etc_len,
                                MacroExpander::same_frame(*self, *old(self)),
                                id_repls_extend(self.id_replacements@, old(self).id_replacements@),
                                repls_fresh_in(
                                    self.id_replacements@,
                                    old(self).id_replacements@.len() as int,
                                    old(ctx).counter(),
                                    ctx.counter(),
                                ),
                                self.depth == old(self).depth,
                                self.invocation_span == old(self).invocation_span,
                                e.kind matches ExprKind::Block(s2, _) && s2 == *stmts,
                                stmts@[i as int] matches Statement::Expression(se) && se.kind
                                    matches ExprKind::EtCetera(_),
                            decreases etc_len - idx,
                        {
                            self.et_cetera_index = Some(idx);
                            let ghost ctx_mid = *ctx;
                            proof {
                                assert(decreases_to!(stmts@[i as int] => stmts@[i as int]->Expression_0));
                                assert forall|nty: int|
                                    nty <= old(ctx).types@.len() && plain_expr(
                                        *e,
                                        nty,
                                    ) implies false by {
                                    lemma_plain_stmts_element(
                                        stmts@,
                                        stmts@.len() as int,
                                        nty,
                                        i as int,
                                    );
                                }
                            }
                            let inner_r = match &stmts[i] {
                                Statement::Expression(se) => match &se.kind {
                                    ExprKind::EtCetera(inner) => {
                                        proof {
                                            assert(decreases_to!(*e => e.kind));
                                            assert(decreases_to!(e.kind => stmts@[i as int]));
                                            assert(decreases_to!(stmts@[i as int] => *se));
                                            assert(decreases_to!(*se => se.kind));
                                            assert(decreases_to!(se.kind => se.kind->EtCetera_0));
                                        }
                                        self.visit_expr(ctx, global, &**inner)
                                    },
                                    _ => Err(ErrorKind::InternalError),
                                },
                                _ => Err(ErrorKind::InternalError),
                            };
                            proof {
                                crate::ast::lemma_extends_trans(*old(ctx), ctx_mid, *ctx);
                            }
                            match inner_r {
                                Ok(v) => {
                                    new_statements.push(Statement::Expression(v));
                                },
                                Err(e2) => {
                                    return Err(e2);
                                },
                            }
                            idx = idx + 1;
                        }
                        self.et_cetera_index = None;
                    } else {
                        let r2 = self.visit_stmt(ctx, global, &stmts[i]);
                        proof {
                            crate::ast::lemma_extends_trans(*old(ctx), ctx_pre, *ctx);
                        }
                        match r2 {
                            Ok(v) => {
                                new_statements.push(v);
                            },
                            Err(e2) => {
                                proof {
                                    assert forall|nty: int|
                                        nty <= old(ctx).types@.len() && old(self).et_cetera_arg
                                            is None && plain_expr(*e, nty) implies false by {
                                        lemma_plain_stmts_element(
                                            stmts@,
                                            stmts@.len() as int,
                                            nty,
                                            i as int,
                                        );
                                    }
                                }
                                return Err(e2);
                            },
                        }
                    }
                    i = i + 1;
                }
                let ghost ctx_pre = *ctx;
                proof {
                    assert(decreases_to!(*e => e.kind));
                }
                let ret2 = match self.visit_expr(ctx, global, &**ret) {
                    Ok(v) => v,
                    Err(e2) => {
                        proof {
                            assert forall|nty: int|
                                nty <= old(ctx).types@.len() && old(self).et_cetera_arg is None
                                    && plain_expr(*e, nty) implies false by {
                                assert(plain_expr(**ret, nty));
                            }
                        }
                        return Err(e2);
                    },
                };
                proof {
                    crate::ast::lemma_extends_trans(*old(ctx), ctx_pre, *ctx);
                }
                Ok(Expr { kind: ExprKind::Block(new_statements, Box::new(ret2)), span })
            },
            ExprKind::Call(callee, args) => {
                let ghost ctx0 = *ctx;
                let callee2 = match self.visit_expr(ctx, global, &**callee) {
                    Ok(v) => v,
                    Err(e2) => {
                        proof {
                            assert forall|nty: int|
                                nty <= old(ctx).types@.len() && old(self).et_cetera_arg is None
                                    && plain_expr(*e, nty) implies false by {
                                assert(plain_expr(**callee, nty));
                            }
                        }
                        return Err(e2);
                    },
                };
                let ghost ctx1 = *ctx;
                proof {
                    assert(decreases_to!(*e => e.kind));
                    assert(decreases_to!(e.kind => *args));
                }
                let args2 = match self.expand_args(ctx, global, args) {
                    Ok(v) => v,
                    Err(e2) => {
                        proof {
                            crate::ast::lemma_extends_trans(ctx0, ctx1, *ctx);
                            assert forall|nty: int|
                                nty <= old(ctx).types@.len() && old(self).et_cetera_arg is None
                                    && plain_expr(*e, nty) implies false by {
                                assert(plain_exprs(args@, args@.len() as int, nty));
                            }
                        }
                        return Err(e2);
                    },
                };
                proof {
                    crate::ast::lemma_extends_trans(ctx0, ctx1, *ctx);
                }
                Ok(Expr { kind: ExprKind::Call(Box::new(callee2), args2), span })
            },
            ExprKind::Tuple(args) => {
                proof {
                    assert(decreases_to!(*e => e.kind));
                    assert(decreases_to!(e.kind => *args));
                }
                match self.expand_args(ctx, global, args) {
                    Ok(v) => Ok(Expr { kind: ExprKind::Tuple(v), span }),
                    Err(e2) => {
                        proof {
                            assert forall|nty: int|
                                nty <= old(ctx).types@.len() && old(self).et_cetera_arg is None
                                    && plain_expr(*e, nty) implies false by {
                                assert(plain_exprs(args@, args@.len() as int, nty));
                            }
                        }
                        Err(e2)
                    },
                }
            },
            ExprKind::Array(args) => {
                proof {
                    assert(decreases_to!(*e => e.kind));
                    assert(decreases_to!(e.kind => *args));
                }
                match self.expand_args(ctx, global, args) {
                    Ok(v) => Ok(Expr { kind: ExprKind::Array(v), span }),
                    Err(e2) => {
                        proof {
                            assert forall|nty: int|
                                nty <= old(ctx).types@.len() && old(self).et_cetera_arg is None
                                    && plain_expr(*e, nty) implies false by {
                                assert(plain_exprs(args@, args@.len() as int, nty));
                            }
                        }
                        Err(e2)
                    },
                }
            },
            ExprKind::Binary(op, a, b) => {
                let ghost ctx0 = *ctx;
                let a2 = match self.visit_expr(ctx, global, &**a) {
                    Ok(v) => v,
                    Err(e2) => {
                        proof {
                            assert forall|nty: int|
                                nty <= old(ctx).types@.len() && old(self).et_cetera_arg is None
                                    && plain_expr(*e, nty) implies false by {
                                assert(plain_expr(**a, nty));
                            }
                        }
                        return Err(e2);
                    },
                };
                let ghost ctx1 = *ctx;
                let b2 = match self.visit_expr(ctx, global, &**b) {
                    Ok(v) => v,
                    Err(e2) => {
                        proof {
                            crate::ast::lemma_extends_trans(ctx0, ctx1, *ctx);
                        }
                        proof {
                            assert forall|nty: int|
                                nty <= old(ctx).types@.len() && old(self).et_cetera_arg is None
                                    && plain_expr(*e, nty) implies false by {
                                assert(plain_expr(**b, nty));
                            }
                        }
                        return Err(e2);
                    },
                };
                proof {
                    crate::ast::lemma_extends_trans(ctx0, ctx1, *ctx);
                }
                Ok(Expr { kind: ExprKind::Binary(*op, Box::new(a2), Box::new(b2)), span })
            },
            ExprKind::Ref(inner) => {
                match self.visit_expr(ctx, global, &**inner) {
                    Ok(v) => Ok(Expr { kind: ExprKind::Ref(Box::new(v)), span }),
                    Err(e2) => {
                        proof {
                            assert forall|nty: int|
                                nty <= old(ctx).types@.len() && old(self).et_cetera_arg is None
                                    && plain_expr(*e, nty) implies false by {
                                assert(plain_expr(**inner, nty));
                            }
                        }
                        Err(e2)
                    },
                }
            },
            ExprKind::Deref(inner) => {
                match self.visit_expr(ctx, global, &**inner) {
                    Ok(v) => Ok(Expr { kind: ExprKind::Deref(Box::new(v)), span }),
                    Err(e2) => {
                        proof {
                            assert forall|nty: int|
                                nty <= old(ctx).types@.len() && old(self).et_cetera_arg is None
                                    && plain_expr(*e, nty) implies false by {
                                assert(plain_expr(**inner, nty));
                            }
                        }
                        Err(e2)
                    },
                }
            },
            ExprKind::Unary(op, inner) => {
                match self.visit_expr(ctx, global, &**inner) {
                    Ok(v) => Ok(Expr { kind: ExprKind::Unary(*op, Box::new(v)), span }),
                    Err(e2) => {
                        proof {
                            assert forall|nty: int|
                                nty <= old(ctx).types@.len() && old(self).et_cetera_arg is None
                                    && plain_expr(*e, nty) implies false by {
                                assert(plain_expr(**inner, nty));
                            }
                        }
                        Err(e2)
                    },
                }
            },
            ExprKind::Assign(a, b) => {
                let ghost ctx0 = *ctx;
                let a2 = match self.visit_expr(ctx, global, &**a) {
                    Ok(v) => v,
                    Err(e2) => {
                        proof {
                            assert forall|nty: int|
                                nty <= old(ctx).types@.len() && old(self).et_cetera_arg is None
                                    && plain_expr(*e, nty) implies false by {
                                assert(plain_expr(**a, nty));
                            }
                        }
                        return Err(e2);
                    },
                };
                let ghost ctx1 = *ctx;
                let b2 = match self.visit_expr(ctx, global, &**b) {
                    Ok(v) => v,
                    Err(e2) => {
                        proof {
                            crate::ast::lemma_extends_trans(ctx0, ctx1, *ctx);
                        }
                        proof {
                            assert forall|nty: int|
                                nty <= old(ctx).types@.len() && old(self).et_cetera_arg is None
                                    && plain_expr(*e, nty) implies false by {
                                assert(plain_expr(**b, nty));
                            }
                        }
                        return Err(e2);
                    },
                };
                proof {
                    crate::ast::lemma_extends_trans(ctx0, ctx1, *ctx);
                }
                Ok(Expr { kind: ExprKind::Assign(Box::new(a2), Box::new(b2)), span })
            },
            ExprKind::AssignOp(op, a, b) => {
                let ghost ctx0 = *ctx;
                let a2 = match self.visit_expr(ctx, global, &**a) {
                    Ok(v) => v,
                    Err(e2) => {
                        proof {
                            assert forall|nty: int|
                                nty <= old(ctx).types@.len() && old(self).et_cetera_arg is None
                                    && plain_expr(*e, nty) implies false by {
                                assert(plain_expr(**a, nty));
                            }
                        }
                        return Err(e2);
                    },
                };
                let ghost ctx1 = *ctx;
                let b2 = match self.visit_expr(ctx, global, &**b) {
                    Ok(v) => v,
                    Err(e2) => {
                        proof {
                            crate::ast::lemma_extends_trans(ctx0, ctx1, *ctx);
                        }
                        proof {
                            assert forall|nty: int|
                                nty <= old(ctx).types@.len() && old(self).et_cetera_arg is None
                                    && plain_expr(*e, nty) implies false by {
                                assert(plain_expr(**b, nty));
                            }
                        }
                        return Err(e2);
                    },
                };
                proof {
                    crate::ast::lemma_extends_trans(ctx0, ctx1, *ctx);
                }
                Ok(Expr { kind: ExprKind::AssignOp(*op, Box::new(a2), Box::new(b2)), span })
            },
            ExprKind::Loop(inner) => {
                match self.visit_expr(ctx, global, &**inner) {
                    Ok(v) => Ok(Expr { kind: ExprKind::Loop(Box::new(v)), span }),
                    Err(e2) => {
                        proof {
                            assert forall|nty: int|
                                nty <= old(ctx).types@.len() && old(self).et_cetera_arg is None
                                    && plain_expr(*e, nty) implies false by {
                                assert(plain_expr(**inner, nty));
                            }
                        }
                        Err(e2)
                    },
                }
            },
            ExprKind::Break(inner) => {
                let v = match inner {
                    Some(x) => match self.visit_expr(ctx, global, &**x) {
                        Ok(v2) => Some(Box::new(v2)),
                        Err(e2) => {
                            proof {
                                assert forall|nty: int|
                                    nty <= old(ctx).types@.len() && old(self).et_cetera_arg is None
                                        && plain_expr(*e, nty) implies false by {
                                    assert(plain_expr(**x, nty));
                                }
                            }
                            return Err(e2);
                        },
                    },
                    None => None,
                };
                Ok(Expr { kind: ExprKind::Break(v), span })
            },
            ExprKind::Return(inner) => {
                let v = match inner {
                    Some(x) => match self.visit_expr(ctx, global, &**x) {
                        Ok(v2) => Some(Box::new(v2)),
                        Err(e2) => {
                            proof {
                                assert forall|nty: int|
                                    nty <= old(ctx).types@.len() && old(self).et_cetera_arg is None
                                        && plain_expr(*e, nty) implies false by {
                                    assert(plain_expr(**x, nty));
                                }
                            }
                            return Err(e2);
                        },
                    },
                    None => None,
                };
                Ok(Expr { kind: ExprKind::Return(v), span })
            },
            ExprKind::Defer(inner) => {
                match self.visit_expr(ctx, global, &**inner) {
                    Ok(v) => Ok(Expr { kind: ExprKind::Defer(Box::new(v)), span }),
                    Err(e2) => {
                        proof {
                            assert forall|nty: int|
                                nty <= old(ctx).types@.len() && old(self).et_cetera_arg is None
                                    && plain_expr(*e, nty) implies false by {
                                assert(plain_expr(**inner, nty));
                            }
                        }
                        Err(e2)
                    },
                }
            },
            ExprKind::Field(inner, name) => {
                match self.visit_expr(ctx, global, &**inner) {
                    Ok(v) => Ok(
                        Expr { kind: ExprKind::Field(Box::new(v), name.clone()), span },
                    ),
                    Err(e2) => {
                        proof {
                            assert forall|nty: int|
                                nty <= old(ctx).types@.len() && old(self).et_cetera_arg is None
                                    && plain_expr(*e, nty) implies false by {
                                assert(plain_expr(**inner, nty));
                            }
                        }
                        Err(e2)
                    },
                }
            },
            ExprKind::Struct(ty, inits) => {
                let ty2 = match self.visit_typ(ctx, *ty) {
                    Ok(t) => t,
                    Err(e2) => {
                        return Err(e2);
                    },
                };
                let mut inits2: Vec<FieldInitializer> = Vec::new();
                let n = inits.len();
                let mut i: usize = 0;
                while i < n
                    invariant
                        old(ctx).wf(),
                        ctx.wf(),
                        ctx.extends(*old(ctx)),
                        n == inits@.len(),
                        i <= n,
                        MacroExpander::same_frame(*self, *old(self)),
                        id_repls_extend(self.id_replacements@, old(self).id_replacements@),
                        repls_fresh_in(
                            self.id_replacements@,
                            old(self).id_replacements@.len() as int,
                            old(ctx).counter(),
                            ctx.counter(),
                        ),
                        self.et_cetera_index == old(self).et_cetera_index,
                        self.depth == old(self).depth,
                        self.invocation_span == old(self).invocation_span,
                        e.kind matches ExprKind::Struct(_, s2) && s2 == *inits,
                    decreases n - i,
                {
                    let ghost ctx_pre = *ctx;
                    proof {
                        assert(decreases_to!(*e => e.kind));
                        assert(decreases_to!(e.kind => inits@[i as int]));
                        assert(decreases_to!(inits@[i as int] => inits@[i as int].value));
                        assert forall|nty: int|
                            nty <= old(ctx).types@.len() && plain_expr(*e, nty) implies plain_expr(
                            inits@[i as int].value,
                            nty,
                        ) by {
                            lemma_plain_inits_element(inits@, inits@.len() as int, nty, i as int);
                        }
                    }
                    let v = match self.visit_expr(ctx, global, &inits[i].value) {
                        Ok(v2) => v2,
                        Err(e2) => {
                            proof {
                                assert forall|nty: int|
                                    nty <= old(ctx).types@.len() && old(self).et_cetera_arg is None
                                        && plain_expr(*e, nty) implies false by {
                                    lemma_plain_inits_element(inits@, inits@.len() as int, nty, i as int);
                                }
                            }
                            return Err(e2);
                        },
                    };
                    proof {
                        crate::ast::lemma_extends_trans(*old(ctx), ctx_pre, *ctx);
                    }
                    inits2.push(
                        FieldInitializer {
                            name: inits[i].name.clone(),
                            value: v,
                            span: self.invocation_span,
                        },
                    );
                    i = i + 1;
                }
                Ok(Expr { kind: ExprKind::Struct(ty2, inits2), span })
            },
            ExprKind::TupleIndex(inner, idx) => {
                match self.visit_expr(ctx, global, &**inner) {
                    Ok(v) => Ok(Expr { kind: ExprKind::TupleIndex(Box::new(v), *idx), span }),
                    Err(e2) => {
                        proof {
                            assert forall|nty: int|
                                nty <= old(ctx).types@.len() && old(self).et_cetera_arg is None
                                    && plain_expr(*e, nty) implies false by {
                                assert(plain_expr(**inner, nty));
                            }
                        }
                        Err(e2)
                    },
                }
            },
            ExprKind::Index(a, b) => {
                let ghost ctx0 = *ctx;
                let a2 = match self.visit_expr(ctx, global, &**a) {
                    Ok(v) => v,
                    Err(e2) => {
                        proof {
                            assert forall|nty: int|
                                nty <= old(ctx).types@.len() && old(self).et_cetera_arg is None
                                    && plain_expr(*e, nty) implies false by {
                                assert(plain_expr(**a, nty));
                            }
                        }
                        return Err(e2);
                    },
                };
                let ghost ctx1 = *ctx;
                let b2 = match self.visit_expr(ctx, global, &**b) {
                    Ok(v) => v,
                    Err(e2) => {
                        proof {
                            crate::ast::lemma_extends_trans(ctx0, ctx1, *ctx);
                        }
                        proof {
                            assert forall|nty: int|
                                nty <= old(ctx).types@.len() && old(self).et_cetera_arg is None
                                    && plain_expr(*e, nty) implies false by {
                                assert(plain_expr(**b, nty));
                            }
                        }
                        return Err(e2);
                    },
                };
                proof {
                    crate::ast::lemma_extends_trans(ctx0, ctx1, *ctx);
                }
                Ok(Expr { kind: ExprKind::Index(Box::new(a2), Box::new(b2)), span })
            },
            ExprKind::Range(lo, hi, inclusive) => {
                let ghost ctx0 = *ctx;
                let lo2 = match lo {
                    Some(x) => match self.visit_expr(ctx, global, &**x) {
                        Ok(v) => Some(Box::new(v)),
                        Err(e2) => {
                            proof {
                                assert forall|nty: int|
                                    nty <= old(ctx).types@.len() && old(self).et_cetera_arg is None
                                        && plain_expr(*e, nty) implies false by {
                                    assert(plain_expr(**x, nty));
                                }
                            }
                            return Err(e2);
                        },
                    },
                    None => None,
                };
                let ghost ctx1 = *ctx;
                let hi2 = match hi {
                    Some(x) => match self.visit_expr(ctx, global, &**x) {
                        Ok(v) => Some(Box::new(v)),
                        Err(e2) => {
                            proof {
                                crate::ast::lemma_extends_trans(ctx0, ctx1, *ctx);
                            }
                            proof {
                                assert forall|nty: int|
                                    nty <= old(ctx).types@.len() && old(self).et_cetera_arg is None
                                        && plain_expr(*e, nty) implies false by {
                                    assert(plain_expr(**x, nty));
                                }
                            }
                            return Err(e2);
                        },
                    },
                    None => None,
                };
                proof {
                    crate::ast::lemma_extends_trans(ctx0, ctx1, *ctx);
                }
                Ok(Expr { kind: ExprKind::Range(lo2, hi2, *inclusive), span })
            },
            ExprKind::If(c, t, f) => {
                let ghost ctx0 = *ctx;
                let c2 = match self.visit_expr(ctx, global, &**c) {
                    Ok(v) => v,
                    Err(e2) => {
                        proof {
                            assert forall|nty: int|
                                nty <= old(ctx).types@.len() && old(self).et_cetera_arg is None
                                    && plain_expr(*e, nty) implies false by {
                                assert(plain_expr(**c, nty));
                            }
                        }
                        return Err(e2);
                    },
                };
                let ghost ctx1 = *ctx;
                let t2 = match self.visit_expr(ctx, global, &**t) {
                    Ok(v) => v,
                    Err(e2) => {
                        proof {
                            crate::ast::lemma_extends_trans(ctx0, ctx1, *ctx);
                        }
                        proof {
                            assert forall|nty: int|
                                nty <= old(ctx).types@.len() && old(self).et_cetera_arg is None
                                    && plain_expr(*e, nty) implies false by {
                                assert(plain_expr(**t, nty));
                            }
                        }
                        return Err(e2);
                    },
                };
                let ghost ctx2 = *ctx;
                let f2 = match self.visit_expr(ctx, global, &**f) {
                    Ok(v) => v,
                    Err(e2) => {
                        proof {
                            crate::ast::lemma_extends_trans(ctx0, ctx1, ctx2);
                            crate::ast::lemma_extends_trans(ctx0, ctx2, *ctx);
                        }
                        proof {
                            assert forall|nty: int|
                                nty <= old(ctx).types@.len() && old(self).et_cetera_arg is None
                                    && plain_expr(*e, nty) implies false by {
                                assert(plain_expr(**f, nty));
                            }
                        }
                        return Err(e2);
                    },
                };
                proof {
                    crate::ast::lemma_extends_trans(ctx0, ctx1, ctx2);
                    crate::ast::lemma_extends_trans(ctx0, ctx2, *ctx);
                }
                Ok(
                    Expr {
                        kind: ExprKind::If(Box::new(c2), Box::new(t2), Box::new(f2)),
                        span,
                    },
                )
            },
            ExprKind::StaticIf(c, t, f) => {
                let ghost ctx0 = *ctx;
                let c2 = match self.visit_expr(ctx, global, &**c) {
                    Ok(v) => v,
                    Err(e2) => {
                        proof {
                            assert forall|nty: int|
                                nty <= old(ctx).types@.len() && old(self).et_cetera_arg is None
                                    && plain_expr(*e, nty) implies false by {
                                assert(plain_expr(**c, nty));
                            }
                        }
                        return Err(e2);
                    },
                };
                let ghost ctx1 = *ctx;
                let t2 = match self.visit_expr(ctx, global, &**t) {
                    Ok(v) => v,
                    Err(e2) => {
                        proof {
                            crate::ast::lemma_extends_trans(ctx0, ctx1, *ctx);
                        }
                        proof {
                            assert forall|nty: int|
                                nty <= old(ctx).types@.len() && old(self).et_cetera_arg is None
                                    && plain_expr(*e, nty) implies false by {
                                assert(plain_expr(**t, nty));
                            }
                        }
                        return Err(e2);
                    },
                };
                let ghost ctx2 = *ctx;
                let f2 = match self.visit_expr(ctx, global, &**f) {
                    Ok(v) => v,
                    Err(e2) => {
                        proof {
                            crate::ast::lemma_extends_trans(ctx0, ctx1, ctx2);
                            crate::ast::lemma_extends_trans(ctx0, ctx2, *ctx);
                        }
                        proof {
                            assert forall|nty: int|
                                nty <= old(ctx).types@.len() && old(self).et_cetera_arg is None
                                    && plain_expr(*e, nty) implies false by {
                                assert(plain_expr(**f, nty));
                            }
                        }
                        return Err(e2);
                    },
                };
                proof {
                    crate::ast::lemma_extends_trans(ctx0, ctx1, ctx2);
                    crate::ast::lemma_extends_trans(ctx0, ctx2, *ctx);
                }
                Ok(
                    Expr {
                        kind: ExprKind::StaticIf(Box::new(c2), Box::new(t2), Box::new(f2)),
                        span,
                    },
                )
            },
            ExprKind::TypeCheck(inner, ty) => {
                let ty2 = match self.visit_typ(ctx, *ty) {
                    Ok(t) => t,
                    Err(e2) => {
                        return Err(e2);
                    },
                };
                match self.visit_expr(ctx, global, &**inner) {
                    Ok(v) => Ok(Expr { kind: ExprKind::TypeCheck(Box::new(v), ty2), span }),
                    Err(e2) => {
                        proof {
                            assert forall|nty: int|
                                nty <= old(ctx).types@.len() && old(self).et_cetera_arg is None
                                    && plain_expr(*e, nty) implies false by {
                                assert(plain_expr(**inner, nty));
                            }
                        }
                        Err(e2)
                    },
                }
            },
            ExprKind::Cast(inner, ty) => {
                let ty2 = match self.visit_typ(ctx, *ty) {
                    Ok(t) => t,
                    Err(e2) => {
                        return Err(e2);
                    },
                };
                match self.visit_expr(ctx, global, &**inner) {
                    Ok(v) => Ok(Expr { kind: ExprKind::Cast(Box::new(v), ty2), span }),
                    Err(e2) => {
                        proof {
                            assert forall|nty: int|
                                nty <= old(ctx).types@.len() && old(self).et_cetera_arg is None
                                    && plain_expr(*e, nty) implies false by {
                                assert(plain_expr(**inner, nty));
                            }
                        }
                        Err(e2)
                    },
                }
            },
            ExprKind::GenericFunction(inner, tys) => {
                match self.visit_expr(ctx, global, &**inner) {
                    Ok(v) => Ok(
                        Expr {
                            kind: ExprKind::GenericFunction(Box::new(v), copy_vec(tys)),
                            span,
                        },
                    ),
                    Err(e2) => {
                        proof {
                            assert forall|nty: int|
                                nty <= old(ctx).types@.len() && old(self).et_cetera_arg is None
                                    && plain_expr(*e, nty) implies false by {
                                assert(plain_expr(**inner, nty));
                            }
                        }
                        Err(e2)
                    },
                }
            },
            ExprKind::Function(item) => Ok(Expr { kind: ExprKind::Function(*item), span }),
            ExprKind::Static(item) => Ok(Expr { kind: ExprKind::Static(*item), span }),
            ExprKind::Const(item) => Ok(Expr { kind: ExprKind::Const(*item), span }),
            ExprKind::EnumValue(item, id) => Ok(
                Expr { kind: ExprKind::EnumValue(*item, *id), span },
            ),
            ExprKind::DeferredFunction(id, name) => Ok(
                Expr { kind: ExprKind::DeferredFunction(*id, name.clone()), span },
            ),
            ExprKind::Continue => Ok(Expr { kind: ExprKind::Continue, span }),
            ExprKind::Lit(l) => Ok(Expr { kind: ExprKind::Lit(lit_clone(l)), span }),
            ExprKind::Macro(item, bound) => Ok(
                Expr { kind: ExprKind::Macro(*item, exprs_clone(bound)), span },
            ),
            ExprKind::Void => Ok(Expr { kind: ExprKind::Void, span }),
        }
    }
}



/// The rendering of the first `n` bytes of a string literal, for
/// `stringify`: printable ASCII other than quote and backslash stands as
/// itself, everything else as `?`.
pub open spec fn pretty_str_n(bytes: Seq<u8>, n: int) -> Seq<char>
    decreases n,
{
    if n <= 0 || n > bytes.len() {
        Seq::empty()
    } else {
        pretty_str_n(bytes, n - 1) + ({
            let c = bytes[n - 1];
            if 32 <= c && c <= 126 && c != 34 && c != 92 {
                seq![c as char]
            } else {
                "?"@
            }
        })
    }
}

/// The rendering of a literal, for `stringify`.
pub open spec fn pretty_lit_text(l: Lit) -> Seq<char> {
    match l {
        Lit::Str(bytes) => "\""@ + pretty_str_n(bytes@, bytes@.len() as int) + "\""@,
        Lit::Byte(b) => crate::codegen::dec_digits(b as nat),
        Lit::Int(v) => crate::codegen::dec_digits(v as nat),
        Lit::Float(f) => f@,
        Lit::Bool(b) => if b {
            "true"@
        } else {
            "false"@
        },
        Lit::Null => "null"@,
    }
}

/// The text `stringify` renders an expression as: a compact source form,
/// with bound names shown by their numeric ids and the few forms the macro
/// subsystem does not print spelled `<expr>`.
pub open spec fn pretty_text(e: Expr) -> Seq<char>
    decreases e, 0int, 0int,
{
    match e.kind {
        ExprKind::Lit(l) => pretty_lit_text(l),
        ExprKind::Local(id) => "$"@ + crate::codegen::dec_digits(id.id as nat),
        ExprKind::Binary(op, a, b) => "("@ + pretty_text(*a) + " "@
            + crate::codegen::binop_token(op) + " "@ + pretty_text(*b) + ")"@,
        ExprKind::Unary(op, inner) => "("@ + crate::codegen::unop_token(op)
            + pretty_text(*inner) + ")"@,
        ExprKind::Ref(inner) => "&"@ + pretty_text(*inner),
        ExprKind::Deref(inner) => "*"@ + pretty_text(*inner),
        ExprKind::Call(callee, args) => pretty_text(*callee) + "("@
            + pretty_list_text(args@, args@.len() as int) + ")"@,
        ExprKind::Tuple(args) => "("@ + pretty_list_text(args@, args@.len() as int) + ")"@,
        ExprKind::Array(args) => "["@ + pretty_list_text(args@, args@.len() as int) + "]"@,
        ExprKind::If(c, t, f) => "if "@ + pretty_text(*c) + " { "@ + pretty_text(*t)
            + " } else { "@ + pretty_text(*f) + " }"@,
        ExprKind::Void => "()"@,
        _ => "<expr>"@,
    }
}

/// Comma-separated renderings of the first `n` expressions of a list.
pub open spec fn pretty_list_text(s: Seq<Expr>, n: int) -> Seq<char>
    decreases s, 2int, n,
{
    if n <= 0 || n > s.len() {
        Seq::empty()
    } else {
        pretty_list_text(s, n - 1) + (if n > 1 {
            ", "@
        } else {
            Seq::empty()
        }) + pretty_text(s[n - 1])
    }
}

/// A compact source rendering of an expression, for `stringify` (see
/// `pretty_text`).
fn pretty_expr(e: &Expr) -> (r: String)
    ensures
        r@ == pretty_text(*e),
    decreases *e, 1int,
{
    proof {
        assert(decreases_to!(*e => e.kind));
    }
    match &e.kind {
        ExprKind::Lit(l) => match l {
            Lit::Str(bytes) => {
                let mut s = String::from_str("\"");
                let n = bytes.len();
                let mut i: usize = 0;
                proof {
                    assert(s@ =~= "\""@ + pretty_str_n(bytes@, 0));
                }
                while i < n
                    invariant
                        n == bytes@.len(),
                        i <= n,
                        s@ == "\""@ + pretty_str_n(bytes@, i as int),
                    decreases n - i,
                {
                    let c = bytes[i];
                    if 32 <= c && c <= 126 && c != 34 && c != 92 {
                        crate::codegen::push_char(&mut s, c as char);
                    } else {
                        s.append("?");
                    }
                    proof {
                        assert(s@ =~= "\""@ + pretty_str_n(bytes@, i + 1));
                    }
                    i = i + 1;
                }
                s.append("\"");
                s
            },
            Lit::Byte(b) => crate::codegen::u128_dec(*b as u128),
            Lit::Int(v) => crate::codegen::u128_dec(*v),
            Lit::Float(f) => f.clone(),
            Lit::Bool(b) => {
                if *b {
                    String::from_str("true")
                } else {
                    String::from_str("false")
                }
            },
            Lit::Null => String::from_str("null"),
        },
        ExprKind::Local(id) => {
            let mut s = String::from_str("$");
            s.append(crate::codegen::usize_dec(id.id).as_str());
            s
        },
        ExprKind::Binary(op, a, b) => {
            let mut s = String::from_str("(");
            s.append(pretty_expr(&**a).as_str());
            s.append(" ");
            s.append(crate::codegen::binop_str(*op));
            s.append(" ");
            s.append(pretty_expr(&**b).as_str());
            s.append(")");
            s
        },
        ExprKind::Unary(op, inner) => {
            let mut s = String::from_str("(");
            s.append(crate::codegen::unop_str(*op));
            s.append(pretty_expr(&**inner).as_str());
            s.append(")");
            s
        },
        ExprKind::Ref(inner) => {
            let mut s = String::from_str("&");
            s.append(pretty_expr(&**inner).as_str());
            s
        },
        ExprKind::Deref(inner) => {
            let mut s = String::from_str("*");
            s.append(pretty_expr(&**inner).as_str());
            s
        },
        ExprKind::Call(callee, args) => {
            let mut s = pretty_expr(&**callee);
            s.append("(");
            proof {
                assert(decreases_to!(e.kind => *args));
            }
            s.append(pretty_exprs(args).as_str());
            s.append(")");
            s
        },
        ExprKind::Tuple(args) => {
            let mut s = String::from_str("(");
            proof {
                assert(decreases_to!(e.kind => *args));
            }
            s.append(pretty_exprs(args).as_str());
            s.append(")");
            s
        },
        ExprKind::Array(args) => {
            let mut s = String::from_str("[");
            proof {
                assert(decreases_to!(e.kind => *args));
            }
            s.append(pretty_exprs(args).as_str());
            s.append("]");
            s
        },
        ExprKind::If(c, t, f) => {
            let mut s = String::from_str("if ");
            s.append(pretty_expr(&**c).as_str());
            s.append(" { ");
            s.append(pretty_expr(&**t).as_str());
            s.append(" } else { ");
            s.append(pretty_expr(&**f).as_str());
            s.append(" }");
            s
        },
        ExprKind::Void => String::from_str("()"),
        _ => String::from_str("<expr>"),
    }
}

/// Comma-separated renderings of a list of expressions (see
/// `pretty_list_text`).
fn pretty_exprs(v: &Vec<Expr>) -> (r: String)
    ensures
        r@ == pretty_list_text(v@, v@.len() as int),
    decreases v@, 2int,
{
    let mut s = String::new();
    let n = v.len();
    let mut i: usize = 0;
    proof {
        assert(s@ =~= pretty_list_text(v@, 0));
    }
    while i < n
        invariant
            n == v@.len(),
            i <= n,
            s@ == pretty_list_text(v@, i as int),
        decreases n - i,
    {
        if i > 0 {
            s.append(", ");
        }
        proof {
            assert(decreases_to!(v@ => v@[i as int]));
        }
        s.append(pretty_expr(&v[i]).as_str());
        proof {
            assert(s@ =~= pretty_list_text(v@, i + 1));
        }
        i = i + 1;
    }
    s
}

impl MacroExpander {
    /// Expands one of the builtin macros (see `builtin_post`).
    fn expand_builtin(
        self,
        ctx: &mut AstCtx,
        global: &GlobalCtx,
        kind: BuiltinMacroKind,
    ) -> (r: Result<Expr, ErrorKind>)
        requires
            old(ctx).wf(),
        ensures
            final(ctx).wf(),
            final(ctx).extends(*old(ctx)),
            builtin_post(kind, self.args@, self.invocation_span, *global, r),
        decreases self.depth, 2int,
    {
        let span = self.invocation_span;
        match kind {
            BuiltinMacroKind::Concat => {
                let m = self.args.len();
                let mut out: Vec<u8> = Vec::new();
                proof {
                    assert(Seq::<u8>::empty() =~= out@);
                }
                let mut i: usize = 0;
                while i < m
                    invariant
                        m == self.args@.len(),
                        i <= m,
                        concat_strs(self.args@, i as int) == Some(out@),
                        kind == BuiltinMacroKind::Concat,
                        *ctx == *old(ctx),
                        old(ctx).wf(),
                    decreases m - i,
                {
                    let bytes = match &self.args[i].kind {
                        ExprKind::Lit(Lit::Str(b)) => b,
                        _ => {
                            proof {
                                lemma_concat_none(self.args@, i as int, m as int);
                            }
                            return Err(ErrorKind::ConstantStringExpected);
                        },
                    };
                    let bn = bytes.len();
                    let mut j: usize = 0;
                    let ghost out0 = out@;
                    while j < bn
                        invariant
                            bn == bytes@.len(),
                            j <= bn,
                            out@ == out0 + bytes@.subrange(0, j as int),
                        decreases bn - j,
                    {
                        out.push(bytes[j]);
                        proof {
                            assert(out@ =~= out0 + bytes@.subrange(0, j + 1));
                        }
                        j = j + 1;
                    }
                    proof {
                        assert(bytes@.subrange(0, bn as int) =~= bytes@);
                        assert(out@ =~= out0 + bytes@);
                    }
                    i = i + 1;
                }
                Ok(Expr { kind: ExprKind::Lit(Lit::Str(out)), span })
            },
            BuiltinMacroKind::Line => match span {
                None => Err(ErrorKind::NoSpanInformation),
                Some(sp) => {
                    let v: u128 = (sp.line as u128) + 1;
                    Ok(Expr { kind: ExprKind::Lit(Lit::Int(v)), span })
                },
            },
            BuiltinMacroKind::Column => match span {
                None => Err(ErrorKind::NoSpanInformation),
                Some(sp) => {
                    let v: u128 = (sp.column as u128) + 1;
                    Ok(Expr { kind: ExprKind::Lit(Lit::Int(v)), span })
                },
            },
            BuiltinMacroKind::File => {
                if self.args.len() != 0 {
                    return Err(ErrorKind::ParamCountMismatch(0, self.args.len()));
                }
                match span {
                    None => Err(ErrorKind::NoSpanInformation),
                    Some(sp) => match global.diag.get_file_path(sp.file) {
                        Some(path) => {
                            let bytes = path_to_bytes(path.as_str());
                            Ok(Expr { kind: ExprKind::Lit(Lit::Str(bytes)), span })
                        },
                        None => Err(ErrorKind::NoSpanInformation),
                    },
                }
            },
            BuiltinMacroKind::Env => {
                if self.args.len() != 1 {
                    return Err(ErrorKind::ParamCountMismatch(1, self.args.len()));
                }
                let name = match &self.args[0].kind {
                    ExprKind::Lit(Lit::Str(b)) => b,
                    _ => {
                        return Err(ErrorKind::ConstantStringExpected);
                    },
                };
                match global.env_var(name) {
                    Some(value) => Ok(
                        Expr { kind: ExprKind::Lit(Lit::Str(copy_vec(value))), span },
                    ),
                    None => Err(ErrorKind::EnvVarNotFound),
                }
            },
            BuiltinMacroKind::IncludeBytes => {
                if self.args.len() != 1 {
                    return Err(ErrorKind::ParamCountMismatch(1, self.args.len()));
                }
                let name = match &self.args[0].kind {
                    ExprKind::Lit(Lit::Str(b)) => b,
                    _ => {
                        return Err(ErrorKind::ConstantStringExpected);
                    },
                };
                match global.file_contents(name) {
                    Some(data) => Ok(
                        Expr { kind: ExprKind::Lit(Lit::Str(copy_vec(data))), span },
                    ),
                    None => Err(ErrorKind::CannotReadFile),
                }
            },
            BuiltinMacroKind::Stringify => {
                if self.args.len() != 1 {
                    return Err(ErrorKind::ParamCountMismatch(1, self.args.len()));
                }
                let text = pretty_expr(&self.args[0]);
                let bytes = path_to_bytes(text.as_str());
                Ok(Expr { kind: ExprKind::Lit(Lit::Str(bytes)), span })
            },
            BuiltinMacroKind::Bind => {
                if self.args.len() == 0 {
                    return Err(ErrorKind::NotEnoughMacroArguments(1));
                }
                let (item, bound) = match &self.args[0].kind {
                    ExprKind::Macro(item, bound) => (*item, bound),
                    _ => {
                        return Err(ErrorKind::MacroExpected);
                    },
                };
                let ghost bvals = bound@;
                let mut nb = exprs_clone(bound);
                proof {
                    crate::ast::lemma_exprs_view_n(bvals, bvals.len() as int);
                    crate::ast::lemma_exprs_view_n(nb@, nb@.len() as int);
                    assert forall|t: int|
                        0 <= t < bvals.len() implies expr_view(#[trigger] nb@[t]) == expr_view(
                        bvals[t],
                    ) by {
                        assert(exprs_view(nb@)[t] == expr_view(nb@[t]));
                        assert(exprs_view(bvals)[t] == expr_view(bvals[t]));
                    }
                }
                let m = self.args.len();
                let mut i: usize = 1;
                while i < m
                    invariant
                        m == self.args@.len(),
                        1 <= i <= m,
                        nb@.len() == bvals.len() + (i - 1),
                        forall|t: int|
                            0 <= t < bvals.len() ==> expr_view(#[trigger] nb@[t]) == expr_view(
                                bvals[t],
                            ),
                        forall|t: int|
                            bvals.len() <= t < nb@.len() ==> expr_view(#[trigger] nb@[t])
                                == expr_view(self.args@[t - bvals.len() + 1]),
                        self.args@[0].kind matches ExprKind::Macro(_, _),
                    decreases m - i,
                {
                    let ghost nb0 = nb@;
                    let cloned = expr_clone(&self.args[i]);
                    nb.push(cloned);
                    proof {
                        assert(forall|t: int| 0 <= t < nb0.len() ==> nb@[t] == nb0[t]);
                    }
                    i = i + 1;
                }
                proof {
                    crate::ast::lemma_exprs_view_n(nb@, nb@.len() as int);
                    crate::ast::lemma_exprs_view_n(bvals, bvals.len() as int);
                    crate::ast::lemma_exprs_view_n(self.args@.skip(1), m - 1);
                    assert(exprs_view(nb@) =~= exprs_view(bvals) + exprs_view(
                        self.args@.skip(1),
                    ));
                }
                Ok(Expr { kind: ExprKind::Macro(item, nb), span })
            },
            BuiltinMacroKind::Reduce => {
                if self.args.len() < 2 {
                    return Err(ErrorKind::NotEnoughMacroArguments(2));
                }
                let (item, bound) = match &self.args[0].kind {
                    ExprKind::Macro(item, bound) => (*item, bound),
                    _ => {
                        return Err(ErrorKind::MacroExpected);
                    },
                };
                if self.args.len() > 2 && self.depth == 0 {
                    return Err(ErrorKind::RecursiveMacroCall);
                }
                let bound_copy = exprs_clone(bound);
                let mut acc = expr_clone(&self.args[1]);
                let m = self.args.len();
                let mut i: usize = 2;
                while i < m
                    invariant
                        old(ctx).wf(),
                        ctx.wf(),
                        ctx.extends(*old(ctx)),
                        m == self.args@.len(),
                        2 <= i <= m,
                        m > 2 ==> self.depth >= 1,
                        i == 2 ==> expr_view(acc) == expr_view(self.args@[1]),
                        self.args@[0].kind matches ExprKind::Macro(_, _),
                        kind == BuiltinMacroKind::Reduce,
                    decreases m - i,
                {
                    let ghost ctx_pre = *ctx;
                    let mut child_args = exprs_clone(&bound_copy);
                    child_args.push(acc);
                    child_args.push(expr_clone(&self.args[i]));
                    let child = MacroExpander::new(
                        self.invocation_span,
                        item,
                        child_args,
                        self.depth - 1,
                    );
                    let r2 = child.expand(ctx, global);
                    proof {
                        crate::ast::lemma_extends_trans(*old(ctx), ctx_pre, *ctx);
                    }
                    match r2 {
                        Ok(v) => {
                            acc = v;
                        },
                        Err(e2) => {
                            return Err(e2);
                        },
                    }
                    i = i + 1;
                }
                Ok(acc)
            },
            BuiltinMacroKind::FormatArgs => {
                if self.args.len() < 2 {
                    return Err(ErrorKind::NotEnoughMacroArguments(2));
                }
                let (item, bound) = match &self.args[0].kind {
                    ExprKind::Macro(item, bound) => (*item, bound),
                    _ => {
                        return Err(ErrorKind::MacroExpected);
                    },
                };
                let fmt_string = match &self.args[1].kind {
                    ExprKind::Lit(Lit::Str(b)) => b,
                    _ => {
                        return Err(ErrorKind::ConstantStringExpected);
                    },
                };
                let pieces = match parse_fmt(fmt_string, self.args.len() - 2) {
                    Ok(p) => p,
                    Err(e2) => {
                        return Err(e2);
                    },
                };
                if self.depth == 0 {
                    return Err(ErrorKind::RecursiveMacroCall);
                }
                let mut child_args = exprs_clone(bound);
                let ghost fsv = fmt_string@;
                let np = pieces.len();
                let m = self.args.len();
                let mut i: usize = 0;
                while i < np
                    invariant
                        np == pieces@.len(),
                        m == self.args@.len(),
                        m >= 2,
                        i <= np,
                        self.args@[0].kind matches ExprKind::Macro(_, _),
                        self.args@[1].kind matches ExprKind::Lit(Lit::Str(fb)) && fb@ == fsv,
                        crate::fmt::parse_fmt_spec(fsv, 0, 0, m - 2) is Ok,
                        kind == BuiltinMacroKind::FormatArgs,
                        *ctx == *old(ctx),
                        old(ctx).wf(),
                    decreases np - i,
                {
                    match &pieces[i] {
                        Piece::Text(bytes) => {
                            child_args.push(
                                Expr {
                                    kind: ExprKind::Lit(Lit::Str(copy_vec(bytes))),
                                    span,
                                },
                            );
                        },
                        Piece::Argument(idx) => {
                            if *idx < m - 2 {
                                child_args.push(expr_clone(&self.args[idx + 2]));
                            } else {
                                return Err(ErrorKind::InternalError);
                            }
                        },
                    }
                    i = i + 1;
                }
                let child = MacroExpander::new(
                    self.invocation_span,
                    item,
                    child_args,
                    self.depth - 1,
                );
                child.expand(ctx, global)
            },
        }
    }
}

} // verus!
