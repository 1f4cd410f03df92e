use vstd::prelude::*;
use crate::Span;
use crate::ast::{
    AssociatedFn, AstCtx, Attribute, Enum, EnumMember, Field, Function, Intrinsic, IntrinsicKind,
    Item, ItemRef, LangItemKind, Macro, MacroParameter, Mixin, Parameter, Placeholder, Protocol,
    StaticOrConst, Struct, Ty, TypeDef, TyRef, Expr,
};
use crate::diag::{CodeError, DiagCtx, ErrorKind};
use crate::macros::MacroMaker;
use crate::text::str_eq;

verus! {

/// The name of the compiler intrinsic an `extern "intrinsic"` function
/// binds to.
pub open spec fn intrinsic_kind_of(name: Seq<char>) -> Option<IntrinsicKind> {
    if name == "size_of"@ {
        Some(IntrinsicKind::SizeOf)
    } else if name == "align_of"@ {
        Some(IntrinsicKind::AlignOf)
    } else if name == "asm"@ {
        Some(IntrinsicKind::Asm)
    } else if name == "uninitialized"@ {
        Some(IntrinsicKind::Uninitialized)
    } else if name == "dangling"@ {
        Some(IntrinsicKind::Dangling)
    } else if name == "unreachable"@ {
        Some(IntrinsicKind::Unreachable)
    } else {
        None
    }
}

pub fn intrinsic_kind(name: &str) -> (r: Option<IntrinsicKind>)
    ensures
        r == intrinsic_kind_of(name@),
{
    if str_eq(name, "size_of") {
        Some(IntrinsicKind::SizeOf)
    } else if str_eq(name, "align_of") {
        Some(IntrinsicKind::AlignOf)
    } else if str_eq(name, "asm") {
        Some(IntrinsicKind::Asm)
    } else if str_eq(name, "uninitialized") {
        Some(IntrinsicKind::Uninitialized)
    } else if str_eq(name, "dangling") {
        Some(IntrinsicKind::Dangling)
    } else if str_eq(name, "unreachable") {
        Some(IntrinsicKind::Unreachable)
    } else {
        None
    }
}

pub open spec fn has_attr(attrs: Seq<Attribute>, which: Attribute) -> bool {
    exists|i: int| 0 <= i < attrs.len() && attrs[i] == which
}

/// Whether the attribute list carries `transparent`.
pub fn has_transparent(attrs: &Vec<Attribute>) -> (r: bool)
    ensures
        r == has_attr(attrs@, Attribute::Transparent),
{
    let n = attrs.len();
    let mut i: usize = 0;
    while i < n
        invariant
            n == attrs@.len(),
            i <= n,
            forall|k: int| 0 <= k < i ==> attrs@[k] != Attribute::Transparent,
        decreases n - i,
    {
        match &attrs[i] {
            Attribute::Transparent => {
                return true;
            },
            _ => {},
        }
        i = i + 1;
    }
    false
}

/// The calling convention a function declares.
#[derive(Clone, PartialEq, Eq, Debug)]
pub enum Abi {
    /// No ABI given, or `extern "C"`.
    C,
    /// `extern "intrinsic"`: the function names a compiler intrinsic.
    Intrinsic,
    /// Any other ABI string; rejected.
    Other,
}

/// A function as delivered by name resolution, before item making.
pub struct FunctionDecl {
    pub name: Option<String>,
    pub placeholders: Vec<Placeholder>,
    pub parameters: Vec<Parameter>,
    pub return_type: Option<TyRef>,
    pub body: Option<Expr>,
    pub attributes: Vec<Attribute>,
    pub is_extern: bool,
    pub abi: Abi,
    pub varargs: bool,
    pub is_protocol_fn: bool,
    pub span: Option<Span>,
}

/// The first error the function maker reports for a declaration, if any.
/// Variadic parameters need `extern`; protocol functions may not be
/// `extern`; `extern "C"` functions may not be generic; the intrinsic ABI
/// needs a recognized intrinsic name; a plain function needs a body.
pub open spec fn function_decl_error(d: FunctionDecl) -> Option<ErrorKind> {
    if d.varargs && !d.is_extern {
        Some(ErrorKind::VarArgsCanOnlyBeExtern)
    } else if d.is_protocol_fn && d.is_extern {
        Some(ErrorKind::ProtocolFnsCannotBeExtern)
    } else if d.abi == Abi::C && d.is_extern && d.placeholders@.len() != 0 {
        Some(ErrorKind::ExternCGenericParams)
    } else if d.abi == Abi::Intrinsic {
        match d.name {
            Some(n) => if intrinsic_kind_of(n@) is None {
                Some(ErrorKind::UnknownIntrinsic)
            } else {
                None
            },
            None => Some(ErrorKind::UnknownIntrinsic),
        }
    } else if d.abi == Abi::Other {
        Some(ErrorKind::UnsupportedABI)
    } else if d.body is None && !d.is_extern && !d.is_protocol_fn {
        Some(ErrorKind::FunctionMustHaveBody)
    } else {
        None
    }
}

/// A static or const as delivered by name resolution.
pub struct StaticConstDecl {
    pub name: Option<String>,
    pub typ: Option<TyRef>,
    pub init: Option<Expr>,
    pub placeholders: Vec<Placeholder>,
    pub attributes: Vec<Attribute>,
    pub is_extern: bool,
    pub span: Option<Span>,
}

/// The first error the static/const maker reports: `extern` statics may
/// not be generic, need an explicit type, and may not have initializers;
/// without a type an initializer is required.
pub open spec fn static_decl_error(d: StaticConstDecl) -> Option<ErrorKind> {
    if d.placeholders@.len() != 0 && d.is_extern {
        Some(ErrorKind::ExternStaticCannotBeGeneric)
    } else if d.typ is None && d.init is None {
        Some(ErrorKind::TypeHintRequired)
    } else if d.is_extern && (d.typ is None || d.init is Some) {
        Some(ErrorKind::ExternStaticMustHaveType)
    } else {
        None
    }
}

/// The shadow warnings a list of associated functions produces: one for
/// each entry whose name an earlier entry already used.
pub open spec fn shadow_warnings(fns: Seq<AssociatedFn>, n: int) -> Seq<CodeError>
    decreases n,
{
    if n <= 0 || n > fns.len() {
        Seq::empty()
    } else {
        shadow_warnings(fns, n - 1) + (if exists|t: int|
            0 <= t < n - 1 && (#[trigger] fns[t]).name@ == fns[n - 1].name@ {
            seq![CodeError { kind: ErrorKind::DuplicateNameShadow, span: None }]
        } else {
            Seq::empty()
        })
    }
}

/// Whether every one of the first `n` siblings of a type in its name
/// group is an impl block.
pub open spec fn siblings_are_impls(s: Seq<NamedItem>, n: int) -> bool
    decreases n,
{
    if n <= 0 || n > s.len() {
        true
    } else {
        siblings_are_impls(s, n - 1) && (s[n - 1].kind matches NamedItemKind::Impl(_, _))
    }
}

/// A non-impl sibling anywhere spoils the whole group.
pub proof fn lemma_siblings_not_impls(s: Seq<NamedItem>, i: int, n: int)
    requires
        0 <= i < n <= s.len(),
        !(s[i].kind matches NamedItemKind::Impl(_, _)),
    ensures
        !siblings_are_impls(s, n),
    decreases n,
{
    if n - 1 > i {
        lemma_siblings_not_impls(s, i, n - 1);
    }
}

/// The associated functions the first `n` sibling impl blocks contribute,
/// in group order.
pub open spec fn group_impl_fns(s: Seq<NamedItem>, n: int) -> Seq<AssociatedFn>
    decreases n,
{
    if n <= 0 || n > s.len() {
        Seq::empty()
    } else {
        group_impl_fns(s, n - 1) + (match s[n - 1].kind {
            NamedItemKind::Impl(fns, _) => fns@,
            _ => Seq::empty(),
        })
    }
}

/// The mixins the first `n` sibling impl blocks contribute, in group order.
pub open spec fn group_impl_mixins(s: Seq<NamedItem>, n: int) -> Seq<Mixin>
    decreases n,
{
    if n <= 0 || n > s.len() {
        Seq::empty()
    } else {
        group_impl_mixins(s, n - 1) + (match s[n - 1].kind {
            NamedItemKind::Impl(_, mx) => mx@,
            _ => Seq::empty(),
        })
    }
}

/// A group the maker always accepts without touching the arena: empty, or
/// an already-resolved alias.
pub open spec fn group_benign(g: Group) -> bool {
    g.items@.len() == 0 || g.items@[0].kind is Alias
}

pub open spec fn groups_benign(s: Seq<Group>, n: int) -> bool
    decreases n,
{
    if n <= 0 || n > s.len() {
        true
    } else {
        groups_benign(s, n - 1) && group_benign(s[n - 1])
    }
}

pub proof fn lemma_groups_benign_element(s: Seq<Group>, i: int, n: int)
    requires
        0 <= i < n <= s.len(),
        groups_benign(s, n),
    ensures
        group_benign(s[i]),
    decreases n,
{
    if n - 1 > i {
        lemma_groups_benign_element(s, i, n - 1);
    }
}

/// When making a macro item succeeds (see `MacroMaker::make`): the cell
/// already holds a finished macro, or it is fresh and the declaration is
/// valid (a known builtin name under the `builtin` attribute, or at most
/// one et-cetera parameter otherwise).
pub open spec fn macro_make_succeeds(
    ctx: AstCtx,
    symbol: ItemRef,
    name: Option<String>,
    params: Seq<MacroParameter>,
    attrs: Seq<Attribute>,
) -> bool {
    (symbol as int) < ctx.items@.len() && match ctx.items@[symbol as int].contents {
        Some(Item::Macro(m)) => m.body is Some,
        Some(Item::BuiltinMacro(_)) => true,
        Some(_) => false,
        None => if has_attr(attrs, Attribute::Builtin) {
            match name {
                Some(n) => crate::macros::builtin_kind_of(n@) is Some,
                None => false,
            }
        } else {
            !crate::macros::multiple_et_ceteras(params, params.len() as int)
        },
    }
}

/// Materializes AST items from the groups name resolution produced.
pub struct AstItemMaker {
    pub symbols: Vec<ItemRef>,
    pub ambient_placeholders: Vec<Placeholder>,
    pub local: bool,
}

impl AstItemMaker {
    pub fn new() -> (r: AstItemMaker)
        ensures
            r.symbols@.len() == 0,
            r.ambient_placeholders@.len() == 0,
            r.local == false,
    {
        AstItemMaker { symbols: Vec::new(), ambient_placeholders: Vec::new(), local: false }
    }

    /// A maker for items nested in function bodies.
    pub fn new_local() -> (r: AstItemMaker)
        ensures
            r.symbols@.len() == 0,
            r.ambient_placeholders@.len() == 0,
            r.local == true,
    {
        AstItemMaker { symbols: Vec::new(), ambient_placeholders: Vec::new(), local: true }
    }

    /// The items made so far.
    pub fn into_inner(self) -> (r: Vec<ItemRef>)
        ensures
            r == self.symbols,
    {
        self.symbols
    }

    /// The generic parameters in scope: the ambient placeholders of the
    /// enclosing impl blocks, then the declaration's own.
    pub fn get_placeholders(&self, own: &Vec<Placeholder>) -> (r: Vec<Placeholder>)
        ensures
            r@.len() == self.ambient_placeholders@.len() + own@.len(),
            forall|i: int|
                0 <= i < self.ambient_placeholders@.len() ==> ph_eqv(
                    #[trigger] r@[i],
                    self.ambient_placeholders@[i],
                ),
            forall|i: int|
                0 <= i < own@.len() ==> ph_eqv(
                    #[trigger] r@[self.ambient_placeholders@.len() + i],
                    own@[i],
                ),
    {
        let mut r: Vec<Placeholder> = Vec::new();
        let na = self.ambient_placeholders.len();
        let mut i: usize = 0;
        while i < na
            invariant
                na == self.ambient_placeholders@.len(),
                i <= na,
                r@.len() == i,
                forall|k: int| 0 <= k < i ==> ph_eqv(#[trigger] r@[k], self.ambient_placeholders@[k]),
            decreases na - i,
        {
            r.push(placeholder_clone(&self.ambient_placeholders[i]));
            i = i + 1;
        }
        let no = own.len();
        let mut j: usize = 0;
        while j < no
            invariant
                na == self.ambient_placeholders@.len(),
                no == own@.len(),
                j <= no,
                r@.len() == na + j,
                forall|k: int| 0 <= k < na ==> ph_eqv(#[trigger] r@[k], self.ambient_placeholders@[k]),
                forall|k: int| 0 <= k < j ==> ph_eqv(#[trigger] r@[na + k], own@[k]),
            decreases no - j,
        {
            r.push(placeholder_clone(&own[j]));
            j = j + 1;
        }
        r
    }
}

/// Same placeholder: same id, default, bounds and span.
pub open spec fn ph_eqv(a: Placeholder, b: Placeholder) -> bool {
    a.id == b.id && a.default == b.default && a.bounds@ == b.bounds@ && a.span == b.span
}

/// Copies a placeholder; the copy is the same placeholder.
pub fn placeholder_clone(p: &Placeholder) -> (r: Placeholder)
    ensures
        ph_eqv(r, *p),
{
    Placeholder {
        id: p.id,
        default: p.default,
        bounds: crate::ast::copy_vec(&p.bounds),
        span: p.span,
    }
}


/// A struct or union as delivered by name resolution.
pub struct StructDecl {
    pub name: Option<String>,
    pub placeholders: Vec<Placeholder>,
    pub fields: Vec<Field>,
    pub is_union: bool,
    pub span: Option<Span>,
}

pub struct EnumDecl {
    pub name: Option<String>,
    pub members: Vec<EnumMember>,
    pub span: Option<Span>,
}

pub struct TypeDefDecl {
    pub name: Option<String>,
    pub placeholders: Vec<Placeholder>,
    pub target: Option<TyRef>,
    pub span: Option<Span>,
}

pub struct ProtocolDecl {
    pub name: Option<String>,
    pub placeholders: Vec<Placeholder>,
    pub associated_fns: Vec<AssociatedFn>,
    pub span: Option<Span>,
}

pub struct MacroDecl {
    pub name: Option<String>,
    pub params: Vec<MacroParameter>,
    pub body: Expr,
    pub span: Option<Span>,
}

/// Whether a struct or enum declaration is accompanied by impl blocks.
pub enum TypeDecl {
    StructLike(StructDecl),
    EnumLike(EnumDecl),
}

/// One named entity of a scope, as name resolution grouped them.
pub enum NamedItemKind {
    Alias,
    Module(Vec<Group>),
    Impl(Vec<AssociatedFn>, Vec<Mixin>),
    Type(ItemRef, TypeDecl),
    TypeDefItem(ItemRef, TypeDefDecl),
    ProtocolItem(ItemRef, ProtocolDecl),
    StaticItem(ItemRef, StaticConstDecl),
    ConstItem(ItemRef, StaticConstDecl),
    MacroItem(ItemRef, MacroDecl),
    FunctionItem(ItemRef, FunctionDecl),
}

pub struct NamedItem {
    pub kind: NamedItemKind,
    pub attributes: Vec<Attribute>,
}

/// All the items of a scope that share one name.
pub struct Group {
    pub name: Option<String>,
    pub items: Vec<NamedItem>,
}

/// Whether the type directly (or under one pointer) names the `DynSelf`
/// lang item.
pub open spec fn names_dyn_self(ctx: AstCtx, typ: int) -> bool {
    0 <= typ < ctx.types@.len() && match ctx.types@[typ] {
        Ty::NamedType(item) => is_dyn_self(ctx, item as int),
        Ty::Pointer(inner) => 0 <= inner < ctx.types@.len() && match ctx.types@[inner as int] {
            Ty::NamedType(item) => is_dyn_self(ctx, item as int),
            _ => false,
        },
        _ => false,
    }
}

pub open spec fn is_dyn_self(ctx: AstCtx, item: int) -> bool {
    exists|n: int|
        0 <= n < ctx.lang_items@.len() && #[trigger] ctx.lang_items@[n] == (
        LangItemKind::DynSelf,
        item as ItemRef,
    )
}

impl AstItemMaker {
    /// Warns when the `DynSelf` lang item stands directly in a parameter or
    /// return type (possibly under one pointer): the writer probably meant
    /// the self type.
    pub fn check_self_confusion(
        &self,
        ctx: &AstCtx,
        diag: &mut DiagCtx,
        typ: TyRef,
        span: Option<Span>,
    )
        ensures
            final(diag).errors@ == old(diag).errors@,
            final(diag).file_paths@ == old(diag).file_paths@,
            final(diag).overrides@ == old(diag).overrides@,
            names_dyn_self(*ctx, typ as int) ==> final(diag).warnings@ == old(
                diag,
            ).warnings@.push(CodeError { kind: ErrorKind::SelfConfusion, span }),
            !names_dyn_self(*ctx, typ as int) ==> final(diag).warnings@ == old(diag).warnings@,
    {
        if typ >= ctx.types.len() {
            return ;
        }
        let item = match ctx.types[typ] {
            Ty::NamedType(item) => Some(item),
            Ty::Pointer(inner) => {
                if inner < ctx.types.len() {
                    match ctx.types[inner] {
                        Ty::NamedType(item) => Some(item),
                        _ => None,
                    }
                } else {
                    None
                }
            },
            _ => None,
        };
        match item {
            Some(it) => match ctx.lang_item_kind(it) {
                Some(LangItemKind::DynSelf) => {
                    diag.add_warning(CodeError { kind: ErrorKind::SelfConfusion, span });
                },
                _ => {},
            },
            None => {},
        }
    }

    /// Collects the associated functions of the sibling impl blocks,
    /// warning about duplicate names (later ones shadow earlier ones): one
    /// `DuplicateNameShadow` for each entry whose name an earlier entry
    /// already used.
    pub fn resolve_associated_items(
        &self,
        diag: &mut DiagCtx,
        fns: Vec<AssociatedFn>,
    ) -> (r: Vec<AssociatedFn>)
        ensures
            r == fns,
            final(diag).errors@ == old(diag).errors@,
            final(diag).file_paths@ == old(diag).file_paths@,
            final(diag).overrides@ == old(diag).overrides@,
            final(diag).warnings@ == old(diag).warnings@ + shadow_warnings(
                fns@,
                fns@.len() as int,
            ),
    {
        let n = fns.len();
        let mut i: usize = 0;
        proof {
            assert(diag.warnings@ =~= old(diag).warnings@ + shadow_warnings(fns@, 0));
        }
        while i < n
            invariant
                n == fns@.len(),
                i <= n,
                diag.errors@ == old(diag).errors@,
                diag.file_paths@ == old(diag).file_paths@,
                diag.overrides@ == old(diag).overrides@,
                diag.warnings@ == old(diag).warnings@ + shadow_warnings(fns@, i as int),
            decreases n - i,
        {
            let mut dup = false;
            let mut j: usize = 0;
            while j < i
                invariant
                    i < n,
                    n == fns@.len(),
                    j <= i,
                    dup == exists|t: int|
                        0 <= t < j && (#[trigger] fns@[t]).name@ == fns@[i as int].name@,
                decreases i - j,
            {
                if str_eq(fns[j].name.as_str(), fns[i].name.as_str()) {
                    dup = true;
                }
                j = j + 1;
            }
            if dup {
                diag.add_warning(
                    CodeError { kind: ErrorKind::DuplicateNameShadow, span: None },
                );
            }
            proof {
                assert(diag.warnings@ =~= old(diag).warnings@ + shadow_warnings(
                    fns@,
                    i + 1,
                ));
            }
            i = i + 1;
        }
        fns
    }

    /// Materializes a function item, or an intrinsic for the intrinsic ABI
    /// (see `function_decl_error` for the declarations that are rejected).
    pub fn make_function(
        &mut self,
        ctx: &mut AstCtx,
        diag: &mut DiagCtx,
        symbol: ItemRef,
        d: FunctionDecl,
    ) -> (r: Result<(), ErrorKind>)
        requires
            old(ctx).wf(),
        ensures
            final(ctx).wf(),
            final(ctx).extends(*old(ctx)),
            final(self).ambient_placeholders@ == old(self).ambient_placeholders@,
            match function_decl_error(d) {
                Some(k) => r == Err::<(), _>(k),
                None => match r {
                    Ok(()) => (symbol as int) < final(ctx).items@.len() && (if d.abi
                        == Abi::Intrinsic {
                        match final(ctx).items@[symbol as int].contents {
                            Some(Item::Intrinsic(intr)) => {
                                &&& intrinsic_kind_of(d.name->0@) == Some(intr.kind)
                                &&& intr.generic_count == old(self).ambient_placeholders@.len()
                                    + d.placeholders@.len()
                                &&& intr.arg_count == d.parameters@.len()
                                &&& intr.varargs == d.varargs
                            },
                            _ => false,
                        }
                    } else {
                        match final(ctx).items@[symbol as int].contents {
                            Some(Item::Function(f)) => {
                                &&& f.name == d.name
                                &&& f.args == d.parameters
                                &&& f.body == d.body
                                &&& f.varargs == d.varargs
                                &&& f.is_protocol_fn == d.is_protocol_fn
                                &&& f.is_local == old(self).local
                                &&& f.placeholders@.len() == old(
                                    self,
                                ).ambient_placeholders@.len() + d.placeholders@.len()
                                &&& match d.return_type {
                                    Some(t) => f.return_type == t,
                                    None => (f.return_type as int) < final(ctx).types@.len()
                                        && final(ctx).types@[f.return_type as int] == Ty::Tuple(
                                        0,
                                    ),
                                }
                            },
                            _ => false,
                        }
                    }),
                    Err(k) => k == ErrorKind::InternalError && ((symbol as int) >= old(ctx).items@.len()
                        || old(ctx).items@[symbol as int].contents is Some),
                },
            },
    {
        if d.varargs && !d.is_extern {
            return Err(ErrorKind::VarArgsCanOnlyBeExtern);
        }
        let nparams = d.parameters.len();
        let mut pi: usize = 0;
        while pi < nparams
            invariant
                nparams == d.parameters@.len(),
                pi <= nparams,
                ctx.wf(),
                *ctx == *old(ctx),
            decreases nparams - pi,
        {
            self.check_self_confusion(ctx, diag, d.parameters[pi].typ, d.parameters[pi].span);
            pi = pi + 1;
        }
        if d.is_protocol_fn && d.is_extern {
            return Err(ErrorKind::ProtocolFnsCannotBeExtern);
        }
        let placeholders = self.get_placeholders(&d.placeholders);
        match d.abi {
            Abi::C => {
                if d.is_extern && d.placeholders.len() != 0 {
                    return Err(ErrorKind::ExternCGenericParams);
                }
            },
            Abi::Intrinsic => {
                let kind = match &d.name {
                    Some(n) => match intrinsic_kind(n.as_str()) {
                        Some(k) => k,
                        None => {
                            return Err(ErrorKind::UnknownIntrinsic);
                        },
                    },
                    None => {
                        return Err(ErrorKind::UnknownIntrinsic);
                    },
                };
                let result = Item::Intrinsic(
                    Intrinsic {
                        kind,
                        generic_count: placeholders.len(),
                        arg_count: d.parameters.len(),
                        varargs: d.varargs,
                        span: d.span,
                    },
                );
                return match ctx.assign(symbol, result) {
                    Ok(()) => Ok(()),
                    Err(_) => Err(ErrorKind::InternalError),
                };
            },
            Abi::Other => {
                return Err(ErrorKind::UnsupportedABI);
            },
        }
        let return_type = match d.return_type {
            Some(t) => t,
            None => ctx.intern_type(Ty::Tuple(0)),
        };
        self.check_self_confusion(ctx, diag, return_type, d.span);
        if d.body.is_none() && !d.is_extern && !d.is_protocol_fn {
            return Err(ErrorKind::FunctionMustHaveBody);
        }
        let result = Item::Function(
            Function {
                name: d.name,
                attributes: d.attributes,
                placeholders,
                args: d.parameters,
                return_type,
                body: d.body,
                varargs: d.varargs,
                span: d.span,
                is_local: self.local,
                is_protocol_fn: d.is_protocol_fn,
            },
        );
        let symbol_r = ctx.assign(symbol, result);
        self.symbols.push(symbol);
        match symbol_r {
            Ok(()) => Ok(()),
            Err(_) => Err(ErrorKind::InternalError),
        }
    }

    /// Materializes a static or a const (see `static_decl_error`).
    pub fn make_static_or_const(
        &mut self,
        ctx: &mut AstCtx,
        is_const: bool,
        symbol: ItemRef,
        d: StaticConstDecl,
    ) -> (r: Result<(), ErrorKind>)
        requires
            old(ctx).wf(),
        ensures
            final(ctx).wf(),
            final(ctx).extends(*old(ctx)),
            match static_decl_error(d) {
                Some(k) => r == Err::<(), _>(k),
                None => match r {
                    Ok(()) => (symbol as int) < final(ctx).items@.len() && match final(ctx).items@[symbol as int].contents {
                        Some(Item::StaticOrConst(sc)) => {
                            &&& sc.name == d.name
                            &&& sc.typ == d.typ
                            &&& sc.init == d.init
                            &&& sc.is_const == is_const
                            &&& sc.is_extern == d.is_extern
                        },
                        _ => false,
                    },
                    Err(k) => k == ErrorKind::InternalError && ((symbol as int) >= old(ctx).items@.len()
                        || old(ctx).items@[symbol as int].contents is Some),
                },
            },
    {
        if d.placeholders.len() != 0 && d.is_extern {
            return Err(ErrorKind::ExternStaticCannotBeGeneric);
        }
        if d.typ.is_none() && d.init.is_none() {
            return Err(ErrorKind::TypeHintRequired);
        }
        if d.is_extern && (d.typ.is_none() || d.init.is_some()) {
            return Err(ErrorKind::ExternStaticMustHaveType);
        }
        let placeholders = self.get_placeholders(&d.placeholders);
        let result = Item::StaticOrConst(
            StaticOrConst {
                name: d.name,
                attributes: d.attributes,
                typ: d.typ,
                init: d.init,
                span: d.span,
                is_const,
                placeholders,
                is_local: self.local,
                is_extern: d.is_extern,
            },
        );
        let symbol_r = ctx.assign(symbol, result);
        self.symbols.push(symbol);
        match symbol_r {
            Ok(()) => Ok(()),
            Err(_) => Err(ErrorKind::InternalError),
        }
    }

    /// Materializes a struct or union with its associated functions and
    /// mixins; `transparent` requires exactly one field.
    pub fn make_struct_like(
        &mut self,
        ctx: &mut AstCtx,
        symbol: ItemRef,
        d: StructDecl,
        attributes: Vec<Attribute>,
        associated_fns: Vec<AssociatedFn>,
        mixins: Vec<Mixin>,
    ) -> (r: Result<(), ErrorKind>)
        requires
            old(ctx).wf(),
        ensures
            final(ctx).wf(),
            final(ctx).extends(*old(ctx)),
            (has_attr(attributes@, Attribute::Transparent) && d.fields@.len() != 1) ==> r
                == Err::<(), _>(ErrorKind::InvalidTransparent),
            match r {
                Ok(()) => (symbol as int) < final(ctx).items@.len() && match final(ctx).items@[symbol as int].contents {
                    Some(Item::Struct(st)) => st.name == d.name && st.fields == d.fields
                        && st.is_union == d.is_union && st.associated_fns == associated_fns
                        && st.mixins == mixins,
                    _ => false,
                },
                Err(k) => (k == ErrorKind::InvalidTransparent && has_attr(
                    attributes@,
                    Attribute::Transparent,
                ) && d.fields@.len() != 1) || (k == ErrorKind::InternalError && ((symbol as int)
                    >= old(ctx).items@.len() || old(
                    ctx,
                ).items@[symbol as int].contents is Some)),
            },
    {
        if has_transparent(&attributes) && d.fields.len() != 1 {
            return Err(ErrorKind::InvalidTransparent);
        }
        let placeholders = self.get_placeholders(&d.placeholders);
        let result = Item::Struct(
            Struct {
                name: d.name,
                placeholders,
                fields: d.fields,
                attributes,
                associated_fns,
                mixins,
                span: d.span,
                is_local: self.local,
                is_union: d.is_union,
            },
        );
        let symbol_r = ctx.assign(symbol, result);
        self.symbols.push(symbol);
        match symbol_r {
            Ok(()) => Ok(()),
            Err(_) => Err(ErrorKind::InternalError),
        }
    }

    /// Materializes an enum with its associated functions and mixins.
    pub fn make_enum(
        &mut self,
        ctx: &mut AstCtx,
        symbol: ItemRef,
        d: EnumDecl,
        attributes: Vec<Attribute>,
        associated_fns: Vec<AssociatedFn>,
        mixins: Vec<Mixin>,
    ) -> (r: Result<(), ErrorKind>)
        requires
            old(ctx).wf(),
        ensures
            final(ctx).wf(),
            final(ctx).extends(*old(ctx)),
            match r {
                Ok(()) => (symbol as int) < final(ctx).items@.len() && match final(ctx).items@[symbol as int].contents {
                    Some(Item::Enum(en)) => en.name == d.name && en.members == d.members
                        && en.associated_fns == associated_fns && en.mixins == mixins,
                    _ => false,
                },
                Err(k) => k == ErrorKind::InternalError && ((symbol as int) >= old(ctx).items@.len()
                        || old(ctx).items@[symbol as int].contents is Some),
            },
    {
        let result = Item::Enum(
            Enum {
                name: d.name,
                members: d.members,
                attributes,
                associated_fns,
                mixins,
                is_local: self.local,
                span: d.span,
            },
        );
        let symbol_r = ctx.assign(symbol, result);
        self.symbols.push(symbol);
        match symbol_r {
            Ok(()) => Ok(()),
            Err(_) => Err(ErrorKind::InternalError),
        }
    }

    /// Materializes a protocol.
    pub fn make_protocol(
        &mut self,
        ctx: &mut AstCtx,
        symbol: ItemRef,
        d: ProtocolDecl,
        attributes: Vec<Attribute>,
    ) -> (r: Result<(), ErrorKind>)
        requires
            old(ctx).wf(),
        ensures
            final(ctx).wf(),
            final(ctx).extends(*old(ctx)),
            match r {
                Ok(()) => (symbol as int) < final(ctx).items@.len() && match final(ctx).items@[symbol as int].contents {
                    Some(Item::Protocol(p)) => p.name == d.name && p.associated_fns
                        == d.associated_fns,
                    _ => false,
                },
                Err(k) => k == ErrorKind::InternalError && ((symbol as int) >= old(ctx).items@.len()
                        || old(ctx).items@[symbol as int].contents is Some),
            },
    {
        let placeholders = self.get_placeholders(&d.placeholders);
        let result = Item::Protocol(
            Protocol {
                name: d.name,
                placeholders,
                associated_fns: d.associated_fns,
                attributes,
                is_local: self.local,
                span: d.span,
            },
        );
        match ctx.assign(symbol, result) {
            Ok(()) => Ok(()),
            Err(_) => Err(ErrorKind::InternalError),
        }
    }

    /// Materializes a type alias.
    pub fn make_typedef(
        &mut self,
        ctx: &mut AstCtx,
        symbol: ItemRef,
        d: TypeDefDecl,
        attributes: Vec<Attribute>,
    ) -> (r: Result<(), ErrorKind>)
        requires
            old(ctx).wf(),
        ensures
            final(ctx).wf(),
            final(ctx).extends(*old(ctx)),
            match r {
                Ok(()) => (symbol as int) < final(ctx).items@.len() && match final(ctx).items@[symbol as int].contents {
                    Some(Item::TypeDef(td)) => td.name == d.name && td.target == d.target,
                    _ => false,
                },
                Err(k) => k == ErrorKind::InternalError && ((symbol as int) >= old(ctx).items@.len()
                        || old(ctx).items@[symbol as int].contents is Some),
            },
    {
        let placeholders = self.get_placeholders(&d.placeholders);
        let result = Item::TypeDef(
            TypeDef {
                name: d.name,
                placeholders,
                target: d.target,
                span: d.span,
                is_local: self.local,
                attributes,
            },
        );
        let symbol_r = ctx.assign(symbol, result);
        self.symbols.push(symbol);
        match symbol_r {
            Ok(()) => Ok(()),
            Err(_) => Err(ErrorKind::InternalError),
        }
    }

    /// Materializes all the items of one name group, per the grouping
    /// policy: an alias is already resolved, a module is recursed into, a
    /// free-standing impl block is rejected, a type is built together with
    /// the associated functions and mixins of its sibling impl blocks.
    /// `depth` bounds module nesting; running out of it is an internal
    /// error.
    pub fn make_item_group(
        &mut self,
        ctx: &mut AstCtx,
        diag: &mut DiagCtx,
        group: Group,
        depth: usize,
    ) -> (r: Result<(), ErrorKind>)
        requires
            old(ctx).wf(),
        ensures
            final(ctx).wf(),
            final(ctx).extends(*old(ctx)),
            (group.items@.len() == 1 && group.items@[0].kind matches NamedItemKind::Impl(_, _))
                ==> r == Err::<(), _>(ErrorKind::NoFreeStandingImpl),
            group_benign(group) ==> r == Ok::<(), ErrorKind>(()),
            group.items@.len() >= 1 ==> match group.items@[0].kind {
                NamedItemKind::FunctionItem(sym, d) => match function_decl_error(d) {
                    Some(k) => r == Err::<(), _>(k),
                    None => match r {
                        Ok(()) => (sym as int) < final(ctx).items@.len() && ((final(ctx).items@[sym as int].contents matches Some(Item::Function(_))) || (final(ctx).items@[sym as int].contents matches Some(Item::Intrinsic(_)))),
                        Err(k) => k == ErrorKind::InternalError && ((sym as int) >= old(ctx).items@.len() || old(ctx).items@[sym as int].contents is Some),
                    },
                },
                NamedItemKind::StaticItem(sym, d) => match static_decl_error(d) {
                    Some(k) => r == Err::<(), _>(k),
                    None => match r {
                        Ok(()) => (sym as int) < final(ctx).items@.len() && (match final(ctx).items@[sym as int].contents {
                            Some(Item::StaticOrConst(sc)) => !sc.is_const,
                            _ => false,
                        }),
                        Err(k) => k == ErrorKind::InternalError && ((sym as int) >= old(ctx).items@.len() || old(ctx).items@[sym as int].contents is Some),
                    },
                },
                NamedItemKind::ConstItem(sym, d) => match static_decl_error(d) {
                    Some(k) => r == Err::<(), _>(k),
                    None => match r {
                        Ok(()) => (sym as int) < final(ctx).items@.len() && (match final(ctx).items@[sym as int].contents {
                            Some(Item::StaticOrConst(sc)) => sc.is_const,
                            _ => false,
                        }),
                        Err(k) => k == ErrorKind::InternalError && ((sym as int) >= old(ctx).items@.len() || old(ctx).items@[sym as int].contents is Some),
                    },
                },
                NamedItemKind::MacroItem(sym, d) => {
                    &&& (r is Ok <==> macro_make_succeeds(
                        *old(ctx),
                        sym,
                        d.name,
                        d.params@,
                        group.items@[0].attributes@,
                    ))
                    &&& (r is Ok ==> (sym as int) < final(ctx).items@.len() && ((final(ctx).items@[sym as int].contents matches Some(Item::Macro(_))) || (final(ctx).items@[sym as int].contents matches Some(Item::BuiltinMacro(_)))))
                },
                NamedItemKind::Type(sym, decl) => {
                    let sibs = group.items@.skip(1);
                    &&& (!siblings_are_impls(sibs, sibs.len() as int) ==> r == Err::<(), _>(
                        ErrorKind::InternalError,
                    ))
                    &&& (siblings_are_impls(sibs, sibs.len() as int) ==> {
                        let fns = group_impl_fns(sibs, sibs.len() as int);
                        let mxs = group_impl_mixins(sibs, sibs.len() as int);
                        &&& final(diag).warnings@ == old(diag).warnings@ + shadow_warnings(
                            fns,
                            fns.len() as int,
                        )
                        &&& match decl {
                            TypeDecl::StructLike(sd) => {
                                &&& ((has_attr(
                                    group.items@[0].attributes@,
                                    Attribute::Transparent,
                                ) && sd.fields@.len() != 1) ==> r == Err::<(), _>(
                                    ErrorKind::InvalidTransparent,
                                ))
                                &&& match r {
                                    Ok(()) => (sym as int) < final(ctx).items@.len() && (
                                    match final(ctx).items@[sym as int].contents {
                                        Some(Item::Struct(st)) => st.name == sd.name
                                            && st.fields == sd.fields && st.is_union
                                            == sd.is_union && st.associated_fns@ == fns
                                            && st.mixins@ == mxs,
                                        _ => false,
                                    }),
                                    Err(k) => (k == ErrorKind::InvalidTransparent && has_attr(
                                        group.items@[0].attributes@,
                                        Attribute::Transparent,
                                    ) && sd.fields@.len() != 1) || (k
                                        == ErrorKind::InternalError && ((sym as int) >= old(
                                        ctx,
                                    ).items@.len() || old(
                                        ctx,
                                    ).items@[sym as int].contents is Some)),
                                }
                            },
                            TypeDecl::EnumLike(ed) => match r {
                                Ok(()) => (sym as int) < final(ctx).items@.len() && (match final(ctx).items@[sym as int].contents {
                                    Some(Item::Enum(en)) => en.name == ed.name && en.members
                                        == ed.members && en.associated_fns@ == fns && en.mixins@
                                        == mxs,
                                    _ => false,
                                }),
                                Err(k) => k == ErrorKind::InternalError && ((sym as int) >= old(
                                    ctx,
                                ).items@.len() || old(ctx).items@[sym as int].contents is Some),
                            },
                        }
                    })
                },
                _ => true,
            },
        decreases depth, 0int,
    {
        let mut items = group.items;
        if items.len() == 0 {
            return Ok(());
        }
        let single = items.len() == 1;
        proof {
            assert(decreases_to!(group => group.items));
            assert(decreases_to!(group.items => group.items@[0]));
        }
        let first = items.remove(0);
        let NamedItem { kind, attributes } = first;
        match kind {
            NamedItemKind::Alias => Ok(()),
            NamedItemKind::Module(sub) => {
                if depth == 0 {
                    return Err(ErrorKind::InternalError);
                }
                self.make(ctx, diag, sub, depth - 1)
            },
            NamedItemKind::Impl(_, _) => {
                if single {
                    Err(ErrorKind::NoFreeStandingImpl)
                } else {
                    Ok(())
                }
            },
            NamedItemKind::Type(symbol, decl) => {
                let mut assoc: Vec<AssociatedFn> = Vec::new();
                let mut mixins: Vec<Mixin> = Vec::new();
                let ghost sibs = group.items@.skip(1);
                let ghost mut j: int = 0;
                proof {
                    assert(group.items@[0].kind matches NamedItemKind::Type(_, _));
                    assert(items@ =~= sibs.skip(0));
                    assert(assoc@ =~= group_impl_fns(sibs, 0));
                    assert(mixins@ =~= group_impl_mixins(sibs, 0));
                }
                while items.len() > 0
                    invariant
                        old(ctx).wf(),
                        ctx.wf(),
                        *ctx == *old(ctx),
                        *diag == *old(diag),
                        group.items@.len() > 0,
                        group.items@[0].kind matches NamedItemKind::Type(_, _),
                        sibs == group.items@.skip(1),
                        0 <= j,
                        j + items@.len() == sibs.len(),
                        items@ =~= sibs.skip(j),
                        siblings_are_impls(sibs, j),
                        assoc@ == group_impl_fns(sibs, j),
                        mixins@ == group_impl_mixins(sibs, j),
                    decreases items.len(),
                {
                    let sibling = items.remove(0);
                    proof {
                        assert(sibling == sibs[j]);
                        assert(items@ =~= sibs.skip(j + 1));
                    }
                    match sibling.kind {
                        NamedItemKind::Impl(mut fns, mut mx) => {
                            let ghost fns0 = fns@;
                            let ghost mx0 = mx@;
                            let ghost assoc0 = assoc@;
                            let ghost mixins0 = mixins@;
                            let ghost mut k: int = 0;
                            while fns.len() > 0
                                invariant
                                    0 <= k,
                                    k + fns@.len() == fns0.len(),
                                    fns@ =~= fns0.skip(k),
                                    assoc@ == assoc0 + fns0.take(k),
                                decreases fns.len(),
                            {
                                let f = fns.remove(0);
                                proof {
                                    assert(f == fns0[k]);
                                    assert(fns@ =~= fns0.skip(k + 1));
                                }
                                assoc.push(f);
                                proof {
                                    assert(assoc@ =~= assoc0 + fns0.take(k + 1));
                                    k = k + 1;
                                }
                            }
                            let ghost mut k2: int = 0;
                            while mx.len() > 0
                                invariant
                                    0 <= k2,
                                    k2 + mx@.len() == mx0.len(),
                                    mx@ =~= mx0.skip(k2),
                                    mixins@ == mixins0 + mx0.take(k2),
                                decreases mx.len(),
                            {
                                let m = mx.remove(0);
                                proof {
                                    assert(m == mx0[k2]);
                                    assert(mx@ =~= mx0.skip(k2 + 1));
                                }
                                mixins.push(m);
                                proof {
                                    assert(mixins@ =~= mixins0 + mx0.take(k2 + 1));
                                    k2 = k2 + 1;
                                }
                            }
                            proof {
                                assert(fns0.take(fns0.len() as int) =~= fns0);
                                assert(mx0.take(mx0.len() as int) =~= mx0);
                                assert(assoc@ =~= group_impl_fns(sibs, j + 1));
                                assert(mixins@ =~= group_impl_mixins(sibs, j + 1));
                                j = j + 1;
                            }
                        },
                        _ => {
                            proof {
                                lemma_siblings_not_impls(sibs, j, sibs.len() as int);
                            }
                            return Err(ErrorKind::InternalError);
                        },
                    }
                }
                proof {
                    assert(j == sibs.len());
                }
                let assoc = self.resolve_associated_items(diag, assoc);
                match decl {
                    TypeDecl::StructLike(sd) => self.make_struct_like(
                        ctx,
                        symbol,
                        sd,
                        attributes,
                        assoc,
                        mixins,
                    ),
                    TypeDecl::EnumLike(ed) => self.make_enum(
                        ctx,
                        symbol,
                        ed,
                        attributes,
                        assoc,
                        mixins,
                    ),
                }
            },
            NamedItemKind::TypeDefItem(symbol, d) => self.make_typedef(ctx, symbol, d, attributes),
            NamedItemKind::ProtocolItem(symbol, d) => self.make_protocol(
                ctx,
                symbol,
                d,
                attributes,
            ),
            NamedItemKind::StaticItem(symbol, d) => self.make_static_or_const(
                ctx,
                false,
                symbol,
                d,
            ),
            NamedItemKind::ConstItem(symbol, d) => self.make_static_or_const(ctx, true, symbol, d),
            NamedItemKind::MacroItem(symbol, d) => {
                let mut macro_maker = MacroMaker::new();
                let r = macro_maker.make(ctx, d.name, symbol, d.params, d.body, &attributes, d.span);
                self.symbols.push(symbol);
                r
            },
            NamedItemKind::FunctionItem(symbol, d) => self.make_function(ctx, diag, symbol, d),
        }
    }

    /// Materializes every group of a scope, in order.
    pub fn make(
        &mut self,
        ctx: &mut AstCtx,
        diag: &mut DiagCtx,
        groups: Vec<Group>,
        depth: usize,
    ) -> (r: Result<(), ErrorKind>)
        requires
            old(ctx).wf(),
        ensures
            final(ctx).wf(),
            final(ctx).extends(*old(ctx)),
            groups_benign(groups@, groups@.len() as int) ==> r == Ok::<(), ErrorKind>(()),
        decreases depth, 1int,
    {
        let ghost gs = groups@;
        let mut rest = groups;
        let ghost mut i: int = 0;
        while rest.len() > 0
            invariant
                old(ctx).wf(),
                ctx.wf(),
                ctx.extends(*old(ctx)),
                gs == groups@,
                0 <= i,
                i + rest@.len() == gs.len(),
                rest@ =~= gs.skip(i),
            decreases rest.len(),
        {
            let ghost ctx_pre = *ctx;
            let g = rest.remove(0);
            proof {
                assert(g == gs[i]);
                assert(rest@ =~= gs.skip(i + 1));
            }
            let r = self.make_item_group(ctx, diag, g, depth);
            proof {
                crate::ast::lemma_extends_trans(*old(ctx), ctx_pre, *ctx);
                i = i + 1;
            }
            match r {
                Ok(()) => {},
                Err(e) => {
                    proof {
                        if groups_benign(gs, gs.len() as int) {
                            lemma_groups_benign_element(gs, i - 1, gs.len() as int);
                        }
                    }
                    return Err(e);
                },
            }
        }
        Ok(())
    }
}

} // verus!
