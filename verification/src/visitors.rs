use vstd::prelude::*;
use crate::Span;
use crate::ast::{AstCtx, Attribute, ItemRef, LangItemKind};
use crate::diag::{Action, CodeError, ErrorKind, LintOverride};
use crate::global::{assoc_find, GlobalCtx};
use crate::text::str_eq;

verus! {

/// One node of an attribute's meta syntax: a name, optional arguments
/// (themselves meta items), and an optional `name = "value"` value.
pub struct MetaItem {
    pub name: String,
    pub args: Vec<MetaItem>,
    pub value: Option<String>,
}

/// How a `cfg` expression evaluates against the configuration table: the
/// combinator names are recognized first — `all` is the conjunction of its
/// arguments (empty: true), `any` the disjunction (empty: false), `cfg` and
/// `not` take exactly one argument (anything else is invalid) — and every
/// other name is a leaf, true iff it is configured (and, when a value is
/// given, the configured value equals it; a bare flag never matches a
/// `name = "value"` test).  Unknown names with arguments are invalid.
pub open spec fn cfg_eval(cfgs: Seq<(String, Option<String>)>, m: MetaItem) -> Result<
    bool,
    ErrorKind,
>
    decreases m, 0int,
{
    if m.name@ == "cfg"@ || m.name@ == "not"@ {
        if m.args@.len() != 1 {
            Err(ErrorKind::InvalidAttribute)
        } else {
            match cfg_eval(cfgs, m.args@[0]) {
                Ok(b) => Ok(if m.name@ == "not"@ {
                    !b
                } else {
                    b
                }),
                Err(e) => Err(e),
            }
        }
    } else if m.name@ == "all"@ {
        cfg_eval_all(cfgs, m.args@, m.args@.len() as int)
    } else if m.name@ == "any"@ {
        cfg_eval_any(cfgs, m.args@, m.args@.len() as int)
    } else if m.args@.len() > 0 {
        Err(ErrorKind::InvalidAttribute)
    } else {
        match assoc_find(cfgs, m.name@) {
            Some(configured) => match m.value {
                Some(expected) => match configured {
                    Some(actual) => Ok(actual@ == expected@),
                    None => Ok(false),
                },
                None => Ok(true),
            },
            None => Ok(false),
        }
    }
}

pub open spec fn cfg_eval_all(
    cfgs: Seq<(String, Option<String>)>,
    args: Seq<MetaItem>,
    n: int,
) -> Result<bool, ErrorKind>
    decreases args, 1int, n,
{
    if n <= 0 || n > args.len() {
        Ok(true)
    } else {
        match cfg_eval_all(cfgs, args, n - 1) {
            Err(e) => Err(e),
            Ok(false) => Ok(false),
            Ok(true) => cfg_eval(cfgs, args[n - 1]),
        }
    }
}

pub open spec fn cfg_eval_any(
    cfgs: Seq<(String, Option<String>)>,
    args: Seq<MetaItem>,
    n: int,
) -> Result<bool, ErrorKind>
    decreases args, 1int, n,
{
    if n <= 0 || n > args.len() {
        Ok(false)
    } else {
        match cfg_eval_any(cfgs, args, n - 1) {
            Err(e) => Err(e),
            Ok(true) => Ok(true),
            Ok(false) => cfg_eval(cfgs, args[n - 1]),
        }
    }
}

proof fn lemma_cfg_eval_all_err(cfgs: Seq<(String, Option<String>)>, args: Seq<MetaItem>, i: int, n: int)
    requires
        0 <= i < n <= args.len(),
        cfg_eval_all(cfgs, args, i) == Ok::<bool, ErrorKind>(true),
        !(cfg_eval(cfgs, args[i]) is Ok),
    ensures
        cfg_eval_all(cfgs, args, n) == Err::<bool, ErrorKind>(cfg_eval(cfgs, args[i])->Err_0),
    decreases n,
{
    if n - 1 > i {
        lemma_cfg_eval_all_err(cfgs, args, i, n - 1);
    }
}

proof fn lemma_cfg_eval_all_false(cfgs: Seq<(String, Option<String>)>, args: Seq<MetaItem>, i: int, n: int)
    requires
        0 <= i < n <= args.len(),
        cfg_eval_all(cfgs, args, i) == Ok::<bool, ErrorKind>(true),
        cfg_eval(cfgs, args[i]) == Ok::<bool, ErrorKind>(false),
    ensures
        cfg_eval_all(cfgs, args, n) == Ok::<bool, ErrorKind>(false),
    decreases n,
{
    if n - 1 > i {
        lemma_cfg_eval_all_false(cfgs, args, i, n - 1);
    }
}

proof fn lemma_cfg_eval_any_err(cfgs: Seq<(String, Option<String>)>, args: Seq<MetaItem>, i: int, n: int)
    requires
        0 <= i < n <= args.len(),
        cfg_eval_any(cfgs, args, i) == Ok::<bool, ErrorKind>(false),
        !(cfg_eval(cfgs, args[i]) is Ok),
    ensures
        cfg_eval_any(cfgs, args, n) == Err::<bool, ErrorKind>(cfg_eval(cfgs, args[i])->Err_0),
    decreases n,
{
    if n - 1 > i {
        lemma_cfg_eval_any_err(cfgs, args, i, n - 1);
    }
}

proof fn lemma_cfg_eval_any_true(cfgs: Seq<(String, Option<String>)>, args: Seq<MetaItem>, i: int, n: int)
    requires
        0 <= i < n <= args.len(),
        cfg_eval_any(cfgs, args, i) == Ok::<bool, ErrorKind>(false),
        cfg_eval(cfgs, args[i]) == Ok::<bool, ErrorKind>(true),
    ensures
        cfg_eval_any(cfgs, args, n) == Ok::<bool, ErrorKind>(true),
    decreases n,
{
    if n - 1 > i {
        lemma_cfg_eval_any_true(cfgs, args, i, n - 1);
    }
}

/// Evaluates `cfg(...)` expressions against the configuration table.
pub struct CfgVisitor {
}

impl CfgVisitor {
    pub fn new() -> (r: CfgVisitor) {
        CfgVisitor {  }
    }

    /// Evaluates one meta item (see `cfg_eval`).
    pub fn visit_meta_item(&mut self, global: &GlobalCtx, m: &MetaItem) -> (r: Result<
        bool,
        ErrorKind,
    >)
        ensures
            r == cfg_eval(global.cfgs@, *m),
        decreases *m, 0int,
    {
        let is_cfg = str_eq(m.name.as_str(), "cfg");
        let is_not = str_eq(m.name.as_str(), "not");
        if is_cfg || is_not {
            if m.args.len() != 1 {
                return Err(ErrorKind::InvalidAttribute);
            }
            proof {
                assert(decreases_to!(*m => m.args));
                assert(decreases_to!(m.args => m.args@[0]));
            }
            match self.visit_meta_item(global, &m.args[0]) {
                Ok(b) => Ok(
                    if is_not {
                        !b
                    } else {
                        b
                    },
                ),
                Err(e) => Err(e),
            }
        } else if str_eq(m.name.as_str(), "all") {
            proof {
                assert(decreases_to!(*m => m.args));
                assert(decreases_to!(m.args => m.args@));
            }
            self.visit_meta_arguments_all(global, &m.args)
        } else if str_eq(m.name.as_str(), "any") {
            proof {
                assert(decreases_to!(*m => m.args));
                assert(decreases_to!(m.args => m.args@));
            }
            self.visit_meta_arguments_any(global, &m.args)
        } else if m.args.len() > 0 {
            Err(ErrorKind::InvalidAttribute)
        } else {
            match global.cfg(m.name.as_str()) {
                Some(configured) => match &m.value {
                    Some(expected) => match configured {
                        Some(actual) => Ok(str_eq(actual.as_str(), expected.as_str())),
                        None => Ok(false),
                    },
                    None => Ok(true),
                },
                None => Ok(false),
            }
        }
    }

    /// Conjunction over an argument list (`all(...)`).
    pub fn visit_meta_arguments_all(&mut self, global: &GlobalCtx, args: &Vec<MetaItem>) -> (r:
        Result<bool, ErrorKind>)
        ensures
            r == cfg_eval_all(global.cfgs@, args@, args@.len() as int),
        decreases args@, 1int,
    {
        let n = args.len();
        let mut i: usize = 0;
        while i < n
            invariant
                n == args@.len(),
                i <= n,
                cfg_eval_all(global.cfgs@, args@, i as int) == Ok::<bool, ErrorKind>(true),
            decreases n - i,
        {
            proof {
                assert(decreases_to!(args@ => args@[i as int]));
            }
            match self.visit_meta_item(global, &args[i]) {
                Ok(true) => {},
                Ok(false) => {
                    proof {
                        lemma_cfg_eval_all_false(global.cfgs@, args@, i as int, n as int);
                    }
                    return Ok(false);
                },
                Err(e) => {
                    proof {
                        lemma_cfg_eval_all_err(global.cfgs@, args@, i as int, n as int);
                    }
                    return Err(e);
                },
            }
            i = i + 1;
        }
        Ok(true)
    }

    /// Disjunction over an argument list (`any(...)`).
    pub fn visit_meta_arguments_any(&mut self, global: &GlobalCtx, args: &Vec<MetaItem>) -> (r:
        Result<bool, ErrorKind>)
        ensures
            r == cfg_eval_any(global.cfgs@, args@, args@.len() as int),
        decreases args@, 1int,
    {
        let n = args.len();
        let mut i: usize = 0;
        while i < n
            invariant
                n == args@.len(),
                i <= n,
                cfg_eval_any(global.cfgs@, args@, i as int) == Ok::<bool, ErrorKind>(false),
            decreases n - i,
        {
            proof {
                assert(decreases_to!(args@ => args@[i as int]));
            }
            match self.visit_meta_item(global, &args[i]) {
                Ok(false) => {},
                Ok(true) => {
                    proof {
                        lemma_cfg_eval_any_true(global.cfgs@, args@, i as int, n as int);
                    }
                    return Ok(true);
                },
                Err(e) => {
                    proof {
                        lemma_cfg_eval_any_err(global.cfgs@, args@, i as int, n as int);
                    }
                    return Err(e);
                },
            }
            i = i + 1;
        }
        Ok(false)
    }
}


/// The value of a decimal attribute argument, when it is one: digits only,
/// representable as a `usize` (larger values are invalid).
pub open spec fn dec_arg_value(s: Seq<char>) -> Option<int> {
    if s.len() == 0 || (exists|i: int| 0 <= i < s.len() && !('0' <= #[trigger] s[i] <= '9')) || (
    exists|j: int| 0 <= j <= s.len() && char_digits_value(s, j) > usize::MAX) {
        None
    } else {
        Some(char_digits_value(s, s.len() as int))
    }
}

pub open spec fn char_digits_value(s: Seq<char>, n: int) -> int
    decreases n,
{
    if n <= 0 || n > s.len() {
        0
    } else {
        char_digits_value(s, n - 1) * 10 + (s[n - 1] as int - 48)
    }
}

proof fn lemma_char_digits_nonneg(s: Seq<char>, n: int)
    requires
        forall|i: int| 0 <= i < n ==> '0' <= #[trigger] s[i] <= '9',
        n <= s.len(),
    ensures
        0 <= char_digits_value(s, n),
    decreases n,
{
    if n > 0 {
        lemma_char_digits_nonneg(s, n - 1);
    }
}

/// Parses a decimal attribute argument; values beyond `usize` are invalid.
pub fn parse_dec_arg(s: &str) -> (r: Option<usize>)
    ensures
        match r {
            Some(v) => dec_arg_value(s@) == Some(v as int),
            None => dec_arg_value(s@) is None,
        },
{
    let n = s.unicode_len();
    if n == 0 {
        return None;
    }
    let mut v: usize = 0;
    let mut i: usize = 0;
    while i < n
        invariant
            n == s@.len(),
            0 < n,
            i <= n,
            forall|k: int| 0 <= k < i ==> '0' <= #[trigger] s@[k] <= '9',
            v == char_digits_value(s@, i as int),
            forall|j: int| 0 <= j <= i ==> char_digits_value(s@, j) <= usize::MAX,
        decreases n - i,
    {
        let c = s.get_char(i);
        if !('0' <= c && c <= '9') {
            return None;
        }
        proof {
            assert('0' as int == 48 && '9' as int == 57);
            assert(48 <= c as int <= 57);
            lemma_char_digits_nonneg(s@, i as int);
        }
        let d = (c as usize) - 48;
        if v > (usize::MAX - d) / 10 {
            proof {
                assert((v as int) * 10 + (d as int) > usize::MAX) by (nonlinear_arith)
                    requires
                        v as int > (usize::MAX as int - d as int) / 10,
                        0 <= d as int <= 9,
                        0 <= v as int,
                ;
                assert(char_digits_value(s@, i + 1) > usize::MAX);
            }
            return None;
        }
        proof {
            assert((v as int) * 10 + (d as int) <= usize::MAX) by (nonlinear_arith)
                requires
                    v as int <= (usize::MAX as int - d as int) / 10,
                    0 <= d as int <= 9,
                    0 <= v as int,
            ;
            assert forall|j: int| 0 <= j <= i + 1 implies char_digits_value(s@, j)
                <= usize::MAX by {
                if j <= i as int {
                } else {
                    assert(char_digits_value(s@, i + 1) == (v as int) * 10 + (d as int));
                }
            }
        }
        v = v * 10 + d;
        i = i + 1;
    }
    Some(v)
}

/// The lint a name of an `allow`/`deny`/`warn` attribute refers to, for
/// the warnings the compiler can raise.
pub open spec fn lint_kind_of(name: Seq<char>) -> Option<ErrorKind> {
    if name == "duplicate_name_shadow"@ {
        Some(ErrorKind::DuplicateNameShadow)
    } else if name == "self_confusion"@ {
        Some(ErrorKind::SelfConfusion)
    } else if name == "align_one"@ {
        Some(ErrorKind::Align1)
    } else {
        None
    }
}

pub fn lint_kind(name: &str) -> (r: Option<ErrorKind>)
    ensures
        r == lint_kind_of(name@),
{
    if str_eq(name, "duplicate_name_shadow") {
        Some(ErrorKind::DuplicateNameShadow)
    } else if str_eq(name, "self_confusion") {
        Some(ErrorKind::SelfConfusion)
    } else if str_eq(name, "align_one") {
        Some(ErrorKind::Align1)
    } else {
        None
    }
}

/// The lang-item tag a `lang` attribute argument names.
pub open spec fn lang_item_of(name: Seq<char>) -> Option<LangItemKind> {
    if name == "dyn_self"@ {
        Some(LangItemKind::DynSelf)
    } else {
        None
    }
}

pub fn lang_item_from_name(name: &str) -> (r: Option<LangItemKind>)
    ensures
        r == lang_item_of(name@),
{
    if str_eq(name, "dyn_self") {
        Some(LangItemKind::DynSelf)
    } else {
        None
    }
}

/// The mathematical view of an attribute: the `link_name` bytes become a
/// sequence, everything else is carried as is.
#[verifier::ext_equal]
pub enum AttrView {
    Inline,
    AlwaysInline,
    NoInline,
    InlineDuringMono,
    Cold,
    Export,
    LinkName(Seq<u8>),
    ThreadLocal,
    Packed,
    Align(usize),
    Transparent,
    MustUse,
    Builtin,
    Test,
    TestMain,
    StaticConstructor,
    NoReturn,
}

pub open spec fn attr_view(a: Attribute) -> AttrView {
    match a {
        Attribute::Inline => AttrView::Inline,
        Attribute::AlwaysInline => AttrView::AlwaysInline,
        Attribute::NoInline => AttrView::NoInline,
        Attribute::InlineDuringMono => AttrView::InlineDuringMono,
        Attribute::Cold => AttrView::Cold,
        Attribute::Export => AttrView::Export,
        Attribute::LinkName(bytes) => AttrView::LinkName(bytes@),
        Attribute::ThreadLocal => AttrView::ThreadLocal,
        Attribute::Packed => AttrView::Packed,
        Attribute::Align(n) => AttrView::Align(n),
        Attribute::Transparent => AttrView::Transparent,
        Attribute::MustUse => AttrView::MustUse,
        Attribute::Builtin => AttrView::Builtin,
        Attribute::Test => AttrView::Test,
        Attribute::TestMain => AttrView::TestMain,
        Attribute::StaticConstructor => AttrView::StaticConstructor,
        Attribute::NoReturn => AttrView::NoReturn,
    }
}

pub open spec fn attrs_view_n(s: Seq<Attribute>, n: int) -> Seq<AttrView>
    decreases n,
{
    if n <= 0 || n > s.len() {
        Seq::empty()
    } else {
        attrs_view_n(s, n - 1).push(attr_view(s[n - 1]))
    }
}

pub open spec fn attrs_view(s: Seq<Attribute>) -> Seq<AttrView> {
    attrs_view_n(s, s.len() as int)
}

pub proof fn lemma_attrs_view_n(s: Seq<Attribute>, n: int)
    requires
        0 <= n <= s.len(),
    ensures
        attrs_view_n(s, n).len() == n,
        forall|i: int| 0 <= i < n ==> attrs_view_n(s, n)[i] == attr_view(s[i]),
    decreases n,
{
    if n > 0 {
        lemma_attrs_view_n(s, n - 1);
    }
}

pub proof fn lemma_attrs_view_push(s: Seq<Attribute>, a: Attribute)
    ensures
        attrs_view(s.push(a)) == attrs_view(s).push(attr_view(a)),
{
    lemma_attrs_view_n(s, s.len() as int);
    lemma_attrs_view_n(s.push(a), s.len() as int + 1);
    assert(attrs_view(s.push(a)) =~= attrs_view(s).push(attr_view(a)));
}

/// Whether two attribute views are the same attribute (regardless of
/// payload), for the duplicate checks.
pub open spec fn same_attr_kind(a: AttrView, b: AttrView) -> bool {
    match (a, b) {
        (AttrView::Inline, AttrView::Inline) => true,
        (AttrView::AlwaysInline, AttrView::AlwaysInline) => true,
        (AttrView::NoInline, AttrView::NoInline) => true,
        (AttrView::InlineDuringMono, AttrView::InlineDuringMono) => true,
        (AttrView::Cold, AttrView::Cold) => true,
        (AttrView::Export, AttrView::Export) => true,
        (AttrView::LinkName(_), AttrView::LinkName(_)) => true,
        (AttrView::ThreadLocal, AttrView::ThreadLocal) => true,
        (AttrView::Packed, AttrView::Packed) => true,
        (AttrView::Align(_), AttrView::Align(_)) => true,
        (AttrView::Transparent, AttrView::Transparent) => true,
        (AttrView::MustUse, AttrView::MustUse) => true,
        (AttrView::Builtin, AttrView::Builtin) => true,
        (AttrView::Test, AttrView::Test) => true,
        (AttrView::TestMain, AttrView::TestMain) => true,
        (AttrView::StaticConstructor, AttrView::StaticConstructor) => true,
        (AttrView::NoReturn, AttrView::NoReturn) => true,
        _ => false,
    }
}

pub open spec fn attr_present(attrs: Seq<AttrView>, which: AttrView) -> bool {
    exists|i: int| 0 <= i < attrs.len() && same_attr_kind(#[trigger] attrs[i], which)
}

/// The state the attribute parser threads: the attributes parsed so far,
/// the cfg-skip and test flags, and the full diagnostic and lang-item
/// sequences it appends to.
#[verifier::ext_equal]
pub struct AttrOutcome {
    pub attrs: Seq<AttrView>,
    pub skip: bool,
    pub is_test: bool,
    pub warnings: Seq<CodeError>,
    pub overrides: Seq<LintOverride>,
    pub lang: Seq<(LangItemKind, crate::ast::ItemRef)>,
}

/// What parsing one attribute does to the parser state, per the rules of
/// the attribute table: duplicates are errors, `align` takes a power of
/// two (one merely warns) and excludes `packed`, `thread_local` is kept
/// only under the `threading` flag, `allow`/`deny`/`warn` push lint
/// overrides, `cfg` gates the item, `cfg_attr` its argument attributes,
/// `lang` registers a lang item, and unknown names are ignored.
pub open spec fn attr_step(
    cfgs: Seq<(String, Option<String>)>,
    st: AttrOutcome,
    m: MetaItem,
    span: Option<Span>,
    item: Option<crate::ast::ItemRef>,
    n_items: int,
) -> Result<AttrOutcome, ErrorKind>
    decreases m, 0int,
{
    if m.name@ == "align"@ {
        if attr_present(st.attrs, AttrView::Align(0)) {
            Err(ErrorKind::DuplicateAttribute)
        } else if m.args@.len() != 1 {
            Err(ErrorKind::InvalidAttribute)
        } else {
            match dec_arg_value(m.args@[0].name@) {
                None => Err(ErrorKind::InvalidAttribute),
                Some(v) => if v == 1 {
                    Ok(
                        AttrOutcome {
                            warnings: st.warnings.push(
                                CodeError { kind: ErrorKind::Align1, span },
                            ),
                            ..st
                        },
                    )
                } else if v == 0 || ((v as usize) & ((v - 1) as usize)) != 0 {
                    Err(ErrorKind::InvalidAttribute)
                } else if attr_present(st.attrs, AttrView::Packed) {
                    Err(ErrorKind::AlignAndPacked)
                } else {
                    Ok(AttrOutcome { attrs: st.attrs.push(AttrView::Align(v as usize)), ..st })
                },
            }
        }
    } else if m.name@ == "cold"@ {
        if attr_present(st.attrs, AttrView::Cold) {
            Err(ErrorKind::DuplicateAttribute)
        } else {
            Ok(AttrOutcome { attrs: st.attrs.push(AttrView::Cold), ..st })
        }
    } else if m.name@ == "transparent"@ {
        if attr_present(st.attrs, AttrView::Transparent) {
            Err(ErrorKind::DuplicateAttribute)
        } else {
            Ok(AttrOutcome { attrs: st.attrs.push(AttrView::Transparent), ..st })
        }
    } else if m.name@ == "packed"@ {
        if attr_present(st.attrs, AttrView::Packed) {
            Err(ErrorKind::DuplicateAttribute)
        } else if attr_present(st.attrs, AttrView::Align(0)) {
            Err(ErrorKind::AlignAndPacked)
        } else {
            Ok(AttrOutcome { attrs: st.attrs.push(AttrView::Packed), ..st })
        }
    } else if m.name@ == "allow"@ || m.name@ == "deny"@ || m.name@ == "warn"@ {
        if m.args@.len() != 1 {
            Err(ErrorKind::InvalidAttribute)
        } else {
            let action = if m.name@ == "allow"@ {
                Action::Allow
            } else if m.name@ == "deny"@ {
                Action::Deny
            } else {
                Action::Keep
            };
            match lint_kind_of(m.args@[0].name@) {
                Some(kind) => Ok(
                    AttrOutcome {
                        overrides: st.overrides.push(
                            LintOverride { span, kind: Some(kind), action },
                        ),
                        ..st
                    },
                ),
                None => if m.args@[0].name@ == "warnings"@ {
                    Ok(
                        AttrOutcome {
                            overrides: st.overrides.push(
                                LintOverride { span, kind: None, action },
                            ),
                            ..st
                        },
                    )
                } else {
                    Ok(
                        AttrOutcome {
                            warnings: st.warnings.push(
                                CodeError { kind: ErrorKind::UnknownLintName, span },
                            ),
                            ..st
                        },
                    )
                },
            }
        }
    } else if m.name@ == "inline"@ {
        if attr_present(st.attrs, AttrView::Inline) || attr_present(
            st.attrs,
            AttrView::AlwaysInline,
        ) || attr_present(st.attrs, AttrView::InlineDuringMono) {
            Err(ErrorKind::DuplicateAttribute)
        } else if m.args@.len() == 0 {
            Ok(AttrOutcome { attrs: st.attrs.push(AttrView::Inline), ..st })
        } else if m.args@.len() == 1 {
            if m.args@[0].name@ == "always"@ {
                Ok(AttrOutcome { attrs: st.attrs.push(AttrView::AlwaysInline), ..st })
            } else if m.args@[0].name@ == "never"@ {
                Ok(AttrOutcome { attrs: st.attrs.push(AttrView::NoInline), ..st })
            } else if m.args@[0].name@ == "ir"@ {
                Ok(AttrOutcome { attrs: st.attrs.push(AttrView::InlineDuringMono), ..st })
            } else {
                Err(ErrorKind::InvalidAttribute)
            }
        } else {
            Err(ErrorKind::InvalidAttribute)
        }
    } else if m.name@ == "builtin"@ {
        if attr_present(st.attrs, AttrView::Builtin) {
            Err(ErrorKind::DuplicateAttribute)
        } else {
            Ok(AttrOutcome { attrs: st.attrs.push(AttrView::Builtin), ..st })
        }
    } else if m.name@ == "export"@ {
        if attr_present(st.attrs, AttrView::Export) {
            Err(ErrorKind::DuplicateAttribute)
        } else {
            Ok(AttrOutcome { attrs: st.attrs.push(AttrView::Export), ..st })
        }
    } else if m.name@ == "thread_local"@ {
        if attr_present(st.attrs, AttrView::ThreadLocal) {
            Err(ErrorKind::DuplicateAttribute)
        } else if assoc_find(cfgs, "threading"@) is Some {
            Ok(AttrOutcome { attrs: st.attrs.push(AttrView::ThreadLocal), ..st })
        } else {
            Ok(st)
        }
    } else if m.name@ == "test_main"@ {
        Ok(AttrOutcome { attrs: st.attrs.push(AttrView::TestMain), ..st })
    } else if m.name@ == "link_name"@ {
        if attr_present(st.attrs, AttrView::LinkName(Seq::empty())) {
            Err(ErrorKind::DuplicateAttribute)
        } else if m.args@.len() != 1 {
            Err(ErrorKind::InvalidAttribute)
        } else {
            Ok(
                AttrOutcome {
                    attrs: st.attrs.push(
                        AttrView::LinkName(crate::macros::path_bytes(m.args@[0].name@)),
                    ),
                    ..st
                },
            )
        }
    } else if m.name@ == "test"@ {
        Ok(AttrOutcome { is_test: true, ..st })
    } else if m.name@ == "lang"@ {
        if m.args@.len() != 1 {
            Err(ErrorKind::UnknownLangItem)
        } else {
            match lang_item_of(m.args@[0].name@) {
                None => Err(ErrorKind::UnknownLangItem),
                Some(kind) => match item {
                    None => Err(ErrorKind::CannotBeALangItem),
                    Some(it) => if (it as int) < n_items {
                        Ok(AttrOutcome { lang: st.lang.push((kind, it)), ..st })
                    } else {
                        Err(ErrorKind::InternalError)
                    },
                },
            }
        }
    } else if m.name@ == "cfg"@ {
        match cfg_eval(cfgs, m) {
            Ok(true) => Ok(st),
            Ok(false) => Ok(AttrOutcome { skip: true, ..st }),
            Err(e) => Err(e),
        }
    } else if m.name@ == "cfg_attr"@ {
        if m.args@.len() < 2 {
            Err(ErrorKind::InvalidAttribute)
        } else {
            match cfg_eval(cfgs, m.args@[0]) {
                Err(e) => Err(e),
                Ok(false) => Ok(st),
                Ok(true) => attr_fold(cfgs, st, m.args@, 1, span, item, n_items),
            }
        }
    } else if m.name@ == "must_use"@ {
        if attr_present(st.attrs, AttrView::MustUse) {
            Err(ErrorKind::DuplicateAttribute)
        } else {
            Ok(AttrOutcome { attrs: st.attrs.push(AttrView::MustUse), ..st })
        }
    } else {
        Ok(st)
    }
}

/// Folds `attr_step` over the meta items from position `i` on.
pub open spec fn attr_fold(
    cfgs: Seq<(String, Option<String>)>,
    st: AttrOutcome,
    items: Seq<MetaItem>,
    i: int,
    span: Option<Span>,
    item: Option<crate::ast::ItemRef>,
    n_items: int,
) -> Result<AttrOutcome, ErrorKind>
    decreases items, 1int, items.len() - i,
{
    if i < 0 || i >= items.len() {
        Ok(st)
    } else {
        match attr_step(cfgs, st, items[i], span, item, n_items) {
            Err(e) => Err(e),
            Ok(st2) => attr_fold(cfgs, st2, items, i + 1, span, item, n_items),
        }
    }
}

/// Parses the attribute list of one item into the closed attribute enum,
/// applying `cfg` gating, lint overrides, lang-item registration and the
/// validity rules (see `attr_step`).
pub struct AttributeVisitor {
    pub attributes: Vec<Attribute>,
    pub should_skip: bool,
    pub is_test: bool,
}

impl AttributeVisitor {
    /// Parses all attributes of an item.  `Ok(None)` means a `cfg`
    /// attribute evaluated false and the item is skipped altogether.
    pub fn parse_attributes(
        global: &mut GlobalCtx,
        ctx: &mut AstCtx,
        item: Option<ItemRef>,
        items: &Vec<MetaItem>,
        enclosing_span: Option<Span>,
    ) -> (r: Result<Option<Vec<Attribute>>, ErrorKind>)
        ensures
            final(global).cfgs@ == old(global).cfgs@,
            final(global).env@ == old(global).env@,
            final(global).files@ == old(global).files@,
            final(global).diag.errors@ == old(global).diag.errors@,
            final(global).diag.file_paths@ == old(global).diag.file_paths@,
            final(ctx).extends(*old(ctx)),
            final(ctx).items@ == old(ctx).items@,
            final(ctx).types@ == old(ctx).types@,
            final(ctx).type_lists@ == old(ctx).type_lists@,
            old(ctx).wf() ==> final(ctx).wf(),
            match attr_fold(
                old(global).cfgs@,
                AttrOutcome {
                    attrs: Seq::empty(),
                    skip: false,
                    is_test: false,
                    warnings: old(global).diag.warnings@,
                    overrides: old(global).diag.overrides@,
                    lang: old(ctx).lang_items@,
                },
                items@,
                0,
                enclosing_span,
                item,
                old(ctx).items@.len() as int,
            ) {
                Ok(st2) => {
                    &&& final(global).diag.warnings@ == st2.warnings
                    &&& final(global).diag.overrides@ == st2.overrides
                    &&& final(ctx).lang_items@ == st2.lang
                    &&& if st2.skip {
                        r == Ok::<Option<Vec<Attribute>>, ErrorKind>(None)
                    } else {
                        r matches Ok(Some(attrs)) && attrs_view(attrs@) == (if st2.is_test {
                            st2.attrs.push(AttrView::Test)
                        } else {
                            st2.attrs
                        })
                    }
                },
                Err(k) => r == Err::<Option<Vec<Attribute>>, ErrorKind>(k),
            },
    {
        let ghost cfgs0 = global.cfgs@;
        let ghost ni = old(ctx).items@.len() as int;
        let ghost st0 = AttrOutcome {
            attrs: Seq::empty(),
            skip: false,
            is_test: false,
            warnings: global.diag.warnings@,
            overrides: global.diag.overrides@,
            lang: ctx.lang_items@,
        };
        let mut visitor = AttributeVisitor {
            attributes: Vec::new(),
            should_skip: false,
            is_test: false,
        };
        proof {
            assert(attrs_view(visitor.attributes@) =~= Seq::<AttrView>::empty());
        }
        let n = items.len();
        let mut i: usize = 0;
        while i < n
            invariant
                n == items@.len(),
                i <= n,
                global.cfgs@ == old(global).cfgs@,
                global.env@ == old(global).env@,
                global.files@ == old(global).files@,
                global.diag.errors@ == old(global).diag.errors@,
                global.diag.file_paths@ == old(global).diag.file_paths@,
                ctx.extends(*old(ctx)),
                ctx.items@ == old(ctx).items@,
                ctx.types@ == old(ctx).types@,
                ctx.type_lists@ == old(ctx).type_lists@,
                old(ctx).wf() ==> ctx.wf(),
                cfgs0 == old(global).cfgs@,
                ni == old(ctx).items@.len() as int,
                st0 == (AttrOutcome {
                    attrs: Seq::<AttrView>::empty(),
                    skip: false,
                    is_test: false,
                    warnings: old(global).diag.warnings@,
                    overrides: old(global).diag.overrides@,
                    lang: old(ctx).lang_items@,
                }),
                attr_fold(cfgs0, st0, items@, 0, enclosing_span, item, ni) == attr_fold(
                    cfgs0,
                    AttrOutcome {
                        attrs: attrs_view(visitor.attributes@),
                        skip: visitor.should_skip,
                        is_test: visitor.is_test,
                        warnings: global.diag.warnings@,
                        overrides: global.diag.overrides@,
                        lang: ctx.lang_items@,
                    },
                    items@,
                    i as int,
                    enclosing_span,
                    item,
                    ni,
                ),
            decreases n - i,
        {
            let ghost ctx_pre = *ctx;
            proof {
                assert(decreases_to!(items@ => items@[i as int]));
            }
            match visitor.visit_meta_item(global, ctx, item, &items[i], enclosing_span) {
                Ok(()) => {},
                Err(e) => {
                    return Err(e);
                },
            }
            proof {
                crate::ast::lemma_extends_trans(*old(ctx), ctx_pre, *ctx);
            }
            i = i + 1;
        }
        if visitor.is_test {
            let ghost pre = visitor.attributes@;
            visitor.attributes.push(Attribute::Test);
            proof {
                lemma_attrs_view_push(pre, Attribute::Test);
            }
        }
        if visitor.should_skip {
            Ok(None)
        } else {
            Ok(Some(visitor.attributes))
        }
    }

    /// Whether an attribute of the same kind as `which` was already parsed.
    fn has_parsed(&self, which: &Attribute) -> (r: bool)
        ensures
            r == attr_present(attrs_view(self.attributes@), attr_view(*which)),
    {
        proof {
            lemma_attrs_view_n(self.attributes@, self.attributes@.len() as int);
        }
        let n = self.attributes.len();
        let mut i: usize = 0;
        while i < n
            invariant
                n == self.attributes@.len(),
                i <= n,
                forall|k: int|
                    0 <= k < i ==> !same_attr_kind(
                        attr_view(#[trigger] self.attributes@[k]),
                        attr_view(*which),
                    ),
                forall|k: int|
                    0 <= k < n ==> attrs_view(self.attributes@)[k] == attr_view(
                        self.attributes@[k],
                    ),
                attrs_view(self.attributes@).len() == n,
            decreases n - i,
        {
            let same = match (&self.attributes[i], which) {
                (Attribute::Inline, Attribute::Inline) => true,
                (Attribute::AlwaysInline, Attribute::AlwaysInline) => true,
                (Attribute::NoInline, Attribute::NoInline) => true,
                (Attribute::InlineDuringMono, Attribute::InlineDuringMono) => true,
                (Attribute::Cold, Attribute::Cold) => true,
                (Attribute::Export, Attribute::Export) => true,
                (Attribute::LinkName(_), Attribute::LinkName(_)) => true,
                (Attribute::ThreadLocal, Attribute::ThreadLocal) => true,
                (Attribute::Packed, Attribute::Packed) => true,
                (Attribute::Align(_), Attribute::Align(_)) => true,
                (Attribute::Transparent, Attribute::Transparent) => true,
                (Attribute::MustUse, Attribute::MustUse) => true,
                (Attribute::Builtin, Attribute::Builtin) => true,
                (Attribute::Test, Attribute::Test) => true,
                (Attribute::TestMain, Attribute::TestMain) => true,
                (Attribute::StaticConstructor, Attribute::StaticConstructor) => true,
                (Attribute::NoReturn, Attribute::NoReturn) => true,
                _ => false,
            };
            if same {
                proof {
                    assert(same_attr_kind(
                        attrs_view(self.attributes@)[i as int],
                        attr_view(*which),
                    ));
                }
                return true;
            }
            i = i + 1;
        }
        false
    }

    /// Parses one attribute (see `attr_step`).
    #[verifier::rlimit(100)]
    #[verifier::spinoff_prover]
    pub fn visit_meta_item(
        &mut self,
        global: &mut GlobalCtx,
        ctx: &mut AstCtx,
        item: Option<ItemRef>,
        m: &MetaItem,
        enclosing_span: Option<Span>,
    ) -> (r: Result<(), ErrorKind>)
        ensures
            final(global).cfgs@ == old(global).cfgs@,
            final(global).env@ == old(global).env@,
            final(global).files@ == old(global).files@,
            final(global).diag.errors@ == old(global).diag.errors@,
            final(global).diag.file_paths@ == old(global).diag.file_paths@,
            final(ctx).extends(*old(ctx)),
            final(ctx).items@ == old(ctx).items@,
            final(ctx).types@ == old(ctx).types@,
            final(ctx).type_lists@ == old(ctx).type_lists@,
            old(ctx).wf() ==> final(ctx).wf(),
            match attr_step(
                old(global).cfgs@,
                AttrOutcome {
                    attrs: attrs_view(old(self).attributes@),
                    skip: old(self).should_skip,
                    is_test: old(self).is_test,
                    warnings: old(global).diag.warnings@,
                    overrides: old(global).diag.overrides@,
                    lang: old(ctx).lang_items@,
                },
                *m,
                enclosing_span,
                item,
                old(ctx).items@.len() as int,
            ) {
                Ok(st2) => r == Ok::<(), ErrorKind>(()) && attrs_view(final(self).attributes@)
                    == st2.attrs && final(self).should_skip == st2.skip && final(self).is_test
                    == st2.is_test && final(global).diag.warnings@ == st2.warnings && final(global).diag.overrides@ == st2.overrides && final(ctx).lang_items@ == st2.lang,
                Err(k) => r == Err::<(), ErrorKind>(k),
            },
        decreases *m, 1int,
    {
        let ghost st_in = AttrOutcome {
            attrs: attrs_view(self.attributes@),
            skip: self.should_skip,
            is_test: self.is_test,
            warnings: global.diag.warnings@,
            overrides: global.diag.overrides@,
            lang: ctx.lang_items@,
        };
        let name = &m.name;
        if str_eq(name.as_str(), "align") {
            if self.has_parsed(&Attribute::Align(0)) {
                return Err(ErrorKind::DuplicateAttribute);
            }
            if m.args.len() != 1 {
                return Err(ErrorKind::InvalidAttribute);
            }
            let align = match parse_dec_arg(m.args[0].name.as_str()) {
                Some(v) => v,
                None => {
                    return Err(ErrorKind::InvalidAttribute);
                },
            };
            if align == 1 {
                global.diag.add_warning(
                    CodeError { kind: ErrorKind::Align1, span: enclosing_span },
                );
            } else if align == 0 || (align & (align - 1)) != 0 {
                return Err(ErrorKind::InvalidAttribute);
            } else {
                if self.has_parsed(&Attribute::Packed) {
                    return Err(ErrorKind::AlignAndPacked);
                }
                let ghost pre = self.attributes@;
                self.attributes.push(Attribute::Align(align));
                proof {
                    lemma_attrs_view_push(pre, Attribute::Align(align));
                }
            }
            Ok(())
        } else if str_eq(name.as_str(), "cold") {
            if self.has_parsed(&Attribute::Cold) {
                return Err(ErrorKind::DuplicateAttribute);
            }
            let ghost pre = self.attributes@;
            self.attributes.push(Attribute::Cold);
            proof {
                lemma_attrs_view_push(pre, Attribute::Cold);
            }
            Ok(())
        } else if str_eq(name.as_str(), "transparent") {
            if self.has_parsed(&Attribute::Transparent) {
                return Err(ErrorKind::DuplicateAttribute);
            }
            let ghost pre = self.attributes@;
            self.attributes.push(Attribute::Transparent);
            proof {
                lemma_attrs_view_push(pre, Attribute::Transparent);
            }
            Ok(())
        } else if str_eq(name.as_str(), "packed") {
            if self.has_parsed(&Attribute::Packed) {
                return Err(ErrorKind::DuplicateAttribute);
            }
            if self.has_parsed(&Attribute::Align(0)) {
                return Err(ErrorKind::AlignAndPacked);
            }
            let ghost pre = self.attributes@;
            self.attributes.push(Attribute::Packed);
            proof {
                lemma_attrs_view_push(pre, Attribute::Packed);
            }
            Ok(())
        } else if str_eq(name.as_str(), "allow") || str_eq(name.as_str(), "deny") || str_eq(
            name.as_str(),
            "warn",
        ) {
            if m.args.len() != 1 {
                return Err(ErrorKind::InvalidAttribute);
            }
            let action = if str_eq(name.as_str(), "allow") {
                Action::Allow
            } else if str_eq(name.as_str(), "deny") {
                Action::Deny
            } else {
                Action::Keep
            };
            let lint_name = &m.args[0].name;
            match lint_kind(lint_name.as_str()) {
                Some(kind) => {
                    global.diag.add_override(
                        LintOverride { span: enclosing_span, kind: Some(kind), action },
                    );
                },
                None => {
                    if str_eq(lint_name.as_str(), "warnings") {
                        global.diag.add_override(
                            LintOverride { span: enclosing_span, kind: None, action },
                        );
                    } else {
                        global.diag.add_warning(
                            CodeError {
                                kind: ErrorKind::UnknownLintName,
                                span: enclosing_span,
                            },
                        );
                    }
                },
            }
            Ok(())
        } else if str_eq(name.as_str(), "inline") {
            if self.has_parsed(&Attribute::Inline) || self.has_parsed(&Attribute::AlwaysInline)
                || self.has_parsed(&Attribute::InlineDuringMono) {
                return Err(ErrorKind::DuplicateAttribute);
            }
            if m.args.len() == 0 {
                let ghost pre = self.attributes@;
                self.attributes.push(Attribute::Inline);
                proof {
                    lemma_attrs_view_push(pre, Attribute::Inline);
                }
                Ok(())
            } else if m.args.len() == 1 {
                if str_eq(m.args[0].name.as_str(), "always") {
                    let ghost pre = self.attributes@;
                    self.attributes.push(Attribute::AlwaysInline);
                    proof {
                        lemma_attrs_view_push(pre, Attribute::AlwaysInline);
                    }
                    Ok(())
                } else if str_eq(m.args[0].name.as_str(), "never") {
                    let ghost pre = self.attributes@;
                    self.attributes.push(Attribute::NoInline);
                    proof {
                        lemma_attrs_view_push(pre, Attribute::NoInline);
                    }
                    Ok(())
                } else if str_eq(m.args[0].name.as_str(), "ir") {
                    let ghost pre = self.attributes@;
                    self.attributes.push(Attribute::InlineDuringMono);
                    proof {
                        lemma_attrs_view_push(pre, Attribute::InlineDuringMono);
                    }
                    Ok(())
                } else {
                    Err(ErrorKind::InvalidAttribute)
                }
            } else {
                Err(ErrorKind::InvalidAttribute)
            }
        } else if str_eq(name.as_str(), "builtin") {
            if self.has_parsed(&Attribute::Builtin) {
                return Err(ErrorKind::DuplicateAttribute);
            }
            let ghost pre = self.attributes@;
            self.attributes.push(Attribute::Builtin);
            proof {
                lemma_attrs_view_push(pre, Attribute::Builtin);
            }
            Ok(())
        } else if str_eq(name.as_str(), "export") {
            if self.has_parsed(&Attribute::Export) {
                return Err(ErrorKind::DuplicateAttribute);
            }
            let ghost pre = self.attributes@;
            self.attributes.push(Attribute::Export);
            proof {
                lemma_attrs_view_push(pre, Attribute::Export);
            }
            Ok(())
        } else if str_eq(name.as_str(), "thread_local") {
            if self.has_parsed(&Attribute::ThreadLocal) {
                return Err(ErrorKind::DuplicateAttribute);
            }
            if global.has_flag("threading") {
                let ghost pre = self.attributes@;
                self.attributes.push(Attribute::ThreadLocal);
                proof {
                    lemma_attrs_view_push(pre, Attribute::ThreadLocal);
                }
            }
            Ok(())
        } else if str_eq(name.as_str(), "test_main") {
            let ghost pre = self.attributes@;
            self.attributes.push(Attribute::TestMain);
            proof {
                lemma_attrs_view_push(pre, Attribute::TestMain);
            }
            Ok(())
        } else if str_eq(name.as_str(), "link_name") {
            if self.has_parsed(&Attribute::LinkName(Vec::new())) {
                return Err(ErrorKind::DuplicateAttribute);
            }
            if m.args.len() != 1 {
                return Err(ErrorKind::InvalidAttribute);
            }
            let bytes = crate::macros::path_to_bytes(m.args[0].name.as_str());
            let ghost pre = self.attributes@;
            self.attributes.push(Attribute::LinkName(bytes));
            proof {
                lemma_attrs_view_push(pre, Attribute::LinkName(bytes));
            }
            Ok(())
        } else if str_eq(name.as_str(), "test") {
            self.is_test = true;
            Ok(())
        } else if str_eq(name.as_str(), "lang") {
            if m.args.len() != 1 {
                return Err(ErrorKind::UnknownLangItem);
            }
            let kind = match lang_item_from_name(m.args[0].name.as_str()) {
                Some(k) => k,
                None => {
                    return Err(ErrorKind::UnknownLangItem);
                },
            };
            match item {
                None => Err(ErrorKind::CannotBeALangItem),
                Some(it) => {
                    if it < ctx.items.len() {
                        ctx.add_lang_item(kind, it);
                        Ok(())
                    } else {
                        Err(ErrorKind::InternalError)
                    }
                },
            }
        } else if str_eq(name.as_str(), "cfg") {
            let mut cfg_visitor = CfgVisitor::new();
            match cfg_visitor.visit_meta_item(global, m) {
                Ok(true) => Ok(()),
                Ok(false) => {
                    self.should_skip = true;
                    Ok(())
                },
                Err(e) => Err(e),
            }
        } else if str_eq(name.as_str(), "cfg_attr") {
            if m.args.len() < 2 {
                return Err(ErrorKind::InvalidAttribute);
            }
            let mut cfg_visitor = CfgVisitor::new();
            proof {
                assert(decreases_to!(*m => m.args));
                assert(decreases_to!(m.args => m.args@[0]));
            }
            let cond = match cfg_visitor.visit_meta_item(global, &m.args[0]) {
                Ok(b) => b,
                Err(e) => {
                    return Err(e);
                },
            };
            if cond {
                let ghost cfgs0 = global.cfgs@;
                let ghost ni = old(ctx).items@.len() as int;
                let n = m.args.len();
                let mut i: usize = 1;
                while i < n
                    invariant
                        n == m.args@.len(),
                        1 <= i <= n,
                        global.cfgs@ == old(global).cfgs@,
                        global.env@ == old(global).env@,
                        global.files@ == old(global).files@,
                        global.diag.errors@ == old(global).diag.errors@,
                        global.diag.file_paths@ == old(global).diag.file_paths@,
                        ctx.extends(*old(ctx)),
                        ctx.items@ == old(ctx).items@,
                        ctx.types@ == old(ctx).types@,
                        ctx.type_lists@ == old(ctx).type_lists@,
                        old(ctx).wf() ==> ctx.wf(),
                        cfgs0 == old(global).cfgs@,
                        ni == old(ctx).items@.len() as int,
                        st_in == (AttrOutcome {
                            attrs: attrs_view(old(self).attributes@),
                            skip: old(self).should_skip,
                            is_test: old(self).is_test,
                            warnings: old(global).diag.warnings@,
                            overrides: old(global).diag.overrides@,
                            lang: old(ctx).lang_items@,
                        }),
                        attr_step(cfgs0, st_in, *m, enclosing_span, item, ni) == attr_fold(
                            cfgs0,
                            st_in,
                            m.args@,
                            1,
                            enclosing_span,
                            item,
                            ni,
                        ),
                        attr_fold(cfgs0, st_in, m.args@, 1, enclosing_span, item, ni)
                            == attr_fold(
                            cfgs0,
                            AttrOutcome {
                                attrs: attrs_view(self.attributes@),
                                skip: self.should_skip,
                                is_test: self.is_test,
                                warnings: global.diag.warnings@,
                                overrides: global.diag.overrides@,
                                lang: ctx.lang_items@,
                            },
                            m.args@,
                            i as int,
                            enclosing_span,
                            item,
                            ni,
                        ),
                    decreases n - i,
                {
                    let ghost ctx_pre = *ctx;
                    proof {
                        assert(decreases_to!(*m => m.args));
                        assert(decreases_to!(m.args => m.args@[i as int]));
                    }
                    match self.visit_meta_item(global, ctx, item, &m.args[i], enclosing_span) {
                        Ok(()) => {},
                        Err(e) => {
                            return Err(e);
                        },
                    }
                    proof {
                        crate::ast::lemma_extends_trans(*old(ctx), ctx_pre, *ctx);
                    }
                    i = i + 1;
                }
            }
            Ok(())
        } else if str_eq(name.as_str(), "must_use") {
            if self.has_parsed(&Attribute::MustUse) {
                return Err(ErrorKind::DuplicateAttribute);
            }
            let ghost pre = self.attributes@;
            self.attributes.push(Attribute::MustUse);
            proof {
                lemma_attrs_view_push(pre, Attribute::MustUse);
            }
            Ok(())
        } else {
            Ok(())
        }
    }
}


} // verus!
