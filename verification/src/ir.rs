use vstd::prelude::*;
use crate::Span;
use crate::ast::{Attribute, BinOp, BuiltinType, UnOp};
use crate::diag::ErrorKind;

verus! {

/// An opaque id minted by the IR arena; distinct from AST ids.
#[derive(Clone, Copy, PartialEq, Eq, Structural, Debug, Hash, PartialOrd, Ord)]
pub struct IrId {
    pub id: usize,
}

pub type TyRef = usize;

pub type TyListRef = usize;

pub type ItemRef = usize;

/// A fully-resolved IR type.  Generics are gone; cross-references are
/// interned indices, so equality of types is equality of indices.
#[derive(Clone, Copy, PartialEq, Eq, Structural, Debug, Hash)]
pub enum Ty {
    Item(ItemRef),
    Builtin(BuiltinType),
    Pointer(TyRef, bool),
    Array(TyRef, usize),
    Tuple(TyListRef),
    FunctionPointer(TyListRef, TyRef),
}

/// Everything a type value points at exists in tables of the given sizes.
pub open spec fn ty_valid_tables(t: Ty, n_types: int, n_lists: int, n_items: int) -> bool {
    match t {
        Ty::Item(item) => (item as int) < n_items,
        Ty::Builtin(_) => true,
        Ty::Pointer(inner, _) => (inner as int) < n_types,
        Ty::Array(inner, _) => (inner as int) < n_types,
        Ty::Tuple(l) => (l as int) < n_lists,
        Ty::FunctionPointer(l, ret) => (l as int) < n_lists && (ret as int) < n_types,
    }
}

/// Every type index a type value mentions is below `i`.
pub open spec fn ty_children_before(t: Ty, lists: Seq<Seq<TyRef>>, i: int) -> bool {
    match t {
        Ty::Item(_) => true,
        Ty::Builtin(_) => true,
        Ty::Pointer(inner, _) => (inner as int) < i,
        Ty::Array(inner, _) => (inner as int) < i,
        Ty::Tuple(l) => forall|k: int|
            0 <= k < lists[l as int].len() ==> (lists[l as int][k] as int) < i,
        Ty::FunctionPointer(l, ret) => (ret as int) < i && forall|k: int|
            0 <= k < lists[l as int].len() ==> (lists[l as int][k] as int) < i,
    }
}

pub open spec fn list_elems_below(elems: Seq<TyRef>, n: int) -> bool {
    forall|k: int| 0 <= k < elems.len() ==> (elems[k] as int) < n
}

pub open spec fn tables_wf(
    types: Seq<Ty>,
    lists: Seq<Seq<TyRef>>,
    n_items: int,
) -> bool {
    &&& lists.len() >= 1
    &&& lists[0].len() == 0
    &&& forall|i: int|
        0 <= i < types.len() ==> ty_valid_tables(#[trigger] types[i], types.len() as int, lists.len() as int, n_items)
    &&& forall|i: int|
        0 <= i < types.len() ==> ty_children_before(#[trigger] types[i], lists, i)
    &&& forall|i: int, j: int| 0 <= i < j < types.len() ==> types[i] != types[j]
    &&& forall|l: int| 0 <= l < lists.len() ==> list_elems_below(#[trigger] lists[l], types.len() as int)
    &&& forall|i: int, j: int| 0 <= i < j < lists.len() ==> lists[i] != lists[j]
}

proof fn lemma_ty_valid_mono(t: Ty, n1: int, l1: int, i1: int, n2: int, l2: int, i2: int)
    requires
        ty_valid_tables(t, n1, l1, i1),
        n1 <= n2,
        l1 <= l2,
        i1 <= i2,
    ensures
        ty_valid_tables(t, n2, l2, i2),
{
}

/// An IR item cell: fresh from `make_symbol`, filled exactly once by
/// `assign`.  The cell caches whether the item it holds is a zero-sized
/// value type; the cache is computed when the item is assigned.
pub struct ItemCell {
    pub id: IrId,
    pub contents: Option<IRItem>,
    pub zst: Option<bool>,
}

/// The IR arena: mints ids, interns types and type lists, and owns the
/// item cells.
pub struct IrCtx {
    /// Registry of minted ids; the next id is the registry's length.
    pub ids: Vec<IrId>,
    pub types: Vec<Ty>,
    pub type_lists: Vec<Vec<TyRef>>,
    pub items: Vec<ItemCell>,
}

impl IrCtx {
    pub open spec fn counter(self) -> int {
        self.ids@.len() as int
    }

    pub open spec fn lists(self) -> Seq<Seq<TyRef>> {
        self.type_lists@.map_values(|v: Vec<TyRef>| v@)
    }

    pub open spec fn ty_valid(self, t: Ty) -> bool {
        ty_valid_tables(
            t,
            self.types@.len() as int,
            self.type_lists@.len() as int,
            self.items@.len() as int,
        )
    }

    pub open spec fn wf(self) -> bool {
        tables_wf(self.types@, self.lists(), self.items@.len() as int)
    }

    pub open spec fn extends(self, prev: Self) -> bool {
        &&& prev.ids@.len() <= self.ids@.len()
        &&& prev.types@.is_prefix_of(self.types@)
        &&& prev.type_lists@.len() <= self.type_lists@.len()
        &&& forall|l: int|
            0 <= l < prev.type_lists@.len() ==> self.type_lists@[l]@ == prev.type_lists@[l]@
        &&& prev.items@.len() <= self.items@.len()
        &&& forall|n: int|
            0 <= n < prev.items@.len() ==> #[trigger] self.items@[n].id == prev.items@[n].id
        &&& forall|n: int|
            0 <= n < prev.items@.len() && prev.items@[n].contents is Some
                ==> #[trigger] self.items@[n].contents == prev.items@[n].contents
                    && self.items@[n].zst == prev.items@[n].zst
    }

    pub fn new() -> (r: IrCtx)
        ensures
            r.wf(),
            r.counter() == 0,
            r.types@.len() == 0,
            r.type_lists@.len() == 1,
            r.items@.len() == 0,
    {
        let mut type_lists: Vec<Vec<TyRef>> = Vec::new();
        let empty: Vec<TyRef> = Vec::new();
        type_lists.push(empty);
        let r = IrCtx { ids: Vec::new(), types: Vec::new(), type_lists, items: Vec::new() };
        proof {
            assert(r.lists().len() == 1);
            assert(r.lists()[0].len() == 0);
        }
        r
    }

    pub fn make_id(&mut self) -> (r: IrId)
        ensures
            r.id == old(self).counter(),
            final(self).counter() == old(self).counter() + 1,
            final(self).types@ == old(self).types@,
            final(self).type_lists@ == old(self).type_lists@,
            final(self).items@ == old(self).items@,
            final(self).wf() == old(self).wf(),
    {
        let id = IrId { id: self.ids.len() };
        self.ids.push(id);
        id
    }

    /// Interns a type; structurally equal types share one index.
    pub fn intern_type(&mut self, ty: Ty) -> (r: TyRef)
        requires
            old(self).wf(),
            old(self).ty_valid(ty),
        ensures
            final(self).wf(),
            final(self).extends(*old(self)),
            final(self).ids@ == old(self).ids@,
            final(self).type_lists@ == old(self).type_lists@,
            final(self).items@ == old(self).items@,
            (r as int) < final(self).types@.len(),
            final(self).types@[r as int] == ty,
            final(self).types@.len() <= old(self).types@.len() + 1,
            (exists|j: int| 0 <= j < old(self).types@.len() && old(self).types@[j] == ty)
                ==> final(self).types@ == old(self).types@,
            (forall|j: int| 0 <= j < old(self).types@.len() ==> old(self).types@[j] != ty)
                ==> final(self).types@ == old(self).types@.push(ty) && r as int == old(
            self,
            ).types@.len(),
    {
        let n = self.types.len();
        let mut i: usize = 0;
        while i < n
            invariant
                n == self.types@.len(),
                i <= n,
                forall|j: int| 0 <= j < i ==> self.types@[j] != ty,
                *self == *old(self),
                old(self).wf(),
            decreases n - i,
        {
            if self.types[i] == ty {
                return i;
            }
            i = i + 1;
        }
        self.types.push(ty);
        proof {
            let ts = old(self).types@;
            let ts2 = self.types@;
            let ls = self.lists();
            let ni = self.items@.len() as int;
            assert(ts2 == ts.push(ty));
            assert forall|k: int|
                0 <= k < ts2.len() implies ty_valid_tables(
                #[trigger] ts2[k],
                ts2.len() as int,
                ls.len() as int,
                ni,
            ) by {
                if k < ts.len() {
                    assert(ty_valid_tables(ts[k], ts.len() as int, ls.len() as int, ni));
                    lemma_ty_valid_mono(
                        ts[k],
                        ts.len() as int,
                        ls.len() as int,
                        ni,
                        ts2.len() as int,
                        ls.len() as int,
                        ni,
                    );
                } else {
                    lemma_ty_valid_mono(
                        ty,
                        ts.len() as int,
                        ls.len() as int,
                        ni,
                        ts2.len() as int,
                        ls.len() as int,
                        ni,
                    );
                }
            }
            assert forall|k: int|
                0 <= k < ts2.len() implies ty_children_before(#[trigger] ts2[k], ls, k) by {
                if k < ts.len() {
                    assert(ty_children_before(ts[k], ls, k));
                } else {
                    assert(ts2[k] == ty);
                    match ty {
                        Ty::Tuple(l) => {
                            assert(list_elems_below(ls[l as int], ts.len() as int));
                        },
                        Ty::FunctionPointer(l, _) => {
                            assert(list_elems_below(ls[l as int], ts.len() as int));
                        },
                        _ => {},
                    }
                }
            }
            assert forall|l: int|
                0 <= l < ls.len() implies list_elems_below(#[trigger] ls[l], ts2.len() as int) by {
                assert(list_elems_below(ls[l], ts.len() as int));
            }
        }
        n
    }

    /// Interns a list of (already interned) types.
    pub fn intern_type_list(&mut self, elems: Vec<TyRef>) -> (r: TyListRef)
        requires
            old(self).wf(),
            forall|k: int| 0 <= k < elems@.len() ==> (elems@[k] as int) < old(self).types@.len(),
        ensures
            final(self).wf(),
            final(self).extends(*old(self)),
            final(self).ids@ == old(self).ids@,
            final(self).types@ == old(self).types@,
            final(self).items@ == old(self).items@,
            (r as int) < final(self).type_lists@.len(),
            final(self).type_lists@[r as int]@ == elems@,
            final(self).type_lists@.len() <= old(self).type_lists@.len() + 1,
            (exists|j: int|
                0 <= j < old(self).type_lists@.len() && old(self).type_lists@[j]@ == elems@)
                ==> final(self).type_lists@ == old(self).type_lists@,
    {
        let n = self.type_lists.len();
        let mut i: usize = 0;
        while i < n
            invariant
                n == self.type_lists@.len(),
                i <= n,
                forall|j: int| 0 <= j < i ==> self.type_lists@[j]@ != elems@,
                *self == *old(self),
                old(self).wf(),
                forall|k: int| 0 <= k < elems@.len() ==> (elems@[k] as int) < old(self).types@.len(),
            decreases n - i,
        {
            if crate::ast::ty_list_eq(&self.type_lists[i], &elems) {
                return i;
            }
            i = i + 1;
        }
        self.type_lists.push(elems);
        proof {
            let ts = self.types@;
            let ls = old(self).lists();
            let ls2 = self.lists();
            let ni = self.items@.len() as int;
            assert(ls2 =~= ls.push(elems@));
            assert forall|k: int|
                0 <= k < ts.len() implies ty_valid_tables(
                #[trigger] ts[k],
                ts.len() as int,
                ls2.len() as int,
                ni,
            ) by {
                assert(ty_valid_tables(ts[k], ts.len() as int, ls.len() as int, ni));
                lemma_ty_valid_mono(
                    ts[k],
                    ts.len() as int,
                    ls.len() as int,
                    ni,
                    ts.len() as int,
                    ls2.len() as int,
                    ni,
                );
            }
            assert forall|k: int|
                0 <= k < ts.len() implies ty_children_before(#[trigger] ts[k], ls2, k) by {
                assert(ty_children_before(ts[k], ls, k));
                assert(ty_valid_tables(ts[k], ts.len() as int, ls.len() as int, ni));
                match ts[k] {
                    Ty::Tuple(l) => {
                        assert(ls2[l as int] == ls[l as int]);
                    },
                    Ty::FunctionPointer(l, _) => {
                        assert(ls2[l as int] == ls[l as int]);
                    },
                    _ => {},
                }
            }
            assert forall|l: int|
                0 <= l < ls2.len() implies list_elems_below(#[trigger] ls2[l], ts.len() as int) by {
                if l < ls.len() {
                    assert(list_elems_below(ls[l], ts.len() as int));
                }
            }
            assert forall|a: int, b: int| 0 <= a < b < ls2.len() implies ls2[a] != ls2[b] by {
                if b < ls.len() {
                    assert(ls[a] != ls[b]);
                }
            }
        }
        n
    }

    /// Creates a fresh, empty item cell and returns its index.
    pub fn make_symbol(&mut self) -> (r: ItemRef)
        ensures
            old(self).wf() ==> final(self).wf(),
            final(self).extends(*old(self)),
            final(self).types@ == old(self).types@,
            final(self).type_lists@ == old(self).type_lists@,
            final(self).counter() == old(self).counter() + 1,
            r as int == old(self).items@.len(),
            final(self).items@.len() == old(self).items@.len() + 1,
            final(self).items@[r as int].contents is None,
            final(self).items@[r as int].zst is None,
            final(self).items@[r as int].id.id == old(self).counter(),
            forall|n: int|
                0 <= n < old(self).items@.len() ==> final(self).items@[n] == old(self).items@[n],
    {
        let id = self.make_id();
        let r = self.items.len();
        self.items.push(ItemCell { id, contents: None, zst: None });
        proof {
            if old(self).wf() {
                let ts = self.types@;
                let ls = self.lists();
                let ni0 = old(self).items@.len() as int;
                let ni = self.items@.len() as int;
                assert forall|k: int|
                    0 <= k < ts.len() implies ty_valid_tables(
                    #[trigger] ts[k],
                    ts.len() as int,
                    ls.len() as int,
                    ni,
                ) by {
                    assert(ty_valid_tables(ts[k], ts.len() as int, ls.len() as int, ni0));
                    lemma_ty_valid_mono(
                        ts[k],
                        ts.len() as int,
                        ls.len() as int,
                        ni0,
                        ts.len() as int,
                        ls.len() as int,
                        ni,
                    );
                }
            }
        }
        r
    }
}

/// The canonical `void` type: the empty tuple, which always lives at list
/// index 0.
impl Ty {
    pub fn void() -> (r: Ty)
        ensures
            r == Ty::Tuple(0usize),
    {
        Ty::Tuple(0)
    }

    /// Whether `self` is the empty tuple.  Sound because list index 0 always
    /// holds the empty list and lists are interned without duplicates.
    pub fn is_void(&self) -> (r: bool)
        ensures
            r == (*self == Ty::Tuple(0usize)),
    {
        match self {
            Ty::Tuple(l) => *l == 0,
            _ => false,
        }
    }

    pub fn is_never(&self) -> (r: bool)
        ensures
            r == (*self == Ty::Builtin(BuiltinType::Never)),
    {
        match self {
            Ty::Builtin(BuiltinType::Never) => true,
            _ => false,
        }
    }

    /// `lhs <= rhs` on the strict type hierarchy; implicit coercions are not
    /// considered.
    pub fn assignable_from(&self, other: &Ty) -> (r: bool)
        ensures
            r == assignable_from_spec(*self, *other),
    {
        if ty_eq(self, other) {
            return true;
        }
        match (self, other) {
            (Ty::Pointer(a, true), Ty::Pointer(b, _)) => *a == *b,
            (_, Ty::Builtin(BuiltinType::Never)) => true,
            _ => false,
        }
    }

    /// The most specific type that values of both given types can inhabit.
    pub fn gcd(lhs: &Ty, rhs: &Ty) -> (r: Ty)
        ensures
            r == gcd_spec(*lhs, *rhs),
    {
        if ty_eq(lhs, rhs) {
            return *lhs;
        }
        match (lhs, rhs) {
            (Ty::Pointer(a, false), Ty::Pointer(b, _)) => {
                if *a == *b {
                    Ty::Pointer(*a, false)
                } else {
                    Ty::void()
                }
            },
            (Ty::Pointer(a, _), Ty::Pointer(b, false)) => {
                if *a == *b {
                    Ty::Pointer(*a, false)
                } else {
                    Ty::void()
                }
            },
            (_, Ty::Builtin(BuiltinType::Never)) => *lhs,
            (Ty::Builtin(BuiltinType::Never), _) => *rhs,
            _ => Ty::void(),
        }
    }
}

pub open spec fn assignable_from_spec(lhs: Ty, rhs: Ty) -> bool {
    ||| lhs == rhs
    ||| match (lhs, rhs) {
        (Ty::Pointer(a, true), Ty::Pointer(b, _)) => a == b,
        _ => false,
    }
    ||| rhs == Ty::Builtin(BuiltinType::Never)
}

pub open spec fn gcd_spec(lhs: Ty, rhs: Ty) -> Ty {
    if lhs == rhs {
        lhs
    } else {
        match (lhs, rhs) {
            (Ty::Pointer(a, false), Ty::Pointer(b, _)) => if a == b {
                Ty::Pointer(a, false)
            } else {
                Ty::Tuple(0)
            },
            (Ty::Pointer(a, _), Ty::Pointer(b, false)) => if a == b {
                Ty::Pointer(a, false)
            } else {
                Ty::Tuple(0)
            },
            (_, Ty::Builtin(BuiltinType::Never)) => lhs,
            (Ty::Builtin(BuiltinType::Never), _) => rhs,
            _ => Ty::Tuple(0),
        }
    }
}

/// Structural equality of two type nodes (equal fields, interned children
/// compared by index).
pub fn ty_eq(a: &Ty, b: &Ty) -> (r: bool)
    ensures
        r == (*a == *b),
{
    *a == *b
}

impl IrCtx {
    /// Strips all pointers off a type: the canonical type of `&&T` is `T`.
    pub fn canonical_type(&self, t: TyRef) -> (r: TyRef)
        requires
            self.wf(),
            (t as int) < self.types@.len(),
        ensures
            r == canonical_type_spec(*self, t as int),
            (r as int) < self.types@.len(),
        decreases t,
    {
        match self.types[t] {
            Ty::Pointer(inner, _) => self.canonical_type(inner),
            _ => t,
        }
    }
}

pub open spec fn canonical_type_spec(ctx: IrCtx, t: int) -> TyRef
    decreases t,
    when ctx.wf() && 0 <= t < ctx.types@.len()
{
    match ctx.types@[t] {
        Ty::Pointer(inner, _) => canonical_type_spec(ctx, inner as int),
        _ => t as TyRef,
    }
}


/// A constant value.  Float values keep their source spelling: the compiler
/// never computes with them, it only prints them.
#[derive(Clone, PartialEq, Eq, Debug)]
pub enum Value {
    Bool(bool),
    U8(u8),
    U16(u16),
    U32(u32),
    U64(u64),
    U128(u128),
    I8(i8),
    I16(i16),
    I32(i32),
    I64(i64),
    I128(i128),
    USize(usize),
    ISize(isize),
    F32(String),
    F64(String),
    Str(Vec<u8>, usize),
    FunctionPointer(ItemRef),
    Uninitialized,
}

/// Compiler intrinsics as they appear in IR expressions.  The `Const*`
/// variants exist only during constant evaluation and must never reach the
/// C emitter.
#[derive(Clone, PartialEq, Eq, Debug)]
pub enum IntrinsicValueKind {
    /// A size-of-like C operator applied to a type (`sizeof`, `_Alignof`).
    SizeOfLike(String, TyRef),
    /// A bare C function name.
    FunctionLike(String),
    /// A constant C expression.
    ConstLike(String),
    /// An `asm volatile(..)` string.
    Asm(String),
    Uninitialized,
    /// A dangling pointer: an integer literal equal to the alignment of the
    /// pointee, cast to the pointer type.
    Dangling(usize),
    InConstContext,
    ConstPanic,
    ConstAlloc,
    ConstWrite,
    ConstFree,
}

#[derive(Clone, Copy, PartialEq, Eq, Structural, Debug, Hash)]
pub enum ValueType {
    LValue,
    RValue,
}

pub type ExprP = Box<Expr>;

pub struct Expr {
    pub value_type: ValueType,
    pub is_const: bool,
    pub kind: ExprKind,
    pub span: Option<Span>,
    pub ty: TyRef,
}

pub enum Statement {
    Expression(Expr),
    Label(IrId),
}

pub struct TupleInit {
    pub index: usize,
    pub value: Expr,
}

pub struct StructInit {
    pub field: IrId,
    pub value: Expr,
}

pub enum ExprKind {
    Block(Vec<Statement>, ExprP),
    Binary(BinOp, ExprP, ExprP),
    AssignOp(BinOp, ExprP, ExprP),
    Call(ExprP, Vec<Expr>),
    Fn(ItemRef),
    Ref(ExprP),
    Deref(ExprP),
    Return(ExprP),
    Goto(IrId),
    Unary(UnOp, ExprP),
    Assign(ExprP, ExprP),
    Index(ExprP, ExprP),
    Local(IrId),
    Static(ItemRef),
    Const(ItemRef),
    Literal(Value),
    Field(ExprP, IrId),
    TupleIndex(ExprP, usize),
    If(ExprP, ExprP, ExprP, Option<bool>),
    Cast(ExprP),
    Intrinsic(IntrinsicValueKind),
    Array(Vec<Expr>),
    Tuple(Vec<TupleInit>),
    Struct(Vec<StructInit>),
    Unreachable,
    Void,
}

#[derive(Clone, PartialEq, Eq, Debug)]
pub struct Field {
    pub id: IrId,
    pub ty: TyRef,
}

pub struct StructLike {
    pub name: Option<String>,
    pub attributes: Vec<Attribute>,
    pub fields: Vec<Field>,
    pub is_union: bool,
}

#[derive(Clone, Copy, PartialEq, Eq, Structural, Debug)]
pub struct Parameter {
    pub id: IrId,
    pub ty: TyRef,
}

#[derive(Clone, Copy, PartialEq, Eq, Structural, Debug)]
pub struct LocalDef {
    pub id: IrId,
    pub typ: TyRef,
}

pub struct FuncBody {
    pub local_defs: Vec<LocalDef>,
    pub statements: Vec<Statement>,
    pub raw_body: Option<Expr>,
}

pub struct Function {
    pub name: Option<String>,
    pub attributes: Vec<Attribute>,
    pub args: Vec<Parameter>,
    pub return_type: TyRef,
    pub body: Option<FuncBody>,
    pub varargs: bool,
}

pub struct Closure {
    pub data: StructLike,
    pub function: Option<ItemRef>,
}

#[derive(Clone, PartialEq, Eq, Debug)]
pub struct ProtocolFunction {
    pub name: String,
    pub arg_types: Vec<TyRef>,
    pub return_type: TyRef,
}

pub struct Protocol {
    pub name: Option<String>,
    pub methods: Vec<ProtocolFunction>,
}

/// The method set a `dyn` pointer's vtable carries.
pub struct VtableLayout {
    pub methods: Vec<ProtocolFunction>,
}

pub struct EnumMember {
    pub id: IrId,
    pub name: String,
    pub value: Expr,
}

pub struct Enum {
    pub name: Option<String>,
    pub underlying_type: TyRef,
    pub members: Vec<EnumMember>,
}

pub struct Static {
    pub name: Option<String>,
    pub typ: TyRef,
    pub init: Option<Expr>,
    pub attributes: Vec<Attribute>,
    pub is_extern: bool,
}

pub struct Const {
    pub name: Option<String>,
    pub typ: TyRef,
    pub value: Value,
    pub init: Expr,
}

pub enum IRItem {
    StructLike(StructLike),
    Alias(TyRef),
    Protocol(Protocol),
    Function(Function),
    Enum(Enum),
    Static(Static),
    Const(Const),
    Closure(Closure),
}

/// Whether a type indexed in the arena is zero-sized: `never`, empty arrays,
/// arrays and tuples of zero-sized elements, and zero-sized items (see
/// `item_zst_lookup`).  Defined for well-formed arenas.
pub open spec fn zst_spec(ctx: IrCtx, t: int) -> Result<bool, ErrorKind>
    decreases t, 1int, 0int,
    when ctx.wf() && 0 <= t < ctx.types@.len()
{
    match ctx.types@[t] {
        Ty::Builtin(b) => Ok(b == BuiltinType::Never),
        Ty::Pointer(_, _) => Ok(false),
        Ty::FunctionPointer(_, _) => Ok(false),
        Ty::Array(inner, size) => if size == 0 {
            Ok(true)
        } else {
            zst_spec(ctx, inner as int)
        },
        Ty::Tuple(l) => zst_list_spec(ctx, ctx.lists()[l as int], 0, t),
        Ty::Item(it) => item_zst_lookup(ctx, it as int),
    }
}

/// Whether every element of `elems` from position `i` on is zero-sized;
/// stops at the first element that is not, like the walk the compiler makes.
pub open spec fn zst_list_spec(ctx: IrCtx, elems: Seq<TyRef>, i: int, t: int) -> Result<
    bool,
    ErrorKind,
>
    decreases t, 0int, elems.len() - i,
    when ctx.wf() && 0 <= t < ctx.types@.len() && list_elems_below(elems, t) && 0 <= i
{
    if i >= elems.len() {
        Ok(true)
    } else {
        match zst_spec(ctx, elems[i] as int) {
            Err(e) => Err(e),
            Ok(false) => Ok(false),
            Ok(true) => zst_list_spec(ctx, elems, i + 1, t),
        }
    }
}

/// The cached zero-sizedness of an item: functions and assigned value items
/// carry a flag; reading an unassigned cell is `UnpopulatedSymbol`, and
/// protocols, statics and consts have no size at all.
pub open spec fn item_zst_lookup(ctx: IrCtx, it: int) -> Result<bool, ErrorKind> {
    if !(0 <= it < ctx.items@.len()) {
        Err(ErrorKind::InternalError)
    } else {
        match ctx.items@[it].contents {
            None => Err(ErrorKind::UnpopulatedSymbol),
            Some(IRItem::Protocol(_)) => Err(ErrorKind::InternalError),
            Some(IRItem::Static(_)) => Err(ErrorKind::InternalError),
            Some(IRItem::Const(_)) => Err(ErrorKind::InternalError),
            Some(_) => match ctx.items@[it].zst {
                Some(b) => Ok(b),
                None => Err(ErrorKind::InternalError),
            },
        }
    }
}

impl IrCtx {
    /// A type is zero-sized iff it is `never`, or a tuple/array/struct of
    /// zero-sized elements, or a function item, or an enum whose underlying
    /// type is zero-sized.
    pub fn is_zero_sized(&self, t: TyRef) -> (r: Result<bool, ErrorKind>)
        requires
            self.wf(),
            (t as int) < self.types@.len(),
        ensures
            r == zst_spec(*self, t as int),
        decreases t,
    {
        let ghost ctx = *self;
        match self.types[t] {
            Ty::Builtin(b) => Ok(b == BuiltinType::Never),
            Ty::Pointer(_, _) => Ok(false),
            Ty::FunctionPointer(_, _) => Ok(false),
            Ty::Array(inner, size) => {
                if size == 0 {
                    Ok(true)
                } else {
                    proof {
                        assert(ty_children_before(ctx.types@[t as int], ctx.lists(), t as int));
                    }
                    self.is_zero_sized(inner)
                }
            },
            Ty::Tuple(l) => {
                proof {
                    assert(ty_children_before(ctx.types@[t as int], ctx.lists(), t as int));
                    assert(list_elems_below(ctx.lists()[l as int], t as int));
                }
                let n = self.type_lists[l].len();
                let ghost elems = ctx.lists()[l as int];
                let mut i: usize = 0;
                while i < n
                    invariant
                        ctx == *self,
                        ctx.wf(),
                        0 <= (t as int) < ctx.types@.len(),
                        ctx.types@[t as int] == Ty::Tuple(l),
                        (l as int) < ctx.type_lists@.len(),
                        elems == ctx.lists()[l as int],
                        n == elems.len(),
                        list_elems_below(elems, t as int),
                        i <= n,
                        zst_list_spec(ctx, elems, 0, t as int) == zst_list_spec(
                            ctx,
                            elems,
                            i as int,
                            t as int,
                        ),
                    decreases n - i,
                {
                    let e = self.type_lists[l][i];
                    match self.is_zero_sized(e) {
                        Err(err) => {
                            return Err(err);
                        },
                        Ok(false) => {
                            return Ok(false);
                        },
                        Ok(true) => {},
                    }
                    i = i + 1;
                }
                Ok(true)
            },
            Ty::Item(it) => {
                if it >= self.items.len() {
                    return Err(ErrorKind::InternalError);
                }
                match &self.items[it].contents {
                    None => Err(ErrorKind::UnpopulatedSymbol),
                    Some(IRItem::Protocol(_)) => Err(ErrorKind::InternalError),
                    Some(IRItem::Static(_)) => Err(ErrorKind::InternalError),
                    Some(IRItem::Const(_)) => Err(ErrorKind::InternalError),
                    Some(_) => match self.items[it].zst {
                        Some(b) => Ok(b),
                        None => Err(ErrorKind::InternalError),
                    },
                }
            },
        }
    }
}


/// All type references inside an item value point into the type table.
pub open spec fn item_tys_valid(ctx: IrCtx, value: IRItem) -> bool {
    match value {
        IRItem::StructLike(st) => forall|k: int|
            0 <= k < st.fields@.len() ==> ((#[trigger] st.fields@[k]).ty as int) < ctx.types@.len(),
        IRItem::Alias(t) => (t as int) < ctx.types@.len(),
        IRItem::Enum(e) => (e.underlying_type as int) < ctx.types@.len(),
        IRItem::Closure(c) => forall|k: int|
            0 <= k < c.data.fields@.len() ==> ((#[trigger] c.data.fields@[k]).ty as int)
                < ctx.types@.len(),
        _ => true,
    }
}

/// Whether every field from position `i` on has a zero-sized type; stops at
/// the first that has not.
pub open spec fn fields_zst_spec(ctx: IrCtx, fields: Seq<Field>, i: int) -> Result<bool, ErrorKind>
    decreases fields.len() - i,
    when ctx.wf() && 0 <= i && forall|k: int|
        0 <= k < fields.len() ==> ((#[trigger] fields[k]).ty as int) < ctx.types@.len()
{
    if i >= fields.len() {
        Ok(true)
    } else {
        match zst_spec(ctx, fields[i].ty as int) {
            Err(e) => Err(e),
            Ok(false) => Ok(false),
            Ok(true) => fields_zst_spec(ctx, fields, i + 1),
        }
    }
}

/// The zero-sized flag an item gets when it is assigned: `Some` for value
/// items, `None` for protocols, statics and consts, an error when a referred
/// item is not populated yet.
pub open spec fn item_zst_spec(ctx: IrCtx, value: IRItem) -> Result<Option<bool>, ErrorKind> {
    match value {
        IRItem::StructLike(st) => match fields_zst_spec(ctx, st.fields@, 0) {
            Ok(b) => Ok(Some(b)),
            Err(e) => Err(e),
        },
        IRItem::Function(_) => Ok(Some(true)),
        IRItem::Enum(e) => match zst_spec(ctx, e.underlying_type as int) {
            Ok(b) => Ok(Some(b)),
            Err(err) => Err(err),
        },
        IRItem::Alias(t) => match zst_spec(ctx, t as int) {
            Ok(b) => Ok(Some(b)),
            Err(e) => Err(e),
        },
        IRItem::Closure(c) => match fields_zst_spec(ctx, c.data.fields@, 0) {
            Ok(b) => Ok(Some(b)),
            Err(e) => Err(e),
        },
        IRItem::Protocol(_) => Ok(None),
        IRItem::Static(_) => Ok(None),
        IRItem::Const(_) => Ok(None),
    }
}

impl IrCtx {
    /// Whether all the given fields have zero-sized types.
    fn fields_all_zst(&self, fields: &Vec<Field>) -> (r: Result<bool, ErrorKind>)
        requires
            self.wf(),
            forall|k: int|
                0 <= k < fields@.len() ==> ((#[trigger] fields@[k]).ty as int)
                    < self.types@.len(),
        ensures
            r == fields_zst_spec(*self, fields@, 0),
    {
        let ghost ctx = *self;
        let n = fields.len();
        let mut i: usize = 0;
        while i < n
            invariant
                ctx == *self,
                ctx.wf(),
                n == fields@.len(),
                i <= n,
                forall|k: int|
                    0 <= k < fields@.len() ==> ((#[trigger] fields@[k]).ty as int)
                        < ctx.types@.len(),
                fields_zst_spec(ctx, fields@, 0) == fields_zst_spec(ctx, fields@, i as int),
            decreases n - i,
        {
            match self.is_zero_sized(fields[i].ty) {
                Err(e) => {
                    return Err(e);
                },
                Ok(false) => {
                    return Ok(false);
                },
                Ok(true) => {},
            }
            i = i + 1;
        }
        Ok(true)
    }

    /// The zero-sized flag for an item value about to be assigned.
    fn compute_zst(&self, value: &IRItem) -> (r: Result<Option<bool>, ErrorKind>)
        requires
            self.wf(),
            item_tys_valid(*self, *value),
        ensures
            r == item_zst_spec(*self, *value),
    {
        match value {
            IRItem::StructLike(st) => match self.fields_all_zst(&st.fields) {
                Ok(b) => Ok(Some(b)),
                Err(e) => Err(e),
            },
            IRItem::Function(_) => Ok(Some(true)),
            IRItem::Enum(e) => match self.is_zero_sized(e.underlying_type) {
                Ok(b) => Ok(Some(b)),
                Err(err) => Err(err),
            },
            IRItem::Alias(t) => match self.is_zero_sized(*t) {
                Ok(b) => Ok(Some(b)),
                Err(e) => Err(e),
            },
            IRItem::Closure(c) => match self.fields_all_zst(&c.data.fields) {
                Ok(b) => Ok(Some(b)),
                Err(e) => Err(e),
            },
            IRItem::Protocol(_) => Ok(None),
            IRItem::Static(_) => Ok(None),
            IRItem::Const(_) => Ok(None),
        }
    }

    /// Fills an item cell and caches the item's zero-sizedness.  At most one
    /// assignment ever succeeds per cell.
    pub fn assign(&mut self, item: ItemRef, value: IRItem) -> (r: Result<(), ErrorKind>)
        requires
            old(self).wf(),
            item_tys_valid(*old(self), value),
        ensures
            final(self).ids@ == old(self).ids@,
            final(self).types@ == old(self).types@,
            final(self).type_lists@ == old(self).type_lists@,
            final(self).items@.len() == old(self).items@.len(),
            final(self).wf(),
            final(self).extends(*old(self)),
            match r {
                Ok(()) => {
                    &&& (item as int) < old(self).items@.len()
                    &&& old(self).items@[item as int].contents is None
                    &&& exists|flag: Option<bool>|
                        item_zst_spec(*old(self), value) == Ok::<_, ErrorKind>(flag)
                            && final(self).items@ == old(self).items@.update(
                            item as int,
                            ItemCell {
                                id: old(self).items@[item as int].id,
                                contents: Some(value),
                                zst: flag,
                            },
                        )
                },
                Err(k) => {
                    &&& final(self).items@ == old(self).items@
                    &&& {
                        ||| ((item as int) >= old(self).items@.len() || old(
                            self,
                        ).items@[item as int].contents is Some) && k == ErrorKind::InternalError
                        ||| item_zst_spec(*old(self), value) == Err::<Option<bool>, _>(k)
                    }
                },
            },
    {
        if item >= self.items.len() {
            return Err(ErrorKind::InternalError);
        }
        if self.items[item].contents.is_some() {
            return Err(ErrorKind::InternalError);
        }
        let flag = match self.compute_zst(&value) {
            Ok(f) => f,
            Err(e) => {
                return Err(e);
            },
        };
        self.items[item].contents = Some(value);
        self.items[item].zst = flag;
        proof {
            assert(self.items@ =~= old(self).items@.update(
                item as int,
                ItemCell {
                    id: old(self).items@[item as int].id,
                    contents: self.items@[item as int].contents,
                    zst: flag,
                },
            ));
        }
        Ok(())
    }

    /// Reads an item cell; reading before assignment is `UnpopulatedSymbol`.
    pub fn get(&self, item: ItemRef) -> (r: Result<&IRItem, ErrorKind>)
        ensures
            match r {
                Ok(it) => (item as int) < self.items@.len() && self.items@[item as int].contents
                    == Some(*it),
                Err(k) => {
                    &&& ((item as int) >= self.items@.len() && k == ErrorKind::InternalError) || (
                    (item as int) < self.items@.len() && self.items@[item as int].contents is None
                        && k == ErrorKind::UnpopulatedSymbol)
                },
            },
    {
        if item >= self.items.len() {
            return Err(ErrorKind::InternalError);
        }
        match &self.items[item].contents {
            Some(it) => Ok(it),
            None => Err(ErrorKind::UnpopulatedSymbol),
        }
    }

    /// The aliased type, if the item is an alias.
    pub fn get_alias(&self, item: ItemRef) -> (r: Option<TyRef>)
        ensures
            match r {
                Some(t) => (item as int) < self.items@.len() && self.items@[item as int].contents
                    == Some(IRItem::Alias(t)),
                None => (item as int) >= self.items@.len() || !(self.items@[item as int].contents
                    matches Some(IRItem::Alias(_))),
            },
    {
        if item >= self.items.len() {
            return None;
        }
        match &self.items[item].contents {
            Some(IRItem::Alias(t)) => Some(*t),
            _ => None,
        }
    }

    /// The function an item cell holds; anything else is an internal error.
    pub fn get_function(&self, item: ItemRef) -> (r: Result<&Function, ErrorKind>)
        ensures
            match r {
                Ok(f) => (item as int) < self.items@.len() && self.items@[item as int].contents
                    == Some(IRItem::Function(*f)),
                Err(k) => {
                    &&& ((item as int) < self.items@.len() && self.items@[item as int].contents
                        is None) <==> k == ErrorKind::UnpopulatedSymbol
                    &&& (k == ErrorKind::UnpopulatedSymbol || k == ErrorKind::InternalError)
                },
            },
    {
        if item >= self.items.len() {
            return Err(ErrorKind::InternalError);
        }
        match &self.items[item].contents {
            Some(IRItem::Function(f)) => Ok(f),
            Some(_) => Err(ErrorKind::InternalError),
            None => Err(ErrorKind::UnpopulatedSymbol),
        }
    }

    pub fn get_closure(&self, item: ItemRef) -> (r: Result<&Closure, ErrorKind>)
        ensures
            match r {
                Ok(c) => (item as int) < self.items@.len() && self.items@[item as int].contents
                    == Some(IRItem::Closure(*c)),
                Err(k) => {
                    &&& ((item as int) < self.items@.len() && self.items@[item as int].contents
                        is None) <==> k == ErrorKind::UnpopulatedSymbol
                    &&& (k == ErrorKind::UnpopulatedSymbol || k == ErrorKind::InternalError)
                },
            },
    {
        if item >= self.items.len() {
            return Err(ErrorKind::InternalError);
        }
        match &self.items[item].contents {
            Some(IRItem::Closure(c)) => Ok(c),
            Some(_) => Err(ErrorKind::InternalError),
            None => Err(ErrorKind::UnpopulatedSymbol),
        }
    }

    pub fn get_protocol(&self, item: ItemRef) -> (r: Result<&Protocol, ErrorKind>)
        ensures
            match r {
                Ok(p) => (item as int) < self.items@.len() && self.items@[item as int].contents
                    == Some(IRItem::Protocol(*p)),
                Err(k) => {
                    &&& ((item as int) < self.items@.len() && self.items@[item as int].contents
                        is None) <==> k == ErrorKind::UnpopulatedSymbol
                    &&& (k == ErrorKind::UnpopulatedSymbol || k == ErrorKind::InternalError)
                },
            },
    {
        if item >= self.items.len() {
            return Err(ErrorKind::InternalError);
        }
        match &self.items[item].contents {
            Some(IRItem::Protocol(p)) => Ok(p),
            Some(_) => Err(ErrorKind::InternalError),
            None => Err(ErrorKind::UnpopulatedSymbol),
        }
    }

    pub fn get_struct_like(&self, item: ItemRef) -> (r: Result<&StructLike, ErrorKind>)
        ensures
            match r {
                Ok(st) => (item as int) < self.items@.len() && self.items@[item as int].contents
                    == Some(IRItem::StructLike(*st)),
                Err(k) => {
                    &&& ((item as int) < self.items@.len() && self.items@[item as int].contents
                        is None) <==> k == ErrorKind::UnpopulatedSymbol
                    &&& (k == ErrorKind::UnpopulatedSymbol || k == ErrorKind::InternalError)
                },
            },
    {
        if item >= self.items.len() {
            return Err(ErrorKind::InternalError);
        }
        match &self.items[item].contents {
            Some(IRItem::StructLike(st)) => Ok(st),
            Some(_) => Err(ErrorKind::InternalError),
            None => Err(ErrorKind::UnpopulatedSymbol),
        }
    }

    pub fn get_enum(&self, item: ItemRef) -> (r: Result<&Enum, ErrorKind>)
        ensures
            match r {
                Ok(e) => (item as int) < self.items@.len() && self.items@[item as int].contents
                    == Some(IRItem::Enum(*e)),
                Err(k) => {
                    &&& ((item as int) < self.items@.len() && self.items@[item as int].contents
                        is None) <==> k == ErrorKind::UnpopulatedSymbol
                    &&& (k == ErrorKind::UnpopulatedSymbol || k == ErrorKind::InternalError)
                },
            },
    {
        if item >= self.items.len() {
            return Err(ErrorKind::InternalError);
        }
        match &self.items[item].contents {
            Some(IRItem::Enum(e)) => Ok(e),
            Some(_) => Err(ErrorKind::InternalError),
            None => Err(ErrorKind::UnpopulatedSymbol),
        }
    }

    pub fn get_static(&self, item: ItemRef) -> (r: Result<&Static, ErrorKind>)
        ensures
            match r {
                Ok(st) => (item as int) < self.items@.len() && self.items@[item as int].contents
                    == Some(IRItem::Static(*st)),
                Err(k) => {
                    &&& ((item as int) < self.items@.len() && self.items@[item as int].contents
                        is None) <==> k == ErrorKind::UnpopulatedSymbol
                    &&& (k == ErrorKind::UnpopulatedSymbol || k == ErrorKind::InternalError)
                },
            },
    {
        if item >= self.items.len() {
            return Err(ErrorKind::InternalError);
        }
        match &self.items[item].contents {
            Some(IRItem::Static(st)) => Ok(st),
            Some(_) => Err(ErrorKind::InternalError),
            None => Err(ErrorKind::UnpopulatedSymbol),
        }
    }

    pub fn get_const(&self, item: ItemRef) -> (r: Result<&Const, ErrorKind>)
        ensures
            match r {
                Ok(c) => (item as int) < self.items@.len() && self.items@[item as int].contents
                    == Some(IRItem::Const(*c)),
                Err(k) => {
                    &&& ((item as int) < self.items@.len() && self.items@[item as int].contents
                        is None) <==> k == ErrorKind::UnpopulatedSymbol
                    &&& (k == ErrorKind::UnpopulatedSymbol || k == ErrorKind::InternalError)
                },
            },
    {
        if item >= self.items.len() {
            return Err(ErrorKind::InternalError);
        }
        match &self.items[item].contents {
            Some(IRItem::Const(c)) => Ok(c),
            Some(_) => Err(ErrorKind::InternalError),
            None => Err(ErrorKind::UnpopulatedSymbol),
        }
    }

    pub fn is_struct_like(&self, item: ItemRef) -> (r: bool)
        ensures
            r == ((item as int) < self.items@.len() && self.items@[item as int].contents matches
                Some(IRItem::StructLike(_))),
    {
        if item >= self.items.len() {
            return false;
        }
        match &self.items[item].contents {
            Some(IRItem::StructLike(_)) => true,
            _ => false,
        }
    }

    /// Second step of the two-step function construction: writes the body of
    /// an already assigned function item, exactly once.
    pub fn set_function_body(&mut self, item: ItemRef, body: FuncBody) -> (r: Result<
        (),
        ErrorKind,
    >)
        ensures
            final(self).ids@ == old(self).ids@,
            final(self).types@ == old(self).types@,
            final(self).type_lists@ == old(self).type_lists@,
            final(self).wf() == old(self).wf(),
            final(self).items@.len() == old(self).items@.len(),
            match r {
                Ok(()) => {
                    &&& (item as int) < old(self).items@.len()
                    &&& match old(self).items@[item as int].contents {
                        Some(IRItem::Function(f)) => f.body is None && final(self).items@ == old(
                            self,
                        ).items@.update(
                            item as int,
                            ItemCell {
                                id: old(self).items@[item as int].id,
                                contents: Some(
                                    IRItem::Function(
                                        Function {
                                            name: f.name,
                                            attributes: f.attributes,
                                            args: f.args,
                                            return_type: f.return_type,
                                            body: Some(body),
                                            varargs: f.varargs,
                                        },
                                    ),
                                ),
                                zst: old(self).items@[item as int].zst,
                            },
                        ),
                        _ => false,
                    }
                },
                Err(k) => k == ErrorKind::InternalError && final(self).items@ == old(self).items@
                    && !((item as int) < old(self).items@.len() && (match old(
                    self,
                ).items@[item as int].contents {
                    Some(IRItem::Function(f)) => f.body is None,
                    _ => false,
                })),
            },
    {
        if item >= self.items.len() {
            return Err(ErrorKind::InternalError);
        }
        let mut taken: Option<IRItem> = None;
        core::mem::swap(&mut self.items[item].contents, &mut taken);
        match taken {
            Some(IRItem::Function(f)) => {
                if f.body.is_some() {
                    self.items[item].contents = Some(IRItem::Function(f));
                    proof {
                        assert(self.items@ =~= old(self).items@);
                    }
                    return Err(ErrorKind::InternalError);
                }
                self.items[item].contents = Some(
                    IRItem::Function(
                        Function {
                            name: f.name,
                            attributes: f.attributes,
                            args: f.args,
                            return_type: f.return_type,
                            body: Some(body),
                            varargs: f.varargs,
                        },
                    ),
                );
                proof {
                    assert(self.items@ =~= old(self).items@.update(
                        item as int,
                        ItemCell {
                            id: old(self).items@[item as int].id,
                            contents: self.items@[item as int].contents,
                            zst: old(self).items@[item as int].zst,
                        },
                    ));
                }
                Ok(())
            },
            other => {
                self.items[item].contents = other;
                proof {
                    assert(self.items@ =~= old(self).items@);
                }
                Err(ErrorKind::InternalError)
            },
        }
    }
}


/// Intern uniqueness: once interned, structurally equal types have the same
/// address, i.e. two table entries that are equal are one entry.
pub proof fn lemma_intern_uniqueness(ctx: IrCtx, i: int, j: int)
    requires
        ctx.wf(),
        0 <= i < ctx.types@.len(),
        0 <= j < ctx.types@.len(),
        ctx.types@[i] == ctx.types@[j],
    ensures
        i == j,
{
    if i < j {
        assert(ctx.types@[i] != ctx.types@[j]);
    }
    if j < i {
        assert(ctx.types@[j] != ctx.types@[i]);
    }
}

/// Write-once: an IR item cell that is populated keeps its contents.
pub proof fn lemma_write_once(prev: IrCtx, next: IrCtx, item: int)
    requires
        next.extends(prev),
        0 <= item < prev.items@.len(),
        prev.items@[item].contents is Some,
    ensures
        next.items@[item].contents == prev.items@[item].contents,
{
}

impl Expr {
    /// A place expression of the given kind and type.
    pub fn lvalue(kind: ExprKind, typ: TyRef, span: Option<Span>) -> (r: Expr)
        ensures
            r.kind == kind,
            r.value_type == ValueType::LValue,
            r.is_const == false,
            r.ty == typ,
            r.span == span,
    {
        Expr { kind, value_type: ValueType::LValue, is_const: false, ty: typ, span }
    }

    /// A value expression of the given kind and type.
    pub fn rvalue(kind: ExprKind, typ: TyRef, span: Option<Span>) -> (r: Expr)
        ensures
            r.kind == kind,
            r.value_type == ValueType::RValue,
            r.is_const == false,
            r.ty == typ,
            r.span == span,
    {
        Expr { kind, value_type: ValueType::RValue, is_const: false, ty: typ, span }
    }

    /// A place expression that may stand in a constant initializer.
    pub fn const_lvalue(kind: ExprKind, typ: TyRef, span: Option<Span>) -> (r: Expr)
        ensures
            r.kind == kind,
            r.value_type == ValueType::LValue,
            r.is_const == true,
            r.ty == typ,
            r.span == span,
    {
        Expr { kind, value_type: ValueType::LValue, is_const: true, ty: typ, span }
    }

    /// Whether evaluating this expression never returns: its type is the
    /// uninhabited `never` type.
    pub fn diverges(&self, ctx: &IrCtx) -> (r: bool)
        ensures
            r == ((self.ty as int) < ctx.types@.len() && ctx.types@[self.ty as int]
                == Ty::Builtin(BuiltinType::Never)),
    {
        if self.ty >= ctx.types.len() {
            return false;
        }
        match ctx.types[self.ty] {
            Ty::Builtin(BuiltinType::Never) => true,
            _ => false,
        }
    }

    pub fn is_void(&self) -> (r: bool)
        ensures
            r == (self.kind is Void),
    {
        match self.kind {
            ExprKind::Void => true,
            _ => false,
        }
    }

    pub fn is_unreachable(&self) -> (r: bool)
        ensures
            r == (self.kind is Unreachable),
    {
        match self.kind {
            ExprKind::Unreachable => true,
            _ => false,
        }
    }
}

/// Whether evaluating an expression can have no side effect.
pub open spec fn expr_pure(e: Expr) -> bool
    decreases e,
{
    match e.kind {
        ExprKind::Block(stmts, ret) => stmts_pure_n(stmts@, stmts@.len() as int) && expr_pure(
            *ret,
        ),
        ExprKind::Binary(_, a, b) => expr_pure(*a) && expr_pure(*b),
        ExprKind::Ref(inner) => expr_pure(*inner),
        ExprKind::Deref(inner) => expr_pure(*inner),
        ExprKind::Unary(_, inner) => expr_pure(*inner),
        ExprKind::Index(a, b) => expr_pure(*a) && expr_pure(*b),
        ExprKind::If(a, b, c, _) => expr_pure(*a) && expr_pure(*b) && expr_pure(*c),
        ExprKind::Cast(inner) => expr_pure(*inner),
        ExprKind::Field(inner, _) => expr_pure(*inner),
        ExprKind::TupleIndex(inner, _) => expr_pure(*inner),
        ExprKind::Array(elems) => exprs_pure_n(elems@, elems@.len() as int),
        ExprKind::Tuple(inits) => tuple_inits_pure_n(inits@, inits@.len() as int),
        ExprKind::Struct(inits) => struct_inits_pure_n(inits@, inits@.len() as int),
        ExprKind::Fn(_) => true,
        ExprKind::Local(_) => true,
        ExprKind::Static(_) => true,
        ExprKind::Const(_) => true,
        ExprKind::Literal(_) => true,
        ExprKind::Void => true,
        ExprKind::Intrinsic(kind) => intrinsic_pure(kind),
        ExprKind::Unreachable => false,
        ExprKind::Call(_, _) => false,
        ExprKind::Assign(_, _) => false,
        ExprKind::AssignOp(_, _, _) => false,
        ExprKind::Return(_) => false,
        ExprKind::Goto(_) => false,
    }
}

pub open spec fn intrinsic_pure(kind: IntrinsicValueKind) -> bool {
    match kind {
        IntrinsicValueKind::SizeOfLike(_, _) => true,
        IntrinsicValueKind::Dangling(_) => true,
        IntrinsicValueKind::Asm(_) => false,
        IntrinsicValueKind::FunctionLike(_) => false,
        IntrinsicValueKind::ConstLike(_) => false,
        IntrinsicValueKind::Uninitialized => true,
        IntrinsicValueKind::InConstContext => true,
        IntrinsicValueKind::ConstPanic => false,
        IntrinsicValueKind::ConstWrite => false,
        IntrinsicValueKind::ConstAlloc => false,
        IntrinsicValueKind::ConstFree => false,
    }
}

pub open spec fn stmt_pure(s: Statement) -> bool
    decreases s,
{
    match s {
        Statement::Expression(e) => expr_pure(e),
        Statement::Label(_) => false,
    }
}

pub open spec fn stmts_pure_n(s: Seq<Statement>, n: int) -> bool
    decreases s, n,
{
    if n <= 0 || n > s.len() {
        true
    } else {
        stmts_pure_n(s, n - 1) && stmt_pure(s[n - 1])
    }
}

pub open spec fn exprs_pure_n(s: Seq<Expr>, n: int) -> bool
    decreases s, n,
{
    if n <= 0 || n > s.len() {
        true
    } else {
        exprs_pure_n(s, n - 1) && expr_pure(s[n - 1])
    }
}

pub open spec fn tuple_inits_pure_n(s: Seq<TupleInit>, n: int) -> bool
    decreases s, n,
{
    if n <= 0 || n > s.len() {
        true
    } else {
        tuple_inits_pure_n(s, n - 1) && expr_pure(s[n - 1].value)
    }
}

pub open spec fn struct_inits_pure_n(s: Seq<StructInit>, n: int) -> bool
    decreases s, n,
{
    if n <= 0 || n > s.len() {
        true
    } else {
        struct_inits_pure_n(s, n - 1) && expr_pure(s[n - 1].value)
    }
}


/// If some statement among the first `n` is impure, so is the prefix.
pub proof fn lemma_stmts_impure(s: Seq<Statement>, i: int, n: int)
    requires
        0 <= i < n <= s.len(),
        !stmt_pure(s[i]),
    ensures
        !stmts_pure_n(s, n),
    decreases n,
{
    if n - 1 > i {
        lemma_stmts_impure(s, i, n - 1);
    }
}

pub proof fn lemma_exprs_impure(s: Seq<Expr>, i: int, n: int)
    requires
        0 <= i < n <= s.len(),
        !expr_pure(s[i]),
    ensures
        !exprs_pure_n(s, n),
    decreases n,
{
    if n - 1 > i {
        lemma_exprs_impure(s, i, n - 1);
    }
}

pub proof fn lemma_tuple_inits_impure(s: Seq<TupleInit>, i: int, n: int)
    requires
        0 <= i < n <= s.len(),
        !expr_pure(s[i].value),
    ensures
        !tuple_inits_pure_n(s, n),
    decreases n,
{
    if n - 1 > i {
        lemma_tuple_inits_impure(s, i, n - 1);
    }
}

pub proof fn lemma_struct_inits_impure(s: Seq<StructInit>, i: int, n: int)
    requires
        0 <= i < n <= s.len(),
        !expr_pure(s[i].value),
    ensures
        !struct_inits_pure_n(s, n),
    decreases n,
{
    if n - 1 > i {
        lemma_struct_inits_impure(s, i, n - 1);
    }
}

impl Statement {
    /// Whether executing the statement can have no side effect; labels are
    /// never pure because a goto may target them.
    pub fn pure(&self) -> (r: bool)
        ensures
            r == stmt_pure(*self),
        decreases *self,
    {
        match self {
            Statement::Expression(e) => e.pure(),
            Statement::Label(_) => false,
        }
    }
}

impl Expr {
    /// Whether evaluating the expression can have no side effect.
    pub fn pure(&self) -> (r: bool)
        ensures
            r == expr_pure(*self),
        decreases *self,
    {
        match &self.kind {
            ExprKind::Block(stmts, ret) => {
                let n = stmts.len();
                let mut i: usize = 0;
                while i < n
                    invariant
                        n == stmts@.len(),
                        i <= n,
                        stmts_pure_n(stmts@, i as int),
                        self.kind matches ExprKind::Block(s2, _) && s2 == *stmts,
                    decreases n - i,
                {
                    proof {
                        assert(decreases_to!(*self => self.kind));
                        assert(decreases_to!(self.kind => stmts@[i as int]));
                    }
                    if !stmts[i].pure() {
                        proof {
                            lemma_stmts_impure(stmts@, i as int, n as int);
                        }
                        return false;
                    }
                    i = i + 1;
                }
                ret.pure()
            },
            ExprKind::Binary(_, a, b) => a.pure() && b.pure(),
            ExprKind::Ref(inner) => inner.pure(),
            ExprKind::Deref(inner) => inner.pure(),
            ExprKind::Unary(_, inner) => inner.pure(),
            ExprKind::Index(a, b) => a.pure() && b.pure(),
            ExprKind::If(a, b, c, _) => a.pure() && b.pure() && c.pure(),
            ExprKind::Cast(inner) => inner.pure(),
            ExprKind::Field(inner, _) => inner.pure(),
            ExprKind::TupleIndex(inner, _) => inner.pure(),
            ExprKind::Array(elems) => {
                let n = elems.len();
                let mut i: usize = 0;
                while i < n
                    invariant
                        n == elems@.len(),
                        i <= n,
                        exprs_pure_n(elems@, i as int),
                        self.kind matches ExprKind::Array(s2) && s2 == *elems,
                    decreases n - i,
                {
                    proof {
                        assert(decreases_to!(*self => self.kind));
                        assert(decreases_to!(self.kind => elems@[i as int]));
                    }
                    if !elems[i].pure() {
                        proof {
                            lemma_exprs_impure(elems@, i as int, n as int);
                        }
                        return false;
                    }
                    i = i + 1;
                }
                true
            },
            ExprKind::Tuple(inits) => {
                let n = inits.len();
                let mut i: usize = 0;
                while i < n
                    invariant
                        n == inits@.len(),
                        i <= n,
                        tuple_inits_pure_n(inits@, i as int),
                        self.kind matches ExprKind::Tuple(s2) && s2 == *inits,
                    decreases n - i,
                {
                    proof {
                        assert(decreases_to!(*self => self.kind));
                        assert(decreases_to!(self.kind => inits@[i as int]));
                        assert(decreases_to!(inits@[i as int] => inits@[i as int].value));
                    }
                    if !inits[i].value.pure() {
                        proof {
                            lemma_tuple_inits_impure(inits@, i as int, n as int);
                        }
                        return false;
                    }
                    i = i + 1;
                }
                true
            },
            ExprKind::Struct(inits) => {
                let n = inits.len();
                let mut i: usize = 0;
                while i < n
                    invariant
                        n == inits@.len(),
                        i <= n,
                        struct_inits_pure_n(inits@, i as int),
                        self.kind matches ExprKind::Struct(s2) && s2 == *inits,
                    decreases n - i,
                {
                    proof {
                        assert(decreases_to!(*self => self.kind));
                        assert(decreases_to!(self.kind => inits@[i as int]));
                        assert(decreases_to!(inits@[i as int] => inits@[i as int].value));
                    }
                    if !inits[i].value.pure() {
                        proof {
                            lemma_struct_inits_impure(inits@, i as int, n as int);
                        }
                        return false;
                    }
                    i = i + 1;
                }
                true
            },
            ExprKind::Fn(_) => true,
            ExprKind::Local(_) => true,
            ExprKind::Static(_) => true,
            ExprKind::Const(_) => true,
            ExprKind::Literal(_) => true,
            ExprKind::Void => true,
            ExprKind::Intrinsic(kind) => match kind {
                IntrinsicValueKind::SizeOfLike(_, _) => true,
                IntrinsicValueKind::Dangling(_) => true,
                IntrinsicValueKind::Asm(_) => false,
                IntrinsicValueKind::FunctionLike(_) => false,
                IntrinsicValueKind::ConstLike(_) => false,
                IntrinsicValueKind::Uninitialized => true,
                IntrinsicValueKind::InConstContext => true,
                IntrinsicValueKind::ConstPanic => false,
                IntrinsicValueKind::ConstWrite => false,
                IntrinsicValueKind::ConstAlloc => false,
                IntrinsicValueKind::ConstFree => false,
            },
            ExprKind::Unreachable => false,
            ExprKind::Call(_, _) => false,
            ExprKind::Assign(_, _) => false,
            ExprKind::AssignOp(_, _, _) => false,
            ExprKind::Return(_) => false,
            ExprKind::Goto(_) => false,
        }
    }
}

} // verus!
