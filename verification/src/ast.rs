use vstd::prelude::*;
use crate::Span;
use crate::diag::ErrorKind;

verus! {

/// An opaque id minted by the AST arena.  Ids are unique for the lifetime of
/// a compilation: the arena keeps a registry of every id it has handed out.
#[derive(Clone, Copy, PartialEq, Eq, Structural, Debug, Hash)]
pub struct AstId {
    pub id: usize,
}

#[derive(Clone, Copy, PartialEq, Eq, Structural, Debug, Hash)]
pub enum BuiltinType {
    Void,
    Never,
    Bool,
    U8,
    U16,
    U32,
    U64,
    U128,
    USize,
    ISize,
    I8,
    I16,
    I32,
    I64,
    I128,
    F32,
    F64,
}

/// Interned types are addressed by their index in the arena's intern table;
/// two structurally equal types share one index (see `lemma_intern_uniqueness`).
pub type TyRef = usize;

/// Lists of interned types (tuple elements, function arguments, generic
/// arguments) are interned as well and addressed by index.
pub type TyListRef = usize;

/// An item cell is addressed by its index in the arena's item table.
pub type ItemRef = usize;

/// An AST type.  All cross-references go through interned indices, so a type
/// node is a flat value and structural equality is plain field equality.
#[derive(Clone, Copy, PartialEq, Eq, Structural, Debug, Hash)]
pub enum Ty {
    Placeholder(AstId),
    Extern(AstId),
    NamedType(ItemRef),
    Builtin(BuiltinType),
    Pointer(TyRef),
    Slice(TyRef),
    Array(TyRef, usize),
    Tuple(TyListRef),
    Function(TyListRef, TyRef),
    GenericType(ItemRef, TyListRef),
}

/// A compiler-known item looked up by the tag of a `lang` attribute.
#[derive(Clone, Copy, PartialEq, Eq, Structural, Debug)]
pub enum LangItemKind {
    DynSelf,
}

/// ItemCell is the device that lets the item graph be cyclic: name resolution
/// creates the cell, a later pass fills it exactly once, and every
/// cross-reference goes through the cell's index.
pub struct ItemCell {
    pub id: AstId,
    pub contents: Option<Item>,
}

/// The AST arena: mints ids, interns types and type lists, and owns the item
/// cells.  All nodes of a compilation live and die together with it.
pub struct AstCtx {
    /// Registry of minted ids; the next id is the registry's length.
    pub ids: Vec<AstId>,
    /// Type intern table: no two entries are structurally equal.
    pub types: Vec<Ty>,
    /// Type-list intern table; entry 0 is always the empty list.
    pub type_lists: Vec<Vec<TyRef>>,
    pub items: Vec<ItemCell>,
    pub lang_items: Vec<(LangItemKind, ItemRef)>,
}

/// Everything a type value points at exists in tables of the given sizes.
pub open spec fn ty_valid_tables(t: Ty, n_types: int, n_lists: int, n_items: int) -> bool {
    match t {
        Ty::Placeholder(_) => true,
        Ty::Extern(_) => true,
        Ty::NamedType(item) => (item as int) < n_items,
        Ty::Builtin(_) => true,
        Ty::Pointer(inner) => (inner as int) < n_types,
        Ty::Slice(inner) => (inner as int) < n_types,
        Ty::Array(inner, _) => (inner as int) < n_types,
        Ty::Tuple(l) => (l as int) < n_lists,
        Ty::Function(l, ret) => (l as int) < n_lists && (ret as int) < n_types,
        Ty::GenericType(item, l) => (item as int) < n_items && (l as int) < n_lists,
    }
}

/// Every type index a type value mentions is below `i`: children are interned
/// before their parents, so walks down the intern table terminate.
pub open spec fn ty_children_before(t: Ty, lists: Seq<Seq<TyRef>>, i: int) -> bool {
    match t {
        Ty::Placeholder(_) => true,
        Ty::Extern(_) => true,
        Ty::NamedType(_) => true,
        Ty::Builtin(_) => true,
        Ty::Pointer(inner) => (inner as int) < i,
        Ty::Slice(inner) => (inner as int) < i,
        Ty::Array(inner, _) => (inner as int) < i,
        Ty::Tuple(l) => forall|k: int|
            0 <= k < lists[l as int].len() ==> (lists[l as int][k] as int) < i,
        Ty::Function(l, ret) => (ret as int) < i && forall|k: int|
            0 <= k < lists[l as int].len() ==> (lists[l as int][k] as int) < i,
        Ty::GenericType(_, l) => forall|k: int|
            0 <= k < lists[l as int].len() ==> (lists[l as int][k] as int) < i,
    }
}

pub open spec fn list_elems_below(elems: Seq<TyRef>, n: int) -> bool {
    forall|k: int| 0 <= k < elems.len() ==> (elems[k] as int) < n
}

/// Well-formedness of the two intern tables: entry 0 of the list table is
/// the empty list, all cross-references are in range, children come before
/// parents, and no two entries of either table are equal.
pub open spec fn tables_wf(
    types: Seq<Ty>,
    lists: Seq<Seq<TyRef>>,
    n_items: int,
    lang: Seq<(LangItemKind, ItemRef)>,
) -> bool {
    &&& lists.len() >= 1
    &&& lists[0].len() == 0
    &&& forall|i: int|
        0 <= i < types.len() ==> ty_valid_tables(#[trigger] types[i], types.len() as int, lists.len() as int, n_items)
    &&& forall|i: int|
        0 <= i < types.len() ==> ty_children_before(#[trigger] types[i], lists, i)
    &&& forall|i: int, j: int| 0 <= i < j < types.len() ==> types[i] != types[j]
    &&& forall|l: int| 0 <= l < lists.len() ==> list_elems_below(#[trigger] lists[l], types.len() as int)
    &&& forall|i: int, j: int| 0 <= i < j < lists.len() ==> lists[i] != lists[j]
    &&& forall|n: int| 0 <= n < lang.len() ==> ((#[trigger] lang[n]).1 as int) < n_items
}

proof fn lemma_ty_valid_mono(t: Ty, n1: int, l1: int, i1: int, n2: int, l2: int, i2: int)
    requires
        ty_valid_tables(t, n1, l1, i1),
        n1 <= n2,
        l1 <= l2,
        i1 <= i2,
    ensures
        ty_valid_tables(t, n2, l2, i2),
{
}

impl AstCtx {
    /// How many ids have been minted so far.
    pub open spec fn counter(self) -> int {
        self.ids@.len() as int
    }

    /// The list intern table as a sequence of sequences.
    pub open spec fn lists(self) -> Seq<Seq<TyRef>> {
        self.type_lists@.map_values(|v: Vec<TyRef>| v@)
    }

    pub open spec fn ty_valid(self, t: Ty) -> bool {
        ty_valid_tables(
            t,
            self.types@.len() as int,
            self.type_lists@.len() as int,
            self.items@.len() as int,
        )
    }

    pub open spec fn wf(self) -> bool {
        tables_wf(self.types@, self.lists(), self.items@.len() as int, self.lang_items@)
    }

    /// The old tables are still in place after any growth of the arena.
    pub open spec fn extends(self, prev: Self) -> bool {
        &&& prev.ids@.len() <= self.ids@.len()
        &&& prev.types@.is_prefix_of(self.types@)
        &&& prev.type_lists@.len() <= self.type_lists@.len()
        &&& forall|l: int|
            0 <= l < prev.type_lists@.len() ==> self.type_lists@[l]@ == prev.type_lists@[l]@
        &&& prev.items@.len() <= self.items@.len()
        &&& forall|n: int|
            0 <= n < prev.items@.len() ==> #[trigger] self.items@[n].id == prev.items@[n].id
        &&& forall|n: int|
            0 <= n < prev.items@.len() && prev.items@[n].contents is Some
                ==> #[trigger] self.items@[n].contents == prev.items@[n].contents
    }

    pub fn new() -> (r: AstCtx)
        ensures
            r.wf(),
            r.counter() == 0,
            r.types@.len() == 0,
            r.type_lists@.len() == 1,
            r.items@.len() == 0,
            r.lang_items@.len() == 0,
    {
        let mut type_lists: Vec<Vec<TyRef>> = Vec::new();
        let empty: Vec<TyRef> = Vec::new();
        type_lists.push(empty);
        let r = AstCtx {
            ids: Vec::new(),
            types: Vec::new(),
            type_lists,
            items: Vec::new(),
            lang_items: Vec::new(),
        };
        proof {
            assert(r.lists().len() == 1);
            assert(r.lists()[0].len() == 0);
        }
        r
    }

    /// Mints a fresh id.  Freshness is structural: the returned id equals the
    /// number of ids minted before it, so it differs from all of them.
    pub fn make_id(&mut self) -> (r: AstId)
        ensures
            r.id == old(self).counter(),
            final(self).counter() == old(self).counter() + 1,
            final(self).types@ == old(self).types@,
            final(self).type_lists@ == old(self).type_lists@,
            final(self).items@ == old(self).items@,
            final(self).lang_items@ == old(self).lang_items@,
            final(self).wf() == old(self).wf(),
    {
        let id = AstId { id: self.ids.len() };
        self.ids.push(id);
        id
    }

    /// Interns a type: returns the index of the structurally equal entry if
    /// one exists, otherwise appends the value.  Together with `wf` this is
    /// the intern-uniqueness guarantee: equal types share one index.
    pub fn intern_type(&mut self, ty: Ty) -> (r: TyRef)
        requires
            old(self).wf(),
            old(self).ty_valid(ty),
        ensures
            final(self).wf(),
            final(self).extends(*old(self)),
            final(self).ids@ == old(self).ids@,
            final(self).type_lists@ == old(self).type_lists@,
            final(self).items@ == old(self).items@,
            final(self).lang_items@ == old(self).lang_items@,
            (r as int) < final(self).types@.len(),
            final(self).types@[r as int] == ty,
            final(self).types@.len() <= old(self).types@.len() + 1,
            (exists|j: int| 0 <= j < old(self).types@.len() && old(self).types@[j] == ty)
                ==> final(self).types@ == old(self).types@,
            (forall|j: int| 0 <= j < old(self).types@.len() ==> old(self).types@[j] != ty)
                ==> final(self).types@ == old(self).types@.push(ty) && r as int == old(
            self,
            ).types@.len(),
    {
        let n = self.types.len();
        let mut i: usize = 0;
        while i < n
            invariant
                n == self.types@.len(),
                i <= n,
                forall|j: int| 0 <= j < i ==> self.types@[j] != ty,
                *self == *old(self),
                old(self).wf(),
            decreases n - i,
        {
            if self.types[i] == ty {
                return i;
            }
            i = i + 1;
        }
        self.types.push(ty);
        proof {
            let ts = old(self).types@;
            let ts2 = self.types@;
            let ls = self.lists();
            let ni = self.items@.len() as int;
            assert(ts2 == ts.push(ty));
            assert forall|k: int|
                0 <= k < ts2.len() implies ty_valid_tables(
                #[trigger] ts2[k],
                ts2.len() as int,
                ls.len() as int,
                ni,
            ) by {
                if k < ts.len() {
                    assert(ty_valid_tables(ts[k], ts.len() as int, ls.len() as int, ni));
                    lemma_ty_valid_mono(
                        ts[k],
                        ts.len() as int,
                        ls.len() as int,
                        ni,
                        ts2.len() as int,
                        ls.len() as int,
                        ni,
                    );
                } else {
                    lemma_ty_valid_mono(
                        ty,
                        ts.len() as int,
                        ls.len() as int,
                        ni,
                        ts2.len() as int,
                        ls.len() as int,
                        ni,
                    );
                }
            }
            assert forall|k: int|
                0 <= k < ts2.len() implies ty_children_before(#[trigger] ts2[k], ls, k) by {
                if k < ts.len() {
                    assert(ty_children_before(ts[k], ls, k));
                } else {
                    assert(ts2[k] == ty);
                    match ty {
                        Ty::Tuple(l) => {
                            assert(list_elems_below(ls[l as int], ts.len() as int));
                        },
                        Ty::Function(l, _) => {
                            assert(list_elems_below(ls[l as int], ts.len() as int));
                        },
                        Ty::GenericType(_, l) => {
                            assert(list_elems_below(ls[l as int], ts.len() as int));
                        },
                        _ => {},
                    }
                }
            }
            assert forall|l: int|
                0 <= l < ls.len() implies list_elems_below(#[trigger] ls[l], ts2.len() as int) by {
                assert(list_elems_below(ls[l], ts.len() as int));
            }
        }
        n
    }

    /// Interns a list of (already interned) types, deduplicating like
    /// `intern_type` does.
    pub fn intern_type_list(&mut self, elems: Vec<TyRef>) -> (r: TyListRef)
        requires
            old(self).wf(),
            forall|k: int| 0 <= k < elems@.len() ==> (elems@[k] as int) < old(self).types@.len(),
        ensures
            final(self).wf(),
            final(self).extends(*old(self)),
            final(self).ids@ == old(self).ids@,
            final(self).types@ == old(self).types@,
            final(self).items@ == old(self).items@,
            final(self).lang_items@ == old(self).lang_items@,
            (r as int) < final(self).type_lists@.len(),
            final(self).type_lists@[r as int]@ == elems@,
            final(self).type_lists@.len() <= old(self).type_lists@.len() + 1,
            (exists|j: int|
                0 <= j < old(self).type_lists@.len() && old(self).type_lists@[j]@ == elems@)
                ==> final(self).type_lists@ == old(self).type_lists@,
    {
        let n = self.type_lists.len();
        let mut i: usize = 0;
        while i < n
            invariant
                n == self.type_lists@.len(),
                i <= n,
                forall|j: int| 0 <= j < i ==> self.type_lists@[j]@ != elems@,
                *self == *old(self),
                old(self).wf(),
            decreases n - i,
        {
            if ty_list_eq(&self.type_lists[i], &elems) {
                return i;
            }
            i = i + 1;
        }
        self.type_lists.push(elems);
        proof {
            let ts = self.types@;
            let ls = old(self).lists();
            let ls2 = self.lists();
            let ni = self.items@.len() as int;
            assert(ls2 =~= ls.push(elems@));
            assert forall|k: int|
                0 <= k < ts.len() implies ty_valid_tables(
                #[trigger] ts[k],
                ts.len() as int,
                ls2.len() as int,
                ni,
            ) by {
                assert(ty_valid_tables(ts[k], ts.len() as int, ls.len() as int, ni));
                lemma_ty_valid_mono(
                    ts[k],
                    ts.len() as int,
                    ls.len() as int,
                    ni,
                    ts.len() as int,
                    ls2.len() as int,
                    ni,
                );
            }
            assert forall|k: int|
                0 <= k < ts.len() implies ty_children_before(#[trigger] ts[k], ls2, k) by {
                assert(ty_children_before(ts[k], ls, k));
                assert(ty_valid_tables(ts[k], ts.len() as int, ls.len() as int, ni));
                match ts[k] {
                    Ty::Tuple(l) => {
                        assert(ls2[l as int] == ls[l as int]);
                    },
                    Ty::Function(l, _) => {
                        assert(ls2[l as int] == ls[l as int]);
                    },
                    Ty::GenericType(_, l) => {
                        assert(ls2[l as int] == ls[l as int]);
                    },
                    _ => {},
                }
            }
            assert forall|l: int|
                0 <= l < ls2.len() implies list_elems_below(#[trigger] ls2[l], ts.len() as int) by {
                if l < ls.len() {
                    assert(list_elems_below(ls[l], ts.len() as int));
                }
            }
            assert forall|a: int, b: int| 0 <= a < b < ls2.len() implies ls2[a] != ls2[b] by {
                if b < ls.len() {
                    assert(ls[a] != ls[b]);
                }
            }
        }
        n
    }

    /// Creates a fresh, empty item cell and returns its index.
    pub fn make_symbol(&mut self) -> (r: ItemRef)
        ensures
            old(self).wf() ==> final(self).wf(),
            final(self).extends(*old(self)),
            final(self).types@ == old(self).types@,
            final(self).type_lists@ == old(self).type_lists@,
            final(self).lang_items@ == old(self).lang_items@,
            final(self).counter() == old(self).counter() + 1,
            r as int == old(self).items@.len(),
            final(self).items@.len() == old(self).items@.len() + 1,
            final(self).items@[r as int].contents is None,
            final(self).items@[r as int].id.id == old(self).counter(),
            forall|n: int|
                0 <= n < old(self).items@.len() ==> final(self).items@[n] == old(self).items@[n],
    {
        let id = self.make_id();
        let r = self.items.len();
        self.items.push(ItemCell { id, contents: None });
        proof {
            if old(self).wf() {
                let ts = self.types@;
                let ls = self.lists();
                let ni0 = old(self).items@.len() as int;
                let ni = self.items@.len() as int;
                assert forall|k: int|
                    0 <= k < ts.len() implies ty_valid_tables(
                    #[trigger] ts[k],
                    ts.len() as int,
                    ls.len() as int,
                    ni,
                ) by {
                    assert(ty_valid_tables(ts[k], ts.len() as int, ls.len() as int, ni0));
                    lemma_ty_valid_mono(
                        ts[k],
                        ts.len() as int,
                        ls.len() as int,
                        ni0,
                        ts.len() as int,
                        ls.len() as int,
                        ni,
                    );
                }
            }
        }
        r
    }

    /// Fills an item cell.  At most one assignment ever succeeds: a second
    /// one returns an internal error and leaves the cell as it was.
    pub fn assign(&mut self, item: ItemRef, value: Item) -> (r: Result<(), ErrorKind>)
        ensures
            final(self).ids@ == old(self).ids@,
            final(self).types@ == old(self).types@,
            final(self).type_lists@ == old(self).type_lists@,
            final(self).lang_items@ == old(self).lang_items@,
            final(self).items@.len() == old(self).items@.len(),
            final(self).wf() == old(self).wf(),
            final(self).extends(*old(self)),
            match r {
                Ok(()) => {
                    &&& (item as int) < old(self).items@.len()
                    &&& old(self).items@[item as int].contents is None
                    &&& final(self).items@ == old(self).items@.update(
                        item as int,
                        ItemCell { id: old(self).items@[item as int].id, contents: Some(value) },
                    )
                },
                Err(k) => {
                    &&& k == ErrorKind::InternalError
                    &&& final(self).items@ == old(self).items@
                    &&& ((item as int) >= old(self).items@.len() || old(
                        self,
                    ).items@[item as int].contents is Some)
                },
            },
    {
        if item >= self.items.len() {
            return Err(ErrorKind::InternalError);
        }
        if self.items[item].contents.is_some() {
            return Err(ErrorKind::InternalError);
        }
        self.items[item].contents = Some(value);
        proof {
            assert(self.items@ =~= old(self).items@.update(
                item as int,
                ItemCell { id: old(self).items@[item as int].id, contents: Some(value) },
            ));
        }
        Ok(())
    }

    /// Reads an item cell; reading before any assignment is the
    /// `UnpopulatedSymbol` internal error.
    pub fn get(&self, item: ItemRef) -> (r: Result<&Item, ErrorKind>)
        ensures
            match r {
                Ok(it) => (item as int) < self.items@.len() && self.items@[item as int].contents
                    == Some(*it),
                Err(k) => {
                    &&& ((item as int) >= self.items@.len() && k == ErrorKind::InternalError) || (
                    (item as int) < self.items@.len() && self.items@[item as int].contents is None
                        && k == ErrorKind::UnpopulatedSymbol)
                },
            },
    {
        if item >= self.items.len() {
            return Err(ErrorKind::InternalError);
        }
        match &self.items[item].contents {
            Some(it) => Ok(it),
            None => Err(ErrorKind::UnpopulatedSymbol),
        }
    }

    /// Registers a compiler-known item.
    pub fn add_lang_item(&mut self, kind: LangItemKind, item: ItemRef)
        requires
            (item as int) < old(self).items@.len(),
        ensures
            final(self).lang_items@ == old(self).lang_items@.push((kind, item)),
            final(self).ids@ == old(self).ids@,
            final(self).types@ == old(self).types@,
            final(self).type_lists@ == old(self).type_lists@,
            final(self).items@ == old(self).items@,
            old(self).wf() ==> final(self).wf(),
            final(self).extends(*old(self)),
    {
        self.lang_items.push((kind, item));
    }

    /// The lang-item tag an item was registered under, if any (first
    /// registration wins).
    pub fn lang_item_kind(&self, item: ItemRef) -> (r: Option<LangItemKind>)
        ensures
            match r {
                Some(k) => exists|n: int|
                    0 <= n < self.lang_items@.len() && self.lang_items@[n] == (k, item),
                None => forall|n: int|
                    0 <= n < self.lang_items@.len() ==> (#[trigger] self.lang_items@[n]).1 != item,
            },
    {
        let n = self.lang_items.len();
        let mut i: usize = 0;
        while i < n
            invariant
                n == self.lang_items@.len(),
                i <= n,
                forall|k: int| 0 <= k < i ==> (#[trigger] self.lang_items@[k]).1 != item,
            decreases n - i,
        {
            let (kind, it) = self.lang_items[i];
            if it == item {
                return Some(kind);
            }
            i = i + 1;
        }
        None
    }
}

/// Element-wise equality of two interned-type lists.
pub fn ty_list_eq(a: &Vec<TyRef>, b: &Vec<TyRef>) -> (r: bool)
    ensures
        r == (a@ == b@),
{
    if a.len() != b.len() {
        return false;
    }
    let n = a.len();
    let mut i: usize = 0;
    while i < n
        invariant
            n == a@.len(),
            n == b@.len(),
            i <= n,
            forall|k: int| 0 <= k < i ==> a@[k] == b@[k],
        decreases n - i,
    {
        if a[i] != b[i] {
            return false;
        }
        i = i + 1;
    }
    proof {
        assert(a@ =~= b@);
    }
    true
}

/// Intern uniqueness: once interned, structurally equal types have the same
/// address, i.e. two table entries that are equal are one entry.
pub proof fn lemma_intern_uniqueness(ctx: AstCtx, i: int, j: int)
    requires
        ctx.wf(),
        0 <= i < ctx.types@.len(),
        0 <= j < ctx.types@.len(),
        ctx.types@[i] == ctx.types@[j],
    ensures
        i == j,
{
    if i < j {
        assert(ctx.types@[i] != ctx.types@[j]);
    }
    if j < i {
        assert(ctx.types@[j] != ctx.types@[i]);
    }
}

/// Growing the arena twice grows it once.
pub proof fn lemma_extends_trans(a: AstCtx, b: AstCtx, c: AstCtx)
    requires
        b.extends(a),
        c.extends(b),
    ensures
        c.extends(a),
{
    assert forall|l: int|
        0 <= l < a.type_lists@.len() implies c.type_lists@[l]@ == a.type_lists@[l]@ by {
        assert(b.type_lists@[l]@ == a.type_lists@[l]@);
    }
    assert(a.types@.is_prefix_of(c.types@)) by {
        assert(a.types@ =~= c.types@.subrange(0, a.types@.len() as int));
    }
}

/// Write-once: an item cell that is already populated keeps its contents
/// forever; in particular no second assignment can succeed.
pub proof fn lemma_write_once(prev: AstCtx, next: AstCtx, item: int)
    requires
        next.extends(prev),
        0 <= item < prev.items@.len(),
        prev.items@[item].contents is Some,
    ensures
        next.items@[item].contents == prev.items@[item].contents,
{
}

/// Attributes parsed from source, already validated (see the attribute
/// visitor).
#[derive(Clone, PartialEq, Eq, Debug)]
pub enum Attribute {
    Inline,
    AlwaysInline,
    NoInline,
    InlineDuringMono,
    Cold,
    Export,
    LinkName(Vec<u8>),
    ThreadLocal,
    Packed,
    Align(usize),
    Transparent,
    MustUse,
    Builtin,
    Test,
    TestMain,
    StaticConstructor,
    NoReturn,
}

#[derive(Clone, Copy, PartialEq, Eq, Structural, Debug, Hash)]
pub enum BinOp {
    And,
    Or,
    BitAnd,
    BitOr,
    BitXor,
    Eq,
    Neq,
    Lt,
    LEq,
    Gt,
    GEq,
    LShift,
    RShift,
    Plus,
    Minus,
    Mul,
    Div,
    Mod,
}

#[derive(Clone, Copy, PartialEq, Eq, Structural, Debug, Hash)]
pub enum UnOp {
    Neg,
    Not,
    BitNot,
}

/// Literal values.  String literals are byte strings; float literals keep
/// their spelling, the compiler never computes with them.
#[derive(Clone, PartialEq, Eq, Debug)]
pub enum Lit {
    Str(Vec<u8>),
    Byte(u8),
    Int(u128),
    Float(String),
    Bool(bool),
    Null,
}

pub type ExprP = Box<Expr>;

pub struct Expr {
    pub kind: ExprKind,
    pub span: Option<Span>,
}

pub struct FieldInitializer {
    pub name: String,
    pub value: Expr,
    pub span: Option<Span>,
}

pub struct LetDeclaration {
    pub id: AstId,
    pub typ: Option<TyRef>,
    pub value: Option<Expr>,
}

pub enum Statement {
    Expression(Expr),
    LetDeclaration(LetDeclaration),
}

pub enum ExprKind {
    Block(Vec<Statement>, ExprP),
    Binary(BinOp, ExprP, ExprP),
    Call(ExprP, Vec<Expr>),
    Function(ItemRef),
    GenericFunction(ExprP, Vec<TyRef>),
    Ref(ExprP),
    Deref(ExprP),
    Unary(UnOp, ExprP),
    Assign(ExprP, ExprP),
    AssignOp(BinOp, ExprP, ExprP),
    Local(AstId),
    Static(ItemRef),
    Const(ItemRef),
    EnumValue(ItemRef, AstId),
    Lit(Lit),
    Loop(ExprP),
    Break(Option<ExprP>),
    Continue,
    Return(Option<ExprP>),
    Defer(ExprP),
    Tuple(Vec<Expr>),
    Array(Vec<Expr>),
    Struct(TyRef, Vec<FieldInitializer>),
    Field(ExprP, String),
    TupleIndex(ExprP, usize),
    Index(ExprP, ExprP),
    Range(Option<ExprP>, Option<ExprP>, bool),
    If(ExprP, ExprP, ExprP),
    StaticIf(ExprP, ExprP, ExprP),
    TypeCheck(ExprP, TyRef),
    Cast(ExprP, TyRef),
    DeferredFunction(AstId, String),
    MacroInvocation(ExprP, Vec<Expr>),
    /// A reference to a macro item, together with arguments already bound by
    /// `bind!`; bound arguments are invisible to substitution.
    Macro(ItemRef, Vec<Expr>),
    EtCetera(ExprP),
    Void,
}

/// A generic parameter of an item, with optional default and protocol bounds.
#[derive(Clone, PartialEq, Eq, Debug)]
pub struct Placeholder {
    pub id: AstId,
    pub default: Option<TyRef>,
    pub bounds: Vec<TyRef>,
    pub span: Option<Span>,
}

#[derive(Clone, PartialEq, Eq, Debug)]
pub struct AssociatedFn {
    pub name: String,
    pub item: ItemRef,
}

/// An impl-block fragment referencing a protocol, composed into the enclosing
/// type's associated functions during monomorphization.
#[derive(Clone, PartialEq, Eq, Debug)]
pub struct Mixin {
    pub placeholders: Vec<Placeholder>,
    pub protocol: TyRef,
    pub span: Option<Span>,
}

#[derive(Clone, PartialEq, Eq, Debug)]
pub struct Field {
    pub id: AstId,
    pub name: String,
    pub typ: TyRef,
    pub span: Option<Span>,
}

pub struct Struct {
    pub name: Option<String>,
    pub placeholders: Vec<Placeholder>,
    pub fields: Vec<Field>,
    pub attributes: Vec<Attribute>,
    pub associated_fns: Vec<AssociatedFn>,
    pub mixins: Vec<Mixin>,
    pub span: Option<Span>,
    pub is_local: bool,
    pub is_union: bool,
}

#[derive(Clone, PartialEq, Eq, Debug)]
pub struct Parameter {
    pub id: AstId,
    pub typ: TyRef,
    pub span: Option<Span>,
}

pub struct Function {
    pub name: Option<String>,
    pub attributes: Vec<Attribute>,
    pub placeholders: Vec<Placeholder>,
    pub args: Vec<Parameter>,
    pub return_type: TyRef,
    pub body: Option<Expr>,
    pub varargs: bool,
    pub span: Option<Span>,
    pub is_local: bool,
    pub is_protocol_fn: bool,
}

#[derive(Clone, PartialEq, Eq, Debug)]
pub struct Protocol {
    pub name: Option<String>,
    pub placeholders: Vec<Placeholder>,
    pub associated_fns: Vec<AssociatedFn>,
    pub attributes: Vec<Attribute>,
    pub is_local: bool,
    pub span: Option<Span>,
}

pub struct EnumMember {
    pub name: String,
    pub id: AstId,
    pub value: Option<Expr>,
    pub span: Option<Span>,
}

pub struct Enum {
    pub name: Option<String>,
    pub members: Vec<EnumMember>,
    pub attributes: Vec<Attribute>,
    pub associated_fns: Vec<AssociatedFn>,
    pub mixins: Vec<Mixin>,
    pub is_local: bool,
    pub span: Option<Span>,
}

#[derive(Clone, PartialEq, Eq, Debug)]
pub struct TypeDef {
    pub name: Option<String>,
    pub placeholders: Vec<Placeholder>,
    pub target: Option<TyRef>,
    pub span: Option<Span>,
    pub is_local: bool,
    pub attributes: Vec<Attribute>,
}

pub struct StaticOrConst {
    pub name: Option<String>,
    pub attributes: Vec<Attribute>,
    pub typ: Option<TyRef>,
    pub init: Option<Expr>,
    pub span: Option<Span>,
    pub is_const: bool,
    pub placeholders: Vec<Placeholder>,
    pub is_local: bool,
    pub is_extern: bool,
}

/// The names of compiler intrinsics that an `extern "intrinsic"` function
/// may bind to.
#[derive(Clone, Copy, PartialEq, Eq, Structural, Debug)]
pub enum IntrinsicKind {
    SizeOf,
    AlignOf,
    Asm,
    Uninitialized,
    Dangling,
    Unreachable,
}

#[derive(Clone, PartialEq, Eq, Debug)]
pub struct Intrinsic {
    pub kind: IntrinsicKind,
    pub generic_count: usize,
    pub arg_count: usize,
    pub varargs: bool,
    pub span: Option<Span>,
}

#[derive(Clone, Copy, PartialEq, Eq, Structural, Debug)]
pub struct MacroParameter {
    pub id: AstId,
    pub et_cetera: bool,
    pub span: Option<Span>,
}

/// A user-defined macro.  The body is written after the item is assigned, so
/// a reference to the macro from its own body can be detected.
pub struct Macro {
    pub name: Option<String>,
    pub args: Vec<MacroParameter>,
    pub body: Option<Expr>,
    pub span: Option<Span>,
}

#[derive(Clone, Copy, PartialEq, Eq, Structural, Debug)]
pub enum BuiltinMacroKind {
    Env,
    IncludeBytes,
    Concat,
    Line,
    Column,
    File,
    FormatArgs,
    Bind,
    Reduce,
    Stringify,
}

#[derive(Clone, Copy, PartialEq, Eq, Structural, Debug)]
pub struct BuiltinMacro {
    pub kind: BuiltinMacroKind,
    pub span: Option<Span>,
}

pub enum Item {
    Struct(Struct),
    Function(Function),
    Enum(Enum),
    Protocol(Protocol),
    TypeDef(TypeDef),
    StaticOrConst(StaticOrConst),
    Macro(Macro),
    BuiltinMacro(BuiltinMacro),
    Intrinsic(Intrinsic),
}

impl AstCtx {
    /// Second step of the two-step macro construction: writes the body of an
    /// already assigned macro item.  Writing a body twice, or into anything
    /// that is not a body-less macro, is an internal error.
    pub fn set_macro_body(&mut self, item: ItemRef, body: Expr) -> (r: Result<(), ErrorKind>)
        ensures
            final(self).ids@ == old(self).ids@,
            final(self).types@ == old(self).types@,
            final(self).type_lists@ == old(self).type_lists@,
            final(self).lang_items@ == old(self).lang_items@,
            final(self).wf() == old(self).wf(),
            match r {
                Ok(()) => {
                    &&& (item as int) < old(self).items@.len()
                    &&& match old(self).items@[item as int].contents {
                        Some(Item::Macro(m)) => m.body is None && final(self).items@ == old(
                            self,
                        ).items@.update(
                            item as int,
                            ItemCell {
                                id: old(self).items@[item as int].id,
                                contents: Some(
                                    Item::Macro(
                                        Macro {
                                            name: m.name,
                                            args: m.args,
                                            body: Some(body),
                                            span: m.span,
                                        },
                                    ),
                                ),
                            },
                        ),
                        _ => false,
                    }
                },
                Err(k) => k == ErrorKind::InternalError && final(self).items@ == old(self).items@
                    && !((item as int) < old(self).items@.len() && (match old(
                    self,
                ).items@[item as int].contents {
                    Some(Item::Macro(m)) => m.body is None,
                    _ => false,
                })),
            },
    {
        if item >= self.items.len() {
            return Err(ErrorKind::InternalError);
        }
        let mut taken: Option<Item> = None;
        core::mem::swap(&mut self.items[item].contents, &mut taken);
        match taken {
            Some(Item::Macro(m)) => {
                if m.body.is_some() {
                    self.items[item].contents = Some(Item::Macro(m));
                    proof {
                        assert(self.items@ =~= old(self).items@);
                    }
                    return Err(ErrorKind::InternalError);
                }
                self.items[item].contents = Some(
                    Item::Macro(Macro { name: m.name, args: m.args, body: Some(body), span: m.span }),
                );
                proof {
                    assert(self.items@ =~= old(self).items@.update(
                        item as int,
                        ItemCell {
                            id: old(self).items@[item as int].id,
                            contents: Some(
                                Item::Macro(
                                    match old(self).items@[item as int].contents {
                                        Some(Item::Macro(m0)) => Macro {
                                            name: m0.name,
                                            args: m0.args,
                                            body: Some(body),
                                            span: m0.span,
                                        },
                                        _ => arbitrary(),
                                    },
                                ),
                            ),
                        },
                    ));
                }
                Ok(())
            },
            other => {
                self.items[item].contents = other;
                proof {
                    assert(self.items@ =~= old(self).items@);
                }
                Err(ErrorKind::InternalError)
            },
        }
    }
}


/// The mathematical view of a literal: byte strings and spellings become
/// sequences.
#[verifier::ext_equal]
pub enum LitView {
    Str(Seq<u8>),
    Byte(u8),
    Int(u128),
    Float(Seq<char>),
    Bool(bool),
    Null,
}

#[verifier::ext_equal]
pub struct FieldInitView {
    pub name: Seq<char>,
    pub value: ExprView,
    pub span: Option<Span>,
}

#[verifier::ext_equal]
pub struct LetDeclView {
    pub id: AstId,
    pub typ: Option<TyRef>,
    pub value: Option<ExprView>,
}

#[verifier::ext_equal]
pub enum StmtView {
    Expression(ExprView),
    LetDeclaration(LetDeclView),
}

#[verifier::ext_equal]
pub struct ExprView {
    pub kind: ExprKindView,
    pub span: Option<Span>,
}

/// The mathematical view of an expression tree.  Contracts about macro
/// expansion are stated over these views, so that a copy of a tree and the
/// tree itself satisfy the same statements.
#[verifier::ext_equal]
pub enum ExprKindView {
    Block(Seq<StmtView>, Box<ExprView>),
    Binary(BinOp, Box<ExprView>, Box<ExprView>),
    Call(Box<ExprView>, Seq<ExprView>),
    Function(ItemRef),
    GenericFunction(Box<ExprView>, Seq<TyRef>),
    Ref(Box<ExprView>),
    Deref(Box<ExprView>),
    Unary(UnOp, Box<ExprView>),
    Assign(Box<ExprView>, Box<ExprView>),
    AssignOp(BinOp, Box<ExprView>, Box<ExprView>),
    Local(AstId),
    Static(ItemRef),
    Const(ItemRef),
    EnumValue(ItemRef, AstId),
    Lit(LitView),
    Loop(Box<ExprView>),
    Break(Option<Box<ExprView>>),
    Continue,
    Return(Option<Box<ExprView>>),
    Defer(Box<ExprView>),
    Tuple(Seq<ExprView>),
    Array(Seq<ExprView>),
    Struct(TyRef, Seq<FieldInitView>),
    Field(Box<ExprView>, Seq<char>),
    TupleIndex(Box<ExprView>, usize),
    Index(Box<ExprView>, Box<ExprView>),
    Range(Option<Box<ExprView>>, Option<Box<ExprView>>, bool),
    If(Box<ExprView>, Box<ExprView>, Box<ExprView>),
    StaticIf(Box<ExprView>, Box<ExprView>, Box<ExprView>),
    TypeCheck(Box<ExprView>, TyRef),
    Cast(Box<ExprView>, TyRef),
    DeferredFunction(AstId, Seq<char>),
    MacroInvocation(Box<ExprView>, Seq<ExprView>),
    Macro(ItemRef, Seq<ExprView>),
    EtCetera(Box<ExprView>),
    Void,
}

pub open spec fn lit_view(l: Lit) -> LitView {
    match l {
        Lit::Str(bytes) => LitView::Str(bytes@),
        Lit::Byte(b) => LitView::Byte(b),
        Lit::Int(v) => LitView::Int(v),
        Lit::Float(s) => LitView::Float(s@),
        Lit::Bool(b) => LitView::Bool(b),
        Lit::Null => LitView::Null,
    }
}

/// Views of the first `n` elements of a sequence of expressions.
pub open spec fn exprs_view_n(s: Seq<Expr>, n: int) -> Seq<ExprView>
    decreases s, n,
{
    if n <= 0 || n > s.len() {
        Seq::empty()
    } else {
        exprs_view_n(s, n - 1).push(expr_view(s[n - 1]))
    }
}

pub open spec fn exprs_view(s: Seq<Expr>) -> Seq<ExprView> {
    exprs_view_n(s, s.len() as int)
}

pub open spec fn stmts_view_n(s: Seq<Statement>, n: int) -> Seq<StmtView>
    decreases s, n,
{
    if n <= 0 || n > s.len() {
        Seq::empty()
    } else {
        stmts_view_n(s, n - 1).push(stmt_view(s[n - 1]))
    }
}

pub open spec fn stmts_view(s: Seq<Statement>) -> Seq<StmtView> {
    stmts_view_n(s, s.len() as int)
}

pub open spec fn inits_view_n(s: Seq<FieldInitializer>, n: int) -> Seq<FieldInitView>
    decreases s, n,
{
    if n <= 0 || n > s.len() {
        Seq::empty()
    } else {
        inits_view_n(s, n - 1).push(init_view(s[n - 1]))
    }
}

pub open spec fn inits_view(s: Seq<FieldInitializer>) -> Seq<FieldInitView> {
    inits_view_n(s, s.len() as int)
}

pub open spec fn init_view(f: FieldInitializer) -> FieldInitView
    decreases f,
{
    FieldInitView { name: f.name@, value: expr_view(f.value), span: f.span }
}

pub open spec fn opt_expr_view(o: Option<ExprP>) -> Option<Box<ExprView>>
    decreases o,
{
    match o {
        Some(e) => Some(Box::new(expr_view(*e))),
        None => None,
    }
}

pub open spec fn stmt_view(s: Statement) -> StmtView
    decreases s,
{
    match s {
        Statement::Expression(e) => StmtView::Expression(expr_view(e)),
        Statement::LetDeclaration(d) => StmtView::LetDeclaration(
            LetDeclView {
                id: d.id,
                typ: d.typ,
                value: match d.value {
                    Some(e) => Some(expr_view(e)),
                    None => None,
                },
            },
        ),
    }
}

pub open spec fn expr_view(e: Expr) -> ExprView
    decreases e,
{
    ExprView { kind: expr_kind_view(e.kind), span: e.span }
}

pub open spec fn expr_kind_view(k: ExprKind) -> ExprKindView
    decreases k,
{
    match k {
        ExprKind::Block(stmts, ret) => ExprKindView::Block(
            stmts_view_n(stmts@, stmts@.len() as int),
            Box::new(expr_view(*ret)),
        ),
        ExprKind::Binary(op, a, b) => ExprKindView::Binary(
            op,
            Box::new(expr_view(*a)),
            Box::new(expr_view(*b)),
        ),
        ExprKind::Call(callee, args) => ExprKindView::Call(
            Box::new(expr_view(*callee)),
            exprs_view_n(args@, args@.len() as int),
        ),
        ExprKind::Function(item) => ExprKindView::Function(item),
        ExprKind::GenericFunction(inner, tys) => ExprKindView::GenericFunction(
            Box::new(expr_view(*inner)),
            tys@,
        ),
        ExprKind::Ref(inner) => ExprKindView::Ref(Box::new(expr_view(*inner))),
        ExprKind::Deref(inner) => ExprKindView::Deref(Box::new(expr_view(*inner))),
        ExprKind::Unary(op, inner) => ExprKindView::Unary(op, Box::new(expr_view(*inner))),
        ExprKind::Assign(a, b) => ExprKindView::Assign(
            Box::new(expr_view(*a)),
            Box::new(expr_view(*b)),
        ),
        ExprKind::AssignOp(op, a, b) => ExprKindView::AssignOp(
            op,
            Box::new(expr_view(*a)),
            Box::new(expr_view(*b)),
        ),
        ExprKind::Local(id) => ExprKindView::Local(id),
        ExprKind::Static(item) => ExprKindView::Static(item),
        ExprKind::Const(item) => ExprKindView::Const(item),
        ExprKind::EnumValue(item, id) => ExprKindView::EnumValue(item, id),
        ExprKind::Lit(l) => ExprKindView::Lit(lit_view(l)),
        ExprKind::Loop(inner) => ExprKindView::Loop(Box::new(expr_view(*inner))),
        ExprKind::Break(inner) => ExprKindView::Break(opt_expr_view(inner)),
        ExprKind::Continue => ExprKindView::Continue,
        ExprKind::Return(inner) => ExprKindView::Return(opt_expr_view(inner)),
        ExprKind::Defer(inner) => ExprKindView::Defer(Box::new(expr_view(*inner))),
        ExprKind::Tuple(elems) => ExprKindView::Tuple(exprs_view_n(elems@, elems@.len() as int)),
        ExprKind::Array(elems) => ExprKindView::Array(exprs_view_n(elems@, elems@.len() as int)),
        ExprKind::Struct(ty, inits) => ExprKindView::Struct(
            ty,
            inits_view_n(inits@, inits@.len() as int),
        ),
        ExprKind::Field(inner, name) => ExprKindView::Field(Box::new(expr_view(*inner)), name@),
        ExprKind::TupleIndex(inner, idx) => ExprKindView::TupleIndex(
            Box::new(expr_view(*inner)),
            idx,
        ),
        ExprKind::Index(a, b) => ExprKindView::Index(
            Box::new(expr_view(*a)),
            Box::new(expr_view(*b)),
        ),
        ExprKind::Range(lo, hi, inclusive) => ExprKindView::Range(
            opt_expr_view(lo),
            opt_expr_view(hi),
            inclusive,
        ),
        ExprKind::If(c, t, f) => ExprKindView::If(
            Box::new(expr_view(*c)),
            Box::new(expr_view(*t)),
            Box::new(expr_view(*f)),
        ),
        ExprKind::StaticIf(c, t, f) => ExprKindView::StaticIf(
            Box::new(expr_view(*c)),
            Box::new(expr_view(*t)),
            Box::new(expr_view(*f)),
        ),
        ExprKind::TypeCheck(inner, ty) => ExprKindView::TypeCheck(Box::new(expr_view(*inner)), ty),
        ExprKind::Cast(inner, ty) => ExprKindView::Cast(Box::new(expr_view(*inner)), ty),
        ExprKind::DeferredFunction(id, name) => ExprKindView::DeferredFunction(id, name@),
        ExprKind::MacroInvocation(inner, args) => ExprKindView::MacroInvocation(
            Box::new(expr_view(*inner)),
            exprs_view_n(args@, args@.len() as int),
        ),
        ExprKind::Macro(item, bound) => ExprKindView::Macro(
            item,
            exprs_view_n(bound@, bound@.len() as int),
        ),
        ExprKind::EtCetera(inner) => ExprKindView::EtCetera(Box::new(expr_view(*inner))),
        ExprKind::Void => ExprKindView::Void,
    }
}

/// The view of a prefix has one view per element, in order.
pub proof fn lemma_exprs_view_n(s: Seq<Expr>, n: int)
    requires
        0 <= n <= s.len(),
    ensures
        exprs_view_n(s, n).len() == n,
        forall|i: int| 0 <= i < n ==> exprs_view_n(s, n)[i] == expr_view(s[i]),
    decreases n,
{
    if n > 0 {
        lemma_exprs_view_n(s, n - 1);
    }
}

pub proof fn lemma_stmts_view_n(s: Seq<Statement>, n: int)
    requires
        0 <= n <= s.len(),
    ensures
        stmts_view_n(s, n).len() == n,
        forall|i: int| 0 <= i < n ==> stmts_view_n(s, n)[i] == stmt_view(s[i]),
    decreases n,
{
    if n > 0 {
        lemma_stmts_view_n(s, n - 1);
    }
}

pub proof fn lemma_inits_view_n(s: Seq<FieldInitializer>, n: int)
    requires
        0 <= n <= s.len(),
    ensures
        inits_view_n(s, n).len() == n,
        forall|i: int| 0 <= i < n ==> inits_view_n(s, n)[i] == init_view(s[i]),
    decreases n,
{
    if n > 0 {
        lemma_inits_view_n(s, n - 1);
    }
}

/// Sequences of expressions with equal element views have equal views.
pub proof fn lemma_exprs_view_congruence(a: Seq<Expr>, b: Seq<Expr>)
    requires
        a.len() == b.len(),
        forall|i: int| 0 <= i < a.len() ==> expr_view(#[trigger] a[i]) == expr_view(b[i]),
    ensures
        exprs_view(a) == exprs_view(b),
{
    lemma_exprs_view_n(a, a.len() as int);
    lemma_exprs_view_n(b, b.len() as int);
    assert(exprs_view(a) =~= exprs_view(b));
}

pub proof fn lemma_stmts_view_congruence(a: Seq<Statement>, b: Seq<Statement>)
    requires
        a.len() == b.len(),
        forall|i: int| 0 <= i < a.len() ==> stmt_view(#[trigger] a[i]) == stmt_view(b[i]),
    ensures
        stmts_view(a) == stmts_view(b),
{
    lemma_stmts_view_n(a, a.len() as int);
    lemma_stmts_view_n(b, b.len() as int);
    assert(stmts_view(a) =~= stmts_view(b));
}

pub proof fn lemma_inits_view_congruence(a: Seq<FieldInitializer>, b: Seq<FieldInitializer>)
    requires
        a.len() == b.len(),
        forall|i: int| 0 <= i < a.len() ==> init_view(#[trigger] a[i]) == init_view(b[i]),
    ensures
        inits_view(a) == inits_view(b),
{
    lemma_inits_view_n(a, a.len() as int);
    lemma_inits_view_n(b, b.len() as int);
    assert(inits_view(a) =~= inits_view(b));
}

/// Copies a vector of plain values.
pub fn copy_vec<T: Copy>(v: &Vec<T>) -> (r: Vec<T>)
    ensures
        r@ == v@,
{
    let mut r: Vec<T> = Vec::new();
    let n = v.len();
    let mut i: usize = 0;
    while i < n
        invariant
            n == v@.len(),
            i <= n,
            r@.len() == i,
            forall|k: int| 0 <= k < i ==> r@[k] == v@[k],
        decreases n - i,
    {
        r.push(v[i]);
        i = i + 1;
    }
    proof {
        assert(r@ =~= v@);
    }
    r
}

/// Deep copy of a literal; the result has the same view as the original.
pub fn lit_clone(l: &Lit) -> (r: Lit)
    ensures
        lit_view(r) == lit_view(*l),
{
    match l {
        Lit::Str(bytes) => Lit::Str(copy_vec(bytes)),
        Lit::Byte(b) => Lit::Byte(*b),
        Lit::Int(v) => Lit::Int(*v),
        Lit::Float(s) => Lit::Float(s.clone()),
        Lit::Bool(b) => Lit::Bool(*b),
        Lit::Null => Lit::Null,
    }
}

/// Deep copy of an expression tree; the result has the same view as the
/// original.  The derived `Clone` of a recursive type says nothing to the
/// verifier, so the copy is spelled out.
pub fn expr_clone(e: &Expr) -> (r: Expr)
    ensures
        expr_view(r) == expr_view(*e),
    decreases *e,
{
    let kind = match &e.kind {
        ExprKind::Block(stmts, ret) => ExprKind::Block(stmts_clone(stmts), Box::new(expr_clone(&**ret))),
        ExprKind::Binary(op, a, b) => ExprKind::Binary(
            *op,
            Box::new(expr_clone(&**a)),
            Box::new(expr_clone(&**b)),
        ),
        ExprKind::Call(callee, args) => ExprKind::Call(
            Box::new(expr_clone(&**callee)),
            exprs_clone(args),
        ),
        ExprKind::Function(item) => ExprKind::Function(*item),
        ExprKind::GenericFunction(inner, tys) => ExprKind::GenericFunction(
            Box::new(expr_clone(&**inner)),
            copy_vec(tys),
        ),
        ExprKind::Ref(inner) => ExprKind::Ref(Box::new(expr_clone(&**inner))),
        ExprKind::Deref(inner) => ExprKind::Deref(Box::new(expr_clone(&**inner))),
        ExprKind::Unary(op, inner) => ExprKind::Unary(*op, Box::new(expr_clone(&**inner))),
        ExprKind::Assign(a, b) => ExprKind::Assign(
            Box::new(expr_clone(&**a)),
            Box::new(expr_clone(&**b)),
        ),
        ExprKind::AssignOp(op, a, b) => ExprKind::AssignOp(
            *op,
            Box::new(expr_clone(&**a)),
            Box::new(expr_clone(&**b)),
        ),
        ExprKind::Local(id) => ExprKind::Local(*id),
        ExprKind::Static(item) => ExprKind::Static(*item),
        ExprKind::Const(item) => ExprKind::Const(*item),
        ExprKind::EnumValue(item, id) => ExprKind::EnumValue(*item, *id),
        ExprKind::Lit(l) => ExprKind::Lit(lit_clone(l)),
        ExprKind::Loop(inner) => ExprKind::Loop(Box::new(expr_clone(&**inner))),
        ExprKind::Break(inner) => ExprKind::Break(opt_expr_clone(inner)),
        ExprKind::Continue => ExprKind::Continue,
        ExprKind::Return(inner) => ExprKind::Return(opt_expr_clone(inner)),
        ExprKind::Defer(inner) => ExprKind::Defer(Box::new(expr_clone(&**inner))),
        ExprKind::Tuple(elems) => ExprKind::Tuple(exprs_clone(elems)),
        ExprKind::Array(elems) => ExprKind::Array(exprs_clone(elems)),
        ExprKind::Struct(ty, inits) => ExprKind::Struct(*ty, fieldinits_clone(inits)),
        ExprKind::Field(inner, name) => ExprKind::Field(Box::new(expr_clone(&**inner)), name.clone()),
        ExprKind::TupleIndex(inner, idx) => ExprKind::TupleIndex(Box::new(expr_clone(&**inner)), *idx),
        ExprKind::Index(a, b) => ExprKind::Index(
            Box::new(expr_clone(&**a)),
            Box::new(expr_clone(&**b)),
        ),
        ExprKind::Range(lo, hi, inclusive) => ExprKind::Range(
            opt_expr_clone(lo),
            opt_expr_clone(hi),
            *inclusive,
        ),
        ExprKind::If(c, t, f) => ExprKind::If(
            Box::new(expr_clone(&**c)),
            Box::new(expr_clone(&**t)),
            Box::new(expr_clone(&**f)),
        ),
        ExprKind::StaticIf(c, t, f) => ExprKind::StaticIf(
            Box::new(expr_clone(&**c)),
            Box::new(expr_clone(&**t)),
            Box::new(expr_clone(&**f)),
        ),
        ExprKind::TypeCheck(inner, ty) => ExprKind::TypeCheck(Box::new(expr_clone(&**inner)), *ty),
        ExprKind::Cast(inner, ty) => ExprKind::Cast(Box::new(expr_clone(&**inner)), *ty),
        ExprKind::DeferredFunction(id, name) => ExprKind::DeferredFunction(*id, name.clone()),
        ExprKind::MacroInvocation(inner, args) => ExprKind::MacroInvocation(
            Box::new(expr_clone(&**inner)),
            exprs_clone(args),
        ),
        ExprKind::Macro(item, bound) => ExprKind::Macro(*item, exprs_clone(bound)),
        ExprKind::EtCetera(inner) => ExprKind::EtCetera(Box::new(expr_clone(&**inner))),
        ExprKind::Void => ExprKind::Void,
    };
    Expr { kind, span: e.span }
}

pub fn opt_expr_clone(o: &Option<ExprP>) -> (r: Option<ExprP>)
    ensures
        opt_expr_view(r) == opt_expr_view(*o),
    decreases *o,
{
    match o {
        Some(inner) => Some(Box::new(expr_clone(&**inner))),
        None => None,
    }
}

pub fn exprs_clone(v: &Vec<Expr>) -> (r: Vec<Expr>)
    ensures
        exprs_view(r@) == exprs_view(v@),
        r@.len() == v@.len(),
    decreases v@,
{
    let mut r: Vec<Expr> = Vec::new();
    let n = v.len();
    let mut i: usize = 0;
    while i < n
        invariant
            n == v@.len(),
            i <= n,
            r@.len() == i,
            forall|k: int| 0 <= k < i ==> expr_view(#[trigger] r@[k]) == expr_view(v@[k]),
        decreases n - i,
    {
        r.push(expr_clone(&v[i]));
        i = i + 1;
    }
    proof {
        lemma_exprs_view_congruence(r@, v@);
    }
    r
}

pub fn stmt_clone(s: &Statement) -> (r: Statement)
    ensures
        stmt_view(r) == stmt_view(*s),
    decreases *s,
{
    match s {
        Statement::Expression(e) => Statement::Expression(expr_clone(e)),
        Statement::LetDeclaration(d) => Statement::LetDeclaration(
            LetDeclaration {
                id: d.id,
                typ: d.typ,
                value: match &d.value {
                    Some(e) => Some(expr_clone(e)),
                    None => None,
                },
            },
        ),
    }
}

pub fn stmts_clone(v: &Vec<Statement>) -> (r: Vec<Statement>)
    ensures
        stmts_view(r@) == stmts_view(v@),
        r@.len() == v@.len(),
    decreases v@,
{
    let mut r: Vec<Statement> = Vec::new();
    let n = v.len();
    let mut i: usize = 0;
    while i < n
        invariant
            n == v@.len(),
            i <= n,
            r@.len() == i,
            forall|k: int| 0 <= k < i ==> stmt_view(#[trigger] r@[k]) == stmt_view(v@[k]),
        decreases n - i,
    {
        r.push(stmt_clone(&v[i]));
        i = i + 1;
    }
    proof {
        lemma_stmts_view_congruence(r@, v@);
    }
    r
}

pub fn fieldinits_clone(v: &Vec<FieldInitializer>) -> (r: Vec<FieldInitializer>)
    ensures
        inits_view(r@) == inits_view(v@),
        r@.len() == v@.len(),
    decreases v@,
{
    let mut r: Vec<FieldInitializer> = Vec::new();
    let n = v.len();
    let mut i: usize = 0;
    while i < n
        invariant
            n == v@.len(),
            i <= n,
            r@.len() == i,
            forall|k: int| 0 <= k < i ==> init_view(#[trigger] r@[k]) == init_view(v@[k]),
        decreases n - i,
    {
        let f = &v[i];
        r.push(FieldInitializer { name: f.name.clone(), value: expr_clone(&f.value), span: f.span });
        i = i + 1;
    }
    proof {
        lemma_inits_view_congruence(r@, v@);
    }
    r
}

} // verus!
