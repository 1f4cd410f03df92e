use vstd::prelude::*;
use crate::ast::{Attribute, ItemRef};
use crate::diag::ErrorKind;
use crate::maker::{Group, NamedItem};
use crate::text::str_eq;

verus! {

/// The first pass over a source tree: it collects the grouped named items
/// a scope holds, and records the program's entry-point candidate.
pub struct FirstPassVisitor {
    /// Whether this visitor runs on the designated main module.
    pub tracks_main: bool,
    /// Whether the `test` configuration is active (the candidate is then
    /// the `test_main` function, not `main`).
    pub test_cfg: bool,
    pub main_candidate: Option<ItemRef>,
    pub items: Vec<Group>,
}

pub open spec fn attrs_have_export(attrs: Seq<Attribute>) -> bool {
    exists|i: int| 0 <= i < attrs.len() && attrs[i] is Export
}

pub open spec fn attrs_have_link_name(attrs: Seq<Attribute>) -> bool {
    exists|i: int| 0 <= i < attrs.len() && attrs[i] is LinkName
}

pub open spec fn attrs_have_test_main(attrs: Seq<Attribute>) -> bool {
    exists|i: int| 0 <= i < attrs.len() && attrs[i] is TestMain
}

/// Whether a function becomes the entry-point candidate: under the `test`
/// configuration the function carrying `test_main`; otherwise the function
/// named `main` in the main module, unless it is exported or renamed by
/// `link_name` (those belong to the C side, not to the runtime).
pub open spec fn is_main_candidate(
    test_cfg: bool,
    in_main_module: bool,
    name: Seq<char>,
    attrs: Seq<Attribute>,
) -> bool {
    if test_cfg {
        attrs_have_test_main(attrs)
    } else {
        in_main_module && name == "main"@ && !attrs_have_export(attrs) && !attrs_have_link_name(
            attrs,
        )
    }
}

impl FirstPassVisitor {
    pub fn new(test_cfg: bool) -> (r: FirstPassVisitor)
        ensures
            r.tracks_main == false,
            r.test_cfg == test_cfg,
            r.main_candidate is None,
            r.items@.len() == 0,
    {
        FirstPassVisitor { tracks_main: false, test_cfg, main_candidate: None, items: Vec::new() }
    }

    /// A visitor for the main module, which looks for the entry point.
    pub fn with_main(test_cfg: bool) -> (r: FirstPassVisitor)
        ensures
            r.tracks_main == true,
            r.test_cfg == test_cfg,
            r.main_candidate is None,
            r.items@.len() == 0,
    {
        FirstPassVisitor { tracks_main: true, test_cfg, main_candidate: None, items: Vec::new() }
    }

    pub fn main_candidate(&self) -> (r: Option<ItemRef>)
        ensures
            r == self.main_candidate,
    {
        self.main_candidate
    }

    /// Records one function definition.  Two entry-point candidates are a
    /// hard error; a `main` that is exported or renamed never becomes one.
    pub fn visit_function_definition(
        &mut self,
        item: ItemRef,
        name: &str,
        attributes: &Vec<Attribute>,
        in_main_module: bool,
    ) -> (r: Result<(), ErrorKind>)
        ensures
            final(self).items@ == old(self).items@,
            final(self).tracks_main == old(self).tracks_main,
            final(self).test_cfg == old(self).test_cfg,
            match r {
                Ok(()) => {
                    if old(self).tracks_main && is_main_candidate(
                        old(self).test_cfg,
                        in_main_module,
                        name@,
                        attributes@,
                    ) {
                        old(self).main_candidate is None && final(self).main_candidate == Some(
                            item,
                        )
                    } else {
                        final(self).main_candidate == old(self).main_candidate
                    }
                },
                Err(k) => {
                    &&& k == ErrorKind::MultipleMainFunctions
                    &&& old(self).tracks_main
                    &&& is_main_candidate(
                        old(self).test_cfg,
                        in_main_module,
                        name@,
                        attributes@,
                    )
                    &&& old(self).main_candidate is Some
                },
            },
    {
        if !self.tracks_main {
            return Ok(());
        }
        let is_candidate = if self.test_cfg {
            let mut has_tm = false;
            let n = attributes.len();
            let mut i: usize = 0;
            while i < n
                invariant
                    n == attributes@.len(),
                    i <= n,
                    has_tm == exists|k: int| 0 <= k < i && attributes@[k] is TestMain,
                decreases n - i,
            {
                match &attributes[i] {
                    Attribute::TestMain => {
                        has_tm = true;
                    },
                    _ => {},
                }
                i = i + 1;
            }
            has_tm
        } else {
            let mut has_export = false;
            let mut has_link = false;
            let n = attributes.len();
            let mut i: usize = 0;
            while i < n
                invariant
                    n == attributes@.len(),
                    i <= n,
                    has_export == exists|k: int| 0 <= k < i && attributes@[k] is Export,
                    has_link == exists|k: int| 0 <= k < i && attributes@[k] is LinkName,
                decreases n - i,
            {
                match &attributes[i] {
                    Attribute::Export => {
                        has_export = true;
                    },
                    Attribute::LinkName(_) => {
                        has_link = true;
                    },
                    _ => {},
                }
                i = i + 1;
            }
            in_main_module && str_eq(name, "main") && !has_export && !has_link
        };
        if is_candidate {
            if self.main_candidate.is_some() {
                return Err(ErrorKind::MultipleMainFunctions);
            }
            self.main_candidate = Some(item);
        }
        Ok(())
    }

    /// Records one named item group collected from the scope tree.
    pub fn add_item(&mut self, name: Option<String>, items: Vec<NamedItem>)
        ensures
            final(self).items@.len() == old(self).items@.len() + 1,
            final(self).main_candidate == old(self).main_candidate,
            final(self).tracks_main == old(self).tracks_main,
            final(self).test_cfg == old(self).test_cfg,
    {
        self.items.push(Group { name, items });
    }

    /// Hands the collected groups over to the item maker.
    pub fn visit_local(self) -> (r: Vec<Group>)
        ensures
            r == self.items,
    {
        self.items
    }
}

} // verus!
