use vstd::prelude::*;
use crate::text::{find_char, rfind_char_end, substring};

verus! {

/// Splits a `module::path=file` argument at the first `=`: the part before
/// it is the module path, the part after it the file name.  Without `=`
/// the whole argument is the file name and the module path is inferred
/// from it later.
pub fn parse_module(s: &str) -> (r: (Option<String>, String))
    ensures
        match find_first(s@, '=') {
            Some(pos) => {
                &&& r.0 matches Some(p) && p@ == s@.subrange(0, pos)
                &&& r.1@ == s@.subrange(pos + 1, s@.len() as int)
            },
            None => r.0 is None && r.1@ == s@,
        },
{
    let n = s.unicode_len();
    match find_char(s, '=') {
        Some(pos) => {
            let module = substring(s, 0, pos);
            let file = substring(s, pos + 1, n);
            proof {
                lemma_find_first(s@, '=', pos as int);
            }
            (Some(module), file)
        },
        None => {
            proof {
                lemma_find_none(s@, '=');
                assert(s@.subrange(0, s@.len() as int) =~= s@);
            }
            (None, substring(s, 0, n))
        },
    }
}

/// The position of the first occurrence of `c`, if any.
pub open spec fn find_first(s: Seq<char>, c: char) -> Option<int>
    decreases s.len(),
{
    if s.len() == 0 {
        None
    } else if s[0] == c {
        Some(0int)
    } else {
        match find_first(s.drop_first(), c) {
            Some(i) => Some(i + 1),
            None => None,
        }
    }
}

proof fn lemma_find_first(s: Seq<char>, c: char, pos: int)
    requires
        0 <= pos < s.len(),
        s[pos] == c,
        forall|k: int| 0 <= k < pos ==> s[k] != c,
    ensures
        find_first(s, c) == Some(pos),
    decreases pos,
{
    if pos > 0 {
        lemma_find_first(s.drop_first(), c, pos - 1);
    }
}

proof fn lemma_find_none(s: Seq<char>, c: char)
    requires
        forall|k: int| 0 <= k < s.len() ==> s[k] != c,
    ensures
        find_first(s, c) is None,
    decreases s.len(),
{
    if s.len() > 0 {
        lemma_find_none(s.drop_first(), c);
    }
}

/// Splits a `--cfg name=value` argument at the first `=`; without `=` the
/// whole argument is a bare flag name.
pub fn parse_cfg(s: &str) -> (r: (String, Option<String>))
    ensures
        match find_first(s@, '=') {
            Some(pos) => {
                &&& r.0@ == s@.subrange(0, pos)
                &&& r.1 matches Some(v) && v@ == s@.subrange(pos + 1, s@.len() as int)
            },
            None => r.0@ == s@ && r.1 is None,
        },
{
    let n = s.unicode_len();
    match find_char(s, '=') {
        Some(pos) => {
            let key = substring(s, 0, pos);
            let value = substring(s, pos + 1, n);
            proof {
                lemma_find_first(s@, '=', pos as int);
            }
            (key, Some(value))
        },
        None => {
            proof {
                lemma_find_none(s@, '=');
                assert(s@.subrange(0, s@.len() as int) =~= s@);
            }
            (substring(s, 0, n), None)
        },
    }
}

/// The module name a source file path implies: the file stem, i.e. what
/// stands between the last path separator and the last dot.
pub fn infer_module_name(path: &str) -> (r: String)
    ensures
        r@ == module_name_of(path@),
{
    let n = path.unicode_len();
    let start = rfind_char_end(path, '/');
    let mut end = n;
    let dot = rfind_char_end(path, '.');
    if dot > 0 && dot - 1 > start {
        end = dot - 1;
    }
    if start <= end {
        substring(path, start, end)
    } else {
        proof {
            assert(path@.subrange(0, 0) =~= Seq::<char>::empty());
        }
        substring(path, 0, 0)
    }
}

/// The stem of a path: between the last `/` and the last `.` that follows
/// it (or the end when there is none).
pub open spec fn module_name_of(path: Seq<char>) -> Seq<char> {
    let start = crate::text::rfind_end(path, '/');
    let dot = crate::text::rfind_end(path, '.');
    let end = if dot > 0 && dot - 1 > start {
        dot - 1
    } else {
        path.len() as int
    };
    if start <= end {
        path.subrange(start, end)
    } else {
        Seq::empty()
    }
}

/// The text the first `n` path segments contribute: each directory segment
/// prefixed with `::`, and for the last segment its file stem, unless the
/// stem is the root-file stem (such a file binds to its directory).
pub open spec fn sysroot_segs(segs: Seq<String>, n: int, root: Seq<char>) -> Seq<char>
    decreases n,
{
    if n <= 0 || n > segs.len() {
        Seq::empty()
    } else {
        sysroot_segs(segs, n - 1, root) + (if n < segs.len() {
            "::"@ + segs[n - 1]@
        } else {
            if module_name_of(segs[n - 1]@) == root {
                Seq::empty()
            } else {
                "::"@ + module_name_of(segs[n - 1]@)
            }
        })
    }
}

/// The module path of a standard-library source file (see `sysroot_segs`);
/// when nothing is left — no segments, or a root file at the top — the
/// path is the crate root `::`.
pub open spec fn sysroot_path_text(segs: Seq<String>, root: Seq<char>) -> Seq<char> {
    let t = sysroot_segs(segs, segs.len() as int, root);
    if t.len() < 2 {
        t + "::"@
    } else {
        t
    }
}

pub fn sysroot_module_path(segments: &Vec<String>, root_stem: &str) -> (r: String)
    ensures
        r@ == sysroot_path_text(segments@, root_stem@),
{
    let mut out = String::new();
    let n = segments.len();
    let mut i: usize = 0;
    proof {
        assert(out@ =~= sysroot_segs(segments@, 0, root_stem@));
    }
    while i < n
        invariant
            n == segments@.len(),
            i <= n,
            out@ == sysroot_segs(segments@, i as int, root_stem@),
        decreases n - i,
    {
        if i + 1 < n {
            out.append("::");
            out.append(segments[i].as_str());
        } else {
            let stem = infer_module_name(segments[i].as_str());
            if !crate::text::str_eq(stem.as_str(), root_stem) {
                out.append("::");
                out.append(stem.as_str());
            }
        }
        proof {
            assert(out@ =~= sysroot_segs(segments@, i + 1, root_stem@));
        }
        i = i + 1;
    }
    if out.unicode_len() < 2 {
        out.append("::");
    }
    out
}

} // verus!
