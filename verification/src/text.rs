use vstd::prelude::*;

verus! {

/// Character-by-character string equality, usable from verified code.
pub fn str_eq(a: &str, b: &str) -> (r: bool)
    ensures
        r == (a@ == b@),
{
    let alen = a.unicode_len();
    let blen = b.unicode_len();
    if alen != blen {
        return false;
    }
    let mut i: usize = 0;
    while i < alen
        invariant
            alen == a@.len(),
            alen == b@.len(),
            i <= alen,
            forall|k: int| 0 <= k < i ==> a@[k] == b@[k],
        decreases alen - i,
    {
        if a.get_char(i) != b.get_char(i) {
            return false;
        }
        i = i + 1;
    }
    proof {
        assert(a@ =~= b@);
    }
    true
}

/// The index of the first occurrence of `c`, if any.
pub fn find_char(s: &str, c: char) -> (r: Option<usize>)
    ensures
        match r {
            Some(i) => i < s@.len() && s@[i as int] == c
                && forall|k: int| 0 <= k < i ==> s@[k] != c,
            None => forall|k: int| 0 <= k < s@.len() ==> s@[k] != c,
        },
{
    let len = s.unicode_len();
    let mut i: usize = 0;
    while i < len
        invariant
            len == s@.len(),
            i <= len,
            forall|k: int| 0 <= k < i ==> s@[k] != c,
        decreases len - i,
    {
        if s.get_char(i) == c {
            return Some(i);
        }
        i = i + 1;
    }
    None
}

/// The index after the last occurrence of `c`, or 0 when `c` does not
/// occur.
pub open spec fn rfind_end(s: Seq<char>, c: char) -> int
    decreases s.len(),
{
    if s.len() == 0 {
        0
    } else if s.last() == c {
        s.len() as int
    } else {
        rfind_end(s.drop_last(), c)
    }
}

/// Any position after which `c` does not occur, and right before which it
/// does (or 0), is the one `rfind_end` names.
pub proof fn lemma_rfind_end(s: Seq<char>, c: char, r: int)
    requires
        0 <= r <= s.len(),
        forall|k: int| r <= k < s.len() ==> s[k] != c,
        r > 0 ==> s[r - 1] == c,
    ensures
        rfind_end(s, c) == r,
    decreases s.len(),
{
    if s.len() > 0 {
        if s.last() == c {
        } else {
            lemma_rfind_end(s.drop_last(), c, r);
        }
    }
}

/// The index after the last occurrence of `c`, or 0 when `c` does not occur.
pub fn rfind_char_end(s: &str, c: char) -> (r: usize)
    ensures
        r <= s@.len(),
        forall|k: int| r <= k < s@.len() ==> s@[k] != c,
        r > 0 ==> s@[r - 1] == c,
        r == rfind_end(s@, c),
{
    let len = s.unicode_len();
    let mut i: usize = len;
    while i > 0
        invariant
            len == s@.len(),
            i <= len,
            forall|k: int| i <= k < len ==> s@[k] != c,
        decreases i,
    {
        if s.get_char(i - 1) == c {
            proof {
                lemma_rfind_end(s@, c, i as int);
            }
            return i;
        }
        i = i - 1;
    }
    proof {
        lemma_rfind_end(s@, c, 0);
    }
    0
}

/// The substring consisting of the characters at positions `from..to`.
pub fn substring(s: &str, from: usize, to: usize) -> (r: String)
    requires
        from <= to <= s@.len(),
    ensures
        r@ == s@.subrange(from as int, to as int),
{
    String::from_str(s.substring_char(from, to))
}

} // verus!
