use vstd::prelude::*;
use crate::diag::DiagCtx;
use crate::text::str_eq;

verus! {

#[derive(Clone, Copy, PartialEq, Eq, Structural, Debug)]
pub enum OutputType {
    Executable,
    Library,
}

/// Compilation-scoped state threaded into every pass: configuration flags
/// and values, a snapshot of the process environment and of the readable
/// files (the compiler itself performs no I/O), and the diagnostic context.
pub struct GlobalCtx {
    pub output_type: OutputType,
    pub cfgs: Vec<(String, Option<String>)>,
    /// Snapshot of the process environment, keyed and valued by UTF-8
    /// bytes (string literals are byte strings).
    pub env: Vec<(Vec<u8>, Vec<u8>)>,
    /// Snapshot of the files `include_bytes` may read.
    pub files: Vec<(Vec<u8>, Vec<u8>)>,
    pub options: Vec<String>,
    pub diag: DiagCtx,
}

/// First-match lookup in an association list of strings.
pub open spec fn assoc_find<T>(s: Seq<(String, T)>, key: Seq<char>) -> Option<T>
    decreases s.len(),
{
    if s.len() == 0 {
        None
    } else if s[0].0@ == key {
        Some(s[0].1)
    } else {
        assoc_find(s.drop_first(), key)
    }
}

/// First-match lookup in an association list keyed by byte strings.
pub open spec fn assoc_find_bytes<T>(s: Seq<(Vec<u8>, T)>, key: Seq<u8>) -> Option<T>
    decreases s.len(),
{
    if s.len() == 0 {
        None
    } else if s[0].0@ == key {
        Some(s[0].1)
    } else {
        assoc_find_bytes(s.drop_first(), key)
    }
}

/// Byte-for-byte equality of two byte vectors.
pub fn bytes_eq(a: &Vec<u8>, b: &Vec<u8>) -> (r: bool)
    ensures
        r == (a@ == b@),
{
    if a.len() != b.len() {
        return false;
    }
    let n = a.len();
    let mut i: usize = 0;
    while i < n
        invariant
            n == a@.len(),
            n == b@.len(),
            i <= n,
            forall|k: int| 0 <= k < i ==> a@[k] == b@[k],
        decreases n - i,
    {
        if a[i] != b[i] {
            return false;
        }
        i = i + 1;
    }
    proof {
        assert(a@ =~= b@);
    }
    true
}

impl GlobalCtx {
    pub fn new(output_type: OutputType) -> (r: GlobalCtx)
        ensures
            r.output_type == output_type,
            r.cfgs@.len() == 0,
            r.env@.len() == 0,
            r.files@.len() == 0,
            r.options@.len() == 0,
    {
        GlobalCtx {
            output_type,
            cfgs: Vec::new(),
            env: Vec::new(),
            files: Vec::new(),
            options: Vec::new(),
            diag: DiagCtx::new(),
        }
    }

    /// Adds a bare configuration flag.
    pub fn add_flag(&mut self, key: String)
        ensures
            final(self).cfgs@ == old(self).cfgs@.push((key, Option::<String>::None)),
            final(self).env@ == old(self).env@,
            final(self).files@ == old(self).files@,
            final(self).diag == old(self).diag,
            final(self).output_type == old(self).output_type,
    {
        self.cfgs.push((key, None));
    }

    /// Adds a configuration value.
    pub fn add_cfg(&mut self, key: String, value: String)
        ensures
            final(self).cfgs@ == old(self).cfgs@.push((key, Some(value))),
            final(self).env@ == old(self).env@,
            final(self).files@ == old(self).files@,
            final(self).diag == old(self).diag,
            final(self).output_type == old(self).output_type,
    {
        self.cfgs.push((key, Some(value)));
    }

    /// The configured value of a name: `Some(None)` for a bare flag,
    /// `Some(Some(v))` for a value, `None` when the name is not configured.
    pub fn cfg(&self, name: &str) -> (r: Option<Option<&String>>)
        ensures
            match r {
                Some(Some(v)) => assoc_find(self.cfgs@, name@) == Some(Some(*v)),
                Some(None) => assoc_find(self.cfgs@, name@) == Some(Option::<String>::None),
                None => assoc_find(self.cfgs@, name@) is None,
            },
    {
        let n = self.cfgs.len();
        let mut i: usize = 0;
        proof {
            assert(self.cfgs@.skip(0) =~= self.cfgs@);
        }
        while i < n
            invariant
                n == self.cfgs@.len(),
                i <= n,
                assoc_find(self.cfgs@, name@) == assoc_find(self.cfgs@.skip(i as int), name@),
            decreases n - i,
        {
            proof {
                assert(self.cfgs@.skip(i as int).len() > 0);
                assert(self.cfgs@.skip(i as int)[0] == self.cfgs@[i as int]);
                assert(self.cfgs@.skip(i as int).drop_first() =~= self.cfgs@.skip(i + 1));
            }
            if str_eq(self.cfgs[i].0.as_str(), name) {
                return match &self.cfgs[i].1 {
                    Some(v) => Some(Some(v)),
                    None => Some(None),
                };
            }
            i = i + 1;
        }
        proof {
            assert(self.cfgs@.skip(n as int).len() == 0);
        }
        None
    }

    /// Whether a configuration name is set at all.
    pub fn has_flag(&self, name: &str) -> (r: bool)
        ensures
            r == (assoc_find(self.cfgs@, name@) is Some),
    {
        self.cfg(name).is_some()
    }

    /// The snapshot value of an environment variable.
    pub fn env_var(&self, name: &Vec<u8>) -> (r: Option<&Vec<u8>>)
        ensures
            match r {
                Some(v) => assoc_find_bytes(self.env@, name@) == Some(*v),
                None => assoc_find_bytes(self.env@, name@) is None,
            },
    {
        let n = self.env.len();
        let mut i: usize = 0;
        proof {
            assert(self.env@.skip(0) =~= self.env@);
        }
        while i < n
            invariant
                n == self.env@.len(),
                i <= n,
                assoc_find_bytes(self.env@, name@) == assoc_find_bytes(
                    self.env@.skip(i as int),
                    name@,
                ),
            decreases n - i,
        {
            proof {
                assert(self.env@.skip(i as int).len() > 0);
                assert(self.env@.skip(i as int)[0] == self.env@[i as int]);
                assert(self.env@.skip(i as int).drop_first() =~= self.env@.skip(i + 1));
            }
            if bytes_eq(&self.env[i].0, name) {
                return Some(&self.env[i].1);
            }
            i = i + 1;
        }
        proof {
            assert(self.env@.skip(n as int).len() == 0);
        }
        None
    }

    /// The snapshot contents of a readable file.
    pub fn file_contents(&self, name: &Vec<u8>) -> (r: Option<&Vec<u8>>)
        ensures
            match r {
                Some(v) => assoc_find_bytes(self.files@, name@) == Some(*v),
                None => assoc_find_bytes(self.files@, name@) is None,
            },
    {
        let n = self.files.len();
        let mut i: usize = 0;
        proof {
            assert(self.files@.skip(0) =~= self.files@);
        }
        while i < n
            invariant
                n == self.files@.len(),
                i <= n,
                assoc_find_bytes(self.files@, name@) == assoc_find_bytes(
                    self.files@.skip(i as int),
                    name@,
                ),
            decreases n - i,
        {
            proof {
                assert(self.files@.skip(i as int).len() > 0);
                assert(self.files@.skip(i as int)[0] == self.files@[i as int]);
                assert(self.files@.skip(i as int).drop_first() =~= self.files@.skip(i + 1));
            }
            if bytes_eq(&self.files[i].0, name) {
                return Some(&self.files[i].1);
            }
            i = i + 1;
        }
        proof {
            assert(self.files@.skip(n as int).len() == 0);
        }
        None
    }
}

} // verus!
