//! Environment-variable expansion for action parameters.
//!
//! Strings in action descriptions may hold `%NAME%` references. Expansion
//! substitutes each reference with the variable's value, scanning left to
//! right. A reference without a closing `%`, or one naming a variable that
//! is not set, stops expansion there: the rest of the string is kept
//! verbatim. The caller supplies the variable bindings as plain values; the
//! library never reads the process environment itself.

use vstd::prelude::*;
use crate::text::str_chars;
use crate::text::chars_to_string;

verus! {

/// A snapshot of environment-variable bindings. A later `set` of the same
/// name shadows an earlier one.
pub struct EnvVars {
    pub vars: Vec<(String, String)>,
}

/// The value bound to `name`, preferring the binding added last.
pub open spec fn env_lookup(vars: Seq<(String, String)>, name: Seq<char>) -> Option<Seq<char>>
    decreases vars.len(),
{
    if vars.len() == 0 {
        None
    } else if vars.last().0@ == name {
        Some(vars.last().1@)
    } else {
        env_lookup(vars.drop_last(), name)
    }
}

impl EnvVars {
    pub fn new() -> (r: EnvVars)
        ensures
            r.vars@.len() == 0,
    {
        EnvVars { vars: Vec::new() }
    }

    pub fn set(&mut self, name: String, value: String)
        ensures
            final(self).vars@ == old(self).vars@.push((name, value)),
            env_lookup(final(self).vars@, name@) == Some::<Seq<char>>(value@),
    {
        let ghost n = name@;
        let ghost v = value@;
        self.vars.push((name, value));
        proof {
            assert(self.vars@.last().0@ == n);
            assert(self.vars@.drop_last() =~= old(self).vars@);
        }
    }

    /// The bound value of `name`, if any.
    pub fn get(&self, name: &str) -> (r: Option<String>)
        ensures
            match r {
                Some(v) => env_lookup(self.vars@, name@) == Some(v@),
                None => env_lookup(self.vars@, name@) is None,
            },
    {
        proof {
            assert(self.vars@.subrange(0, self.vars@.len() as int) =~= self.vars@);
        }
        self.get_from(self.vars.len(), name)
    }

    /// The bound value of `name` among the first `upto` bindings.
    fn get_from(&self, upto: usize, name: &str) -> (r: Option<String>)
        requires
            upto <= self.vars@.len(),
        ensures
            match r {
                Some(v) => env_lookup(self.vars@.subrange(0, upto as int), name@) == Some(v@),
                None => env_lookup(self.vars@.subrange(0, upto as int), name@) is None,
            },
        decreases upto,
    {
        if upto == 0 {
            proof {
                assert(self.vars@.subrange(0, 0) =~= Seq::<(String, String)>::empty());
            }
            None
        } else {
            let ghost pre = self.vars@.subrange(0, upto as int);
            if crate::text::str_eq(self.vars[upto - 1].0.as_str(), name) {
                proof {
                    assert(pre.last() == self.vars@[upto - 1]);
                }
                Some(self.vars[upto - 1].1.clone())
            } else {
                proof {
                    assert(pre.last() == self.vars@[upto - 1]);
                    assert(pre.drop_last() =~= self.vars@.subrange(0, upto - 1));
                }
                self.get_from(upto - 1, name)
            }
        }
    }
}

/// The position of the first `c` in `s` at or after `from`.
pub open spec fn find_char(s: Seq<char>, c: char, from: int) -> Option<int>
    recommends
        0 <= from <= s.len(),
    decreases s.len() - from when 0 <= from <= s.len()
{
    if from >= s.len() {
        None
    } else if s[from] == c {
        Some(from)
    } else {
        find_char(s, c, from + 1)
    }
}

pub fn find_char_vec(v: &Vec<char>, c: char, from: usize) -> (r: Option<usize>)
    requires
        from <= v@.len(),
    ensures
        match r {
            Some(j) => find_char(v@, c, from as int) == Some(j as int),
            None => find_char(v@, c, from as int) is None,
        },
    decreases v@.len() - from,
{
    if from >= v.len() {
        None
    } else if v[from] == c {
        Some(from)
    } else {
        find_char_vec(v, c, from + 1)
    }
}

/// What remains of `s` from position `i` on, with `%NAME%` references
/// substituted. A reference without a closing `%`, or whose name is not
/// bound, ends substitution: the remainder is kept verbatim.
pub open spec fn expand_from(s: Seq<char>, vars: Seq<(String, String)>, i: int) -> Seq<char>
    recommends
        0 <= i <= s.len(),
    decreases s.len() - i when 0 <= i <= s.len()
{
    if i >= s.len() {
        Seq::<char>::empty()
    } else if s[i] != '%' {
        seq![s[i]] + expand_from(s, vars, i + 1)
    } else {
        match find_char(s, '%', i + 1) {
            None => s.subrange(i, s.len() as int),
            Some(j) => if i < j < s.len() {
                match env_lookup(vars, s.subrange(i + 1, j)) {
                    Some(val) => val + expand_from(s, vars, j + 1),
                    None => s.subrange(i, s.len() as int),
                }
            } else {
                s.subrange(i, s.len() as int)
            },
        }
    }
}

/// `s` with its `%NAME%` references substituted from `vars`.
pub open spec fn expand_env(s: Seq<char>, vars: Seq<(String, String)>) -> Seq<char> {
    expand_from(s, vars, 0)
}

pub proof fn lemma_find_char_bounds(s: Seq<char>, c: char, from: int)
    requires
        0 <= from <= s.len(),
    ensures
        match find_char(s, c, from) {
            Some(j) => from <= j < s.len() && s[j] == c,
            None => true,
        },
    decreases s.len() - from,
{
    if from < s.len() && s[from] != c {
        lemma_find_char_bounds(s, c, from + 1);
    }
}

/// Searching from `base + k` in `s` is searching from `k` in the suffix
/// of `s` that starts at `base`.
pub proof fn lemma_find_char_sub(s: Seq<char>, c: char, base: int, k: int)
    requires
        0 <= base,
        0 <= k,
        base + k <= s.len(),
    ensures
        match find_char(s, c, base + k) {
            Some(j) => find_char(s.subrange(base, s.len() as int), c, k) == Some(j - base),
            None => find_char(s.subrange(base, s.len() as int), c, k) is None,
        },
    decreases s.len() - (base + k),
{
    let seg = s.subrange(base, s.len() as int);
    if base + k >= s.len() {
    } else {
        assert(seg[k] == s[base + k]);
        if s[base + k] != c {
            lemma_find_char_sub(s, c, base, k + 1);
        }
    }
}

fn copy_from(v: &Vec<char>, from: usize) -> (out: Vec<char>)
    requires
        from <= v@.len(),
    ensures
        out@ == v@.subrange(from as int, v@.len() as int),
{
    let mut out: Vec<char> = Vec::new();
    let mut i: usize = from;
    while i < v.len()
        invariant
            from <= i <= v@.len(),
            out@ == v@.subrange(from as int, i as int),
        decreases v@.len() - i,
    {
        out.push(v[i]);
        i = i + 1;
        proof {
            assert(out@ =~= v@.subrange(from as int, i as int));
        }
    }
    proof {
        assert(out@ =~= v@.subrange(from as int, v@.len() as int));
    }
    out
}

fn extend_chars(a: &mut Vec<char>, b: &Vec<char>)
    ensures
        final(a)@ == old(a)@ + b@,
{
    let mut i: usize = 0;
    while i < b.len()
        invariant
            i <= b@.len(),
            a@ == old(a)@ + b@.subrange(0, i as int),
        decreases b@.len() - i,
    {
        a.push(b[i]);
        i = i + 1;
        proof {
            assert(a@ =~= old(a)@ + b@.subrange(0, i as int));
        }
    }
    proof {
        assert(a@ =~= old(a)@ + b@);
    }
}

fn expand_rec(v: &Vec<char>, env: &EnvVars, i: usize) -> (out: Vec<char>)
    requires
        i <= v@.len(),
    ensures
        out@ == expand_from(v@, env.vars@, i as int),
    decreases v@.len() - i,
{
    if i >= v.len() {
        Vec::new()
    } else if v[i] != '%' {
        let rest = expand_rec(v, env, i + 1);
        let mut out: Vec<char> = Vec::new();
        out.push(v[i]);
        extend_chars(&mut out, &rest);
        proof {
            assert(out@ =~= seq![v@[i as int]] + rest@);
        }
        out
    } else {
        proof {
            lemma_find_char_bounds(v@, '%', i + 1);
        }
        match find_char_vec(v, '%', i + 1) {
            None => copy_from(v, i),
            Some(j) => {
                let name_chars = crate::text::copy_range(v, i + 1, j);
                let name = chars_to_string(&name_chars);
                match env.get(name.as_str()) {
                    Some(val) => {
                        let mut out = str_chars(val.as_str());
                        let rest = expand_rec(v, env, j + 1);
                        extend_chars(&mut out, &rest);
                        out
                    },
                    None => copy_from(v, i),
                }
            },
        }
    }
}

/// `input` with its `%NAME%` references substituted from `env`.
pub fn expand_environment_variables(input: &str, env: &EnvVars) -> (r: String)
    ensures
        r@ == expand_env(input@, env.vars@),
{
    let v = str_chars(input);
    let out = expand_rec(&v, env, 0);
    chars_to_string(&out)
}

/// A string without any `%` has nothing to expand: it comes back unchanged.
pub proof fn lemma_expand_no_tokens(s: Seq<char>, vars: Seq<(String, String)>)
    requires
        forall|k: int| 0 <= k < s.len() ==> s[k] != '%',
    ensures
        expand_env(s, vars) == s,
{
    lemma_expand_no_tokens_from(s, vars, 0);
    assert(s.subrange(0, s.len() as int) =~= s);
}

proof fn lemma_expand_no_tokens_from(s: Seq<char>, vars: Seq<(String, String)>, i: int)
    requires
        0 <= i <= s.len(),
        forall|k: int| 0 <= k < s.len() ==> s[k] != '%',
    ensures
        expand_from(s, vars, i) == s.subrange(i, s.len() as int),
    decreases s.len() - i,
{
    if i >= s.len() {
        assert(s.subrange(i, s.len() as int) =~= Seq::<char>::empty());
    } else {
        lemma_expand_no_tokens_from(s, vars, i + 1);
        assert(seq![s[i]] + s.subrange(i + 1, s.len() as int) =~= s.subrange(i, s.len() as int));
    }
}

/// A reference to a variable that is not bound is left verbatim, with all
/// that follows it.
pub proof fn lemma_expand_unresolved_head(s: Seq<char>, vars: Seq<(String, String)>, j: int)
    requires
        s.len() > 0,
        s[0] == '%',
        find_char(s, '%', 1) == Some(j),
        env_lookup(vars, s.subrange(1, j)) is None,
    ensures
        expand_env(s, vars) == s,
{
    assert(s.subrange(0, s.len() as int) =~= s);
}

} // verus!
