//! `%NAME%` placeholders in path templates and their substitution.
use vstd::prelude::*;
use crate::text::{chars_of, push_range, push_str, string_of, string_of_range};

verus! {

/// Names mapped to replacement text. A later entry for a name shadows an
/// earlier one, so that `insert` replaces what a name stood for.
pub struct PlaceholderMap {
    pub entries: Vec<(String, String)>,
}

/// The text that the last entry for `key` among `e` holds.
pub open spec fn lookup(e: Seq<(String, String)>, key: Seq<char>) -> Option<Seq<char>>
    decreases e.len(),
{
    if e.len() == 0 {
        None
    } else if e.last().0@ == key {
        Some(e.last().1@)
    } else {
        lookup(e.drop_last(), key)
    }
}

impl PlaceholderMap {
    pub open spec fn get_spec(&self, key: Seq<char>) -> Option<Seq<char>> {
        lookup(self.entries@, key)
    }

    /// An empty map.
    pub fn new() -> (r: PlaceholderMap)
        ensures
            r.entries@.len() == 0,
            forall|k: Seq<char>| r.get_spec(k) is None,
    {
        PlaceholderMap { entries: Vec::new() }
    }

    /// Makes `key` stand for `value`; other names keep their text.
    pub fn insert(&mut self, key: &str, value: &str)
        ensures
            final(self).get_spec(key@) == Some(value@),
            final(self).entries@.len() == old(self).entries@.len() + 1,
            final(self).entries@.drop_last() == old(self).entries@,
            final(self).entries@.last().0@ == key@,
            final(self).entries@.last().1@ == value@,
            forall|k: Seq<char>| k != key@ ==> final(self).get_spec(k) == old(self).get_spec(k),
    {
        let k = string_of(key);
        let v = string_of(value);
        self.entries.push((k, v));
        assert(self.entries@.drop_last() == old(self).entries@);
    }

    /// The text that `key` stands for, if any.
    pub fn get(&self, key: &String) -> (r: Option<&String>)
        ensures
            match r {
                Some(v) => self.get_spec(key@) == Some(v@),
                None => self.get_spec(key@) is None,
            },
    {
        let mut i: usize = self.entries.len();
        assert(self.entries@.subrange(0, i as int) == self.entries@);
        while i > 0
            invariant
                i <= self.entries@.len(),
                lookup(self.entries@.subrange(0, i as int), key@) == self.get_spec(key@),
            decreases i,
        {
            let ghost pre = self.entries@.subrange(0, i as int);
            assert(pre.drop_last() == self.entries@.subrange(0, i - 1));
            if self.entries[i - 1].0 == *key {
                return Some(&self.entries[i - 1].1);
            }
            i = i - 1;
        }
        assert(self.entries@.subrange(0, self.entries@.len() as int) == self.entries@);
        None
    }
}

/// The first index at or after `i` that holds `%` (`s.len()` if none does).
pub open spec fn next_percent(s: Seq<char>, i: int) -> int
    decreases s.len() - i,
{
    if i < 0 || i >= s.len() || s[i] == '%' {
        i
    } else {
        next_percent(s, i + 1)
    }
}

/// What the placeholder `name` becomes: its text in `ov`, else in `env`,
/// else nothing.
pub open spec fn placeholder_value(name: Seq<char>, ov: PlaceholderMap, env: PlaceholderMap) -> Seq<char> {
    match ov.get_spec(name) {
        Some(v) => v,
        None => match env.get_spec(name) {
            Some(v) => v,
            None => Seq::empty(),
        },
    }
}

/// `s` with each placeholder replaced. Read from the left, a `%` opens a
/// placeholder when a later `%` closes it with at least one character
/// between; a `%` that opens none stays as it is.
pub open spec fn expanded(s: Seq<char>, ov: PlaceholderMap, env: PlaceholderMap) -> Seq<char>
    decreases s.len(),
{
    if s.len() == 0 {
        s
    } else if s[0] != '%' {
        seq![s[0]] + expanded(s.subrange(1, s.len() as int), ov, env)
    } else {
        let j = next_percent(s, 1);
        if j < 1 || j >= s.len() {
            s
        } else if j == 1 {
            seq!['%'] + expanded(s.subrange(1, s.len() as int), ov, env)
        } else {
            placeholder_value(s.subrange(1, j), ov, env) + expanded(s.subrange(j + 1, s.len() as int), ov, env)
        }
    }
}

proof fn lemma_next_percent_shift(s: Seq<char>, a: int, i: int)
    requires
        0 <= a <= i <= s.len(),
    ensures
        next_percent(s.subrange(a, s.len() as int), i - a) == next_percent(s, i) - a,
    decreases s.len() - i,
{
    let t = s.subrange(a, s.len() as int);
    if i < s.len() && s[i] != '%' {
        assert(t[i - a] == s[i]);
        lemma_next_percent_shift(s, a, i + 1);
    } else if i < s.len() {
        assert(t[i - a] == s[i]);
    }
}

/// Expands each placeholder of `input`: by `overrides`, else by `env` (the
/// process environment), else to nothing.
pub fn expand_windows_env_vars(input: &str, overrides: &PlaceholderMap, env: &PlaceholderMap) -> (r: String)
    ensures
        r@ == expanded(input@, *overrides, *env),
{
    let s = chars_of(input);
    let mut out = String::new();
    let mut i: usize = 0;
    assert(s@.subrange(0, s@.len() as int) == s@);
    assert(out@ + expanded(input@, *overrides, *env) == expanded(input@, *overrides, *env));
    while i < s.len()
        invariant
            i <= s@.len(),
            s@ == input@,
            out@ + expanded(s@.subrange(i as int, s@.len() as int), *overrides, *env) == expanded(input@, *overrides, *env),
        decreases s@.len() - i,
    {
        let ghost rest = s@.subrange(i as int, s@.len() as int);
        if s[i] != '%' {
            out.push(s[i]);
            assert(rest.subrange(1, rest.len() as int) == s@.subrange(i + 1, s@.len() as int));
            i = i + 1;
        } else {
            let mut j: usize = i + 1;
            while j < s.len() && s[j] != '%'
                invariant
                    i < j <= s@.len(),
                    next_percent(s@, j as int) == next_percent(s@, i + 1),
                decreases s@.len() - j,
            {
                j = j + 1;
            }
            proof {
                lemma_next_percent_shift(s@, i as int, i + 1);
            }
            if j >= s.len() {
                push_range(&mut out, &s, i, s.len());
                assert(expanded(s@.subrange(s@.len() as int, s@.len() as int), *overrides, *env) == Seq::<char>::empty());
                i = s.len();
            } else if j == i + 1 {
                out.push('%');
                assert(rest.subrange(1, rest.len() as int) == s@.subrange(i + 1, s@.len() as int));
                i = i + 1;
            } else {
                let name = string_of_range(&s, i + 1, j);
                assert(rest.subrange(1, j - i) == s@.subrange(i + 1, j as int));
                assert(rest.subrange(j - i + 1, rest.len() as int) == s@.subrange(j + 1, s@.len() as int));
                match overrides.get(&name) {
                    Some(v) => push_str(&mut out, v.as_str()),
                    None => match env.get(&name) {
                        Some(v) => push_str(&mut out, v.as_str()),
                        None => {},
                    },
                }
                i = j + 1;
            }
        }
    }
    assert(expanded(s@.subrange(i as int, s@.len() as int), *overrides, *env) == Seq::<char>::empty());
    out
}

/// `s` with each occurrence of `pat` replaced by `with`, occurrences
/// taken from the left without overlap.
pub open spec fn replaced(s: Seq<char>, pat: Seq<char>, with: Seq<char>) -> Seq<char>
    decreases s.len(),
{
    if s.len() == 0 || pat.len() == 0 {
        s
    } else if pat.len() <= s.len() && s.subrange(0, pat.len() as int) == pat {
        with + replaced(s.subrange(pat.len() as int, s.len() as int), pat, with)
    } else {
        seq![s[0]] + replaced(s.subrange(1, s.len() as int), pat, with)
    }
}

/// `s` with each occurrence of the non-empty `pat` replaced by `with`,
/// occurrences taken from the left without overlap.
pub fn replace_literal(s: &str, pat: &str, with: &str) -> (r: String)
    requires
        pat@.len() > 0,
    ensures
        r@ == replaced(s@, pat@, with@),
{
    let v = chars_of(s);
    let p = chars_of(pat);
    let mut out = String::new();
    let mut i: usize = 0;
    assert(v@.subrange(0, v@.len() as int) == v@);
    assert(out@ + replaced(s@, pat@, with@) == replaced(s@, pat@, with@));
    while i < v.len()
        invariant
            i <= v@.len(),
            v@ == s@,
            p@ == pat@,
            p@.len() > 0,
            out@ + replaced(v@.subrange(i as int, v@.len() as int), pat@, with@) == replaced(s@, pat@, with@),
        decreases v@.len() - i,
    {
        let ghost rest = v@.subrange(i as int, v@.len() as int);
        if crate::text::occurs_at_exec(&v, &p, i) {
            assert(rest.subrange(0, p@.len() as int) == v@.subrange(i as int, i + p@.len()));
            assert(rest.subrange(p@.len() as int, rest.len() as int) == v@.subrange(i + p@.len(), v@.len() as int));
            push_str(&mut out, with);
            i = i + p.len();
        } else {
            assert(!(p@.len() <= rest.len() && rest.subrange(0, p@.len() as int) == p@)) by {
                if p@.len() <= rest.len() && rest.subrange(0, p@.len() as int) == p@ {
                    assert(v@.subrange(i as int, i + p@.len()) == rest.subrange(0, p@.len() as int));
                }
            }
            assert(rest.subrange(1, rest.len() as int) == v@.subrange(i + 1, v@.len() as int));
            out.push(v[i]);
            i = i + 1;
        }
    }
    assert(replaced(v@.subrange(i as int, v@.len() as int), pat@, with@) == Seq::<char>::empty());
    out
}

} // verus!
