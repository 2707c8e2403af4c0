//! The story's variables: names bound to text, `{name}` placeholders in
//! dialogue, and the substitution of variables into arithmetic.
use vstd::prelude::*;
use crate::table::{Table, pairs_map, lookup, lemma_lookup_push};
use crate::text::{chars_of, replace_all, replace_chars, string_of};
use crate::script::pairs_view;

verus! {

/// The number of leading characters of `s` that are not braces.
pub open spec fn nonbrace_run(s: Seq<char>) -> nat
    decreases s.len(),
{
    if s.len() == 0 || s[0] == '{' || s[0] == '}' {
        0
    } else {
        1 + nonbrace_run(s.drop_first())
    }
}

pub proof fn lemma_nonbrace_run(s: Seq<char>)
    ensures
        nonbrace_run(s) <= s.len(),
        forall|j: int| 0 <= j < nonbrace_run(s) ==> s[j] != '{' && s[j] != '}',
        nonbrace_run(s) < s.len() ==> (s[nonbrace_run(s) as int] == '{' || s[nonbrace_run(
            s,
        ) as int] == '}'),
    decreases s.len(),
{
    if !(s.len() == 0 || s[0] == '{' || s[0] == '}') {
        lemma_nonbrace_run(s.drop_first());
        assert forall|j: int| 0 <= j < nonbrace_run(s) implies s[j] != '{' && s[j] != '}' by {
            if j > 0 {
                assert(s[j] == s.drop_first()[j - 1]);
            }
        }
    }
}

/// The names inside the successive non-overlapping matches of the pattern
/// `\{([^{}]+)\}` in `s`, scanning from the left: a `{`, one or more
/// characters that are not braces, then `}`.
pub open spec fn brace_names(s: Seq<char>) -> Seq<Seq<char>>
    decreases s.len(),
{
    if s.len() == 0 {
        seq![]
    } else {
        let k = nonbrace_run(s.drop_first()) as int;
        proof {
            lemma_nonbrace_run(s.drop_first());
        }
        if s[0] == '{' && k >= 1 && k + 1 < s.len() && s[k + 1] == '}' {
            seq![s.subrange(1, k + 1)] + brace_names(s.skip(k + 2))
        } else {
            brace_names(s.drop_first())
        }
    }
}

/// The names of the `{name}` placeholders of `text`, found with the regex
/// crate's `Regex::captures_iter` for the pattern `\{([^{}]+)\}`; the
/// contract states the leftmost-first, non-overlapping matches that the
/// crate documents for that pattern.
#[verifier::external_body]
fn placeholder_names(text: &str) -> (r: Vec<String>)
    ensures
        r@.map_values(|s: String| s@) == brace_names(text@),
{
    let re = regex::Regex::new(r"\{([^{}]+)\}").unwrap();
    re.captures_iter(text).map(|c| c[1].to_string()).collect()
}

/// `name` between braces.
pub open spec fn braced(name: Seq<char>) -> Seq<char> {
    seq!['{'] + name + seq!['}']
}

/// `acc` with each name of `names` in turn, where it is bound, replaced
/// in its braced form by its value.
pub open spec fn fill(vars: Map<Seq<char>, Seq<char>>, names: Seq<Seq<char>>, acc: Seq<char>) -> Seq<char>
    decreases names.len(),
{
    if names.len() == 0 {
        acc
    } else {
        let n = names[0];
        fill(
            vars,
            names.drop_first(),
            if vars.contains_key(n) {
                replace_all(acc, braced(n), vars[n])
            } else {
                acc
            },
        )
    }
}

/// The text with its `{name}` placeholders filled in: for every
/// placeholder of the given text, in order, all occurrences of it are
/// replaced by the variable's value where the variable is set.
pub open spec fn interpolation(vars: Map<Seq<char>, Seq<char>>, text: Seq<char>) -> Seq<char> {
    fill(vars, brace_names(text), text)
}

/// A character that ends a name in an expression.
pub open spec fn boundary(c: char) -> bool {
    !crate::text::alphanumeric(c) && c != '_'
}

/// Whether the occurrence of a name that starts at `i` of `s` and has
/// length `len` stands alone: no letter, digit or `_` right before or after.
pub open spec fn whole_word(s: Seq<char>, i: int, len: int) -> bool {
    &&& (i == 0 || boundary(s[i - 1]))
    &&& (i + len == s.len() || boundary(s[i + len]))
}

/// From index `i` of `s` on, every standalone occurrence of `k` replaced
/// by `v`, scanning from the left.
pub open spec fn word_replace_from(s: Seq<char>, k: Seq<char>, v: Seq<char>, i: int) -> Seq<char>
    decreases s.len() - i,
{
    if i < 0 || i >= s.len() || k.len() == 0 {
        s.skip(i)
    } else if i + k.len() <= s.len() && s.subrange(i, i + k.len()) == k && whole_word(s, i, k.len() as int) {
        v + word_replace_from(s, k, v, i + k.len())
    } else {
        seq![s[i]] + word_replace_from(s, k, v, i + 1)
    }
}

/// `s` with every standalone occurrence of `k` replaced by `v`.
pub open spec fn word_replace(s: Seq<char>, k: Seq<char>, v: Seq<char>) -> Seq<char> {
    word_replace_from(s, k, v, 0)
}

/// The variable store.
pub struct Variables {
    map: Table<String>,
}

impl View for Variables {
    type V = Map<Seq<char>, Seq<char>>;

    open spec fn view(&self) -> Map<Seq<char>, Seq<char>> {
        pairs_map(self.pairs())
    }
}

impl Default for Variables {
    /// No variables.
    fn default() -> (r: Self)
        ensures
            r@ == Map::<Seq<char>, Seq<char>>::empty(),
    {
        Variables::new()
    }
}

impl Variables {
    /// The variables in the order they were first set.
    pub closed spec fn pairs(&self) -> Seq<(Seq<char>, Seq<char>)> {
        self.map.pairs()
    }

    /// No variables.
    pub fn new() -> (r: Self)
        ensures
            r.pairs() == Seq::<(Seq<char>, Seq<char>)>::empty(),
            r@ == Map::<Seq<char>, Seq<char>>::empty(),
    {
        let r = Variables { map: Table::new() };
        assert(r@ =~= Map::<Seq<char>, Seq<char>>::empty());
        r
    }

    /// Sets `name` to `value`.
    pub fn set(&mut self, name: &str, value: &str)
        ensures
            final(self)@ == old(self)@.insert(name@, value@),
    {
        self.map.insert(name.to_string(), value.to_string());
    }

    /// The value of `name`, if it is set.
    pub fn get(&self, name: &str) -> (r: Option<&String>)
        ensures
            r matches Some(v) ==> self@.contains_key(name@) && self@[name@] == v@,
            r is None ==> !self@.contains_key(name@),
    {
        self.map.get(name)
    }

    /// The variables as name-value pairs, in the order they were first set.
    pub fn serialize(&self) -> (r: Vec<(String, String)>)
        ensures
            pairs_view(r@) == self.pairs(),
    {
        let n = self.map.len();
        let mut out: Vec<(String, String)> = Vec::new();
        let mut i: usize = 0;
        while i < n
            invariant
                i <= n == self.pairs().len(),
                pairs_view(out@) == self.pairs().take(i as int),
            decreases n - i,
        {
            let (k, v) = self.map.entry(i);
            let ghost old_out = out@;
            out.push((k.clone(), v.clone()));
            assert(pairs_view(out@) =~= pairs_view(old_out).push((k@, v@)));
            assert(self.pairs().take(i + 1) =~= self.pairs().take(i as int).push(self.pairs()[i as int]));
            i = i + 1;
        }
        assert(self.pairs().take(n as int) =~= self.pairs());
        out
    }

    /// Replaces all variables by the given pairs; where a name occurs
    /// twice, the later pair wins.
    pub fn deserialize(&mut self, data: Vec<(String, String)>)
        ensures
            final(self)@ == pairs_map(pairs_view(data@)),
    {
        let mut map: Table<String> = Table::new();
        let mut i: usize = 0;
        assert(pairs_view(data@).take(0) =~= Seq::<(Seq<char>, Seq<char>)>::empty());
        assert(pairs_map(map.pairs()) =~= pairs_map(Seq::<(Seq<char>, Seq<char>)>::empty()));
        while i < data.len()
            invariant
                i <= data@.len(),
                pairs_map(map.pairs()) == pairs_map(pairs_view(data@).take(i as int)),
            decreases data@.len() - i,
        {
            let p = &data[i];
            map.insert(p.0.clone(), p.1.clone());
            proof {
                let s = pairs_view(data@).take(i as int);
                assert(pairs_view(data@).take(i + 1) =~= s.push((p.0@, p.1@)));
                lemma_lookup_push(s, p.0@, p.1@);
            }
            i = i + 1;
        }
        assert(pairs_view(data@).take(data@.len() as int) =~= pairs_view(data@));
        self.map = map;
    }

    /// `text` with its `{name}` placeholders filled in.
    pub fn interpolate(&self, text: &str) -> (r: String)
        ensures
            r@ == interpolation(self@, text@),
    {
        let names = placeholder_names(text);
        let ghost ns = brace_names(text@);
        let mut result = chars_of(text);
        let mut i: usize = 0;
        assert(ns.skip(0) =~= ns);
        while i < names.len()
            invariant
                i <= names@.len(),
                names@.map_values(|s: String| s@) == ns,
                interpolation(self@, text@) == fill(self@, ns.skip(i as int), result@),
            decreases names@.len() - i,
        {
            let name = &names[i];
            assert(ns[i as int] == name@);
            assert(ns.skip(i as int).drop_first() =~= ns.skip(i + 1));
            match self.get(name.as_str()) {
                Some(value) => {
                    let mut pat: Vec<char> = Vec::new();
                    pat.push('{');
                    let nm = chars_of(name.as_str());
                    crate::text::push_all(&mut pat, nm.as_slice());
                    pat.push('}');
                    assert(pat@ =~= braced(name@));
                    let val = chars_of(value.as_str());
                    result = replace_chars(result.as_slice(), pat.as_slice(), val.as_slice());
                },
                None => {},
            }
            i = i + 1;
        }
        assert(ns.skip(names@.len() as int) =~= Seq::<Seq<char>>::empty());
        string_of(result.as_slice())
    }
}

} // verus!

verus! {

fn is_boundary(c: char) -> (r: bool)
    ensures
        r == boundary(c),
{
    !crate::text::is_alphanumeric(c) && c != '_'
}

/// `s` with every standalone occurrence of the non-empty name `k`
/// replaced by `v`.
pub fn word_replace_chars(s: &[char], k: &[char], v: &[char]) -> (r: Vec<char>)
    requires
        k@.len() > 0,
    ensures
        r@ == word_replace(s@, k@, v@),
{
    let n = s.len();
    let m = k.len();
    let mut out: Vec<char> = Vec::new();
    let mut i: usize = 0;
    while i < n
        invariant
            i <= n == s@.len(),
            m == k@.len() > 0,
            word_replace(s@, k@, v@) == out@ + word_replace_from(s@, k@, v@, i as int),
        decreases n - i,
    {
        let found = crate::text::matches_at(s, i, k);
        let standalone = found && (i == 0 || is_boundary(s[i - 1])) && (i + m == n || is_boundary(
            s[i + m],
        ));
        if standalone {
            assert(whole_word(s@, i as int, m as int));
            let ghost old_out = out@;
            crate::text::push_all(&mut out, v);
            assert(out@ + word_replace_from(s@, k@, v@, i + m) =~= old_out + (v@
                + word_replace_from(s@, k@, v@, i + m)));
            i = i + m;
        } else {
            assert(!(i + k@.len() <= s@.len() && s@.subrange(i as int, i + k@.len()) == k@
                && whole_word(s@, i as int, k@.len() as int)));
            let ghost old_out = out@;
            out.push(s[i]);
            assert(out@ + word_replace_from(s@, k@, v@, i + 1) =~= old_out + (seq![s@[i as int]]
                + word_replace_from(s@, k@, v@, i + 1)));
            i = i + 1;
        }
    }
    assert(word_replace_from(s@, k@, v@, n as int) =~= Seq::<char>::empty());
    assert(out@ + Seq::<char>::empty() =~= out@);
    out
}

} // verus!

verus! {

/// `s` with, for each name in turn, every braced occurrence `{name}`
/// replaced by the matching value.
pub open spec fn braced_pass(keys: Seq<Seq<char>>, vals: Seq<Seq<char>>, s: Seq<char>) -> Seq<char>
    decreases keys.len(),
{
    if keys.len() == 0 || vals.len() == 0 {
        s
    } else {
        braced_pass(keys.drop_first(), vals.drop_first(), replace_all(s, braced(keys[0]), vals[0]))
    }
}

/// From name `j` on, in order, the standalone occurrences of each name of
/// length `len` replaced by its value.
pub open spec fn index_pass(keys: Seq<Seq<char>>, vals: Seq<Seq<char>>, len: nat, j: int, s: Seq<char>) -> Seq<char>
    decreases keys.len() - j,
{
    if j < 0 || j >= keys.len() || j >= vals.len() {
        s
    } else {
        index_pass(
            keys,
            vals,
            len,
            j + 1,
            if keys[j].len() == len {
                word_replace(s, keys[j], vals[j])
            } else {
                s
            },
        )
    }
}

/// The standalone-name replacement for all names of length `len` down to
/// one: longer names first, names of equal length in their order.
pub open spec fn desc_pass(keys: Seq<Seq<char>>, vals: Seq<Seq<char>>, len: nat, s: Seq<char>) -> Seq<char>
    decreases len,
{
    if len == 0 {
        s
    } else {
        desc_pass(keys, vals, (len - 1) as nat, index_pass(keys, vals, len, 0, s))
    }
}

/// The length of the longest name.
pub open spec fn max_len(keys: Seq<Seq<char>>) -> nat
    decreases keys.len(),
{
    if keys.len() == 0 {
        0
    } else {
        let m = max_len(keys.drop_last());
        if keys.last().len() > m {
            keys.last().len()
        } else {
            m
        }
    }
}

/// The names of a list of pairs.
pub open spec fn keys_of(ps: Seq<(Seq<char>, Seq<char>)>) -> Seq<Seq<char>> {
    ps.map_values(|p: (Seq<char>, Seq<char>)| p.0)
}

/// An expression with its variables replaced by the given renderings:
/// first every `{name}`, then every standalone name, longest names first.
/// Names are taken in the order the variables were first set; an empty
/// name is never replaced as a standalone word.
pub open spec fn substitution(ps: Seq<(Seq<char>, Seq<char>)>, vals: Seq<Seq<char>>, expr: Seq<char>) -> Seq<char> {
    let keys = keys_of(ps);
    desc_pass(keys, vals, max_len(keys), braced_pass(keys, vals, expr))
}

impl Variables {
    /// The text of `expr` with each variable replaced by its rendering
    /// `rendered[i]` (given in the order of `pairs`): braced `{name}`
    /// forms first, then names standing alone, the longest names first.
    pub fn substitute(&self, expr: &str, rendered: &Vec<String>) -> (r: String)
        requires
            rendered@.len() == self.pairs().len(),
        ensures
            r@ == substitution(self.pairs(), rendered@.map_values(|s: String| s@), expr@),
    {
        let ghost keys = keys_of(self.pairs());
        let ghost vals = rendered@.map_values(|s: String| s@);
        let n = self.map.len();
        let mut cur = chars_of(expr);
        let mut i: usize = 0;
        assert(keys.skip(0) =~= keys);
        assert(vals.skip(0) =~= vals);
        while i < n
            invariant
                i <= n == self.pairs().len() == keys.len() == vals.len(),
                keys == keys_of(self.pairs()),
                vals == rendered@.map_values(|s: String| s@),
                braced_pass(keys, vals, expr@) == braced_pass(keys.skip(i as int), vals.skip(i as int), cur@),
            decreases n - i,
        {
            let (k, _) = self.map.entry(i);
            assert(keys[i as int] == k@);
            assert(vals[i as int] == rendered@[i as int]@);
            let mut pat: Vec<char> = Vec::new();
            pat.push('{');
            let kc = chars_of(k.as_str());
            crate::text::push_all(&mut pat, kc.as_slice());
            pat.push('}');
            assert(pat@ =~= braced(k@));
            let val = chars_of(rendered[i].as_str());
            cur = replace_chars(cur.as_slice(), pat.as_slice(), val.as_slice());
            assert(keys.skip(i as int).drop_first() =~= keys.skip(i + 1));
            assert(vals.skip(i as int).drop_first() =~= vals.skip(i + 1));
            i = i + 1;
        }
        assert(braced_pass(keys.skip(n as int), vals.skip(n as int), cur@) == cur@);
        let mut maxl: usize = 0;
        let mut j: usize = 0;
        assert(keys.take(0) =~= Seq::<Seq<char>>::empty());
        while j < n
            invariant
                j <= n == keys.len(),
                keys == keys_of(self.pairs()),
                maxl == max_len(keys.take(j as int)),
            decreases n - j,
        {
            let (k, _) = self.map.entry(j);
            let kl = crate::text::chars_of(k.as_str()).len();
            assert(keys.take(j + 1).drop_last() =~= keys.take(j as int));
            assert(keys.take(j + 1).last() == k@);
            if kl > maxl {
                maxl = kl;
            }
            j = j + 1;
        }
        assert(keys.take(n as int) =~= keys);
        let mut len = maxl;
        while len > 0
            invariant
                n == keys.len() == vals.len() == self.pairs().len(),
                keys == keys_of(self.pairs()),
                vals == rendered@.map_values(|s: String| s@),
                desc_pass(keys, vals, max_len(keys), braced_pass(keys, vals, expr@)) == desc_pass(
                    keys,
                    vals,
                    len as nat,
                    cur@,
                ),
            decreases len,
        {
            let mut q: usize = 0;
            while q < n
                invariant
                    q <= n == keys.len() == vals.len() == self.pairs().len(),
                    len > 0,
                    keys == keys_of(self.pairs()),
                    vals == rendered@.map_values(|s: String| s@),
                    desc_pass(keys, vals, max_len(keys), braced_pass(keys, vals, expr@)) == desc_pass(
                        keys,
                        vals,
                        (len - 1) as nat,
                        index_pass(keys, vals, len as nat, q as int, cur@),
                    ),
                decreases n - q,
            {
                let (k, _) = self.map.entry(q);
                assert(keys[q as int] == k@);
                assert(vals[q as int] == rendered@[q as int]@);
                let kc = chars_of(k.as_str());
                if kc.len() == len {
                    let val = chars_of(rendered[q].as_str());
                    cur = word_replace_chars(cur.as_slice(), kc.as_slice(), val.as_slice());
                }
                q = q + 1;
            }
            len = len - 1;
        }
        string_of(cur.as_slice())
    }
}

} // verus!
