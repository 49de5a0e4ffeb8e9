//! The per-module registry: alias -> (local name -> final class string), and
//! the lookup of `styleName` tokens in it.
use vstd::prelude::*;
use vstd::string::StrSliceExecFns;
use crate::text::{join_spaced, join_with_spaces, same_text, split_words, views, words};

verus! {

/// A table of one stylesheet: local class name, final class string.
pub type StyleTable = Vec<(String, String)>;

pub open spec fn table_view(t: Seq<(String, String)>) -> Seq<(Seq<char>, Seq<char>)> {
    t.map_values(|p: (String, String)| (p.0@, p.1@))
}

pub open spec fn registry_view(r: Seq<(String, StyleTable)>) -> Seq<(Seq<char>, Seq<(Seq<char>, Seq<char>)>)> {
    r.map_values(|p: (String, StyleTable)| (p.0@, table_view(p.1@)))
}

/// The value of the first pair of `s` whose key is `key`.
pub open spec fn first_match<V>(s: Seq<(Seq<char>, V)>, key: Seq<char>) -> Option<V>
    decreases s.len(),
{
    if s.len() == 0 {
        None
    } else if s[0].0 == key {
        Some(s[0].1)
    } else {
        first_match(s.drop_first(), key)
    }
}

/// The first table, in registration order, that holds `name`.
pub open spec fn scan_tables(reg: Seq<(Seq<char>, Seq<(Seq<char>, Seq<char>)>)>, name: Seq<char>) -> Option<Seq<char>>
    decreases reg.len(),
{
    if reg.len() == 0 {
        None
    } else {
        match first_match(reg[0].1, name) {
            Some(v) => Some(v),
            None => scan_tables(reg.drop_first(), name),
        }
    }
}

/// `alias.name`: the name looked up in that alias's table alone.
pub open spec fn lookup_qualified(
    reg: Seq<(Seq<char>, Seq<(Seq<char>, Seq<char>)>)>,
    alias: Seq<char>,
    name: Seq<char>,
) -> Option<Seq<char>> {
    match first_match(reg, alias) {
        Some(t) => first_match(t, name),
        None => None,
    }
}

/// A bare name: the anonymous alias first, then every alias in registration order.
pub open spec fn lookup_unqualified(reg: Seq<(Seq<char>, Seq<(Seq<char>, Seq<char>)>)>, name: Seq<char>) -> Option<Seq<char>> {
    match lookup_qualified(reg, seq![], name) {
        Some(v) => Some(v),
        None => scan_tables(reg, name),
    }
}

pub open spec fn dot_count(s: Seq<char>) -> nat
    decreases s.len(),
{
    if s.len() == 0 {
        0
    } else {
        (if s[0] == '.' { 1nat } else { 0nat }) + dot_count(s.drop_first())
    }
}

pub open spec fn first_dot(s: Seq<char>) -> nat
    decreases s.len(),
{
    if s.len() == 0 || s[0] == '.' {
        0
    } else {
        1 + first_dot(s.drop_first())
    }
}

/// What a `styleName` token resolves to: no separator is a bare name, one
/// separator is `alias.name`, more than one never resolves.
pub open spec fn resolve(reg: Seq<(Seq<char>, Seq<(Seq<char>, Seq<char>)>)>, token: Seq<char>) -> Option<Seq<char>> {
    let d = dot_count(token);
    if d == 0 {
        lookup_unqualified(reg, token)
    } else if d == 1 {
        let k = first_dot(token) as int;
        lookup_qualified(reg, token.take(k), token.skip(k + 1))
    } else {
        None
    }
}

pub open spec fn resolve_or_empty(reg: Seq<(Seq<char>, Seq<(Seq<char>, Seq<char>)>)>, token: Seq<char>) -> Seq<char> {
    match resolve(reg, token) {
        Some(v) => v,
        None => seq![],
    }
}

pub open spec fn resolve_all(reg: Seq<(Seq<char>, Seq<(Seq<char>, Seq<char>)>)>, tokens: Seq<Seq<char>>) -> Seq<Seq<char>> {
    tokens.map_values(|t: Seq<char>| resolve_or_empty(reg, t))
}

/// The tokens that do not resolve, in order.
pub open spec fn unresolved(reg: Seq<(Seq<char>, Seq<(Seq<char>, Seq<char>)>)>, tokens: Seq<Seq<char>>) -> Seq<Seq<char>>
    decreases tokens.len(),
{
    if tokens.len() == 0 {
        seq![]
    } else {
        unresolved(reg, tokens.drop_last()) + if resolve(reg, tokens.last()) is None {
            seq![tokens.last()]
        } else {
            seq![]
        }
    }
}

/// The class string for a static `styleName` value: each token resolved (an
/// unresolved one as the empty string), joined with single spaces.
pub open spec fn static_classes(reg: Seq<(Seq<char>, Seq<(Seq<char>, Seq<char>)>)>, value: Seq<char>) -> Seq<char> {
    join_spaced(resolve_all(reg, words(value)))
}

pub open spec fn distinct_keys<V>(s: Seq<(Seq<char>, V)>) -> bool {
    forall|i: int, j: int| 0 <= i < j < s.len() ==> s[i].0 != s[j].0
}

/// `after` is `before` with entry `e` registered: an entry under the same
/// alias is replaced where it stands, else `e` goes last.
pub open spec fn inserted<V>(before: Seq<(Seq<char>, V)>, e: (Seq<char>, V), after: Seq<(Seq<char>, V)>) -> bool {
    (exists|i: int| 0 <= i < before.len() && before[i].0 == e.0 && after == before.update(i, e))
        || ((forall|i: int| 0 <= i < before.len() ==> before[i].0 != e.0) && after == before.push(e))
}

pub struct StyleMapRegistry {
    entries: Vec<(String, StyleTable)>,
}

impl View for StyleMapRegistry {
    type V = Seq<(Seq<char>, Seq<(Seq<char>, Seq<char>)>)>;

    closed spec fn view(&self) -> Self::V {
        registry_view(self.entries@)
    }
}

/// Index of the first pair keyed `key`, if any.
fn position_of<V>(s: &Vec<(String, V)>, key: &str) -> (r: Option<usize>)
    ensures
        match r {
            Some(i) => i < s@.len() && s@[i as int].0@ == key@ && forall|k: int|
                0 <= k < i ==> s@[k].0@ != key@,
            None => forall|k: int| 0 <= k < s@.len() ==> s@[k].0@ != key@,
        },
{
    let mut i: usize = 0;
    while i < s.len()
        invariant
            i <= s@.len(),
            forall|k: int| 0 <= k < i ==> s@[k].0@ != key@,
        decreases s@.len() - i,
    {
        if same_text(s[i].0.as_str(), key) {
            return Some(i);
        }
        i = i + 1;
    }
    None
}

proof fn lemma_first_match<V>(s: Seq<(Seq<char>, V)>, key: Seq<char>, i: int)
    requires
        0 <= i <= s.len(),
        forall|k: int| 0 <= k < i ==> s[k].0 != key,
    ensures
        first_match(s, key) == first_match(s.skip(i), key),
    decreases i,
{
    if i > 0 {
        assert(s.drop_first().skip(i - 1) =~= s.skip(i));
        lemma_first_match(s.drop_first(), key, i - 1);
    } else {
        assert(s.skip(0) =~= s);
    }
}

proof fn lemma_first_match_at<V>(s: Seq<(Seq<char>, V)>, key: Seq<char>, i: int)
    requires
        0 <= i < s.len(),
        forall|k: int| 0 <= k < i ==> s[k].0 != key,
        s[i].0 == key,
    ensures
        first_match(s, key) == Some(s[i].1),
{
    lemma_first_match(s, key, i);
    assert(s.skip(i)[0] == s[i]);
}

proof fn lemma_first_match_none<V>(s: Seq<(Seq<char>, V)>, key: Seq<char>)
    requires
        forall|k: int| 0 <= k < s.len() ==> s[k].0 != key,
    ensures
        first_match(s, key) is None,
{
    lemma_first_match(s, key, s.len() as int);
}

/// The value for `key` in `t`.
fn table_get(t: &StyleTable, key: &str) -> (r: Option<String>)
    ensures
        r matches Some(v) ==> first_match(table_view(t@), key@) == Some(v@),
        r is None ==> first_match(table_view(t@), key@) is None,
{
    proof {
        assert forall|k: int| 0 <= k < t@.len() implies #[trigger] table_view(t@)[k].0 == t@[k].0@ by {}
    }
    match position_of(t, key) {
        Some(i) => {
            proof {
                lemma_first_match_at(table_view(t@), key@, i as int);
            }
            Some(t[i].1.clone())
        },
        None => {
            proof {
                lemma_first_match_none(table_view(t@), key@);
            }
            None
        },
    }
}

impl StyleMapRegistry {
    /// Aliases are distinct, and so are the local names of each table.
    pub open spec fn wf(&self) -> bool {
        &&& distinct_keys(self@)
        &&& forall|i: int| 0 <= i < self@.len() ==> distinct_keys(#[trigger] self@[i].1)
    }

    pub fn new() -> (r: Self)
        ensures
            r@ == Seq::<(Seq<char>, Seq<(Seq<char>, Seq<char>)>)>::empty(),
            r.wf(),
    {
        let r = StyleMapRegistry { entries: Vec::new() };
        assert(r@ =~= Seq::<(Seq<char>, Seq<(Seq<char>, Seq<char>)>)>::empty());
        r
    }

    /// The entries, alias and table, in registration order.
    pub fn entries(&self) -> (r: &Vec<(String, StyleTable)>)
        ensures
            registry_view(r@) == self@,
    {
        &self.entries
    }

    /// Registers `table` under `alias`; a table already under that alias is
    /// replaced in place, wholesale.
    pub fn insert(&mut self, alias: String, table: StyleTable)
        requires
            old(self).wf(),
            distinct_keys(table_view(table@)),
        ensures
            final(self).wf(),
            inserted(old(self)@, (alias@, table_view(table@)), final(self)@),
            first_match(final(self)@, alias@) == Some(table_view(table@)),
    {
        let ghost e = (alias@, table_view(table@));
        proof {
            assert forall|k: int| 0 <= k < self.entries@.len() implies #[trigger] self@[k].0
                == self.entries@[k].0@ by {}
        }
        match position_of(&self.entries, alias.as_str()) {
            Some(i) => {
                let ghost old_v = self@;
                self.entries.set(i, (alias, table));
                assert(self@ =~= old_v.update(i as int, e));
                assert(forall|k: int| 0 <= k < old_v.len() ==> #[trigger] self@[k].0 == old_v[k].0);
                assert(forall|k: int| 0 <= k < old_v.len() && k != i ==> #[trigger] self@[k] == old_v[k]);
                assert(self@[i as int] == e);
                proof {
                    lemma_first_match_at(self@, e.0, i as int);
                }
            },
            None => {
                let ghost old_v = self@;
                self.entries.push((alias, table));
                assert(self@ =~= old_v.push(e));
                assert(forall|k: int| 0 <= k < old_v.len() ==> #[trigger] self@[k].0 == old_v[k].0);
                assert(forall|k: int| 0 <= k < old_v.len() ==> #[trigger] self@[k] == old_v[k]);
                assert(self@[old_v.len() as int] == e);
                proof {
                    lemma_first_match_at(self@, e.0, old_v.len() as int);
                }
            },
        }
    }
}


/// Number of separators in `s` and the index of the first one (`s`'s length when there is none).
fn dots(s: &str) -> (r: (usize, usize))
    ensures
        r.0 == dot_count(s@),
        r.1 == first_dot(s@),
        r.1 <= s@.len(),
        r.1 < s@.len() <==> r.0 > 0,
{
    let n = s.unicode_len();
    let mut count: usize = 0;
    let mut first: usize = n;
    let mut i: usize = 0;
    assert(s@.skip(0) =~= s@);
    while i < n
        invariant
            n == s@.len(),
            i <= n,
            count <= i,
            first <= n,
            dot_count(s@) == count + dot_count(s@.skip(i as int)),
            first == n ==> count == 0 && first_dot(s@) == i + first_dot(s@.skip(i as int)),
            first < n ==> count > 0 && first_dot(s@) == first && first < i,
        decreases n - i,
    {
        let ghost rest = s@.skip(i as int);
        assert(rest.drop_first() =~= s@.skip(i + 1));
        assert(rest[0] == s@[i as int]);
        if s.get_char(i) == '.' {
            if first == n {
                assert(first_dot(rest) == 0);
                first = i;
            }
            count = count + 1;
        } else {
            assert(first_dot(rest) == 1 + first_dot(s@.skip(i + 1)));
        }
        i = i + 1;
    }
    assert(s@.skip(n as int).len() == 0);
    assert(first_dot(s@.skip(n as int)) == 0);
    assert(dot_count(s@.skip(n as int)) == 0);
    (count, first)
}

impl StyleMapRegistry {
    proof fn lemma_entry_views(&self)
        ensures
            self@.len() == self.entries@.len(),
            forall|k: int|
                0 <= k < self.entries@.len() ==> #[trigger] self@[k] == (
                self.entries@[k].0@,
                table_view(self.entries@[k].1@),
            ),
    {
    }

    /// The table registered under `alias`, looked up in it for `name`.
    fn get_qualified(&self, alias: &str, name: &str) -> (r: Option<String>)
        ensures
            r matches Some(v) ==> lookup_qualified(self@, alias@, name@) == Some(v@),
            r is None ==> lookup_qualified(self@, alias@, name@) is None,
    {
        proof {
            self.lemma_entry_views();
        }
        match position_of(&self.entries, alias) {
            Some(i) => {
                proof {
                    lemma_first_match_at(self@, alias@, i as int);
                }
                table_get(&self.entries[i].1, name)
            },
            None => {
                proof {
                    lemma_first_match_none(self@, alias@);
                }
                None
            },
        }
    }

    /// The first table, in registration order, holding `name`.
    fn scan(&self, name: &str) -> (r: Option<String>)
        ensures
            r matches Some(v) ==> scan_tables(self@, name@) == Some(v@),
            r is None ==> scan_tables(self@, name@) is None,
    {
        proof {
            self.lemma_entry_views();
            assert(self@.skip(0) =~= self@);
        }
        let mut i: usize = 0;
        while i < self.entries.len()
            invariant
                i <= self@.len(),
                self@.len() == self.entries@.len(),
                scan_tables(self@, name@) == scan_tables(self@.skip(i as int), name@),
            decreases self@.len() - i,
        {
            let ghost rest = self@.skip(i as int);
            assert(rest.drop_first() =~= self@.skip(i + 1));
            assert(rest[0] == self@[i as int]);
            match table_get(&self.entries[i].1, name) {
                Some(v) => {
                    return Some(v);
                },
                None => {},
            }
            i = i + 1;
        }
        None
    }

    /// What `token` resolves to in this registry.
    pub fn resolve_token(&self, token: &str) -> (r: Option<String>)
        ensures
            r matches Some(v) ==> resolve(self@, token@) == Some(v@),
            r is None ==> resolve(self@, token@) is None,
    {
        let (count, first) = dots(token);
        if count == 0 {
            proof {
                reveal_strlit("");
                assert(""@ =~= Seq::<char>::empty());
            }
            match self.get_qualified("", token) {
                Some(v) => Some(v),
                None => self.scan(token),
            }
        } else if count == 1 {
            let n = token.unicode_len();
            let alias = token.substring_char(0, first);
            let name = token.substring_char(first + 1, n);
            assert(alias@ =~= token@.take(first as int));
            assert(name@ =~= token@.skip(first + 1));
            self.get_qualified(alias, name)
        } else {
            None
        }
    }

    /// The class string for a static `styleName` value, and the tokens of it
    /// that did not resolve.
    pub fn resolve_style_names(&self, value: &str) -> (r: (String, Vec<String>))
        ensures
            r.0@ == static_classes(self@, value@),
            views(r.1@) == unresolved(self@, words(value@)),
    {
        let tokens = split_words(value);
        let mut parts: Vec<String> = Vec::new();
        let mut missing: Vec<String> = Vec::new();
        let ghost toks = views(tokens@);
        let mut i: usize = 0;
        while i < tokens.len()
            invariant
                i <= tokens@.len(),
                toks == views(tokens@),
                views(parts@) == resolve_all(self@, toks.take(i as int)),
                views(missing@) == unresolved(self@, toks.take(i as int)),
            decreases tokens@.len() - i,
        {
            let ghost t = tokens@[i as int]@;
            assert(toks.take(i + 1).drop_last() =~= toks.take(i as int));
            assert(toks.take(i + 1).last() == t);
            let ghost before = views(parts@);
            match self.resolve_token(tokens[i].as_str()) {
                Some(v) => {
                    assert(resolve_or_empty(self@, t) == v@);
                    parts.push(v);
                    assert(views(parts@) =~= before.push(resolve_or_empty(self@, t)));
                    assert(unresolved(self@, toks.take(i + 1)) == unresolved(self@, toks.take(i as int))
                        + Seq::<Seq<char>>::empty());
                },
                None => {
                    assert(resolve_or_empty(self@, t) == Seq::<char>::empty());
                    parts.push(String::new());
                    assert(views(parts@) =~= before.push(resolve_or_empty(self@, t)));
                    let w = tokens[i].clone();
                    missing.push(w);
                },
            }
            assert(views(parts@) =~= resolve_all(self@, toks.take(i + 1)));
            assert(views(missing@) =~= unresolved(self@, toks.take(i + 1)));
            i = i + 1;
        }
        assert(toks.take(toks.len() as int) =~= toks);
        (join_with_spaces(&parts), missing)
    }
}

proof fn lemma_dot_count_concat(a: Seq<char>, b: Seq<char>)
    ensures
        dot_count(a + b) == dot_count(a) + dot_count(b),
    decreases a.len(),
{
    if a.len() == 0 {
        assert(a + b =~= b);
    } else {
        assert((a + b).drop_first() =~= a.drop_first() + b);
        assert((a + b)[0] == a[0]);
        lemma_dot_count_concat(a.drop_first(), b);
    }
}

proof fn lemma_first_dot_after(a: Seq<char>, b: Seq<char>)
    requires
        dot_count(a) == 0,
        b.len() > 0 && b[0] == '.',
    ensures
        first_dot(a + b) == a.len(),
    decreases a.len(),
{
    if a.len() == 0 {
        assert(a + b =~= b);
    } else {
        assert((a + b).drop_first() =~= a.drop_first() + b);
        assert((a + b)[0] == a[0]);
        lemma_first_dot_after(a.drop_first(), b);
    }
}

/// A token `alias.name`, where neither part holds a separator, is looked up
/// in the table registered under `alias` and nowhere else.
pub proof fn lemma_qualified_token(
    reg: Seq<(Seq<char>, Seq<(Seq<char>, Seq<char>)>)>,
    alias: Seq<char>,
    name: Seq<char>,
)
    requires
        dot_count(alias) == 0,
        dot_count(name) == 0,
    ensures
        resolve(reg, alias + seq!['.'] + name) == lookup_qualified(reg, alias, name),
{
    let t = alias + seq!['.'] + name;
    assert(t =~= alias + (seq!['.'] + name));
    lemma_dot_count_concat(alias, seq!['.'] + name);
    lemma_dot_count_concat(seq!['.'], name);
    assert(dot_count(seq!['.']) == 1) by {
        let d = seq!['.'];
        assert(d[0] == '.');
        assert(d.drop_first().len() == 0);
        assert(dot_count(d.drop_first()) == 0);
    }
    lemma_first_dot_after(alias, seq!['.'] + name);
    assert(t.take(alias.len() as int) =~= alias);
    assert(t.skip(alias.len() as int + 1) =~= name);
}

/// A token without a separator is looked up in the anonymous table first,
/// then in each table in registration order, and the first hit wins.
pub proof fn lemma_unqualified_token(reg: Seq<(Seq<char>, Seq<(Seq<char>, Seq<char>)>)>, name: Seq<char>)
    requires
        dot_count(name) == 0,
    ensures
        resolve(reg, name) == match first_match(reg, seq![]) {
            Some(t) => match first_match(t, name) {
                Some(v) => Some(v),
                None => scan_tables(reg, name),
            },
            None => scan_tables(reg, name),
        },
{
}

/// A token with more than one separator never resolves.
pub proof fn lemma_many_separators(reg: Seq<(Seq<char>, Seq<(Seq<char>, Seq<char>)>)>, token: Seq<char>)
    requires
        dot_count(token) > 1,
    ensures
        resolve(reg, token) is None,
{
}

/// An unresolved token stands as the empty string in the class string, and
/// the tokens reported are exactly those that do not resolve.
pub proof fn lemma_unresolved_tokens(reg: Seq<(Seq<char>, Seq<(Seq<char>, Seq<char>)>)>, toks: Seq<Seq<char>>)
    ensures
        forall|i: int| 0 <= i < toks.len() && resolve(reg, toks[i]) is None ==> #[trigger] resolve_all(reg, toks)[i]
            == Seq::<char>::empty(),
        forall|t: Seq<char>|
            #[trigger] unresolved(reg, toks).contains(t) <==> exists|i: int|
                0 <= i < toks.len() && toks[i] == t && resolve(reg, t) is None,
    decreases toks.len(),
{
    if toks.len() > 0 {
        let init = toks.drop_last();
        lemma_unresolved_tokens(reg, init);
        assert forall|t: Seq<char>| #[trigger] unresolved(reg, toks).contains(t) <==> exists|i: int|
            0 <= i < toks.len() && toks[i] == t && resolve(reg, t) is None by {
            if unresolved(reg, toks).contains(t) {
                if unresolved(reg, init).contains(t) {
                    let i = choose|i: int| 0 <= i < init.len() && init[i] == t && resolve(reg, t) is None;
                    assert(toks[i] == t);
                } else {
                    let k = choose|k: int| 0 <= k < unresolved(reg, toks).len() && unresolved(reg, toks)[k] == t;
                    assert(toks[toks.len() - 1] == t);
                }
            }
            if exists|i: int| 0 <= i < toks.len() && toks[i] == t && resolve(reg, t) is None {
                let i = choose|i: int| 0 <= i < toks.len() && toks[i] == t && resolve(reg, t) is None;
                if i < toks.len() - 1 {
                    assert(init[i] == t);
                    let k = choose|k: int| 0 <= k < unresolved(reg, init).len() && unresolved(reg, init)[k] == t;
                    assert(unresolved(reg, toks)[k] == t);
                } else {
                    let u = unresolved(reg, init);
                    assert(unresolved(reg, toks) == u + seq![t]);
                    assert(unresolved(reg, toks)[u.len() as int] == t);
                }
            }
        }
    }
}

} // verus!
