//! A table of namespace bindings from prefix to URI, kept in the order of the prefixes.

use vstd::prelude::*;

verus! {

/// Whether `a` comes strictly before `b` in the lexicographic order of characters (the order
/// of Rust strings: a proper prefix comes first).
pub open spec fn seq_less(a: Seq<char>, b: Seq<char>) -> bool
    decreases a.len(),
{
    if a.len() == 0 {
        b.len() > 0
    } else if b.len() == 0 {
        false
    } else if a[0] != b[0] {
        a[0] < b[0]
    } else {
        seq_less(a.drop_first(), b.drop_first())
    }
}

/// The order is irreflexive.
pub proof fn lemma_seq_less_irreflexive(a: Seq<char>)
    ensures
        !seq_less(a, a),
    decreases a.len(),
{
    if a.len() > 0 {
        lemma_seq_less_irreflexive(a.drop_first());
    }
}

/// Two different sequences are ordered one way or the other.
pub proof fn lemma_seq_less_total(a: Seq<char>, b: Seq<char>)
    ensures
        a == b || seq_less(a, b) || seq_less(b, a),
    decreases a.len(),
{
    if a.len() > 0 && b.len() > 0 && a[0] == b[0] {
        lemma_seq_less_total(a.drop_first(), b.drop_first());
        if a.drop_first() == b.drop_first() {
            assert(a =~= seq![a[0]] + a.drop_first());
            assert(b =~= seq![b[0]] + b.drop_first());
        }
    } else if a.len() == 0 && b.len() == 0 {
        assert(a =~= b);
    }
}

/// The order is transitive.
pub proof fn lemma_seq_less_transitive(a: Seq<char>, b: Seq<char>, c: Seq<char>)
    requires
        seq_less(a, b),
        seq_less(b, c),
    ensures
        seq_less(a, c),
    decreases a.len(),
{
    if a.len() > 0 && b.len() > 0 && c.len() > 0 && a[0] == b[0] && b[0] == c[0] {
        lemma_seq_less_transitive(a.drop_first(), b.drop_first(), c.drop_first());
    }
}

/// Compares two strings in the order of Rust strings.
pub fn str_less(a: &str, b: &str) -> (r: bool)
    ensures
        r == seq_less(a@, b@),
{
    let la = a.unicode_len();
    let lb = b.unicode_len();
    let mut i: usize = 0;
    assert(a@.skip(0) =~= a@);
    assert(b@.skip(0) =~= b@);
    while i < la && i < lb
        invariant
            la == a@.len(),
            lb == b@.len(),
            i <= la,
            i <= lb,
            seq_less(a@, b@) == seq_less(a@.skip(i as int), b@.skip(i as int)),
        decreases la - i,
    {
        let ca = a.get_char(i);
        let cb = b.get_char(i);
        if ca != cb {
            return ca < cb;
        }
        assert(a@.skip(i as int).drop_first() =~= a@.skip(i + 1));
        assert(b@.skip(i as int).drop_first() =~= b@.skip(i + 1));
        i = i + 1;
    }
    assert(i == la ==> a@.skip(i as int).len() == 0);
    assert(i == lb ==> b@.skip(i as int).len() == 0);
    i == la && i < lb
}

/// Whether the prefixes of `s` are in strictly increasing order.
pub open spec fn sorted_prefixes(s: Seq<(Seq<char>, Seq<char>)>) -> bool {
    forall|i: int, j: int| 0 <= i < j < s.len() ==> seq_less(#[trigger] s[i].0, #[trigger] s[j].0)
}

/// Whether some binding of `s` has the prefix `p`.
pub open spec fn binds(s: Seq<(Seq<char>, Seq<char>)>, p: Seq<char>) -> bool {
    exists|i: int| 0 <= i < s.len() && #[trigger] s[i].0 == p
}

/// The URI that `s` binds `p` to (meaningful when `binds(s, p)`).
pub open spec fn uri_of(s: Seq<(Seq<char>, Seq<char>)>, p: Seq<char>) -> Seq<char> {
    s[prefix_index(s, p)].1
}

/// The place of a binding of `p` in `s` (meaningful when `binds(s, p)`).
pub open spec fn prefix_index(s: Seq<(Seq<char>, Seq<char>)>, p: Seq<char>) -> int {
    choose|i: int| 0 <= i < s.len() && #[trigger] s[i].0 == p
}

/// In a table with sorted prefixes, a prefix occurs at one place only.
pub proof fn lemma_prefix_unique(s: Seq<(Seq<char>, Seq<char>)>, i: int, j: int)
    requires
        sorted_prefixes(s),
        0 <= i < s.len(),
        0 <= j < s.len(),
        s[i].0 == s[j].0,
    ensures
        i == j,
{
    if i != j {
        lemma_seq_less_irreflexive(s[i].0);
    }
}

/// In a table with sorted prefixes, the URI of the prefix found at `i` is the one at `i`.
pub proof fn lemma_uri_at(s: Seq<(Seq<char>, Seq<char>)>, i: int)
    requires
        sorted_prefixes(s),
        0 <= i < s.len(),
    ensures
        binds(s, s[i].0),
        uri_of(s, s[i].0) == s[i].1,
{
    let p = s[i].0;
    assert(0 <= i < s.len() && s[i].0 == p);
    assert(binds(s, p));
    let j = prefix_index(s, p);
    lemma_prefix_unique(s, i, j);
}

/// Prefix-to-URI bindings, each prefix at most once, in increasing order of prefix.
pub struct Namespaces {
    entries: Vec<(String, String)>,
}

impl Namespaces {
    /// The prefixes and URIs, in order.
    pub closed spec fn entries_view(&self) -> Seq<(Seq<char>, Seq<char>)> {
        self.entries@.map_values(|e: (String, String)| (e.0@, e.1@))
    }

    /// Prefixes are in strictly increasing order.
    pub closed spec fn wf(&self) -> bool {
        sorted_prefixes(self.entries_view())
    }

    /// Whether `p` is bound.
    pub open spec fn binds(&self, p: Seq<char>) -> bool {
        binds(self.entries_view(), p)
    }

    /// The URI `p` is bound to.
    pub open spec fn uri_of(&self, p: Seq<char>) -> Seq<char> {
        uri_of(self.entries_view(), p)
    }

    /// The bindings as a map from prefix to URI.
    pub open spec fn as_map(&self) -> Map<Seq<char>, Seq<char>> {
        Map::new(|q: Seq<char>| self.binds(q), |q: Seq<char>| self.uri_of(q))
    }

    /// An empty table.
    pub fn new() -> (r: Self)
        ensures
            r.wf(),
            r.entries_view().len() == 0,
            r.as_map() == Map::<Seq<char>, Seq<char>>::empty(),
    {
        let r = Namespaces { entries: Vec::new() };
        assert(r.entries_view() =~= Seq::<(Seq<char>, Seq<char>)>::empty());
        assert(r.as_map() =~= Map::<Seq<char>, Seq<char>>::empty());
        r
    }

    /// The bindings, in increasing order of prefix.
    pub fn entries(&self) -> (r: &Vec<(String, String)>)
        ensures
            r@.map_values(|e: (String, String)| (e.0@, e.1@)) == self.entries_view(),
    {
        &self.entries
    }

    /// Binds `prefix` to `uri`, replacing a binding of `prefix` if there is one.
    pub fn insert(&mut self, prefix: String, uri: String)
        requires
            old(self).wf(),
        ensures
            final(self).wf(),
            forall|q: Seq<char>| #[trigger] final(self).binds(q) == (q == prefix@ || old(self).binds(q)),
            final(self).uri_of(prefix@) == uri@,
            forall|q: Seq<char>| q != prefix@ && old(self).binds(q) ==> #[trigger] final(self).uri_of(q) == old(self).uri_of(q),
            final(self).as_map() == old(self).as_map().insert(prefix@, uri@),
    {
        self.insert_entry(prefix, uri);
        assert(self.as_map() =~= old(self).as_map().insert(prefix@, uri@));
    }

    fn insert_entry(&mut self, prefix: String, uri: String)
        requires
            old(self).wf(),
        ensures
            final(self).wf(),
            forall|q: Seq<char>| #[trigger] final(self).binds(q) == (q == prefix@ || old(self).binds(q)),
            final(self).uri_of(prefix@) == uri@,
            forall|q: Seq<char>| q != prefix@ && old(self).binds(q) ==> #[trigger] final(self).uri_of(q) == old(self).uri_of(q),
    {
        let n = self.entries.len();
        let mut i: usize = 0;
        while i < n && str_less(self.entries[i].0.as_str(), prefix.as_str())
            invariant
                n == self.entries@.len(),
                self.wf(),
                *self == *old(self),
                i <= n,
                forall|k: int| 0 <= k < i ==> seq_less(#[trigger] self.entries_view()[k].0, prefix@),
            decreases n - i,
        {
            i = i + 1;
        }
        let ghost before = self.entries_view();
        let ghost entry = (prefix@, uri@);
        if i < n && self.entries[i].0 == prefix {
            self.entries.set(i, (prefix, uri));
            proof {
                let after = self.entries_view();
                assert(after =~= before.update(i as int, entry));
                assert(before[i as int].0 == entry.0);
                assert forall|a: int| 0 <= a < after.len() implies #[trigger] after[a].0 == before[a].0 by {}
                assert forall|a: int, b: int| 0 <= a < b < after.len() implies seq_less(#[trigger] after[a].0, #[trigger] after[b].0) by {
                    assert(after[a].0 == before[a].0);
                    assert(after[b].0 == before[b].0);
                }
                assert(sorted_prefixes(after));
                lemma_uri_at(after, i as int);
                assert forall|q: Seq<char>| #[trigger] binds(after, q) == (q == entry.0 || binds(before, q)) by {
                    if binds(before, q) {
                        let k = choose|k: int| 0 <= k < before.len() && #[trigger] before[k].0 == q;
                        assert(after[k].0 == q);
                    }
                    if binds(after, q) {
                        let k = choose|k: int| 0 <= k < after.len() && #[trigger] after[k].0 == q;
                        assert(before[k].0 == q);
                    }
                }
                assert forall|q: Seq<char>| q != entry.0 && binds(before, q) implies #[trigger] uri_of(after, q) == uri_of(before, q) by {
                    let k = choose|k: int| 0 <= k < before.len() && #[trigger] before[k].0 == q;
                    lemma_uri_at(before, k);
                    assert(after[k] == before[k]);
                    lemma_uri_at(after, k);
                }
            }
        } else {
            self.entries.insert(i, (prefix, uri));
            proof {
                let after = self.entries_view();
                assert(after =~= before.insert(i as int, entry));
                if i < n {
                    lemma_seq_less_total(before[i as int].0, entry.0);
                }
                assert forall|k: int| i <= k < n implies seq_less(entry.0, #[trigger] before[k].0) by {
                    if k > i {
                        lemma_seq_less_transitive(entry.0, before[i as int].0, before[k].0);
                    }
                }
                assert forall|a: int, b: int| 0 <= a < b < after.len() implies seq_less(#[trigger] after[a].0, #[trigger] after[b].0) by {
                    if b < i {
                    } else if a < i && b == i {
                    } else if a < i && b > i {
                        assert(seq_less(before[a].0, entry.0));
                        assert(seq_less(entry.0, before[b - 1].0));
                        lemma_seq_less_transitive(after[a].0, entry.0, after[b].0);
                    } else if a == i {
                        assert(seq_less(entry.0, before[b - 1].0));
                    } else {
                        assert(seq_less(before[a - 1].0, before[b - 1].0));
                    }
                }
                assert(sorted_prefixes(after));
                lemma_uri_at(after, i as int);
                assert forall|q: Seq<char>| #[trigger] binds(after, q) == (q == entry.0 || binds(before, q)) by {
                    if binds(before, q) {
                        let k = choose|k: int| 0 <= k < before.len() && #[trigger] before[k].0 == q;
                        if k < i {
                            assert(after[k].0 == q);
                        } else {
                            assert(after[k + 1].0 == q);
                        }
                    }
                    if binds(after, q) && q != entry.0 {
                        let k = choose|k: int| 0 <= k < after.len() && #[trigger] after[k].0 == q;
                        if k < i {
                            assert(before[k].0 == q);
                        } else {
                            assert(before[k - 1].0 == q);
                        }
                    }
                }
                assert forall|q: Seq<char>| q != entry.0 && binds(before, q) implies #[trigger] uri_of(after, q) == uri_of(before, q) by {
                    let k = choose|k: int| 0 <= k < before.len() && #[trigger] before[k].0 == q;
                    lemma_uri_at(before, k);
                    if k < i {
                        lemma_uri_at(after, k);
                    } else {
                        lemma_uri_at(after, k + 1);
                    }
                }
            }
        }
    }

    /// The URI bound to `prefix`, if any.
    pub fn get(&self, prefix: &str) -> (r: Option<&String>)
        requires
            self.wf(),
        ensures
            r is Some <==> self.binds(prefix@),
            r matches Some(u) ==> u@ == self.uri_of(prefix@),
            r is Some <==> self.as_map().contains_key(prefix@),
            r matches Some(u) ==> u@ == self.as_map()[prefix@],
    {
        let n = self.entries.len();
        let wanted = String::from_str(prefix);
        let mut i: usize = 0;
        while i < n
            invariant
                n == self.entries@.len(),
                self.wf(),
                wanted@ == prefix@,
                i <= n,
                forall|k: int| 0 <= k < i ==> #[trigger] self.entries_view()[k].0 != prefix@,
            decreases n - i,
        {
            if self.entries[i].0 == wanted {
                proof {
                    lemma_uri_at(self.entries_view(), i as int);
                }
                return Some(&self.entries[i].1);
            }
            i = i + 1;
        }
        None
    }
}

/// A table holds each prefix at most once, in increasing order; after a binding of `p` to `u`
/// is inserted, `p` is bound to `u` and every other prefix keeps what it was bound to.
pub proof fn law_namespace_insert_then_get(
    before: Namespaces,
    after: Namespaces,
    p: Seq<char>,
    u: Seq<char>,
    q: Seq<char>,
)
    requires
        before.wf(),
        after.wf(),
        after.as_map() == before.as_map().insert(p, u),
    ensures
        sorted_prefixes(after.entries_view()),
        after.as_map().contains_key(p),
        after.as_map()[p] == u,
        q != p ==> after.as_map().contains_key(q) == before.as_map().contains_key(q),
        q != p && before.as_map().contains_key(q) ==> after.as_map()[q] == before.as_map()[q],
{
}

} // verus!
