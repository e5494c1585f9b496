//! Layered settings: pairs from the persistent key-value source overlaid by
//! prefixed process-environment pairs, every key ASCII-uppercased on insertion
//! so later lookups are case-insensitive. The environment always wins on a
//! key collision, and merging the same overlay twice changes nothing.

use vstd::prelude::*;

use crate::text::{str_eq, to_upper, upper_seq};

verus! {

/// The view of a list of owned string pairs.
pub open spec fn pairs_view(ps: Seq<(String, String)>) -> Seq<(Seq<char>, Seq<char>)> {
    ps.map_values(|p: (String, String)| (p.0@, p.1@))
}

/// The map described by a pair list whose keys are already normalized:
/// later pairs win.
pub open spec fn map_of_pairs(qs: Seq<(Seq<char>, Seq<char>)>) -> Map<Seq<char>, Seq<char>>
    decreases qs.len(),
{
    if qs.len() == 0 {
        Map::empty()
    } else {
        map_of_pairs(qs.drop_last()).insert(qs.last().0, qs.last().1)
    }
}

/// Overlays raw pairs onto a map, uppercasing each key: later pairs win.
pub open spec fn merged(
    m: Map<Seq<char>, Seq<char>>,
    qs: Seq<(Seq<char>, Seq<char>)>,
) -> Map<Seq<char>, Seq<char>>
    decreases qs.len(),
{
    if qs.len() == 0 {
        m
    } else {
        merged(m, qs.drop_last()).insert(upper_seq(qs.last().0), qs.last().1)
    }
}

/// Whether some pair of `qs` has `k` as its uppercased key.
pub open spec fn has_key(qs: Seq<(Seq<char>, Seq<char>)>, k: Seq<char>) -> bool {
    exists|i: int| 0 <= i < qs.len() && upper_seq(qs[i].0) == k
}

/// The value of the last pair of `qs` whose uppercased key is `k`.
pub open spec fn last_value(qs: Seq<(Seq<char>, Seq<char>)>, k: Seq<char>) -> Seq<char>
    decreases qs.len(),
{
    if qs.len() == 0 {
        Seq::empty()
    } else if upper_seq(qs.last().0) == k {
        qs.last().1
    } else {
        last_value(qs.drop_last(), k)
    }
}

/// A key of the process environment that belongs to this tool: it starts
/// with the reserved `MESS_` prefix.
pub open spec fn is_reserved_key(k: Seq<char>) -> bool {
    k.len() >= 5 && k[0] == 'M' && k[1] == 'E' && k[2] == 'S' && k[3] == 'S' && k[4] == '_'
}

/// The environment overlay: the pairs under the reserved prefix, in order,
/// with the prefix stripped.
pub open spec fn reserved_overlay(
    qs: Seq<(Seq<char>, Seq<char>)>,
) -> Seq<(Seq<char>, Seq<char>)>
    decreases qs.len(),
{
    if qs.len() == 0 {
        Seq::empty()
    } else if is_reserved_key(qs.last().0) {
        reserved_overlay(qs.drop_last()).push((qs.last().0.skip(5), qs.last().1))
    } else {
        reserved_overlay(qs.drop_last())
    }
}

/// The settings map an invocation runs with. Keys are stored uppercased;
/// later insertions shadow earlier ones.
pub struct Settings {
    pairs: Vec<(String, String)>,
}

impl View for Settings {
    type V = Map<Seq<char>, Seq<char>>;

    closed spec fn view(&self) -> Map<Seq<char>, Seq<char>> {
        map_of_pairs(pairs_view(self.pairs@))
    }
}

impl Settings {
    /// A settings map with no entries.
    pub fn empty() -> (r: Settings)
        ensures
            r@ == Map::<Seq<char>, Seq<char>>::empty(),
    {
        let r = Settings { pairs: Vec::new() };
        proof {
            assert(pairs_view(r.pairs@) =~= Seq::<(Seq<char>, Seq<char>)>::empty());
        }
        r
    }

    /// Inserts one entry, uppercasing the key; an existing entry under the
    /// same normalized key is shadowed.
    pub fn insert(&mut self, key: &str, value: String)
        ensures
            final(self)@ == old(self)@.insert(upper_seq(key@), value@),
    {
        let k = to_upper(key);
        let ghost qs = pairs_view(self.pairs@);
        let ghost p = (upper_seq(key@), value@);
        self.pairs.push((k, value));
        proof {
            assert(pairs_view(self.pairs@) =~= qs.push(p));
            assert(qs.push(p).drop_last() =~= qs);
            assert(qs.push(p).last() == p);
        }
    }

    /// Looks an entry up by its exact normalized key.
    pub fn get(&self, key: &str) -> (r: Option<String>)
        ensures
            match r {
                Some(v) => self@.contains_key(key@) && v@ == self@[key@],
                None => !self@.contains_key(key@),
            },
    {
        let ghost qs = pairs_view(self.pairs@);
        let mut j = self.pairs.len();
        while j > 0
            invariant
                j <= self.pairs.len(),
                qs == pairs_view(self.pairs@),
                forall|m: int| j <= m < qs.len() ==> qs[m].0 != key@,
            decreases j,
        {
            j -= 1;
            if str_eq(self.pairs[j].0.as_str(), key) {
                let v = self.pairs[j].1.clone();
                proof {
                    lemma_map_of_last_match(qs, key@, j as int);
                }
                return Some(v);
            }
        }
        proof {
            lemma_map_of_no_match(qs, key@);
        }
        None
    }

    /// Overlays a list of raw pairs, in order, uppercasing each key.
    pub fn insert_all(&mut self, ps: &Vec<(String, String)>)
        ensures
            final(self)@ == merged(old(self)@, pairs_view(ps@)),
    {
        let ghost qs = pairs_view(ps@);
        let mut i: usize = 0;
        while i < ps.len()
            invariant
                i <= ps.len(),
                qs == pairs_view(ps@),
                self@ == merged(old(self)@, qs.take(i as int)),
            decreases ps.len() - i,
        {
            let (k, v) = (&ps[i].0, &ps[i].1);
            self.insert(k.as_str(), v.clone());
            proof {
                assert(qs.take(i + 1 as int).drop_last() =~= qs.take(i as int));
                assert(qs.take(i + 1 as int).last() == qs[i as int]);
            }
            i += 1;
        }
        proof {
            assert(qs.take(ps@.len() as int) =~= qs);
        }
    }
}

/// Keeps the environment pairs under the reserved `MESS_` prefix, stripping
/// the prefix; everything else is dropped.
pub fn reserved_env_pairs(env: &Vec<(String, String)>) -> (r: Vec<(String, String)>)
    ensures
        pairs_view(r@) == reserved_overlay(pairs_view(env@)),
{
    let ghost qs = pairs_view(env@);
    let mut r: Vec<(String, String)> = Vec::new();
    let mut i: usize = 0;
    while i < env.len()
        invariant
            i <= env.len(),
            qs == pairs_view(env@),
            pairs_view(r@) == reserved_overlay(qs.take(i as int)),
        decreases env.len() - i,
    {
        let key = &env[i].0;
        let n = key.as_str().unicode_len();
        let keep = n >= 5 && key.as_str().get_char(0) == 'M' && key.as_str().get_char(1) == 'E'
            && key.as_str().get_char(2) == 'S' && key.as_str().get_char(3) == 'S'
            && key.as_str().get_char(4) == '_';
        proof {
            assert(qs.take(i + 1 as int).drop_last() =~= qs.take(i as int));
            assert(qs.take(i + 1 as int).last() == qs[i as int]);
        }
        if keep {
            let stripped = key.as_str().substring_char(5, n).to_owned();
            let ghost rq = pairs_view(r@);
            r.push((stripped, env[i].1.clone()));
            proof {
                assert(stripped@ =~= qs[i as int].0.skip(5));
                assert(pairs_view(r@) =~= rq.push((qs[i as int].0.skip(5), qs[i as int].1)));
            }
        }
        i += 1;
    }
    proof {
        assert(qs.take(env@.len() as int) =~= qs);
    }
    r
}

/// Builds the effective settings: the persistent source's pairs first, then
/// the reserved environment pairs over them.
pub fn resolve(file_pairs: &Vec<(String, String)>, env_pairs: &Vec<(String, String)>) -> (r:
    Settings)
    ensures
        r@ == merged(
            merged(Map::empty(), pairs_view(file_pairs@)),
            reserved_overlay(pairs_view(env_pairs@)),
        ),
{
    let mut s = Settings::empty();
    s.insert_all(file_pairs);
    let overlay = reserved_env_pairs(env_pairs);
    s.insert_all(&overlay);
    s
}

proof fn lemma_map_of_last_match(qs: Seq<(Seq<char>, Seq<char>)>, k: Seq<char>, j: int)
    requires
        0 <= j < qs.len(),
        qs[j].0 == k,
        forall|m: int| j < m < qs.len() ==> qs[m].0 != k,
    ensures
        map_of_pairs(qs).contains_key(k),
        map_of_pairs(qs)[k] == qs[j].1,
    decreases qs.len(),
{
    if j == qs.len() - 1 {
    } else {
        assert(qs.last().0 != k);
        lemma_map_of_last_match(qs.drop_last(), k, j);
    }
}

proof fn lemma_map_of_no_match(qs: Seq<(Seq<char>, Seq<char>)>, k: Seq<char>)
    requires
        forall|m: int| 0 <= m < qs.len() ==> qs[m].0 != k,
    ensures
        !map_of_pairs(qs).contains_key(k),
    decreases qs.len(),
{
    if qs.len() > 0 {
        lemma_map_of_no_match(qs.drop_last(), k);
    }
}

/// An overlay key always wins: after merging, a key that some overlay pair
/// carries holds the value of the last such pair, whatever the base map
/// held before. This is why an environment entry overrides the persistent
/// source's entry of the same normalized name.
pub proof fn lemma_env_overrides(
    m: Map<Seq<char>, Seq<char>>,
    qs: Seq<(Seq<char>, Seq<char>)>,
    k: Seq<char>,
)
    requires
        has_key(qs, k),
    ensures
        merged(m, qs).contains_key(k),
        merged(m, qs)[k] == last_value(qs, k),
    decreases qs.len(),
{
    let i = choose|i: int| 0 <= i < qs.len() && upper_seq(qs[i].0) == k;
    if upper_seq(qs.last().0) == k {
    } else {
        assert(i < qs.len() - 1);
        assert(upper_seq(qs.drop_last()[i].0) == k);
        lemma_env_overrides(m, qs.drop_last(), k);
    }
}

/// A key no overlay pair carries is untouched by the merge.
pub proof fn lemma_merge_untouched(
    m: Map<Seq<char>, Seq<char>>,
    qs: Seq<(Seq<char>, Seq<char>)>,
    k: Seq<char>,
)
    requires
        !has_key(qs, k),
    ensures
        merged(m, qs).contains_key(k) == m.contains_key(k),
        m.contains_key(k) ==> merged(m, qs)[k] == m[k],
    decreases qs.len(),
{
    if qs.len() > 0 {
        assert(upper_seq(qs.last().0) != k) by {
            if upper_seq(qs.last().0) == k {
                assert(0 <= qs.len() - 1 < qs.len() && upper_seq(qs[qs.len() - 1].0) == k);
            }
        }
        assert(!has_key(qs.drop_last(), k)) by {
            if has_key(qs.drop_last(), k) {
                let i = choose|i: int|
                    0 <= i < qs.drop_last().len() && upper_seq(qs.drop_last()[i].0) == k;
                assert(0 <= i < qs.len() && upper_seq(qs[i].0) == k);
            }
        }
        lemma_merge_untouched(m, qs.drop_last(), k);
    }
}

/// Merging the same overlay twice yields the same map as merging it once.
pub proof fn lemma_merge_idempotent(m: Map<Seq<char>, Seq<char>>, qs: Seq<(Seq<char>, Seq<char>)>)
    ensures
        merged(merged(m, qs), qs) == merged(m, qs),
{
    let a = merged(m, qs);
    let b = merged(a, qs);
    assert forall|k: Seq<char>| #[trigger] b.contains_key(k) implies a.contains_key(k) && b[k]
        == a[k] by {
        if has_key(qs, k) {
            lemma_env_overrides(m, qs, k);
            lemma_env_overrides(a, qs, k);
        } else {
            lemma_merge_untouched(a, qs, k);
        }
    }
    assert forall|k: Seq<char>| #[trigger] a.contains_key(k) implies b.contains_key(k) by {
        if has_key(qs, k) {
            lemma_env_overrides(a, qs, k);
        } else {
            lemma_merge_untouched(a, qs, k);
        }
    }
    assert(b =~= a);
}

} // verus!
