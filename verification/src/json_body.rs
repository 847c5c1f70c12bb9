//! The JSON object that a request carries as its body: string keys with
//! string values, each key at most once.
use vstd::prelude::*;

verus! {

/// The views of a sequence of key/value pairs.
pub open spec fn pair_views(e: Seq<(String, String)>) -> Seq<(Seq<char>, Seq<char>)> {
    e.map_values(|p: (String, String)| (p.0@, p.1@))
}

/// The map that a sequence of pairs describes, a later pair winning over an
/// earlier one with the same key.
pub open spec fn map_of(e: Seq<(Seq<char>, Seq<char>)>) -> Map<Seq<char>, Seq<char>>
    decreases e.len(),
{
    if e.len() == 0 {
        Map::empty()
    } else {
        map_of(e.drop_last()).insert(e.last().0, e.last().1)
    }
}

/// No key occurs twice.
pub open spec fn keys_distinct(e: Seq<(Seq<char>, Seq<char>)>) -> bool {
    forall|i: int, j: int| 0 <= i < j < e.len() ==> #[trigger] e[i].0 != #[trigger] e[j].0
}

pub proof fn lemma_map_of_domain(e: Seq<(Seq<char>, Seq<char>)>, k: Seq<char>)
    ensures
        map_of(e).contains_key(k) <==> exists|i: int| 0 <= i < e.len() && #[trigger] e[i].0 == k,
    decreases e.len(),
{
    if e.len() > 0 {
        lemma_map_of_domain(e.drop_last(), k);
        if map_of(e).contains_key(k) && e.last().0 != k {
            let i = choose|i: int| 0 <= i < e.len() - 1 && #[trigger] e.drop_last()[i].0 == k;
            assert(e[i].0 == k);
        }
        if exists|i: int| 0 <= i < e.len() && #[trigger] e[i].0 == k {
            let i = choose|i: int| 0 <= i < e.len() && #[trigger] e[i].0 == k;
            if i < e.len() - 1 {
                assert(e.drop_last()[i].0 == k);
            }
        }
    }
}

/// A JSON object whose values are all strings.
#[derive(Debug)]
pub struct JsonObject {
    entries: Vec<(String, String)>,
}

impl JsonObject {
    #[verifier::type_invariant]
    spec fn keys_unique(self) -> bool {
        keys_distinct(pair_views(self.entries@))
    }

    /// The object as a map from keys to values.
    pub closed spec fn as_map(self) -> Map<Seq<char>, Seq<char>> {
        map_of(pair_views(self.entries@))
    }

    /// The empty object `{}`.
    pub fn new() -> (obj: JsonObject)
        ensures
            obj.as_map() == Map::<Seq<char>, Seq<char>>::empty(),
    {
        let obj = JsonObject { entries: Vec::new() };
        assert(pair_views(obj.entries@) =~= Seq::<(Seq<char>, Seq<char>)>::empty());
        obj
    }

    /// Sets `key` to `value`, replacing the value that `key` had before.
    pub fn insert(&mut self, key: String, value: String)
        ensures
            final(self).as_map() == old(self).as_map().insert(key@, value@),
    {
        proof {
            use_type_invariant(&*self);
        }
        let ghost e = pair_views(self.entries@);
        let mut kept: Vec<(String, String)> = Vec::new();
        let n = self.entries.len();
        let mut i: usize = 0;
        while i < n
            invariant
                n == self.entries.len(),
                e == pair_views(self.entries@),
                keys_distinct(e),
                i <= n,
                keys_distinct(pair_views(kept@)),
                forall|j: int|
                    0 <= j < kept.len() ==> exists|m: int|
                        0 <= m < i && #[trigger] pair_views(kept@)[j].0 == e[m].0,
                forall|j: int| 0 <= j < kept.len() ==> #[trigger] pair_views(kept@)[j].0 != key@,
                map_of(pair_views(kept@)) == map_of(e.take(i as int)).remove(key@),
            decreases n - i,
        {
            let ghost before = pair_views(kept@);
            proof {
                assert(e.take(i + 1).drop_last() =~= e.take(i as int));
                assert(e.take(i + 1).last() == e[i as int]);
            }
            if self.entries[i].0 != key {
                let k = self.entries[i].0.clone();
                let v = self.entries[i].1.clone();
                kept.push((k, v));
                proof {
                    assert(pair_views(kept@) =~= before.push(e[i as int]));
                    assert forall|a: int, b: int|
                        0 <= a < b < pair_views(kept@).len() implies #[trigger] pair_views(
                        kept@,
                    )[a].0 != #[trigger] pair_views(kept@)[b].0 by {
                        if b == before.len() {
                            assert(pair_views(kept@)[a].0 == before[a].0);
                            let m = choose|m: int| 0 <= m < i && #[trigger] before[a].0 == e[m].0;
                            assert(e[m].0 != e[i as int].0);
                        } else {
                            assert(pair_views(kept@)[a] == before[a]);
                            assert(pair_views(kept@)[b] == before[b]);
                        }
                    }
                    assert forall|j: int| 0 <= j < kept.len() implies exists|m: int|
                        0 <= m < i + 1 && #[trigger] pair_views(kept@)[j].0 == e[m].0 by {
                        if j == before.len() {
                            assert(pair_views(kept@)[j].0 == e[i as int].0);
                        } else {
                            assert(pair_views(kept@)[j] == before[j]);
                            let m = choose|m: int| 0 <= m < i && #[trigger] before[j].0 == e[m].0;
                            assert(pair_views(kept@)[j].0 == e[m].0);
                        }
                    }
                    assert forall|j: int| 0 <= j < kept.len() implies #[trigger] pair_views(
                        kept@,
                    )[j].0 != key@ by {
                        if j < before.len() {
                            assert(pair_views(kept@)[j] == before[j]);
                        }
                    }
                    assert(pair_views(kept@).drop_last() =~= before);
                    assert(map_of(pair_views(kept@)) =~= map_of(e.take(i + 1)).remove(key@));
                }
            } else {
                proof {
                    assert(map_of(e.take(i + 1)).remove(key@) =~= map_of(e.take(i as int)).remove(
                        key@,
                    ));
                }
            }
            i = i + 1;
        }
        let ghost before = pair_views(kept@);
        let ghost k = key@;
        let ghost v = value@;
        kept.push((key, value));
        proof {
            assert(e.take(n as int) =~= e);
            assert(pair_views(kept@) =~= before.push((k, v)));
            assert(pair_views(kept@).drop_last() =~= before);
            assert forall|a: int, b: int|
                0 <= a < b < pair_views(kept@).len() implies #[trigger] pair_views(kept@)[a].0
                != #[trigger] pair_views(kept@)[b].0 by {
                if b < before.len() {
                    assert(pair_views(kept@)[a] == before[a]);
                    assert(pair_views(kept@)[b] == before[b]);
                } else {
                    assert(pair_views(kept@)[a] == before[a]);
                }
            }
            assert(map_of(pair_views(kept@)) =~= map_of(e).insert(k, v));
        }
        self.entries = kept;
    }

    /// The value of `key`, if the object has one.
    pub fn get(&self, key: &str) -> (value: Option<&str>)
        ensures
            value is Some <==> self.as_map().contains_key(key@),
            value matches Some(v) ==> v@ == self.as_map()[key@],
    {
        proof {
            use_type_invariant(self);
        }
        let ghost e = pair_views(self.entries@);
        let n = self.entries.len();
        let mut i: usize = n;
        while i > 0
            invariant
                n == self.entries.len(),
                e == pair_views(self.entries@),
                i <= n,
                forall|j: int| i <= j < n ==> #[trigger] e[j].0 != key@,
            decreases i,
        {
            let k = self.entries[i - 1].0.as_str();
            if str_equal(k, key) {
                proof {
                    lemma_last_occurrence(e, (i - 1) as int);
                }
                return Some(self.entries[i - 1].1.as_str());
            }
            i = i - 1;
        }
        proof {
            lemma_map_of_domain(e, key@);
        }
        None
    }

    /// The key/value pairs of the object, each key once.
    pub fn entries(&self) -> (pairs: Vec<(String, String)>)
        ensures
            map_of(pair_views(pairs@)) == self.as_map(),
            keys_distinct(pair_views(pairs@)),
    {
        proof {
            use_type_invariant(self);
        }
        let mut pairs: Vec<(String, String)> = Vec::new();
        let n = self.entries.len();
        let mut i: usize = 0;
        while i < n
            invariant
                n == self.entries.len(),
                i <= n,
                pair_views(pairs@) == pair_views(self.entries@).take(i as int),
            decreases n - i,
        {
            let ghost before = pair_views(pairs@);
            let k = self.entries[i].0.clone();
            let v = self.entries[i].1.clone();
            pairs.push((k, v));
            proof {
                assert(pair_views(pairs@) =~= before.push(pair_views(self.entries@)[i as int]));
                assert(pair_views(pairs@) =~= pair_views(self.entries@).take(i + 1));
            }
            i = i + 1;
        }
        proof {
            assert(pair_views(self.entries@).take(n as int) =~= pair_views(self.entries@));
        }
        pairs
    }
}

impl Clone for JsonObject {
    fn clone(&self) -> (copy: JsonObject)
        ensures
            copy.as_map() == self.as_map(),
    {
        proof {
            use_type_invariant(self);
        }
        JsonObject { entries: self.entries() }
    }
}

/// The value that `map_of` gives a key is that of its last occurrence.
proof fn lemma_last_occurrence(e: Seq<(Seq<char>, Seq<char>)>, i: int)
    requires
        0 <= i < e.len(),
        forall|j: int| i < j < e.len() ==> #[trigger] e[j].0 != e[i].0,
    ensures
        map_of(e).contains_key(e[i].0),
        map_of(e)[e[i].0] == e[i].1,
    decreases e.len(),
{
    if i < e.len() - 1 {
        let t = e.drop_last();
        assert forall|j: int| i < j < t.len() implies #[trigger] t[j].0 != t[i].0 by {
            assert(t[j] == e[j]);
        }
        lemma_last_occurrence(t, i);
    }
}

/// Whether two strings are equal.
pub fn str_equal(a: &str, b: &str) -> (eq: bool)
    ensures
        eq == (a@ == b@),
{
    let n = a.unicode_len();
    let m = b.unicode_len();
    if n != m {
        return false;
    }
    let mut i: usize = 0;
    while i < n
        invariant
            n == a@.len(),
            m == b@.len(),
            n == m,
            i <= n,
            forall|j: int| 0 <= j < i ==> a@[j] == b@[j],
        decreases n - i,
    {
        if a.get_char(i) != b.get_char(i) {
            return false;
        }
        i = i + 1;
    }
    assert(a@ =~= b@);
    true
}

} // verus!
