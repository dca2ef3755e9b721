//! The cache in front of the stored settings: setting names mapped to their
//! values as JSON text. The caller reads the store on a miss and writes it
//! before remembering a new value; the cache answers every later read.
use vstd::prelude::*;
use crate::models::opt_text;
use crate::text::text_equals;

verus! {

/// The map a list of entries gives, a later entry overriding an earlier one
/// with the same name.
pub open spec fn cache_map(s: Seq<(String, String)>) -> Map<Seq<char>, Seq<char>>
    decreases s.len(),
{
    if s.len() == 0 {
        Map::empty()
    } else {
        cache_map(s.drop_last()).insert(s.last().0@, s.last().1@)
    }
}

/// `i` is the last entry named `k`.
pub open spec fn last_named(s: Seq<(String, String)>, k: Seq<char>, i: int) -> bool {
    0 <= i < s.len() && s[i].0@ == k && forall|j: int| i < j < s.len() ==> (#[trigger] s[j]).0@ != k
}

/// The value of `k` as the map gives it.
pub open spec fn map_get(m: Map<Seq<char>, Seq<char>>, k: Seq<char>) -> Option<Seq<char>> {
    if m.dom().contains(k) {
        Some(m[k])
    } else {
        None
    }
}

/// The cache once defaults are taken: each name gets its stored value when
/// the store has one, its default otherwise.
pub open spec fn with_defaults(
    m: Map<Seq<char>, Seq<char>>,
    entries: Seq<(Seq<char>, Option<Seq<char>>, Seq<char>)>,
) -> Map<Seq<char>, Seq<char>>
    decreases entries.len(),
{
    if entries.len() == 0 {
        m
    } else {
        let e = entries.last();
        with_defaults(m, entries.drop_last()).insert(
            e.0,
            match e.1 {
                Some(v) => v,
                None => e.2,
            },
        )
    }
}

proof fn lemma_last_named(s: Seq<(String, String)>, k: Seq<char>, i: int)
    requires
        last_named(s, k, i),
    ensures
        map_get(cache_map(s), k) == Some(s[i].1@),
    decreases s.len(),
{
    if i < s.len() - 1 {
        let t = s.drop_last();
        assert(s[s.len() - 1].0@ != k);
        assert(last_named(t, k, i)) by {
            assert forall|j: int| i < j < t.len() implies (#[trigger] t[j]).0@ != k by {
                assert(t[j] == s[j]);
            }
        }
        lemma_last_named(t, k, i);
    }
}

proof fn lemma_unnamed(s: Seq<(String, String)>, k: Seq<char>)
    requires
        forall|j: int| 0 <= j < s.len() ==> (#[trigger] s[j]).0@ != k,
    ensures
        map_get(cache_map(s), k) is None,
    decreases s.len(),
{
    if s.len() > 0 {
        let t = s.drop_last();
        assert(s[s.len() - 1].0@ != k);
        assert forall|j: int| 0 <= j < t.len() implies (#[trigger] t[j]).0@ != k by {
            assert(t[j] == s[j]);
        }
        lemma_unnamed(t, k);
    }
}

proof fn lemma_replace_last(s: Seq<(String, String)>, k: Seq<char>, i: int, e: (String, String))
    requires
        last_named(s, k, i),
        e.0@ == k,
    ensures
        cache_map(s.update(i, e)) == cache_map(s).insert(k, e.1@),
    decreases s.len(),
{
    let u = s.update(i, e);
    if i == s.len() - 1 {
        assert(u.drop_last() =~= s.drop_last());
        assert(cache_map(u) =~= cache_map(s).insert(k, e.1@));
    } else {
        let t = s.drop_last();
        assert(last_named(t, k, i)) by {
            assert forall|j: int| i < j < t.len() implies (#[trigger] t[j]).0@ != k by {
                assert(t[j] == s[j]);
            }
        }
        lemma_replace_last(t, k, i, e);
        assert(u.drop_last() =~= t.update(i, e));
        assert(u.last() == s.last());
        assert(s.last().0@ != k);
        assert(cache_map(u) =~= cache_map(s).insert(k, e.1@));
    }
}

/// The cache of settings.
pub struct SetupService {
    cache: Vec<(String, String)>,
}

impl View for SetupService {
    type V = Map<Seq<char>, Seq<char>>;

    closed spec fn view(&self) -> Map<Seq<char>, Seq<char>> {
        cache_map(self.cache@)
    }
}

impl SetupService {
    /// An empty cache.
    pub fn new() -> (r: SetupService)
        ensures
            r@ == Map::<Seq<char>, Seq<char>>::empty(),
    {
        SetupService { cache: Vec::new() }
    }

    fn last_index(&self, key: &str) -> (r: Option<usize>)
        ensures
            match r {
                Some(i) => last_named(self.cache@, key@, i as int),
                None => forall|j: int| 0 <= j < self.cache@.len() ==> (#[trigger] self.cache@[j]).0@ != key@,
            },
    {
        let mut n: usize = self.cache.len();
        while n > 0
            invariant
                n <= self.cache@.len(),
                forall|j: int| n <= j < self.cache@.len() ==> (#[trigger] self.cache@[j]).0@ != key@,
            decreases n,
        {
            if text_equals(self.cache[n - 1].0.as_str(), key) {
                return Some(n - 1);
            }
            n = n - 1;
        }
        None
    }

    /// The cached value of setting `key`, as JSON text; none on a miss, when
    /// the caller reads the store.
    pub fn cached_value(&self, key: &str) -> (r: Option<String>)
        ensures
            match r {
                Some(v) => map_get(self@, key@) == Some(v@),
                None => map_get(self@, key@) is None,
            },
    {
        match self.last_index(key) {
            Some(i) => {
                proof {
                    lemma_last_named(self.cache@, key@, i as int);
                }
                Some(self.cache[i].1.clone())
            },
            None => {
                proof {
                    lemma_unnamed(self.cache@, key@);
                }
                None
            },
        }
    }

    /// Remembers the value of setting `key`: one read from the store, or one
    /// just written to it.
    pub fn remember(&mut self, key: &str, value: String)
        ensures
            final(self)@ == old(self)@.insert(key@, value@),
    {
        let entry = (String::from_str(key), value);
        match self.last_index(key) {
            Some(i) => {
                proof {
                    lemma_replace_last(self.cache@, key@, i as int, entry);
                }
                self.cache.set(i, entry);
            },
            None => {
                proof {
                    lemma_unnamed(self.cache@, key@);
                    assert(self.cache@.push(entry).drop_last() =~= self.cache@);
                }
                self.cache.push(entry);
            },
        }
    }

    /// Takes the defaults at start-up: each entry names a setting, the value
    /// the store holds for it (if any) and its default, as JSON text; the
    /// cache remembers the stored value, or else the default.
    pub fn init_setup(&mut self, defaults: Vec<(String, Option<String>, String)>)
        ensures
            final(self)@ == with_defaults(
                old(self)@,
                Seq::new(defaults@.len(), |i: int| (defaults@[i].0@, opt_text(defaults@[i].1), defaults@[i].2@)),
            ),
    {
        let ghost start = self@;
        let ghost es = Seq::new(
            defaults@.len(),
            |i: int| (defaults@[i].0@, opt_text(defaults@[i].1), defaults@[i].2@),
        );
        let mut k: usize = 0;
        while k < defaults.len()
            invariant
                k <= defaults@.len(),
                es == Seq::new(
                    defaults@.len(),
                    |i: int| (defaults@[i].0@, opt_text(defaults@[i].1), defaults@[i].2@),
                ),
                self@ == with_defaults(start, es.subrange(0, k as int)),
            decreases defaults@.len() - k,
        {
            let e = &defaults[k];
            let value = match &e.1 {
                Some(v) => v.clone(),
                None => e.2.clone(),
            };
            self.remember(e.0.as_str(), value);
            let ghost pre = es.subrange(0, k as int);
            let ghost cur = es.subrange(0, k + 1);
            assert(cur.drop_last() =~= pre);
            k = k + 1;
        }
        assert(es.subrange(0, es.len() as int) =~= es);
    }
}

} // verus!
