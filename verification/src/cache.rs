//! Bounded least-recently-used caches for rendered HTML fragments: one for
//! ANSI snippet conversions keyed by source filename, one for whole post
//! bodies keyed by slug. Lookup is a linear scan; insertion evicts the
//! least-recently-used entry once the fixed capacity is reached.

use vstd::prelude::*;

verus! {

#[verifier::external_type_specification]
#[verifier::external_body]
#[verifier::reject_recursive_types(T)]
pub struct ExLRUCache<T, const N: usize>(uluru::LRUCache<T, N>);

/// What the snippet cache holds, most-recently-used first: key and value of
/// each entry, as character sequences.
pub uninterp spec fn snippet_entries(c: uluru::LRUCache<(String, String), 256>) -> Seq<
    (Seq<char>, Seq<char>),
>;

/// What the post-body cache holds, most-recently-used first: key and value
/// of each entry, as character sequences.
pub uninterp spec fn post_entries(c: uluru::LRUCache<(String, String), 32>) -> Seq<
    (Seq<char>, Seq<char>),
>;

/// The index of the first entry with the given key, or -1 when no entry has
/// it.
pub open spec fn find_index(es: Seq<(Seq<char>, Seq<char>)>, k: Seq<char>) -> int
    decreases es.len(),
{
    if es.len() == 0 {
        -1
    } else if es[0].0 == k {
        0
    } else {
        let r = find_index(es.drop_first(), k);
        if r == -1 {
            -1
        } else {
            r + 1
        }
    }
}

/// What a cache looks like after an entry is stored under a key: a hit
/// merely moves the first entry with that key to the front; a miss puts the
/// new entry at the front, evicting the last entry when the cache already
/// holds `capacity` entries.
pub open spec fn store_spec(
    es: Seq<(Seq<char>, Seq<char>)>,
    k: Seq<char>,
    v: Seq<char>,
    capacity: int,
) -> Seq<(Seq<char>, Seq<char>)> {
    let i = find_index(es, k);
    if i != -1 {
        seq![es[i]] + es.remove(i)
    } else if es.len() < capacity {
        seq![(k, v)] + es
    } else {
        seq![(k, v)] + es.drop_last()
    }
}

/// The first entry with a key is a real entry with that key, and when the
/// index is -1 no entry has the key; entries before the first hit miss it.
pub proof fn lemma_find_index(es: Seq<(Seq<char>, Seq<char>)>, k: Seq<char>)
    ensures
        find_index(es, k) == -1 ==> forall|j: int|
            0 <= j < es.len() ==> (#[trigger] es[j]).0 != k,
        find_index(es, k) != -1 ==> 0 <= find_index(es, k) < es.len() && es[find_index(
            es,
            k,
        )].0 == k,
        find_index(es, k) != -1 ==> forall|j: int|
            0 <= j < find_index(es, k) ==> (#[trigger] es[j]).0 != k,
    decreases es.len(),
{
    if es.len() == 0 {
    } else if es[0].0 == k {
    } else {
        lemma_find_index(es.drop_first(), k);
        assert forall|j: int| 1 <= j < es.len() implies es[j] == es.drop_first()[j - 1] by {}
    }
}

/// Law: a value stored under a key the cache does not hold stands at the
/// front afterwards, so the next lookup of that key finds exactly it.
pub proof fn lemma_store_then_find(
    es: Seq<(Seq<char>, Seq<char>)>,
    k: Seq<char>,
    v: Seq<char>,
    capacity: int,
)
    requires
        find_index(es, k) == -1,
    ensures
        store_spec(es, k, v, capacity).first() == (k, v),
        find_index(store_spec(es, k, v, capacity), k) == 0,
{
    let stored = store_spec(es, k, v, capacity);
    assert(stored[0] == (k, v));
}

/// True when a cache entry's key equals the given key.
pub fn entry_key_matches(entry: &(String, String), key: &String) -> (r: bool)
    ensures
        r == (entry.0@ == key@),
{
    entry.0 == *key
}

/// Relies on uluru's `LRUCache::default`: it creates an empty cache.
#[verifier::external_body]
fn snippet_cache_new() -> (r: uluru::LRUCache<(String, String), 256>)
    ensures
        snippet_entries(r) == Seq::<(Seq<char>, Seq<char>)>::empty(),
{
    uluru::LRUCache::default()
}

/// Relies on uluru's `LRUCache::find`: it scans entries most-recently-used
/// first, returns the first entry matching the predicate and touches it
/// (moves it to the front); on a miss the cache is left unchanged.
#[verifier::external_body]
fn snippet_cache_find(c: &mut uluru::LRUCache<(String, String), 256>, key: &String) -> (r: Option<
    String,
>)
    ensures
        ({
            let es = snippet_entries(*old(c));
            let i = find_index(es, key@);
            if i == -1 {
                r is None && snippet_entries(*final(c)) == es
            } else {
                r matches Some(v) && v@ == es[i].1 && snippet_entries(*final(c)) == seq![es[i]]
                    + es.remove(i)
            }
        }),
{
    match c.find(|entry| entry_key_matches(entry, key)) {
        Some(entry) => Some(entry.1.clone()),
        None => None,
    }
}

/// Relies on uluru's `LRUCache::insert`: the item becomes the front
/// (most-recently-used) entry; when the cache is full the back
/// (least-recently-used) entry is removed to make room.
#[verifier::external_body]
fn snippet_cache_insert(
    c: &mut uluru::LRUCache<(String, String), 256>,
    key: String,
    value: String,
)
    ensures
        ({
            let es = snippet_entries(*old(c));
            if es.len() < 256 {
                snippet_entries(*final(c)) == seq![(key@, value@)] + es
            } else {
                snippet_entries(*final(c)) == seq![(key@, value@)] + es.drop_last()
            }
        }),
{
    c.insert((key, value));
}

/// Relies on uluru's `LRUCache::default`: it creates an empty cache.
#[verifier::external_body]
fn post_cache_new() -> (r: uluru::LRUCache<(String, String), 32>)
    ensures
        post_entries(r) == Seq::<(Seq<char>, Seq<char>)>::empty(),
{
    uluru::LRUCache::default()
}

/// Relies on uluru's `LRUCache::find`: it scans entries most-recently-used
/// first, returns the first entry matching the predicate and touches it
/// (moves it to the front); on a miss the cache is left unchanged.
#[verifier::external_body]
fn post_cache_find(c: &mut uluru::LRUCache<(String, String), 32>, key: &String) -> (r: Option<
    String,
>)
    ensures
        ({
            let es = post_entries(*old(c));
            let i = find_index(es, key@);
            if i == -1 {
                r is None && post_entries(*final(c)) == es
            } else {
                r matches Some(v) && v@ == es[i].1 && post_entries(*final(c)) == seq![es[i]]
                    + es.remove(i)
            }
        }),
{
    match c.find(|entry| entry_key_matches(entry, key)) {
        Some(entry) => Some(entry.1.clone()),
        None => None,
    }
}

/// Relies on uluru's `LRUCache::insert`: the item becomes the front
/// (most-recently-used) entry; when the cache is full the back
/// (least-recently-used) entry is removed to make room.
#[verifier::external_body]
fn post_cache_insert(c: &mut uluru::LRUCache<(String, String), 32>, key: String, value: String)
    ensures
        ({
            let es = post_entries(*old(c));
            if es.len() < 32 {
                post_entries(*final(c)) == seq![(key@, value@)] + es
            } else {
                post_entries(*final(c)) == seq![(key@, value@)] + es.drop_last()
            }
        }),
{
    c.insert((key, value));
}

/// The bounded cache of ANSI snippet conversions, keyed by source filename.
pub struct SnippetCache {
    inner: uluru::LRUCache<(String, String), 256>,
}

impl SnippetCache {
    /// The entries the cache holds, most-recently-used first.
    pub closed spec fn entries(&self) -> Seq<(Seq<char>, Seq<char>)> {
        snippet_entries(self.inner)
    }

    /// An empty cache.
    pub fn new() -> (r: Self)
        ensures
            r.entries() == Seq::<(Seq<char>, Seq<char>)>::empty(),
    {
        SnippetCache { inner: snippet_cache_new() }
    }

    /// Looks the key up: on a hit the entry becomes most-recently-used and a
    /// copy of its value is returned; on a miss the cache is unchanged.
    pub fn lookup(&mut self, key: &String) -> (r: Option<String>)
        ensures
            ({
                let es = old(self).entries();
                let i = find_index(es, key@);
                if i == -1 {
                    r is None && final(self).entries() == es
                } else {
                    r matches Some(v) && v@ == es[i].1 && final(self).entries() == seq![es[i]]
                        + es.remove(i)
                }
            }),
    {
        snippet_cache_find(&mut self.inner, key)
    }

    /// Stores a value under a key: when the key is already present its entry
    /// is only touched (the cached value wins); otherwise the new entry is
    /// inserted at the front, evicting the least-recently-used entry when
    /// the cache is at its capacity of 256.
    pub fn store(&mut self, key: &String, value: &String)
        ensures
            final(self).entries() == store_spec(old(self).entries(), key@, value@, 256),
    {
        let hit = snippet_cache_find(&mut self.inner, key);
        if hit.is_none() {
            snippet_cache_insert(&mut self.inner, key.clone(), value.clone());
        }
    }
}

/// The bounded cache of rendered post bodies, keyed by post slug.
pub struct PostCache {
    inner: uluru::LRUCache<(String, String), 32>,
}

impl PostCache {
    /// The entries the cache holds, most-recently-used first.
    pub closed spec fn entries(&self) -> Seq<(Seq<char>, Seq<char>)> {
        post_entries(self.inner)
    }

    /// An empty cache.
    pub fn new() -> (r: Self)
        ensures
            r.entries() == Seq::<(Seq<char>, Seq<char>)>::empty(),
    {
        PostCache { inner: post_cache_new() }
    }

    /// Looks the key up: on a hit the entry becomes most-recently-used and a
    /// copy of its value is returned; on a miss the cache is unchanged.
    pub fn lookup(&mut self, key: &String) -> (r: Option<String>)
        ensures
            ({
                let es = old(self).entries();
                let i = find_index(es, key@);
                if i == -1 {
                    r is None && final(self).entries() == es
                } else {
                    r matches Some(v) && v@ == es[i].1 && final(self).entries() == seq![es[i]]
                        + es.remove(i)
                }
            }),
    {
        post_cache_find(&mut self.inner, key)
    }

    /// Stores a value under a key: when the key is already present its entry
    /// is only touched (the cached value wins); otherwise the new entry is
    /// inserted at the front, evicting the least-recently-used entry when
    /// the cache is at its capacity of 32.
    pub fn store(&mut self, key: &String, value: &String)
        ensures
            final(self).entries() == store_spec(old(self).entries(), key@, value@, 32),
    {
        let hit = post_cache_find(&mut self.inner, key);
        if hit.is_none() {
            post_cache_insert(&mut self.inner, key.clone(), value.clone());
        }
    }
}

} // verus!
