use vstd::prelude::*;
use crate::config::{fingerprint, hex_lower, sha256_digest};
use vstd::string::*;

verus! {

/// The map that a list of `(key, value)` pairs gives, later pairs winning.
pub open spec fn entries_map(entries: Seq<(String, String)>) -> Map<Seq<char>, Seq<char>>
    decreases entries.len(),
{
    if entries.len() == 0 {
        Map::empty()
    } else {
        entries_map(entries.drop_last()).insert(entries.last().0@, entries.last().1@)
    }
}

/// Whether no key occurs twice.
pub open spec fn keys_unique(entries: Seq<(String, String)>) -> bool {
    forall|i: int, j: int| 0 <= i < j < entries.len() ==> entries[i].0@ != entries[j].0@
}

proof fn lemma_entries_map_index(entries: Seq<(String, String)>, i: int)
    requires
        keys_unique(entries),
        0 <= i < entries.len(),
    ensures
        entries_map(entries).contains_key(entries[i].0@),
        entries_map(entries)[entries[i].0@] == entries[i].1@,
    decreases entries.len(),
{
    if i < entries.len() - 1 {
        lemma_entries_map_index(entries.drop_last(), i);
    }
}

proof fn lemma_entries_map_absent(entries: Seq<(String, String)>, k: Seq<char>)
    requires
        forall|i: int| 0 <= i < entries.len() ==> entries[i].0@ != k,
    ensures
        !entries_map(entries).contains_key(k),
    decreases entries.len(),
{
    if entries.len() > 0 {
        lemma_entries_map_absent(entries.drop_last(), k);
    }
}

proof fn lemma_entries_map_update(entries: Seq<(String, String)>, i: int, v: String)
    requires
        keys_unique(entries),
        0 <= i < entries.len(),
    ensures
        entries_map(entries.update(i, (entries[i].0, v))) == entries_map(entries).insert(entries[i].0@, v@),
    decreases entries.len(),
{
    let updated = entries.update(i, (entries[i].0, v));
    if i == entries.len() - 1 {
        assert(updated.drop_last() =~= entries.drop_last());
        lemma_entries_map_absent(entries.drop_last(), entries[i].0@);
        assert(entries_map(updated) =~= entries_map(entries).insert(entries[i].0@, v@));
    } else {
        lemma_entries_map_update(entries.drop_last(), i, v);
        assert(updated.drop_last() =~= entries.drop_last().update(i, (entries[i].0, v)));
        assert(entries_map(updated) =~= entries_map(entries).insert(entries[i].0@, v@));
    }
}

/// The remembered API ids, each under the fingerprint of a relay and an API key.
#[derive(Debug)]
pub struct ApiIdCache {
    entries: Vec<(String, String)>,
}

impl View for ApiIdCache {
    type V = Map<Seq<char>, Seq<char>>;

    closed spec fn view(&self) -> Map<Seq<char>, Seq<char>> {
        entries_map(self.entries@)
    }
}

impl ApiIdCache {
    #[verifier::type_invariant]
    closed spec fn inv(&self) -> bool {
        keys_unique(self.entries@)
    }

    /// An empty cache.
    pub fn new() -> (c: Self)
        ensures
            c@ == Map::<Seq<char>, Seq<char>>::empty(),
    {
        ApiIdCache { entries: Vec::new() }
    }

    /// The value stored under `key`.
    pub fn get(&self, key: &str) -> (r: Option<String>)
        ensures
            match r {
                Some(v) => self@.contains_key(key@) && v@ == self@[key@],
                None => !self@.contains_key(key@),
            },
    {
        proof {
            use_type_invariant(self);
        }
        match self_position(&self.entries, key) {
            Some(i) => {
                proof {
                    lemma_entries_map_index(self.entries@, i as int);
                }
                Some(self.entries[i].1.clone())
            },
            None => {
                proof {
                    lemma_entries_map_absent(self.entries@, key@);
                }
                None
            },
        }
    }

    /// Stores `value` under `key`, replacing what was stored there.
    pub fn insert(&mut self, key: String, value: String)
        ensures
            final(self)@ == old(self)@.insert(key@, value@),
    {
        proof {
            use_type_invariant(&*self);
        }
        let mut entries: Vec<(String, String)> = Vec::new();
        std::mem::swap(&mut entries, &mut self.entries);
        let ghost before = entries@;
        match self_position(&entries, key.as_str()) {
            Some(i) => {
                let old_key = entries[i].0.clone();
                proof {
                    lemma_entries_map_update(before, i as int, value);
                }
                entries.set(i, (old_key, value));
                assert(entries@ =~= before.update(i as int, (before[i as int].0, value)));
                assert(keys_unique(entries@));
            },
            None => {
                proof {
                    lemma_entries_map_absent(before, key@);
                }
                entries.push((key, value));
                assert(entries@.drop_last() =~= before);
                assert(keys_unique(entries@));
            },
        }
        self.entries = entries;
    }

    /// The stored `(key, value)` pairs, no key twice.
    pub fn entries(&self) -> (r: Vec<(String, String)>)
        ensures
            entries_map(r@) == self@,
            keys_unique(r@),
    {
        proof {
            use_type_invariant(self);
        }
        let mut r: Vec<(String, String)> = Vec::new();
        let mut i: usize = 0;
        while i < self.entries.len()
            invariant
                0 <= i <= self.entries@.len(),
                keys_unique(self.entries@),
                r@ == self.entries@.take(i as int),
            decreases self.entries@.len() - i,
        {
            let pair = (self.entries[i].0.clone(), self.entries[i].1.clone());
            r.push(pair);
            assert(self.entries@.take(i + 1) =~= self.entries@.take(i as int).push(self.entries@[i as int]));
            i = i + 1;
        }
        assert(self.entries@.take(self.entries@.len() as int) =~= self.entries@);
        r
    }

    /// A cache holding the given pairs; where a key occurs twice the later pair wins.
    pub fn from_entries(pairs: Vec<(String, String)>) -> (c: Self)
        ensures
            c@ == entries_map(pairs@),
    {
        let mut c = ApiIdCache::new();
        let mut i: usize = 0;
        while i < pairs.len()
            invariant
                0 <= i <= pairs@.len(),
                c@ == entries_map(pairs@.take(i as int)),
            decreases pairs@.len() - i,
        {
            c.insert(pairs[i].0.clone(), pairs[i].1.clone());
            assert(pairs@.take(i + 1).drop_last() =~= pairs@.take(i as int));
            i = i + 1;
        }
        assert(pairs@.take(pairs@.len() as int) =~= pairs@);
        c
    }

    /// The API id remembered for a relay and an API key.
    pub fn lookup(&self, root_url: &str, api_key: &str) -> (r: Option<String>)
        ensures
            ({
                let k = hex_lower(sha256_digest(root_url.spec_bytes() + seq![0u8] + api_key.spec_bytes()));
                match r {
                    Some(v) => self@.contains_key(k) && v@ == self@[k],
                    None => !self@.contains_key(k),
                }
            }),
    {
        let k = fingerprint(root_url, api_key);
        self.get(k.as_str())
    }

    /// Remembers the API id of a relay and an API key.
    pub fn remember(&mut self, root_url: &str, api_key: &str, api_id: &str)
        ensures
            final(self)@ == old(self)@.insert(
                hex_lower(sha256_digest(root_url.spec_bytes() + seq![0u8] + api_key.spec_bytes())),
                api_id@,
            ),
    {
        let k = fingerprint(root_url, api_key);
        self.insert(k, api_id.to_owned());
    }
}

fn self_position(entries: &Vec<(String, String)>, key: &str) -> (r: Option<usize>)
    ensures
        match r {
            Some(i) => i < entries@.len() && entries@[i as int].0@ == key@,
            None => forall|i: int| 0 <= i < entries@.len() ==> entries@[i].0@ != key@,
        },
{
    let mut i: usize = 0;
    while i < entries.len()
        invariant
            0 <= i <= entries@.len(),
            forall|k: int| 0 <= k < i ==> entries@[k].0@ != key@,
        decreases entries@.len() - i,
    {
        if crate::text::str_eq(entries[i].0.as_str(), key) {
            return Some(i);
        }
        i = i + 1;
    }
    None
}

/// After an API id is remembered for a relay and a key, looking them up gives that
/// id back; what is remembered for any other fingerprint is unchanged.
pub proof fn law_remember_then_lookup(
    cache: Map<Seq<char>, Seq<char>>,
    root_url: Seq<u8>,
    api_key: Seq<u8>,
    api_id: Seq<char>,
    other: Seq<char>,
)
    requires
        other != hex_lower(sha256_digest(root_url + seq![0u8] + api_key)),
    ensures
        ({
            let k = hex_lower(sha256_digest(root_url + seq![0u8] + api_key));
            let after = cache.insert(k, api_id);
            &&& after.contains_key(k)
            &&& after[k] == api_id
            &&& after.contains_key(other) == cache.contains_key(other)
            &&& cache.contains_key(other) ==> after[other] == cache[other]
        }),
{
}

} // verus!
