//! The cache store and the classifier over it.
//!
//! The store maps a selector — a filter name and an optional version, the
//! absent version standing for the fixed empty sentinel — to a rule set and
//! an absolute expiry instant, in seconds. A lookup answers only while the
//! current time is strictly before the expiry; a refresh replaces the entry
//! for its selector wholesale. The store never fetches: on a miss or a stale
//! entry the caller fetches the remote payload and hands its parts to
//! `load_cache`.

use vstd::prelude::*;
use vstd::seq_lib::*;

use crate::errors::{KokoError, KokoResult};
use crate::matching::{Keywords, KeywordsView};
use crate::remote::{parse_payload, parsed_payload, response_ttl, spec_header, spec_ttl};

verus! {

/// One cached rule set together with the instant, in seconds, at which it
/// goes stale.
pub struct KeywordsCache {
    pub expires_at: u64,
    pub keywords: Keywords,
}

/// The mathematical content of a cache entry.
pub ghost struct KeywordsCacheView {
    pub expires_at: u64,
    pub keywords: KeywordsView,
}

impl View for KeywordsCache {
    type V = KeywordsCacheView;

    open spec fn view(&self) -> KeywordsCacheView {
        KeywordsCacheView { expires_at: self.expires_at, keywords: self.keywords@ }
    }
}

/// One slot of the store: the selector's two components and the entry they
/// key.
pub struct CacheEntry {
    pub filter: String,
    pub version: String,
    pub cache: KeywordsCache,
}

/// The selector a slot is keyed by.
pub open spec fn entry_key(e: CacheEntry) -> (Seq<char>, Seq<char>) {
    (e.filter@, e.version@)
}

/// The mapping a sequence of slots holds: later slots win, though the store's
/// invariant keeps the keys distinct.
pub open spec fn entries_map(s: Seq<CacheEntry>) -> Map<(Seq<char>, Seq<char>), KeywordsCacheView>
    decreases s.len(),
{
    if s.len() == 0 {
        Map::empty()
    } else {
        entries_map(s.drop_last()).insert(entry_key(s.last()), s.last().cache@)
    }
}

/// No two slots share a selector.
pub open spec fn distinct_keys(s: Seq<CacheEntry>) -> bool {
    forall|i: int, j: int|
        0 <= i < j < s.len() ==> #[trigger] entry_key(s[i]) != #[trigger] entry_key(s[j])
}

/// The classifier's state: the cache store and the configured endpoint.
pub struct KokoKeywords {
    pub keywords: Vec<CacheEntry>,
    pub url: String,
}

/// The mathematical content of the classifier's state.
pub ghost struct KokoView {
    pub cache: Map<(Seq<char>, Seq<char>), KeywordsCacheView>,
    pub url: Seq<char>,
}

impl View for KokoKeywords {
    type V = KokoView;

    open spec fn view(&self) -> KokoView {
        KokoView { cache: entries_map(self.keywords@), url: self.url@ }
    }
}

/// The selector component an optional version argument stands for: the fixed
/// empty sentinel when absent.
pub open spec fn spec_version(version: Option<&str>) -> Seq<char> {
    match version {
        Some(v) => v@,
        None => Seq::empty(),
    }
}

/// What a classify call answers from the cache alone: the match result when
/// the selector's entry is present and still fresh, nothing when a fetch is
/// needed first.
pub open spec fn spec_verify(
    v: KokoView,
    input: Seq<char>,
    filter: Seq<char>,
    version: Seq<char>,
    now: u64,
) -> Option<bool> {
    let key = (filter, version);
    if v.cache.contains_key(key) && now < v.cache[key].expires_at {
        Some(v.cache[key].keywords.matches(input))
    } else {
        None
    }
}

/// What a classify call answers once a refresh has just installed the
/// selector's entry: the match result against whatever is cached, fresh or
/// not. The refresh retry is capped at one; after it the just-inserted rules
/// are used even if, by a zero lifetime or clock skew, they are already
/// technically expired.
pub open spec fn spec_verify_loaded(
    v: KokoView,
    input: Seq<char>,
    filter: Seq<char>,
    version: Seq<char>,
) -> Option<bool> {
    let key = (filter, version);
    if v.cache.contains_key(key) {
        Some(v.cache[key].keywords.matches(input))
    } else {
        None
    }
}

/// Whether a fetched body is accepted: it decodes structurally and every
/// pattern in it is valid, so the rule set can be constructed eagerly.
pub open spec fn spec_payload_accepted(body: Seq<char>) -> bool {
    &&& parsed_payload(body) is Some
    &&& spec_payload_rules(body).wf()
}

/// The rule set a decodable body carries.
pub open spec fn spec_payload_rules(body: Seq<char>) -> KeywordsView {
    let p = parsed_payload(body)->Some_0;
    KeywordsView { keywords: p.0, preprocess: p.1 }
}

/// The expiry instant of an entry inserted at `now` with lifetime `ttl`,
/// saturating at the largest representable instant.
pub open spec fn spec_expiry(now: u64, ttl: u64) -> u64 {
    if now + ttl <= u64::MAX {
        (now + ttl) as u64
    } else {
        u64::MAX
    }
}

proof fn lemma_entries_map_contains(s: Seq<CacheEntry>, k: (Seq<char>, Seq<char>))
    ensures
        entries_map(s).contains_key(k) <==> exists|i: int|
            0 <= i < s.len() && entry_key(#[trigger] s[i]) == k,
    decreases s.len(),
{
    if s.len() == 0 {
    } else {
        lemma_entries_map_contains(s.drop_last(), k);
        if entry_key(s.last()) == k {
            assert(entry_key(s[s.len() - 1]) == k);
        } else if entries_map(s).contains_key(k) {
            let i = choose|i: int|
                0 <= i < s.drop_last().len() && entry_key(#[trigger] s.drop_last()[i]) == k;
            assert(s.drop_last()[i] == s[i]);
        } else if exists|i: int| 0 <= i < s.len() && entry_key(#[trigger] s[i]) == k {
            let i = choose|i: int| 0 <= i < s.len() && entry_key(#[trigger] s[i]) == k;
            assert(i < s.len() - 1);
            assert(s.drop_last()[i] == s[i]);
        }
    }
}

proof fn lemma_entries_map_at(s: Seq<CacheEntry>, i: int)
    requires
        distinct_keys(s),
        0 <= i < s.len(),
    ensures
        entries_map(s).contains_key(entry_key(s[i])),
        entries_map(s)[entry_key(s[i])] == s[i].cache@,
    decreases s.len(),
{
    if i == s.len() - 1 {
        assert(s.last() == s[i]);
    } else {
        assert(distinct_keys(s.drop_last())) by {
            assert forall|p: int, q: int| 0 <= p < q < s.drop_last().len() implies #[trigger]
            entry_key(s.drop_last()[p]) != #[trigger] entry_key(s.drop_last()[q]) by {
                assert(s.drop_last()[p] == s[p]);
                assert(s.drop_last()[q] == s[q]);
            }
        }
        assert(s.drop_last()[i] == s[i]);
        lemma_entries_map_at(s.drop_last(), i);
        assert(entry_key(s[i]) != entry_key(s[s.len() - 1]));
        assert(s.last() == s[s.len() - 1]);
    }
}

proof fn lemma_distinct_keys_remove(s: Seq<CacheEntry>, i: int)
    requires
        distinct_keys(s),
        0 <= i < s.len(),
    ensures
        distinct_keys(s.remove(i)),
        forall|j: int|
            0 <= j < s.remove(i).len() ==> entry_key(#[trigger] s.remove(i)[j]) != entry_key(s[i]),
{
    let t = s.remove(i);
    assert forall|p: int, q: int| 0 <= p < q < t.len() implies #[trigger] entry_key(t[p])
        != #[trigger] entry_key(t[q]) by {
        assert(t[p] == if p < i { s[p] } else { s[p + 1] });
        assert(t[q] == if q < i { s[q] } else { s[q + 1] });
    }
    assert forall|j: int| 0 <= j < t.len() implies entry_key(#[trigger] t[j]) != entry_key(s[i]) by {
        assert(t[j] == if j < i { s[j] } else { s[j + 1] });
    }
}

proof fn lemma_entries_map_remove(s: Seq<CacheEntry>, i: int)
    requires
        distinct_keys(s),
        0 <= i < s.len(),
    ensures
        entries_map(s.remove(i)) == entries_map(s).remove(entry_key(s[i])),
    decreases s.len(),
{
    let k = entry_key(s[i]);
    if i == s.len() - 1 {
        assert(s.remove(i) =~= s.drop_last());
        lemma_entries_map_contains(s.drop_last(), k);
        assert forall|j: int| 0 <= j < s.drop_last().len() implies entry_key(
            #[trigger] s.drop_last()[j],
        ) != k by {
            assert(s.drop_last()[j] == s[j]);
        }
        assert(!entries_map(s.drop_last()).contains_key(k));
        assert(entries_map(s.drop_last()).insert(k, s.last().cache@).remove(k) =~= entries_map(
            s.drop_last(),
        ));
    } else {
        let dl = s.drop_last();
        assert(distinct_keys(dl)) by {
            assert forall|p: int, q: int| 0 <= p < q < dl.len() implies #[trigger] entry_key(dl[p])
                != #[trigger] entry_key(dl[q]) by {
                assert(dl[p] == s[p]);
                assert(dl[q] == s[q]);
            }
        }
        assert(dl[i] == s[i]);
        lemma_entries_map_remove(dl, i);
        assert(s.remove(i).drop_last() =~= dl.remove(i));
        assert(s.remove(i).last() == s.last());
        assert(s.remove(i).len() == s.len() - 1);
        assert(entries_map(s.remove(i)) == entries_map(dl.remove(i)).insert(
            entry_key(s.last()),
            s.last().cache@,
        ));
        assert(entry_key(s.last()) == entry_key(s[s.len() - 1]));
        assert(k != entry_key(s.last()));
        assert(entries_map(dl).remove(k).insert(entry_key(s.last()), s.last().cache@)
            =~= entries_map(dl).insert(entry_key(s.last()), s.last().cache@).remove(k));
    }
}

impl KokoKeywords {
    /// The store's invariant: one entry per selector, every cached rule set
    /// validated.
    pub open spec fn wf(self) -> bool {
        &&& distinct_keys(self.keywords@)
        &&& forall|i: int|
            0 <= i < self.keywords@.len() ==> (#[trigger] self.keywords@[i]).cache.keywords@.wf()
    }

    /// A classifier with an empty cache for the given endpoint.
    pub fn new(url: String) -> (s: Self)
        ensures
            s.wf(),
            s@.cache == Map::<(Seq<char>, Seq<char>), KeywordsCacheView>::empty(),
            s@.url == url@,
    {
        KokoKeywords { keywords: Vec::new(), url }
    }

    /// The slot index holding the selector, if any.
    fn find_entry_index(&self, filter: &str, version: &str) -> (r: Option<usize>)
        ensures
            match r {
                Some(i) => i < self.keywords.len() && entry_key(self.keywords@[i as int]) == (
                    filter@,
                    version@,
                ),
                None => forall|j: int|
                    0 <= j < self.keywords@.len() ==> entry_key(#[trigger] self.keywords@[j]) != (
                        filter@,
                        version@,
                    ),
            },
    {
        let f = filter.to_owned();
        let v = version.to_owned();
        let mut i: usize = 0;
        while i < self.keywords.len()
            invariant
                0 <= i <= self.keywords.len(),
                f@ == filter@,
                v@ == version@,
                forall|j: int|
                    0 <= j < i ==> entry_key(#[trigger] self.keywords@[j]) != (filter@, version@),
            decreases self.keywords.len() - i,
        {
            let e = &self.keywords[i];
            if e.filter == f && e.version == v {
                return Some(i);
            }
            i += 1;
        }
        None
    }

    /// Replaces the selector's entry wholesale, or adds one.
    fn insert_entry(&mut self, filter: &str, version: &str, cache: KeywordsCache)
        requires
            old(self).wf(),
            cache.keywords@.wf(),
        ensures
            final(self).wf(),
            final(self)@.url == old(self)@.url,
            final(self)@.cache == old(self)@.cache.insert((filter@, version@), cache@),
    {
        let ghost key = (filter@, version@);
        let ghost s0 = self.keywords@;
        match self.find_entry_index(filter, version) {
            Some(i) => {
                proof {
                    lemma_entries_map_remove(s0, i as int);
                    lemma_distinct_keys_remove(s0, i as int);
                }
                self.keywords.remove(i);
            },
            None => {
                proof {
                    lemma_entries_map_contains(s0, key);
                    assert(entries_map(s0).remove(key) =~= entries_map(s0));
                }
            },
        }
        let ghost s1 = self.keywords@;
        assert(entries_map(s1) == entries_map(s0).remove(key));
        assert(forall|j: int|
            0 <= j < s1.len() ==> entry_key(#[trigger] s1[j]) != key && s1[j].cache.keywords@.wf());
        let entry = CacheEntry { filter: filter.to_owned(), version: version.to_owned(), cache };
        self.keywords.push(entry);
        proof {
            let s2 = self.keywords@;
            assert(s2.drop_last() =~= s1);
            assert(entry_key(s2.last()) == key);
            assert(entries_map(s2) == entries_map(s1).insert(key, cache@));
            assert(entries_map(s0).remove(key).insert(key, cache@) =~= entries_map(s0).insert(
                key,
                cache@,
            ));
            assert forall|p: int, q: int| 0 <= p < q < s2.len() implies #[trigger] entry_key(s2[p])
                != #[trigger] entry_key(s2[q]) by {
                if q < s2.len() - 1 {
                    assert(s2[p] == s1[p]);
                    assert(s2[q] == s1[q]);
                } else {
                    assert(s2[p] == s1[p]);
                    assert(s2[q] == s2.last());
                }
            }
            assert forall|j: int| 0 <= j < s2.len() implies (#[trigger] s2[j]).cache.keywords@.wf()
            by {
                if j < s2.len() - 1 {
                    assert(s2[j] == s1[j]);
                } else {
                    assert(s2[j] == s2.last());
                }
            }
        }
    }

    /// Answers a classify call from the cache alone: the match result while
    /// the selector's entry is fresh at `now`, nothing when a fetch is needed
    /// first. The store is not changed.
    pub fn verify(&self, keyword: &str, filter: &str, version: Option<&str>, now: u64) -> (r:
        Option<bool>)
        requires
            self.wf(),
        ensures
            r == spec_verify(self@, keyword@, filter@, spec_version(version), now),
    {
        let vs: &str = match version {
            Some(v) => v,
            None => "",
        };
        proof {
            reveal_strlit("");
            assert(vs@ =~= spec_version(version));
        }
        match self.find_entry_index(filter, vs) {
            Some(i) => {
                proof {
                    lemma_entries_map_at(self.keywords@, i as int);
                }
                let entry = &self.keywords[i];
                if now < entry.cache.expires_at {
                    Some(entry.cache.keywords.evaluate(keyword))
                } else {
                    None
                }
            },
            None => {
                proof {
                    lemma_entries_map_contains(self.keywords@, (filter@, vs@));
                }
                None
            },
        }
    }

    /// Answers a classify call from the selector's entry whether or not it
    /// is still fresh: the bounded retry after a refresh, which proceeds
    /// with the just-inserted rules even if they are already expired rather
    /// than fetching again.
    pub fn verify_loaded(&self, keyword: &str, filter: &str, version: Option<&str>) -> (r: Option<
        bool,
    >)
        requires
            self.wf(),
        ensures
            r == spec_verify_loaded(self@, keyword@, filter@, spec_version(version)),
    {
        let vs: &str = match version {
            Some(v) => v,
            None => "",
        };
        proof {
            reveal_strlit("");
            assert(vs@ =~= spec_version(version));
        }
        match self.find_entry_index(filter, vs) {
            Some(i) => {
                proof {
                    lemma_entries_map_at(self.keywords@, i as int);
                }
                Some(self.keywords[i].cache.keywords.evaluate(keyword))
            },
            None => {
                proof {
                    lemma_entries_map_contains(self.keywords@, (filter@, vs@));
                }
                None
            },
        }
    }

    /// Installs a fetched response for the selector: decodes the body,
    /// validates every pattern eagerly, computes the expiry that the
    /// freshness-control header dictates, and replaces the selector's entry
    /// wholesale. A body that fails structural validation or carries an
    /// invalid pattern is rejected and the store is left untouched, so a
    /// failed refresh never corrupts an existing entry.
    pub fn load_cache(
        &mut self,
        filter: &str,
        version: Option<&str>,
        body: &str,
        cache_header: Option<&str>,
        now: u64,
    ) -> (r: KokoResult<()>)
        requires
            old(self).wf(),
        ensures
            final(self).wf(),
            final(self)@.url == old(self)@.url,
            r is Ok <==> spec_payload_accepted(body@),
            r is Err ==> r == Err::<(), KokoError>(KokoError::CacheResultParseFailure),
            r is Err ==> final(self)@ == old(self)@,
            r is Ok ==> final(self)@.cache == old(self)@.cache.insert(
                (filter@, spec_version(version)),
                KeywordsCacheView {
                    expires_at: spec_expiry(now, spec_ttl(spec_header(cache_header))),
                    keywords: spec_payload_rules(body@),
                },
            ),
    {
        match parse_payload(body) {
            None => Err(KokoError::CacheResultParseFailure),
            Some((keywords, preprocess)) => {
                let rules = Keywords { keywords, preprocess };
                assert(rules@ == spec_payload_rules(body@));
                if !rules.validate() {
                    return Err(KokoError::CacheResultParseFailure);
                }
                let ttl = response_ttl(cache_header);
                let expires_at = if ttl <= u64::MAX - now {
                    now + ttl
                } else {
                    u64::MAX
                };
                let vs: &str = match version {
                    Some(v) => v,
                    None => "",
                };
                proof {
                    reveal_strlit("");
                    assert(vs@ =~= spec_version(version));
                }
                self.insert_entry(filter, vs, KeywordsCache { expires_at, keywords: rules });
                Ok(())
            },
        }
    }

    /// The expiry instant of the selector's entry, fresh or not, if one is
    /// cached.
    pub fn expires_at(&self, filter: &str, version: Option<&str>) -> (r: Option<u64>)
        requires
            self.wf(),
        ensures
            match r {
                Some(t) => self@.cache.contains_key((filter@, spec_version(version)))
                    && self@.cache[(filter@, spec_version(version))].expires_at == t,
                None => !self@.cache.contains_key((filter@, spec_version(version))),
            },
    {
        let vs: &str = match version {
            Some(v) => v,
            None => "",
        };
        proof {
            reveal_strlit("");
            assert(vs@ =~= spec_version(version));
        }
        match self.find_entry_index(filter, vs) {
            Some(i) => {
                proof {
                    lemma_entries_map_at(self.keywords@, i as int);
                }
                Some(self.keywords[i].cache.expires_at)
            },
            None => {
                proof {
                    lemma_entries_map_contains(self.keywords@, (filter@, vs@));
                }
                None
            },
        }
    }
}

} // verus!
