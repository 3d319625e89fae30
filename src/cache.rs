use crate::preimage::{preimage_valid, validate_preimage, OracleError, PreimageKey};
use std::collections::hash_map::RandomState;
use vstd::prelude::*;

verus! {

#[verifier::external_type_specification]
#[verifier::external_body]
#[verifier::reject_recursive_types(K)]
#[verifier::reject_recursive_types(V)]
#[verifier::reject_recursive_types(S)]
pub struct ExLruCache<K, V, S>(lru::LruCache<K, V, S>);

/// The entries of an LRU cache, by rendered key.
pub uninterp spec fn lru_entries(c: lru::LruCache<[u8; 32], Vec<u8>, RandomState>) -> Map<Seq<u8>, Seq<u8>>;

/// The number of entries an LRU cache was made to hold.
pub uninterp spec fn lru_capacity(c: lru::LruCache<[u8; 32], Vec<u8>, RandomState>) -> nat;

/// Relies on lru::LruCache::new: an empty cache that holds up to `cap` entries.
#[verifier::external_body]
fn lru_new(cap: usize) -> (r: lru::LruCache<[u8; 32], Vec<u8>, RandomState>)
    requires
        cap > 0,
    ensures
        lru_entries(r) =~= Map::empty(),
        lru_capacity(r) == cap,
{
    lru::LruCache::with_hasher(std::num::NonZeroUsize::new(cap).unwrap(), RandomState::new())
}

/// Relies on lru::LruCache::get: the value stored under the key, if any; the
/// lookup only changes the order of recency, not the entries.
#[verifier::external_body]
fn lru_get(c: &mut lru::LruCache<[u8; 32], Vec<u8>, RandomState>, key: &[u8; 32]) -> (r: Option<Vec<u8>>)
    ensures
        lru_entries(*final(c)) == lru_entries(*old(c)),
        lru_capacity(*final(c)) == lru_capacity(*old(c)),
        r is Some <==> lru_entries(*old(c)).contains_key(key@),
        r is Some ==> r->Some_0@ == lru_entries(*old(c))[key@],
{
    c.get(key).cloned()
}

/// Relies on lru::LruCache::put: the key now maps to the value; any other
/// entry that remains is unchanged; the cache never holds more than its
/// capacity; at most one other entry leaves, and only when the key was
/// absent and the cache full (the least recently used one, an order these
/// names do not record).
#[verifier::external_body]
fn lru_put(c: &mut lru::LruCache<[u8; 32], Vec<u8>, RandomState>, key: [u8; 32], value: Vec<u8>)
    ensures
        lru_capacity(*final(c)) == lru_capacity(*old(c)),
        lru_entries(*final(c)).contains_key(key@),
        lru_entries(*final(c))[key@] == value@,
        forall|k: Seq<u8>|
            k != key@ && #[trigger] lru_entries(*final(c)).contains_key(k) ==> lru_entries(
                *old(c),
            ).contains_key(k) && lru_entries(*final(c))[k] == lru_entries(*old(c))[k],
        lru_entries(*final(c)).dom().finite(),
        lru_entries(*final(c)).len() <= lru_capacity(*final(c)),
        forall|a: Seq<u8>, b: Seq<u8>|
            a != key@ && b != key@ && lru_entries(*old(c)).contains_key(a) && lru_entries(
                *old(c),
            ).contains_key(b) && !#[trigger] lru_entries(*final(c)).contains_key(a)
                && !#[trigger] lru_entries(*final(c)).contains_key(b) ==> a == b,
        lru_entries(*old(c)).contains_key(key@) || lru_entries(*old(c)).len() < lru_capacity(
            *old(c),
        ) ==> forall|k: Seq<u8>|
            #[trigger] lru_entries(*old(c)).contains_key(k) ==> lru_entries(
                *final(c),
            ).contains_key(k),
{
    c.put(key, value);
}

/// Copies a byte vector.
fn copy_bytes(v: &Vec<u8>) -> (r: Vec<u8>)
    ensures
        r@ == v@,
{
    let mut r: Vec<u8> = Vec::new();
    let mut i: usize = 0;
    while i < v.len()
        invariant
            0 <= i <= v@.len(),
            r@ == v@.subrange(0, i as int),
        decreases v@.len() - i,
    {
        r.push(v[i]);
        assert(v@.subrange(0, i + 1) =~= v@.subrange(0, i as int).push(v@[i as int]));
        i = i + 1;
    }
    assert(v@.subrange(0, v@.len() as int) =~= v@);
    r
}

/// A bounded, least-recently-used cache of preimages in front of the host.
/// Only values that passed `validate_preimage` for their key are cached.
pub struct CachingOracle {
    cache: lru::LruCache<[u8; 32], Vec<u8>, RandomState>,
}

impl CachingOracle {
    /// The cached preimages, by rendered key.
    pub closed spec fn entries(&self) -> Map<Seq<u8>, Seq<u8>> {
        lru_entries(self.cache)
    }

    /// The number of entries the cache holds at most.
    pub closed spec fn capacity(&self) -> nat {
        lru_capacity(self.cache)
    }

    /// The cache holds at most its capacity, and every cached value is a
    /// valid preimage of its key.
    pub open spec fn wf(&self) -> bool {
        &&& self.entries().dom().finite()
        &&& self.entries().len() <= self.capacity()
        &&& forall|k: Seq<u8>| #[trigger]
            self.entries().contains_key(k) ==> preimage_valid(k, self.entries()[k])
    }

    /// An empty cache holding up to `cache_size` preimages.
    pub fn new(cache_size: usize) -> (r: CachingOracle)
        requires
            cache_size > 0,
        ensures
            r.wf(),
            r.entries() =~= Map::empty(),
            r.capacity() == cache_size,
    {
        CachingOracle { cache: lru_new(cache_size) }
    }

    /// The cached preimage of `key`, if there is one.
    pub fn get_cached(&mut self, key: &PreimageKey) -> (r: Option<Vec<u8>>)
        requires
            old(self).wf(),
        ensures
            final(self).wf(),
            final(self).entries() == old(self).entries(),
            final(self).capacity() == old(self).capacity(),
            r is Some <==> old(self).entries().contains_key(key@),
            r is Some ==> r->Some_0@ == old(self).entries()[key@],
            r is Some ==> preimage_valid(key@, r->Some_0@),
    {
        let k = key.to_bytes();
        let r = lru_get(&mut self.cache, &k.bytes);
        assert(self.entries() == old(self).entries());
        r
    }

    /// Validates a preimage fetched from the host and caches it; an invalid
    /// value is refused and leaves the cache unchanged.
    pub fn accept(&mut self, key: &PreimageKey, value: Vec<u8>) -> (r: Result<
        Vec<u8>,
        OracleError,
    >)
        requires
            old(self).wf(),
        ensures
            final(self).wf(),
            final(self).capacity() == old(self).capacity(),
            r is Ok <==> preimage_valid(key@, value@),
            r is Ok ==> r->Ok_0@ == value@,
            r is Ok ==> final(self).entries().contains_key(key@) && final(self).entries()[key@]
                == value@,
            r is Ok ==> forall|k: Seq<u8>|
                k != key@ && #[trigger] final(self).entries().contains_key(k) ==> old(self).entries().contains_key(k) && final(self).entries()[k] == old(self).entries()[k],
            r is Ok ==> forall|a: Seq<u8>, b: Seq<u8>|
                a != key@ && b != key@ && old(self).entries().contains_key(a) && old(self).entries().contains_key(b) && !#[trigger] final(self).entries().contains_key(a)
                    && !#[trigger] final(self).entries().contains_key(b) ==> a == b,
            r is Ok && (old(self).entries().contains_key(key@) || old(self).entries().len() < old(self).capacity()) ==> forall|k: Seq<u8>|
                #[trigger] old(self).entries().contains_key(k) ==> final(self).entries().contains_key(k),
            r is Err ==> r->Err_0 == OracleError::InvalidPreimage,
            r is Err ==> final(self).entries() == old(self).entries(),
    {
        match validate_preimage(key, value.as_slice()) {
            Ok(()) => {
                let out = copy_bytes(&value);
                let k = key.to_bytes();
                let ghost before = self.entries();
                lru_put(&mut self.cache, k.bytes, value);
                assert forall|j: Seq<u8>| #[trigger]
                    self.entries().contains_key(j) implies preimage_valid(
                    j,
                    self.entries()[j],
                ) by {
                    if j != key@ {
                        assert(before.contains_key(j));
                    }
                }
                Ok(out)
            },
            Err(e) => Err(e),
        }
    }

    /// The cached preimage of `key` for a caller that expects exactly `len`
    /// bytes: `Ok(None)` when nothing is cached, an error when the cached
    /// value has another length.
    pub fn get_exact_cached(&mut self, key: &PreimageKey, len: usize) -> (r: Result<
        Option<Vec<u8>>,
        OracleError,
    >)
        requires
            old(self).wf(),
        ensures
            final(self).wf(),
            final(self).entries() == old(self).entries(),
            final(self).capacity() == old(self).capacity(),
            r == Ok::<Option<Vec<u8>>, OracleError>(None) <==> !old(self).entries().contains_key(
                key@,
            ),
            r is Err <==> old(self).entries().contains_key(key@) && old(self).entries()[key@].len()
                != len,
            r is Err ==> r->Err_0 == OracleError::LengthMismatch,
            r is Ok && r->Ok_0 is Some ==> r->Ok_0->Some_0@ == old(self).entries()[key@],
    {
        match self.get_cached(key) {
            Some(v) => {
                if v.len() == len {
                    Ok(Some(v))
                } else {
                    Err(OracleError::LengthMismatch)
                }
            },
            None => Ok(None),
        }
    }

    /// Validates a preimage of exactly `len` bytes fetched from the host and
    /// caches it.
    pub fn accept_exact(&mut self, key: &PreimageKey, value: Vec<u8>, len: usize) -> (r: Result<
        Vec<u8>,
        OracleError,
    >)
        requires
            old(self).wf(),
        ensures
            final(self).wf(),
            final(self).capacity() == old(self).capacity(),
            r is Ok <==> value@.len() == len && preimage_valid(key@, value@),
            r is Ok ==> r->Ok_0@ == value@,
            r is Ok ==> final(self).entries().contains_key(key@) && final(self).entries()[key@]
                == value@,
            r == Err::<Vec<u8>, OracleError>(OracleError::LengthMismatch) <==> value@.len() != len,
            r is Err ==> final(self).entries() == old(self).entries(),
    {
        if value.len() != len {
            return Err(OracleError::LengthMismatch);
        }
        self.accept(key, value)
    }
}

} // verus!
