use vstd::prelude::*;
use vstd::hash_map::StringHashMap;
use crate::bytes::{
    find_subsequence, first_occurrence, le4, le_bytes, lemma_first_occurrence_unique, occurs_at,
    overwrite,
};
use crate::entry::{copy_bytes, Entry, Template};
use crate::error::CacheError;
use crate::optimized_cache::OptimizedCache;

verus! {

/// The marker that a new cache tags templates with.
pub const STUB: usize = 0x13371337;

/// What a cache holds: the marker for the next tagged template, whether
/// patched templates are kept for reuse, the templates by name, and the
/// patched templates kept by (name, value).
pub struct CacheModel {
    pub stub: usize,
    pub optimize: bool,
    pub entries: Map<Seq<char>, Template>,
    pub memo: Map<(Seq<char>, usize), Seq<u8>>,
}

/// `r` with its bytes as a sequence.
pub open spec fn bytes_result(r: Result<Vec<u8>, CacheError>) -> Result<Seq<u8>, CacheError> {
    match r {
        Ok(v) => Ok(v@),
        Err(e) => Err(e),
    }
}

/// A template patched with `value`: the first four bytes that spell its
/// marker, least significant first, are replaced by those of `value`.
pub open spec fn patched(t: Template, value: usize) -> Result<Seq<u8>, CacheError> {
    if t.marker == 0 {
        Err(CacheError::InvalidOperationForEntry)
    } else {
        match first_occurrence(t.bytes, le4(t.marker as int)) {
            Some(p) => Ok(overwrite(t.bytes, p, le4(value as int))),
            None => Err(CacheError::MarkerNotFound),
        }
    }
}

impl CacheModel {
    /// The bytes stored under `name`.
    pub open spec fn lookup(self, name: Seq<char>) -> Result<Seq<u8>, CacheError> {
        if self.entries.contains_key(name) {
            Ok(self.entries[name].bytes)
        } else {
            Err(CacheError::NotFound)
        }
    }

    /// `bytes` stored under `name` with the marker `marker`.
    pub open spec fn inserted(self, name: Seq<char>, bytes: Seq<u8>, marker: usize) -> CacheModel {
        CacheModel {
            entries: self.entries.insert(name, Template { bytes, marker }),
            ..self
        }
    }

    /// What `get_stub` returns: a kept result where there is one, else the
    /// template under `name` patched with `value`.
    pub open spec fn stub_result(self, name: Seq<char>, value: usize) -> Result<
        Seq<u8>,
        CacheError,
    > {
        if self.optimize && self.memo.contains_key((name, value)) {
            Ok(self.memo[(name, value)])
        } else if !self.entries.contains_key(name) {
            Err(CacheError::NotFound)
        } else {
            patched(self.entries[name], value)
        }
    }

    /// The cache after `get_stub`: with reuse on, a result is kept under
    /// (name, value).
    pub open spec fn after_stub(self, name: Seq<char>, value: usize) -> CacheModel {
        match self.stub_result(name, value) {
            Ok(b) => if self.optimize {
                CacheModel { memo: self.memo.insert((name, value), b), ..self }
            } else {
                self
            },
            Err(_) => self,
        }
    }
}

/// Bytes stored under a name, with a marker or without, are read back
/// unchanged.
pub proof fn lemma_insert_then_get(c: CacheModel, name: Seq<char>, bytes: Seq<u8>, marker: usize)
    ensures
        c.inserted(name, bytes, marker).lookup(name) == Ok::<Seq<u8>, CacheError>(bytes),
{
}

/// A template stored with the current marker and then patched with `value`
/// comes back with the first four bytes that spell the marker replaced by
/// those of `value`, and every other byte as it was; unless an earlier
/// result for the same name and value is kept for reuse.
pub proof fn lemma_patch_after_insert_with_stub(
    c: CacheModel,
    name: Seq<char>,
    template: Seq<u8>,
    value: usize,
    p: int,
)
    requires
        c.stub != 0,
        !(c.optimize && c.memo.contains_key((name, value))),
        first_occurrence(template, le4(c.stub as int)) == Some(p),
    ensures
        ({
            let r = c.inserted(name, template, c.stub).stub_result(name, value);
            &&& r == Ok::<Seq<u8>, CacheError>(overwrite(template, p, le4(value as int)))
            &&& r matches Ok(b) && b.len() == template.len() && b.subrange(p, p + 4) == le4(
                value as int,
            ) && forall|i: int|
                0 <= i < template.len() && !(p <= i < p + 4) ==> b[i] == template[i]
        }),
{
    let b = overwrite(template, p, le4(value as int));
    assert(b.subrange(p, p + 4) =~= le4(value as int));
}

/// With reuse on, patching the same name with the same value twice gives
/// the same result both times, and after the first call that result is kept
/// under (name, value).
pub proof fn lemma_stub_reuse(c: CacheModel, name: Seq<char>, value: usize)
    requires
        c.optimize,
    ensures
        c.after_stub(name, value).stub_result(name, value) == c.stub_result(name, value),
        c.stub_result(name, value) matches Ok(b) ==> c.after_stub(name, value).memo.contains_key(
            (name, value),
        ) && c.after_stub(name, value).memo[(name, value)] == b,
{
}

/// Patching a name that is not stored fails with `NotFound`; patching a
/// template whose marker bytes are gone fails with `MarkerNotFound`; unless
/// a result for the same name and value is kept for reuse.
pub proof fn lemma_stub_failures(c: CacheModel, name: Seq<char>, value: usize)
    requires
        !(c.optimize && c.memo.contains_key((name, value))),
    ensures
        !c.entries.contains_key(name) ==> c.stub_result(name, value) == Err::<Seq<u8>, CacheError>(
            CacheError::NotFound,
        ),
        c.entries.contains_key(name) && c.entries[name].marker != 0 && (forall|j: int|
            !occurs_at(c.entries[name].bytes, le4(c.entries[name].marker as int), j))
            ==> c.stub_result(name, value) == Err::<Seq<u8>, CacheError>(
            CacheError::MarkerNotFound,
        ),
{
}

/// Some item of `list` has the key `k`.
spec fn listed(list: Seq<(OptimizedCache, Vec<u8>)>, k: (Seq<char>, usize)) -> bool {
    exists|i: int| 0 <= i < list.len() && (#[trigger] list[i]).0.key() == k
}

/// Instruction templates by name, with a marker that `get_stub` patches.
pub struct Cache {
    stub: usize,
    cache: StringHashMap<Entry>,
    optimized_cache: Vec<(OptimizedCache, Vec<u8>)>,
    memo: Ghost<Map<(Seq<char>, usize), Seq<u8>>>,
    optimize: bool,
}

impl View for Cache {
    type V = CacheModel;

    closed spec fn view(&self) -> CacheModel {
        CacheModel {
            stub: self.stub,
            optimize: self.optimize,
            entries: self.cache@.map_values(|e: Entry| e@),
            memo: self.memo@,
        }
    }
}

impl Cache {
    /// The kept results are exactly those listed in `optimized_cache`.
    pub closed spec fn wf(&self) -> bool {
        &&& forall|i: int|
            0 <= i < self.optimized_cache@.len() ==> self.memo@.contains_key(
                (#[trigger] self.optimized_cache@[i]).0.key(),
            ) && self.memo@[self.optimized_cache@[i].0.key()] == self.optimized_cache@[i].1@
        &&& forall|k: (Seq<char>, usize)|
            #[trigger] self.memo@.contains_key(k) ==> listed(self.optimized_cache@, k)
    }

    /// An empty cache with marker `STUB`; with `optimize`, patched
    /// templates are kept for reuse.
    pub fn new(optimize: bool) -> (r: Cache)
        ensures
            r.wf(),
            r@ == (CacheModel {
                stub: STUB,
                optimize,
                entries: Map::empty(),
                memo: Map::empty(),
            }),
    {
        let r = Cache {
            stub: STUB,
            cache: StringHashMap::new(),
            optimized_cache: Vec::new(),
            memo: Ghost(Map::empty()),
            optimize,
        };
        assert(r@.entries =~= Map::empty());
        r
    }

    /// Sets the marker that later calls of `insert_with_stub` tag with.
    pub fn set_stub(&mut self, stub: usize)
        requires
            old(self).wf(),
        ensures
            final(self).wf(),
            final(self)@ == (CacheModel { stub, ..old(self)@ }),
    {
        self.stub = stub;
    }

    /// Stores `code` under `name`, not to be patched.
    pub fn insert(&mut self, name: String, code: Vec<u8>)
        requires
            old(self).wf(),
        ensures
            final(self).wf(),
            final(self)@ == old(self)@.inserted(name@, code@, 0),
    {
        self.cache.insert(name, Entry { code, stub: 0 });
        assert(self@.entries =~= old(self)@.inserted(name@, code@, 0).entries);
    }

    /// Stores `code` under `name`, tagged with the current marker.
    pub fn insert_with_stub(&mut self, name: String, code: Vec<u8>)
        requires
            old(self).wf(),
        ensures
            final(self).wf(),
            final(self)@ == old(self)@.inserted(name@, code@, old(self)@.stub),
    {
        let stub = self.stub;
        self.cache.insert(name, Entry { code, stub });
        assert(self@.entries =~= old(self)@.inserted(name@, code@, stub).entries);
    }

    /// A copy of the bytes stored under `name`.
    pub fn get(&self, name: String) -> (r: Result<Vec<u8>, CacheError>)
        ensures
            bytes_result(r) == self@.lookup(name@),
    {
        match self.cache.get(name.as_str()) {
            Some(e) => Ok(copy_bytes(&e.code)),
            None => Err(CacheError::NotFound),
        }
    }

    /// The kept result for `key`, where reuse is on and there is one.
    fn check_cache(&self, key: &OptimizedCache) -> (r: Option<Vec<u8>>)
        requires
            self.wf(),
        ensures
            match r {
                Some(v) => self.optimize && self.memo@.contains_key(key.key()) && v@
                    == self.memo@[key.key()],
                None => !(self.optimize && self.memo@.contains_key(key.key())),
            },
    {
        if !self.optimize {
            return None;
        }
        let mut i: usize = 0;
        while i < self.optimized_cache.len()
            invariant
                self.wf(),
                self.optimize,
                forall|j: int| 0 <= j < i ==> (#[trigger] self.optimized_cache@[j]).0.key() != key.key(),
            decreases self.optimized_cache@.len() - i,
        {
            if self.optimized_cache[i].0 == *key {
                assert(self.memo@.contains_key(self.optimized_cache@[i as int].0.key()));
                return Some(copy_bytes(&self.optimized_cache[i].1));
            }
            i = i + 1;
        }
        None
    }

    /// The template under `name` with its marker replaced by `value`, or a
    /// result kept from an earlier call; with reuse on, the result is kept
    /// under (name, value). The stored template is never changed.
    pub fn get_stub(&mut self, name: String, value: usize) -> (r: Result<Vec<u8>, CacheError>)
        requires
            old(self).wf(),
        ensures
            final(self).wf(),
            bytes_result(r) == old(self)@.stub_result(name@, value),
            final(self)@ == old(self)@.after_stub(name@, value),
    {
        let key = OptimizedCache { name, value };
        if let Some(hit) = self.check_cache(&key) {
            proof {
                assert(self@.memo.insert(key.key(), hit@) =~= self@.memo);
            }
            return Ok(hit);
        }
        let entry = match self.cache.get(key.name.as_str()) {
            Some(e) => e,
            None => return Err(CacheError::NotFound),
        };
        if entry.stub == 0 {
            return Err(CacheError::InvalidOperationForEntry);
        }
        let marker = le_bytes(entry.stub as u64);
        let mut code = copy_bytes(&entry.code);
        let pos = match find_subsequence(code.as_slice(), marker.as_slice()) {
            Some(p) => p,
            None => return Err(CacheError::MarkerNotFound),
        };
        proof {
            lemma_first_occurrence_unique(entry.code@, marker@, pos as int);
        }
        let replacement = le_bytes(value as u64);
        let ghost unpatched = code@;
        let n = code.len();
        let mut k: usize = 0;
        while k < 4
            invariant
                pos + 4 <= unpatched.len(),
                n == unpatched.len(),
                code@.len() == unpatched.len(),
                replacement@ == le4(value as int),
                k <= 4,
                forall|j: int|
                    0 <= j < unpatched.len() ==> #[trigger] code@[j] == if pos <= j < pos + k {
                        replacement@[j - pos]
                    } else {
                        unpatched[j]
                    },
            decreases 4 - k,
        {
            code.set(pos + k, replacement[k]);
            k = k + 1;
        }
        assert(code@ =~= overwrite(unpatched, pos as int, le4(value as int)));
        if self.optimize {
            let kept = copy_bytes(&code);
            let ghost k2 = key.key();
            self.optimized_cache.push((key, kept));
            self.memo = Ghost(self.memo@.insert(k2, code@));
            proof {
                assert forall|k: (Seq<char>, usize)| #[trigger] self.memo@.contains_key(k) implies listed(
                    self.optimized_cache@,
                    k,
                ) by {
                    if k == k2 {
                        assert(self.optimized_cache@[self.optimized_cache@.len() - 1].0.key() == k);
                    } else {
                        assert(old(self).memo@.contains_key(k));
                        let i = choose|i: int|
                            0 <= i < old(self).optimized_cache@.len() && (#[trigger] old(self).optimized_cache@[i]).0.key() == k;
                        assert(self.optimized_cache@[i] == old(self).optimized_cache@[i]);
                    }
                }
            }
        }
        Ok(code)
    }
}

} // verus!
