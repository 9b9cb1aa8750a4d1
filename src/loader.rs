use vstd::prelude::*;
use crate::cache::{
    begin_spec, fetched_view, finish_spec, lemma_begin_keeps_unique, lemma_begin_step, lemma_find_index,
    outcome_spec, unique, FetchError, LoadError, LoadStep, ModuleCache,
};
use crate::fs::{FsError, FsModule, HostIo, IoCall};
use crate::permissions::{counted, opt_view, verdict, Capability, Verdict};
use crate::resolve::{is_builtin, resolution, specifier_is_builtin, str_view, ResolutionError, Resolver};
use crate::text::{chars_of, copy_vec, same_chars};

verus! {

/// A module that the engine provides itself, under the reserved scheme.
#[derive(Clone, Debug)]
pub struct BuiltinModule {
    pub name: String,
    pub source: Vec<u8>,
}

#[derive(Clone, Copy, Debug, PartialEq, Eq, Structural)]
pub enum ImportError {
    Resolution(ResolutionError),
    Load(LoadError),
}

/// The first built-in module named `name`, if any.
pub open spec fn first_named(bs: Seq<BuiltinModule>, name: Seq<char>) -> Option<int>
    decreases bs.len(),
{
    if bs.len() == 0 {
        None
    } else {
        match first_named(bs.drop_last(), name) {
            Some(k) => Some(k),
            None => if bs.last().name@ == name {
                Some(bs.len() - 1)
            } else {
                None
            },
        }
    }
}

/// What fetching the built-in module `name` gives.
pub open spec fn builtin_fetch(bs: Seq<BuiltinModule>, name: Seq<char>) -> Result<Seq<u8>, FetchError> {
    match first_named(bs, name) {
        Some(k) => Ok(bs[k].source@),
        None => Err(FetchError::NotFound),
    }
}

pub open spec fn lift(r: Result<usize, LoadError>) -> Result<usize, ImportError> {
    match r {
        Ok(i) => Ok(i),
        Err(e) => Err(ImportError::Load(e)),
    }
}

/// `after` and `r` are what importing the module of identity `id` gives on
/// `before`. A settled record is returned with no fetch and no broker
/// request; a record in flight (a cycle) is returned pending. Otherwise a
/// built-in module is fetched from the engine's own table without the
/// broker, and a file through the broker's read check: a denial fails the
/// record for good without touching the backend.
pub open spec fn imported<B: HostIo>(before: Loader<B>, after: Loader<B>, id: Seq<char>, r: Result<usize, ImportError>) -> bool {
    let (v1, step) = begin_spec(before.cache@, id);
    match step {
        LoadStep::Cached(i) => after.cache@ == before.cache@ && after.fs == before.fs
            && outcome_spec(before.cache@, i as int) == Some(lift_back(r)),
        LoadStep::Wait(i) => after.cache@ == before.cache@ && after.fs == before.fs && r == Ok::<usize, ImportError>(i),
        LoadStep::Fetch(i) => if is_builtin(id) {
            after.fs == before.fs && (after.cache@, lift_back(r)) == finish_spec(v1, i as int, builtin_fetch(before.builtins@, id))
        } else {
            &&& counted(before.fs.broker, after.fs.broker)
            &&& !(r matches Err(ImportError::Resolution(_)))
            &&& match verdict(before.fs.broker.policy, Capability::Read, Some(id), false, false) {
                Verdict::Denied(_) => after.fs.backend == before.fs.backend && (after.cache@, lift_back(r))
                    == finish_spec(v1, i as int, Err(FetchError::Denied)),
                Verdict::Allowed => exists|f: Result<Seq<u8>, FetchError>|
                    after.fs.backend.calls() == before.fs.backend.calls().push(IoCall::Read(id, f))
                    && (after.cache@, lift_back(r)) == finish_spec(v1, i as int, f),
            }
        },
    }
}

/// `after` and `r` are what importing `specifier` from `referrer` gives on
/// `before`. A specifier that does not resolve changes nothing: there is no
/// identity to key a record by, and since resolution is pure the same
/// import fails the same way every time, as a cached failure would, with
/// no fetch and no permission check.
pub open spec fn import_effect<B: HostIo>(
    before: Loader<B>,
    after: Loader<B>,
    specifier: Seq<char>,
    referrer: Option<Seq<char>>,
    r: Result<usize, ImportError>,
) -> bool {
    &&& after.resolver == before.resolver
    &&& after.builtins == before.builtins
    &&& match resolution(specifier, referrer, opt_view(before.resolver.base_dir)) {
        Err(e) => r == Err::<usize, ImportError>(ImportError::Resolution(e)) && after.cache@ == before.cache@
            && after.fs == before.fs,
        Ok(id) => imported(before, after, id, r),
    }
}

/// `after` and `r` are what a non-blocking request for `specifier` from
/// `referrer` gives on `before`. A fetch that the cache hands out for a
/// file is checked with the broker first: a denial fails the record for
/// good; an allowance leaves the record in flight for the caller's
/// deferred read. Requests that find the fetch in flight wait on it,
/// with no broker request.
pub open spec fn request_effect<B: HostIo>(
    before: Loader<B>,
    after: Loader<B>,
    specifier: Seq<char>,
    referrer: Option<Seq<char>>,
    r: Result<LoadStep, ImportError>,
) -> bool {
    &&& after.resolver == before.resolver
    &&& after.builtins == before.builtins
    &&& after.fs.backend == before.fs.backend
    &&& match resolution(specifier, referrer, opt_view(before.resolver.base_dir)) {
        Err(e) => r == Err::<LoadStep, ImportError>(ImportError::Resolution(e)) && after.cache@ == before.cache@
            && after.fs == before.fs,
        Ok(id) => {
            let (v1, step) = begin_spec(before.cache@, id);
            if step is Fetch && !is_builtin(id) {
                &&& counted(before.fs.broker, after.fs.broker)
                &&& match verdict(before.fs.broker.policy, Capability::Read, Some(id), false, false) {
                    Verdict::Allowed => after.cache@ == v1 && r == Ok::<LoadStep, ImportError>(step),
                    Verdict::Denied(_) => after.cache@ == finish_spec(v1, step->Fetch_0 as int, Err(FetchError::Denied)).0
                        && r == Err::<LoadStep, ImportError>(ImportError::Load(LoadError::Fetch(FetchError::Denied))),
                }
            } else {
                after.cache@ == v1 && after.fs == before.fs && r == Ok::<LoadStep, ImportError>(step)
            }
        },
    }
}

/// The load result inside an import result.
pub open spec fn lift_back(r: Result<usize, ImportError>) -> Result<usize, LoadError> {
    match r {
        Ok(i) => Ok(i),
        Err(ImportError::Load(e)) => Err(e),
        Err(ImportError::Resolution(_)) => Err(LoadError::Aborted),
    }
}

/// Resolves, fetches and caches the modules of one engine instance.
pub struct Loader<B: HostIo> {
    pub resolver: Resolver,
    pub cache: ModuleCache,
    pub fs: FsModule<B>,
    pub builtins: Vec<BuiltinModule>,
}

proof fn lemma_first_named_extend(bs: Seq<BuiltinModule>, name: Seq<char>, k: int)
    requires
        0 <= k < bs.len(),
        first_named(bs.subrange(0, k), name) is None,
    ensures
        first_named(bs.subrange(0, k + 1), name) == if bs[k].name@ == name {
            Some(k)
        } else {
            None::<int>
        },
{
    assert(bs.subrange(0, k + 1).drop_last() =~= bs.subrange(0, k));
}

fn fetch_builtin(bs: &Vec<BuiltinModule>, name: &str) -> (r: Result<Vec<u8>, FetchError>)
    ensures
        fetched_view(r) == builtin_fetch(bs@, name@),
{
    let mut k: usize = 0;
    while k < bs.len()
        invariant
            k <= bs@.len(),
            first_named(bs@.subrange(0, k as int), name@) is None,
        decreases bs@.len() - k,
    {
        proof {
            lemma_first_named_extend(bs@, name@, k as int);
        }
        let n = chars_of(bs[k].name.as_str());
        if same_chars(&n, name) {
            proof {
                lemma_first_named_prefix(bs@, name@, k as int);
            }
            return Ok(copy_vec(&bs[k].source));
        }
        k = k + 1;
    }
    assert(bs@.subrange(0, bs@.len() as int) =~= bs@);
    Err(FetchError::NotFound)
}

/// A first match in a prefix is the first match in the whole sequence.
proof fn lemma_first_named_prefix(bs: Seq<BuiltinModule>, name: Seq<char>, k: int)
    requires
        0 <= k < bs.len(),
        first_named(bs.subrange(0, k + 1), name) == Some(k),
    ensures
        first_named(bs, name) == Some(k),
    decreases bs.len(),
{
    if bs.len() == k + 1 {
        assert(bs.subrange(0, k + 1) =~= bs);
    } else {
        assert(bs.drop_last().subrange(0, k + 1) =~= bs.subrange(0, k + 1));
        lemma_first_named_prefix(bs.drop_last(), name, k);
    }
}

impl<B: HostIo> Loader<B> {
    pub fn new(resolver: Resolver, fs: FsModule<B>, builtins: Vec<BuiltinModule>) -> (r: Loader<B>)
        ensures
            r.resolver == resolver,
            r.fs == fs,
            r.builtins == builtins,
            r.cache@ == Seq::<crate::cache::RecordView>::empty(),
            r.cache.wf(),
    {
        Loader { resolver, cache: ModuleCache::new(), fs, builtins }
    }

    /// Starts a non-blocking import of `specifier` from `referrer`. On
    /// `Fetch(i)` the caller reads the module's bytes and hands them to
    /// `land`; on `Wait(i)` it waits for record `i`'s outcome.
    pub fn request(&mut self, specifier: &str, referrer: Option<&str>) -> (r: Result<LoadStep, ImportError>)
        requires
            old(self).cache.wf(),
        ensures
            final(self).cache.wf(),
            request_effect(*old(self), *final(self), specifier@, str_view(referrer), r),
    {
        let id = match self.resolver.resolve(specifier, referrer) {
            Ok(id) => id,
            Err(e) => {
                return Err(ImportError::Resolution(e));
            },
        };
        // The cache's length fits in a usize, as `lemma_begin_step` needs.
        let _ = self.cache.len();
        proof {
            lemma_begin_step(self.cache@, id@);
        }
        let step = self.cache.begin(id.as_str());
        match step {
            LoadStep::Fetch(i) => {
                let cs = chars_of(id.as_str());
                if specifier_is_builtin(&cs) {
                    return Ok(step);
                }
                match self.fs.broker.check_read(id.as_str(), "import") {
                    Ok(()) => Ok(step),
                    Err(_) => {
                        let _ = self.cache.finish(i, Err(FetchError::Denied));
                        Err(ImportError::Load(LoadError::Fetch(FetchError::Denied)))
                    },
                }
            },
            _ => Ok(step),
        }
    }

    /// Settles record `index`, whose fetch was handed out by `request`.
    pub fn land(&mut self, index: usize, fetched: Result<Vec<u8>, FetchError>) -> (r: Result<usize, LoadError>)
        requires
            old(self).cache.wf(),
            index < old(self).cache@.len(),
            old(self).cache@[index as int].in_flight,
        ensures
            final(self).cache.wf(),
            (final(self).cache@, r) == finish_spec(old(self).cache@, index as int, fetched_view(fetched)),
            final(self).fs == old(self).fs,
            final(self).resolver == old(self).resolver,
            final(self).builtins == old(self).builtins,
    {
        self.cache.finish(index, fetched)
    }

    /// Imports `specifier` from the module `referrer` (none for the entry
    /// module) and returns the index of its record in the cache.
    pub fn import(&mut self, specifier: &str, referrer: Option<&str>) -> (r: Result<usize, ImportError>)
        requires
            old(self).cache.wf(),
        ensures
            final(self).cache.wf(),
            import_effect(*old(self), *final(self), specifier@, str_view(referrer), r),
            is_builtin(specifier@) ==> final(self).fs == old(self).fs,
    {
        let id = match self.resolver.resolve(specifier, referrer) {
            Ok(id) => id,
            Err(e) => {
                return Err(ImportError::Resolution(e));
            },
        };
        // The cache's length fits in a usize, as `lemma_begin_step` needs.
        let _ = self.cache.len();
        proof {
            lemma_begin_step(self.cache@, id@);
        }
        let ghost v1 = begin_spec(self.cache@, id@).0;
        let r = match self.cache.begin(id.as_str()) {
            LoadStep::Cached(i) => match self.cache.outcome(i) {
                Some(o) => o,
                None => Ok(i),
            },
            LoadStep::Wait(i) => Ok(i),
            LoadStep::Fetch(i) => {
                let cs = chars_of(id.as_str());
                let fetched = if specifier_is_builtin(&cs) {
                    fetch_builtin(&self.builtins, id.as_str())
                } else {
                    match self.fs.read_file(id.as_str()) {
                        Ok(bytes) => Ok(bytes),
                        Err(FsError::Denied(_)) => Err(FetchError::Denied),
                        Err(FsError::Io(e)) => Err(e),
                    }
                };
                let r = self.cache.finish(i, fetched);
                assert((self.cache@, r) == finish_spec(v1, i as int, fetched_view(fetched)));
                r
            },
        };
        match r {
            Ok(i) => Ok(i),
            Err(e) => Err(ImportError::Load(e)),
        }
    }
}

/// Importing again is served from the cache: unless the first import of
/// `specifier` from `referrer` was aborted, a second one returns the same
/// result and leaves the cache, the broker and the backend as they were; no
/// further permission check is made and nothing is fetched. This holds
/// after a successful load and after a lasting failure alike.
pub proof fn lemma_import_again<B: HostIo>(
    l0: Loader<B>,
    l1: Loader<B>,
    l2: Loader<B>,
    specifier: Seq<char>,
    referrer: Option<Seq<char>>,
    r1: Result<usize, ImportError>,
    r2: Result<usize, ImportError>,
)
    requires
        l0.cache.wf(),
        l0.cache@.len() < usize::MAX,
        import_effect(l0, l1, specifier, referrer, r1),
        import_effect(l1, l2, specifier, referrer, r2),
        !(r1 matches Err(ImportError::Load(LoadError::Aborted))),
    ensures
        r2 == r1,
        l2.cache@ == l1.cache@,
        l2.fs == l1.fs,
{
    match resolution(specifier, referrer, opt_view(l0.resolver.base_dir)) {
        Err(_) => {},
        Ok(id) => {
            let v0 = l0.cache@;
            lemma_begin_step(v0, id);
            lemma_begin_keeps_unique(v0, id);
            let (v1, step) = begin_spec(v0, id);
            match step {
                LoadStep::Cached(i) => {},
                LoadStep::Wait(i) => {},
                LoadStep::Fetch(i) => {
                    let v2 = l1.cache@;
                    assert(v2.len() == v1.len());
                    assert(v2[i as int].identity == id);
                    assert(unique(v2)) by {
                        assert forall|a: int, b: int|
                            0 <= a < v2.len() && 0 <= b < v2.len() && #[trigger] v2[a].identity
                                == #[trigger] v2[b].identity implies a == b by {
                            assert(v2[a].identity == v1[a].identity);
                            assert(v2[b].identity == v1[b].identity);
                        }
                    }
                    lemma_find_index(v2, i as int);
                },
            }
        },
    }
}

/// Concurrent waiters collapse onto one fetch: once a request for
/// `specifier` has handed out the fetch of record `i`, every further request
/// for it, however many, waits on that same record and leaves the cache,
/// the broker and the backend as they were: one permission check and one
/// read in all.
pub proof fn lemma_requests_wait<B: HostIo>(
    l0: Loader<B>,
    l1: Loader<B>,
    l2: Loader<B>,
    specifier: Seq<char>,
    referrer: Option<Seq<char>>,
    i: usize,
    r2: Result<LoadStep, ImportError>,
)
    requires
        l0.cache.wf(),
        l0.cache@.len() < usize::MAX,
        request_effect(l0, l1, specifier, referrer, Ok(LoadStep::Fetch(i))),
        request_effect(l1, l2, specifier, referrer, r2),
    ensures
        r2 == Ok::<LoadStep, ImportError>(LoadStep::Wait(i)),
        l2.cache@ == l1.cache@,
        l2.fs == l1.fs,
{
    let id = resolution(specifier, referrer, opt_view(l0.resolver.base_dir))->Ok_0;
    let v0 = l0.cache@;
    lemma_begin_step(v0, id);
    lemma_begin_keeps_unique(v0, id);
    lemma_find_index(l1.cache@, i as int);
}

} // verus!
