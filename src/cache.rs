use vstd::prelude::*;
use crate::text::{chars_of, same_chars};

verus! {

/// Why the bytes of a module could not be fetched.
#[derive(Clone, Copy, Debug, PartialEq, Eq, Structural)]
pub enum FetchError {
    NotFound,
    /// The broker refused to read the module: the capability was `Read`
    /// and the path the module's identity.
    Denied,
    /// Aborted or timed out; the module may be fetched again later.
    Transient,
}

#[derive(Clone, Copy, Debug, PartialEq, Eq, Structural)]
pub enum LoadError {
    /// The module failed for good in this session.
    Fetch(FetchError),
    /// The fetch was aborted; nothing was cached.
    Aborted,
}

#[derive(Clone, Debug)]
pub enum LoadState {
    Pending,
    Ready(Vec<u8>),
    Failed(FetchError),
}

/// The cached state of one module identity.
#[derive(Clone, Debug)]
pub struct ModuleRecord {
    pub identity: String,
    pub state: LoadState,
    /// A fetch for this record has been handed out and not finished.
    pub in_flight: bool,
}

pub enum StateView {
    Pending,
    Ready(Seq<u8>),
    Failed(FetchError),
}

pub struct RecordView {
    pub identity: Seq<char>,
    pub state: StateView,
    pub in_flight: bool,
}

/// What the caller of `begin` is to do next.
#[derive(Clone, Copy, Debug, PartialEq, Eq, Structural)]
pub enum LoadStep {
    /// The record at this index is settled (ready or failed).
    Cached(usize),
    /// The caller fetches the bytes and hands them to `finish`.
    Fetch(usize),
    /// A fetch is in flight; the caller waits for its outcome.
    Wait(usize),
}

pub open spec fn state_view(s: LoadState) -> StateView {
    match s {
        LoadState::Pending => StateView::Pending,
        LoadState::Ready(b) => StateView::Ready(b@),
        LoadState::Failed(e) => StateView::Failed(e),
    }
}

pub open spec fn record_view(r: ModuleRecord) -> RecordView {
    RecordView { identity: r.identity@, state: state_view(r.state), in_flight: r.in_flight }
}

pub open spec fn fetched_view(f: Result<Vec<u8>, FetchError>) -> Result<Seq<u8>, FetchError> {
    match f {
        Ok(b) => Ok(b@),
        Err(e) => Err(e),
    }
}

/// No identity has two records.
pub open spec fn unique(v: Seq<RecordView>) -> bool {
    forall|i: int, j: int|
        0 <= i < v.len() && 0 <= j < v.len() && #[trigger] v[i].identity == #[trigger] v[j].identity
            ==> i == j
}

/// The index of the record of `id`, if any.
pub open spec fn find(v: Seq<RecordView>, id: Seq<char>) -> Option<int> {
    if exists|i: int| 0 <= i < v.len() && #[trigger] v[i].identity == id {
        Some(choose|i: int| 0 <= i < v.len() && #[trigger] v[i].identity == id)
    } else {
        None
    }
}

/// A request for `id`: an unknown identity gets a pending record and one
/// fetch; a pending one whose fetch was abandoned is fetched again; one in
/// flight is waited for; a settled one is returned as it is.
pub open spec fn begin_spec(v: Seq<RecordView>, id: Seq<char>) -> (Seq<RecordView>, LoadStep) {
    match find(v, id) {
        None => (
            v.push(RecordView { identity: id, state: StateView::Pending, in_flight: true }),
            LoadStep::Fetch(v.len() as usize),
        ),
        Some(i) => if v[i].state is Pending {
            if v[i].in_flight {
                (v, LoadStep::Wait(i as usize))
            } else {
                (
                    v.update(i, RecordView { identity: v[i].identity, state: v[i].state, in_flight: true }),
                    LoadStep::Fetch(i as usize),
                )
            }
        } else {
            (v, LoadStep::Cached(i as usize))
        },
    }
}

/// The fetch for record `i` came back with `fetched`: bytes make it ready,
/// a lasting error makes it failed, a transient one leaves it pending and
/// no longer in flight.
pub open spec fn finish_spec(v: Seq<RecordView>, i: int, fetched: Result<Seq<u8>, FetchError>) -> (
    Seq<RecordView>,
    Result<usize, LoadError>,
) {
    match fetched {
        Ok(b) => (
            v.update(i, RecordView { identity: v[i].identity, state: StateView::Ready(b), in_flight: false }),
            Ok(i as usize),
        ),
        Err(FetchError::Transient) => (
            v.update(i, RecordView { identity: v[i].identity, state: v[i].state, in_flight: false }),
            Err(LoadError::Aborted),
        ),
        Err(e) => (
            v.update(i, RecordView { identity: v[i].identity, state: StateView::Failed(e), in_flight: false }),
            Err(LoadError::Fetch(e)),
        ),
    }
}

/// What a caller waiting on record `i` receives; `None` while in flight.
pub open spec fn outcome_spec(v: Seq<RecordView>, i: int) -> Option<Result<usize, LoadError>> {
    match v[i].state {
        StateView::Ready(_) => Some(Ok(i as usize)),
        StateView::Failed(e) => Some(Err(LoadError::Fetch(e))),
        StateView::Pending => if v[i].in_flight {
            None
        } else {
            Some(Err(LoadError::Aborted))
        },
    }
}

/// Forgetting the outcome of `id` so that the next request fetches again;
/// a record in flight is left alone.
pub open spec fn invalidate_spec(v: Seq<RecordView>, id: Seq<char>) -> Seq<RecordView> {
    match find(v, id) {
        Some(i) => if v[i].in_flight {
            v
        } else {
            v.update(i, RecordView { identity: v[i].identity, state: StateView::Pending, in_flight: false })
        },
        None => v,
    }
}

/// The records of one engine instance, one per module identity. A record
/// keeps its index for the life of the cache.
pub struct ModuleCache {
    records: Vec<ModuleRecord>,
}

impl View for ModuleCache {
    type V = Seq<RecordView>;

    closed spec fn view(&self) -> Seq<RecordView> {
        self.records@.map_values(|r: ModuleRecord| record_view(r))
    }
}

fn copy_fetched(f: Result<Vec<u8>, FetchError>) -> (r: (LoadState, Result<(), LoadError>))
    ensures
        f is Ok ==> state_view(r.0) == StateView::Ready(f->Ok_0@) && r.1 is Ok,
        f is Err ==> r.1 is Err,
{
    match f {
        Ok(b) => (LoadState::Ready(b), Ok(())),
        Err(e) => (LoadState::Failed(e), Err(LoadError::Fetch(e))),
    }
}

impl ModuleCache {
    pub open spec fn wf(&self) -> bool {
        unique(self@)
    }

    pub fn new() -> (r: ModuleCache)
        ensures
            r@ == Seq::<RecordView>::empty(),
            r.wf(),
    {
        let r = ModuleCache { records: Vec::new() };
        assert(r@ =~= Seq::<RecordView>::empty());
        r
    }

    pub fn len(&self) -> (r: usize)
        ensures
            r == self@.len(),
    {
        self.records.len()
    }

    /// The record at `index`.
    pub fn record(&self, index: usize) -> (r: &ModuleRecord)
        requires
            index < self@.len(),
        ensures
            record_view(*r) == self@[index as int],
    {
        &self.records[index]
    }

    /// The index of the record of `identity`, if there is one.
    pub fn lookup(&self, identity: &str) -> (r: Option<usize>)
        requires
            self.wf(),
        ensures
            r matches Some(i) ==> find(self@, identity@) == Some(i as int),
            r is None ==> find(self@, identity@) is None,
    {
        let ghost v = self@;
        let mut k: usize = 0;
        while k < self.records.len()
            invariant
                v == self@,
                unique(v),
                k <= v.len(),
                forall|j: int| 0 <= j < k ==> v[j].identity != identity@,
            decreases v.len() - k,
        {
            let id = chars_of(self.records[k].identity.as_str());
            if same_chars(&id, identity) {
                assert(v[k as int].identity == identity@);
                assert(find(v, identity@) == Some(k as int));
                return Some(k);
            }
            k = k + 1;
        }
        assert(!exists|i: int| 0 <= i < v.len() && #[trigger] v[i].identity == identity@);
        None
    }

    /// Registers a request for `identity` and says what the caller is to do.
    pub fn begin(&mut self, identity: &str) -> (r: LoadStep)
        requires
            old(self).wf(),
        ensures
            final(self).wf(),
            (final(self)@, r) == begin_spec(old(self)@, identity@),
    {
        let ghost v = self@;
        match self.lookup(identity) {
            None => {
                let n = self.records.len();
                self.records.push(
                    ModuleRecord { identity: identity.to_owned(), state: LoadState::Pending, in_flight: true },
                );
                assert(self@ =~= v.push(
                    RecordView { identity: identity@, state: StateView::Pending, in_flight: true },
                ));
                LoadStep::Fetch(n)
            },
            Some(i) => {
                let pending = matches!(self.records[i].state, LoadState::Pending);
                if pending {
                    if self.records[i].in_flight {
                        LoadStep::Wait(i)
                    } else {
                        self.records[i].in_flight = true;
                        assert(self@ =~= v.update(
                            i as int,
                            RecordView { identity: v[i as int].identity, state: v[i as int].state, in_flight: true },
                        ));
                        LoadStep::Fetch(i)
                    }
                } else {
                    LoadStep::Cached(i)
                }
            },
        }
    }

    /// Settles record `index` with the result of its fetch.
    pub fn finish(&mut self, index: usize, fetched: Result<Vec<u8>, FetchError>) -> (r: Result<usize, LoadError>)
        requires
            old(self).wf(),
            index < old(self)@.len(),
            old(self)@[index as int].in_flight,
        ensures
            final(self).wf(),
            (final(self)@, r) == finish_spec(old(self)@, index as int, fetched_view(fetched)),
    {
        let ghost v = self@;
        self.records[index].in_flight = false;
        match fetched {
            Ok(bytes) => {
                self.records[index].state = LoadState::Ready(bytes);
                assert(self@ =~= finish_spec(v, index as int, fetched_view(fetched)).0);
                Ok(index)
            },
            Err(FetchError::Transient) => {
                assert(self@ =~= finish_spec(v, index as int, fetched_view(fetched)).0);
                Err(LoadError::Aborted)
            },
            Err(e) => {
                self.records[index].state = LoadState::Failed(e);
                assert(self@ =~= finish_spec(v, index as int, fetched_view(fetched)).0);
                Err(LoadError::Fetch(e))
            },
        }
    }

    /// What a caller waiting on record `index` receives, once settled.
    pub fn outcome(&self, index: usize) -> (r: Option<Result<usize, LoadError>>)
        requires
            index < self@.len(),
        ensures
            r == outcome_spec(self@, index as int),
    {
        match &self.records[index].state {
            LoadState::Ready(_) => Some(Ok(index)),
            LoadState::Failed(e) => Some(Err(LoadError::Fetch(*e))),
            LoadState::Pending => if self.records[index].in_flight {
                None
            } else {
                Some(Err(LoadError::Aborted))
            },
        }
    }

    /// Forgets the outcome for `identity`, so that it is fetched again.
    pub fn invalidate(&mut self, identity: &str)
        requires
            old(self).wf(),
        ensures
            final(self).wf(),
            final(self)@ == invalidate_spec(old(self)@, identity@),
    {
        let ghost v = self@;
        match self.lookup(identity) {
            Some(i) => {
                if !self.records[i].in_flight {
                    self.records[i].state = LoadState::Pending;
                    assert(self@ =~= invalidate_spec(v, identity@));
                }
            },
            None => {},
        }
    }

    /// The record of `identity`, loaded on the first request by one call of
    /// `fetch` and returned from the cache on every later one. A failure is
    /// cached too; an aborted fetch is not. A request that meets its own
    /// identity in flight (a cycle) gets the pending record.
    pub fn load_or_get<F: FnOnce() -> Result<Vec<u8>, FetchError>>(&mut self, identity: &str, fetch: F) -> (r: Result<usize, LoadError>)
        requires
            old(self).wf(),
            fetch.requires(()),
        ensures
            final(self).wf(),
            loaded(*old(self), *final(self), identity@, r, |f: Result<Vec<u8>, FetchError>| fetch.ensures((), f)),
    {
        // The cache's length fits in a usize, as `lemma_begin_step` needs.
        let _ = self.len();
        proof {
            lemma_begin_step(self@, identity@);
        }
        match self.begin(identity) {
            LoadStep::Cached(i) => match self.outcome(i) {
                Some(o) => o,
                None => Ok(i),
            },
            LoadStep::Wait(i) => Ok(i),
            LoadStep::Fetch(i) => {
                let fetched = fetch();
                let ghost v1 = self@;
                let r = self.finish(i, fetched);
                assert(fetch.ensures((), fetched) && (self@, r) == finish_spec(v1, i as int, fetched_view(fetched)));
                r
            },
        }
    }
}

/// The index that `begin_spec` hands back names a record of the new state:
/// one in flight for a fetch, one that is settled for a cached result.
pub proof fn lemma_begin_step(v: Seq<RecordView>, id: Seq<char>)
    requires
        v.len() <= usize::MAX,
    ensures
        ({
            let (v1, step) = begin_spec(v, id);
            match step {
                LoadStep::Fetch(i) => i < v1.len() && v1[i as int].in_flight && v1[i as int].identity == id,
                LoadStep::Wait(i) => i < v1.len() && v1 == v,
                LoadStep::Cached(i) => i < v1.len() && v1 == v && !(v[i as int].state is Pending),
            }
        }),
{
    match find(v, id) {
        None => {},
        Some(i) => {
            let j = choose|j: int| 0 <= j < v.len() && #[trigger] v[j].identity == id;
            assert(0 <= i < v.len() && v[i].identity == id);
        },
    }
}

/// `after` and `r` are what `load_or_get` of `id` on `before` gives, where
/// `fetched` holds of what the fetch may return.
pub open spec fn loaded(
    before: ModuleCache,
    after: ModuleCache,
    id: Seq<char>,
    r: Result<usize, LoadError>,
    fetched: spec_fn(Result<Vec<u8>, FetchError>) -> bool,
) -> bool {
    let (v1, step) = begin_spec(before@, id);
    match step {
        LoadStep::Cached(i) => after@ == before@ && Some(r) == outcome_spec(before@, i as int),
        LoadStep::Wait(i) => after@ == before@ && r == Ok::<usize, LoadError>(i),
        LoadStep::Fetch(i) => exists|f: Result<Vec<u8>, FetchError>|
            fetched(f) && (after@, r) == finish_spec(v1, i as int, fetched_view(f)),
    }
}

/// The steps that `n` requests for `id` in a row receive, starting from `v`.
pub open spec fn begin_steps(v: Seq<RecordView>, id: Seq<char>, n: nat) -> Seq<LoadStep>
    decreases n,
{
    if n == 0 {
        seq![]
    } else {
        seq![begin_spec(v, id).1] + begin_steps(begin_spec(v, id).0, id, (n - 1) as nat)
    }
}

/// A state that a request for `id` leaves unchanged, answering `step`,
/// answers every run of further requests for `id` with `step` alone.
pub proof fn lemma_fixed_point_repeats(v: Seq<RecordView>, id: Seq<char>, step: LoadStep, n: nat)
    requires
        begin_spec(v, id) == (v, step),
    ensures
        begin_steps(v, id, n) == Seq::new(n, |k: int| step),
    decreases n,
{
    if n > 0 {
        lemma_fixed_point_repeats(v, id, step, (n - 1) as nat);
        assert(begin_steps(v, id, n) =~= Seq::new(n, |k: int| step));
    }
}

/// With identities unique, a record's own identity finds that record.
pub proof fn lemma_find_index(v: Seq<RecordView>, i: int)
    requires
        unique(v),
        0 <= i < v.len(),
    ensures
        find(v, v[i].identity) == Some(i),
{
    assert(0 <= i < v.len() && v[i].identity == v[i].identity);
}

/// Fetching at most once: once a fetch for `id` has brought bytes, every
/// later run of requests for `id` is answered from the cache, the state
/// stays as it is, and no further fetch is handed out.
pub proof fn lemma_fetch_at_most_once(v: Seq<RecordView>, id: Seq<char>, bytes: Seq<u8>, n: nat)
    requires
        unique(v),
        v.len() < usize::MAX,
        begin_spec(v, id).1 is Fetch,
    ensures
        ({
            let (v1, step) = begin_spec(v, id);
            let i = step->Fetch_0;
            let (v2, r) = finish_spec(v1, i as int, Ok(bytes));
            &&& r == Ok::<usize, LoadError>(i)
            &&& begin_spec(v2, id) == (v2, LoadStep::Cached(i))
            &&& begin_steps(v2, id, n) == Seq::new(n, |k: int| LoadStep::Cached(i))
            &&& outcome_spec(v2, i as int) == Some(Ok::<usize, LoadError>(i))
        }),
{
    lemma_begin_step(v, id);
    lemma_begin_keeps_unique(v, id);
    let (v1, step) = begin_spec(v, id);
    let i = step->Fetch_0;
    let v2 = finish_spec(v1, i as int, Ok(bytes)).0;
    assert(unique(v2));
    lemma_find_index(v2, i as int);
    lemma_fixed_point_repeats(v2, id, LoadStep::Cached(i), n);
}

/// A lasting failure is not retried: after a fetch for `id` fails with an
/// error other than a transient one, every later run of requests for `id`
/// gets the cached failure and no further fetch.
pub proof fn lemma_failure_not_retried(v: Seq<RecordView>, id: Seq<char>, e: FetchError, n: nat)
    requires
        unique(v),
        v.len() < usize::MAX,
        begin_spec(v, id).1 is Fetch,
        e != FetchError::Transient,
    ensures
        ({
            let (v1, step) = begin_spec(v, id);
            let i = step->Fetch_0;
            let (v2, r) = finish_spec(v1, i as int, Err(e));
            &&& r == Err::<usize, LoadError>(LoadError::Fetch(e))
            &&& begin_spec(v2, id) == (v2, LoadStep::Cached(i))
            &&& begin_steps(v2, id, n) == Seq::new(n, |k: int| LoadStep::Cached(i))
            &&& outcome_spec(v2, i as int) == Some(Err::<usize, LoadError>(LoadError::Fetch(e)))
        }),
{
    lemma_begin_step(v, id);
    lemma_begin_keeps_unique(v, id);
    let (v1, step) = begin_spec(v, id);
    let i = step->Fetch_0;
    let v2 = finish_spec(v1, i as int, Err(e)).0;
    assert(unique(v2));
    lemma_find_index(v2, i as int);
    lemma_fixed_point_repeats(v2, id, LoadStep::Cached(i), n);
}

/// Waiters collapse onto one fetch: of `n + 1` requests for an unknown or
/// abandoned `id` made before the fetch lands, the first gets the fetch and
/// the other `n` wait on the same record; once the bytes land, every waiter
/// gets that same record.
pub proof fn lemma_waiters_share_one_fetch(v: Seq<RecordView>, id: Seq<char>, bytes: Seq<u8>, n: nat)
    requires
        unique(v),
        v.len() < usize::MAX,
        begin_spec(v, id).1 is Fetch,
    ensures
        ({
            let (v1, step) = begin_spec(v, id);
            let i = step->Fetch_0;
            let (v2, r) = finish_spec(v1, i as int, Ok(bytes));
            &&& begin_steps(v1, id, n) == Seq::new(n, |k: int| LoadStep::Wait(i))
            &&& r == Ok::<usize, LoadError>(i)
            &&& outcome_spec(v2, i as int) == Some(Ok::<usize, LoadError>(i))
        }),
{
    lemma_begin_step(v, id);
    lemma_begin_keeps_unique(v, id);
    let (v1, step) = begin_spec(v, id);
    let i = step->Fetch_0;
    lemma_find_index(v1, i as int);
    lemma_fixed_point_repeats(v1, id, LoadStep::Wait(i), n);
}

/// An aborted fetch poisons nothing: every waiter on the record gets
/// `Aborted`, the record stays pending, and the next request for `id`
/// fetches again into the same record.
pub proof fn lemma_abort_allows_retry(v: Seq<RecordView>, id: Seq<char>)
    requires
        unique(v),
        v.len() < usize::MAX,
        begin_spec(v, id).1 is Fetch,
    ensures
        ({
            let (v1, step) = begin_spec(v, id);
            let i = step->Fetch_0;
            let (v2, r) = finish_spec(v1, i as int, Err(FetchError::Transient));
            &&& r == Err::<usize, LoadError>(LoadError::Aborted)
            &&& v2[i as int].state is Pending
            &&& outcome_spec(v2, i as int) == Some(Err::<usize, LoadError>(LoadError::Aborted))
            &&& begin_spec(v2, id).1 == LoadStep::Fetch(i)
        }),
{
    lemma_begin_step(v, id);
    lemma_begin_keeps_unique(v, id);
    let (v1, step) = begin_spec(v, id);
    let i = step->Fetch_0;
    let v2 = finish_spec(v1, i as int, Err(FetchError::Transient)).0;
    assert(v1[i as int].state is Pending) by {
        if find(v, id) is Some {
            let k = find(v, id)->0;
            assert(0 <= k < v.len() && v[k].identity == id);
        }
    }
    assert(unique(v2));
    lemma_find_index(v2, i as int);
}

/// A settled record outlives every later step on the cache: a request for
/// any identity leaves it as it is, and so does the end of any other fetch.
pub proof fn lemma_settled_records_stay(
    v: Seq<RecordView>,
    j: int,
    id: Seq<char>,
    i: int,
    f: Result<Seq<u8>, FetchError>,
)
    requires
        unique(v),
        0 <= j < v.len(),
        !(v[j].state is Pending),
        0 <= i < v.len(),
        i != j,
    ensures
        begin_spec(v, id).0[j] == v[j],
        finish_spec(v, i, f).0[j] == v[j],
{
    if find(v, id) is Some {
        let k = find(v, id)->0;
        assert(0 <= k < v.len() && v[k].identity == id);
    }
}

/// A request keeps identities unique.
pub proof fn lemma_begin_keeps_unique(v: Seq<RecordView>, id: Seq<char>)
    requires
        unique(v),
    ensures
        unique(begin_spec(v, id).0),
{
    let v1 = begin_spec(v, id).0;
    if find(v, id) is None {
        assert forall|i: int, j: int|
            0 <= i < v1.len() && 0 <= j < v1.len() && #[trigger] v1[i].identity == #[trigger] v1[j].identity implies i == j by {
            if i < v.len() && j < v.len() {
                assert(v[i].identity == v[j].identity);
            } else if i < v.len() {
                assert(v[i].identity == id);
            } else if j < v.len() {
                assert(v[j].identity == id);
            }
        }
    } else {
        let i = find(v, id)->0;
        assert forall|a: int, b: int|
            0 <= a < v1.len() && 0 <= b < v1.len() && #[trigger] v1[a].identity == #[trigger] v1[b].identity implies a == b by {
            assert(v1[a].identity == v[a].identity);
            assert(v1[b].identity == v[b].identity);
        }
    }
}

} // verus!
