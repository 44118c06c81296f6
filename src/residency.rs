use vstd::prelude::*;

use crate::model_key::{KeyView, ModelKey};

verus! {

/// Why a model could not be made resident.
pub enum LoadError {
    /// The catalog holds no entry for the key.
    ModelNotFound(String),
    /// The backend could not initialise the model.
    LoadFailure(String),
}

/// A loaded backend handle, owned by the cache.
pub struct ResidentModel<H> {
    pub key: ModelKey,
    pub handle: H,
    pub loaded_at: u64,
    /// Generation sessions currently running on this model.
    pub sessions: u64,
}

/// A load in flight, with the callers waiting for its outcome.
pub struct PendingLoad {
    pub key: ModelKey,
    pub waiters: u64,
}

pub struct ResidentView<H> {
    pub key: KeyView,
    pub handle: H,
    pub loaded_at: u64,
    pub sessions: nat,
}

pub struct PendingView {
    pub key: KeyView,
    pub waiters: nat,
}

/// The cache as contracts see it: resident models from least to most
/// recently acquired, loads in flight, and the capacity.
pub struct CacheState<H> {
    pub resident: Seq<ResidentView<H>>,
    pub pending: Seq<PendingView>,
    pub max_resident: nat,
}

impl<H> View for ResidentModel<H> {
    type V = ResidentView<H>;

    open spec fn view(&self) -> ResidentView<H> {
        ResidentView {
            key: self.key@,
            handle: self.handle,
            loaded_at: self.loaded_at,
            sessions: self.sessions as nat,
        }
    }
}

impl View for PendingLoad {
    type V = PendingView;

    open spec fn view(&self) -> PendingView {
        PendingView { key: self.key@, waiters: self.waiters as nat }
    }
}

/// What a caller of `acquire` does next.
pub enum AcquireStep {
    /// The model is resident and a session on it was opened.
    Ready,
    /// The caller must load the model and report with `finish_load`.
    Load,
    /// Another caller is loading the model: wait for that outcome.
    Wait,
    /// The session or waiter count of the model is at its limit.
    Busy,
}

pub open spec fn holds_key<H>(rs: Seq<ResidentView<H>>, k: KeyView) -> bool {
    exists|i: int| 0 <= i < rs.len() && rs[i].key == k
}

pub open spec fn key_index<H>(rs: Seq<ResidentView<H>>, k: KeyView) -> int {
    choose|i: int| 0 <= i < rs.len() && rs[i].key == k
}

pub open spec fn awaits_key(ps: Seq<PendingView>, k: KeyView) -> bool {
    exists|i: int| 0 <= i < ps.len() && ps[i].key == k
}

pub open spec fn pending_index(ps: Seq<PendingView>, k: KeyView) -> int {
    choose|i: int| 0 <= i < ps.len() && ps[i].key == k
}

pub open spec fn resident_keys_unique<H>(rs: Seq<ResidentView<H>>) -> bool {
    forall|i: int, j: int| 0 <= i < j < rs.len() ==> rs[i].key != rs[j].key
}

pub open spec fn pending_keys_unique(ps: Seq<PendingView>) -> bool {
    forall|i: int, j: int| 0 <= i < j < ps.len() ==> ps[i].key != ps[j].key
}

/// `i` is the least recently acquired model with no session.
pub open spec fn first_idle_at<H>(rs: Seq<ResidentView<H>>, i: int) -> bool {
    &&& 0 <= i < rs.len()
    &&& rs[i].sessions == 0
    &&& forall|j: int| 0 <= j < i ==> rs[j].sessions > 0
}

pub open spec fn has_idle<H>(rs: Seq<ResidentView<H>>) -> bool {
    exists|i: int| first_idle_at(rs, i)
}

pub open spec fn first_idle<H>(rs: Seq<ResidentView<H>>) -> int {
    choose|i: int| first_idle_at(rs, i)
}

/// Evicts idle models, least recently acquired first, while more than `cap` are resident.
pub open spec fn evict_over<H>(rs: Seq<ResidentView<H>>, cap: int) -> Seq<ResidentView<H>>
    decreases rs.len(),
{
    if rs.len() > cap && has_idle(rs) {
        evict_over(rs.remove(first_idle(rs)), cap)
    } else {
        rs
    }
}

/// The keys that `evict_over` removes, in the order of removal.
pub open spec fn evicted_over<H>(rs: Seq<ResidentView<H>>, cap: int) -> Seq<KeyView>
    decreases rs.len(),
{
    if rs.len() > cap && has_idle(rs) {
        seq![rs[first_idle(rs)].key] + evicted_over(rs.remove(first_idle(rs)), cap)
    } else {
        Seq::empty()
    }
}

/// Size stays within capacity unless every resident model has a session.
pub open spec fn within_capacity<H>(s: CacheState<H>) -> bool {
    s.resident.len() <= s.max_resident || forall|i: int|
        0 <= i < s.resident.len() ==> #[trigger] s.resident[i].sessions > 0
}

pub open spec fn cache_wf<H>(s: CacheState<H>) -> bool {
    &&& resident_keys_unique(s.resident)
    &&& pending_keys_unique(s.pending)
    &&& forall|i: int| 0 <= i < s.pending.len() ==> !holds_key(s.resident, #[trigger] s.pending[i].key)
    &&& forall|i: int| 0 <= i < s.pending.len() ==> #[trigger] s.pending[i].waiters < u64::MAX
    &&& forall|i: int| 0 <= i < s.resident.len() ==> #[trigger] s.resident[i].sessions <= u64::MAX
    &&& within_capacity(s)
}

pub open spec fn acquire_step<H>(s: CacheState<H>, k: KeyView) -> AcquireStep {
    if holds_key(s.resident, k) {
        if s.resident[key_index(s.resident, k)].sessions < u64::MAX {
            AcquireStep::Ready
        } else {
            AcquireStep::Busy
        }
    } else if awaits_key(s.pending, k) {
        if s.pending[pending_index(s.pending, k)].waiters + 1 < u64::MAX {
            AcquireStep::Wait
        } else {
            AcquireStep::Busy
        }
    } else {
        AcquireStep::Load
    }
}

pub open spec fn acquire_next<H>(s: CacheState<H>, k: KeyView) -> CacheState<H> {
    match acquire_step(s, k) {
        AcquireStep::Ready => {
            let i = key_index(s.resident, k);
            let e = s.resident[i];
            CacheState {
                resident: s.resident.remove(i).push(ResidentView { sessions: e.sessions + 1, ..e }),
                ..s
            }
        },
        AcquireStep::Wait => {
            let j = pending_index(s.pending, k);
            let p = s.pending[j];
            CacheState {
                pending: s.pending.update(j, PendingView { waiters: p.waiters + 1, ..p }),
                ..s
            }
        },
        AcquireStep::Load => CacheState {
            pending: s.pending.push(PendingView { key: k, waiters: 0 }),
            ..s
        },
        AcquireStep::Busy => s,
    }
}


pub open spec fn finish_next<H>(
    s: CacheState<H>,
    k: KeyView,
    outcome: Result<H, LoadError>,
    now: u64,
) -> CacheState<H> {
    let j = pending_index(s.pending, k);
    let w = s.pending[j].waiters;
    match outcome {
        Ok(h) => CacheState {
            resident: evict_over(s.resident, s.max_resident - 1).push(
                ResidentView { key: k, handle: h, loaded_at: now, sessions: w + 1 },
            ),
            pending: s.pending.remove(j),
            ..s
        },
        Err(_) => CacheState { pending: s.pending.remove(j), ..s },
    }
}

/// The session count of a resident model, taken down by one.
pub open spec fn with_one_session_less<H>(rs: Seq<ResidentView<H>>, k: KeyView) -> Seq<ResidentView<H>> {
    let i = key_index(rs, k);
    rs.update(i, ResidentView { sessions: (rs[i].sessions - 1) as nat, ..rs[i] })
}

pub open spec fn ends_session<H>(s: CacheState<H>, k: KeyView) -> bool {
    holds_key(s.resident, k) && s.resident[key_index(s.resident, k)].sessions > 0
}

pub open spec fn end_next<H>(s: CacheState<H>, k: KeyView) -> CacheState<H> {
    if ends_session(s, k) {
        CacheState {
            resident: evict_over(with_one_session_less(s.resident, k), s.max_resident as int),
            ..s
        }
    } else {
        s
    }
}

pub open spec fn releasable<H>(s: CacheState<H>, k: KeyView) -> bool {
    holds_key(s.resident, k) && s.resident[key_index(s.resident, k)].sessions == 0
}

pub open spec fn release_next<H>(s: CacheState<H>, k: KeyView) -> CacheState<H> {
    if releasable(s, k) {
        CacheState { resident: s.resident.remove(key_index(s.resident, k)), ..s }
    } else {
        s
    }
}

pub open spec fn key_views(ks: Seq<ModelKey>) -> Seq<KeyView> {
    ks.map_values(|k: ModelKey| k@)
}

proof fn lemma_remove_keeps_keys<H>(rs: Seq<ResidentView<H>>, i: int)
    requires
        0 <= i < rs.len(),
        resident_keys_unique(rs),
    ensures
        resident_keys_unique(rs.remove(i)),
        forall|k: KeyView| holds_key(rs.remove(i), k) ==> holds_key(rs, k),
{
    let r = rs.remove(i);
    assert forall|a: int, b: int| 0 <= a < b < r.len() implies r[a].key != r[b].key by {
        let oa = if a < i { a } else { a + 1 };
        let ob = if b < i { b } else { b + 1 };
        assert(r[a] == rs[oa]);
        assert(r[b] == rs[ob]);
    }
    assert forall|k: KeyView| holds_key(r, k) implies holds_key(rs, k) by {
        let a = choose|a: int| 0 <= a < r.len() && r[a].key == k;
        let oa = if a < i { a } else { a + 1 };
        assert(r[a] == rs[oa]);
    }
}

proof fn lemma_first_idle_unique<H>(rs: Seq<ResidentView<H>>, i: int)
    requires
        first_idle_at(rs, i),
    ensures
        has_idle(rs),
        first_idle(rs) == i,
{
    let c = first_idle(rs);
    assert(first_idle_at(rs, c));
    if c < i {
        assert(rs[c].sessions > 0);
    } else if i < c {
        assert(rs[i].sessions > 0);
    }
}

/// The state reached by `n` acquires of `k` from `s`, and how many of them
/// were asked to load the model.
pub open spec fn acquire_run<H>(s: CacheState<H>, k: KeyView, n: nat) -> (CacheState<H>, nat)
    decreases n,
{
    if n == 0 {
        (s, 0)
    } else {
        let (t, loads) = acquire_run(s, k, (n - 1) as nat);
        (acquire_next(t, k), if acquire_step(t, k) is Load { loads + 1 } else { loads })
    }
}

/// The handle that the resident model under `k` holds.
pub open spec fn handle_of<H>(s: CacheState<H>, k: KeyView) -> H {
    s.resident[key_index(s.resident, k)].handle
}

pub open spec fn tracks<H>(s: CacheState<H>, k: KeyView) -> bool {
    holds_key(s.resident, k) || awaits_key(s.pending, k)
}

proof fn lemma_acquire_tracks<H>(s: CacheState<H>, k: KeyView)
    ensures
        tracks(acquire_next(s, k), k),
        (acquire_step(s, k) is Load) <==> !tracks(s, k),
{
    let t = acquire_next(s, k);
    match acquire_step(s, k) {
        AcquireStep::Ready => {
            let i = key_index(s.resident, k);
            assert(t.resident[t.resident.len() - 1].key == k);
        },
        AcquireStep::Wait => {
            let j = pending_index(s.pending, k);
            assert(t.pending[j].key == k);
        },
        AcquireStep::Load => {
            assert(t.pending[t.pending.len() - 1].key == k);
        },
        AcquireStep::Busy => {},
    }
}

/// Single flight: however many callers acquire the same key, at most one of
/// them is asked to load it, and none is while it is resident or already loading.
pub proof fn lemma_single_flight<H>(s: CacheState<H>, k: KeyView, n: nat)
    ensures
        acquire_run(s, k, n).1 <= 1,
        tracks(s, k) ==> acquire_run(s, k, n).1 == 0,
        n > 0 ==> tracks(acquire_run(s, k, n).0, k),
    decreases n,
{
    if n > 0 {
        lemma_single_flight(s, k, (n - 1) as nat);
        let t = acquire_run(s, k, (n - 1) as nat).0;
        lemma_acquire_tracks(t, k);
    }
}

proof fn lemma_evict_keeps_keys<H>(rs: Seq<ResidentView<H>>, cap: int)
    requires
        resident_keys_unique(rs),
    ensures
        resident_keys_unique(evict_over(rs, cap)),
        forall|k: KeyView| holds_key(evict_over(rs, cap), k) ==> holds_key(rs, k),
    decreases rs.len(),
{
    if rs.len() > cap && has_idle(rs) {
        let i = first_idle(rs);
        assert(first_idle_at(rs, i));
        lemma_remove_keeps_keys(rs, i);
        lemma_evict_keeps_keys(rs.remove(i), cap);
    }
}

proof fn lemma_ready_keeps_handle<H>(s: CacheState<H>, k: KeyView)
    requires
        resident_keys_unique(s.resident),
        holds_key(s.resident, k),
    ensures
        resident_keys_unique(acquire_next(s, k).resident),
        holds_key(acquire_next(s, k).resident, k),
        handle_of(acquire_next(s, k), k) == handle_of(s, k),
        acquire_step(s, k) is Ready || acquire_step(s, k) is Busy,
{
    let t = acquire_next(s, k);
    if acquire_step(s, k) is Ready {
        let i = key_index(s.resident, k);
        let r = s.resident.remove(i);
        lemma_remove_keeps_keys(s.resident, i);
        assert(!holds_key(r, k)) by {
            if holds_key(r, k) {
                let a = choose|a: int| 0 <= a < r.len() && r[a].key == k;
                let oa = if a < i { a } else { a + 1 };
                assert(r[a] == s.resident[oa]);
            }
        }
        let last = t.resident.len() - 1;
        assert(t.resident[last].key == k);
        assert forall|a: int, b: int| 0 <= a < b < t.resident.len() implies t.resident[a].key
            != t.resident[b].key by {
            if b == last {
                assert(t.resident[a] == r[a]);
            } else {
                assert(t.resident[a] == r[a]);
                assert(t.resident[b] == r[b]);
            }
        }
        let c = key_index(t.resident, k);
        assert(t.resident[c].key == k);
        if c != last {
            assert(t.resident[c].key != t.resident[last].key);
        }
    }
}

/// Every caller gets the same model: once a load of `k` succeeded with handle
/// `h`, any number of further acquires of `k` find it resident (none is asked
/// to load or to wait) and it still holds `h`.
pub proof fn lemma_loaded_handle_shared<H>(
    s: CacheState<H>,
    k: KeyView,
    h: H,
    now: u64,
    n: nat,
)
    requires
        cache_wf(s),
        awaits_key(s.pending, k),
    ensures
        holds_key(acquire_run(finish_next(s, k, Ok(h), now), k, n).0.resident, k),
        handle_of(acquire_run(finish_next(s, k, Ok(h), now), k, n).0, k) == h,
        acquire_run(finish_next(s, k, Ok(h), now), k, n).1 == 0,
        forall|m: nat|
            m < n ==> {
                let t = #[trigger] acquire_run(finish_next(s, k, Ok(h), now), k, m).0;
                acquire_step(t, k) is Ready || acquire_step(t, k) is Busy
            },
    decreases n,
{
    let f = finish_next(s, k, Ok(h), now);
    let cap = s.max_resident - 1;
    let ev = evict_over(s.resident, cap);
    lemma_evict_keeps_keys(s.resident, cap);
    let j = pending_index(s.pending, k);
    assert(s.pending[j].key == k);
    assert(!holds_key(s.resident, k));
    assert(!holds_key(ev, k));
    let last = f.resident.len() - 1;
    assert(f.resident[last].key == k);
    assert forall|a: int, b: int| 0 <= a < b < f.resident.len() implies f.resident[a].key
        != f.resident[b].key by {
        if b == last {
            assert(f.resident[a] == ev[a]);
        } else {
            assert(f.resident[a] == ev[a]);
            assert(f.resident[b] == ev[b]);
        }
    }
    let c = key_index(f.resident, k);
    assert(f.resident[c].key == k);
    if c != last {
        assert(f.resident[c].key != f.resident[last].key);
    }
    lemma_run_keeps_handle(f, k, n);
}

proof fn lemma_run_keeps_handle<H>(f: CacheState<H>, k: KeyView, n: nat)
    requires
        resident_keys_unique(f.resident),
        holds_key(f.resident, k),
    ensures
        resident_keys_unique(acquire_run(f, k, n).0.resident),
        holds_key(acquire_run(f, k, n).0.resident, k),
        handle_of(acquire_run(f, k, n).0, k) == handle_of(f, k),
        acquire_run(f, k, n).1 == 0,
        forall|m: nat|
            m < n ==> {
                let t = #[trigger] acquire_run(f, k, m).0;
                acquire_step(t, k) is Ready || acquire_step(t, k) is Busy
            },
    decreases n,
{
    if n > 0 {
        lemma_run_keeps_handle(f, k, (n - 1) as nat);
        let t = acquire_run(f, k, (n - 1) as nat).0;
        lemma_ready_keeps_handle(t, k);
    }
}

/// Failures are not cached: after a load of `k` fails, the next acquire of
/// `k` is asked to load it again.
pub proof fn lemma_failure_not_cached<H>(s: CacheState<H>, k: KeyView, e: LoadError, now: u64)
    requires
        cache_wf(s),
        awaits_key(s.pending, k),
    ensures
        acquire_step(finish_next(s, k, Err(e), now), k) is Load,
{
    let t = finish_next(s, k, Err(e), now);
    let j = pending_index(s.pending, k);
    assert(s.pending[j].key == k);
    assert(!holds_key(s.resident, k));
    if awaits_key(t.pending, k) {
        let a = choose|a: int| 0 <= a < t.pending.len() && t.pending[a].key == k;
        let oa = if a < j { a } else { a + 1 };
        assert(t.pending[a] == s.pending[oa]);
        assert(oa != j);
    }
}

/// A bounded cache of loaded models, with single-flight loading and
/// least-recently-acquired eviction of idle models.
pub struct ResidencyCache<H> {
    entries: Vec<ResidentModel<H>>,
    pending: Vec<PendingLoad>,
    max_resident: usize,
}

impl<H> View for ResidencyCache<H> {
    type V = CacheState<H>;

    closed spec fn view(&self) -> CacheState<H> {
        CacheState {
            resident: self.entries@.map_values(|e: ResidentModel<H>| e@),
            pending: self.pending@.map_values(|p: PendingLoad| p@),
            max_resident: self.max_resident as nat,
        }
    }
}

impl<H> ResidencyCache<H> {
    pub open spec fn wf(&self) -> bool {
        cache_wf(self@)
    }

    pub fn new(max_resident: usize) -> (r: Self)
        ensures
            r.wf(),
            r@.resident.len() == 0,
            r@.pending.len() == 0,
            r@.max_resident == max_resident,
    {
        let r = ResidencyCache { entries: Vec::new(), pending: Vec::new(), max_resident };
        assert(r@.resident =~= Seq::<ResidentView<H>>::empty());
        assert(r@.pending =~= Seq::<PendingView>::empty());
        r
    }

    fn find_resident(&self, key: &ModelKey) -> (r: Option<usize>)
        requires
            self.wf(),
        ensures
            r is Some <==> holds_key(self@.resident, key@),
            r matches Some(i) ==> i == key_index(self@.resident, key@) && i < self.entries.len(),
    {
        let mut i: usize = 0;
        while i < self.entries.len()
            invariant
                i <= self.entries.len(),
                self.wf(),
                self@.resident.len() == self.entries.len(),
                forall|j: int| 0 <= j < i ==> self@.resident[j].key != key@,
            decreases self.entries.len() - i,
        {
            if self.entries[i].key.same_as(key) {
                assert(self@.resident[i as int].key == key@);
                let ghost c = key_index(self@.resident, key@);
                assert(self@.resident[c].key == key@);
                proof {
                    if c > i as int {
                        assert(self@.resident[i as int].key != self@.resident[c].key);
                    }
                }
                return Some(i);
            }
            i = i + 1;
        }
        None
    }

    fn find_pending(&self, key: &ModelKey) -> (r: Option<usize>)
        requires
            self.wf(),
        ensures
            r is Some <==> awaits_key(self@.pending, key@),
            r matches Some(i) ==> i == pending_index(self@.pending, key@) && i < self.pending.len(),
    {
        let mut i: usize = 0;
        while i < self.pending.len()
            invariant
                i <= self.pending.len(),
                self.wf(),
                self@.pending.len() == self.pending.len(),
                forall|j: int| 0 <= j < i ==> self@.pending[j].key != key@,
            decreases self.pending.len() - i,
        {
            if self.pending[i].key.same_as(key) {
                assert(self@.pending[i as int].key == key@);
                let ghost c = pending_index(self@.pending, key@);
                assert(self@.pending[c].key == key@);
                proof {
                    if c > i as int {
                        assert(self@.pending[i as int].key != self@.pending[c].key);
                    }
                }
                return Some(i);
            }
            i = i + 1;
        }
        None
    }

    /// Asks for the model under `key`. A resident model gets a new session and
    /// becomes the most recently acquired; a model being loaded makes the caller
    /// wait for that load; otherwise the caller is asked to load it, and every
    /// later caller for the key waits until `finish_load`.
    pub fn acquire(&mut self, key: &ModelKey) -> (r: AcquireStep)
        requires
            old(self).wf(),
        ensures
            final(self).wf(),
            r == acquire_step(old(self)@, key@),
            final(self)@ == acquire_next(old(self)@, key@),
            within_capacity(final(self)@),
    {
        let ghost s = self@;
        match self.find_resident(key) {
            Some(i) => {
                if self.entries[i].sessions == u64::MAX {
                    return AcquireStep::Busy;
                }
                let mut e = self.entries.remove(i);
                e.sessions = e.sessions + 1;
                self.entries.push(e);
                proof {
                    let e0 = s.resident[i as int];
                    assert(self@.resident =~= s.resident.remove(i as int).push(
                        ResidentView { sessions: e0.sessions + 1, ..e0 },
                    ));
                    assert(self@.pending =~= s.pending);
                    assert forall|a: int, b: int|
                        0 <= a < b < self@.resident.len() implies self@.resident[a].key
                        != self@.resident[b].key by {
                        let oa = if a < i { a } else { a + 1 };
                        let ob = if b == self@.resident.len() - 1 {
                            i as int
                        } else if b < i {
                            b
                        } else {
                            b + 1
                        };
                        assert(s.resident[oa].key == self@.resident[a].key);
                        assert(s.resident[ob].key == self@.resident[b].key);
                        assert(oa != ob);
                    }
                    assert forall|p: int| 0 <= p < self@.pending.len() implies !holds_key(
                        self@.resident,
                        #[trigger] self@.pending[p].key,
                    ) by {
                        if holds_key(self@.resident, self@.pending[p].key) {
                            let a = choose|a: int|
                                0 <= a < self@.resident.len() && self@.resident[a].key
                                    == self@.pending[p].key;
                            let oa = if a == self@.resident.len() - 1 {
                                i as int
                            } else if a < i {
                                a
                            } else {
                                a + 1
                            };
                            assert(s.resident[oa].key == self@.pending[p].key);
                        }
                    }
                    assert forall|a: int| 0 <= a < self@.resident.len() implies #[trigger] self@.resident[a].sessions
                        > 0 || self@.resident.len() <= self@.max_resident by {
                        if self@.resident.len() > self@.max_resident {
                            let oa = if a == self@.resident.len() - 1 {
                                i as int
                            } else if a < i {
                                a
                            } else {
                                a + 1
                            };
                            assert(s.resident[oa].sessions > 0);
                        }
                    }
                }
                AcquireStep::Ready
            },
            None => {
                match self.find_pending(key) {
                    Some(j) => {
                        if self.pending[j].waiters >= u64::MAX - 1 {
                            return AcquireStep::Busy;
                        }
                        let w = self.pending[j].waiters + 1;
                        let k = self.pending[j].key.clone();
                        self.pending.set(j, PendingLoad { key: k, waiters: w });
                        proof {
                            let p0 = s.pending[j as int];
                            assert(self@.pending =~= s.pending.update(
                                j as int,
                                PendingView { waiters: p0.waiters + 1, ..p0 },
                            ));
                            assert(self@.resident =~= s.resident);
                        }
                        AcquireStep::Wait
                    },
                    None => {
                        self.pending.push(PendingLoad { key: key.clone(), waiters: 0 });
                        proof {
                            assert(self@.pending =~= s.pending.push(PendingView { key: key@, waiters: 0 }));
                            assert(self@.resident =~= s.resident);
                        }
                        AcquireStep::Load
                    },
                }
            },
        }
    }

    /// Position of the least recently acquired model with no session, or the
    /// number of resident models when every one has a session.
    fn first_idle_index(&self) -> (r: usize)
        ensures
            r <= self.entries.len(),
            r < self.entries.len() ==> first_idle_at(self@.resident, r as int),
            r == self.entries.len() ==> !has_idle(self@.resident) && forall|j: int|
                0 <= j < self@.resident.len() ==> #[trigger] self@.resident[j].sessions > 0,
    {
        let mut i: usize = 0;
        while i < self.entries.len()
            invariant
                i <= self.entries.len(),
                self@.resident.len() == self.entries.len(),
                forall|j: int| 0 <= j < i ==> #[trigger] self@.resident[j].sessions > 0,
            decreases self.entries.len() - i,
        {
            if self.entries[i].sessions == 0 {
                assert(first_idle_at(self@.resident, i as int));
                return i;
            }
            i = i + 1;
        }
        proof {
            if has_idle(self@.resident) {
                let c = first_idle(self@.resident);
                assert(first_idle_at(self@.resident, c));
            }
        }
        i
    }

    /// Evicts idle models, least recently acquired first, while more than
    /// `max_resident - room` are resident.
    fn evict_idle(&mut self, room: usize) -> (evicted: Vec<ModelKey>)
        requires
            room <= 1,
            resident_keys_unique(old(self)@.resident),
        ensures
            final(self)@.resident == evict_over(old(self)@.resident, old(self)@.max_resident - room),
            key_views(evicted@) == evicted_over(
                old(self)@.resident,
                old(self)@.max_resident - room,
            ),
            final(self)@.pending == old(self)@.pending,
            final(self)@.max_resident == old(self)@.max_resident,
            resident_keys_unique(final(self)@.resident),
            forall|k: KeyView| holds_key(final(self)@.resident, k) ==> holds_key(old(self)@.resident, k),
            final(self)@.resident.len() <= old(self)@.max_resident - room || forall|j: int|
                0 <= j < final(self)@.resident.len() ==> #[trigger] final(self)@.resident[j].sessions > 0,
    {
        let ghost cap: int = self.max_resident - room;
        let ghost orig = self@.resident;
        let ghost pend = self@.pending;
        let mut evicted: Vec<ModelKey> = Vec::new();
        loop
            invariant
                cap == self.max_resident - room,
                room <= 1,
                self@.pending == pend,
                resident_keys_unique(self@.resident),
                forall|k: KeyView| holds_key(self@.resident, k) ==> holds_key(orig, k),
                evict_over(self@.resident, cap) == evict_over(orig, cap),
                key_views(evicted@) + evicted_over(self@.resident, cap) == evicted_over(orig, cap),
            ensures
                self@.pending == pend,
                self@.max_resident == cap + room,
                resident_keys_unique(self@.resident),
                forall|k: KeyView| holds_key(self@.resident, k) ==> holds_key(orig, k),
                self@.resident == evict_over(orig, cap),
                key_views(evicted@) == evicted_over(orig, cap),
                self@.resident.len() <= cap || forall|j: int|
                    0 <= j < self@.resident.len() ==> #[trigger] self@.resident[j].sessions > 0,
            decreases self.entries.len(),
        {
            let len = self.entries.len();
            let within = if room == 0 {
                len <= self.max_resident
            } else {
                len < self.max_resident
            };
            if within {
                assert(evicted_over(self@.resident, cap) == Seq::<KeyView>::empty());
                assert(key_views(evicted@) =~= key_views(evicted@) + Seq::<KeyView>::empty());
                break;
            }
            let i = self.first_idle_index();
            if i == len {
                assert(evicted_over(self@.resident, cap) == Seq::<KeyView>::empty());
                assert(key_views(evicted@) =~= key_views(evicted@) + Seq::<KeyView>::empty());
                break;
            }
            let ghost cur = self@.resident;
            proof {
                lemma_first_idle_unique(cur, i as int);
                lemma_remove_keeps_keys(cur, i as int);
            }
            let e = self.entries.remove(i);
            let ghost ev = evicted@;
            evicted.push(e.key);
            proof {
                assert(self@.resident =~= cur.remove(i as int));
                assert(key_views(evicted@) =~= key_views(ev).push(cur[i as int].key));
                assert(evicted_over(cur, cap) == seq![cur[i as int].key] + evicted_over(
                    cur.remove(i as int),
                    cap,
                ));
                assert(key_views(evicted@) + evicted_over(self@.resident, cap) =~= key_views(ev)
                    + evicted_over(cur, cap));
            }
        }
        evicted
    }

    /// Reports the outcome of a load that `acquire` asked for. On success the
    /// model becomes resident, after idle models were evicted (least recently
    /// acquired first) to make room for it; it starts with one session for the
    /// loading caller and one for each caller that waited. The evicted keys are
    /// returned. A failure is handed back and nothing is cached.
    pub fn finish_load(&mut self, key: &ModelKey, outcome: Result<H, LoadError>, now: u64) -> (r:
        Result<Vec<ModelKey>, LoadError>)
        requires
            old(self).wf(),
            awaits_key(old(self)@.pending, key@),
        ensures
            final(self).wf(),
            final(self)@ == finish_next(old(self)@, key@, outcome, now),
            match outcome {
                Ok(_) => r matches Ok(ev) && key_views(ev@) == evicted_over(
                    old(self)@.resident,
                    old(self)@.max_resident - 1,
                ),
                Err(e) => r == Err::<Vec<ModelKey>, LoadError>(e),
            },
            within_capacity(final(self)@),
    {
        let ghost s = self@;
        let j = match self.find_pending(key) {
            Some(j) => j,
            None => {
                assert(false);
                0
            },
        };
        let p = self.pending.remove(j);
        proof {
            assert(self@.pending =~= s.pending.remove(j as int));
            assert forall|a: int, b: int|
                0 <= a < b < self@.pending.len() implies self@.pending[a].key
                != self@.pending[b].key by {
                let oa = if a < j { a } else { a + 1 };
                let ob = if b < j { b } else { b + 1 };
                assert(self@.pending[a] == s.pending[oa]);
                assert(self@.pending[b] == s.pending[ob]);
            }
        }
        match outcome {
            Ok(h) => {
                let evicted = self.evict_idle(1);
                let ghost mid = self@.resident;
                self.entries.push(
                    ResidentModel { key: p.key, handle: h, loaded_at: now, sessions: p.waiters + 1 },
                );
                proof {
                    let nv = ResidentView {
                        key: key@,
                        handle: h,
                        loaded_at: now,
                        sessions: s.pending[j as int].waiters + 1,
                    };
                    assert(self@.resident =~= mid.push(nv));
                    assert(!holds_key(s.resident, key@));
                    assert(!holds_key(mid, key@));
                    assert forall|a: int, b: int|
                        0 <= a < b < self@.resident.len() implies self@.resident[a].key
                        != self@.resident[b].key by {
                        if b == self@.resident.len() - 1 {
                            assert(mid[a].key != key@);
                        } else {
                            assert(mid[a].key != mid[b].key);
                        }
                    }
                    assert forall|q: int| 0 <= q < self@.pending.len() implies !holds_key(
                        self@.resident,
                        #[trigger] self@.pending[q].key,
                    ) by {
                        let oq = if q < j { q } else { q + 1 };
                        assert(self@.pending[q] == s.pending[oq]);
                        assert(s.pending[oq].key != s.pending[j as int].key);
                        assert(!holds_key(s.resident, s.pending[oq].key));
                        if holds_key(self@.resident, self@.pending[q].key) {
                            let a = choose|a: int|
                                0 <= a < self@.resident.len() && self@.resident[a].key
                                    == self@.pending[q].key;
                            if a < mid.len() {
                                assert(holds_key(mid, self@.pending[q].key));
                            }
                        }
                    }
                    assert forall|q: int| 0 <= q < self@.pending.len() implies #[trigger] self@.pending[q].waiters
                        < u64::MAX by {
                        let oq = if q < j { q } else { q + 1 };
                        assert(self@.pending[q] == s.pending[oq]);
                    }
                    if mid.len() > s.max_resident - 1 {
                        assert forall|a: int| 0 <= a < self@.resident.len() implies #[trigger] self@.resident[a].sessions
                            > 0 by {
                            if a < mid.len() {
                                assert(mid[a].sessions > 0);
                            }
                        }
                    }
                }
                Ok(evicted)
            },
            Err(e) => {
                proof {
                    assert(self@.resident =~= s.resident);
                    assert forall|q: int| 0 <= q < self@.pending.len() implies !holds_key(
                        self@.resident,
                        #[trigger] self@.pending[q].key,
                    ) && self@.pending[q].waiters < u64::MAX by {
                        let oq = if q < j { q } else { q + 1 };
                        assert(self@.pending[q] == s.pending[oq]);
                    }
                }
                Err(e)
            },
        }
    }

    /// Closes one session on the model under `key`. When the cache is over
    /// capacity, idle models are then evicted, least recently acquired first,
    /// and their keys returned. A key with no resident model or no session is
    /// left alone.
    pub fn end_session(&mut self, key: &ModelKey) -> (evicted: Vec<ModelKey>)
        requires
            old(self).wf(),
        ensures
            final(self).wf(),
            final(self)@ == end_next(old(self)@, key@),
            ends_session(old(self)@, key@) ==> key_views(evicted@) == evicted_over(
                with_one_session_less(old(self)@.resident, key@),
                old(self)@.max_resident as int,
            ),
            !ends_session(old(self)@, key@) ==> evicted@.len() == 0,
            within_capacity(final(self)@),
    {
        let ghost s = self@;
        match self.find_resident(key) {
            Some(i) => {
                if self.entries[i].sessions == 0 {
                    return Vec::new();
                }
                let n = self.entries[i].sessions - 1;
                self.entries[i].sessions = n;
                proof {
                    assert(self@.resident =~= with_one_session_less(s.resident, key@));
                    assert forall|a: int, b: int|
                        0 <= a < b < self@.resident.len() implies self@.resident[a].key
                        != self@.resident[b].key by {
                        assert(self@.resident[a].key == s.resident[a].key);
                        assert(self@.resident[b].key == s.resident[b].key);
                    }
                }
                let ghost mid = self@.resident;
                let evicted = self.evict_idle(0);
                proof {
                    assert forall|q: int| 0 <= q < self@.pending.len() implies !holds_key(
                        self@.resident,
                        #[trigger] self@.pending[q].key,
                    ) by {
                        let k = self@.pending[q].key;
                        assert(!holds_key(s.resident, k));
                        if holds_key(mid, k) {
                            let a = choose|a: int| 0 <= a < mid.len() && mid[a].key == k;
                            assert(s.resident[a].key == k);
                        }
                    }
                }
                evicted
            },
            None => Vec::new(),
        }
    }

    /// Unloads the model under `key` if it is resident and has no session;
    /// returns whether it did.
    pub fn release(&mut self, key: &ModelKey) -> (r: bool)
        requires
            old(self).wf(),
        ensures
            final(self).wf(),
            r == releasable(old(self)@, key@),
            final(self)@ == release_next(old(self)@, key@),
    {
        let ghost s = self@;
        match self.find_resident(key) {
            Some(i) => {
                if self.entries[i].sessions != 0 {
                    return false;
                }
                proof {
                    lemma_remove_keeps_keys(s.resident, i as int);
                }
                let _e = self.entries.remove(i);
                proof {
                    assert(self@.resident =~= s.resident.remove(i as int));
                    assert forall|q: int| 0 <= q < self@.pending.len() implies !holds_key(
                        self@.resident,
                        #[trigger] self@.pending[q].key,
                    ) by {
                        assert(!holds_key(s.resident, self@.pending[q].key));
                    }
                    if self@.resident.len() > self@.max_resident {
                        assert forall|a: int| 0 <= a < self@.resident.len() implies #[trigger] self@.resident[a].sessions
                            > 0 by {
                            let oa = if a < i { a } else { a + 1 };
                            assert(self@.resident[a] == s.resident[oa]);
                        }
                    }
                }
                true
            },
            None => false,
        }
    }

    /// The backend handle of the model under `key`, if it is resident.
    pub fn handle(&self, key: &ModelKey) -> (r: Option<&H>)
        requires
            self.wf(),
        ensures
            r matches Some(h) ==> holds_key(self@.resident, key@) && *h == self@.resident[key_index(
                self@.resident,
                key@,
            )].handle,
            r is None ==> !holds_key(self@.resident, key@),
    {
        match self.find_resident(key) {
            Some(i) => Some(&self.entries[i].handle),
            None => None,
        }
    }

    /// Open sessions on the model under `key`, if it is resident.
    pub fn sessions(&self, key: &ModelKey) -> (r: Option<u64>)
        requires
            self.wf(),
        ensures
            r matches Some(n) ==> holds_key(self@.resident, key@) && n == self@.resident[key_index(
                self@.resident,
                key@,
            )].sessions,
            r is None ==> !holds_key(self@.resident, key@),
    {
        match self.find_resident(key) {
            Some(i) => Some(self.entries[i].sessions),
            None => None,
        }
    }

    /// Whether a load of `key` is in flight.
    pub fn is_loading(&self, key: &ModelKey) -> (r: bool)
        requires
            self.wf(),
        ensures
            r == awaits_key(self@.pending, key@),
    {
        self.find_pending(key).is_some()
    }

    /// The keys of the resident models, least recently acquired first.
    pub fn list_resident(&self) -> (r: Vec<ModelKey>)
        ensures
            key_views(r@) == self@.resident.map_values(|e: ResidentView<H>| e.key),
    {
        let mut out: Vec<ModelKey> = Vec::new();
        let mut i: usize = 0;
        while i < self.entries.len()
            invariant
                i <= self.entries.len(),
                self@.resident.len() == self.entries.len(),
                key_views(out@) =~= self@.resident.take(i as int).map_values(
                    |e: ResidentView<H>| e.key,
                ),
            decreases self.entries.len() - i,
        {
            let ghost o = out@;
            out.push(self.entries[i].key.clone());
            assert(key_views(out@) =~= key_views(o).push(self@.resident[i as int].key));
            assert(self@.resident.take(i + 1).map_values(|e: ResidentView<H>| e.key)
                =~= self@.resident.take(i as int).map_values(|e: ResidentView<H>| e.key).push(
                self@.resident[i as int].key,
            ));
            i = i + 1;
        }
        assert(self@.resident.take(i as int) =~= self@.resident);
        out
    }

    /// Number of resident models.
    pub fn resident_count(&self) -> (r: usize)
        ensures
            r == self@.resident.len(),
    {
        self.entries.len()
    }

    pub fn max_resident(&self) -> (r: usize)
        ensures
            r == self@.max_resident,
    {
        self.max_resident
    }
}

} // verus!
