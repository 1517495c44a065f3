//! The recommender's bookkeeping: the window of a recommendation list held
//! in memory, which lists are stale, and the queue of content to refresh.
use vstd::prelude::*;
use std::collections::HashMap;
use std::collections::VecDeque;

use crate::clock::{due, is_due};



verus! {

broadcast use {vstd::std_specs::hash::group_hash_axioms, vstd::std_specs::vecdeque::group_vec_dequeue_axioms};

/// How many entries a page of a recommendation list holds.
pub const PAGE_SIZE: i64 = 40;

/// How many levels of provider recommendations are followed from a liked
/// content, past the content itself.
pub const CONTENT_RECOMMENDATION_LEVEL: u8 = 1;

/// How long provider recommendations stay fresh: four days, in seconds.
pub const CHECK_INTERVAL_SECS: u64 = 345_600;

/// How long a computed list stays fresh: ten minutes, in seconds.
pub const RECOMMENDATION_TTL_SECS: u64 = 600;

/// How long a list may go unused before it can be dropped: two days, in
/// seconds.
pub const IDLE_LIMIT_SECS: u64 = 172_800;

/// A window on a recommendation list: the entries with ranks `inf..=sup`
/// are in memory, the list holds ranks `min..=max`.
pub struct RecommendationWindow<T> {
    pub min: i64,
    pub max: i64,
    pub inf: i64,
    pub sup: i64,
    pub data: VecDeque<T>,
}

/// What a lookup at a rank must do.
#[derive(Debug, Clone, Copy, PartialEq, Eq, Structural)]
pub enum Lookup {
    /// The rank is outside the list.
    OutOfRange,
    /// The page from the rank on must be loaded first.
    Load(i64),
    /// The entry is answered from memory.
    Ready,
}

/// Moves the entries of `v`, in order, to the back of `d`.
fn extend_back<T>(d: &mut VecDeque<T>, v: Vec<T>)
    ensures
        final(d)@ == old(d)@ + v@,
{
    let ghost base = d@;
    let ghost all = v@;
    for x in it: v.into_iter()
        invariant
            base == old(d)@,
            it.seq() == all,
            d@ == base + all.take(it.index() as int),
    {
        d.push_back(x);
        proof {
            assert(all.take(it.index() + 1) =~= all.take(it.index() as int).push(x));
        }
    }
    proof {
        assert(all.take(all.len() as int) =~= all);
    }
}

impl<T> RecommendationWindow<T> {
    /// The window over a page just loaded, from the ranks `(o1, o2)` of its
    /// first entry: the entry's own rank and the length of the list. An
    /// empty page gives an empty list.
    pub fn from_page(first: Option<(i64, i64)>, page: Vec<T>) -> (w: Self)
        requires
            first matches Some((o1, _)) ==> o1 + PAGE_SIZE <= i64::MAX,
        ensures
            w.data@ == page@,
            match first {
                None => w.min == 0 && w.max == 0 && w.inf == 0 && w.sup == 0,
                Some((o1, o2)) => w.min == 1 && w.max == o2 && w.inf == o1 && w.sup == (if o2
                    < o1 + PAGE_SIZE {
                    o2 as int
                } else {
                    o1 + PAGE_SIZE
                }),
            },
    {
        let (min, max, inf, sup) = match first {
            None => (0, 0, 0, 0),
            Some((o1, o2)) => (1, o2, o1, if o2 < o1 + PAGE_SIZE {
                o2
            } else {
                o1 + PAGE_SIZE
            }),
        };
        let mut data: VecDeque<T> = VecDeque::new();
        extend_back(&mut data, page);
        RecommendationWindow { min, max, inf, sup, data }
    }

    /// The length of the list.
    pub fn len(&self) -> (n: i64)
        ensures
            n == self.max,
    {
        self.max
    }

    /// What a lookup at rank `pos` must do: nothing outside `min..=max`, a
    /// load outside the ranks in memory, otherwise nothing more.
    pub fn lookup(&self, pos: i64) -> (l: Lookup)
        ensures
            l == (if pos < self.min || pos > self.max {
                Lookup::OutOfRange
            } else if pos < self.inf || pos > self.sup {
                Lookup::Load(pos)
            } else {
                Lookup::Ready
            }),
    {
        if pos < self.min || pos > self.max {
            Lookup::OutOfRange
        } else if pos < self.inf || pos > self.sup {
            Lookup::Load(pos)
        } else {
            Lookup::Ready
        }
    }

    /// The entry at rank `pos`, counted from `min` in memory, if there is
    /// one.
    pub fn entry(&self, pos: i64) -> (e: Option<&T>)
        ensures
            match e {
                Some(x) => 0 <= pos - self.min < self.data@.len() && *x == self.data@[pos - self.min],
                None => !(0 <= pos - self.min < self.data@.len()),
            },
    {
        let k = pos as i128 - self.min as i128;
        if k < 0 || k >= self.data.len() as i128 {
            None
        } else {
            Some(&self.data[k as usize])
        }
    }

    /// Moves past the first entry in memory.
    pub fn advance(&mut self)
        requires
            old(self).inf < i64::MAX,
        ensures
            final(self).inf == old(self).inf + 1,
            final(self).data@ == (if old(self).data@.len() > 0 {
                old(self).data@.drop_first()
            } else {
                old(self).data@
            }),
            final(self).min == old(self).min,
            final(self).max == old(self).max,
            final(self).sup == old(self).sup,
    {
        self.inf = self.inf + 1;
        let ghost before = self.data@;
        self.data.pop_front();
        proof {
            if before.len() > 0 {
                assert(self.data@ =~= before.drop_first());
            }
        }
    }

    /// The ranks to load to extend the window by up to `n` entries at the
    /// back: from just after `sup`, never past `max`; nothing once the
    /// window reaches `max`.
    pub fn back_request(&self, n: i64) -> (r: Option<(i64, i64)>)
        requires
            self.sup < self.max ==> self.max - self.sup <= i64::MAX,
            self.sup < i64::MAX,
        ensures
            r == (if self.sup < self.max {
                Some(
                    (
                        (self.sup + 1) as i64,
                        if n < self.max - self.sup {
                            n
                        } else {
                            (self.max - self.sup) as i64
                        },
                    ),
                )
            } else {
                None::<(i64, i64)>
            }),
    {
        if self.sup < self.max {
            let room = self.max - self.sup;
            Some((self.sup + 1, if n < room {
                n
            } else {
                room
            }))
        } else {
            None
        }
    }

    /// Adds loaded entries at the back of the window.
    pub fn append_back(&mut self, entries: Vec<T>)
        requires
            entries@.len() <= i64::MAX,
            old(self).sup + entries@.len() <= i64::MAX,
        ensures
            final(self).sup == old(self).sup + entries@.len(),
            final(self).data@ == old(self).data@ + entries@,
            final(self).min == old(self).min,
            final(self).max == old(self).max,
            final(self).inf == old(self).inf,
    {
        let n = entries.len();
        self.sup = self.sup + n as i64;
        extend_back(&mut self.data, entries);
    }
}

/// Whether the provider recommendations of a content, refreshed at
/// `updated_at`, must be fetched again at `now`.
pub fn provider_refresh_due(updated_at: i64, now: i64) -> (b: bool)
    ensures
        b == due(updated_at, CHECK_INTERVAL_SECS, now),
{
    is_due(updated_at, CHECK_INTERVAL_SECS, now)
}

/// What refreshing the provider recommendations of a content at `limit`
/// levels does: nothing at the last level or when they are still fresh;
/// otherwise they are fetched again, and each recommended content is
/// refreshed with one level less.
pub open spec fn refresh_next(limit: u8, updated_at: i64, now: i64) -> Option<u8> {
    if limit == 0 || !due(updated_at, CHECK_INTERVAL_SECS, now) {
        None
    } else {
        Some((limit - 1) as u8)
    }
}

/// Whether to refresh the provider recommendations of a content at `limit`
/// levels, refreshed at `updated_at`, at `now`: the level its recommended
/// contents are refreshed with, or nothing.
pub fn refresh_plan(limit: u8, updated_at: i64, now: i64) -> (next: Option<u8>)
    ensures
        next == refresh_next(limit, updated_at, now),
{
    if limit == 0 || !provider_refresh_due(updated_at, now) {
        None
    } else {
        Some(limit - 1)
    }
}

/// The level reached along a chain of refreshes started at `start`: each
/// step is a content whose provider recommendations were refreshed (with
/// its refresh time and the time it was looked at), the next content being
/// one of them. Nothing when some step was not refreshed.
pub open spec fn chain_level(start: u8, steps: Seq<(i64, i64)>) -> Option<u8>
    decreases steps.len(),
{
    if steps.len() == 0 {
        Some(start)
    } else {
        match chain_level(start, steps.drop_last()) {
            Some(l) => refresh_next(l, steps.last().0, steps.last().1),
            None => None,
        }
    }
}

/// Along a chain of refreshes each step takes one level off.
pub proof fn lemma_chain_level(start: u8, steps: Seq<(i64, i64)>)
    ensures
        chain_level(start, steps) matches Some(l) ==> l + steps.len() == start,
    decreases steps.len(),
{
    if steps.len() > 0 {
        lemma_chain_level(start, steps.drop_last());
    }
}

/// Refreshing from a liked content with `CONTENT_RECOMMENDATION_LEVEL + 1`
/// levels asks the provider only for the content itself and for its direct
/// recommendations: a content reached through `steps` refreshes is fetched
/// only when fewer than two refreshes led to it.
pub proof fn lemma_refresh_two_levels(steps: Seq<(i64, i64)>, updated_at: i64, now: i64)
    requires
        chain_level((CONTENT_RECOMMENDATION_LEVEL + 1) as u8, steps) is Some,
        refresh_next(chain_level((CONTENT_RECOMMENDATION_LEVEL + 1) as u8, steps)->Some_0, updated_at, now) is Some,
    ensures
        steps.len() <= CONTENT_RECOMMENDATION_LEVEL,
{
    lemma_chain_level((CONTENT_RECOMMENDATION_LEVEL + 1) as u8, steps);
}

/// Whether a computed list, refreshed at `updated_at`, must be computed
/// again at `now`.
pub fn recommendation_refresh_due(updated_at: i64, now: i64) -> (b: bool)
    ensures
        b == due(updated_at, RECOMMENDATION_TTL_SECS, now),
{
    is_due(updated_at, RECOMMENDATION_TTL_SECS, now)
}

/// How long a list may go unused, in nanoseconds.
pub open spec fn idle_limit_nanos() -> int {
    IDLE_LIMIT_SECS * 1_000_000_000
}

/// Whether a list whose count of users is `refcount`, last used at `last`
/// (nanoseconds on the worker's clock, if ever), can be dropped at `now`:
/// nobody holds it, or it went unused for longer than the idle limit.
pub open spec fn stale(refcount: i64, last: Option<u128>, now: u128) -> bool {
    refcount <= 0 || match last {
        None => true,
        Some(t) => (if now >= t { now - t } else { 0 }) > idle_limit_nanos(),
    }
}

/// When each recommendation list was last used, by the worker's clock.
pub struct ActivityTracker {
    last_used: HashMap<u128, u128>,
}

impl ActivityTracker {
    /// The time each list was last used.
    pub closed spec fn used(&self) -> Map<u128, u128> {
        self.last_used@
    }

    /// A tracker that saw no use yet.
    pub fn new() -> (t: Self)
        ensures
            t.used() == Map::<u128, u128>::empty(),
    {
        ActivityTracker { last_used: HashMap::new() }
    }

    /// Notes that list `id` was used at `now`.
    pub fn record(&mut self, id: u128, now: u128)
        ensures
            final(self).used() == old(self).used().insert(id, now),
    {
        self.last_used.insert(id, now);
    }

    /// Whether list `id`, held by `refcount` users, can be dropped at `now`.
    pub fn is_stale(&self, id: u128, refcount: i64, now: u128) -> (b: bool)
        ensures
            b == stale(
                refcount,
                if self.used().contains_key(id) {
                    Some(self.used()[id])
                } else {
                    None
                },
                now,
            ),
    {
        if refcount <= 0 {
            return true;
        }
        match self.last_used.get(&id) {
            None => true,
            Some(t) => {
                let idle = if now >= *t {
                    now - *t
                } else {
                    0
                };
                idle > (IDLE_LIMIT_SECS as u128) * 1_000_000_000u128
            },
        }
    }

    /// The lists among `(id, refcount)` candidates that can be dropped at
    /// `now`, in order.
    pub fn stale_lists(&self, candidates: &Vec<(u128, i64)>, now: u128) -> (ids: Vec<u128>)
        ensures
            ids@ == candidates@.filter(|c: (u128, i64)| self.stale_at(c, now)).map_values(
                |c: (u128, i64)| c.0,
            ),
    {
        let ghost pred = |c: (u128, i64)| self.stale_at(c, now);
        let mut ids: Vec<u128> = Vec::new();
        let mut i: usize = 0;
        while i < candidates.len()
            invariant
                i <= candidates@.len(),
                pred == (|c: (u128, i64)| self.stale_at(c, now)),
                ids@ == candidates@.take(i as int).filter(pred).map_values(|c: (u128, i64)| c.0),
            decreases candidates@.len() - i,
        {
            let (id, refcount) = candidates[i];
            let ghost before = candidates@.take(i as int);
            proof {
                assert(candidates@.take(i + 1) =~= before.push(candidates@[i as int]));
                reveal_with_fuel(Seq::<_>::filter, 1);
                assert(candidates@.take(i + 1).drop_last() =~= before);
            }
            if self.is_stale(id, refcount, now) {
                ids.push(id);
                proof {
                    assert(candidates@.take(i + 1).filter(pred) =~= before.filter(pred).push(candidates@[i as int]));
                }
            } else {
                proof {
                    assert(candidates@.take(i + 1).filter(pred) =~= before.filter(pred));
                }
            }
            i = i + 1;
        }
        proof {
            assert(candidates@.take(i as int) =~= candidates@);
        }
        ids
    }

    /// Whether a candidate `(id, refcount)` can be dropped at `now`.
    pub open spec fn stale_at(&self, c: (u128, i64), now: u128) -> bool {
        stale(
            c.1,
            if self.used().contains_key(c.0) {
                Some(self.used()[c.0])
            } else {
                None
            },
            now,
        )
    }
}

/// A list that somebody holds and that was used no longer than the idle
/// limit ago is kept.
pub proof fn lemma_recent_use_keeps_list(t: ActivityTracker, id: u128, refcount: i64, now: u128)
    requires
        refcount > 0,
        t.used().contains_key(id),
        now - t.used()[id] <= idle_limit_nanos(),
    ensures
        !t.stale_at((id, refcount), now),
{
}

/// The last use of each list after the uses `ops`, each a list id and the
/// time it was used, recorded in order on a tracker that saw none.
pub open spec fn uses_after(ops: Seq<(u128, u128)>) -> Map<u128, u128>
    decreases ops.len(),
{
    if ops.len() == 0 {
        Map::empty()
    } else {
        uses_after(ops.drop_last()).insert(ops.last().0, ops.last().1)
    }
}

/// Whether the uses are recorded in the order of their times.
pub open spec fn in_time_order(ops: Seq<(u128, u128)>) -> bool {
    forall|i: int, j: int| 0 <= i <= j < ops.len() ==> ops[i].1 <= ops[j].1
}

/// The tracker knows a list exactly when it was used, and then holds the
/// latest time it was used.
proof fn lemma_uses_after(ops: Seq<(u128, u128)>, id: u128)
    requires
        in_time_order(ops),
    ensures
        uses_after(ops).contains_key(id) <==> exists|i: int| 0 <= i < ops.len() && #[trigger] ops[i].0 == id,
        uses_after(ops).contains_key(id) ==> (exists|i: int|
            0 <= i < ops.len() && #[trigger] ops[i].0 == id && ops[i].1 == uses_after(ops)[id]),
        uses_after(ops).contains_key(id) ==> forall|i: int|
            0 <= i < ops.len() && #[trigger] ops[i].0 == id ==> ops[i].1 <= uses_after(ops)[id],
    decreases ops.len(),
{
    if ops.len() > 0 {
        let pre = ops.drop_last();
        let n = ops.len() - 1;
        assert forall|i: int, j: int| 0 <= i <= j < pre.len() implies pre[i].1 <= pre[j].1 by {
            assert(pre[i] == ops[i] && pre[j] == ops[j]);
        }
        lemma_uses_after(pre, id);
        assert forall|i: int| 0 <= i < n implies ops[i] == #[trigger] pre[i] by {}
        if ops[n].0 == id {
            assert(ops[n].0 == id);
            assert forall|i: int| 0 <= i < ops.len() && #[trigger] ops[i].0 == id implies ops[i].1
                <= uses_after(ops)[id] by {
                assert(ops[i].1 <= ops[n].1);
            }
        } else {
            assert forall|i: int| 0 <= i < ops.len() && #[trigger] ops[i].0 == id implies ops[i].1
                <= uses_after(ops)[id] by {
                assert(pre[i].0 == id);
            }
            if uses_after(pre).contains_key(id) {
                let k = choose|i: int| 0 <= i < pre.len() && #[trigger] pre[i].0 == id && pre[i].1 == uses_after(pre)[id];
                assert(ops[k].0 == id);
            }
            if exists|i: int| 0 <= i < ops.len() && #[trigger] ops[i].0 == id {
                let k = choose|i: int| 0 <= i < ops.len() && #[trigger] ops[i].0 == id;
                assert(pre[k].0 == id);
            }
        }
    }
}

/// At a tick, an outdated list is dropped exactly when nobody holds it or
/// it got no use within the idle limit, given the uses recorded so far, in
/// time order and none after `now`.
pub proof fn lemma_dropped_iff_unheld_or_idle(
    t: ActivityTracker,
    ops: Seq<(u128, u128)>,
    id: u128,
    refcount: i64,
    now: u128,
)
    requires
        t.used() == uses_after(ops),
        in_time_order(ops),
        forall|i: int| 0 <= i < ops.len() ==> #[trigger] ops[i].1 <= now,
    ensures
        t.stale_at((id, refcount), now) <==> (refcount <= 0 || !exists|i: int|
            0 <= i < ops.len() && #[trigger] ops[i].0 == id && now - ops[i].1 <= idle_limit_nanos()),
{
    lemma_uses_after(ops, id);
    if uses_after(ops).contains_key(id) {
        let last = uses_after(ops)[id];
        let k = choose|i: int| 0 <= i < ops.len() && #[trigger] ops[i].0 == id && ops[i].1 == last;
        assert(ops[k].1 <= now);
        if now - last <= idle_limit_nanos() {
            assert(ops[k].0 == id && now - ops[k].1 <= idle_limit_nanos());
        }
    }
}

/// Only outdated lists handed to the tracker are dropped, and each only
/// when it is stale.
pub proof fn lemma_only_stale_candidates_dropped(t: ActivityTracker, candidates: Seq<(u128, i64)>, now: u128, k: int)
    requires
        0 <= k < candidates.filter(|c: (u128, i64)| t.stale_at(c, now)).len(),
    ensures
        exists|i: int|
            0 <= i < candidates.len() && #[trigger] candidates[i] == candidates.filter(
                |c: (u128, i64)| t.stale_at(c, now),
            )[k] && t.stale_at(candidates[i], now),
{
    let pred = |c: (u128, i64)| t.stale_at(c, now);
    let f = candidates.filter(pred);
    assert(f.contains(f[k]));
    candidates.lemma_filter_contains_rev(pred, f[k]);
    candidates.lemma_filter_pred(pred, k);
    let i = choose|i: int| 0 <= i < candidates.len() && candidates[i] == f[k];
    assert(candidates[i] == f[k]);
}

/// A list that nobody holds can always be dropped.
pub proof fn lemma_unheld_list_is_stale(t: ActivityTracker, id: u128, refcount: i64, now: u128)
    requires
        refcount <= 0,
    ensures
        t.stale_at((id, refcount), now),
{
}

/// An operation on the refresh queue: a content arrives, or the worker
/// looks for the next job, with whether no refresh is running.
pub ghost enum QueueOp<T> {
    Push(T),
    Poll(bool),
}

/// The waiting contents after an operation, and the job it starts.
pub open spec fn queue_step<T>(w: Seq<T>, op: QueueOp<T>) -> (Seq<T>, Option<T>) {
    match op {
        QueueOp::Push(c) => (w.push(c), None),
        QueueOp::Poll(idle) => if idle && w.len() > 0 {
            (w.drop_first(), Some(w[0]))
        } else {
            (w, None)
        },
    }
}

/// The contents waiting and the jobs started, in order, after a run of
/// operations on an empty queue.
pub open spec fn queue_run<T>(ops: Seq<QueueOp<T>>) -> (Seq<T>, Seq<T>)
    decreases ops.len(),
{
    if ops.len() == 0 {
        (Seq::empty(), Seq::empty())
    } else {
        let (w, started) = queue_run(ops.drop_last());
        let (w2, job) = queue_step(w, ops.last());
        (w2, match job {
            Some(c) => started.push(c),
            None => started,
        })
    }
}

/// The contents that arrived, in order, in a run of operations.
pub open spec fn queue_arrivals<T>(ops: Seq<QueueOp<T>>) -> Seq<T>
    decreases ops.len(),
{
    if ops.len() == 0 {
        Seq::empty()
    } else {
        let before = queue_arrivals(ops.drop_last());
        match ops.last() {
            QueueOp::Push(c) => before.push(c),
            QueueOp::Poll(_) => before,
        }
    }
}

/// Contents are refreshed in the order they arrived, none lost and none
/// twice: at any point the jobs started, followed by the contents waiting,
/// are exactly the contents that arrived.
pub proof fn lemma_queue_keeps_arrival_order<T>(ops: Seq<QueueOp<T>>)
    ensures
        queue_run(ops).1 + queue_run(ops).0 == queue_arrivals(ops),
    decreases ops.len(),
{
    if ops.len() > 0 {
        lemma_queue_keeps_arrival_order(ops.drop_last());
        let (w, started) = queue_run(ops.drop_last());
        match ops.last() {
            QueueOp::Push(c) => {
                assert(started + w.push(c) =~= (started + w).push(c));
            },
            QueueOp::Poll(idle) => {
                if idle && w.len() > 0 {
                    assert(started.push(w[0]) + w.drop_first() =~= started + w);
                }
            },
        }
    }
}

/// While a refresh runs, no other one starts.
pub proof fn lemma_no_start_while_running<T>(w: Seq<T>)
    ensures
        queue_step(w, QueueOp::Poll(false)) == (w, None::<T>),
{
}

/// Content waiting for its provider recommendations to be refreshed, one
/// at a time, in arrival order.
pub struct UpdateQueue<T> {
    queue: VecDeque<T>,
}

impl<T> UpdateQueue<T> {
    /// The contents waiting, first to go first.
    pub closed spec fn waiting(&self) -> Seq<T> {
        self.queue@
    }

    pub fn new() -> (q: Self)
        ensures
            q.waiting() == Seq::<T>::empty(),
    {
        UpdateQueue { queue: VecDeque::new() }
    }

    /// Adds a content at the back.
    pub fn push(&mut self, content: T)
        ensures
            final(self).waiting() == old(self).waiting().push(content),
            (final(self).waiting(), None::<T>) == queue_step(old(self).waiting(), QueueOp::Push(content)),
    {
        self.queue.push_back(content);
    }

    /// The next content to refresh, when no refresh is running: the first
    /// waiting, if any; nothing starts while one runs.
    pub fn next_job(&mut self, idle: bool) -> (job: Option<T>)
        ensures
            !idle || old(self).waiting().len() == 0 ==> job is None && final(self).waiting() == old(
                self,
            ).waiting(),
            idle && old(self).waiting().len() > 0 ==> job == Some(old(self).waiting()[0])
                && final(self).waiting() == old(self).waiting().drop_first(),
            (final(self).waiting(), job) == queue_step(old(self).waiting(), QueueOp::Poll(idle)),
    {
        if idle && self.queue.len() > 0 {
            let job = self.queue.pop_front();
            proof {
                assert(final(self).waiting() =~= old(self).waiting().drop_first());
            }
            job
        } else {
            None
        }
    }
}

/// Whether the recommender embeddings must be rebuilt at the next tick:
/// requests gather until then.
pub struct EmbeddingsDebounce {
    pending: bool,
}

impl EmbeddingsDebounce {
    pub closed spec fn is_pending(&self) -> bool {
        self.pending
    }

    pub fn new() -> (d: Self)
        ensures
            !d.is_pending(),
    {
        EmbeddingsDebounce { pending: false }
    }

    /// Notes a request to rebuild.
    pub fn request(&mut self)
        ensures
            final(self).is_pending(),
    {
        self.pending = true;
    }

    /// At a tick: whether to rebuild now; the request is then served.
    pub fn tick(&mut self) -> (rebuild: bool)
        ensures
            rebuild == old(self).is_pending(),
            !final(self).is_pending(),
    {
        let rebuild = self.pending;
        self.pending = false;
        rebuild
    }
}

} // verus!
