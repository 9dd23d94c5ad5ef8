use vstd::prelude::*;
use vstd::rwlock::{RwLock, RwLockPredicate};

use crate::graph::{
    GraphData, GraphView, MAX_RATE_CENTI_HZ, MIN_RATE_CENTI_HZ, ProbeError, TickOutcome, interval_of,
};
use crate::rolling::{keep_last, push_spec};

verus! {

/// A graph together with every sample it has accepted since it was created.
pub struct GraphContents {
    pub graph: GraphData,
    pub accepted: Ghost<Seq<i64>>,
}

/// What the lock of a shared graph holds at every moment: a well-formed
/// graph of the handle's fixed capacity whose samples are the most recent
/// `capacity` of all the samples it accepted, in the order they came.
pub struct GraphLockInv {
    pub capacity: usize,
}

impl RwLockPredicate<GraphContents> for GraphLockInv {
    open spec fn inv(self, v: GraphContents) -> bool {
        &&& v.graph.wf()
        &&& v.graph@.capacity == self.capacity
        &&& v.graph@.samples == keep_last(v.accepted@, self.capacity as nat)
    }
}

/// Keeping the last `c` values commutes with pushing one more through a
/// buffer of capacity `c`.
proof fn lemma_keep_last_push(h: Seq<i64>, v: i64, c: nat)
    requires
        c >= 1,
    ensures
        keep_last(h.push(v), c) == push_spec(keep_last(h, c), v, c),
{
    let k = keep_last(h, c);
    if h.len() >= c {
        assert(k.drop_first().push(v) =~= keep_last(h.push(v), c));
    } else {
        assert(k.push(v) =~= keep_last(h.push(v), c));
    }
}

/// One graph shared between its sampler and the display: every operation
/// takes the lock for a single read or write and releases it before returning,
/// so no caller ever holds it across a probe, a wait or another graph's lock.
pub struct SharedGraph {
    lock: RwLock<GraphContents, GraphLockInv>,
    max_points: usize,
}

impl SharedGraph {
    #[verifier::type_invariant]
    spec fn lock_matches(&self) -> bool {
        &&& self.lock.pred().capacity == self.max_points
        &&& self.max_points >= 1
    }

    /// The fixed capacity of the graph's buffer.
    pub closed spec fn spec_capacity(&self) -> nat {
        self.max_points as nat
    }

    /// A shared, running, empty graph (see `GraphData::new`).
    pub fn new(max_points: usize, rate_centi_hz: u32, now_ns: u64) -> (r: SharedGraph)
        requires
            max_points >= 1,
        ensures
            r.spec_capacity() == max_points,
    {
        let graph = GraphData::new(max_points, rate_centi_hz, now_ns);
        let contents = GraphContents { graph, accepted: Ghost(Seq::empty()) };
        let lock = RwLock::new(contents, Ghost(GraphLockInv { capacity: max_points }));
        SharedGraph { lock, max_points }
    }

    pub fn max_points(&self) -> (r: usize)
        ensures
            r == self.spec_capacity(),
    {
        self.max_points
    }

    /// One sampler tick (see `GraphData::record`), under the lock.
    pub fn record(&self, now_ns: u64, reading: Result<i64, ProbeError>) -> (r: TickOutcome)
        ensures
            r is Recorded ==> reading is Ok,
            r matches TickOutcome::Failed(e) ==> reading == Err::<i64, ProbeError>(e),
    {
        let (mut v, handle) = self.lock.acquire_write();
        let ghost before: GraphView = v.graph@;
        let r = v.graph.record(now_ns, reading);
        if let TickOutcome::Recorded = r {
            proof {
                lemma_keep_last_push(v.accepted@, reading->Ok_0, before.capacity);
            }
            v.accepted = Ghost(v.accepted@.push(reading->Ok_0));
        }
        handle.release_write(v);
        r
    }

    /// Whether a sampler tick at `now_ns` should probe its source.
    pub fn is_due(&self, now_ns: u64) -> bool {
        let handle = self.lock.acquire_read();
        let r = handle.borrow().graph.is_due(now_ns);
        handle.release_read();
        r
    }

    /// A copy of the samples, taken under the lock: the most recent of the
    /// samples accepted so far, never more than the capacity.
    pub fn snapshot(&self) -> (r: Vec<i64>)
        ensures
            r@.len() <= self.spec_capacity(),
    {
        proof {
            use_type_invariant(self);
        }
        let handle = self.lock.acquire_read();
        let r = handle.borrow().graph.snapshot();
        handle.release_read();
        r
    }

    /// The most recent sample, if any.
    pub fn latest(&self) -> Option<i64> {
        let handle = self.lock.acquire_read();
        let r = handle.borrow().graph.latest();
        handle.release_read();
        r
    }

    /// The vertical range of the chart at the graph's display scale, read
    /// under the lock together with the samples it is computed from.
    pub fn display_range(&self) -> (r: Option<(i128, i128)>) {
        let handle = self.lock.acquire_read();
        let r = handle.borrow().graph.display_range();
        handle.release_read();
        r
    }

    pub fn is_paused(&self) -> bool {
        let handle = self.lock.acquire_read();
        let r = handle.borrow().graph.is_paused();
        handle.release_read();
        r
    }

    pub fn sampling_rate(&self) -> (r: u32)
        ensures
            100 <= r <= 6000,
    {
        let handle = self.lock.acquire_read();
        let r = handle.borrow().graph.sampling_rate();
        handle.release_read();
        r
    }

    /// The current sampling interval, in nanoseconds: what a sampler waits
    /// before its next tick.
    pub fn sampling_interval(&self) -> (r: u64)
        ensures
            16_666_666 <= r <= 1_000_000_000,
    {
        let handle = self.lock.acquire_read();
        let r = handle.borrow().graph.sampling_interval();
        handle.release_read();
        r
    }

    pub fn y_scale(&self) -> (r: u32)
        ensures
            100 <= r <= 1000,
    {
        let handle = self.lock.acquire_read();
        let r = handle.borrow().graph.y_scale();
        handle.release_read();
        r
    }

    pub fn set_paused(&self, paused: bool) {
        let (mut v, handle) = self.lock.acquire_write();
        v.graph.set_paused(paused);
        handle.release_write(v);
    }

    /// Sets the target rate, clamped to its range.
    pub fn set_sampling_rate(&self, rate_centi_hz: u32) {
        let (mut v, handle) = self.lock.acquire_write();
        v.graph.set_sampling_rate(rate_centi_hz);
        handle.release_write(v);
    }

    /// Sets the display scale, clamped to its range.
    pub fn set_y_scale(&self, y_scale_centi: u32) {
        let (mut v, handle) = self.lock.acquire_write();
        v.graph.set_y_scale(y_scale_centi);
        handle.release_write(v);
    }

    /// Recomputes the sampling interval from the current rate, and returns
    /// the rate read and the interval written, both under the same lock.
    pub fn adjust_interval(&self) -> (r: (u32, u64))
        ensures
            MIN_RATE_CENTI_HZ <= r.0 <= MAX_RATE_CENTI_HZ,
            r.1 == interval_of(r.0 as nat),
    {
        let (mut v, handle) = self.lock.acquire_write();
        v.graph.adjust_interval();
        let rate = v.graph.sampling_rate();
        let interval = v.graph.sampling_interval();
        handle.release_write(v);
        (rate, interval)
    }
}

/// The cadence controller: recomputes each graph's interval from its rate,
/// taking and releasing one graph's lock before the next. Returns, for the
/// CPU, fan and temperature graphs in that order, the rate read and the
/// interval written.
pub fn adjust_intervals(cpu_graph: &SharedGraph, fan_graph: &SharedGraph, temp_graph: &SharedGraph) -> (r: [(u32, u64); 3])
    ensures
        forall|i: int|
            0 <= i < 3 ==> MIN_RATE_CENTI_HZ <= #[trigger] r[i].0 <= MAX_RATE_CENTI_HZ && r[i].1
                == interval_of(r[i].0 as nat),
{
    let cpu = cpu_graph.adjust_interval();
    let fan = fan_graph.adjust_interval();
    let temp = temp_graph.adjust_interval();
    [cpu, fan, temp]
}

} // verus!
