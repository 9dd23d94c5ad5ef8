use vstd::prelude::*;

use vstd::arithmetic::div_mod::lemma_div_is_ordered_by_denominator;

use crate::rolling::{RollingBuffer, is_max_of, is_min_of, min_max_of, push_spec};

verus! {

/// Lowest sampling rate, in hundredths of a hertz (1 Hz).
pub const MIN_RATE_CENTI_HZ: u32 = 100;

/// Highest sampling rate, in hundredths of a hertz (60 Hz).
pub const MAX_RATE_CENTI_HZ: u32 = 6000;

/// Lowest display scale, in hundredths (1.0).
pub const MIN_Y_SCALE_CENTI: u32 = 100;

/// Highest display scale, in hundredths (10.0).
pub const MAX_Y_SCALE_CENTI: u32 = 1000;

/// Nanoseconds in one hundred seconds: a rate in hundredths of a hertz
/// divides it into the sampling interval in nanoseconds.
pub const CENTI_HZ_NANOS: u64 = 100_000_000_000;

/// Why a metric probe produced no reading.
#[derive(Clone, Copy, Debug, PartialEq, Eq, Structural)]
pub enum ProbeError {
    /// The mechanism that produces the metric could not be reached.
    SourceUnavailable,
    /// A reading was obtained but is not a number.
    ParseFailure,
}

/// What one sampler tick did.
#[derive(Clone, Copy, Debug, PartialEq, Eq, Structural)]
pub enum TickOutcome {
    /// The reading was pushed and the sample time moved to now.
    Recorded,
    /// The graph is paused: nothing changed.
    Paused,
    /// Less than one sampling interval has passed since the last sample.
    NotDue,
    /// The probe failed: nothing changed.
    Failed(ProbeError),
}

/// `r` kept within `[lo, hi]`.
pub open spec fn clamp_spec(r: nat, lo: nat, hi: nat) -> nat {
    if r < lo {
        lo
    } else if r > hi {
        hi
    } else {
        r
    }
}

/// The sampling interval, in nanoseconds, of a rate in hundredths of a hertz.
pub open spec fn interval_of(rate_centi_hz: nat) -> nat
    recommends
        rate_centi_hz > 0,
{
    CENTI_HZ_NANOS as nat / rate_centi_hz
}

/// Time elapsed from `last` to `now`; zero when the clock reads earlier than `last`.
pub open spec fn elapsed_spec(last: nat, now: nat) -> nat {
    if now >= last {
        (now - last) as nat
    } else {
        0
    }
}

/// A rate within range gives an interval between those of the extreme rates.
pub proof fn lemma_interval_in_range(rate_centi_hz: nat)
    requires
        MIN_RATE_CENTI_HZ <= rate_centi_hz <= MAX_RATE_CENTI_HZ,
    ensures
        interval_of(MAX_RATE_CENTI_HZ as nat) <= interval_of(rate_centi_hz) <= interval_of(
            MIN_RATE_CENTI_HZ as nat,
        ),
{
    lemma_div_is_ordered_by_denominator(CENTI_HZ_NANOS as int, rate_centi_hz as int, MAX_RATE_CENTI_HZ as int);
    lemma_div_is_ordered_by_denominator(CENTI_HZ_NANOS as int, MIN_RATE_CENTI_HZ as int, rate_centi_hz as int);
}

/// The interval, in nanoseconds, between samples taken at `rate_centi_hz`.
pub fn interval_for_rate(rate_centi_hz: u32) -> (r: u64)
    requires
        rate_centi_hz > 0,
    ensures
        r == interval_of(rate_centi_hz as nat),
{
    CENTI_HZ_NANOS / (rate_centi_hz as u64)
}

/// A sampling rate kept within `[MIN_RATE_CENTI_HZ, MAX_RATE_CENTI_HZ]`.
pub fn clamp_rate(rate_centi_hz: u32) -> (r: u32)
    ensures
        r == clamp_spec(rate_centi_hz as nat, MIN_RATE_CENTI_HZ as nat, MAX_RATE_CENTI_HZ as nat),
{
    if rate_centi_hz < MIN_RATE_CENTI_HZ {
        MIN_RATE_CENTI_HZ
    } else if rate_centi_hz > MAX_RATE_CENTI_HZ {
        MAX_RATE_CENTI_HZ
    } else {
        rate_centi_hz
    }
}

/// A display scale kept within `[MIN_Y_SCALE_CENTI, MAX_Y_SCALE_CENTI]`.
pub fn clamp_y_scale(y_scale_centi: u32) -> (r: u32)
    ensures
        r == clamp_spec(y_scale_centi as nat, MIN_Y_SCALE_CENTI as nat, MAX_Y_SCALE_CENTI as nat),
{
    if y_scale_centi < MIN_Y_SCALE_CENTI {
        MIN_Y_SCALE_CENTI
    } else if y_scale_centi > MAX_Y_SCALE_CENTI {
        MAX_Y_SCALE_CENTI
    } else {
        y_scale_centi
    }
}

/// The abstract state of one graph.
pub ghost struct GraphView {
    pub samples: Seq<i64>,
    pub capacity: nat,
    pub rate_centi_hz: nat,
    pub interval_ns: nat,
    pub paused: bool,
    pub y_scale_centi: nat,
    pub last_sample_ns: nat,
}

/// Whether a sampler tick at `now` takes a sample: not paused, and at least
/// the current sampling interval has passed since the last accepted sample.
pub open spec fn due_spec(g: GraphView, now: nat) -> bool {
    !g.paused && elapsed_spec(g.last_sample_ns, now) >= g.interval_ns
}

/// The state after a sampler tick at `now` whose probe gave `reading`
/// (the probe's answer is not looked at when the tick is not due).
pub open spec fn tick_spec(g: GraphView, now: nat, reading: Result<i64, ProbeError>) -> GraphView {
    if due_spec(g, now) && reading is Ok {
        GraphView {
            samples: push_spec(g.samples, reading->Ok_0, g.capacity),
            last_sample_ns: now,
            ..g
        }
    } else {
        g
    }
}

/// The state after a run of sampler ticks, each a time and a probe answer, in order.
pub open spec fn ticks_spec(g: GraphView, events: Seq<(nat, Result<i64, ProbeError>)>) -> GraphView
    decreases events.len(),
{
    if events.len() == 0 {
        g
    } else {
        let prev = ticks_spec(g, events.drop_last());
        tick_spec(prev, events.last().0, events.last().1)
    }
}

/// The state after the user sets the sampling rate to `rate` (clamped).
pub open spec fn set_rate_spec(g: GraphView, rate: nat) -> GraphView {
    GraphView {
        rate_centi_hz: clamp_spec(rate, MIN_RATE_CENTI_HZ as nat, MAX_RATE_CENTI_HZ as nat),
        ..g
    }
}

/// The state after the cadence controller has recomputed the interval from the rate.
pub open spec fn adjust_spec(g: GraphView) -> GraphView {
    GraphView { interval_ns: interval_of(g.rate_centi_hz), ..g }
}

/// One metric's samples with its live configuration: sampling rate and the
/// interval derived from it, pause flag, display scale, and the time of the
/// last accepted sample. Times are nanoseconds on a monotonic clock.
pub struct GraphData {
    buffer: RollingBuffer,
    rate_centi_hz: u32,
    interval_ns: u64,
    paused: bool,
    y_scale_centi: u32,
    last_sample_ns: u64,
}

impl View for GraphData {
    type V = GraphView;

    closed spec fn view(&self) -> GraphView {
        GraphView {
            samples: self.buffer@,
            capacity: self.buffer.spec_capacity(),
            rate_centi_hz: self.rate_centi_hz as nat,
            interval_ns: self.interval_ns as nat,
            paused: self.paused,
            y_scale_centi: self.y_scale_centi as nat,
            last_sample_ns: self.last_sample_ns as nat,
        }
    }
}

/// A graph state is well formed when its buffer never exceeds a positive
/// capacity, its rate and scale lie in their ranges, and its interval lies
/// between those of the extreme rates.
pub open spec fn graph_wf(g: GraphView) -> bool {
    &&& g.capacity >= 1
    &&& g.samples.len() <= g.capacity
    &&& MIN_RATE_CENTI_HZ <= g.rate_centi_hz <= MAX_RATE_CENTI_HZ
    &&& MIN_Y_SCALE_CENTI <= g.y_scale_centi <= MAX_Y_SCALE_CENTI
    &&& interval_of(MAX_RATE_CENTI_HZ as nat) <= g.interval_ns <= interval_of(
        MIN_RATE_CENTI_HZ as nat,
    )
}

impl GraphData {
    pub open spec fn wf(&self) -> bool {
        graph_wf(self@)
    }

    /// A running, empty graph of `max_points` samples, sampling at
    /// `rate_centi_hz` (clamped) from the time `now_ns` on, at display scale 1.
    pub fn new(max_points: usize, rate_centi_hz: u32, now_ns: u64) -> (r: GraphData)
        requires
            max_points >= 1,
        ensures
            r.wf(),
            r@.samples == Seq::<i64>::empty(),
            r@.capacity == max_points,
            r@.rate_centi_hz == clamp_spec(
                rate_centi_hz as nat,
                MIN_RATE_CENTI_HZ as nat,
                MAX_RATE_CENTI_HZ as nat,
            ),
            r@.interval_ns == interval_of(r@.rate_centi_hz),
            !r@.paused,
            r@.y_scale_centi == MIN_Y_SCALE_CENTI,
            r@.last_sample_ns == now_ns,
    {
        let rate = clamp_rate(rate_centi_hz);
        proof {
            lemma_interval_in_range(rate as nat);
        }
        GraphData {
            buffer: RollingBuffer::new(max_points),
            rate_centi_hz: rate,
            interval_ns: interval_for_rate(rate),
            paused: false,
            y_scale_centi: MIN_Y_SCALE_CENTI,
            last_sample_ns: now_ns,
        }
    }

    /// Pushes `new_value` unless the graph is paused; the sample time is not touched.
    pub fn update(&mut self, new_value: i64)
        requires
            old(self).wf(),
        ensures
            final(self).wf(),
            final(self)@ == (if old(self)@.paused {
                old(self)@
            } else {
                GraphView {
                    samples: push_spec(old(self)@.samples, new_value, old(self)@.capacity),
                    ..old(self)@
                }
            }),
    {
        if !self.paused {
            self.buffer.push(new_value);
        }
    }

    /// Whether a sampler tick at `now_ns` should probe its source.
    pub fn is_due(&self, now_ns: u64) -> (r: bool)
        ensures
            r == due_spec(self@, now_ns as nat),
    {
        let elapsed: u64 = if now_ns >= self.last_sample_ns {
            now_ns - self.last_sample_ns
        } else {
            0
        };
        !self.paused && elapsed >= self.interval_ns
    }

    /// One sampler tick at `now_ns` with the probe's answer `reading`: a due
    /// tick with a reading pushes it and moves the sample time to `now_ns`;
    /// any other tick changes nothing.
    pub fn record(&mut self, now_ns: u64, reading: Result<i64, ProbeError>) -> (r: TickOutcome)
        requires
            old(self).wf(),
        ensures
            final(self).wf(),
            final(self)@ == tick_spec(old(self)@, now_ns as nat, reading),
            r == (if old(self)@.paused {
                TickOutcome::Paused
            } else if !due_spec(old(self)@, now_ns as nat) {
                TickOutcome::NotDue
            } else {
                match reading {
                    Ok(_) => TickOutcome::Recorded,
                    Err(e) => TickOutcome::Failed(e),
                }
            }),
    {
        if self.paused {
            return TickOutcome::Paused;
        }
        if !self.is_due(now_ns) {
            return TickOutcome::NotDue;
        }
        match reading {
            Ok(v) => {
                self.buffer.push(v);
                self.last_sample_ns = now_ns;
                TickOutcome::Recorded
            },
            Err(e) => TickOutcome::Failed(e),
        }
    }

    /// A copy of the samples, oldest first.
    pub fn snapshot(&self) -> (r: Vec<i64>)
        ensures
            r@ == self@.samples,
    {
        self.buffer.snapshot()
    }

    /// The most recent sample, if any.
    pub fn latest(&self) -> (r: Option<i64>)
        ensures
            self@.samples.len() == 0 ==> r is None,
            self@.samples.len() > 0 ==> r == Some(self@.samples.last()),
    {
        self.buffer.latest()
    }

    pub fn len(&self) -> (r: usize)
        ensures
            r == self@.samples.len(),
    {
        self.buffer.len()
    }

    pub fn max_points(&self) -> (r: usize)
        ensures
            r == self@.capacity,
    {
        self.buffer.capacity()
    }

    pub fn is_paused(&self) -> (r: bool)
        ensures
            r == self@.paused,
    {
        self.paused
    }

    pub fn sampling_rate(&self) -> (r: u32)
        ensures
            r == self@.rate_centi_hz,
    {
        self.rate_centi_hz
    }

    pub fn sampling_interval(&self) -> (r: u64)
        ensures
            r == self@.interval_ns,
    {
        self.interval_ns
    }

    pub fn y_scale(&self) -> (r: u32)
        ensures
            r == self@.y_scale_centi,
    {
        self.y_scale_centi
    }

    pub fn last_sample_time(&self) -> (r: u64)
        ensures
            r == self@.last_sample_ns,
    {
        self.last_sample_ns
    }

    /// Pauses or resumes sampling.
    pub fn set_paused(&mut self, paused: bool)
        requires
            old(self).wf(),
        ensures
            final(self).wf(),
            final(self)@ == (GraphView { paused, ..old(self)@ }),
    {
        self.paused = paused;
    }

    /// Sets the target sampling rate, clamped to its range; the interval
    /// follows when the cadence controller next runs.
    pub fn set_sampling_rate(&mut self, rate_centi_hz: u32)
        requires
            old(self).wf(),
        ensures
            final(self).wf(),
            final(self)@ == set_rate_spec(old(self)@, rate_centi_hz as nat),
    {
        self.rate_centi_hz = clamp_rate(rate_centi_hz);
    }

    /// Sets the display scale, clamped to its range.
    pub fn set_y_scale(&mut self, y_scale_centi: u32)
        requires
            old(self).wf(),
        ensures
            final(self).wf(),
            final(self)@ == (GraphView {
                y_scale_centi: clamp_spec(
                    y_scale_centi as nat,
                    MIN_Y_SCALE_CENTI as nat,
                    MAX_Y_SCALE_CENTI as nat,
                ),
                ..old(self)@
            }),
    {
        self.y_scale_centi = clamp_y_scale(y_scale_centi);
    }

    /// The vertical range of this graph's chart at its display scale (see `chart_bounds`).
    pub fn display_range(&self) -> (r: Option<(i128, i128)>)
        ensures
            self@.samples.len() == 0 <==> r is None,
            self@.samples.len() > 0 ==> exists|lo: i64, hi: i64|
                #![trigger is_min_of(lo, self@.samples), is_max_of(hi, self@.samples)]
                is_min_of(lo, self@.samples) && is_max_of(hi, self@.samples) && r is Some
                    && r->Some_0.0 == lo * 100 && r->Some_0.1 == hi * self@.y_scale_centi,
    {
        let samples = self.buffer.snapshot();
        chart_bounds(&samples, self.y_scale_centi)
    }

    /// Recomputes the sampling interval from the current rate.
    pub fn adjust_interval(&mut self)
        requires
            old(self).wf(),
        ensures
            final(self).wf(),
            final(self)@ == adjust_spec(old(self)@),
    {
        proof {
            lemma_interval_in_range(self.rate_centi_hz as nat);
        }
        self.interval_ns = interval_for_rate(self.rate_centi_hz);
    }
}

/// The vertical range of a chart of `samples` (in hundredths) at display
/// scale `y_scale_centi` (in hundredths), in ten-thousandths: from the least
/// sample to the greatest sample times the scale. An empty chart has no range.
pub fn chart_bounds(samples: &Vec<i64>, y_scale_centi: u32) -> (r: Option<(i128, i128)>)
    ensures
        samples@.len() == 0 <==> r is None,
        samples@.len() > 0 ==> exists|lo: i64, hi: i64|
            #![trigger is_min_of(lo, samples@), is_max_of(hi, samples@)]
            is_min_of(lo, samples@) && is_max_of(hi, samples@) && r is Some
                && r->Some_0.0 == lo * 100 && r->Some_0.1 == hi * y_scale_centi,
{
    if samples.len() == 0 {
        return None;
    }
    let (lo, hi) = min_max_of(samples);
    let low: i128 = lo as i128 * 100;
    assert(-0x8000_0000_0000_0000 * 0x1_0000_0000 <= hi as int * y_scale_centi as int
        && hi as int * y_scale_centi as int <= 0x7fff_ffff_ffff_ffff * 0x1_0000_0000) by (nonlinear_arith)
        requires
            -0x8000_0000_0000_0000 <= hi as int,
            hi as int <= 0x7fff_ffff_ffff_ffff,
            0 <= y_scale_centi as int,
            y_scale_centi as int <= 0x1_0000_0000;
    let high: i128 = hi as i128 * y_scale_centi as i128;
    Some((low, high))
}

/// While a graph is paused, any run of sampler ticks, whatever their times
/// and probe answers, leaves its samples and its last sample time unchanged.
pub proof fn lemma_paused_ticks_change_nothing(
    g: GraphView,
    events: Seq<(nat, Result<i64, ProbeError>)>,
)
    requires
        g.paused,
    ensures
        ticks_spec(g, events) == g,
    decreases events.len(),
{
    if events.len() > 0 {
        lemma_paused_ticks_change_nothing(g, events.drop_last());
    }
}

/// After the rate is changed to `rate` and the cadence controller has run,
/// the next tick is gated by the interval of the new (clamped) rate, whatever
/// the rate was before: a tick at `now` is due exactly when the graph is not
/// paused and that new interval has passed since the last sample.
pub proof fn lemma_rate_change_takes_effect(g: GraphView, rate: nat, now: nat)
    ensures
        ({
            let h = adjust_spec(set_rate_spec(g, rate));
            let r = clamp_spec(rate, MIN_RATE_CENTI_HZ as nat, MAX_RATE_CENTI_HZ as nat);
            &&& h.interval_ns == interval_of(r)
            &&& due_spec(h, now) == (!g.paused && elapsed_spec(g.last_sample_ns, now)
                >= interval_of(r))
        }),
{
}

} // verus!
