//! Request outcomes, latency statistics and the run report.
use vstd::prelude::*;
use vstd::multiset::Multiset;
use hdrhistogram::Histogram;
use tokio::time::Instant;

verus! {

/// A latency histogram of `u64` samples; `inner` is there for quantile queries.
#[verifier::external_body]
pub struct LatencyHistogram {
    pub inner: Histogram<u64>,
}

#[verifier::external_type_specification]
#[verifier::external_body]
pub struct ExInstant(Instant);

/// Relies on `tokio::time::Instant::now`: the current instant; nothing is known of it.
pub assume_specification[ Instant::now ]() -> Instant;

/// The values that have been recorded into a histogram.
pub uninterp spec fn recorded(h: LatencyHistogram) -> Multiset<u64>;

/// Whether a histogram grows its range to fit larger samples.
pub uninterp spec fn auto_resizing(h: LatencyHistogram) -> bool;

/// Relies on `Histogram::new`: an auto-resizing histogram with no samples,
/// refused only for more than five significant figures.
#[verifier::external_body]
fn new_histogram(sigfig: u8) -> (r: Option<LatencyHistogram>)
    ensures
        r is Some <==> sigfig <= 5,
        r matches Some(h) ==> recorded(h) =~= Multiset::empty() && auto_resizing(h),
{
    Histogram::<u64>::new(sigfig).ok().map(|inner| LatencyHistogram { inner })
}

/// Relies on `Histogram::record`: on success the value is added to the
/// samples; on failure the histogram is left as it was. An auto-resizing
/// histogram takes every value: it grows up to its last bucket, which covers
/// all of `u64`.
#[verifier::external_body]
fn record_value(h: &mut LatencyHistogram, v: u64) -> (r: bool)
    ensures
        r ==> recorded(*final(h)) == recorded(*old(h)).insert(v),
        !r ==> recorded(*final(h)) == recorded(*old(h)),
        auto_resizing(*final(h)) == auto_resizing(*old(h)),
        auto_resizing(*old(h)) ==> r,
{
    h.inner.record(v).is_ok()
}

/// Relies on `Histogram::len`: the number of samples, saturating at `u64::MAX`.
#[verifier::external_body]
fn recorded_count(h: &LatencyHistogram) -> (r: u64)
    ensures
        r == if recorded(*h).len() <= u64::MAX {
            recorded(*h).len()
        } else {
            u64::MAX as nat
        },
{
    h.inner.len()
}

/// The outcome of one request.
#[derive(Debug, Clone, PartialEq, Eq)]
pub struct BenchmarkResult {
    /// The response's status line, or why no response came.
    pub status: String,
    /// Milliseconds from submission to the response or the failure.
    pub duration: u64,
    /// The request's index within its client.
    pub execution: usize,
    /// The client that issued the request.
    pub num_client: usize,
}

/// The latencies of a sequence of outcomes, in order.
pub open spec fn durations(s: Seq<BenchmarkResult>) -> Seq<u64> {
    s.map_values(|r: BenchmarkResult| r.duration)
}

/// The sum of the values.
pub open spec fn total(s: Seq<u64>) -> int
    decreases s.len(),
{
    if s.len() == 0 {
        0
    } else {
        total(s.drop_last()) + s.last()
    }
}

/// The mean, rounded down; zero for no values.
pub open spec fn mean(s: Seq<u64>) -> int {
    if s.len() == 0 {
        0
    } else {
        total(s) / (s.len() as int)
    }
}

/// The largest value; zero for no values.
pub open spec fn max_of(s: Seq<u64>) -> u64
    decreases s.len(),
{
    if s.len() == 0 {
        0
    } else {
        let m = max_of(s.drop_last());
        if s.last() > m {
            s.last()
        } else {
            m
        }
    }
}

/// The smallest value; zero for no values.
pub open spec fn min_of(s: Seq<u64>) -> u64
    decreases s.len(),
{
    if s.len() == 0 {
        0
    } else if s.len() == 1 {
        s[0]
    } else {
        let m = min_of(s.drop_last());
        if s.last() < m {
            s.last()
        } else {
            m
        }
    }
}

/// The values of a sequence, counted with their repetitions.
pub open spec fn multiset_of(s: Seq<u64>) -> Multiset<u64>
    decreases s.len(),
{
    if s.len() == 0 {
        Multiset::empty()
    } else {
        multiset_of(s.drop_last()).insert(s.last())
    }
}

proof fn lemma_multiset_of_len(s: Seq<u64>)
    ensures
        multiset_of(s).len() == s.len(),
    decreases s.len(),
{
    if s.len() > 0 {
        lemma_multiset_of_len(s.drop_last());
    }
}

/// Latency statistics over a collection of outcomes.
pub trait Metrics {
    /// The latencies of the outcomes, in order.
    spec fn latencies(&self) -> Seq<u64>;

    /// The mean latency, rounded down; zero when there are no outcomes.
    fn ino_avg(&self) -> (r: u64)
        ensures
            r == mean(self.latencies()),
    ;

    /// The largest latency; zero when there are no outcomes.
    fn ino_max(&self) -> (r: u64)
        ensures
            r == max_of(self.latencies()),
    ;

    /// The smallest latency; zero when there are no outcomes.
    fn ino_min(&self) -> (r: u64)
        ensures
            r == min_of(self.latencies()),
    ;
}

proof fn lemma_total_bound(s: Seq<u64>)
    ensures
        0 <= total(s) <= s.len() * (u64::MAX as int),
    decreases s.len(),
{
    if s.len() > 0 {
        lemma_total_bound(s.drop_last());
    }
}

impl Metrics for Vec<BenchmarkResult> {
    open spec fn latencies(&self) -> Seq<u64> {
        durations(self@)
    }

    fn ino_avg(&self) -> (r: u64) {
        let n = self.len();
        if n == 0 {
            return 0;
        }
        let mut sum: u128 = 0;
        let mut i: usize = 0;
        while i < n
            invariant
                n == self@.len(),
                i <= n,
                sum == total(durations(self@).subrange(0, i as int)),
            decreases n - i,
        {
            proof {
                assert(durations(self@).subrange(0, i + 1).drop_last() =~= durations(
                    self@,
                ).subrange(0, i as int));
                lemma_total_bound(durations(self@).subrange(0, i as int));
                assert(i * (u64::MAX as int) + u64::MAX <= (usize::MAX as int) * (u64::MAX as int))
                    by (nonlinear_arith)
                    requires
                        i < usize::MAX,
                ;
                assert((usize::MAX as int) * (u64::MAX as int) < u128::MAX) by (nonlinear_arith)
                    requires
                        usize::MAX <= u64::MAX,
                ;
            }
            sum = sum + self[i].duration as u128;
            i = i + 1;
        }
        assert(durations(self@).subrange(0, n as int) =~= durations(self@));
        proof {
            lemma_total_bound(durations(self@));
            let t = total(durations(self@));
            assert(t / (n as int) <= u64::MAX) by (nonlinear_arith)
                requires
                    0 <= t <= n * (u64::MAX as int),
                    n > 0,
            ;
        }
        (sum / (n as u128)) as u64
    }

    fn ino_max(&self) -> (r: u64) {
        let mut m: u64 = 0;
        let mut i: usize = 0;
        while i < self.len()
            invariant
                i <= self@.len(),
                m == max_of(durations(self@).subrange(0, i as int)),
            decreases self@.len() - i,
        {
            assert(durations(self@).subrange(0, i + 1).drop_last() =~= durations(self@).subrange(
                0,
                i as int,
            ));
            if self[i].duration > m {
                m = self[i].duration;
            }
            i = i + 1;
        }
        assert(durations(self@).subrange(0, i as int) =~= durations(self@));
        m
    }

    fn ino_min(&self) -> (r: u64) {
        if self.len() == 0 {
            return 0;
        }
        let mut m: u64 = self[0].duration;
        let mut i: usize = 1;
        assert(durations(self@).subrange(0, 1).len() == 1);
        while i < self.len()
            invariant
                1 <= i <= self@.len(),
                m == min_of(durations(self@).subrange(0, i as int)),
            decreases self@.len() - i,
        {
            assert(durations(self@).subrange(0, i + 1).drop_last() =~= durations(self@).subrange(
                0,
                i as int,
            ));
            if self[i].duration < m {
                m = self[i].duration;
            }
            i = i + 1;
        }
        assert(durations(self@).subrange(0, i as int) =~= durations(self@));
        m
    }
}

/// Significant figures the latency histogram keeps.
pub const HISTOGRAM_SIGFIG: u8 = 5;

/// The statistics a finished run reports.
#[derive(Debug, Clone, Copy, PartialEq, Eq)]
pub struct Summary {
    pub clients: usize,
    pub total: usize,
    pub mean: u64,
    pub min: u64,
    pub max: u64,
}

/// Everything received during a run.
pub struct Report {
    clients: usize,
    results: Vec<BenchmarkResult>,
    hist: LatencyHistogram,
    start: Instant,
}

impl Report {
    /// The concurrency level the report was made for.
    pub closed spec fn spec_clients(&self) -> usize {
        self.clients
    }

    /// The outcomes received, in arrival order.
    pub closed spec fn spec_results(&self) -> Seq<BenchmarkResult> {
        self.results@
    }

    /// The latencies recorded into the histogram.
    pub closed spec fn spec_recorded(&self) -> Multiset<u64> {
        recorded(self.hist)
    }

    /// Whether the histogram grows to fit larger latencies.
    pub closed spec fn spec_resizing(&self) -> bool {
        auto_resizing(self.hist)
    }

    /// The histogram grows to fit any latency and holds exactly the
    /// latencies of the outcomes.
    pub open spec fn wf(&self) -> bool {
        &&& self.spec_resizing()
        &&& self.spec_recorded() == multiset_of(durations(self.spec_results()))
    }

    /// An empty report for a run with `clients` clients, started now.
    pub fn new(clients: usize) -> (r: Report)
        ensures
            r.spec_clients() == clients,
            r.spec_results().len() == 0,
            r.spec_recorded() =~= Multiset::empty(),
            r.spec_resizing(),
            r.wf(),
    {
        let hist = new_histogram(HISTOGRAM_SIGFIG).unwrap();
        let r = Report { clients, results: Vec::new(), hist, start: Instant::now() };
        assert(durations(r.results@) =~= Seq::<u64>::empty());
        r
    }

    /// Appends one outcome and records its latency.
    pub fn ino_add_result(&mut self, result: BenchmarkResult)
        ensures
            final(self).spec_results() == old(self).spec_results().push(result),
            final(self).spec_clients() == old(self).spec_clients(),
            final(self).spec_resizing() == old(self).spec_resizing(),
            final(self).spec_recorded() == old(self).spec_recorded().insert(result.duration)
                || final(self).spec_recorded() == old(self).spec_recorded(),
            old(self).spec_resizing() ==> final(self).spec_recorded() == old(
                self,
            ).spec_recorded().insert(result.duration),
            old(self).wf() ==> final(self).wf(),
    {
        let duration = result.duration;
        self.results.push(result);
        record_value(&mut self.hist, duration);
        assert(durations(self.results@).drop_last() =~= durations(old(self).results@));
    }

    /// The outcomes received, in arrival order.
    pub fn results(&self) -> (r: &Vec<BenchmarkResult>)
        ensures
            r@ == self.spec_results(),
    {
        &self.results
    }

    /// The figures a finished run reports: concurrency level, outcome count,
    /// and mean, smallest and largest latency over the outcomes.
    pub fn ino_summary(&self) -> (r: Summary)
        ensures
            r.clients == self.spec_clients(),
            r.total == self.spec_results().len(),
            r.mean == mean(durations(self.spec_results())),
            r.min == min_of(durations(self.spec_results())),
            r.max == max_of(durations(self.spec_results())),
    {
        Summary {
            clients: self.clients,
            total: self.results.len(),
            mean: self.results.ino_avg(),
            min: self.results.ino_min(),
            max: self.results.ino_max(),
        }
    }

    /// The concurrency level of the run.
    pub fn clients(&self) -> (r: usize)
        ensures
            r == self.spec_clients(),
    {
        self.clients
    }

    /// The number of latencies in the histogram: the number of outcomes,
    /// saturating at `u64::MAX`.
    pub fn total_requests(&self) -> (r: u64)
        ensures
            r == if self.spec_recorded().len() <= u64::MAX {
                self.spec_recorded().len()
            } else {
                u64::MAX as nat
            },
            self.wf() ==> r == if self.spec_results().len() <= u64::MAX {
                self.spec_results().len()
            } else {
                u64::MAX as nat
            },
    {
        proof {
            lemma_multiset_of_len(durations(self.results@));
        }
        recorded_count(&self.hist)
    }

    /// The latency histogram, for quantile queries.
    pub fn histogram(&self) -> &LatencyHistogram {
        &self.hist
    }

    /// When the report was created.
    pub fn start(&self) -> Instant {
        self.start
    }
}

} // verus!
