//! The decisions of one virtual client: which request to issue next, when to
//! stop, and what outcome a finished request yields. The caller performs the
//! requests and reports back what happened.
use vstd::prelude::*;
use vstd::string::*;
use crate::benchmark::BenchmarkResult;
use crate::support::Settings;

verus! {

/// How a worker decides when its loop ends.
#[derive(PartialEq, Eq, Structural, Debug, Clone, Copy)]
pub enum Mode {
    /// A fixed number of requests.
    Counted { iterations: usize },
    /// Requests until this many seconds have passed since the worker started.
    Timed { seconds: u64 },
}

/// The state of one worker's request loop.
#[derive(PartialEq, Eq, Structural, Debug, Clone, Copy)]
pub struct Worker {
    pub num_client: usize,
    pub mode: Mode,
    /// The index the next request gets.
    pub execution: usize,
    /// Set once the loop has ended; it never clears.
    pub stopped: bool,
}

/// The mode a configuration selects: timed when a duration is set, else
/// counted, with the total split evenly over the clients (the remainder is
/// never issued).
pub open spec fn mode_of(s: Settings) -> Mode {
    match s.duration {
        None => Mode::Counted { iterations: (s.requests / s.clients) as usize },
        Some(d) => Mode::Timed { seconds: d },
    }
}

/// The worker a client starts with.
pub open spec fn started(num_client: usize, s: Settings) -> Worker {
    Worker { num_client, mode: mode_of(s), execution: 0, stopped: false }
}

/// Whether the check at the head of the loop lets another request go.
pub open spec fn may_issue(w: Worker, elapsed_secs: u64) -> bool {
    !w.stopped && match w.mode {
        Mode::Counted { iterations } => w.execution < iterations,
        Mode::Timed { seconds } => elapsed_secs < seconds && w.execution < usize::MAX,
    }
}

/// The head of the loop: the index of the request to issue, or the end of the loop.
pub open spec fn head(w: Worker, elapsed_secs: u64) -> (Worker, Option<usize>) {
    if may_issue(w, elapsed_secs) {
        (w, Some(w.execution))
    } else {
        (Worker { stopped: true, ..w }, None)
    }
}

/// The end of a cycle: the index moves on, and the loop ends if the
/// cancellation won the race against delivering the outcome.
pub open spec fn after(w: Worker, cancelled: bool) -> Worker {
    Worker { execution: (w.execution + 1) as usize, stopped: w.stopped || cancelled, ..w }
}

/// How many requests a worker issues along a run, where each event is the
/// elapsed time seen at the loop head and whether cancellation won the race
/// that follows the request.
pub open spec fn issued_along(w: Worker, events: Seq<(u64, bool)>) -> nat
    decreases events.len(),
{
    if events.len() == 0 {
        0
    } else {
        let (w2, o) = head(w, events[0].0);
        match o {
            None => issued_along(w2, events.drop_first()),
            Some(_) => 1 + issued_along(after(w2, events[0].1), events.drop_first()),
        }
    }
}

/// The indices of the requests a worker issues along a run, in order.
pub open spec fn issued_indices(w: Worker, events: Seq<(u64, bool)>) -> Seq<usize>
    decreases events.len(),
{
    if events.len() == 0 {
        Seq::empty()
    } else {
        let (w2, o) = head(w, events[0].0);
        match o {
            None => issued_indices(w2, events.drop_first()),
            Some(i) => seq![i] + issued_indices(after(w2, events[0].1), events.drop_first()),
        }
    }
}

/// The indices of the requests whose outcome is delivered along a run: those
/// whose delivery was not overtaken by the cancellation.
pub open spec fn delivered_indices(w: Worker, events: Seq<(u64, bool)>) -> Seq<usize>
    decreases events.len(),
{
    if events.len() == 0 {
        Seq::empty()
    } else {
        let (w2, o) = head(w, events[0].0);
        let rest = delivered_indices(after(w2, events[0].1), events.drop_first());
        match o {
            None => delivered_indices(w2, events.drop_first()),
            Some(i) => if events[0].1 {
                rest
            } else {
                seq![i] + rest
            },
        }
    }
}

/// How many requests a worker issues in `fuel` cycles when nothing is cancelled
/// and no time passes.
pub open spec fn issued_uncancelled(w: Worker, fuel: nat) -> nat
    decreases fuel,
{
    if fuel == 0 {
        0
    } else {
        let (w2, o) = head(w, 0);
        match o {
            None => 0,
            Some(_) => 1 + issued_uncancelled(after(w2, false), (fuel - 1) as nat),
        }
    }
}

/// The requests issued by the first `n` clients of a run, uncancelled.
pub open spec fn issued_by_clients(s: Settings, n: nat, fuel: nat) -> nat
    decreases n,
{
    if n == 0 {
        0
    } else {
        issued_by_clients(s, (n - 1) as nat, fuel) + issued_uncancelled(
            started((n - 1) as usize, s),
            fuel,
        )
    }
}

impl Worker {
    /// The worker for client `num_client`, in the mode the configuration selects.
    pub fn ino_exec_iterator(num_client: usize, settings: &Settings) -> (r: Worker)
        requires
            settings.duration is None ==> settings.clients > 0,
        ensures
            r == started(num_client, *settings),
    {
        let mode = match settings.duration {
            None => Mode::Counted { iterations: settings.ino_requests_by_client() },
            Some(d) => Mode::Timed { seconds: d },
        };
        Worker { num_client, mode, execution: 0, stopped: false }
    }

    /// The check at the head of the loop, given the whole seconds elapsed
    /// since the worker started: the index of the request to issue now, or
    /// `None` once the loop has ended.
    pub fn next_request(&mut self, elapsed_secs: u64) -> (r: Option<usize>)
        ensures
            (*final(self), r) == head(*old(self), elapsed_secs),
            r matches Some(i) ==> i < usize::MAX,
    {
        let go = !self.stopped && match self.mode {
            Mode::Counted { iterations } => self.execution < iterations,
            Mode::Timed { seconds } => elapsed_secs < seconds && self.execution < usize::MAX,
        };
        if go {
            Some(self.execution)
        } else {
            self.stopped = true;
            None
        }
    }

    /// Closes a cycle once the request's outcome was delivered, or the
    /// cancellation was observed first (`cancelled`).
    pub fn finish_request(&mut self, cancelled: bool)
        requires
            old(self).execution < usize::MAX,
        ensures
            *final(self) == after(*old(self), cancelled),
    {
        self.execution = self.execution + 1;
        self.stopped = self.stopped || cancelled;
    }
}

/// What a request attempt came back with.
#[derive(Debug, Clone, PartialEq, Eq)]
pub enum Reply {
    /// A response, with its status line.
    Response(String),
    /// No response; the status code text the failure carries, if any.
    Failure(Option<String>),
}

/// The status recorded for a failure that carries no status.
pub open spec fn connection_failed() -> Seq<char> {
    "connection failed"@
}

/// The status an outcome records for a reply.
pub open spec fn status_of(reply: Reply) -> Seq<char> {
    match reply {
        Reply::Response(s) => s@,
        Reply::Failure(Some(s)) => s@,
        Reply::Failure(None) => connection_failed(),
    }
}

/// The outcome of request `execution` of client `num_client`, which took
/// `duration_ms` milliseconds.
pub fn ino_exec(num_client: usize, execution: usize, duration_ms: u64, reply: Reply) -> (r:
    BenchmarkResult)
    ensures
        r.status@ == status_of(reply),
        r.duration == duration_ms,
        r.execution == execution,
        r.num_client == num_client,
{
    let status = match reply {
        Reply::Response(s) => s,
        Reply::Failure(Some(s)) => s,
        Reply::Failure(None) => String::from_str("connection failed"),
    };
    BenchmarkResult { status, duration: duration_ms, execution, num_client }
}

proof fn lemma_stopped_issues_nothing(w: Worker, events: Seq<(u64, bool)>)
    requires
        w.stopped,
    ensures
        issued_along(w, events) == 0,
    decreases events.len(),
{
    if events.len() > 0 {
        lemma_stopped_issues_nothing(w, events.drop_first());
    }
}

proof fn lemma_stopped_indices(w: Worker, events: Seq<(u64, bool)>)
    requires
        w.stopped,
    ensures
        issued_indices(w, events).len() == 0,
        delivered_indices(w, events).len() == 0,
    decreases events.len(),
{
    if events.len() > 0 {
        lemma_stopped_indices(w, events.drop_first());
    }
}

proof fn lemma_counted_worker(w: Worker, fuel: nat)
    requires
        !w.stopped,
        w.mode matches Mode::Counted { iterations } && w.execution <= iterations && fuel
            > iterations - w.execution,
    ensures
        w.mode matches Mode::Counted { iterations } && issued_uncancelled(w, fuel) == iterations
            - w.execution,
    decreases fuel,
{
    if let Mode::Counted { iterations } = w.mode {
        if w.execution < iterations {
            lemma_counted_worker(after(w, false), (fuel - 1) as nat);
        }
    }
}

proof fn lemma_clients_sum(s: Settings, n: nat, fuel: nat, k: nat)
    requires
        forall|id: usize| #[trigger] issued_uncancelled(started(id, s), fuel) == k,
    ensures
        issued_by_clients(s, n, fuel) == n * k,
    decreases n,
{
    if n > 0 {
        let m = (n - 1) as nat;
        lemma_clients_sum(s, m, fuel, k);
        assert(issued_by_clients(s, n, fuel) == issued_by_clients(s, m, fuel) + issued_uncancelled(
            started(m as usize, s),
            fuel,
        ));
        assert(m * k + k == n * k) by (nonlinear_arith)
            requires
                n == m + 1,
        ;
        assert(issued_uncancelled(started(m as usize, s), fuel) == k);
    } else {
        assert(n * k == 0) by (nonlinear_arith)
            requires
                n == 0,
        ;
    }
}

/// Counted mode: with no cancellation, each of the `clients` workers issues
/// exactly `requests / clients` requests, so the run yields
/// `clients * (requests / clients)` outcomes and the remainder
/// `requests % clients` is never issued.
pub proof fn lemma_counted_run_total(s: Settings, fuel: nat)
    requires
        s.duration is None,
        s.clients > 0,
        fuel > s.requests / s.clients,
    ensures
        forall|id: usize| #[trigger]
            issued_uncancelled(started(id, s), fuel) == s.requests / s.clients,
        issued_by_clients(s, s.clients as nat, fuel) == s.clients * (s.requests / s.clients),
        s.requests - issued_by_clients(s, s.clients as nat, fuel) == s.requests % s.clients,
{
    let k = s.requests / s.clients;
    assert forall|id: usize| #[trigger] issued_uncancelled(started(id, s), fuel) == k by {
        lemma_counted_worker(started(id, s), fuel);
    }
    lemma_clients_sum(s, s.clients as nat, fuel, k as nat);
    assert(s.requests == s.clients * k + s.requests % s.clients) by (nonlinear_arith)
        requires
            k == s.requests / s.clients,
            s.clients > 0,
    ;
}

/// Cancellation: once a worker has observed the cancellation, it issues no
/// further request, whatever time readings and race results follow.
pub proof fn lemma_cancellation_is_final(w: Worker, events: Seq<(u64, bool)>)
    ensures
        after(w, true).stopped,
        issued_along(after(w, true), events) == 0,
{
    lemma_stopped_issues_nothing(after(w, true), events);
}

/// Delivery under cancellation: along any run, the requests are issued with
/// consecutive indices from the worker's next index, each once; the outcomes
/// delivered are those of the issued requests in the same order, each at most
/// once, and only the last issued one (whose delivery lost the race against
/// the cancellation) may be missing.
pub proof fn lemma_delivery_at_most_once(w: Worker, events: Seq<(u64, bool)>)
    ensures
        forall|j: int|
            0 <= j < issued_indices(w, events).len() ==> #[trigger] issued_indices(w, events)[j]
                == w.execution + j,
        delivered_indices(w, events) == issued_indices(w, events).subrange(
            0,
            delivered_indices(w, events).len() as int,
        ),
        delivered_indices(w, events).len() <= issued_indices(w, events).len()
            <= delivered_indices(w, events).len() + 1,
    decreases events.len(),
{
    if events.len() > 0 {
        let (w2, o) = head(w, events[0].0);
        let rest = events.drop_first();
        match o {
            None => {
                lemma_stopped_indices(w2, rest);
            },
            Some(i) => {
                let w3 = after(w2, events[0].1);
                lemma_delivery_at_most_once(w3, rest);
                let is = issued_indices(w3, rest);
                assert(w3.execution == w.execution + 1);
                assert forall|j: int|
                    0 <= j < issued_indices(w, events).len() implies #[trigger] issued_indices(
                    w,
                    events,
                )[j] == w.execution + j by {
                    if j > 0 {
                        assert(issued_indices(w, events)[j] == is[j - 1]);
                    }
                }
                if events[0].1 {
                    lemma_stopped_indices(w3, rest);
                    assert(delivered_indices(w, events).len() == 0);
                    assert(issued_indices(w, events) =~= seq![i]);
                } else {
                    let ds = delivered_indices(w3, rest);
                    assert(delivered_indices(w, events) =~= issued_indices(w, events).subrange(
                        0,
                        ds.len() as int + 1,
                    ));
                }
            },
        }
    }
}

/// Timed mode with a zero duration: the first check at the loop head ends
/// the loop, so no request is ever issued.
pub proof fn lemma_zero_duration_issues_nothing(w: Worker, events: Seq<(u64, bool)>)
    requires
        w.mode == (Mode::Timed { seconds: 0 }),
    ensures
        issued_along(w, events) == 0,
{
    if events.len() > 0 {
        let w2 = head(w, events[0].0).0;
        assert(head(w, events[0].0).1 is None);
        lemma_stopped_issues_nothing(w2, events.drop_first());
    }
}

} // verus!
