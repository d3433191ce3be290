//! The engine that saturates a link and counts the bytes that move.
//!
//! Throughput is measured over a fixed window rather than by timing a
//! fixed-size file: on a fast link a small file finishes inside TCP slow
//! start and reads low, while on a slow link a large one takes minutes. A
//! time box bounds the run regardless of the link it is pointed at.
//!
//! The waiting, the requests and the byte counting happen outside; this
//! module holds every decision a phase makes: what to request, when to open
//! another connection, when a reading is settled, when to stop, when to give
//! up on a failing connection and what the phase finally reports.

use vstd::prelude::*;

use crate::endpoint::Endpoint;
use crate::error::Error;
use crate::numerals::{lemma_product_fits, mul_wide, wide_le};
use crate::units::{Bitrate, Bytes, Direction, Download, Duration, Throughput, Upload};

verus! {

/// How often a running phase is sampled, in milliseconds.
pub const SAMPLE_INTERVAL_MILLIS: u64 = 200;

/// How many failed requests in a row end a connection's part in a phase.
pub const MAX_CONSECUTIVE_FAILURES: usize = 3;

/// How many trailing readings must agree before a phase may stop early.
pub const STABILITY_WINDOW: usize = 8;

/// How far the trailing readings may spread, in percent of the lowest.
pub const STABILITY_TOLERANCE: u64 = 5;

/// How much of the measured window a reading must cover to be shown, in seconds.
pub const SETTLING_SPAN_SECS: u64 = 1;

/// How many bytes one piece of an upload body holds.
pub const UPLOAD_PIECE_BYTES: u64 = 65536;

/// The parameters of a plan: `(warmup, min_duration, max_duration,
/// connections, chunk)`, the spans in nanoseconds.
pub struct PlanView {
    pub warmup: nat,
    pub min_duration: nat,
    pub max_duration: nat,
    pub connections: nat,
    pub chunk: nat,
}

/// A plan warms up inside its own time bounds, and opens all its connections
/// (one per sample) before the measured window begins.
pub open spec fn plan_is_sound(plan: PlanView) -> bool {
    &&& plan.connections >= 1
    &&& plan.warmup < plan.min_duration
    &&& plan.min_duration <= plan.max_duration
    &&& (plan.connections - 1) * (SAMPLE_INTERVAL_MILLIS * 1_000_000) < plan.warmup
}

/// How a transfer phase should be run.
///
/// Fields are private and the only way to build one is [`Plan::default`],
/// so a plan whose warmup outlasts its own time bounds cannot be constructed.
#[derive(Clone, Copy, Debug)]
pub struct Plan {
    /// How long to transfer before the measurement window opens.
    warmup: Duration,
    /// How long to transfer before an early stop is allowed.
    min_duration: Duration,
    /// How long to transfer before stopping regardless of stability.
    max_duration: Duration,
    /// How many connections to end up saturating the link with.
    connections: usize,
    /// How many bytes to move per request.
    chunk: Bytes,
}

impl View for Plan {
    type V = PlanView;

    closed spec fn view(&self) -> PlanView {
        PlanView {
            warmup: self.warmup@,
            min_duration: self.min_duration@,
            max_duration: self.max_duration@,
            connections: self.connections as nat,
            chunk: self.chunk@,
        }
    }
}

impl Plan {
    #[verifier::type_invariant]
    spec fn sound(self) -> bool {
        plan_is_sound(self@)
    }

    /// Returns how long to transfer before the measurement window opens.
    pub fn warmup(&self) -> (d: Duration)
        ensures
            d@ == self@.warmup,
            plan_is_sound(self@),
    {
        proof {
            use_type_invariant(self);
        }
        self.warmup
    }

    /// Returns how long to transfer before an early stop is allowed.
    pub fn min_duration(&self) -> (d: Duration)
        ensures
            d@ == self@.min_duration,
            plan_is_sound(self@),
    {
        proof {
            use_type_invariant(self);
        }
        self.min_duration
    }

    /// Returns how long to transfer before stopping regardless of stability.
    pub fn max_duration(&self) -> (d: Duration)
        ensures
            d@ == self@.max_duration,
            plan_is_sound(self@),
    {
        proof {
            use_type_invariant(self);
        }
        self.max_duration
    }

    /// Returns how many connections the phase ends up using.
    pub fn connections(&self) -> (n: usize)
        ensures
            n == self@.connections,
            plan_is_sound(self@),
    {
        proof {
            use_type_invariant(self);
        }
        self.connections
    }

    /// Returns how many bytes each request moves.
    pub fn chunk(&self) -> (b: Bytes)
        ensures
            b@ == self@.chunk,
            plan_is_sound(self@),
    {
        proof {
            use_type_invariant(self);
        }
        self.chunk
    }
}

impl Default for Plan {
    /// Three seconds of warmup, an early stop allowed after eight, a hard
    /// stop at twenty, eight connections and 25 MB per request.
    fn default() -> (plan: Self)
        ensures
            plan@.warmup == 3_000_000_000,
            plan@.min_duration == 8_000_000_000,
            plan@.max_duration == 20_000_000_000,
            plan@.connections == 8,
            plan@.chunk == 25_000_000,
            plan_is_sound(plan@),
    {
        Plan {
            warmup: Duration::from_secs(3),
            min_duration: Duration::from_secs(8),
            max_duration: Duration::from_secs(20),
            connections: 8,
            chunk: Bytes::new(25_000_000),
        }
    }
}


/// Whether a sample is worth showing as a reading yet.
#[derive(Clone, Copy, Debug, PartialEq, Eq, Structural)]
pub enum Stage {
    /// Connections are still opening and slow start has not finished, so the
    /// rate on offer is not yet one anybody should be shown.
    Warmup,
    /// The rate is averaged over enough of the measured window to stand.
    Measuring,
}

/// A snapshot of a transfer still in flight.
#[derive(Clone, Copy, Debug)]
pub struct Progress {
    /// Which phase produced this snapshot.
    pub direction: &'static str,
    /// Whether [`Progress::rate`] is settled enough to display.
    pub stage: Stage,
    /// Bytes moved since the phase began, including the warmup.
    pub transferred: Bytes,
    /// Time since the phase began, including the warmup.
    pub elapsed: Duration,
    /// The rate so far, measured the same way the final result is, so the
    /// live display converges on the number that is ultimately reported.
    pub rate: Bitrate,
}

/// One observation of a running phase: when, and how many bytes had moved.
#[derive(Clone, Copy, Debug)]
pub struct Sample {
    pub at: Duration,
    pub transferred: Bytes,
}

/// Cumulative byte counts sampled while a phase runs.
#[derive(Debug, Default)]
pub struct Timeline {
    samples: Vec<Sample>,
}

impl View for Timeline {
    /// `(at, transferred)` of each sample, in the order recorded.
    type V = Seq<(nat, nat)>;

    closed spec fn view(&self) -> Seq<(nat, nat)> {
        self.samples@.map_values(|s: Sample| (s.at@, s.transferred@))
    }
}

/// Where the first sample taken at or after `warmup` stands.
pub open spec fn first_at_or_after(s: Seq<(nat, nat)>, warmup: nat) -> Option<int> {
    if exists|i: int|
        0 <= i < s.len() && s[i].0 >= warmup && forall|j: int| 0 <= j < i ==> s[j].0 < warmup {
        Some(
            choose|i: int|
                0 <= i < s.len() && s[i].0 >= warmup && forall|j: int|
                    0 <= j < i ==> s[j].0 < warmup,
        )
    } else {
        None
    }
}

/// The bytes moved between the first sample at or after `warmup` and the
/// last sample, and the time between them; none when that span is empty or
/// runs backwards.
pub open spec fn span_since(s: Seq<(nat, nat)>, warmup: nat) -> Option<(nat, nat)> {
    if s.len() == 0 {
        None
    } else {
        match first_at_or_after(s, warmup) {
            None => None,
            Some(k) => {
                let first = s[k];
                let last = s.last();
                if last.0 <= first.0 || last.1 < first.1 {
                    None
                } else {
                    Some(((last.1 - first.1) as nat, (last.0 - first.0) as nat))
                }
            },
        }
    }
}

/// Everything the last sample counted and when it was taken; none before
/// the first sample or when it was taken at once.
pub open spec fn total(s: Seq<(nat, nat)>) -> Option<(nat, nat)> {
    if s.len() == 0 || s.last().0 == 0 {
        None
    } else {
        Some((s.last().1, s.last().0))
    }
}

/// The span after `warmup` if there is one, else the whole run.
pub open spec fn measured(s: Seq<(nat, nat)>, warmup: nat) -> Option<(nat, nat)> {
    match span_since(s, warmup) {
        Some(span) => Some(span),
        None => total(s),
    }
}

/// The view of an optional `(bytes, span)` pair.
pub open spec fn amount_view(a: Option<(Bytes, Duration)>) -> Option<(nat, nat)> {
    match a {
        Some((b, d)) => Some((b@, d@)),
        None => None,
    }
}

impl Timeline {
    /// A timeline with no sample yet.
    pub fn new() -> (t: Self)
        ensures
            t@ == Seq::<(nat, nat)>::empty(),
    {
        let t = Timeline { samples: Vec::new() };
        assert(t@ =~= Seq::<(nat, nat)>::empty());
        t
    }

    /// Records that `transferred` bytes had moved `at` into the phase.
    pub fn record(&mut self, at: Duration, transferred: Bytes)
        ensures
            final(self)@ == old(self)@.push((at@, transferred@)),
    {
        self.samples.push(Sample { at, transferred });
        assert(self@ =~= old(self)@.push((at@, transferred@)));
    }

    /// Returns the bytes moved after `warmup` and how long that took.
    ///
    /// Measuring a span rather than the whole run is what makes the reading
    /// honest: TCP slow start and the initial fill of the socket buffers are
    /// one-off costs at the start, so excluding them removes a bias that
    /// would otherwise shrink as the run got longer.
    pub fn measured(&self, warmup: Duration) -> (m: Option<(Bytes, Duration)>)
        ensures
            amount_view(m) == measured(self@, warmup@),
    {
        match self.span_since(warmup) {
            Some(span) => Some(span),
            None => self.total(),
        }
    }

    /// Returns the bytes moved from the first sample at or after `warmup`
    /// to the last one, and the time between them.
    pub fn span_since(&self, warmup: Duration) -> (span: Option<(Bytes, Duration)>)
        ensures
            amount_view(span) == span_since(self@, warmup@),
    {
        let ghost s = self@;
        let n = self.samples.len();
        if n == 0 {
            return None;
        }
        let mut i: usize = 0;
        while i < n && self.samples[i].at.as_nanos() < warmup.as_nanos()
            invariant
                i <= n == self.samples@.len(),
                s == self@,
                forall|j: int| 0 <= j < i ==> s[j].0 < warmup@,
            decreases n - i,
        {
            i = i + 1;
        }
        if i == n {
            proof {
                if exists|k: int|
                    0 <= k < s.len() && s[k].0 >= warmup@ && forall|j: int|
                        0 <= j < k ==> s[j].0 < warmup@ {
                    let k = choose|k: int|
                        0 <= k < s.len() && s[k].0 >= warmup@ && forall|j: int|
                            0 <= j < k ==> s[j].0 < warmup@;
                    assert(s[k].0 < warmup@);
                }
            }
            return None;
        }
        proof {
            let w = choose|k: int|
                0 <= k < s.len() && s[k].0 >= warmup@ && forall|j: int|
                    0 <= j < k ==> s[j].0 < warmup@;
            assert(0 <= i < s.len() && s[i as int].0 >= warmup@ && forall|j: int|
                0 <= j < i ==> s[j].0 < warmup@);
            if w < i {
                assert(s[w].0 < warmup@);
            } else if w > i {
                assert(s[i as int].0 < warmup@);
            }
            assert(first_at_or_after(s, warmup@) == Some(i as int));
        }
        let first = self.samples[i];
        let last = self.samples[n - 1];
        let elapsed = match last.at.checked_sub(first.at) {
            Some(elapsed) => elapsed,
            None => return None,
        };
        if elapsed.is_zero() {
            return None;
        }
        if last.transferred.get() < first.transferred.get() {
            return None;
        }
        let moved = Bytes::new(last.transferred.get() - first.transferred.get());
        Some((moved, elapsed))
    }

    /// Returns everything the last sample counted and when it was taken.
    pub fn total(&self) -> (t: Option<(Bytes, Duration)>)
        ensures
            amount_view(t) == total(self@),
    {
        let n = self.samples.len();
        if n == 0 {
            return None;
        }
        let last = self.samples[n - 1];
        if last.at.is_zero() {
            None
        } else {
            Some((last.transferred, last.at))
        }
    }
}


/// Whether rate `a` is at most rate `b`, both as `(bytes, nanos)` with
/// positive spans.
pub open spec fn rate_at_most(a: (nat, nat), b: (nat, nat)) -> bool {
    a.0 * b.1 <= b.0 * a.1
}

/// The highest rate of a non-empty list, the latest of equal ones.
pub open spec fn fastest(w: Seq<(nat, nat)>) -> (nat, nat)
    decreases w.len(),
{
    if w.len() <= 1 {
        w[0]
    } else {
        let m = fastest(w.drop_last());
        if rate_at_most(m, w.last()) {
            w.last()
        } else {
            m
        }
    }
}

/// The lowest rate of a non-empty list, the latest of equal ones.
pub open spec fn slowest(w: Seq<(nat, nat)>) -> (nat, nat)
    decreases w.len(),
{
    if w.len() <= 1 {
        w[0]
    } else {
        let m = slowest(w.drop_last());
        if rate_at_most(w.last(), m) {
            w.last()
        } else {
            m
        }
    }
}

/// The rates of a list of bitrates.
pub open spec fn rate_views(rates: Seq<Bitrate>) -> Seq<(nat, nat)> {
    rates.map_values(|r: Bitrate| r@)
}

/// Whether the spread of the rates `hi` and `lo` is within `tolerance`
/// percent of `lo`: `(hi - lo) / lo <= tolerance / 100`, with `lo` not zero.
pub open spec fn within_tolerance(hi: (nat, nat), lo: (nat, nat), tolerance: nat) -> bool {
    lo.0 > 0 && 100 * (hi.0 * lo.1 - lo.0 * hi.1) <= tolerance * (lo.0 * hi.1)
}

/// Whether the last [`STABILITY_WINDOW`] rates have settled: their spread
/// is within `tolerance` percent of the lowest of them.
pub open spec fn converged(rates: Seq<(nat, nat)>, tolerance: nat) -> bool {
    rates.len() >= STABILITY_WINDOW && {
        let w = rates.subrange(rates.len() - STABILITY_WINDOW, rates.len() as int);
        within_tolerance(fastest(w), slowest(w), tolerance)
    }
}

/// Every rate of `w` multiplied by `k`.
pub open spec fn scale_rates(w: Seq<(nat, nat)>, k: nat) -> Seq<(nat, nat)> {
    w.map_values(|r: (nat, nat)| (k * r.0, r.1))
}

/// Multiplying every rate by the same factor keeps which one is highest and
/// which one is lowest.
proof fn lemma_extremes_scale(w: Seq<(nat, nat)>, k: nat)
    requires
        k > 0,
        w.len() >= 1,
    ensures
        fastest(scale_rates(w, k)) == (k * fastest(w).0, fastest(w).1),
        slowest(scale_rates(w, k)) == (k * slowest(w).0, slowest(w).1),
    decreases w.len(),
{
    let v = scale_rates(w, k);
    if w.len() > 1 {
        lemma_extremes_scale(w.drop_last(), k);
        assert(v.drop_last() =~= scale_rates(w.drop_last(), k));
        let f = fastest(w.drop_last());
        let l = slowest(w.drop_last());
        let x = w.last();
        assert(rate_at_most((k * f.0, f.1), (k * x.0, x.1)) <==> rate_at_most(f, x)) by (
        nonlinear_arith)
            requires
                k > 0,
        ;
        assert(rate_at_most((k * x.0, x.1), (k * l.0, l.1)) <==> rate_at_most(x, l)) by (
        nonlinear_arith)
            requires
                k > 0,
        ;
    }
}

/// Convergence is judged relative to the link speed: a link `k` times as
/// fast with the same relative fluctuation settles exactly when the slower
/// one does.
pub proof fn lemma_convergence_is_relative(rates: Seq<(nat, nat)>, k: nat, tolerance: nat)
    requires
        k > 0,
    ensures
        converged(scale_rates(rates, k), tolerance) == converged(rates, tolerance),
{
    let v = scale_rates(rates, k);
    if rates.len() >= STABILITY_WINDOW {
        let n = rates.len() as int;
        let w = rates.subrange(n - STABILITY_WINDOW, n);
        assert(v.subrange(n - STABILITY_WINDOW, n) =~= scale_rates(w, k));
        lemma_extremes_scale(w, k);
        let hi = fastest(w);
        let lo = slowest(w);
        assert(k * lo.0 > 0 <==> lo.0 > 0) by (nonlinear_arith)
            requires
                k > 0,
        ;
        assert(100 * ((k * hi.0) * lo.1 - (k * lo.0) * hi.1) <= tolerance * ((k * lo.0) * hi.1)
            <==> 100 * (hi.0 * lo.1 - lo.0 * hi.1) <= tolerance * (lo.0 * hi.1)) by (
        nonlinear_arith)
            requires
                k > 0,
        ;
    }
}

/// Returns whether the recent readings have settled.
///
/// Compares the spread of the trailing window against its own floor, so the
/// threshold means the same thing on a 5 Mbps link as on a 5 Gbps one.
pub fn has_converged(rates: &[Bitrate], tolerance: u64) -> (settled: bool)
    ensures
        settled == converged(rate_views(rates@), tolerance as nat),
{
    let ghost all = rate_views(rates@);
    let n = rates.len();
    if n < STABILITY_WINDOW {
        return false;
    }
    let start = n - STABILITY_WINDOW;
    let ghost w = all.subrange(start as int, n as int);
    let (mut hb, mut hn) = rates[start].parts();
    let (mut lb, mut ln) = rates[start].parts();
    let mut i = start + 1;
    proof {
        assert(w.take(1) =~= seq![w[0]]);
    }
    while i < n
        invariant
            start < i <= n == rates@.len(),
            n - start == STABILITY_WINDOW,
            all == rate_views(rates@),
            w == all.subrange(start as int, n as int),
            (hb as nat, hn as nat) == fastest(w.take(i - start)),
            (lb as nat, ln as nat) == slowest(w.take(i - start)),
            hn > 0,
            ln > 0,
        decreases n - i,
    {
        let (b, t) = rates[i].parts();
        proof {
            lemma_product_fits(hb, t);
            lemma_product_fits(b, hn);
            lemma_product_fits(b, ln);
            lemma_product_fits(lb, t);
            let k = i - start;
            assert(w.take(k + 1).drop_last() =~= w.take(k as int));
            assert(w.take(k + 1).last() == (b as nat, t as nat));
        }
        if hb as u128 * t as u128 <= b as u128 * hn as u128 {
            hb = b;
            hn = t;
        }
        if b as u128 * ln as u128 <= lb as u128 * t as u128 {
            lb = b;
            ln = t;
        }
        i = i + 1;
    }
    proof {
        assert(w.take(n - start) =~= w);
    }
    if lb == 0 {
        return false;
    }
    proof {
        lemma_product_fits(hb, ln);
        lemma_product_fits(lb, hn);
    }
    let high = hb as u128 * ln as u128;
    let low = lb as u128 * hn as u128;
    if high <= low {
        proof {
            assert(tolerance * (lb * hn) >= 0) by (nonlinear_arith);
        }
        return true;
    }
    let spread = mul_wide(high - low, 100);
    let allowance = mul_wide(low, tolerance);
    wide_le(spread, allowance)
}


/// Which way the bytes flow, resolved at runtime inside a worker.
#[derive(Clone, Copy, Debug, PartialEq, Eq, Structural)]
pub enum Kind {
    Download,
    Upload,
}

/// Ties a direction tag to the request it performs.
///
/// Pairing the two in one impl is what stops a phase from being asked for
/// an upload while returning a download-tagged measurement.
pub trait Phase: Direction {
    const KIND: Kind;
}

impl Phase for Download {
    const KIND: Kind = Kind::Download;
}

impl Phase for Upload {
    const KIND: Kind = Kind::Upload;
}

/// The URL a phase of `kind` sends its requests to.
pub open spec fn transfer_url_of(kind: Kind, host: Seq<char>, chunk: nat) -> Seq<char> {
    match kind {
        Kind::Download => "https://"@ + host + "/__down?bytes="@ + crate::numerals::decimal(chunk),
        Kind::Upload => "https://"@ + host + "/__up"@,
    }
}

/// Returns the URL every request of a `kind` phase goes to: a download asks
/// for one chunk of the plan, an upload posts to the discarding route.
pub fn transfer_url(kind: Kind, endpoint: &Endpoint, plan: &Plan) -> (url: String)
    ensures
        url@ == transfer_url_of(kind, endpoint@, plan@.chunk),
{
    match kind {
        Kind::Download => endpoint.download_url(plan.chunk().get()),
        Kind::Upload => endpoint.upload_url(),
    }
}

/// Whether an HTTP status reports success (2xx).
pub open spec fn is_success(status: u16) -> bool {
    200 <= status <= 299
}

/// Accepts a successful response; a refusal to serve more (429) is told
/// apart from any other failure status.
pub fn check_status(status: u16) -> (checked: Result<(), Error>)
    ensures
        match checked {
            Ok(()) => is_success(status),
            Err(e) => !is_success(status) && if status == 429 {
                e is RateLimited
            } else {
                e matches Error::UnexpectedStatus { status: s } && s == status
            },
        },
{
    if 200 <= status && status <= 299 {
        Ok(())
    } else if status == 429 {
        Err(Error::RateLimited)
    } else {
        Err(Error::UnexpectedStatus { status })
    }
}

/// Counts the failed requests of one connection in a row.
///
/// A request that fails is retried rather than ending the phase, since a
/// single reset connection says nothing about the link; only an unbroken
/// run of failures does. Retrying a refusal to serve is what the refusal is
/// asking us not to do, so it ends the connection's part at once.
#[derive(Clone, Copy, Debug)]
pub struct FailureStreak {
    consecutive: usize,
}

impl View for FailureStreak {
    /// How many requests in a row have failed.
    type V = nat;

    closed spec fn view(&self) -> nat {
        self.consecutive as nat
    }
}

impl FailureStreak {
    #[verifier::type_invariant]
    spec fn below_limit(self) -> bool {
        self.consecutive < MAX_CONSECUTIVE_FAILURES
    }

    /// A connection that has not failed yet.
    pub fn new() -> (streak: Self)
        ensures
            streak@ == 0,
    {
        FailureStreak { consecutive: 0 }
    }

    /// Takes the outcome of one request; returns the failure that ends the
    /// connection's part in the phase, if this outcome ends it.
    pub fn record(&mut self, outcome: Result<(), Error>) -> (give_up: Option<Error>)
        ensures
            old(self)@ < MAX_CONSECUTIVE_FAILURES,
            final(self)@ < MAX_CONSECUTIVE_FAILURES,
            match outcome {
                Ok(()) => give_up is None && final(self)@ == 0,
                Err(Error::RateLimited) => give_up matches Some(Error::RateLimited),
                Err(_) => if old(self)@ + 1 >= MAX_CONSECUTIVE_FAILURES {
                    give_up == Some(outcome->Err_0)
                } else {
                    give_up is None && final(self)@ == old(self)@ + 1
                },
            },
    {
        proof {
            use_type_invariant(&*self);
        }
        match outcome {
            Ok(()) => {
                self.consecutive = 0;
                None
            },
            Err(Error::RateLimited) => Some(Error::RateLimited),
            Err(failure) => {
                if self.consecutive + 1 >= MAX_CONSECUTIVE_FAILURES {
                    Some(failure)
                } else {
                    self.consecutive = self.consecutive + 1;
                    None
                }
            },
        }
    }
}

/// How much of the `remaining` bytes of an upload body the next piece sends.
pub open spec fn piece_size(remaining: nat) -> nat {
    if remaining < UPLOAD_PIECE_BYTES {
        remaining
    } else {
        UPLOAD_PIECE_BYTES as nat
    }
}

/// How many bytes an upload body with `remaining` bytes left sends when no
/// deadline cuts it short.
pub open spec fn bytes_streamed(remaining: nat) -> nat
    decreases remaining,
{
    if remaining == 0 {
        0
    } else {
        piece_size(remaining) + bytes_streamed((remaining - piece_size(remaining)) as nat)
    }
}

/// An upload body that the deadline does not cut short sends exactly the
/// bytes it was asked for.
pub proof fn lemma_whole_body_is_streamed(total: nat)
    ensures
        bytes_streamed(total) == total,
    decreases total,
{
    if total > 0 {
        lemma_whole_body_is_streamed((total - piece_size(total)) as nat);
    }
}

/// The size of the next piece of an upload body with `remaining` bytes left
/// to send, or none once the body is complete or the deadline has passed.
///
/// Sending a stream of pieces rather than one buffer lets a request be cut
/// mid-flight on a slow uplink, where a single 25 MB body could outlast the
/// whole measurement window.
pub fn next_upload_piece(remaining: u64, past_deadline: bool) -> (piece: Option<u64>)
    ensures
        match piece {
            None => remaining == 0 || past_deadline,
            Some(size) => remaining > 0 && !past_deadline && size == piece_size(remaining as nat),
        },
{
    if remaining == 0 || past_deadline {
        None
    } else if remaining < UPLOAD_PIECE_BYTES {
        Some(remaining)
    } else {
        Some(UPLOAD_PIECE_BYTES)
    }
}


/// What the supervisor of a phase has seen so far.
pub struct SupervisorView {
    pub plan: PlanView,
    pub timeline: Seq<(nat, nat)>,
    pub rates: Seq<(nat, nat)>,
    pub opened: nat,
    pub failed: bool,
}

/// The rate a sample reports: over the measured window once there is one,
/// over the whole run before that, and zero before any time has passed.
pub open spec fn sample_rate(
    timeline: Seq<(nat, nat)>,
    warmup: nat,
    transferred: nat,
    elapsed: nat,
) -> (nat, nat) {
    let (moved, over) = match span_since(timeline, warmup) {
        Some(window) => window,
        None => match total(timeline) {
            Some(whole) => whole,
            None => (transferred, elapsed),
        },
    };
    crate::units::transfer_rate(moved, over)
}

/// The live reading is measured the way the final result is: once a
/// timeline has a measured amount, the rate a sample shows is the rate of
/// exactly that amount, so the display converges on the reported number.
pub proof fn lemma_live_rate_is_the_measured_rate(
    timeline: Seq<(nat, nat)>,
    warmup: nat,
    transferred: nat,
    elapsed: nat,
    amount: (nat, nat),
)
    requires
        measured(timeline, warmup) == Some(amount),
    ensures
        sample_rate(timeline, warmup, transferred, elapsed) == crate::units::transfer_rate(
            amount.0,
            amount.1,
        ),
{
}

/// A sample counts as a reading once its window covers the settling span:
/// a rate averaged over a sliver of the window swings wildly.
pub open spec fn sample_stage(timeline: Seq<(nat, nat)>, warmup: nat) -> Stage {
    match span_since(timeline, warmup) {
        Some((_, covered)) => if covered >= SETTLING_SPAN_SECS * 1_000_000_000 {
            Stage::Measuring
        } else {
            Stage::Warmup
        },
        None => Stage::Warmup,
    }
}

/// A supervisor never has more connections open than its plan allows, and
/// the plan it follows is sound.
pub open spec fn within_plan(s: SupervisorView) -> bool {
    1 <= s.opened <= s.plan.connections && plan_is_sound(s.plan)
}

/// What to do after a sample.
pub struct Tick {
    /// Whether to open one more connection now.
    pub open_connection: bool,
    /// What to show for the sample.
    pub progress: Progress,
}

/// Samples a running phase and decides when to widen it and when to end it.
///
/// Connections are opened one per sample rather than all at once, so their
/// slow starts are staggered instead of bursting into the same queue, and
/// the ramp is confined to the warmup: once the measurement window opens the
/// connection count is fixed, which is what makes the bytes counted inside
/// it comparable from one sample to the next.
pub struct Supervisor {
    plan: Plan,
    direction: &'static str,
    timeline: Timeline,
    rates: Vec<Bitrate>,
    opened: usize,
    failure: Option<Error>,
}

impl View for Supervisor {
    type V = SupervisorView;

    closed spec fn view(&self) -> SupervisorView {
        SupervisorView {
            plan: self.plan@,
            timeline: self.timeline@,
            rates: rate_views(self.rates@),
            opened: self.opened as nat,
            failed: self.failure is Some,
        }
    }
}

impl Supervisor {
    /// The direction this supervisor reports its samples under.
    pub closed spec fn direction(self) -> &'static str {
        self.direction
    }

    /// The first failure a connection reported, if any.
    pub closed spec fn failure(self) -> Option<Error> {
        self.failure
    }

    /// Starts supervising a phase whose first connection is already open.
    pub fn new(plan: Plan, direction: &'static str) -> (s: Self)
        ensures
            s@.plan == plan@,
            s@.timeline == Seq::<(nat, nat)>::empty(),
            s@.rates == Seq::<(nat, nat)>::empty(),
            s@.opened == 1,
            !s@.failed,
            within_plan(s@),
            s.direction() == direction,
    {
        proof {
            use_type_invariant(&plan);
        }
        let s = Supervisor {
            plan,
            direction,
            timeline: Timeline::new(),
            rates: Vec::new(),
            opened: 1,
            failure: None,
        };
        assert(s@.rates =~= Seq::<(nat, nat)>::empty());
        s
    }

    /// Returns how many connections have been opened.
    pub fn opened(&self) -> (n: usize)
        requires
            within_plan(self@),
        ensures
            n == self@.opened,
            1 <= n <= self@.plan.connections,
    {
        self.opened
    }

    /// Takes the sample that `transferred` bytes had moved `elapsed` into
    /// the phase: records it, says whether to open another connection and
    /// what to show.
    pub fn tick(&mut self, elapsed: Duration, transferred: Bytes) -> (tick: Tick)
        requires
            within_plan(old(self)@),
        ensures
            within_plan(final(self)@),
            final(self)@.plan == old(self)@.plan,
            final(self).direction() == old(self).direction(),
            final(self).failure() == old(self).failure(),
            final(self)@.timeline == old(self)@.timeline.push((elapsed@, transferred@)),
            tick.open_connection == (old(self)@.opened < old(self)@.plan.connections && elapsed@
                < old(self)@.plan.warmup),
            final(self)@.opened == old(self)@.opened + if tick.open_connection {
                1nat
            } else {
                0nat
            },
            tick.progress.rate@ == sample_rate(
                final(self)@.timeline,
                old(self)@.plan.warmup,
                transferred@,
                elapsed@,
            ),
            final(self)@.rates == old(self)@.rates.push(tick.progress.rate@),
            tick.progress.stage == sample_stage(final(self)@.timeline, old(self)@.plan.warmup),
            tick.progress.direction == old(self).direction(),
            tick.progress.transferred == transferred,
            tick.progress.elapsed == elapsed,
    {
        self.timeline.record(elapsed, transferred);
        let warmup = self.plan.warmup();
        let open_connection = self.opened < self.plan.connections() && elapsed.as_nanos()
            < warmup.as_nanos();
        if open_connection {
            self.opened = self.opened + 1;
        }
        let window = self.timeline.span_since(warmup);
        let (moved, over) = match window {
            Some(span) => span,
            None => match self.timeline.total() {
                Some(whole) => whole,
                None => (transferred, elapsed),
            },
        };
        let rate = Bitrate::from_transfer(moved, over);
        let ghost before = self.rates@;
        self.rates.push(rate);
        proof {
            assert(rate_views(self.rates@) =~= rate_views(before).push(rate@));
        }
        let stage = match window {
            Some((_, covered)) => if covered.as_nanos() >= SETTLING_SPAN_SECS * 1_000_000_000 {
                Stage::Measuring
            } else {
                Stage::Warmup
            },
            None => Stage::Warmup,
        };
        Tick {
            open_connection,
            progress: Progress { direction: self.direction, stage, transferred, elapsed, rate },
        }
    }

    /// Notes that a connection gave up with `failure`; only the first one is
    /// kept, and it only matters if the phase moves no bytes at all.
    pub fn record_failure(&mut self, failure: Error)
        requires
            within_plan(old(self)@),
        ensures
            within_plan(final(self)@),
            final(self)@.plan == old(self)@.plan,
            final(self)@.timeline == old(self)@.timeline,
            final(self)@.rates == old(self)@.rates,
            final(self)@.opened == old(self)@.opened,
            final(self)@.failed,
            final(self).direction() == old(self).direction(),
            final(self).failure() == match old(self).failure() {
                Some(first) => Some(first),
                None => Some(failure),
            },
    {
        if self.failure.is_none() {
            self.failure = Some(failure);
        }
    }

    /// What the phase measured: the span after the warmup, else the whole
    /// timeline, else the bytes `counted` over `elapsed`.
    pub open spec fn outcome_amount(self, counted: nat, elapsed: nat) -> (nat, nat) {
        match measured(self@.timeline, self@.plan.warmup) {
            Some(amount) => amount,
            None => (counted, elapsed),
        }
    }

    /// Ends the phase: what it measured if it moved any bytes, else the first
    /// failure a connection reported, or that no data moved in the phase
    /// `P`, named by its own label.
    pub fn conclude<P: Phase>(self, counted: Bytes, elapsed: Duration) -> (result: Result<
        Throughput<P>,
        Error,
    >)
        ensures
            match result {
                Ok(throughput) => self.outcome_amount(counted@, elapsed@).0 > 0 && throughput@
                    == self.outcome_amount(counted@, elapsed@),
                Err(e) => self.outcome_amount(counted@, elapsed@).0 == 0 && e == match self.failure() {
                    Some(first) => first,
                    None => Error::NoData { direction: P::LABEL },
                },
            },
    {
        let warmup = self.plan.warmup();
        let (transferred, over) = match self.timeline.measured(warmup) {
            Some(amount) => amount,
            None => (counted, elapsed),
        };
        if transferred.is_zero() {
            match self.failure {
                Some(first) => Err(first),
                None => Err(Error::NoData { direction: P::LABEL }),
            }
        } else {
            Ok(Throughput::new(transferred, over))
        }
    }

    /// Returns whether the phase should end now, `elapsed` into it.
    ///
    /// It ends when no connection is left running, at the maximum duration,
    /// or once the reading has settled, but never before the minimum
    /// duration, so the warmup is always excluded from a real window.
    pub fn should_stop(&self, elapsed: Duration, connections_running: bool) -> (stop: bool)
        ensures
            stop == (!connections_running || elapsed@ >= self@.plan.max_duration || (elapsed@
                >= self@.plan.min_duration && converged(self@.rates, STABILITY_TOLERANCE as nat))),
            stop && connections_running ==> elapsed@ >= self@.plan.min_duration,
    {
        proof {
            use_type_invariant(&self.plan);
        }
        let settled = elapsed.as_nanos() >= self.plan.min_duration().as_nanos() && has_converged(
            self.rates.as_slice(),
            STABILITY_TOLERANCE,
        );
        !connections_running || elapsed.as_nanos() >= self.plan.max_duration().as_nanos()
            || settled
    }
}

} // verus!
