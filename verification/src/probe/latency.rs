//! Round trip time measured by opening TCP connections.
//!
//! Timing the TCP handshake to the host traverses the same path as an ICMP
//! echo without needing any privilege, at the cost of also including the
//! time the server takes to accept the connection.

use vstd::prelude::*;

use crate::error::Error;
use crate::units::Duration;

verus! {

/// How many probes a measurement sends.
pub const ATTEMPTS: usize = 5;

/// How long one probe may wait for an answer, in seconds.
pub const PROBE_TIMEOUT_SECS: u64 = 3;

/// The nanoseconds of each span, in order.
pub open spec fn nanos_of(samples: Seq<Duration>) -> Seq<nat> {
    samples.map_values(|d: Duration| d@)
}

/// Whether `s` is in non-decreasing order.
pub open spec fn is_sorted(s: Seq<nat>) -> bool {
    forall|i: int, j: int| 0 <= i <= j < s.len() ==> s[i] <= s[j]
}

/// `x` inserted into `t` before its first element not below `x`.
pub open spec fn insert_sorted(x: nat, t: Seq<nat>) -> Seq<nat>
    decreases t.len(),
{
    if t.len() == 0 {
        seq![x]
    } else if x <= t[0] {
        seq![x] + t
    } else {
        seq![t[0]] + insert_sorted(x, t.drop_first())
    }
}

/// `s` in non-decreasing order.
pub open spec fn sorted(s: Seq<nat>) -> Seq<nat>
    decreases s.len(),
{
    if s.len() == 0 {
        Seq::empty()
    } else {
        insert_sorted(s.last(), sorted(s.drop_last()))
    }
}

/// The middle of a sorted sequence: the middle element, or the floor of
/// the mean of the middle pair when the count is even.
pub open spec fn median_of_sorted(t: Seq<nat>) -> nat {
    let middle = (t.len() / 2) as int;
    if t.len() % 2 == 0 {
        (t[middle - 1] + t[middle]) / 2
    } else {
        t[middle]
    }
}

/// The median of `s`.
pub open spec fn median(s: Seq<nat>) -> nat {
    median_of_sorted(sorted(s))
}

/// How far apart two values are.
pub open spec fn distance(a: nat, b: nat) -> nat {
    if a >= b {
        (a - b) as nat
    } else {
        (b - a) as nat
    }
}

/// The sum of the distances between successive values.
pub open spec fn total_variation(s: Seq<nat>) -> nat
    decreases s.len(),
{
    if s.len() < 2 {
        0
    } else {
        total_variation(s.drop_last()) + distance(s[s.len() - 2], s.last())
    }
}

/// The mean absolute difference between successive values, rounded down;
/// zero when there is no pair of successive values.
pub open spec fn mean_consecutive_deviation(s: Seq<nat>) -> nat {
    if s.len() < 2 {
        0
    } else {
        total_variation(s) / (s.len() - 1) as nat
    }
}

/// A summary of the round trip times observed for one host.
#[derive(Clone, Copy, Debug, PartialEq, Eq, Structural)]
pub struct Latency {
    median: Duration,
    jitter: Duration,
    samples: usize,
}

impl View for Latency {
    /// `(median, jitter, samples)`, the spans in nanoseconds.
    type V = (nat, nat, nat);

    closed spec fn view(&self) -> (nat, nat, nat) {
        (self.median@, self.jitter@, self.samples as nat)
    }
}

/// The summary of a non-empty list of round trip times.
pub open spec fn summary_of(samples: Seq<nat>) -> (nat, nat, nat) {
    (median(samples), mean_consecutive_deviation(samples), samples.len())
}

/// Inserting keeps the elements and their count.
proof fn lemma_insert_sorted(x: nat, t: Seq<nat>)
    ensures
        insert_sorted(x, t).len() == t.len() + 1,
        insert_sorted(x, t).to_multiset() == t.to_multiset().insert(x),
        is_sorted(t) ==> is_sorted(insert_sorted(x, t)),
    decreases t.len(),
{
    broadcast use vstd::seq_lib::group_to_multiset_ensures;

    if t.len() == 0 {
        assert(seq![x] =~= Seq::<nat>::empty().push(x));
    } else if x <= t[0] {
        assert(seq![x] + t =~= t.insert(0, x));
        assert((seq![x] + t).to_multiset() =~= t.to_multiset().insert(x)) by {
            t.to_multiset_ensures();
            (seq![x] + t).to_multiset_ensures();
            vstd::seq_lib::lemma_multiset_commutative(seq![x], t);
            assert(seq![x] =~= Seq::<nat>::empty().push(x));
        }
    } else {
        let rest = insert_sorted(x, t.drop_first());
        lemma_insert_sorted(x, t.drop_first());
        assert(t =~= seq![t[0]] + t.drop_first());
        vstd::seq_lib::lemma_multiset_commutative(seq![t[0]], t.drop_first());
        vstd::seq_lib::lemma_multiset_commutative(seq![t[0]], rest);
        if is_sorted(t) {
            let r = seq![t[0]] + rest;
            assert forall|i: int, j: int| 0 <= i <= j < r.len() implies r[i] <= r[j] by {
                if i == 0 && j > 0 {
                    assert(rest.to_multiset().contains(r[j])) by {
                        assert(r[j] == rest[j - 1]);
                    }
                    assert(t.drop_first().to_multiset().insert(x).contains(r[j]));
                    if r[j] != x {
                        assert(t.drop_first().to_multiset().contains(r[j]));
                        let k = choose|k: int| 0 <= k < t.drop_first().len() && t.drop_first()[k] == r[j];
                        assert(t[0] <= t[k + 1]);
                    }
                }
            }
        }
    }
}

/// Sorting keeps the elements, and sorts them.
pub proof fn lemma_sorted(s: Seq<nat>)
    ensures
        sorted(s).len() == s.len(),
        sorted(s).to_multiset() == s.to_multiset(),
        is_sorted(sorted(s)),
    decreases s.len(),
{
    broadcast use vstd::seq_lib::group_to_multiset_ensures;

    if s.len() > 0 {
        lemma_sorted(s.drop_last());
        lemma_insert_sorted(s.last(), sorted(s.drop_last()));
        assert(s =~= s.drop_last().push(s.last()));
    }
}


/// Two sorted sequences with the same elements are the same sequence.
proof fn lemma_sorted_unique(a: Seq<nat>, b: Seq<nat>)
    requires
        is_sorted(a),
        is_sorted(b),
        a.to_multiset() == b.to_multiset(),
    ensures
        a == b,
    decreases a.len(),
{
    broadcast use vstd::seq_lib::group_to_multiset_ensures;

    a.to_multiset_ensures();
    b.to_multiset_ensures();
    if a.len() == 0 {
        assert(b.len() == 0);
        assert(a =~= b);
    } else {
        assert(b.len() == a.len());
        assert(a.to_multiset().count(a[0]) > 0);
        assert(b.contains(a[0]));
        assert(b.to_multiset().count(b[0]) > 0);
        assert(a.contains(b[0]));
        let i = choose|i: int| 0 <= i < b.len() && b[i] == a[0];
        let j = choose|j: int| 0 <= j < a.len() && a[j] == b[0];
        assert(b[0] <= b[i]);
        assert(a[0] <= a[j]);
        assert(a[0] == b[0]);
        assert(a.remove(0).to_multiset() == b.remove(0).to_multiset());
        assert(a.remove(0) =~= a.drop_first());
        assert(b.remove(0) =~= b.drop_first());
        lemma_sorted_unique(a.drop_first(), b.drop_first());
        assert(a =~= b) by {
            assert forall|k: int| 0 <= k < a.len() implies a[k] == b[k] by {
                if k > 0 {
                    assert(a[k] == a.drop_first()[k - 1]);
                    assert(b[k] == b.drop_first()[k - 1]);
                }
            }
        }
    }
}

/// The median does not depend on the order the probes ran in: samples with
/// the same values, in any order, have the same median.
pub proof fn lemma_median_ignores_order(s: Seq<nat>, t: Seq<nat>)
    requires
        s.to_multiset() == t.to_multiset(),
    ensures
        median(s) == median(t),
{
    lemma_sorted(s);
    lemma_sorted(t);
    lemma_sorted_unique(sorted(s), sorted(t));
}

/// The median is the middle of the samples put in order: the middle one for
/// an odd count, the mean of the middle pair rounded down for an even one.
/// Half the samples are at most the lower middle value and half at least
/// the upper one.
pub proof fn lemma_median_is_the_middle(s: Seq<nat>)
    requires
        s.len() > 0,
    ensures
        exists|t: Seq<nat>|
            #![trigger is_sorted(t)]
            t.len() == s.len() && t.to_multiset() == s.to_multiset() && is_sorted(t) && 2 * median(
                s,
            ) <= t[(s.len() - 1) / 2] + t[(s.len() / 2) as int] < 2 * median(s) + 2,
{
    lemma_sorted(s);
    let t = sorted(s);
    let n = s.len() as int;
    let m = median(s);
    if n % 2 == 0 {
        assert((n - 1) / 2 == n / 2 - 1);
    } else {
        assert((n - 1) / 2 == n / 2);
    }
    assert(2 * m <= t[(n - 1) / 2] + t[n / 2] < 2 * m + 2);
    assert(is_sorted(t));
}

/// The median lies between the smallest and the largest sample, and is one
/// of the samples when their count is odd.
pub proof fn lemma_median_within_samples(s: Seq<nat>)
    requires
        s.len() > 0,
    ensures
        exists|i: int, j: int| #![trigger s[i], s[j]] 0 <= i < s.len() && 0 <= j < s.len() && s[i] <= median(s) <= s[j],
        s.len() % 2 == 1 ==> s.contains(median(s)),
{
    broadcast use vstd::seq_lib::group_to_multiset_ensures;

    lemma_sorted(s);
    let t = sorted(s);
    t.to_multiset_ensures();
    s.to_multiset_ensures();
    let middle = (t.len() / 2) as int;
    let low = if t.len() % 2 == 0 { middle - 1 } else { middle };
    assert(t.to_multiset().count(t[low]) > 0);
    assert(t.to_multiset().count(t[middle]) > 0);
    assert(s.contains(t[low]));
    assert(s.contains(t[middle]));
    let i = choose|i: int| 0 <= i < s.len() && s[i] == t[low];
    let j = choose|j: int| 0 <= j < s.len() && s[j] == t[middle];
    assert(t[low] <= t[middle]);
    assert(s[i] <= median(s) <= s[j]);
}

/// Probes that all took the same time show no jitter.
pub proof fn lemma_steady_samples_have_no_jitter(s: Seq<nat>)
    requires
        forall|i: int, j: int| 0 <= i < s.len() && 0 <= j < s.len() ==> s[i] == s[j],
    ensures
        mean_consecutive_deviation(s) == 0,
    decreases s.len(),
{
    lemma_steady_variation(s);
}

/// The summed variation of equal values is zero.
proof fn lemma_steady_variation(s: Seq<nat>)
    requires
        forall|i: int, j: int| 0 <= i < s.len() && 0 <= j < s.len() ==> s[i] == s[j],
    ensures
        total_variation(s) == 0,
    decreases s.len(),
{
    if s.len() >= 2 {
        lemma_steady_variation(s.drop_last());
        assert(s[s.len() - 2] == s.last());
    }
}

/// The jitter is the mean gap between successive samples, rounded down,
/// for any number of samples: spread over the `n - 1` gaps it accounts for
/// the summed variation less than one nanosecond per gap.
pub proof fn lemma_jitter_is_the_mean_gap(s: Seq<nat>)
    requires
        s.len() >= 2,
    ensures
        mean_consecutive_deviation(s) * (s.len() - 1) <= total_variation(s),
        total_variation(s) < (mean_consecutive_deviation(s) + 1) * (s.len() - 1),
{
    let gaps = (s.len() - 1) as nat;
    let j = mean_consecutive_deviation(s);
    let t = total_variation(s);
    vstd::arithmetic::div_mod::lemma_fundamental_div_mod(t as int, gaps as int);
    assert(j * gaps <= t < (j + 1) * gaps) by (nonlinear_arith)
        requires
            t == gaps * j + t % gaps,
            0 <= t % gaps < gaps,
    ;
}

/// The summed variation is the sum of the distances between each sample
/// and the next: splitting the samples anywhere splits the sum, the gap
/// across the cut counted once.
pub proof fn lemma_variation_splits(s: Seq<nat>, k: int)
    requires
        1 <= k < s.len(),
    ensures
        total_variation(s) == total_variation(s.take(k)) + distance(s[k - 1], s[k])
            + total_variation(s.skip(k)),
    decreases s.len() - k,
{
    if k == s.len() - 1 {
        assert(s.take(k) =~= s.drop_last());
        assert(total_variation(s.skip(k)) == 0);
    } else {
        let front = s.drop_last();
        lemma_variation_splits(front, k);
        assert(front.take(k) =~= s.take(k));
        let rest = s.skip(k);
        assert(front.skip(k) =~= rest.drop_last());
        assert(rest.len() >= 2);
        assert(rest[rest.len() - 2] == s[s.len() - 2]);
        assert(rest.last() == s.last());
    }
}

/// The summed variation can be read from the front as well as the back.
proof fn lemma_variation_from_front(s: Seq<nat>)
    requires
        s.len() >= 2,
    ensures
        total_variation(s) == distance(s[0], s[1]) + total_variation(s.drop_first()),
    decreases s.len(),
{
    if s.len() > 2 {
        let front = s.drop_last();
        lemma_variation_from_front(front);
        let rest = s.drop_first();
        assert(front.drop_first() =~= rest.drop_last());
        assert(front[0] == s[0] && front[1] == s[1]);
        assert(rest[rest.len() - 2] == s[s.len() - 2]);
        assert(rest.last() == s.last());
        assert(total_variation(rest) == total_variation(rest.drop_last()) + distance(
            rest[rest.len() - 2],
            rest.last(),
        ));
    } else {
        assert(total_variation(s.drop_last()) == 0);
        assert(total_variation(s.drop_first()) == 0);
        assert(s.drop_last().last() == s[0]);
    }
}

/// Jitter does not depend on the direction the probes are read in: the same
/// round trips in reverse order vary by the same amount.
pub proof fn lemma_jitter_ignores_direction(s: Seq<nat>)
    ensures
        mean_consecutive_deviation(s.reverse()) == mean_consecutive_deviation(s),
{
    lemma_variation_reversed(s);
}

/// Reversing a sequence keeps its summed variation.
proof fn lemma_variation_reversed(s: Seq<nat>)
    ensures
        s.reverse().len() == s.len(),
        total_variation(s.reverse()) == total_variation(s),
    decreases s.len(),
{
    let r = s.reverse();
    if s.len() >= 2 {
        let rest = s.drop_first();
        lemma_variation_reversed(rest);
        lemma_variation_from_front(s);
        assert(r.drop_last() =~= rest.reverse());
        assert(r[r.len() - 2] == s[1]);
        assert(r.last() == s[0]);
    } else if s.len() == 1 {
        assert(r.len() == 1);
    } else {
        assert(r.len() == 0);
    }
}

/// The values of a list of 64-bit counts.
pub open spec fn as_nats(v: Seq<u64>) -> Seq<nat> {
    v.map_values(|x: u64| x as nat)
}

/// Inserting before the first element not below `x` is `insert_sorted`.
proof fn lemma_insert_at(x: nat, t: Seq<nat>, p: int)
    requires
        0 <= p <= t.len(),
        forall|j: int| 0 <= j < p ==> t[j] < x,
        p < t.len() ==> x <= t[p],
    ensures
        insert_sorted(x, t) == t.insert(p, x),
    decreases t.len(),
{
    if t.len() == 0 {
        assert(t.insert(p, x) =~= seq![x]);
    } else if p == 0 {
        assert(t.insert(0, x) =~= seq![x] + t);
    } else {
        lemma_insert_at(x, t.drop_first(), p - 1);
        assert(t.insert(p, x) =~= seq![t[0]] + t.drop_first().insert(p - 1, x));
    }
}

/// The successive distances of values below `bound` add up to at most
/// `bound` per pair.
proof fn lemma_total_variation_bound(s: Seq<nat>, bound: nat)
    requires
        forall|i: int| 0 <= i < s.len() ==> s[i] <= bound,
    ensures
        s.len() >= 1 ==> total_variation(s) <= (s.len() - 1) * bound,
    decreases s.len(),
{
    if s.len() >= 2 {
        lemma_total_variation_bound(s.drop_last(), bound);
        assert((s.len() - 1) * bound == (s.len() - 2) * bound + bound) by (nonlinear_arith)
            requires
                s.len() >= 2,
        ;
    }
}

/// Returns where `x` belongs in the sorted `t`: before its first element not below `x`.
fn insertion_point(t: &Vec<u64>, x: u64) -> (p: usize)
    ensures
        p <= t@.len(),
        forall|j: int| 0 <= j < p ==> t@[j] < x,
        p < t@.len() ==> x <= t@[p as int],
{
    let mut p: usize = 0;
    while p < t.len() && t[p] < x
        invariant
            p <= t@.len(),
            forall|j: int| 0 <= j < p ==> t@[j] < x,
        decreases t@.len() - p,
    {
        p = p + 1;
    }
    p
}

/// Returns the nanoseconds of `samples` in non-decreasing order.
fn sorted_nanos(samples: &Vec<Duration>) -> (t: Vec<u64>)
    ensures
        as_nats(t@) == sorted(nanos_of(samples@)),
{
    let mut t: Vec<u64> = Vec::new();
    let ghost s = nanos_of(samples@);
    let mut i: usize = 0;
    proof {
        assert(s.take(0) =~= Seq::<nat>::empty());
        assert(as_nats(t@) =~= Seq::<nat>::empty());
    }
    while i < samples.len()
        invariant
            i <= samples@.len(),
            s == nanos_of(samples@),
            as_nats(t@) == sorted(s.take(i as int)),
        decreases samples@.len() - i,
    {
        let x = samples[i].as_nanos();
        let p = insertion_point(&t, x);
        let ghost before = as_nats(t@);
        t.insert(p, x);
        proof {
            lemma_insert_at(x as nat, before, p as int);
            assert(as_nats(t@) =~= before.insert(p as int, x as nat));
            assert(s.take(i + 1).drop_last() =~= s.take(i as int));
            assert(s.take(i + 1).last() == x as nat);
        }
        i = i + 1;
    }
    proof {
        assert(s.take(samples@.len() as int) =~= s);
    }
    t
}

/// Returns the summed distances between successive samples.
fn variation(samples: &Vec<Duration>) -> (total: u128)
    ensures
        total == total_variation(nanos_of(samples@)),
{
    let ghost s = nanos_of(samples@);
    let mut total: u128 = 0;
    if samples.len() < 2 {
        return 0;
    }
    let mut i: usize = 1;
    proof {
        assert(s.take(1).len() == 1);
    }
    while i < samples.len()
        invariant
            1 <= i <= samples@.len(),
            s == nanos_of(samples@),
            total == total_variation(s.take(i as int)),
            total <= (i - 1) * (u64::MAX as nat),
        decreases samples@.len() - i,
    {
        let step = samples[i - 1].abs_diff(samples[i]);
        proof {
            assert(s.take(i + 1).drop_last() =~= s.take(i as int));
            assert(i * (u64::MAX as nat) == (i - 1) * (u64::MAX as nat) + u64::MAX) by (
            nonlinear_arith)
                requires
                    i >= 1,
            ;
            assert(i * (u64::MAX as nat) < u128::MAX) by (nonlinear_arith)
                requires
                    i <= usize::MAX,
            ;
        }
        total = total + step.as_nanos() as u128;
        i = i + 1;
    }
    proof {
        assert(s.take(samples@.len() as int) =~= s);
    }
    total
}

/// Returns the middle of the sorted, non-empty `sorted`: the middle value,
/// or the floor of the mean of the middle pair when the count is even.
fn median_of(sorted: &Vec<u64>) -> (middle: Duration)
    requires
        sorted@.len() > 0,
    ensures
        middle@ == median_of_sorted(as_nats(sorted@)),
{
    let middle = sorted.len() / 2;
    if sorted.len() % 2 == 0 {
        Duration::from_nanos(((sorted[middle - 1] as u128 + sorted[middle] as u128) / 2) as u64)
    } else {
        Duration::from_nanos(sorted[middle])
    }
}

/// Returns how much consecutive samples varied: the mean absolute
/// difference between successive samples, zero for fewer than two.
fn mean_consecutive_deviation_of(samples: &Vec<Duration>) -> (jitter: Duration)
    ensures
        jitter@ == mean_consecutive_deviation(nanos_of(samples@)),
{
    if samples.len() < 2 {
        return Duration::zero();
    }
    let ghost s = nanos_of(samples@);
    let total = variation(samples);
    let gaps = (samples.len() - 1) as u128;
    proof {
        assert forall|i: int| 0 <= i < s.len() implies s[i] <= u64::MAX as nat by {
            assert(s[i] == samples@[i]@);
            samples@[i].lemma_bounded();
        }
        lemma_total_variation_bound(s, u64::MAX as nat);
        assert(total / gaps <= u64::MAX) by (nonlinear_arith)
            requires
                total <= gaps * (u64::MAX as nat),
                gaps >= 1,
        ;
    }
    Duration::from_nanos((total / gaps) as u64)
}

impl Latency {
    /// Returns the typical round trip time.
    ///
    /// The median rather than the mean, so one connection that stalls behind
    /// a retransmit does not drag the whole reading up.
    pub fn median(self) -> (d: Duration)
        ensures
            d@ == self@.0,
    {
        self.median
    }

    /// Returns how much consecutive round trips varied: the mean absolute
    /// difference between successive samples.
    pub fn jitter(self) -> (d: Duration)
        ensures
            d@ == self@.1,
    {
        self.jitter
    }

    /// Returns how many probes succeeded.
    pub fn samples(self) -> (n: usize)
        ensures
            n == self@.2,
    {
        self.samples
    }

    /// Summarises raw round trip times, or returns `None` if there are none.
    pub fn from_samples(samples: Vec<Duration>) -> (summary: Option<Self>)
        ensures
            match summary {
                None => samples@.len() == 0,
                Some(latency) => samples@.len() > 0 && latency@ == summary_of(
                    nanos_of(samples@),
                ),
            },
    {
        if samples.len() == 0 {
            return None;
        }
        let jitter = mean_consecutive_deviation_of(&samples);
        let sorted = sorted_nanos(&samples);
        proof {
            lemma_sorted(nanos_of(samples@));
            assert(as_nats(sorted@).len() == sorted@.len());
        }
        let median = median_of(&sorted);
        Some(
            Latency {
                median,
                jitter,
                samples: samples.len(),
            },
        )
    }
}


/// The round trip times of the probes that succeeded, in order.
pub open spec fn successes(outcomes: Seq<Result<Duration, String>>) -> Seq<Duration>
    decreases outcomes.len(),
{
    if outcomes.len() == 0 {
        Seq::empty()
    } else {
        let earlier = successes(outcomes.drop_last());
        match outcomes.last() {
            Ok(round_trip) => earlier.push(round_trip),
            Err(_) => earlier,
        }
    }
}

/// What the last failed probe reported, if any probe failed.
pub open spec fn last_failure(outcomes: Seq<Result<Duration, String>>) -> Option<Seq<char>>
    decreases outcomes.len(),
{
    if outcomes.len() == 0 {
        None
    } else {
        match outcomes.last() {
            Err(reason) => Some(reason@),
            Ok(_) => last_failure(outcomes.drop_last()),
        }
    }
}

/// Turns the outcomes of the probes sent to `host` into a measurement.
///
/// When every probe failed there is no round trip time to report, and the
/// failure names the host and the last reason a probe gave.
pub fn summarize_probes(host: &str, outcomes: &Vec<Result<Duration, String>>) -> (result: Result<
    Latency,
    Error,
>)
    ensures
        match result {
            Ok(latency) => successes(outcomes@).len() > 0 && latency@ == summary_of(
                nanos_of(successes(outcomes@)),
            ),
            Err(e) => successes(outcomes@).len() == 0 && (e matches Error::Connect {
                host: h,
                source,
            } && h@ == host@ && source@ == match last_failure(outcomes@) {
                Some(reason) => reason,
                None => "connection failed for an unknown reason"@,
            }),
        },
{
    let mut samples: Vec<Duration> = Vec::new();
    let mut failure: Option<String> = None;
    let mut i: usize = 0;
    while i < outcomes.len()
        invariant
            i <= outcomes@.len(),
            samples@ == successes(outcomes@.take(i as int)),
            optional_reason(failure) == last_failure(outcomes@.take(i as int)),
        decreases outcomes@.len() - i,
    {
        proof {
            assert(outcomes@.take(i + 1).drop_last() =~= outcomes@.take(i as int));
        }
        match &outcomes[i] {
            Ok(round_trip) => samples.push(*round_trip),
            Err(reason) => failure = Some(reason.clone()),
        }
        i = i + 1;
    }
    proof {
        assert(outcomes@.take(outcomes@.len() as int) =~= outcomes@);
    }
    match Latency::from_samples(samples) {
        Some(latency) => Ok(latency),
        None => {
            let source = match failure {
                Some(reason) => reason,
                None => String::from_str("connection failed for an unknown reason"),
            };
            Err(Error::Connect { host: String::from_str(host), source })
        },
    }
}

/// The text of an optional failure reason.
pub open spec fn optional_reason(reason: Option<String>) -> Option<Seq<char>> {
    match reason {
        Some(reason) => Some(reason@),
        None => None,
    }
}

} // verus!
