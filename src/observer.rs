use vstd::prelude::*;
use vstd::relations::{sorted_by, total_ordering};
use vstd::seq_lib::{lemma_sorted_unique, to_multiset_build, to_multiset_insert};

verus! {

/// Elapsed milliseconds from `from` to `to`; a clock that stepped back counts as no time.
pub open spec fn elapsed(from: u64, to: u64) -> u64 {
    if to >= from {
        (to - from) as u64
    } else {
        0
    }
}

/// How one received counter value was classified.
#[derive(PartialEq, Eq, Structural, Clone, Copy, Debug)]
pub enum Arrival {
    /// The value was the expected one.
    InOrder,
    /// The value skipped ahead; the values in between became missing.
    Ahead,
    /// A late value that was still missing.
    Recovered,
    /// A duplicate or an already recovered value: nothing changes.
    Ignored,
    /// Accepting the value would move the expected sequence past `u64::MAX`: nothing changes.
    Overflow,
}

/// The mathematical state of one observer instance.
pub struct ObserverModel {
    pub expected_seq: u64,
    pub missing: Set<u64>,
    pub delay_samples: Seq<u64>,
    pub last_arrival: Option<u64>,
    pub last_accept: Option<u64>,
    pub total_runtime_ms: u64,
    pub total_messages: u64,
    pub out_of_order_events: u64,
}

/// The values `lo, lo + 1, ..., hi - 1`.
pub open spec fn range_set(lo: u64, hi: u64) -> Set<u64> {
    Set::new(|v: u64| lo <= v < hi)
}

/// Every missing value lies below the expected sequence number, and the counters
/// never exceed what the sequence allows.
pub open spec fn model_wf(m: ObserverModel) -> bool {
    &&& m.missing.finite()
    &&& forall|v: u64| m.missing.contains(v) ==> v < m.expected_seq
    &&& m.total_messages + m.missing.len() <= m.expected_seq
    &&& m.out_of_order_events <= m.total_messages
}

pub open spec fn classify(m: ObserverModel, c: u64) -> Arrival {
    if c == m.expected_seq {
        if m.expected_seq == u64::MAX { Arrival::Overflow } else { Arrival::InOrder }
    } else if c > m.expected_seq {
        if c == u64::MAX { Arrival::Overflow } else { Arrival::Ahead }
    } else if m.missing.contains(c) {
        if m.expected_seq == u64::MAX { Arrival::Overflow } else { Arrival::Recovered }
    } else {
        Arrival::Ignored
    }
}

/// Running time after an accepted arrival at `now`: the time since the previous accepted one.
pub open spec fn accrued(m: ObserverModel, now: u64) -> u64 {
    match m.last_accept {
        Some(t) => m.total_runtime_ms.saturating_add(elapsed(t, now)),
        None => m.total_runtime_ms,
    }
}

/// The state after the value `c` arrived at time `now` (milliseconds).
pub open spec fn next(m: ObserverModel, c: u64, now: u64) -> ObserverModel {
    match classify(m, c) {
        Arrival::InOrder => ObserverModel {
            expected_seq: (m.expected_seq + 1) as u64,
            missing: m.missing,
            delay_samples: match m.last_arrival {
                Some(t) => m.delay_samples.push(elapsed(t, now)),
                None => m.delay_samples,
            },
            last_arrival: Some(now),
            last_accept: Some(now),
            total_runtime_ms: accrued(m, now),
            total_messages: (m.total_messages + 1) as u64,
            out_of_order_events: m.out_of_order_events,
        },
        Arrival::Ahead => ObserverModel {
            expected_seq: (c + 1) as u64,
            missing: m.missing.union(range_set(m.expected_seq, c)),
            delay_samples: m.delay_samples,
            last_arrival: None,
            last_accept: Some(now),
            total_runtime_ms: accrued(m, now),
            total_messages: (m.total_messages + 1) as u64,
            out_of_order_events: (m.out_of_order_events + 1) as u64,
        },
        Arrival::Recovered => ObserverModel {
            expected_seq: (m.expected_seq + 1) as u64,
            missing: m.missing.remove(c),
            delay_samples: m.delay_samples,
            last_arrival: None,
            last_accept: Some(now),
            total_runtime_ms: accrued(m, now),
            total_messages: (m.total_messages + 1) as u64,
            out_of_order_events: m.out_of_order_events,
        },
        _ => m,
    }
}

/// The teardown report of one observer instance.
#[derive(PartialEq, Eq, Structural, Clone, Copy, Debug)]
pub struct Summary {
    pub mean_delay_ms: u64,
    pub median_delay_ms: u64,
    pub throughput_per_sec: u128,
    pub total_messages: u64,
    pub out_of_order_events: u64,
    pub unrecovered_missing_count: u64,
}

pub open spec fn ascending() -> spec_fn(u64, u64) -> bool {
    |a: u64, b: u64| a <= b
}

/// The samples in ascending order.
pub open spec fn sorted_samples(s: Seq<u64>) -> Seq<u64> {
    s.sort_by(ascending())
}

pub open spec fn seq_sum(s: Seq<u64>) -> int
    decreases s.len(),
{
    if s.len() == 0 {
        0
    } else {
        seq_sum(s.drop_last()) + s.last()
    }
}

/// Integer mean of the samples, `0` when there are none.
pub open spec fn mean_of(s: Seq<u64>) -> int {
    if s.len() == 0 {
        0
    } else {
        seq_sum(s) / (s.len() as int)
    }
}

/// The sample at index `floor(len / 2)` of the sorted samples, `0` when there are none.
pub open spec fn median_of(s: Seq<u64>) -> u64 {
    if s.len() == 0 {
        0
    } else {
        sorted_samples(s)[(s.len() / 2) as int]
    }
}

/// Accepted messages per second of accrued running time, `0` when no time accrued.
pub open spec fn throughput_of(total: u64, runtime_ms: u64) -> int {
    if runtime_ms == 0 {
        0
    } else {
        (total * 1000) / (runtime_ms as int)
    }
}

/// Sorts delay samples into ascending order.
pub fn sort_samples(s: &Vec<u64>) -> (r: Vec<u64>)
    ensures
        r@ == sorted_samples(s@),
        r@.len() == s@.len(),
{
    let mut out: Vec<u64> = Vec::new();
    let mut i: usize = 0;
    proof {
        assert(s@.subrange(0, 0) =~= out@);
    }
    while i < s.len()
        invariant
            i <= s@.len(),
            sorted_by(out@, ascending()),
            out@.len() == i,
            out@.to_multiset() == s@.subrange(0, i as int).to_multiset(),
        decreases s@.len() - i,
    {
        let x = s[i];
        let mut pos: usize = 0;
        while pos < out.len() && out[pos] <= x
            invariant
                pos <= out@.len(),
                forall|k: int| 0 <= k < pos ==> #[trigger] out@[k] <= x,
            decreases out@.len() - pos,
        {
            pos = pos + 1;
        }
        let ghost before = out@;
        proof {
            to_multiset_insert(before, pos as int, x);
            assert(s@.subrange(0, i + 1) =~= s@.subrange(0, i as int).push(x));
            to_multiset_build(s@.subrange(0, i as int), x);
        }
        out.insert(pos, x);
        proof {
            assert forall|a: int, b: int| 0 <= a < b < out@.len() implies #[trigger] ascending()(out@[a], out@[b]) by {
                if pos < out@.len() - 1 {
                    assert(x < before[pos as int]);
                }
                if b < pos {
                    assert(ascending()(before[a], before[b]));
                } else if b == pos {
                    assert(out@[a] == before[a]);
                } else if a < pos {
                    assert(out@[b] == before[b - 1]);
                    assert(before[a] <= x);
                    if pos < b - 1 {
                        assert(ascending()(before[pos as int], before[b - 1]));
                    }
                } else if a == pos {
                    assert(out@[b] == before[b - 1]);
                    if pos < b - 1 {
                        assert(ascending()(before[pos as int], before[b - 1]));
                    }
                } else {
                    assert(ascending()(before[a - 1], before[b - 1]));
                }
            }
        }
        i = i + 1;
    }
    proof {
        assert(s@.subrange(0, s@.len() as int) =~= s@);
        assert(total_ordering(ascending()));
        s@.lemma_sort_by_ensures(ascending());
        lemma_sorted_unique(out@, sorted_samples(s@), ascending());
    }
    out
}

fn sum_samples(s: &Vec<u64>) -> (r: u128)
    ensures
        r == seq_sum(s@),
        r <= s@.len() * (u64::MAX as int),
{
    let mut acc: u128 = 0;
    let mut i: usize = 0;
    while i < s.len()
        invariant
            i <= s@.len(),
            acc == seq_sum(s@.subrange(0, i as int)),
            acc <= i * (u64::MAX as int),
        decreases s@.len() - i,
    {
        proof {
            assert(s@.subrange(0, i + 1).drop_last() =~= s@.subrange(0, i as int));
        }
        acc = acc + s[i] as u128;
        i = i + 1;
    }
    proof {
        assert(s@.subrange(0, s@.len() as int) =~= s@);
    }
    acc
}

proof fn lemma_mean_fits(sum: int, len: int)
    requires
        0 <= sum <= len * (u64::MAX as int),
        len > 0,
    ensures
        sum / len <= u64::MAX,
{
    assert(sum / len <= u64::MAX) by (nonlinear_arith)
        requires
            0 <= sum <= len * (u64::MAX as int),
            len > 0,
    ;
}

/// The state after the arrivals `a`, each a value and its arrival time, in order.
pub open spec fn run(m: ObserverModel, a: Seq<(u64, u64)>) -> ObserverModel
    decreases a.len(),
{
    if a.len() == 0 {
        m
    } else {
        next(run(m, a.drop_last()), a.last().0, a.last().1)
    }
}

/// The model of a well-formed observer is well-formed.
pub proof fn lemma_view_wf(s: &ObserverState)
    requires
        s.wf(),
    ensures
        model_wf(s@),
{
    s.missing@.unique_seq_to_set();
}

/// Delivery without gaps or duplicates: values arriving exactly as expected never count
/// as out of order, leave the missing set as it was, and are each counted once.
pub proof fn lemma_in_order_delivery(m: ObserverModel, a: Seq<(u64, u64)>)
    requires
        model_wf(m),
        m.expected_seq + a.len() <= u64::MAX,
        forall|i: int| 0 <= i < a.len() ==> #[trigger] a[i].0 == m.expected_seq + i,
    ensures
        run(m, a).out_of_order_events == m.out_of_order_events,
        run(m, a).missing == m.missing,
        run(m, a).total_messages == m.total_messages + a.len(),
        run(m, a).expected_seq == m.expected_seq + a.len(),
    decreases a.len(),
{
    if a.len() > 0 {
        let p = a.drop_last();
        assert forall|i: int| 0 <= i < p.len() implies #[trigger] p[i].0 == m.expected_seq + i by {
            assert(p[i] == a[i]);
        }
        lemma_in_order_delivery(m, p);
        assert(a.last().0 == m.expected_seq + p.len());
    }
}

proof fn lemma_range_set_len(lo: u64, hi: u64)
    requires
        lo <= hi,
    ensures
        range_set(lo, hi).finite(),
        range_set(lo, hi).len() == hi - lo,
    decreases hi - lo,
{
    if lo == hi {
        assert(range_set(lo, hi) =~= Set::<u64>::empty());
    } else {
        let h = (hi - 1) as u64;
        lemma_range_set_len(lo, h);
        assert(range_set(lo, hi) =~= range_set(lo, h).insert(h));
    }
}

/// A single forward gap: when the value `s + k` arrives while `s` is expected, one
/// out-of-order event is counted, exactly the `k` values `s .. s + k - 1` become
/// missing, and `s + k + 1` is expected next.
pub proof fn lemma_single_gap(m: ObserverModel, k: u64, now: u64)
    requires
        model_wf(m),
        k >= 1,
        m.expected_seq + k < u64::MAX,
    ensures
        next(m, (m.expected_seq + k) as u64, now).out_of_order_events == m.out_of_order_events + 1,
        next(m, (m.expected_seq + k) as u64, now).missing
            == m.missing.union(range_set(m.expected_seq, (m.expected_seq + k) as u64)),
        next(m, (m.expected_seq + k) as u64, now).missing.len() == m.missing.len() + k,
        next(m, (m.expected_seq + k) as u64, now).expected_seq == m.expected_seq + k + 1,
{
    let hi = (m.expected_seq + k) as u64;
    lemma_range_set_len(m.expected_seq, hi);
    assert(m.missing.disjoint(range_set(m.expected_seq, hi)));
    vstd::set_lib::lemma_set_disjoint_lens(m.missing, range_set(m.expected_seq, hi));
}

/// A missing value that arrives late is removed from the missing set once; a second
/// late arrival of the same value changes nothing.
pub proof fn lemma_recover_once(m: ObserverModel, c: u64, t1: u64, t2: u64)
    requires
        model_wf(m),
        m.missing.contains(c),
        m.expected_seq < u64::MAX,
    ensures
        classify(m, c) == Arrival::Recovered,
        next(m, c, t1).missing == m.missing.remove(c),
        classify(next(m, c, t1), c) == Arrival::Ignored,
        next(next(m, c, t1), c, t2) == next(m, c, t1),
{
}

/// Runs compose: the arrivals `a` then `b` lead where `b` leads from the state after `a`.
pub proof fn lemma_run_append(m: ObserverModel, a: Seq<(u64, u64)>, b: Seq<(u64, u64)>)
    ensures
        run(m, a + b) == run(run(m, a), b),
    decreases b.len(),
{
    if b.len() == 0 {
        assert(a + b =~= a);
    } else {
        assert((a + b).drop_last() =~= a + b.drop_last());
        lemma_run_append(m, a, b.drop_last());
    }
}

/// Every arrival keeps the model well-formed.
pub proof fn lemma_next_wf(m: ObserverModel, c: u64, now: u64)
    requires
        model_wf(m),
    ensures
        model_wf(next(m, c, now)),
{
    if classify(m, c) == Arrival::Ahead {
        lemma_range_set_len(m.expected_seq, c);
        assert(m.missing.disjoint(range_set(m.expected_seq, c)));
        vstd::set_lib::lemma_set_disjoint_lens(m.missing, range_set(m.expected_seq, c));
    }
}

/// Exactly one forward gap in an otherwise gapless delivery: in-order values `s0 ..`,
/// then `s + k` where `s` was expected, then in-order values again. One out-of-order
/// event is counted, exactly `s .. s + k - 1` are missing at the end, every other value
/// is counted once, and `s + k + 1` plus the values after the gap is expected next.
pub proof fn lemma_one_gap_run(
    m: ObserverModel,
    before: Seq<(u64, u64)>,
    k: u64,
    now: u64,
    after: Seq<(u64, u64)>,
)
    requires
        model_wf(m),
        k >= 1,
        m.expected_seq + before.len() + k + 1 + after.len() <= u64::MAX,
        forall|i: int| 0 <= i < before.len() ==> #[trigger] before[i].0 == m.expected_seq + i,
        forall|i: int|
            0 <= i < after.len() ==> #[trigger] after[i].0 == m.expected_seq + before.len() + k + 1 + i,
    ensures
        ({
            let s = (m.expected_seq + before.len()) as u64;
            let r = run(m, before + seq![((s + k) as u64, now)] + after);
            &&& r.out_of_order_events == m.out_of_order_events + 1
            &&& r.missing == m.missing.union(range_set(s, (s + k) as u64))
            &&& r.missing.len() == m.missing.len() + k
            &&& r.expected_seq == s + k + 1 + after.len()
            &&& r.total_messages == m.total_messages + before.len() + 1 + after.len()
        }),
{
    let s = (m.expected_seq + before.len()) as u64;
    let gap = seq![((s + k) as u64, now)];
    lemma_in_order_delivery(m, before);
    let m1 = run(m, before);
    lemma_run_wf(m, before);
    lemma_single_gap(m1, k, now);
    lemma_next_wf(m1, (s + k) as u64, now);
    let m2 = next(m1, (s + k) as u64, now);
    assert(run(m1, gap) == next(run(m1, gap.drop_last()), gap.last().0, gap.last().1));
    assert(gap.drop_last() =~= Seq::<(u64, u64)>::empty());
    lemma_run_append(m, before, gap);
    lemma_run_append(m, before + gap, after);
    lemma_in_order_delivery(m2, after);
}

/// Any run keeps the model well-formed.
pub proof fn lemma_run_wf(m: ObserverModel, a: Seq<(u64, u64)>)
    requires
        model_wf(m),
    ensures
        model_wf(run(m, a)),
    decreases a.len(),
{
    if a.len() > 0 {
        lemma_run_wf(m, a.drop_last());
        lemma_next_wf(run(m, a.drop_last()), a.last().0, a.last().1);
    }
}

/// A value that lies below the expected one and is not missing stays so under any
/// further arrivals, and arriving again it is ignored and changes nothing.
pub proof fn lemma_recovered_stays_out(m: ObserverModel, v: u64, a: Seq<(u64, u64)>, t: u64)
    requires
        !m.missing.contains(v),
        v < m.expected_seq,
    ensures
        !run(m, a).missing.contains(v),
        v < run(m, a).expected_seq,
        classify(run(m, a), v) == Arrival::Ignored,
        next(run(m, a), v, t) == run(m, a),
    decreases a.len(),
{
    if a.len() > 0 {
        lemma_recovered_stays_out(m, v, a.drop_last(), t);
    }
}

/// Recovery happens once: after a missing value `v` is recovered, whatever arrives in
/// between, a second late `v` is ignored and changes nothing.
pub proof fn lemma_recovery_is_idempotent(m: ObserverModel, v: u64, t1: u64, between: Seq<(u64, u64)>, t2: u64)
    requires
        model_wf(m),
        m.missing.contains(v),
        m.expected_seq < u64::MAX,
    ensures
        classify(run(next(m, v, t1), between), v) == Arrival::Ignored,
        next(run(next(m, v, t1), between), v, t2) == run(next(m, v, t1), between),
{
    lemma_recover_once(m, v, t1, t2);
    lemma_recovered_stays_out(next(m, v, t1), v, between, t2);
}

/// The sequence and latency statistics of one observer instance.
pub struct ObserverState {
    pub expected_seq: u64,
    pub missing: Vec<u64>,
    pub delay_samples: Vec<u64>,
    pub last_arrival: Option<u64>,
    pub last_accept: Option<u64>,
    pub total_runtime_ms: u64,
    pub total_messages: u64,
    pub out_of_order_events: u64,
}

impl View for ObserverState {
    type V = ObserverModel;

    open spec fn view(&self) -> ObserverModel {
        ObserverModel {
            expected_seq: self.expected_seq,
            missing: self.missing@.to_set(),
            delay_samples: self.delay_samples@,
            last_arrival: self.last_arrival,
            last_accept: self.last_accept,
            total_runtime_ms: self.total_runtime_ms,
            total_messages: self.total_messages,
            out_of_order_events: self.out_of_order_events,
        }
    }
}

proof fn lemma_remove_to_set(s: Seq<u64>, i: int, bound: u64)
    requires
        0 <= i < s.len(),
        s.no_duplicates(),
        forall|j: int| 0 <= j < s.len() ==> #[trigger] s[j] < bound,
    ensures
        s.remove(i).no_duplicates(),
        s.remove(i).to_set() =~= s.to_set().remove(s[i]),
        forall|k: int| 0 <= k < s.remove(i).len() ==> #[trigger] s.remove(i)[k] < bound,
{
    let r = s.remove(i);
    s.remove_ensures(i);
    assert forall|k: int| 0 <= k < r.len() implies #[trigger] r[k] < bound by {
        if k < i {
            assert(r[k] == s[k]);
        } else {
            assert(r[k] == s[k + 1]);
        }
    }
    assert forall|a: int, b: int| 0 <= a < r.len() && 0 <= b < r.len() && a != b implies r[a] != r[b] by {
        let sa = if a < i { a } else { a + 1 };
        let sb = if b < i { b } else { b + 1 };
        assert(r[a] == s[sa]);
        assert(r[b] == s[sb]);
    }
    assert forall|x: u64| r.to_set().contains(x) <==> s.to_set().remove(s[i]).contains(x) by {
        if r.contains(x) {
            let k = choose|k: int| 0 <= k < r.len() && r[k] == x;
            if k < i {
                assert(r[k] == s[k]);
                assert(s.contains(x));
            } else {
                assert(r[k] == s[k + 1]);
                assert(s.contains(x));
            }
        }
        if s.contains(x) && x != s[i] {
            let j = choose|j: int| 0 <= j < s.len() && s[j] == x;
            if j < i {
                assert(r[j] == x);
            } else {
                assert(r[j - 1] == x);
            }
        }
    }
}

impl ObserverState {
    /// Internal consistency: missing values are distinct, lie below the expected
    /// sequence number, and the counters never exceed what the sequence allows.
    pub open spec fn wf(&self) -> bool {
        &&& self.missing@.no_duplicates()
        &&& forall|i: int| 0 <= i < self.missing@.len() ==> #[trigger] self.missing@[i] < self.expected_seq
        &&& self.total_messages + self.missing@.len() <= self.expected_seq
        &&& self.out_of_order_events <= self.total_messages
    }

    /// A fresh observer: nothing expected but `0`, nothing missing, no samples.
    pub fn new() -> (r: ObserverState)
        ensures
            r.wf(),
            r@.expected_seq == 0,
            r@.missing.is_empty(),
            r@.delay_samples.len() == 0,
            r@.last_arrival is None,
            r@.last_accept is None,
            r@.total_runtime_ms == 0,
            r@.total_messages == 0,
            r@.out_of_order_events == 0,
    {
        let r = ObserverState {
            expected_seq: 0,
            missing: Vec::new(),
            delay_samples: Vec::new(),
            last_arrival: None,
            last_accept: None,
            total_runtime_ms: 0,
            total_messages: 0,
            out_of_order_events: 0,
        };
        assert(r@.missing =~= Set::<u64>::empty());
        r
    }

    /// Number of missing values that have not been recovered.
    pub fn unrecovered_missing_count(&self) -> (r: usize)
        requires
            self.wf(),
        ensures
            r == self@.missing.len(),
    {
        proof {
            self.missing@.unique_seq_to_set();
        }
        self.missing.len()
    }

    /// The report at teardown: delay statistics over the samples, throughput over the
    /// accrued running time, and the counters.
    pub fn finish(&self) -> (r: Summary)
        requires
            self.wf(),
        ensures
            r.mean_delay_ms == mean_of(self@.delay_samples),
            r.median_delay_ms == median_of(self@.delay_samples),
            r.throughput_per_sec == throughput_of(self@.total_messages, self@.total_runtime_ms),
            r.total_messages == self@.total_messages,
            r.out_of_order_events == self@.out_of_order_events,
            r.unrecovered_missing_count == self@.missing.len(),
    {
        let sorted = sort_samples(&self.delay_samples);
        let n = sorted.len();
        let mut mean: u64 = 0;
        let mut median: u64 = 0;
        if n > 0 {
            let total = sum_samples(&self.delay_samples);
            proof {
                lemma_mean_fits(total as int, n as int);
            }
            mean = (total / (n as u128)) as u64;
            median = sorted[n / 2];
        }
        let throughput: u128 = if self.total_runtime_ms == 0 {
            0
        } else {
            (self.total_messages as u128) * 1000 / (self.total_runtime_ms as u128)
        };
        let missing = self.unrecovered_missing_count();
        Summary {
            mean_delay_ms: mean,
            median_delay_ms: median,
            throughput_per_sec: throughput,
            total_messages: self.total_messages,
            out_of_order_events: self.out_of_order_events,
            unrecovered_missing_count: missing as u64,
        }
    }

    fn accrue(&mut self, now: u64)
        ensures
            final(self).total_runtime_ms == accrued(old(self)@, now),
            final(self).last_accept == Some(now),
            final(self).expected_seq == old(self).expected_seq,
            final(self).missing == old(self).missing,
            final(self).delay_samples == old(self).delay_samples,
            final(self).last_arrival == old(self).last_arrival,
            final(self).total_messages == old(self).total_messages,
            final(self).out_of_order_events == old(self).out_of_order_events,
    {
        match self.last_accept {
            Some(t) => {
                self.total_runtime_ms = self.total_runtime_ms.saturating_add(now.saturating_sub(t));
            },
            None => {},
        }
        self.last_accept = Some(now);
    }

    fn find_missing(&self, c: u64) -> (r: Option<usize>)
        ensures
            match r {
                Some(i) => i < self.missing@.len() && self.missing@[i as int] == c,
                None => !self.missing@.contains(c),
            },
    {
        let mut i: usize = 0;
        while i < self.missing.len()
            invariant
                i <= self.missing@.len(),
                forall|j: int| 0 <= j < i ==> self.missing@[j] != c,
            decreases self.missing@.len() - i,
        {
            if self.missing[i] == c {
                return Some(i);
            }
            i = i + 1;
        }
        None
    }

    /// Applies one received counter value `c`, arriving at time `now` in milliseconds.
    pub fn on_receive(&mut self, c: u64, now: u64) -> (r: Arrival)
        requires
            old(self).wf(),
        ensures
            final(self).wf(),
            r == classify(old(self)@, c),
            final(self)@ == next(old(self)@, c, now),
            final(self).expected_seq >= old(self).expected_seq,
    {
        proof {
            self.missing@.unique_seq_to_set();
        }
        if c == self.expected_seq {
            if self.expected_seq == u64::MAX {
                return Arrival::Overflow;
            }
            match self.last_arrival {
                Some(t) => {
                    self.delay_samples.push(now.saturating_sub(t));
                },
                None => {},
            }
            self.accrue(now);
            self.last_arrival = Some(now);
            self.total_messages = self.total_messages + 1;
            self.expected_seq = self.expected_seq + 1;
            Arrival::InOrder
        } else if c > self.expected_seq {
            if c == u64::MAX {
                return Arrival::Overflow;
            }
            let e = self.expected_seq;
            let ghost old_missing = self.missing@;
            let ghost start = *self;
            let mut v: u64 = e;
            while v < c
                invariant
                    e <= v <= c,
                    self.missing@.no_duplicates(),
                    self.missing@.len() == old_missing.len() + (v - e),
                    forall|i: int| 0 <= i < self.missing@.len() ==> #[trigger] self.missing@[i] < v
                        || (old_missing.len() <= i && self.missing@[i] < v),
                    self.missing@.to_set() =~= old_missing.to_set().union(range_set(e, v)),
                    forall|i: int| 0 <= i < old_missing.len() ==> #[trigger] old_missing[i] < e,
                    self.expected_seq == start.expected_seq,
                    self.delay_samples == start.delay_samples,
                    self.last_arrival == start.last_arrival,
                    self.last_accept == start.last_accept,
                    self.total_runtime_ms == start.total_runtime_ms,
                    self.total_messages == start.total_messages,
                    self.out_of_order_events == start.out_of_order_events,
                decreases c - v,
            {
                let ghost before = self.missing@;
                proof {
                    before.lemma_push_to_set_commute(v);
                }
                self.missing.push(v);
                proof {
                    assert(self.missing@.to_set() =~= old_missing.to_set().union(range_set(e, (v + 1) as u64)));
                }
                v = v + 1;
            }
            self.accrue(now);
            self.out_of_order_events = self.out_of_order_events + 1;
            self.total_messages = self.total_messages + 1;
            self.expected_seq = c + 1;
            self.last_arrival = None;
            Arrival::Ahead
        } else {
            match self.find_missing(c) {
                Some(i) => {
                    if self.expected_seq == u64::MAX {
                        return Arrival::Overflow;
                    }
                    proof {
                        lemma_remove_to_set(self.missing@, i as int, self.expected_seq);
                    }
                    self.missing.remove(i);
                    self.accrue(now);
                    self.total_messages = self.total_messages + 1;
                    self.expected_seq = self.expected_seq + 1;
                    self.last_arrival = None;
                    Arrival::Recovered
                },
                None => Arrival::Ignored,
            }
        }
    }
}

} // verus!
