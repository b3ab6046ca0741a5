use vstd::prelude::*;

verus! {

/// How one request ended: a response after the given number of
/// milliseconds, or a failure with no response.
#[derive(Clone, Copy, Debug, PartialEq, Eq)]
pub enum Outcome {
    Success(u64),
    Failure,
}

/// The latencies of the successful outcomes, in the order given.
pub open spec fn success_latencies(o: Seq<Outcome>) -> Seq<u64>
    decreases o.len(),
{
    if o.len() == 0 {
        Seq::empty()
    } else {
        let rest = success_latencies(o.drop_last());
        match o.last() {
            Outcome::Success(ms) => rest.push(ms),
            Outcome::Failure => rest,
        }
    }
}

/// The number of failed outcomes.
pub open spec fn failure_count(o: Seq<Outcome>) -> nat
    decreases o.len(),
{
    if o.len() == 0 {
        0
    } else {
        failure_count(o.drop_last()) + if o.last() is Failure {
            1nat
        } else {
            0nat
        }
    }
}

/// Every outcome counts once, as a success or as a failure.
pub proof fn outcomes_partition(o: Seq<Outcome>)
    ensures
        success_latencies(o).len() + failure_count(o) == o.len(),
    decreases o.len(),
{
    if o.len() > 0 {
        outcomes_partition(o.drop_last());
    }
}

/// What a run has recorded, as numbers: the errors counted and the latency
/// of each success.
pub struct ResultsModel {
    pub error_count: nat,
    pub latencies: Seq<u64>,
}

impl ResultsModel {
    /// Successes are counted by their latencies: one each.
    pub open spec fn success_count(self) -> nat {
        self.latencies.len()
    }
}

/// What a run has recorded so far: one latency for each success, and a
/// count of successes and of errors.
pub struct Results {
    success_count: u64,
    error_count: u64,
    latencies: Vec<u64>,
}

impl View for Results {
    type V = ResultsModel;

    closed spec fn view(&self) -> ResultsModel {
        ResultsModel {
            error_count: self.error_count as nat,
            latencies: self.latencies@,
        }
    }
}

impl Results {
    #[verifier::type_invariant]
    spec fn inv(&self) -> bool {
        self.latencies@.len() == self.success_count
    }

    /// Nothing recorded.
    pub fn new() -> (r: Results)
        ensures
            r@.error_count == 0,
            r@.latencies == Seq::<u64>::empty(),
    {
        Results { success_count: 0, error_count: 0, latencies: Vec::new() }
    }

    /// The number of requests that got a response: exactly the number of
    /// latencies recorded.
    pub fn success_count(&self) -> (r: u64)
        ensures
            r == self@.success_count(),
            r == self@.latencies.len(),
    {
        proof {
            use_type_invariant(self);
        }
        self.success_count
    }

    /// The number of requests that failed.
    pub fn error_count(&self) -> (r: u64)
        ensures
            r == self@.error_count,
    {
        self.error_count
    }

    /// The latency of each success, in milliseconds, in the order recorded.
    pub fn latencies(&self) -> (r: &Vec<u64>)
        ensures
            r@ == self@.latencies,
    {
        &self.latencies
    }

    /// Records a response that came after `latency_ms` milliseconds.
    pub fn record_success(&mut self, latency_ms: u64)
        requires
            old(self)@.success_count() < u64::MAX,
        ensures
            final(self)@.error_count == old(self)@.error_count,
            final(self)@.latencies == old(self)@.latencies.push(latency_ms),
    {
        let mut current = Results::new();
        std::mem::swap(self, &mut current);
        proof {
            use_type_invariant(&current);
        }
        let Results { success_count, error_count, mut latencies } = current;
        latencies.push(latency_ms);
        *self = Results { success_count: success_count + 1, error_count, latencies };
    }

    /// Records a request that got no response.
    pub fn record_error(&mut self)
        requires
            old(self)@.error_count < u64::MAX,
        ensures
            final(self)@.error_count == old(self)@.error_count + 1,
            final(self)@.latencies == old(self)@.latencies,
    {
        proof {
            use_type_invariant(&*self);
        }
        self.error_count = self.error_count + 1;
    }

    /// Records one outcome.
    pub fn record_outcome(&mut self, outcome: Outcome)
        requires
            old(self)@.success_count() < u64::MAX,
            old(self)@.error_count < u64::MAX,
        ensures
            final(self)@.error_count == old(self)@.error_count + if outcome is Failure {
                1nat
            } else {
                0nat
            },
            final(self)@.latencies == match outcome {
                Outcome::Success(ms) => old(self)@.latencies.push(ms),
                Outcome::Failure => old(self)@.latencies,
            },
    {
        match outcome {
            Outcome::Success(ms) => self.record_success(ms),
            Outcome::Failure => self.record_error(),
        }
    }
}

/// The results of a run whose requests ended as `outcomes`: every outcome is
/// counted once, and the latency of each success is kept in order.
pub fn aggregate(outcomes: &Vec<Outcome>) -> (r: Results)
    ensures
        r@.error_count == failure_count(outcomes@),
        r@.latencies == success_latencies(outcomes@),
        r@.success_count() + r@.error_count == outcomes.len(),
{
    let mut r = Results::new();
    let mut i: usize = 0;
    while i < outcomes.len()
        invariant
            i <= outcomes.len(),
            r@.error_count == failure_count(outcomes@.take(i as int)),
            r@.latencies == success_latencies(outcomes@.take(i as int)),
        decreases outcomes.len() - i,
    {
        proof {
            assert(outcomes@.take(i + 1).drop_last() =~= outcomes@.take(i as int));
            outcomes_partition(outcomes@.take(i as int));
        }
        r.record_outcome(outcomes[i]);
        i = i + 1;
    }
    proof {
        assert(outcomes@.take(i as int) =~= outcomes@);
        outcomes_partition(outcomes@);
    }
    r
}

/// The sum of the latencies.
pub open spec fn latency_sum(s: Seq<u64>) -> nat
    decreases s.len(),
{
    if s.len() == 0 {
        0
    } else {
        latency_sum(s.drop_last()) + s.last() as nat
    }
}

/// The least latency of a non-empty sequence.
pub open spec fn latency_min(s: Seq<u64>) -> u64
    recommends
        s.len() > 0,
    decreases s.len(),
{
    if s.len() <= 1 {
        s[0]
    } else {
        let m = latency_min(s.drop_last());
        if s.last() < m {
            s.last()
        } else {
            m
        }
    }
}

/// The greatest latency of a non-empty sequence.
pub open spec fn latency_max(s: Seq<u64>) -> u64
    recommends
        s.len() > 0,
    decreases s.len(),
{
    if s.len() <= 1 {
        s[0]
    } else {
        let m = latency_max(s.drop_last());
        if s.last() > m {
            s.last()
        } else {
            m
        }
    }
}

proof fn lemma_sum_bound(s: Seq<u64>)
    ensures
        latency_sum(s) <= s.len() * u64::MAX,
    decreases s.len(),
{
    if s.len() > 0 {
        lemma_sum_bound(s.drop_last());
        assert((s.len() - 1) * u64::MAX + u64::MAX == s.len() * u64::MAX) by (nonlinear_arith);
    }
}

/// The least latency is one of them and no other is below it.
pub proof fn min_is_least(s: Seq<u64>)
    requires
        s.len() > 0,
    ensures
        s.contains(latency_min(s)),
        forall|i: int| 0 <= i < s.len() ==> latency_min(s) <= #[trigger] s[i],
    decreases s.len(),
{
    if s.len() > 1 {
        min_is_least(s.drop_last());
        if s.last() >= latency_min(s.drop_last()) {
            let j = choose|j: int|
                0 <= j < s.drop_last().len() && s.drop_last()[j] == latency_min(s.drop_last());
            assert(s[j] == latency_min(s));
        }
        assert forall|i: int| 0 <= i < s.len() implies latency_min(s) <= #[trigger] s[i] by {
            if i < s.len() - 1 {
                assert(s[i] == s.drop_last()[i]);
            }
        }
    } else {
        assert(s[0] == latency_min(s));
    }
}

/// The greatest latency is one of them and no other is above it.
pub proof fn max_is_greatest(s: Seq<u64>)
    requires
        s.len() > 0,
    ensures
        s.contains(latency_max(s)),
        forall|i: int| 0 <= i < s.len() ==> #[trigger] s[i] <= latency_max(s),
    decreases s.len(),
{
    if s.len() > 1 {
        max_is_greatest(s.drop_last());
        if s.last() <= latency_max(s.drop_last()) {
            let j = choose|j: int|
                0 <= j < s.drop_last().len() && s.drop_last()[j] == latency_max(s.drop_last());
            assert(s[j] == latency_max(s));
        }
        assert forall|i: int| 0 <= i < s.len() implies #[trigger] s[i] <= latency_max(s) by {
            if i < s.len() - 1 {
                assert(s[i] == s.drop_last()[i]);
            }
        }
    } else {
        assert(s[0] == latency_max(s));
    }
}

/// The mean latency, rounded down: `None` when there is none.
pub fn average_latency(latencies: &Vec<u64>) -> (r: Option<u64>)
    ensures
        latencies.len() == 0 ==> r is None,
        latencies.len() > 0 ==> r == Some((latency_sum(latencies@) / (latencies.len() as nat)) as u64),
        latencies.len() > 0 ==> latency_sum(latencies@) / (latencies.len() as nat) <= u64::MAX,
{
    let n = latencies.len();
    if n == 0 {
        return None;
    }
    let mut total: u128 = 0;
    let mut i: usize = 0;
    while i < n
        invariant
            i <= n,
            n == latencies.len(),
            total == latency_sum(latencies@.take(i as int)),
        decreases n - i,
    {
        proof {
            assert(latencies@.take(i + 1).drop_last() =~= latencies@.take(i as int));
            lemma_sum_bound(latencies@.take(i + 1));
            assert((i + 1) * u64::MAX <= u64::MAX * u64::MAX) by (nonlinear_arith)
                requires
                    i + 1 <= u64::MAX,
            ;
        }
        total = total + latencies[i] as u128;
        i = i + 1;
    }
    proof {
        assert(latencies@.take(i as int) =~= latencies@);
        lemma_sum_bound(latencies@);
        let t = latency_sum(latencies@);
        assert(t / (n as nat) <= u64::MAX) by (nonlinear_arith)
            requires
                t <= n * u64::MAX,
                n > 0,
        ;
    }
    Some((total / (n as u128)) as u64)
}

/// The least latency: `None` when there is none.
pub fn minimum_latency(latencies: &Vec<u64>) -> (r: Option<u64>)
    ensures
        latencies.len() == 0 ==> r is None,
        latencies.len() > 0 ==> r == Some(latency_min(latencies@)),
        r matches Some(m) ==> latencies@.contains(m) && forall|i: int|
            0 <= i < latencies.len() ==> m <= #[trigger] latencies@[i],
{
    let n = latencies.len();
    if n == 0 {
        return None;
    }
    let mut best = latencies[0];
    let mut i: usize = 1;
    while i < n
        invariant
            1 <= i <= n,
            n == latencies.len(),
            best == latency_min(latencies@.take(i as int)),
        decreases n - i,
    {
        proof {
            assert(latencies@.take(i + 1).drop_last() =~= latencies@.take(i as int));
        }
        if latencies[i] < best {
            best = latencies[i];
        }
        i = i + 1;
    }
    proof {
        assert(latencies@.take(i as int) =~= latencies@);
        min_is_least(latencies@);
    }
    Some(best)
}

/// The greatest latency: `None` when there is none.
pub fn maximum_latency(latencies: &Vec<u64>) -> (r: Option<u64>)
    ensures
        latencies.len() == 0 ==> r is None,
        latencies.len() > 0 ==> r == Some(latency_max(latencies@)),
        r matches Some(m) ==> latencies@.contains(m) && forall|i: int|
            0 <= i < latencies.len() ==> #[trigger] latencies@[i] <= m,
{
    let n = latencies.len();
    if n == 0 {
        return None;
    }
    let mut best = latencies[0];
    let mut i: usize = 1;
    while i < n
        invariant
            1 <= i <= n,
            n == latencies.len(),
            best == latency_max(latencies@.take(i as int)),
        decreases n - i,
    {
        proof {
            assert(latencies@.take(i + 1).drop_last() =~= latencies@.take(i as int));
        }
        if latencies[i] > best {
            best = latencies[i];
        }
        i = i + 1;
    }
    proof {
        assert(latencies@.take(i as int) =~= latencies@);
        max_is_greatest(latencies@);
    }
    Some(best)
}

/// Average, least and greatest latency of a run, in milliseconds.
#[derive(Clone, Copy, Debug, PartialEq, Eq)]
pub struct LatencySummary {
    pub average_ms: u64,
    pub min_ms: u64,
    pub max_ms: u64,
}

/// What the report of a run shows: its counts, and its latencies summed up
/// where at least one request succeeded.
#[derive(Clone, Copy, Debug, PartialEq, Eq)]
pub struct Summary {
    pub success_count: u64,
    pub error_count: u64,
    pub latency: Option<LatencySummary>,
}

/// The summary of what a run recorded.
pub open spec fn summary_of(m: ResultsModel) -> Summary {
    Summary {
        success_count: m.success_count() as u64,
        error_count: m.error_count as u64,
        latency: if m.latencies.len() == 0 {
            None
        } else {
            Some(
                LatencySummary {
                    average_ms: (latency_sum(m.latencies) / m.latencies.len()) as u64,
                    min_ms: latency_min(m.latencies),
                    max_ms: latency_max(m.latencies),
                },
            )
        },
    }
}

/// Reduces what a run recorded to the figures of its report. With no
/// success there is no latency summary.
pub fn summarize(results: &Results) -> (r: Summary)
    ensures
        r == summary_of(results@),
        r.success_count == results@.success_count(),
        r.error_count == results@.error_count,
        r.latency is None <==> results@.success_count() == 0,
{
    let success_count = results.success_count();
    let latencies = results.latencies();
    let latency = match (
        average_latency(latencies),
        minimum_latency(latencies),
        maximum_latency(latencies),
    ) {
        (Some(average_ms), Some(min_ms), Some(max_ms)) => Some(
            LatencySummary { average_ms, min_ms, max_ms },
        ),
        _ => None,
    };
    Summary { success_count, error_count: results.error_count(), latency }
}

/// A summary depends on what was recorded alone: summing up one snapshot
/// twice, or two equal snapshots, gives the same report.
pub proof fn summary_is_repeatable(a: ResultsModel, b: ResultsModel)
    requires
        a == b,
    ensures
        summary_of(a) == summary_of(b),
{
}

} // verus!
