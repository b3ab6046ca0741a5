use vstd::prelude::*;

verus! {

/// Whole milliseconds between two consecutive requests at `rate` requests per second.
pub open spec fn unit_delay_ms(rate: nat) -> nat
    recommends
        rate > 0,
{
    1000nat / rate
}

/// Milliseconds after the start of dispatch at which request `index` fires.
pub open spec fn delay_ms(rate: nat, index: nat) -> nat
    recommends
        rate > 0,
{
    index * unit_delay_ms(rate)
}

/// The delay, in milliseconds, before request `request_count` of a run at
/// `query_per_second` requests per second: the spacing `1000 / rate`,
/// truncated to whole milliseconds, times the request's index.
pub fn delay_between_queries(query_per_second: usize, request_count: usize) -> (r: u64)
    requires
        query_per_second > 0,
        delay_ms(query_per_second as nat, request_count as nat) <= u64::MAX,
    ensures
        r == delay_ms(query_per_second as nat, request_count as nat),
{
    let unit: u64 = (1000 / query_per_second) as u64;
    proof {
        assert(unit == unit_delay_ms(query_per_second as nat));
    }
    (request_count as u64) * unit
}

/// Later requests never fire before earlier ones.
pub proof fn delay_is_monotonic(rate: nat, i: nat, j: nat)
    requires
        rate > 0,
        i <= j,
    ensures
        delay_ms(rate, i) <= delay_ms(rate, j),
{
    assert(i * unit_delay_ms(rate) <= j * unit_delay_ms(rate)) by (nonlinear_arith)
        requires
            i <= j,
    ;
}

/// One request of a run: its index and when, after the start of dispatch, it fires.
#[derive(Clone, Copy, Debug, PartialEq, Eq)]
pub struct ScheduledRequest {
    pub index: usize,
    pub fire_after_ms: u64,
}

/// Whether `s` schedules exactly `count` requests, the one at position `i`
/// having index `i` and firing `delay_ms(rate, i)` after the start.
pub open spec fn is_schedule(s: Seq<ScheduledRequest>, count: nat, rate: nat) -> bool {
    &&& s.len() == count
    &&& forall|i: int|
        0 <= i < s.len() ==> {
            &&& (#[trigger] s[i]).index == i
            &&& s[i].fire_after_ms == delay_ms(rate, i as nat)
        }
}

/// One scheduled request for each index in `0..count`, in index order.
pub fn schedule_requests(count: usize, rate: usize) -> (r: Vec<ScheduledRequest>)
    requires
        rate > 0,
        count > 0 ==> delay_ms(rate as nat, (count - 1) as nat) <= u64::MAX,
    ensures
        is_schedule(r@, count as nat, rate as nat),
{
    let mut r: Vec<ScheduledRequest> = Vec::new();
    let mut i: usize = 0;
    while i < count
        invariant
            i <= count,
            rate > 0,
            count > 0 ==> delay_ms(rate as nat, (count - 1) as nat) <= u64::MAX,
            is_schedule(r@, i as nat, rate as nat),
        decreases count - i,
    {
        proof {
            delay_is_monotonic(rate as nat, i as nat, (count - 1) as nat);
        }
        let fire_after_ms = delay_between_queries(rate, i);
        r.push(ScheduledRequest { index: i, fire_after_ms });
        i = i + 1;
    }
    r
}

/// The approximate length of a run in whole seconds: `count / rate`.
pub fn estimated_seconds(request_count: usize, requests_per_second: usize) -> (r: usize)
    requires
        requests_per_second > 0,
    ensures
        r == request_count / requests_per_second,
{
    request_count / requests_per_second
}

} // verus!
