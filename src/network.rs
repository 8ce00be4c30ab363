//! Network sampler: converts two reads of cumulative byte counters, taken a
//! known interval apart, into bit rates.

use vstd::prelude::*;
use crate::disk::saturate;
use vstd::arithmetic::div_mod::lemma_div_denominator;

verus! {

/// Cumulative byte counters of one interface, read before and after the
/// sampling interval.
pub struct InterfaceCounters {
    pub rx_before: u64,
    pub rx_after: u64,
    pub tx_before: u64,
    pub tx_after: u64,
}

/// Bits per second for a byte counter that went from `before` to `after`
/// over `interval_ms` milliseconds. A counter that went backwards (reset)
/// or an interval of no length gives no estimate, i.e. zero.
pub open spec fn rate_of(before: u64, after: u64, interval_ms: u64) -> nat {
    if before <= after && interval_ms > 0 {
        ((after - before) as nat * 8 * 1000) / (interval_ms as nat)
    } else {
        0
    }
}

/// The rate as a `u64`, saturating.
pub open spec fn reported_rate(before: u64, after: u64, interval_ms: u64) -> u64 {
    saturate(rate_of(before, after, interval_ms))
}

/// The rate is the bit delta divided by the interval used: the same byte
/// delta observed over `k` times the interval gives `k` times less, up to
/// truncation.
pub proof fn lemma_rate_scales_with_interval(before: u64, after: u64, interval_ms: u64, k: u64)
    requires
        interval_ms > 0,
        k > 0,
        k * interval_ms <= u64::MAX,
    ensures
        rate_of(before, after, (k * interval_ms) as u64) == rate_of(before, after, interval_ms) / (k as nat),
{
    if before <= after {
        let bits = (after - before) as nat * 8 * 1000;
        lemma_div_denominator(bits as int, interval_ms as int, k as int);
        assert(interval_ms as int * k as int == (k * interval_ms) as int) by (nonlinear_arith);
    }
}

/// Bits per second for one counter (see `rate_of`).
pub fn bit_rate(before: u64, after: u64, interval_ms: u64) -> (r: u64)
    ensures
        r == reported_rate(before, after, interval_ms),
{
    if before <= after && interval_ms > 0 {
        let delta: u128 = (after - before) as u128;
        proof {
            assert(delta * 8000 <= 0xffff_ffff_ffff_ffff * 8000) by (nonlinear_arith)
                requires
                    delta <= 0xffff_ffff_ffff_ffff,
            ;
        }
        let bits_per_sec: u128 = delta * 8000 / (interval_ms as u128);
        assert(delta * 8 * 1000 == delta * 8000);
        if bits_per_sec <= u64::MAX as u128 {
            bits_per_sec as u64
        } else {
            u64::MAX
        }
    } else {
        0
    }
}

/// `(receive, transmit)` bit rates of every interface, in the order given.
pub fn network_usage(interfaces: &Vec<InterfaceCounters>, interval_ms: u64) -> (r: Vec<(u64, u64)>)
    ensures
        r@.len() == interfaces@.len(),
        forall|i: int|
            0 <= i < r@.len() ==> (#[trigger] r@[i]) == (
                reported_rate(interfaces@[i].rx_before, interfaces@[i].rx_after, interval_ms),
                reported_rate(interfaces@[i].tx_before, interfaces@[i].tx_after, interval_ms),
            ),
{
    let mut rates: Vec<(u64, u64)> = Vec::new();
    let mut i: usize = 0;
    while i < interfaces.len()
        invariant
            i <= interfaces@.len(),
            rates@.len() == i,
            forall|j: int|
                0 <= j < i ==> (#[trigger] rates@[j]) == (
                    reported_rate(interfaces@[j].rx_before, interfaces@[j].rx_after, interval_ms),
                    reported_rate(interfaces@[j].tx_before, interfaces@[j].tx_after, interval_ms),
                ),
        decreases interfaces@.len() - i,
    {
        let c = &interfaces[i];
        let rx = bit_rate(c.rx_before, c.rx_after, interval_ms);
        let tx = bit_rate(c.tx_before, c.tx_after, interval_ms);
        rates.push((rx, tx));
        i = i + 1;
    }
    rates
}

} // verus!
