//! Scheduler statistics: averages, integer jitter (the standard deviation
//! from a sum and a sum of squares, with saturating subtraction), the
//! late-frame percentage, and the fixed-schema CSV export.

use vstd::prelude::*;

use crate::textnum::dec_bytes;
use crate::textnum::u64_to_dec;

verus! {

/// One statistics sample per slow tick, as exported to the CSV log.
#[derive(Debug, Clone, Copy, PartialEq, Eq, Structural)]
pub struct SchedulerStats {
    pub timestamp_ms: u64,
    pub gaming_tasks: u64,
    pub latency_avg_us: u64,
    pub latency_max_us: u64,
    pub jitter_us: u64,
    pub late_pct: u64,
    pub preemptions: u64,
    pub cluster0_tasks: u64,
    pub cluster1_tasks: u64,
}

/// The integer square root: the largest `r` with `r * r <= x`.
pub fn isqrt(x: u128) -> (r: u64)
    ensures
        (r as nat) * (r as nat) <= x,
        x < ((r as nat) + 1) * ((r as nat) + 1),
{
    let mut lo: u64 = 0;
    let mut hi: u64 = 0xffff_ffff_ffff_ffff;
    // Invariant: lo * lo <= x and (hi + 1)^2 > x.
    proof {
        assert(0xffff_ffff_ffff_ffffu64 as nat + 1 == 0x1_0000_0000_0000_0000);
        assert((0x1_0000_0000_0000_0000 as int) * (0x1_0000_0000_0000_0000 as int)
            == 0x1_0000_0000_0000_0000_0000_0000_0000_0000);
        assert(x < 0x1_0000_0000_0000_0000_0000_0000_0000_0000);
    }
    while lo < hi
        invariant
            lo <= hi,
            (lo as nat) * (lo as nat) <= x,
            x < ((hi as nat) + 1) * ((hi as nat) + 1),
        decreases hi - lo,
    {
        let mid: u64 = hi - (hi - lo) / 2;
        proof {
            vstd::arithmetic::mul::lemma_mul_upper_bound(
                mid as int,
                0xffff_ffff_ffff_ffff,
                mid as int,
                0xffff_ffff_ffff_ffff,
            );
            assert((0xffff_ffff_ffff_ffff as int) * (0xffff_ffff_ffff_ffff as int)
                < 0x1_0000_0000_0000_0000_0000_0000_0000_0000);
        }
        if (mid as u128) * (mid as u128) <= x {
            lo = mid;
        } else {
            hi = mid - 1;
            proof {
                assert(x < (mid as nat) * (mid as nat));
            }
        }
    }
    lo
}

/// The average of a sum over a count (zero for an empty count).
pub open spec fn spec_avg(sum: u64, count: u64) -> u64 {
    if count == 0 {
        0u64
    } else {
        (sum as nat / count as nat) as u64
    }
}

/// The average of a counter sum over its count.
pub fn avg(sum: u64, count: u64) -> (r: u64)
    ensures
        r == spec_avg(sum, count),
{
    if count == 0 {
        0
    } else {
        sum / count
    }
}

/// The jitter a latency sum and sum of squares show: the integer square
/// root of `max(0, sum_sq/n - (sum/n)^2)`.
pub open spec fn spec_variance(sum: u64, sum_sq: u64, n: u64) -> nat {
    if n == 0 {
        0
    } else {
        let mean = sum as nat / n as nat;
        let mean_sq = sum_sq as nat / n as nat;
        if mean_sq >= mean * mean {
            (mean_sq - mean * mean) as nat
        } else {
            0
        }
    }
}

/// Compute the jitter: the standard deviation from the counter words,
/// with saturating subtraction under the square root.
pub fn jitter(sum: u64, sum_sq: u64, n: u64) -> (r: u64)
    ensures
        (r as nat) * (r as nat) <= spec_variance(sum, sum_sq, n),
        spec_variance(sum, sum_sq, n) < ((r as nat) + 1) * ((r as nat) + 1),
{
    if n == 0 {
        proof {
            assert(spec_variance(sum, sum_sq, n) == 0);
            assert((0 as nat) * (0 as nat) <= 0);
            assert(((0 as nat) + 1) * ((0 as nat) + 1) == 1) by {
                vstd::arithmetic::mul::lemma_mul_basics(1);
            }
        }
        return 0;
    }
    let mean: u128 = (sum / n) as u128;
    let mean_sq: u128 = (sum_sq / n) as u128;
    proof {
        vstd::arithmetic::mul::lemma_mul_upper_bound(
            mean as int,
            0xffff_ffff_ffff_ffff,
            mean as int,
            0xffff_ffff_ffff_ffff,
        );
        assert((0xffff_ffff_ffff_ffff as int) * (0xffff_ffff_ffff_ffff as int)
            < 0x1_0000_0000_0000_0000_0000_0000_0000_0000);
    }
    let mm: u128 = mean * mean;
    let var: u128 = if mean_sq >= mm {
        mean_sq - mm
    } else {
        0
    };
    proof {
        assert(var == spec_variance(sum, sum_sq, n));
    }
    isqrt(var)
}

/// The late-frame percentage: `late * 100 / total`, rounding down; zero
/// for an empty total.
pub open spec fn spec_late_pct(late: u64, total: u64) -> nat {
    if total == 0 {
        0
    } else {
        late as nat * 100 / total as nat
    }
}

/// Compute the late-frame percentage, held at the maximum in the
/// degenerate case where it does not fit (more late frames than frames).
pub fn late_pct(late: u64, total: u64) -> (r: u64)
    ensures
        spec_late_pct(late, total) <= u64::MAX ==> r == spec_late_pct(late, total),
        spec_late_pct(late, total) > u64::MAX ==> r == u64::MAX,
{
    if total == 0 {
        return 0;
    }
    let wide: u128 = (late as u128) * 100;
    let pct: u128 = wide / (total as u128);
    proof {
        assert(pct == spec_late_pct(late, total));
    }
    if pct > 0xffff_ffff_ffff_ffff {
        u64::MAX
    } else {
        pct as u64
    }
}

/// The fixed CSV header of the statistics log.
pub fn csv_header() -> (r: &'static str)
    ensures
        r@ == "timestamp_ms,gaming_tasks,latency_avg_us,latency_max_us,jitter_us,late_pct,preemptions,cluster0_tasks,cluster1_tasks"@,
{
    "timestamp_ms,gaming_tasks,latency_avg_us,latency_max_us,jitter_us,late_pct,preemptions,cluster0_tasks,cluster1_tasks"
}

/// The bytes of one CSV row: the nine fields as decimal numbers joined
/// by commas, with a trailing newline.
pub open spec fn spec_csv_row(s: SchedulerStats) -> Seq<u8> {
    dec_bytes(s.timestamp_ms as nat) + seq![44u8] + dec_bytes(s.gaming_tasks as nat) + seq![44u8]
        + dec_bytes(s.latency_avg_us as nat) + seq![44u8] + dec_bytes(s.latency_max_us as nat)
        + seq![44u8] + dec_bytes(s.jitter_us as nat) + seq![44u8] + dec_bytes(s.late_pct as nat)
        + seq![44u8] + dec_bytes(s.preemptions as nat) + seq![44u8] + dec_bytes(
        s.cluster0_tasks as nat,
    ) + seq![44u8] + dec_bytes(s.cluster1_tasks as nat) + seq![10u8]
}

/// Render one CSV row.
pub fn csv_row(s: &SchedulerStats) -> (r: Vec<u8>)
    ensures
        r@ == spec_csv_row(*s),
{
    let mut out: Vec<u8> = Vec::new();
    let d0 = u64_to_dec(s.timestamp_ms);
    crate::profile_text::append_bytes(&mut out, d0.as_slice());
    out.push(44);
    let d1 = u64_to_dec(s.gaming_tasks);
    crate::profile_text::append_bytes(&mut out, d1.as_slice());
    out.push(44);
    let d2 = u64_to_dec(s.latency_avg_us);
    crate::profile_text::append_bytes(&mut out, d2.as_slice());
    out.push(44);
    let d3 = u64_to_dec(s.latency_max_us);
    crate::profile_text::append_bytes(&mut out, d3.as_slice());
    out.push(44);
    let d4 = u64_to_dec(s.jitter_us);
    crate::profile_text::append_bytes(&mut out, d4.as_slice());
    out.push(44);
    let d5 = u64_to_dec(s.late_pct);
    crate::profile_text::append_bytes(&mut out, d5.as_slice());
    out.push(44);
    let d6 = u64_to_dec(s.preemptions);
    crate::profile_text::append_bytes(&mut out, d6.as_slice());
    out.push(44);
    let d7 = u64_to_dec(s.cluster0_tasks);
    crate::profile_text::append_bytes(&mut out, d7.as_slice());
    out.push(44);
    let d8 = u64_to_dec(s.cluster1_tasks);
    crate::profile_text::append_bytes(&mut out, d8.as_slice());
    out.push(10);
    proof {
        assert(out@ =~= spec_csv_row(*s));
    }
    out
}

/// Render one CSV row as text: the row bytes are digits, commas and the
/// newline, all ASCII.
pub fn csv_row_string(s: &SchedulerStats) -> (r: String)
    ensures
        crate::text::string_bytes(r@) == spec_csv_row(*s),
{
    let row = csv_row(s);
    proof {
        lemma_csv_row_ascii(*s);
    }
    crate::text::bytes_to_string_exact(row.as_slice())
}

/// Every byte of a CSV row is ASCII.
proof fn lemma_csv_row_ascii(s: SchedulerStats)
    ensures
        forall|i: int| 0 <= i < spec_csv_row(s).len() ==> spec_csv_row(s)[i] < 128,
{
    crate::textnum::lemma_dec_roundtrip(s.timestamp_ms as nat);
    crate::textnum::lemma_dec_roundtrip(s.gaming_tasks as nat);
    crate::textnum::lemma_dec_roundtrip(s.latency_avg_us as nat);
    crate::textnum::lemma_dec_roundtrip(s.latency_max_us as nat);
    crate::textnum::lemma_dec_roundtrip(s.jitter_us as nat);
    crate::textnum::lemma_dec_roundtrip(s.late_pct as nat);
    crate::textnum::lemma_dec_roundtrip(s.preemptions as nat);
    crate::textnum::lemma_dec_roundtrip(s.cluster0_tasks as nat);
    crate::textnum::lemma_dec_roundtrip(s.cluster1_tasks as nat);
    let row = spec_csv_row(s);
    assert forall|i: int| 0 <= i < row.len() implies row[i] < 128 by {
        lemma_csv_byte(s, i);
    }
}

/// One byte of a CSV row is a digit, a comma, or the final newline.
proof fn lemma_csv_byte(s: SchedulerStats, i: int)
    requires
        0 <= i < spec_csv_row(s).len(),
        crate::textnum::all_digits(dec_bytes(s.timestamp_ms as nat)),
        crate::textnum::all_digits(dec_bytes(s.gaming_tasks as nat)),
        crate::textnum::all_digits(dec_bytes(s.latency_avg_us as nat)),
        crate::textnum::all_digits(dec_bytes(s.latency_max_us as nat)),
        crate::textnum::all_digits(dec_bytes(s.jitter_us as nat)),
        crate::textnum::all_digits(dec_bytes(s.late_pct as nat)),
        crate::textnum::all_digits(dec_bytes(s.preemptions as nat)),
        crate::textnum::all_digits(dec_bytes(s.cluster0_tasks as nat)),
        crate::textnum::all_digits(dec_bytes(s.cluster1_tasks as nat)),
    ensures
        spec_csv_row(s)[i] < 128,
{
}

} // verus!
