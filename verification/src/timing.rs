use vstd::arithmetic::mul::lemma_mul_inequality;
use vstd::prelude::*;

verus! {

// Looping time selection over an ordered list of durations, the convention
// shared by animated skins and animated keyframes: the playback period is the
// sum of all entry durations, the phase within the current loop is the
// elapsed time modulo that period, and the selected entry is the first one
// whose cumulative span covers the phase. A period of zero degenerates to
// entry 0.

/// The sum of the first `k` durations, in microseconds.
pub open spec fn prefix_micros(ds: Seq<u64>, k: int) -> int
    decreases k,
{
    if k <= 0 {
        0
    } else {
        prefix_micros(ds, k - 1) + ds[k - 1]
    }
}

/// The sum of all durations: the looping period, in microseconds.
pub open spec fn total_micros(ds: Seq<u64>) -> int {
    prefix_micros(ds, ds.len() as int)
}

/// The position of `elapsed` within the current loop.
pub open spec fn phase_micros(ds: Seq<u64>, elapsed: u64) -> int {
    if total_micros(ds) == 0 {
        0
    } else {
        elapsed as int % total_micros(ds)
    }
}

/// The first index at or after `k` whose cumulative span covers `ph`,
/// falling back to the last entry.
pub open spec fn scan_index(ds: Seq<u64>, ph: int, k: int) -> int
    decreases ds.len() - k,
{
    if k >= ds.len() - 1 {
        ds.len() - 1
    } else if ph < prefix_micros(ds, k + 1) {
        k
    } else {
        scan_index(ds, ph, k + 1)
    }
}

/// The entry that a looping playback at `elapsed` selects.
pub open spec fn selected_index(ds: Seq<u64>, elapsed: u64) -> int {
    scan_index(ds, phase_micros(ds, elapsed), 0)
}

/// Every prefix sum of `k <= n` durations is at most `k * u64::MAX`.
pub proof fn lemma_prefix_bounds(ds: Seq<u64>, k: int)
    requires
        0 <= k <= ds.len(),
    ensures
        0 <= prefix_micros(ds, k) <= k * u64::MAX,
    decreases k,
{
    if k > 0 {
        lemma_prefix_bounds(ds, k - 1);
        assert((k - 1) * u64::MAX + u64::MAX == k * u64::MAX) by {
            lemma_mul_inequality(1, 1, 1);
        }
    }
}

/// The scan starting at a covered position stays put; together with the
/// definition this pins the selected entry as the first covering one.
proof fn lemma_scan_in_range(ds: Seq<u64>, ph: int, k: int)
    requires
        0 <= k < ds.len(),
    ensures
        k <= scan_index(ds, ph, k) < ds.len(),
    decreases ds.len() - k,
{
    if k < ds.len() - 1 && !(ph < prefix_micros(ds, k + 1)) {
        lemma_scan_in_range(ds, ph, k + 1);
    }
}

/// Prefix sums grow with the number of summed entries.
pub proof fn lemma_prefix_monotone(ds: Seq<u64>, a: int, b: int)
    requires
        0 <= a <= b <= ds.len(),
    ensures
        prefix_micros(ds, a) <= prefix_micros(ds, b),
    decreases b - a,
{
    if a < b {
        lemma_prefix_monotone(ds, a, b - 1);
    }
}

/// A scan from a position whose prefix the phase has passed lands on the
/// entry whose cumulative span covers the phase.
proof fn lemma_scan_covers(ds: Seq<u64>, ph: int, k: int)
    requires
        0 <= k < ds.len(),
        prefix_micros(ds, k) <= ph < total_micros(ds),
    ensures
        ({
            let j = scan_index(ds, ph, k);
            &&& k <= j < ds.len()
            &&& prefix_micros(ds, j) <= ph < prefix_micros(ds, j + 1)
        }),
    decreases ds.len() - k,
{
    if k < ds.len() - 1 && !(ph < prefix_micros(ds, k + 1)) {
        lemma_scan_covers(ds, ph, k + 1);
    }
}

/// The selection law: with a positive period, the selected entry is the
/// one whose cumulative duration span covers the phase of the elapsed time
/// within the current loop.
pub proof fn lemma_selected_covers(ds: Seq<u64>, elapsed: u64)
    requires
        ds.len() >= 1,
        total_micros(ds) > 0,
    ensures
        ({
            let ph = phase_micros(ds, elapsed);
            let j = selected_index(ds, elapsed);
            &&& 0 <= j < ds.len()
            &&& 0 <= ph < total_micros(ds)
            &&& prefix_micros(ds, j) <= ph < prefix_micros(ds, j + 1)
        }),
{
    let t = total_micros(ds);
    assert(0 <= elapsed as int % t < t) by {
        vstd::arithmetic::div_mod::lemma_mod_bound(elapsed as int, t);
    }
    lemma_scan_covers(ds, phase_micros(ds, elapsed), 0);
}

/// The selected entry lies within the list.
pub proof fn lemma_selected_in_range(ds: Seq<u64>, elapsed: u64)
    requires
        ds.len() >= 1,
    ensures
        0 <= selected_index(ds, elapsed) < ds.len(),
{
    lemma_scan_in_range(ds, phase_micros(ds, elapsed), 0);
}

/// A single-entry list selects that entry for every elapsed time, including
/// zero and arbitrarily large values.
pub proof fn lemma_single_entry_selected(ds: Seq<u64>, elapsed: u64)
    requires
        ds.len() == 1,
    ensures
        selected_index(ds, elapsed) == 0,
{
}

/// Selection is periodic: advancing the elapsed time by one full period
/// selects the same entry.
pub proof fn lemma_selection_periodic(ds: Seq<u64>, elapsed: u64)
    requires
        ds.len() >= 1,
        elapsed + total_micros(ds) <= u64::MAX,
    ensures
        selected_index(ds, (elapsed + total_micros(ds)) as u64) == selected_index(ds, elapsed),
{
    lemma_prefix_bounds(ds, ds.len() as int);
    let t = total_micros(ds);
    if t != 0 {
        assert((elapsed + t) % t == elapsed as int % t) by {
            vstd::arithmetic::div_mod::lemma_mod_add_multiples_vanish(elapsed as int, t);
        }
    }
}

/// Selects the entry a looping playback at `elapsed` microseconds lands on:
/// the first entry whose cumulative duration covers the phase of `elapsed`
/// within the period, entry 0 when the period is zero.
pub fn select_timed(ds: &Vec<u64>, elapsed: u64) -> (i: usize)
    requires
        ds@.len() >= 1,
    ensures
        i == selected_index(ds@, elapsed),
        i < ds@.len(),
{
    let n: usize = ds.len();
    proof {
        lemma_prefix_bounds(ds@, n as int);
    }
    let mut total: u128 = 0;
    let mut k: usize = 0;
    while k < n
        invariant
            k <= n == ds@.len(),
            total == prefix_micros(ds@, k as int),
            prefix_micros(ds@, n as int) <= n as int * u64::MAX,
        decreases n - k,
    {
        proof {
            lemma_prefix_bounds(ds@, k as int + 1);
            lemma_mul_inequality(k as int + 1, n as int, u64::MAX as int);
        }
        total = total + ds[k] as u128;
        k = k + 1;
    }
    let phase: u128 = if total == 0 {
        0
    } else {
        (elapsed as u128) % total
    };
    proof {
        assert(phase == phase_micros(ds@, elapsed));
    }
    let mut acc: u128 = 0;
    let mut i: usize = 0;
    while i < n - 1
        invariant
            n == ds@.len() >= 1,
            i <= n - 1,
            acc == prefix_micros(ds@, i as int),
            phase == phase_micros(ds@, elapsed),
            scan_index(ds@, phase as int, 0) == scan_index(ds@, phase as int, i as int),
            prefix_micros(ds@, n as int) <= n as int * u64::MAX,
        decreases n - i,
    {
        proof {
            lemma_prefix_bounds(ds@, i as int + 1);
            lemma_mul_inequality(i as int + 1, n as int, u64::MAX as int);
        }
        let next: u128 = acc + ds[i] as u128;
        if phase < next {
            return i;
        }
        acc = next;
        i = i + 1;
    }
    n - 1
}

} // verus!
