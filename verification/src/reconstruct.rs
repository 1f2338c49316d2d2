//! Reconstruction of a page's aligned sample sequence.
//!
//! A page records two channels at different divisors of one base clock: a
//! fresh pressure record is due every `interleave_p` ticks, a fresh
//! temperature record every `interleave_t` ticks. The reconstruction walks
//! the ticks with one read cursor per channel, emits a sample whenever at
//! least one cursor moved (both latest-known values are reported together),
//! and ends the moment a cursor is due to move but its channel has no record
//! left — the page's natural end, whatever remains in the other channel.
//!
//! The records themselves are floating-point payload left with the caller; a
//! sample therefore carries the *index* of the record each cursor stood on.

use vstd::prelude::*;

use vstd::arithmetic::div_mod::lemma_div_basics;
use vstd::arithmetic::div_mod::lemma_multiply_divide_lt;
use vstd::arithmetic::div_mod::lemma_small_mod;
use vstd::arithmetic::div_mod::lemma_fundamental_div_mod;
use vstd::arithmetic::div_mod::lemma_mod_division_less_than_divisor;
use vstd::arithmetic::mul::lemma_mul_basics;
use vstd::arithmetic::mul::lemma_mul_upper_bound;
use vstd::arithmetic::mul::lemma_mul_inequality;
use vstd::arithmetic::mul::lemma_mul_is_commutative;

use crate::page::Page;

verus! {

/// One aligned sample of the reconstructed sequence.
///
/// `fp_index` / `ft_index` name the raw record each channel's cursor stood
/// on when the sample was emitted; `None` means the channel has no records
/// at all, which the calibration stage treats as a default (not-a-number)
/// reading.
#[derive(Debug, Clone, Copy, PartialEq, Eq)]
pub struct Sample {
    /// Index of the base tick the sample belongs to.
    pub tick: u32,
    /// Wall-clock time of the tick: `timestamp + tick * base_interval_ms`.
    pub wall_time_ms: u64,
    /// Index into the page's pressure records, `None` when there are none.
    pub fp_index: Option<usize>,
    /// Index into the page's temperature records, `None` when there are none.
    pub ft_index: Option<usize>,
}

/// First tick at which a channel with `len` records and divisor `ratio` has
/// no record left when a fresh one is due. The cursor consumes one record up
/// front (an empty channel falls back to a default record), then one more at
/// every multiple of `ratio`.
pub open spec fn exhaust_tick(len: nat, ratio: nat) -> nat {
    if len == 0 {
        ratio
    } else {
        len * ratio
    }
}

/// The tick at which reconstruction of the page stops: the earlier of the
/// two channels' exhaustion ticks. Ticks `0 .. end` are walked; `end` itself
/// is never emitted.
pub open spec fn spec_end_tick(page: Page) -> nat {
    let p = exhaust_tick(page.fp_len as nat, page.interleave_p as nat);
    let t = exhaust_tick(page.ft_len as nat, page.interleave_t as nat);
    if p <= t {
        p
    } else {
        t
    }
}

/// A sample is emitted at tick `i` when at least one cursor moves there,
/// that is when `i` is a multiple of either divisor. Tick `0` always emits.
pub open spec fn emits_at(i: nat, page: Page) -> bool {
    i % (page.interleave_p as nat) == 0 || i % (page.interleave_t as nat) == 0
}

/// The sample emitted at tick `i`: at that tick each cursor has advanced
/// once per full `ratio` ticks elapsed, so it stands on record `i / ratio`.
pub open spec fn sample_at(page: Page, i: nat) -> Sample {
    Sample {
        tick: i as u32,
        wall_time_ms: (page.timestamp + i * page.base_interval_ms) as u64,
        fp_index: if page.fp_len == 0 {
            None
        } else {
            Some((i / (page.interleave_p as nat)) as usize)
        },
        ft_index: if page.ft_len == 0 {
            None
        } else {
            Some((i / (page.interleave_t as nat)) as usize)
        },
    }
}

/// The samples emitted over ticks `0 .. n`, in tick order.
pub open spec fn schedule_upto(page: Page, n: nat) -> Seq<Sample>
    decreases n,
{
    if n == 0 {
        Seq::empty()
    } else {
        let prev = schedule_upto(page, (n - 1) as nat);
        if emits_at((n - 1) as nat, page) {
            prev.push(sample_at(page, (n - 1) as nat))
        } else {
            prev
        }
    }
}

/// The page's full reconstructed sample sequence.
pub open spec fn page_schedule(page: Page) -> Seq<Sample> {
    schedule_upto(page, spec_end_tick(page))
}

impl Page {
    /// A page the reconstruction is defined for: both divisors are nonzero
    /// (a zero divisor would make no tick due) and the walked ticks fit the
    /// sample's machine words — tick indices fit `u32`, wall-clock times
    /// fit `u64`.
    pub open spec fn reconstructible(&self) -> bool {
        &&& self.interleave_p >= 1
        &&& self.interleave_t >= 1
        &&& spec_end_tick(*self) <= u32::MAX
        &&& self.timestamp + (spec_end_tick(*self) - 1) * self.base_interval_ms <= u64::MAX
    }
}

/// Walks the page's ticks and returns the emitted samples, in ascending tick
/// order: exactly the ticks before `spec_end_tick` at which either cursor
/// moves, each sample reading record `tick / ratio` of each channel.
pub fn reconstruct_samples(page: &Page) -> (samples: Vec<Sample>)
    requires
        page.reconstructible(),
    ensures
        samples@ == page_schedule(*page),
{
    let rp = page.interleave_p as u64;
    let rt = page.interleave_t as u64;
    proof {
        lemma_mul_upper_bound(
            page.fp_len as int,
            usize::MAX as int,
            rp as int,
            u32::MAX as int,
        );
        lemma_mul_upper_bound(
            page.ft_len as int,
            usize::MAX as int,
            rt as int,
            u32::MAX as int,
        );
    }
    let exhaust_p: u128 = if page.fp_len == 0 {
        rp as u128
    } else {
        (page.fp_len as u128) * (rp as u128)
    };
    let exhaust_t: u128 = if page.ft_len == 0 {
        rt as u128
    } else {
        (page.ft_len as u128) * (rt as u128)
    };
    let end_wide: u128 = if exhaust_p <= exhaust_t {
        exhaust_p
    } else {
        exhaust_t
    };
    proof {
        assert(end_wide == spec_end_tick(*page));
    }
    let end: u64 = end_wide as u64;

    let mut samples: Vec<Sample> = Vec::new();
    let first = Sample {
        tick: 0,
        wall_time_ms: page.timestamp,
        fp_index: if page.fp_len == 0 {
            None
        } else {
            Some(0)
        },
        ft_index: if page.ft_len == 0 {
            None
        } else {
            Some(0)
        },
    };
    samples.push(first);
    proof {
        lemma_div_basics(page.interleave_p as int);
        lemma_div_basics(page.interleave_t as int);
        lemma_small_mod(0, page.interleave_p as nat);
        assert(emits_at(0, *page));
        assert(schedule_upto(*page, 0) == Seq::<Sample>::empty());
        assert(first == sample_at(*page, 0));
        assert(samples@ =~= schedule_upto(*page, 1));
        if page.fp_len > 0 {
            lemma_mul_inequality(1, page.fp_len as int, rp as int);
        }
        if page.ft_len > 0 {
            lemma_mul_inequality(1, page.ft_len as int, rt as int);
        }
        assert(end >= 1);
    }

    let mut i: u64 = 1;
    while i < end
        invariant
            1 <= i <= end,
            end == spec_end_tick(*page),
            rp == page.interleave_p,
            rt == page.interleave_t,
            page.reconstructible(),
            samples@ == schedule_upto(*page, i as nat),
        decreases end - i,
    {
        if i % rp == 0 || i % rt == 0 {
            proof {
                lemma_mul_inequality(i as int, end as int - 1, page.base_interval_ms as int);
            }
            let wall: u64 = page.timestamp + i * (page.base_interval_ms as u64);
            let fp_index: Option<usize> = if page.fp_len == 0 {
                None
            } else {
                proof {
                    lemma_mul_is_commutative(page.fp_len as int, rp as int);
                    lemma_multiply_divide_lt(i as int, rp as int, page.fp_len as int);
                }
                Some((i / rp) as usize)
            };
            let ft_index: Option<usize> = if page.ft_len == 0 {
                None
            } else {
                proof {
                    lemma_mul_is_commutative(page.ft_len as int, rt as int);
                    lemma_multiply_divide_lt(i as int, rt as int, page.ft_len as int);
                }
                Some((i / rt) as usize)
            };
            samples.push(
                Sample {
                    tick: i as u32,
                    wall_time_ms: wall,
                    fp_index,
                    ft_index,
                },
            );
            proof {
                assert(samples@ =~= schedule_upto(*page, (i + 1) as nat));
            }
        } else {
            proof {
                assert(samples@ =~= schedule_upto(*page, (i + 1) as nat));
            }
        }
        i += 1;
    }
    samples
}

/// Ticks of the schedule over `0 .. n` are strictly ascending and below `n`.
proof fn lemma_schedule_ticks(page: Page, n: nat)
    requires
        n <= 0x1_0000_0000,
    ensures
        forall|k: int|
            0 <= k < schedule_upto(page, n).len() ==> (#[trigger] schedule_upto(page, n)[k]).tick
                < n,
        forall|k1: int, k2: int|
            0 <= k1 < k2 < schedule_upto(page, n).len() ==> schedule_upto(page, n)[k1].tick
                < schedule_upto(page, n)[k2].tick,
    decreases n,
{
    if n > 0 {
        lemma_schedule_ticks(page, (n - 1) as nat);
        let prev = schedule_upto(page, (n - 1) as nat);
        let cur = schedule_upto(page, n);
        assert forall|k: int| 0 <= k < cur.len() implies (#[trigger] cur[k]).tick < n by {
            if k < prev.len() {
                assert(cur[k] == prev[k]);
            } else {
                assert(cur[k] == sample_at(page, (n - 1) as nat));
            }
        }
        assert forall|k1: int, k2: int|
            0 <= k1 < k2 < cur.len() implies cur[k1].tick < cur[k2].tick by {
            assert(cur[k1] == prev[k1]);
            if k2 < prev.len() {
                assert(cur[k2] == prev[k2]);
            } else {
                assert(cur[k2] == sample_at(page, (n - 1) as nat));
                assert(prev[k1].tick < (n - 1) as nat);
            }
        }
    }
}

/// Every element of the schedule over `0 .. n` is the sample of its own
/// tick, which emits; every tick below `n` that emits appears.
proof fn lemma_schedule_membership(page: Page, n: nat)
    requires
        n <= 0x1_0000_0000,
    ensures
        forall|k: int|
            0 <= k < schedule_upto(page, n).len() ==> {
                &&& emits_at((#[trigger] schedule_upto(page, n)[k]).tick as nat, page)
                &&& schedule_upto(page, n)[k] == sample_at(
                    page,
                    schedule_upto(page, n)[k].tick as nat,
                )
            },
        forall|i: int|
            0 <= i < n && #[trigger] emits_at(i as nat, page) ==> exists|k: int|
                0 <= k < schedule_upto(page, n).len() && (#[trigger] schedule_upto(page, n)[k]).tick
                    == i,
    decreases n,
{
    if n > 0 {
        lemma_schedule_membership(page, (n - 1) as nat);
        let prev = schedule_upto(page, (n - 1) as nat);
        let cur = schedule_upto(page, n);
        assert forall|k: int| 0 <= k < cur.len() implies {
            &&& emits_at((#[trigger] cur[k]).tick as nat, page)
            &&& cur[k] == sample_at(page, cur[k].tick as nat)
        } by {
            if k < prev.len() {
                assert(cur[k] == prev[k]);
            } else {
                assert(cur[k] == sample_at(page, (n - 1) as nat));
                assert(cur[k].tick == (n - 1) as u32);
            }
        }
        assert forall|i: int|
            0 <= i < n && #[trigger] emits_at(i as nat, page) implies exists|k: int|
            0 <= k < cur.len() && (#[trigger] cur[k]).tick == i by {
            if i < n - 1 {
                let k0 = choose|k0: int| 0 <= k0 < prev.len() && (#[trigger] prev[k0]).tick == i;
                assert(cur[k0] == prev[k0]);
                assert(0 <= k0 < cur.len() && cur[k0].tick == i);
            } else {
                assert(cur[cur.len() - 1] == sample_at(page, (n - 1) as nat));
                assert(cur[cur.len() - 1].tick == i);
            }
        }
    }
}

/// The reconstructed sequence, characterized tick by tick: it holds, in
/// strictly ascending tick order, exactly one sample for every tick before
/// the end tick at which either cursor moves, and each sample reads record
/// `tick / ratio` of each channel (`None` for a channel without records).
pub proof fn lemma_schedule_characterization(page: Page)
    requires
        page.reconstructible(),
    ensures
        forall|k: int|
            0 <= k < page_schedule(page).len() ==> {
                &&& (#[trigger] page_schedule(page)[k]).tick < spec_end_tick(page)
                &&& emits_at(page_schedule(page)[k].tick as nat, page)
                &&& page_schedule(page)[k] == sample_at(page, page_schedule(page)[k].tick as nat)
            },
        forall|k1: int, k2: int|
            0 <= k1 < k2 < page_schedule(page).len() ==> page_schedule(page)[k1].tick
                < page_schedule(page)[k2].tick,
        forall|i: int|
            0 <= i < spec_end_tick(page) && #[trigger] emits_at(i as nat, page) ==> exists|k: int|
                0 <= k < page_schedule(page).len() && (#[trigger] page_schedule(page)[k]).tick == i,
{
    lemma_schedule_ticks(page, spec_end_tick(page));
    lemma_schedule_membership(page, spec_end_tick(page));
}

/// With a temperature divisor of one the temperature cursor moves at every
/// tick, so every tick up to `n` emits: the schedule holds one sample per
/// tick, in order.
proof fn lemma_dense_schedule(page: Page, n: nat)
    requires
        page.interleave_t == 1,
    ensures
        schedule_upto(page, n).len() == n,
        forall|k: int| 0 <= k < n ==> schedule_upto(page, n)[k] == sample_at(page, k as nat),
    decreases n,
{
    if n > 0 {
        lemma_dense_schedule(page, (n - 1) as nat);
        lemma_mod_division_less_than_divisor((n - 1) as int, 1);
        assert(emits_at((n - 1) as nat, page));
        let prev = schedule_upto(page, (n - 1) as nat);
        let cur = schedule_upto(page, n);
        assert forall|k: int| 0 <= k < n implies cur[k] == sample_at(page, k as nat) by {
            if k < n - 1 {
                assert(cur[k] == prev[k]);
            } else {
                assert(cur[k] == sample_at(page, (n - 1) as nat));
            }
        }
    }
}

/// With unit divisors on both channels and `n` records in each, the page
/// yields exactly `n` samples, one per tick `0 .. n`, each reading the
/// record of its own tick, spaced `base_interval_ms` apart from
/// `timestamp` on.
pub proof fn lemma_unit_ratio_schedule(page: Page)
    requires
        page.reconstructible(),
        page.interleave_p == 1,
        page.interleave_t == 1,
        page.fp_len == page.ft_len,
        page.fp_len >= 1,
    ensures
        page_schedule(page).len() == page.fp_len,
        forall|k: int|
            0 <= k < page.fp_len ==> page_schedule(page)[k] == (Sample {
                tick: k as u32,
                wall_time_ms: (page.timestamp + k * page.base_interval_ms) as u64,
                fp_index: Some(k as usize),
                ft_index: Some(k as usize),
            }),
{
    lemma_mul_basics(page.fp_len as int);
    assert(spec_end_tick(page) == page.fp_len);
    lemma_dense_schedule(page, spec_end_tick(page));
    assert forall|k: int| 0 <= k < page.fp_len implies page_schedule(page)[k] == (Sample {
        tick: k as u32,
        wall_time_ms: (page.timestamp + k * page.base_interval_ms) as u64,
        fp_index: Some(k as usize),
        ft_index: Some(k as usize),
    }) by {
        lemma_div_basics(k);
        assert(page_schedule(page)[k] == sample_at(page, k as nat));
    }
}

/// With divisors `[2, 1]` every tick emits (the temperature cursor moves
/// each tick), the pressure cursor stands on record `tick / 2` — so it
/// advances exactly on the even ticks and holds its value through the odd
/// ones — and the reconstruction ends at the earlier of the two channels'
/// exhaustion ticks, whatever the other channel still holds.
pub proof fn lemma_two_one_ratio_schedule(page: Page)
    requires
        page.reconstructible(),
        page.interleave_p == 2,
        page.interleave_t == 1,
        page.fp_len >= 1,
        page.ft_len >= 1,
    ensures
        spec_end_tick(page) == if 2 * page.fp_len <= page.ft_len {
            2 * page.fp_len
        } else {
            page.ft_len as int
        },
        page_schedule(page).len() == spec_end_tick(page),
        forall|k: int|
            0 <= k < page_schedule(page).len() ==> (#[trigger] page_schedule(page)[k]).tick == k,
        forall|k: int|
            0 <= k < page_schedule(page).len() ==> (#[trigger] page_schedule(page)[k]).fp_index
                == Some((k / 2) as usize),
        forall|k: int|
            0 <= k < page_schedule(page).len() && k % 2 == 1 ==> (#[trigger] page_schedule(
                page,
            )[k]).fp_index == page_schedule(page)[k - 1].fp_index,
        forall|k: int|
            2 <= k < page_schedule(page).len() && k % 2 == 0 ==> (#[trigger] page_schedule(
                page,
            )[k]).fp_index != page_schedule(page)[k - 1].fp_index,
{
    lemma_mul_basics(page.ft_len as int);
    assert(exhaust_tick(page.ft_len as nat, 1) == page.ft_len);
    assert(exhaust_tick(page.fp_len as nat, 2) == 2 * page.fp_len) by {
        lemma_mul_is_commutative(page.fp_len as int, 2);
    }
    let end = spec_end_tick(page);
    lemma_dense_schedule(page, end);
    assert forall|k: int|
        0 <= k < page_schedule(page).len() implies {
        &&& (#[trigger] page_schedule(page)[k]).tick == k
        &&& page_schedule(page)[k].fp_index == Some((k / 2) as usize)
    } by {
        assert(page_schedule(page)[k] == sample_at(page, k as nat));
    }
    assert forall|k: int|
        0 <= k < page_schedule(page).len() && k % 2 == 1 implies (#[trigger] page_schedule(
        page,
    )[k]).fp_index == page_schedule(page)[k - 1].fp_index by {
        lemma_fundamental_div_mod(k, 2);
        lemma_fundamental_div_mod(k - 1, 2);
        assert(k / 2 == (k - 1) / 2);
    }
    assert forall|k: int|
        2 <= k < page_schedule(page).len() && k % 2 == 0 implies (#[trigger] page_schedule(
        page,
    )[k]).fp_index != page_schedule(page)[k - 1].fp_index by {
        lemma_fundamental_div_mod(k, 2);
        lemma_fundamental_div_mod(k - 1, 2);
        assert(k / 2 != (k - 1) / 2);
    }
}

} // verus!
