//! Historical candle retrieval logic: slicing long ranges into the
//! windows the REST endpoints accept, merging overlapping windows
//! without duplicates, and parsing the decimal price strings the
//! endpoints return into fixed-point integers. The HTTP calls
//! themselves stay with the caller.

use vstd::prelude::*;
use crate::feed::HyperCandle;

verus! {

/// Most candles one REST request may return.
pub const MAX_CANDLES_PER_REQUEST: usize = 5000;

/// Window span per paginated request: one hour short of the limit,
/// in milliseconds.
pub const WINDOW_SPAN_MS: u64 = 17_996_400_000;

/// Overlap carried between consecutive windows: a thousand hours.
pub const OVERLAP_MS: u64 = 3_600_000_000;

/// The paginated fetch schedule: from `cur`, windows of
/// `WINDOW_SPAN_MS` clipped to `end`, each next start backing up by
/// the overlap, for at most `k` requests.
pub open spec fn windows_rec(cur: int, end: int, k: int) -> Seq<(u64, u64)>
    decreases k,
{
    if k <= 0 || cur >= end {
        Seq::empty()
    } else {
        let stop = if cur + WINDOW_SPAN_MS <= end { cur + WINDOW_SPAN_MS } else { end };
        seq![(cur as u64, stop as u64)].add(
            windows_rec(stop - OVERLAP_MS, end, k - 1))
    }
}

/// How many requests the schedule allows for a range, mirroring the
/// hour count rounded up to blocks of the per-request limit.
pub open spec fn spec_request_budget(start: int, end: int) -> int {
    ((end - start) / 3_600_000 + 4_999) / 5_000
}

/// Strictly increasing open timestamps.
pub open spec fn sorted_by_t(s: Seq<HyperCandle>) -> bool {
    forall|i: int, j: int| 0 <= i < j < s.len() ==> #[trigger] s[i].t < #[trigger] s[j].t
}

/// Whether `c` may extend `acc` while keeping timestamps strictly
/// increasing.
pub open spec fn extends(acc: Seq<HyperCandle>, c: HyperCandle) -> bool {
    acc.len() == 0 || c.t > acc.last().t
}

/// Merge a sorted batch onto an accumulator, keeping only candles
/// with a strictly newer open timestamp (deduplicating the overlap).
pub open spec fn merged(acc: Seq<HyperCandle>, batch: Seq<HyperCandle>) -> Seq<HyperCandle>
    decreases batch.len(),
{
    if batch.len() == 0 {
        acc
    } else {
        let first = batch[0];
        let acc2 = if extends(acc, first) {
            acc.push(first)
        } else {
            acc
        };
        merged(acc2, batch.subrange(1, batch.len() as int))
    }
}

/// Merging sorted input onto a sorted accumulator stays sorted.
pub proof fn lemma_merged_sorted(acc: Seq<HyperCandle>, batch: Seq<HyperCandle>)
    requires
        sorted_by_t(acc),
        sorted_by_t(batch),
    ensures
        sorted_by_t(merged(acc, batch)),
    decreases batch.len(),
{
    if batch.len() > 0 {
        let first = batch[0];
        let rest = batch.subrange(1, batch.len() as int);
        let acc2 = if extends(acc, first) {
            acc.push(first)
        } else {
            acc
        };
        assert(sorted_by_t(acc2));
        assert(sorted_by_t(rest));
        lemma_merged_sorted(acc2, rest);
    }
}

/// Fetcher for the venue's candle snapshots; the coin and interval
/// name the subscription, the network calls stay with the caller.
pub struct HyperliquidHistoricalData {
    pub coin: String,
    pub interval: String,
}

impl HyperliquidHistoricalData {
    pub fn new(coin: String, interval: String) -> (r: Self)
        ensures
            r.coin == coin,
            r.interval == interval,
    {
        Self { coin, interval }
    }

    /// The window schedule for a paginated fetch over
    /// `[start_time, end_time)`: each window spans at most
    /// `WINDOW_SPAN_MS`, consecutive windows overlap by `OVERLAP_MS`
    /// so boundary candles are never lost, and the count stays within
    /// the request budget.
    pub fn fetch_windows(&self, start_time: u64, end_time: u64) -> (r: Vec<(u64, u64)>)
        requires
            OVERLAP_MS <= start_time <= end_time,
            end_time <= 1_000_000_000_000_000,
        ensures
            r@ == windows_rec(
                start_time as int,
                end_time as int,
                spec_request_budget(start_time as int, end_time as int)),
    {
        let hours = (end_time - start_time) / 3_600_000;
        let budget = (hours + 4_999) / 5_000;

        let mut windows: Vec<(u64, u64)> = Vec::new();
        let mut cur: u64 = start_time;
        let mut k: u64 = budget;
        proof {
            assert(windows@ + windows_rec(cur as int, end_time as int, k as int)
                =~= windows_rec(start_time as int, end_time as int, budget as int));
        }
        while k > 0 && cur < end_time
            invariant
                OVERLAP_MS <= end_time <= 1_000_000_000_000_000,
                k <= budget,
                windows_rec(start_time as int, end_time as int, budget as int)
                    == windows@ + windows_rec(cur as int, end_time as int, k as int),
            decreases k,
        {
            let stop = if WINDOW_SPAN_MS <= end_time && cur <= end_time - WINDOW_SPAN_MS {
                cur + WINDOW_SPAN_MS
            } else {
                end_time
            };
            windows.push((cur, stop));
            proof {
                assert(windows_rec(start_time as int, end_time as int, budget as int)
                    =~= windows@ + windows_rec(
                        stop - OVERLAP_MS, end_time as int, k - 1));
            }
            cur = stop - OVERLAP_MS;
            k = k - 1;
        }
        proof {
            assert(windows_rec(cur as int, end_time as int, k as int) =~= Seq::empty());
            assert(windows@ =~= windows@ + Seq::<(u64, u64)>::empty());
        }
        windows
    }

    /// Merge one fetched batch into the accumulated candles, dropping
    /// the overlap: only candles strictly newer than the last kept one
    /// are appended, so timestamps stay strictly increasing.
    pub fn merge_batch(&self, acc: &mut Vec<HyperCandle>, batch: &Vec<HyperCandle>)
        requires
            sorted_by_t(old(acc)@),
            sorted_by_t(batch@),
        ensures
            final(acc)@ == merged(old(acc)@, batch@),
            sorted_by_t(final(acc)@),
    {
        proof {
            lemma_merged_sorted(old(acc)@, batch@);
            assert(batch@.subrange(0, batch@.len() as int) =~= batch@);
        }
        let mut i: usize = 0;
        while i < batch.len()
            invariant
                i <= batch@.len(),
                sorted_by_t(acc@),
                merged(old(acc)@, batch@) == merged(acc@, batch@.subrange(i as int, batch@.len() as int)),
            decreases batch.len() - i,
        {
            let ghost rest = batch@.subrange(i as int, batch@.len() as int);
            let n = acc.len();
            let take_it = if n == 0 {
                true
            } else {
                batch[i].t > acc[n - 1].t
            };
            proof {
                assert(rest[0] == batch@[i as int]);
                assert(rest.subrange(1, rest.len() as int)
                    =~= batch@.subrange(i + 1, batch@.len() as int));
            }
            if take_it {
                acc.push(batch[i].clone());
            }
            i += 1;
        }
        proof {
            assert(batch@.subrange(batch@.len() as int, batch@.len() as int)
                =~= Seq::<HyperCandle>::empty());
        }
    }
}

/// Fetcher for hourly candles from the public spot API; batches are
/// limited to 300 candles of `granularity` seconds each.
pub struct CoinbaseHistoricalData {
    pub product_id: String,
    pub granularity: u32,
}

/// The batch schedule over `[cur, end)` in steps of
/// `300 * granularity` seconds.
pub open spec fn batches_rec(cur: int, end: int, granularity: int) -> Seq<(u64, u64)>
    decreases end - cur,
{
    if cur >= end || granularity < 1 {
        Seq::empty()
    } else {
        let stop = if cur + 300 * granularity <= end { cur + 300 * granularity } else { end };
        seq![(cur as u64, stop as u64)].add(batches_rec(stop, end, granularity))
    }
}

impl CoinbaseHistoricalData {
    /// The default product on an hourly granularity.
    pub fn new() -> (r: Self)
        ensures
            r.granularity == 3600,
            r.product_id@ == "ATOM-USD"@,
    {
        Self {
            product_id: String::from_str("ATOM-USD"),
            granularity: 3600,
        }
    }

    /// The batch schedule for a fetch over `[start, end)`: contiguous
    /// spans of at most 300 candles each.
    pub fn fetch_batches(&self, start: u64, end: u64) -> (r: Vec<(u64, u64)>)
        requires
            start <= end,
            end <= 1_000_000_000_000,
            1 <= self.granularity,
        ensures
            r@ == batches_rec(start as int, end as int, self.granularity as int),
    {
        let step: u64 = 300 * (self.granularity as u64);
        let mut batches: Vec<(u64, u64)> = Vec::new();
        let mut cur: u64 = start;
        proof {
            assert(batches@ + batches_rec(cur as int, end as int, self.granularity as int)
                =~= batches_rec(start as int, end as int, self.granularity as int));
        }
        while cur < end
            invariant
                end <= 1_000_000_000_000,
                step == 300 * self.granularity,
                1 <= self.granularity,
                batches_rec(start as int, end as int, self.granularity as int)
                    == batches@ + batches_rec(cur as int, end as int, self.granularity as int),
            decreases end - cur,
        {
            let stop = if step <= end && cur <= end - step {
                cur + step
            } else {
                end
            };
            batches.push((cur, stop));
            proof {
                assert(batches_rec(start as int, end as int, self.granularity as int)
                    =~= batches@ + batches_rec(stop as int, end as int, self.granularity as int));
            }
            cur = stop;
        }
        proof {
            assert(batches_rec(cur as int, end as int, self.granularity as int) =~= Seq::empty());
            assert(batches@ =~= batches@ + Seq::<(u64, u64)>::empty());
        }
        batches
    }
}

} // verus!
