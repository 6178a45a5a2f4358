//! Deterministic replay of recorded book updates through the
//! triangular arbitrage detector. The three pair streams are merged in
//! timestamp order (ties resolved pair 1, 2, 3, as a stable sort of
//! the concatenation would) and every detected opportunity is kept.

use vstd::prelude::*;
use crate::arbitrage::{TriangularArbitrageDetector, TriangularOpportunity, AMOUNT_LIMIT};
use crate::orderbook::{Side, Update};

verus! {

/// One recorded book update with its arrival time.
#[derive(Debug, Clone)]
pub struct HistoricalUpdate {
    pub timestamp: u64,
    pub symbol: String,
    pub update: Update,
}

/// Non-decreasing arrival times.
pub open spec fn sorted_by_time(s: Seq<HistoricalUpdate>) -> bool {
    forall|i: int, j: int| 0 <= i < j < s.len()
        ==> #[trigger] s[i].timestamp <= #[trigger] s[j].timestamp
}

/// The six level arrays of a detector's books.
pub struct BooksView {
    pub bids1: Seq<u64>,
    pub asks1: Seq<u64>,
    pub bids2: Seq<u64>,
    pub asks2: Seq<u64>,
    pub bids3: Seq<u64>,
    pub asks3: Seq<u64>,
}

/// The fixed price grids of the three books.
pub struct BookGrids {
    pub min1: int,
    pub max1: int,
    pub min2: int,
    pub max2: int,
    pub min3: int,
    pub max3: int,
}

/// The detector's constant parameters for a replay.
pub struct ReplayConsts {
    pub grids: BookGrids,
    pub d1: int,
    pub d2: int,
    pub d3: int,
    pub fee: int,
    pub min_profit: int,
}

pub open spec fn books_of(d: TriangularArbitrageDetector) -> BooksView {
    BooksView {
        bids1: d.pair1.bids_view(),
        asks1: d.pair1.asks_view(),
        bids2: d.pair2.bids_view(),
        asks2: d.pair2.asks_view(),
        bids3: d.pair3.bids_view(),
        asks3: d.pair3.asks_view(),
    }
}

pub open spec fn grids_of(d: TriangularArbitrageDetector) -> BookGrids {
    BookGrids {
        min1: d.pair1.spec_min_price() as int,
        max1: d.pair1.spec_max_price() as int,
        min2: d.pair2.spec_min_price() as int,
        max2: d.pair2.spec_max_price() as int,
        min3: d.pair3.spec_min_price() as int,
        max3: d.pair3.spec_max_price() as int,
    }
}

pub open spec fn consts_of(d: TriangularArbitrageDetector) -> ReplayConsts {
    ReplayConsts {
        grids: grids_of(d),
        d1: d.spec_divisors().0,
        d2: d.spec_divisors().1,
        d3: d.spec_divisors().2,
        fee: d.spec_fee_bps(),
        min_profit: d.spec_min_profit_bps(),
    }
}

/// One level array after a write, ignored off its grid.
pub open spec fn write_view(v: Seq<u64>, min: int, max: int, price: int, q: u64) -> Seq<u64> {
    if min <= price < max {
        v.update(price - min, q)
    } else {
        v
    }
}

/// The six arrays after one update lands on its pair.
pub open spec fn apply_books(bv: BooksView, g: BookGrids, pair: int, upd: Update) -> BooksView {
    let (price, q, side) = match upd {
        Update::SetLevel { price, quantity, side } => (price as int, quantity, side),
        Update::Remove { price, side } => (price as int, 0u64, side),
    };
    if pair == 1 {
        match side {
            Side::Bid => BooksView { bids1: write_view(bv.bids1, g.min1, g.max1, price, q), ..bv },
            Side::Ask => BooksView { asks1: write_view(bv.asks1, g.min1, g.max1, price, q), ..bv },
        }
    } else if pair == 2 {
        match side {
            Side::Bid => BooksView { bids2: write_view(bv.bids2, g.min2, g.max2, price, q), ..bv },
            Side::Ask => BooksView { asks2: write_view(bv.asks2, g.min2, g.max2, price, q), ..bv },
        }
    } else {
        match side {
            Side::Bid => BooksView { bids3: write_view(bv.bids3, g.min3, g.max3, price, q), ..bv },
            Side::Ask => BooksView { asks3: write_view(bv.asks3, g.min3, g.max3, price, q), ..bv },
        }
    }
}

/// The best bid of a level array, as a price.
pub open spec fn top_price(v: Seq<u64>, min: int) -> Option<i64> {
    match crate::orderbook::view_top(v) {
        Some(i) => Some((min + i) as i64),
        None => None,
    }
}

/// The best ask of a level array, as a price.
pub open spec fn bottom_price(v: Seq<u64>, min: int) -> Option<i64> {
    match crate::orderbook::view_bottom(v) {
        Some(i) => Some((min + i) as i64),
        None => None,
    }
}

/// The opportunities one tick reports, straight from the level arrays.
pub open spec fn tick_opportunities(bv: BooksView, c: ReplayConsts, ts: int, amount: int)
    -> Seq<TriangularOpportunity> {
    let ask1 = crate::arbitrage::cache_of(bottom_price(bv.asks1, c.grids.min1));
    let bid1 = crate::arbitrage::cache_of(top_price(bv.bids1, c.grids.min1));
    let ask2 = crate::arbitrage::cache_of(bottom_price(bv.asks2, c.grids.min2));
    let bid2 = crate::arbitrage::cache_of(top_price(bv.bids2, c.grids.min2));
    let ask3 = crate::arbitrage::cache_of(bottom_price(bv.asks3, c.grids.min3));
    let bid3 = crate::arbitrage::cache_of(top_price(bv.bids3, c.grids.min3));
    crate::arbitrage::opportunity_list(
        crate::arbitrage::forward_opportunity_from(
            ask1, bid2, bid3, c.d1, c.d2, c.d3, c.fee, c.min_profit, ts, amount),
        crate::arbitrage::reverse_opportunity_from(
            bid1, ask2, ask3, c.d1, c.d2, c.d3, c.fee, c.min_profit, ts, amount),
    )
}

/// The whole replay: merge the three streams by timestamp (ties to
/// the lower pair number), land each update on its book, and collect
/// each tick's opportunities in order.
pub open spec fn replay_opportunities(
    bv: BooksView,
    s1: Seq<HistoricalUpdate>,
    s2: Seq<HistoricalUpdate>,
    s3: Seq<HistoricalUpdate>,
    c: ReplayConsts,
    amount: int,
) -> Seq<TriangularOpportunity>
    decreases s1.len() + s2.len() + s3.len(),
{
    if s1.len() == 0 && s2.len() == 0 && s3.len() == 0 {
        Seq::empty()
    } else {
        let t1: int = if s1.len() > 0 { s1[0].timestamp as int } else { u64::MAX as int };
        let t2: int = if s2.len() > 0 { s2[0].timestamp as int } else { u64::MAX as int };
        let t3: int = if s3.len() > 0 { s3[0].timestamp as int } else { u64::MAX as int };
        if s1.len() > 0 && t1 <= t2 && t1 <= t3 {
            let bv2 = apply_books(bv, c.grids, 1, s1[0].update);
            tick_opportunities(bv2, c, t1, amount)
                + replay_opportunities(bv2, s1.subrange(1, s1.len() as int), s2, s3, c, amount)
        } else if s2.len() > 0 && t2 <= t3 {
            let bv2 = apply_books(bv, c.grids, 2, s2[0].update);
            tick_opportunities(bv2, c, t2, amount)
                + replay_opportunities(bv2, s1, s2.subrange(1, s2.len() as int), s3, c, amount)
        } else {
            let bv2 = apply_books(bv, c.grids, 3, s3[0].update);
            tick_opportunities(bv2, c, t3, amount)
                + replay_opportunities(bv2, s1, s2, s3.subrange(1, s3.len() as int), c, amount)
        }
    }
}

/// Landing one `apply_update` on pair `k` of the detector moves the
/// six level arrays exactly as `apply_books` says.
proof fn lemma_applied_books(
    pre: crate::orderbook::OrderBookImpl,
    post: crate::orderbook::OrderBookImpl,
    upd: Update,
    bv_pre: BooksView,
    bv_post: BooksView,
    g: BookGrids,
    pair: int,
)
    requires
        pre.wf(),
        post.wf(),
        match upd {
            Update::SetLevel { price, quantity, side } =>
                pre.level_written(post, price, quantity, side),
            Update::Remove { price, side } => pre.level_written(post, price, 0u64, side),
        },
        1 <= pair <= 3,
        pair == 1 ==> bv_post == (BooksView {
            bids1: post.bids_view(), asks1: post.asks_view(), ..bv_pre
        }) && bv_pre.bids1 == pre.bids_view() && bv_pre.asks1 == pre.asks_view()
            && g.min1 == pre.spec_min_price() && g.max1 == pre.spec_max_price(),
        pair == 2 ==> bv_post == (BooksView {
            bids2: post.bids_view(), asks2: post.asks_view(), ..bv_pre
        }) && bv_pre.bids2 == pre.bids_view() && bv_pre.asks2 == pre.asks_view()
            && g.min2 == pre.spec_min_price() && g.max2 == pre.spec_max_price(),
        pair == 3 ==> bv_post == (BooksView {
            bids3: post.bids_view(), asks3: post.asks_view(), ..bv_pre
        }) && bv_pre.bids3 == pre.bids_view() && bv_pre.asks3 == pre.asks_view()
            && g.min3 == pre.spec_min_price() && g.max3 == pre.spec_max_price(),
    ensures
        bv_post == apply_books(bv_pre, g, pair, upd),
{
    let (price, q, side) = match upd {
        Update::SetLevel { price, quantity, side } => (price, quantity, side),
        Update::Remove { price, side } => (price, 0u64, side),
    };
    pre.lemma_level_written_views(post, price, q, side);
    let minp = pre.spec_min_price() as int;
    let maxp = pre.spec_max_price() as int;
    match side {
        Side::Bid => {
            assert(post.bids_view() == write_view(pre.bids_view(), minp, maxp, price as int, q));
            assert(post.asks_view() == pre.asks_view());
        },
        Side::Ask => {
            assert(post.asks_view() == write_view(pre.asks_view(), minp, maxp, price as int, q));
            assert(post.bids_view() == pre.bids_view());
        },
    }
}

/// Total net profit over a list of opportunities.
pub open spec fn sum_net_profit(s: Seq<TriangularOpportunity>) -> int
    decreases s.len(),
{
    if s.len() == 0 {
        0
    } else {
        sum_net_profit(s.drop_last()) + s.last().net_profit
    }
}

/// The first opportunity with the strictly largest profit, if any.
pub open spec fn first_best(s: Seq<TriangularOpportunity>) -> Option<TriangularOpportunity>
    decreases s.len(),
{
    if s.len() == 0 {
        None
    } else {
        match first_best(s.drop_last()) {
            None => Some(s.last()),
            Some(b) => if s.last().profit_bps > b.profit_bps {
                Some(s.last())
            } else {
                Some(b)
            },
        }
    }
}

/// Replay results: the detected opportunities with their aggregates.
#[derive(Debug)]
pub struct BacktestResult {
    pub opportunities: Vec<TriangularOpportunity>,
    pub total_opportunities: usize,
    pub total_profit: i128,
    pub best_opportunity: Option<TriangularOpportunity>,
    pub avg_profit_per_opportunity: i64,
    pub total_updates_processed: usize,
}

/// Replay engine: one detector and the capital tried on every tick.
pub struct BacktestEngine {
    pub detector: TriangularArbitrageDetector,
    pub starting_capital: i64,
}

impl BacktestEngine {
    pub fn new(min_profit_bps: i64, starting_capital: i64) -> (r: Self)
        requires
            0 <= min_profit_bps,
            10_000 <= starting_capital <= AMOUNT_LIMIT,
        ensures
            r.detector.wf(),
            r.detector.spec_min_profit_bps() == min_profit_bps,
            r.starting_capital == starting_capital,
    {
        Self {
            detector: TriangularArbitrageDetector::new(min_profit_bps),
            starting_capital,
        }
    }

    /// Replay three recorded streams: apply each update to its pair's
    /// book in global timestamp order (ties fall to the lower pair
    /// number) and run the detector after every update.
    ///
    /// The returned list is exactly `replay_opportunities` of the
    /// initial books over the three streams, and the aggregates are
    /// exact over it: the count, the summed and averaged net profit,
    /// and the first opportunity of maximal profit.
    #[verifier::rlimit(100)]
    pub fn run(
        &mut self,
        pair1_data: &Vec<HistoricalUpdate>,
        pair2_data: &Vec<HistoricalUpdate>,
        pair3_data: &Vec<HistoricalUpdate>,
    ) -> (r: BacktestResult)
        requires
            old(self).detector.wf(),
            10_000 <= old(self).starting_capital <= AMOUNT_LIMIT,
            sorted_by_time(pair1_data@),
            sorted_by_time(pair2_data@),
            sorted_by_time(pair3_data@),
            pair1_data@.len() + pair2_data@.len() + pair3_data@.len() <= usize::MAX,
        ensures
            final(self).detector.wf(),
            final(self).starting_capital == old(self).starting_capital,
            r.total_updates_processed
                == pair1_data@.len() + pair2_data@.len() + pair3_data@.len(),
            r.total_opportunities == r.opportunities@.len(),
            -(AMOUNT_LIMIT as int * r.opportunities@.len())
                <= sum_net_profit(r.opportunities@)
                <= AMOUNT_LIMIT as int * r.opportunities@.len(),
            r.total_profit == sum_net_profit(r.opportunities@),
            r.best_opportunity == first_best(r.opportunities@),
            r.avg_profit_per_opportunity == (if r.opportunities@.len() == 0 { 0int } else {
                let s = sum_net_profit(r.opportunities@);
                let n = r.opportunities@.len() as int;
                if s >= 0 { s / n } else { -((-s) / n) }
            }),
            r.opportunities@ == replay_opportunities(
                books_of(old(self).detector),
                pair1_data@, pair2_data@, pair3_data@,
                consts_of(old(self).detector),
                old(self).starting_capital as int),
    {
        let ghost consts = consts_of(self.detector);
        let ghost full = replay_opportunities(
            books_of(self.detector), pair1_data@, pair2_data@, pair3_data@,
            consts, self.starting_capital as int);
        let mut i1: usize = 0;
        let mut i2: usize = 0;
        let mut i3: usize = 0;
        let mut opportunities: Vec<TriangularOpportunity> = Vec::new();
        let mut total_profit: i128 = 0;
        let mut best: Option<TriangularOpportunity> = None;

        let n1 = pair1_data.len();
        let n2 = pair2_data.len();
        let n3 = pair3_data.len();

        proof {
            assert(pair1_data@.subrange(0, n1 as int) =~= pair1_data@);
            assert(pair2_data@.subrange(0, n2 as int) =~= pair2_data@);
            assert(pair3_data@.subrange(0, n3 as int) =~= pair3_data@);
            assert(opportunities@ + full =~= full);
        }

        while i1 < n1 || i2 < n2 || i3 < n3
            invariant
                i1 <= n1 == pair1_data@.len(),
                i2 <= n2 == pair2_data@.len(),
                i3 <= n3 == pair3_data@.len(),
                n1 + n2 + n3 <= usize::MAX,
                self.detector.wf(),
                self.starting_capital == old(self).starting_capital,
                10_000 <= self.starting_capital <= AMOUNT_LIMIT,
                total_profit == sum_net_profit(opportunities@),
                -(AMOUNT_LIMIT as int * opportunities@.len())
                    <= total_profit <= AMOUNT_LIMIT as int * opportunities@.len(),
                opportunities@.len() <= 2 * (i1 + i2 + i3),
                best == first_best(opportunities@),
                consts == consts_of(self.detector),
                full == replay_opportunities(
                    books_of(old(self).detector), pair1_data@, pair2_data@, pair3_data@,
                    consts, self.starting_capital as int),
                full == opportunities@ + replay_opportunities(
                    books_of(self.detector),
                    pair1_data@.subrange(i1 as int, n1 as int),
                    pair2_data@.subrange(i2 as int, n2 as int),
                    pair3_data@.subrange(i3 as int, n3 as int),
                    consts, self.starting_capital as int),
            decreases (n1 - i1) + (n2 - i2) + (n3 - i3),
        {
            let ghost bv_pre = books_of(self.detector);
            let ghost s1 = pair1_data@.subrange(i1 as int, n1 as int);
            let ghost s2 = pair2_data@.subrange(i2 as int, n2 as int);
            let ghost s3 = pair3_data@.subrange(i3 as int, n3 as int);
            let t1: u64 = if i1 < n1 { pair1_data[i1].timestamp } else { u64::MAX };
            let t2: u64 = if i2 < n2 { pair2_data[i2].timestamp } else { u64::MAX };
            let t3: u64 = if i3 < n3 { pair3_data[i3].timestamp } else { u64::MAX };

            proof {
                assert(i1 < n1 || i2 < n2 || i3 < n3);
            }
            proof {
                assert(s1.len() > 0 ==> s1[0] == pair1_data@[i1 as int]);
                assert(s2.len() > 0 ==> s2[0] == pair2_data@[i2 as int]);
                assert(s3.len() > 0 ==> s3[0] == pair3_data@[i3 as int]);
            }
            let ghost pair_no: int;
            let ts: u64;
            if i1 < n1 && t1 <= t2 && t1 <= t3 {
                let ghost pre_book = self.detector.pair1;
                self.detector.pair1.apply_update(pair1_data[i1].update);
                proof {
                    pair_no = 1;
                    lemma_applied_books(
                        pre_book, self.detector.pair1, pair1_data@[i1 as int].update,
                        bv_pre, books_of(self.detector), consts.grids, 1);
                }
                ts = t1;
                i1 += 1;
            } else if i2 < n2 && t2 <= t3 {
                let ghost pre_book = self.detector.pair2;
                self.detector.pair2.apply_update(pair2_data[i2].update);
                proof {
                    pair_no = 2;
                    lemma_applied_books(
                        pre_book, self.detector.pair2, pair2_data@[i2 as int].update,
                        bv_pre, books_of(self.detector), consts.grids, 2);
                }
                ts = t2;
                i2 += 1;
            } else {
                proof {
                    assert(i3 < n3);
                }
                let ghost pre_book = self.detector.pair3;
                self.detector.pair3.apply_update(pair3_data[i3].update);
                proof {
                    pair_no = 3;
                    lemma_applied_books(
                        pre_book, self.detector.pair3, pair3_data@[i3 as int].update,
                        bv_pre, books_of(self.detector), consts.grids, 3);
                }
                ts = t3;
                i3 += 1;
            }
            let ghost bv_post = books_of(self.detector);

            proof {
                self.detector.pair1.lemma_best_is_view_extreme();
                self.detector.pair2.lemma_best_is_view_extreme();
                self.detector.pair3.lemma_best_is_view_extreme();
            }
            let detected = self.detector.detect_opportunities(ts, self.starting_capital);
            proof {
                assert(detected@ =~= tick_opportunities(
                    bv_post, consts, ts as int, self.starting_capital as int));
            }
            let ghost ops_checkpoint = opportunities@;

            let mut k: usize = 0;
            while k < detected.len()
                invariant
                    k <= detected@.len(),
                    detected@.len() <= 2,
                    forall|m: int| 0 <= m < detected@.len()
                        ==> -AMOUNT_LIMIT <= (#[trigger] detected@[m]).net_profit <= AMOUNT_LIMIT,
                    total_profit == sum_net_profit(opportunities@),
                    -(AMOUNT_LIMIT as int * opportunities@.len())
                        <= total_profit <= AMOUNT_LIMIT as int * opportunities@.len(),
                    opportunities@.len() <= 2 * (i1 + i2 + i3) - 2 + k,
                    1 <= i1 + i2 + i3 <= n1 + n2 + n3 <= usize::MAX,
                    best == first_best(opportunities@),
                    opportunities@ == ops_checkpoint + detected@.take(k as int),
                decreases detected.len() - k,
            {
                let opp = detected[k];
                proof {
                    assert(opportunities@.push(opp).drop_last() =~= opportunities@);
                    assert(AMOUNT_LIMIT as int * (opportunities@.len() + 1)
                        == AMOUNT_LIMIT as int * opportunities@.len() + AMOUNT_LIMIT
                        && AMOUNT_LIMIT as int * opportunities@.len()
                            <= AMOUNT_LIMIT as int * (2 * (usize::MAX as int)))
                        by (nonlinear_arith)
                        requires 0 <= opportunities@.len() <= 2 * (usize::MAX as int),
                            AMOUNT_LIMIT as int > 0;
                }
                total_profit = total_profit + (opp.net_profit as i128);
                best = match best {
                    None => Some(opp),
                    Some(b) => if opp.profit_bps > b.profit_bps {
                        Some(opp)
                    } else {
                        Some(b)
                    },
                };
                proof {
                    assert(detected@.take(k + 1).drop_last() =~= detected@.take(k as int));
                    assert(opportunities@.push(opp)
                        =~= ops_checkpoint + detected@.take(k + 1));
                }
                opportunities.push(opp);
                k += 1;
            }

            proof {
                assert(detected@.take(detected@.len() as int) =~= detected@);
                let s1n = pair1_data@.subrange(i1 as int, n1 as int);
                let s2n = pair2_data@.subrange(i2 as int, n2 as int);
                let s3n = pair3_data@.subrange(i3 as int, n3 as int);
                if pair_no == 1 {
                    assert(s1.subrange(1, s1.len() as int) =~= s1n);
                    assert(s2 =~= s2n);
                    assert(s3 =~= s3n);
                } else if pair_no == 2 {
                    assert(s2.subrange(1, s2.len() as int) =~= s2n);
                    assert(s1 =~= s1n);
                    assert(s3 =~= s3n);
                } else {
                    assert(s3.subrange(1, s3.len() as int) =~= s3n);
                    assert(s1 =~= s1n);
                    assert(s2 =~= s2n);
                }
                assert(replay_opportunities(
                    bv_pre, s1, s2, s3, consts, self.starting_capital as int)
                    == detected@ + replay_opportunities(
                        bv_post, s1n, s2n, s3n, consts, self.starting_capital as int));
                assert(opportunities@ + replay_opportunities(
                    bv_post, s1n, s2n, s3n, consts, self.starting_capital as int)
                    =~= full);
            }
        }

        proof {
            assert(pair1_data@.subrange(n1 as int, n1 as int) =~= Seq::<HistoricalUpdate>::empty());
            assert(pair2_data@.subrange(n2 as int, n2 as int) =~= Seq::<HistoricalUpdate>::empty());
            assert(pair3_data@.subrange(n3 as int, n3 as int) =~= Seq::<HistoricalUpdate>::empty());
            assert(opportunities@ + Seq::<TriangularOpportunity>::empty() =~= opportunities@);
        }

        let total_opportunities = opportunities.len();
        let avg_profit: i64 = if total_opportunities > 0 {
            proof {
                assert(AMOUNT_LIMIT as int * opportunities@.len()
                    <= AMOUNT_LIMIT as int * usize::MAX) by (nonlinear_arith)
                    requires opportunities@.len() <= usize::MAX as int;
            }
            let q: i128 = if total_profit >= 0 {
                crate::numeric::div_nn_i128(total_profit, total_opportunities as i128)
            } else {
                -crate::numeric::div_nn_i128(-total_profit, total_opportunities as i128)
            };
            proof {
                crate::position::lemma_magnitude_div_le(
                    total_profit as int, total_opportunities as int);
                assert(total_profit as int <= AMOUNT_LIMIT as int * opportunities@.len()
                    ==> total_profit as int / (total_opportunities as int) <= AMOUNT_LIMIT as int)
                    by (nonlinear_arith)
                    requires
                        total_opportunities as int == opportunities@.len(),
                        opportunities@.len() >= 1,
                        AMOUNT_LIMIT as int > 0;
                assert(-(total_profit as int) <= AMOUNT_LIMIT as int * opportunities@.len()
                    ==> (-(total_profit as int)) / (total_opportunities as int)
                        <= AMOUNT_LIMIT as int)
                    by (nonlinear_arith)
                    requires
                        total_opportunities as int == opportunities@.len(),
                        opportunities@.len() >= 1,
                        AMOUNT_LIMIT as int > 0;
            }
            q as i64
        } else {
            0
        };

        BacktestResult {
            total_opportunities,
            total_profit,
            best_opportunity: best,
            avg_profit_per_opportunity: avg_profit,
            total_updates_processed: (i1 + i2) + i3,
            opportunities,
        }
    }
}

} // verus!
