//! In-memory price-level order book over a fixed price grid.
//!
//! Quantities for each side live in dense arrays indexed by
//! `price - min_price`; the best bid (largest non-empty bid index) and
//! best ask (smallest non-empty ask index) are cached so reads are O(1).

use vstd::prelude::*;

verus! {

/// A price in integer ticks on the book's grid.
pub type Price = i64;

/// A quantity at one price level; zero means the level is absent.
pub type Quantity = u64;

#[derive(Debug, Clone, Copy, PartialEq, Eq, Structural)]
pub enum Side {
    Bid,
    Ask,
}

#[derive(Debug, Clone, Copy, PartialEq, Eq, Structural)]
pub enum Update {
    SetLevel { price: Price, quantity: Quantity, side: Side },
    Remove { price: Price, side: Side },
}

pub struct OrderBookImpl {
    bids: Vec<Quantity>,
    asks: Vec<Quantity>,
    best_bid_idx: Option<usize>,
    best_ask_idx: Option<usize>,
    min_price: i64,
    max_price: i64,
}

/// `i` is the largest index of `levels` holding a non-zero quantity.
pub open spec fn is_top_index(levels: Seq<Quantity>, i: int) -> bool {
    &&& 0 <= i < levels.len()
    &&& levels[i] > 0
    &&& forall|j: int| i < j < levels.len() ==> levels[j] == 0
}

/// `i` is the smallest index of `levels` holding a non-zero quantity.
pub open spec fn is_bottom_index(levels: Seq<Quantity>, i: int) -> bool {
    &&& 0 <= i < levels.len()
    &&& levels[i] > 0
    &&& forall|j: int| 0 <= j < i ==> levels[j] == 0
}

impl OrderBookImpl {
    /// Number of price levels on the grid.
    pub closed spec fn levels(self) -> int {
        self.max_price - self.min_price
    }

    pub closed spec fn spec_min_price(self) -> i64 {
        self.min_price
    }

    pub closed spec fn spec_max_price(self) -> i64 {
        self.max_price
    }

    /// The price grid covers `[min_price, max_price)`.
    pub open spec fn in_range(self, price: Price) -> bool {
        self.spec_min_price() <= price < self.spec_max_price()
    }

    /// Bid quantity resting at `price` (zero off the grid).
    pub closed spec fn bid_at(self, price: Price) -> Quantity {
        if self.in_range(price) {
            self.bids[price - self.min_price]
        } else {
            0
        }
    }

    /// Ask quantity resting at `price` (zero off the grid).
    pub closed spec fn ask_at(self, price: Price) -> Quantity {
        if self.in_range(price) {
            self.asks[price - self.min_price]
        } else {
            0
        }
    }

    pub open spec fn side_at(self, price: Price, side: Side) -> Quantity {
        match side {
            Side::Bid => self.bid_at(price),
            Side::Ask => self.ask_at(price),
        }
    }

    /// Well-formed book: arrays span the grid and both cached best
    /// indices point at the true extremes of their sides.
    pub closed spec fn wf(self) -> bool {
        &&& self.min_price <= self.max_price
        &&& self.max_price - self.min_price <= usize::MAX
        &&& self.max_price - self.min_price <= i64::MAX
        &&& self.bids.len() == self.levels()
        &&& self.asks.len() == self.levels()
        &&& match self.best_bid_idx {
            Some(i) => is_top_index(self.bids@, i as int),
            None => forall|j: int| 0 <= j < self.bids@.len() ==> self.bids@[j] == 0,
        }
        &&& match self.best_ask_idx {
            Some(i) => is_bottom_index(self.asks@, i as int),
            None => forall|j: int| 0 <= j < self.asks@.len() ==> self.asks@[j] == 0,
        }
    }

    /// The book keeps its grid but level `price` on `side` now holds
    /// `quantity`; every other level of either side is unchanged.
    pub open spec fn level_written(self, post: Self, price: Price, quantity: Quantity, side: Side) -> bool {
        &&& post.spec_min_price() == self.spec_min_price()
        &&& post.spec_max_price() == self.spec_max_price()
        &&& post.side_at(price, side) == if self.in_range(price) { quantity } else { 0u64 }
        &&& forall|p: Price| p != price ==> post.bid_at(p) == self.bid_at(p)
        &&& forall|p: Price| p != price ==> post.ask_at(p) == self.ask_at(p)
        &&& match side {
            Side::Bid => post.ask_at(price) == self.ask_at(price),
            Side::Ask => post.bid_at(price) == self.bid_at(price),
        }
    }

    /// Create a book over the half-open price range `[min_price, max_price)`.
    ///
    /// Prices are integer ticks; the caller picks the tick size
    /// (the live pairs use four or eight decimals per unit).
    pub fn with_range(min_price: i64, max_price: i64) -> (r: Self)
        requires
            min_price <= max_price,
            max_price - min_price <= usize::MAX,
            max_price - min_price <= i64::MAX,
        ensures
            r.wf(),
            r.spec_min_price() == min_price,
            r.spec_max_price() == max_price,
            forall|p: Price, s: Side| r.side_at(p, s) == 0,
    {
        let levels: usize = (max_price - min_price) as usize;
        let bids: Vec<Quantity> = vec_of_zeros(levels);
        let asks: Vec<Quantity> = vec_of_zeros(levels);
        Self {
            bids,
            asks,
            best_bid_idx: None,
            best_ask_idx: None,
            min_price,
            max_price,
        }
    }

    /// Create a book with the default grid of 200 000 ticks above zero.
    pub fn new() -> (r: Self)
        ensures
            r.wf(),
            r.spec_min_price() == 0,
            r.spec_max_price() == 200_000,
            forall|p: Price, s: Side| r.side_at(p, s) == 0,
    {
        Self::with_range(0, 200_000)
    }

    fn price_to_idx(&self, price: Price) -> (r: Option<usize>)
        requires
            self.wf(),
        ensures
            match r {
                Some(idx) => self.in_range(price) && idx == price - self.spec_min_price(),
                None => !self.in_range(price),
            },
    {
        if price >= self.min_price && price < self.max_price {
            Some((price - self.min_price) as usize)
        } else {
            None
        }
    }

    fn idx_to_price(&self, idx: usize) -> (r: Price)
        requires
            self.wf(),
            idx < self.levels(),
        ensures
            r == self.spec_min_price() + idx,
            self.in_range(r),
    {
        self.min_price + idx as i64
    }

    fn price_levels(&self) -> (r: usize)
        requires
            self.wf(),
        ensures
            r == self.levels(),
    {
        self.bids.len()
    }

    /// Apply one feed update. A `SetLevel` with zero quantity clears
    /// the level exactly like a `Remove`; a price off the grid is
    /// ignored.
    pub fn apply_update(&mut self, update: Update)
        requires
            old(self).wf(),
        ensures
            final(self).wf(),
            match update {
                Update::SetLevel { price, quantity, side } =>
                    old(self).level_written(*final(self), price, quantity, side),
                Update::Remove { price, side } =>
                    old(self).level_written(*final(self), price, 0u64, side),
            },
    {
        match update {
            Update::SetLevel { price, quantity, side } => {
                self.write_level(price, quantity, side);
            }
            Update::Remove { price, side } => {
                self.write_level(price, 0, side);
            }
        }
    }

    fn write_level(&mut self, price: Price, quantity: Quantity, side: Side)
        requires
            old(self).wf(),
        ensures
            final(self).wf(),
            old(self).level_written(*final(self), price, quantity, side),
    {
        let idx_opt = self.price_to_idx(price);
        if let Some(idx) = idx_opt {
            let levels = self.price_levels();
            match side {
                Side::Bid => {
                    self.bids.set(idx, quantity);
                    if quantity > 0 {
                        self.best_bid_idx = Some(match self.best_bid_idx {
                            Some(best) => if idx > best { idx } else { best },
                            None => idx,
                        });
                    } else if self.best_bid_idx == Some(idx) {
                        self.best_bid_idx = scan_down(&self.bids, idx);
                    }
                }
                Side::Ask => {
                    self.asks.set(idx, quantity);
                    if quantity > 0 {
                        self.best_ask_idx = Some(match self.best_ask_idx {
                            Some(best) => if idx < best { idx } else { best },
                            None => idx,
                        });
                    } else if self.best_ask_idx == Some(idx) {
                        self.best_ask_idx = scan_up(&self.asks, idx + 1);
                    }
                }
            }
            assert(forall|p: Price| p != price && old(self).in_range(p)
                ==> self.bids@[p - self.min_price] == old(self).bids@[p - self.min_price]
                    && self.asks@[p - self.min_price] == old(self).asks@[p - self.min_price]);
        }
    }

    /// Difference between the best ask and the best bid, when both exist.
    pub fn get_spread(&self) -> (r: Option<Price>)
        requires
            self.wf(),
        ensures
            match (self.spec_best_ask(), self.spec_best_bid()) {
                (Some(a), Some(b)) => r == Some((a - b) as i64),
                _ => r is None,
            },
    {
        match (self.best_ask_idx, self.best_bid_idx) {
            (Some(ask_idx), Some(bid_idx)) => {
                Some(self.idx_to_price(ask_idx) - self.idx_to_price(bid_idx))
            }
            _ => None,
        }
    }

    /// The highest price with a resting bid, if any.
    pub closed spec fn spec_best_bid(self) -> Option<Price> {
        match self.best_bid_idx {
            Some(i) => Some((self.min_price + i) as i64),
            None => None,
        }
    }

    /// The lowest price with a resting ask, if any.
    pub closed spec fn spec_best_ask(self) -> Option<Price> {
        match self.best_ask_idx {
            Some(i) => Some((self.min_price + i) as i64),
            None => None,
        }
    }

    pub fn get_best_bid(&self) -> (r: Option<Price>)
        requires
            self.wf(),
        ensures
            r == self.spec_best_bid(),
            match r {
                Some(p) => self.bid_at(p) > 0
                    && forall|q: Price| q > p ==> self.bid_at(q) == 0,
                None => forall|q: Price| self.bid_at(q) == 0,
            },
    {
        proof {
            self.lemma_best_bid_character();
        }
        match self.best_bid_idx {
            Some(idx) => Some(self.idx_to_price(idx)),
            None => None,
        }
    }

    pub fn get_best_ask(&self) -> (r: Option<Price>)
        requires
            self.wf(),
        ensures
            r == self.spec_best_ask(),
            match r {
                Some(p) => self.ask_at(p) > 0
                    && forall|q: Price| q < p ==> self.ask_at(q) == 0,
                None => forall|q: Price| self.ask_at(q) == 0,
            },
    {
        proof {
            self.lemma_best_ask_character();
        }
        match self.best_ask_idx {
            Some(idx) => Some(self.idx_to_price(idx)),
            None => None,
        }
    }

    /// In a well-formed book the cached best bid is the largest price
    /// with a non-zero bid, and absence means an empty bid side.
    pub proof fn lemma_best_bid_character(self)
        requires
            self.wf(),
        ensures
            match self.spec_best_bid() {
                Some(p) => self.in_range(p) && self.bid_at(p) > 0
                    && forall|q: Price| q > p ==> self.bid_at(q) == 0,
                None => forall|q: Price| self.bid_at(q) == 0,
            },
    {
    }

    /// Mirror of `lemma_best_bid_character` for the ask side.
    pub proof fn lemma_best_ask_character(self)
        requires
            self.wf(),
        ensures
            match self.spec_best_ask() {
                Some(p) => self.in_range(p) && self.ask_at(p) > 0
                    && forall|q: Price| q < p ==> self.ask_at(q) == 0,
                None => forall|q: Price| self.ask_at(q) == 0,
            },
    {
    }

    /// Quantity resting at `price`, or `None` when the level is empty
    /// or off the grid.
    pub fn get_quantity_at(&self, price: Price, side: Side) -> (r: Option<Quantity>)
        requires
            self.wf(),
        ensures
            r == if self.side_at(price, side) > 0 {
                Some(self.side_at(price, side))
            } else {
                None::<Quantity>
            },
    {
        match self.price_to_idx(price) {
            Some(idx) => {
                let qty = match side {
                    Side::Bid => self.bids[idx],
                    Side::Ask => self.asks[idx],
                };
                if qty > 0 {
                    Some(qty)
                } else {
                    None
                }
            }
            None => None,
        }
    }

    /// The up-to-`n` non-empty bid levels at or below index `i`, best first.
    pub closed spec fn bids_from(self, i: int, n: int) -> Seq<(Price, Quantity)>
        decreases i + 1,
    {
        if n <= 0 || i < 0 || i >= self.levels() {
            Seq::empty()
        } else if self.bids[i] > 0 {
            seq![((self.min_price + i) as i64, self.bids[i])] + self.bids_from(i - 1, n - 1)
        } else {
            self.bids_from(i - 1, n)
        }
    }

    /// The up-to-`n` non-empty ask levels at or above index `i`, best first.
    pub closed spec fn asks_from(self, i: int, n: int) -> Seq<(Price, Quantity)>
        decreases self.levels() - i,
    {
        if n <= 0 || i < 0 || i >= self.levels() {
            Seq::empty()
        } else if self.asks[i] > 0 {
            seq![((self.min_price + i) as i64, self.asks[i])] + self.asks_from(i + 1, n - 1)
        } else {
            self.asks_from(i + 1, n)
        }
    }

    /// The up-to-`n` best non-empty levels of `side`, best first: bids
    /// walk down from the best bid, asks walk up from the best ask.
    pub open spec fn spec_top_levels(self, side: Side, n: int) -> Seq<(Price, Quantity)> {
        match side {
            Side::Bid => match self.spec_best_bid() {
                Some(p) => self.bids_from(p - self.spec_min_price(), n),
                None => Seq::empty(),
            },
            Side::Ask => match self.spec_best_ask() {
                Some(p) => self.asks_from(p - self.spec_min_price(), n),
                None => Seq::empty(),
            },
        }
    }

    /// Collect the best `n` non-empty levels of one side, best first.
    pub fn get_top_levels(&self, side: Side, n: usize) -> (r: Vec<(Price, Quantity)>)
        requires
            self.wf(),
        ensures
            r@ == self.spec_top_levels(side, n as int),
    {
        let mut result: Vec<(Price, Quantity)> = Vec::new();
        match side {
            Side::Bid => {
                if let Some(start) = self.best_bid_idx {
                    let mut i: usize = start + 1;
                    while i > 0 && result.len() < n
                        invariant
                            self.wf(),
                            i <= start + 1 < self.levels() + 1,
                            result.len() <= n,
                            self.bids_from(start as int, n as int)
                                == result@ + self.bids_from(i - 1, n - result.len()),
                        decreases i,
                    {
                        i -= 1;
                        if self.bids[i] > 0 {
                            result.push((self.idx_to_price(i), self.bids[i]));
                        }
                    }
                    proof {
                        if i == 0 {
                            assert(self.bids_from(-1, n - result.len()) =~= Seq::empty());
                        } else {
                            assert(self.bids_from(i - 1, 0) =~= Seq::empty());
                        }
                        assert(result@ =~= result@ + Seq::empty());
                    }
                }
            }
            Side::Ask => {
                if let Some(start) = self.best_ask_idx {
                    let levels = self.price_levels();
                    let mut i: usize = start;
                    while i < levels && result.len() < n
                        invariant
                            self.wf(),
                            start <= i,
                            levels == self.levels(),
                            result.len() <= n,
                            self.asks_from(start as int, n as int)
                                == result@ + self.asks_from(i as int, n - result.len()),
                        decreases levels - i,
                    {
                        if self.asks[i] > 0 {
                            result.push((self.idx_to_price(i), self.asks[i]));
                        }
                        i += 1;
                    }
                    proof {
                        if i == levels {
                            assert(self.asks_from(levels as int, n - result.len()) =~= Seq::empty());
                        } else {
                            assert(self.asks_from(i as int, 0) =~= Seq::empty());
                        }
                        assert(result@ =~= result@ + Seq::empty());
                    }
                }
            }
        }
        result
    }

    /// Total quantity resting on one side of the book.
    ///
    /// The caller guarantees the mathematical sum fits in a `u64`.
    pub fn get_total_quantity(&self, side: Side) -> (r: Quantity)
        requires
            self.wf(),
            match side {
                Side::Bid => sum_of(self.bids_view()) <= u64::MAX,
                Side::Ask => sum_of(self.asks_view()) <= u64::MAX,
            },
        ensures
            r == match side {
                Side::Bid => sum_of(self.bids_view()),
                Side::Ask => sum_of(self.asks_view()),
            },
    {
        let levels = match side {
            Side::Bid => &self.bids,
            Side::Ask => &self.asks,
        };
        sum_vec(levels)
    }

    /// The raw bid array, lowest price first.
    pub closed spec fn bids_view(self) -> Seq<Quantity> {
        self.bids@
    }

    /// The raw ask array, lowest price first.
    pub closed spec fn asks_view(self) -> Seq<Quantity> {
        self.asks@
    }
}

impl Clone for OrderBookImpl {
    fn clone(&self) -> (r: Self)
        ensures
            r.spec_min_price() == self.spec_min_price(),
            r.spec_max_price() == self.spec_max_price(),
            forall|p: Price, s: Side| r.side_at(p, s) == self.side_at(p, s),
            r.spec_best_bid() == self.spec_best_bid(),
            r.spec_best_ask() == self.spec_best_ask(),
            self.wf() ==> r.wf(),
    {
        let r = Self {
            bids: self.bids.clone(),
            asks: self.asks.clone(),
            best_bid_idx: self.best_bid_idx,
            best_ask_idx: self.best_ask_idx,
            min_price: self.min_price,
            max_price: self.max_price,
        };
        proof {
            assert(r.bids@ =~= self.bids@);
            assert(r.asks@ =~= self.asks@);
        }
        r
    }
}

/// Clearing a level (a `SetLevel` with zero quantity, or a `Remove`)
/// empties exactly that level, and each cached best afterwards points
/// at the next non-zero level of its side, or at nothing.
pub proof fn lemma_cleared_level(pre: OrderBookImpl, post: OrderBookImpl, price: Price, side: Side)
    requires
        pre.wf(),
        post.wf(),
        pre.level_written(post, price, 0u64, side),
    ensures
        post.side_at(price, side) == 0,
        match post.spec_best_bid() {
            Some(p) => post.bid_at(p) > 0 && forall|q: Price| q > p ==> post.bid_at(q) == 0,
            None => forall|q: Price| post.bid_at(q) == 0,
        },
        match post.spec_best_ask() {
            Some(p) => post.ask_at(p) > 0 && forall|q: Price| q < p ==> post.ask_at(q) == 0,
            None => forall|q: Price| post.ask_at(q) == 0,
        },
{
    post.lemma_best_bid_character();
    post.lemma_best_ask_character();
}

/// A price off the grid never rests quantity: reads there are zero,
/// and writing such a price (which `level_written` maps to a zero
/// write) leaves every readable level of the book as it was.
pub proof fn lemma_off_grid_is_empty(pre: OrderBookImpl, post: OrderBookImpl, price: Price, quantity: Quantity, side: Side)
    requires
        pre.level_written(post, price, quantity, side),
        !pre.in_range(price),
    ensures
        forall|p: Price, s: Side| post.side_at(p, s) == pre.side_at(p, s),
        pre.side_at(price, side) == 0,
{
    assert forall|p: Price, s: Side| post.side_at(p, s) == pre.side_at(p, s) by {
        if p == price {
            assert(!post.in_range(price));
        }
    }
}


/// Index of the highest non-empty level, or nothing.
pub open spec fn view_top(levels: Seq<Quantity>) -> Option<int>
    decreases levels.len(),
{
    if levels.len() == 0 {
        None
    } else if levels.last() > 0 {
        Some(levels.len() - 1)
    } else {
        view_top(levels.drop_last())
    }
}

/// Index of the lowest non-empty level, or nothing.
pub open spec fn view_bottom(levels: Seq<Quantity>) -> Option<int>
    decreases levels.len(),
{
    if levels.len() == 0 {
        None
    } else if levels[0] > 0 {
        Some(0)
    } else {
        match view_bottom(levels.subrange(1, levels.len() as int)) {
            Some(i) => Some(i + 1),
            None => None,
        }
    }
}

proof fn lemma_view_top_character(levels: Seq<Quantity>)
    ensures
        match view_top(levels) {
            Some(i) => is_top_index(levels, i),
            None => forall|j: int| 0 <= j < levels.len() ==> levels[j] == 0,
        },
    decreases levels.len(),
{
    if levels.len() > 0 && !(levels.last() > 0) {
        lemma_view_top_character(levels.drop_last());
        let sub = levels.drop_last();
        match view_top(sub) {
            Some(i) => {
                assert(levels[i] == sub[i]);
                assert forall|j: int| i < j < levels.len() implies levels[j] == 0 by {
                    if j < levels.len() - 1 {
                        assert(levels[j] == sub[j]);
                    } else {
                        assert(levels[j] == levels.last());
                    }
                }
            },
            None => {
                assert forall|j: int| 0 <= j < levels.len() implies levels[j] == 0 by {
                    if j < levels.len() - 1 {
                        assert(levels[j] == sub[j]);
                    } else {
                        assert(levels[j] == levels.last());
                    }
                }
            },
        }
    }
}

proof fn lemma_view_bottom_character(levels: Seq<Quantity>)
    ensures
        match view_bottom(levels) {
            Some(i) => is_bottom_index(levels, i),
            None => forall|j: int| 0 <= j < levels.len() ==> levels[j] == 0,
        },
    decreases levels.len(),
{
    if levels.len() > 0 && !(levels[0] > 0) {
        let sub = levels.subrange(1, levels.len() as int);
        lemma_view_bottom_character(sub);
        match view_bottom(sub) {
            Some(i) => {
                assert(levels[i + 1] == sub[i]);
                assert forall|j: int| 0 <= j < i + 1 implies levels[j] == 0 by {
                    if j > 0 {
                        assert(levels[j] == sub[j - 1]);
                    }
                }
            },
            None => {
                assert forall|j: int| 0 <= j < levels.len() implies levels[j] == 0 by {
                    if j > 0 {
                        assert(levels[j] == sub[j - 1]);
                    }
                }
            },
        }
    }
}

impl OrderBookImpl {
    /// In a well-formed book the cached bests are exactly the extreme
    /// non-empty indices of the level arrays.
    pub proof fn lemma_best_is_view_extreme(self)
        requires
            self.wf(),
        ensures
            self.spec_best_bid() == match view_top(self.bids_view()) {
                Some(i) => Some((self.spec_min_price() + i) as i64),
                None => None::<i64>,
            },
            self.spec_best_ask() == match view_bottom(self.asks_view()) {
                Some(i) => Some((self.spec_min_price() + i) as i64),
                None => None::<i64>,
            },
    {
        lemma_view_top_character(self.bids@);
        lemma_view_bottom_character(self.asks@);
        match (self.best_bid_idx, view_top(self.bids@)) {
            (Some(i), Some(j)) => {
                assert(i as int == j) by {
                    if (i as int) < j {
                        assert(self.bids@[j] == 0);
                    }
                    if j < i as int {
                        assert(self.bids@[i as int] == 0);
                    }
                };
            },
            (Some(i), None) => {
                assert(self.bids@[i as int] > 0);
            },
            (None, Some(j)) => {
                assert(self.bids@[j] == 0);
            },
            (None, None) => {},
        }
        match (self.best_ask_idx, view_bottom(self.asks@)) {
            (Some(i), Some(j)) => {
                assert(i as int == j) by {
                    if (i as int) < j {
                        assert(self.asks@[i as int] == 0);
                    }
                    if j < i as int {
                        assert(self.asks@[j] == 0);
                    }
                };
            },
            (Some(i), None) => {
                assert(self.asks@[i as int] > 0);
            },
            (None, Some(j)) => {
                assert(self.asks@[j] == 0);
            },
            (None, None) => {},
        }
    }

    /// `level_written` on the level arrays: the written side's array
    /// takes the new quantity at the price's index (when on the grid),
    /// and every other array entry stays.
    pub proof fn lemma_level_written_views(
        self,
        post: Self,
        price: Price,
        quantity: Quantity,
        side: Side,
    )
        requires
            self.wf(),
            post.wf(),
            self.level_written(post, price, quantity, side),
        ensures
            post.bids_view() == (if side == Side::Bid && self.in_range(price) {
                self.bids_view().update(price - self.spec_min_price(), quantity)
            } else {
                self.bids_view()
            }),
            post.asks_view() == (if side == Side::Ask && self.in_range(price) {
                self.asks_view().update(price - self.spec_min_price(), quantity)
            } else {
                self.asks_view()
            }),
    {
        assert forall|j: int| 0 <= j < self.bids@.len() implies
            post.bids@[j] == (if side == Side::Bid && self.in_range(price)
                && j == price - self.min_price { quantity } else { self.bids@[j] }) by {
            let p = (self.min_price + j) as i64;
            assert(post.bid_at(p) == post.bids@[j]);
            if p != price {
                assert(post.bid_at(p) == self.bid_at(p));
            }
        }
        assert forall|j: int| 0 <= j < self.asks@.len() implies
            post.asks@[j] == (if side == Side::Ask && self.in_range(price)
                && j == price - self.min_price { quantity } else { self.asks@[j] }) by {
            let p = (self.min_price + j) as i64;
            assert(post.ask_at(p) == post.asks@[j]);
            if p != price {
                assert(post.ask_at(p) == self.ask_at(p));
            }
        }
        if side == Side::Bid && self.in_range(price) {
            assert(post.bids@ =~= self.bids@.update(price - self.min_price, quantity));
            assert(post.asks@ =~= self.asks@);
        } else if side == Side::Ask && self.in_range(price) {
            assert(post.asks@ =~= self.asks@.update(price - self.min_price, quantity));
            assert(post.bids@ =~= self.bids@);
        } else {
            assert(post.bids@ =~= self.bids@);
            assert(post.asks@ =~= self.asks@);
        }
    }
}

/// Sum of a sequence of level quantities.
pub open spec fn sum_of(s: Seq<Quantity>) -> int
    decreases s.len(),
{
    if s.len() == 0 {
        0
    } else {
        sum_of(s.drop_last()) + s.last()
    }
}

/// Every prefix sum is bounded by the full sum.
proof fn lemma_sum_prefix_le(s: Seq<Quantity>, i: int)
    requires
        0 <= i <= s.len(),
    ensures
        sum_of(s.take(i)) <= sum_of(s),
    decreases s.len() - i,
{
    if i == s.len() {
        assert(s.take(i) =~= s);
    } else {
        assert(s.take(i + 1).drop_last() =~= s.take(i));
        lemma_sum_prefix_le(s, i + 1);
    }
}

/// Sum a vector of quantities, given that the sum fits in a `u64`.
fn sum_vec(levels: &Vec<Quantity>) -> (r: u64)
    requires
        sum_of(levels@) <= u64::MAX,
    ensures
        r == sum_of(levels@),
{
    let mut total: u64 = 0;
    let mut i: usize = 0;
    while i < levels.len()
        invariant
            i <= levels.len(),
            sum_of(levels@) <= u64::MAX,
            total == sum_of(levels@.take(i as int)),
        decreases levels.len() - i,
    {
        proof {
            assert(levels@.take(i + 1).drop_last() =~= levels@.take(i as int));
            assert(levels@.take(i + 1).last() == levels@[i as int]);
            lemma_sum_prefix_le(levels@, i + 1);
        }
        total += levels[i];
        i += 1;
    }
    proof {
        assert(levels@.take(levels@.len() as int) =~= levels@);
    }
    total
}

/// Build a vector of `n` empty levels.
fn vec_of_zeros(n: usize) -> (r: Vec<Quantity>)
    ensures
        r.len() == n,
        forall|j: int| 0 <= j < n ==> r@[j] == 0,
{
    let mut r: Vec<Quantity> = Vec::new();
    let mut i: usize = 0;
    while i < n
        invariant
            i <= n,
            r.len() == i,
            forall|j: int| 0 <= j < i ==> r@[j] == 0,
        decreases n - i,
    {
        r.push(0);
        i += 1;
    }
    r
}

/// Highest non-empty level strictly below `idx`, scanning downward.
fn scan_down(levels: &Vec<Quantity>, idx: usize) -> (r: Option<usize>)
    requires
        idx <= levels.len(),
    ensures
        match r {
            Some(i) => i < idx && levels@[i as int] > 0
                && forall|j: int| i < j < idx ==> levels@[j] == 0,
            None => forall|j: int| 0 <= j < idx ==> levels@[j] == 0,
        },
{
    let mut i: usize = idx;
    while i > 0
        invariant
            i <= idx <= levels.len(),
            forall|j: int| i <= j < idx ==> levels@[j] == 0,
        decreases i,
    {
        i -= 1;
        if levels[i] > 0 {
            return Some(i);
        }
    }
    None
}

/// Lowest non-empty level at or above `from`, scanning upward.
fn scan_up(levels: &Vec<Quantity>, from: usize) -> (r: Option<usize>)
    ensures
        match r {
            Some(i) => from <= i < levels.len() && levels@[i as int] > 0
                && forall|j: int| from <= j < i ==> levels@[j] == 0,
            None => forall|j: int| from <= j < levels.len() ==> levels@[j] == 0,
        },
{
    let mut i: usize = from;
    while i < levels.len()
        invariant
            from <= i,
            forall|j: int| from <= j < i ==> levels@[j] == 0,
        decreases levels.len() - i,
    {
        if levels[i] > 0 {
            return Some(i);
        }
        i += 1;
    }
    None
}

} // verus!
