//! An order book: the resting size at each price level, per side.
use std::collections::BTreeMap;
use vstd::prelude::*;

pub mod limit;
pub mod side;

use side::Side;

verus! {

/// An order book for one symbol: price levels (price to size) on each side.
pub struct OrderBook {
    pub sells: BTreeMap<u64, u32>,
    pub buys: BTreeMap<u64, u32>,
}

/// The abstract contents of an order book: the price levels of each side.
#[verifier::ext_equal]
pub struct BookLevels {
    pub sells: Map<u64, u32>,
    pub buys: Map<u64, u32>,
}

impl View for OrderBook {
    type V = BookLevels;

    open spec fn view(&self) -> BookLevels {
        BookLevels { sells: self.sells@, buys: self.buys@ }
    }
}

/// `p` is a price level of `levels` and no level of `levels` is lower.
pub open spec fn is_lowest_price(levels: Map<u64, u32>, p: u64) -> bool {
    &&& levels.contains_key(p)
    &&& forall|q: u64| #[trigger] levels.contains_key(q) ==> p <= q
}

/// `p` is a price level of `levels` and no level of `levels` is higher.
pub open spec fn is_highest_price(levels: Map<u64, u32>, p: u64) -> bool {
    &&& levels.contains_key(p)
    &&& forall|q: u64| #[trigger] levels.contains_key(q) ==> q <= p
}

/// The lowest price level, if there is any.
pub open spec fn lowest_price(levels: Map<u64, u32>) -> Option<u64> {
    if exists|p: u64| is_lowest_price(levels, p) {
        Some(choose|p: u64| is_lowest_price(levels, p))
    } else {
        None
    }
}

/// The highest price level, if there is any.
pub open spec fn highest_price(levels: Map<u64, u32>) -> Option<u64> {
    if exists|p: u64| is_highest_price(levels, p) {
        Some(choose|p: u64| is_highest_price(levels, p))
    } else {
        None
    }
}

/// The levels after an update of `price` to `size`: a size of zero removes the
/// level; any other size opens the level when it is absent and leaves an
/// existing level as it is.
pub open spec fn update_level(levels: Map<u64, u32>, size: u32, price: u64) -> Map<u64, u32> {
    if size == 0 {
        levels.remove(price)
    } else if levels.contains_key(price) {
        levels
    } else {
        levels.insert(price, size)
    }
}

/// The book after `add_limit(side, size, price)`.
pub open spec fn book_after_limit(book: BookLevels, side: Side, size: u32, price: u64) -> BookLevels {
    match side {
        Side::Buy => BookLevels { sells: book.sells, buys: update_level(book.buys, size, price) },
        Side::Sell => BookLevels { sells: update_level(book.sells, size, price), buys: book.buys },
    }
}

/// The distance between the lowest ask `ask` and the highest bid `bid`, both
/// read as two's-complement `i64`.
pub open spec fn price_distance(ask: u64, bid: u64) -> int {
    let d = (ask as i64) - (bid as i64);
    if d < 0 {
        -d
    } else {
        d
    }
}

/// The spread of a book: defined when both sides have a level.
pub open spec fn spread_of(book: BookLevels) -> Option<u64> {
    match (highest_price(book.buys), lowest_price(book.sells)) {
        (Some(bid), Some(ask)) => Some(price_distance(ask, bid) as u64),
        _ => None,
    }
}

/// The spread of the book can be computed in `i64` without overflow.
pub open spec fn spread_fits(book: BookLevels) -> bool {
    match (highest_price(book.buys), lowest_price(book.sells)) {
        (Some(bid), Some(ask)) => {
            let d = (ask as i64) - (bid as i64);
            i64::MIN < d && d <= i64::MAX
        },
        _ => true,
    }
}

/// Every price level holds a positive size.
pub open spec fn sizes_positive(book: BookLevels) -> bool {
    &&& forall|p: u64| #[trigger] book.buys.contains_key(p) ==> book.buys[p] > 0
    &&& forall|p: u64| #[trigger] book.sells.contains_key(p) ==> book.sells[p] > 0
}

/// Returns the lowest key of a price map with its size.
///
/// Calls `BTreeMap::first_key_value`, whose documentation says that it returns
/// the first key-value pair, whose key is the minimum key of the map, and
/// `None` for an empty map. The contract claims exactly that.
#[verifier::external_body]
fn first_level(levels: &BTreeMap<u64, u32>) -> (r: Option<(u64, u32)>)
    ensures
        match r {
            None => levels@.dom().is_empty(),
            Some((p, s)) => is_lowest_price(levels@, p) && levels@[p] == s,
        },
{
    levels.first_key_value().map(|(p, s)| (*p, *s))
}

/// Returns the highest key of a price map with its size.
///
/// Calls `BTreeMap::last_key_value`, whose documentation says that it returns
/// the last key-value pair, whose key is the maximum key of the map, and
/// `None` for an empty map. The contract claims exactly that.
#[verifier::external_body]
fn last_level(levels: &BTreeMap<u64, u32>) -> (r: Option<(u64, u32)>)
    ensures
        match r {
            None => levels@.dom().is_empty(),
            Some((p, s)) => is_highest_price(levels@, p) && levels@[p] == s,
        },
{
    levels.last_key_value().map(|(p, s)| (*p, *s))
}

/// The lowest level is unique: a level that no other level undercuts is the lowest price.
pub proof fn lemma_lowest_price_is(levels: Map<u64, u32>, p: u64)
    requires
        is_lowest_price(levels, p),
    ensures
        lowest_price(levels) == Some(p),
{
    let q = choose|q: u64| is_lowest_price(levels, q);
    assert(is_lowest_price(levels, q));
    assert(levels.contains_key(p) && levels.contains_key(q));
}

/// The highest level is unique: a level that no other level exceeds is the highest price.
pub proof fn lemma_highest_price_is(levels: Map<u64, u32>, p: u64)
    requires
        is_highest_price(levels, p),
    ensures
        highest_price(levels) == Some(p),
{
    let q = choose|q: u64| is_highest_price(levels, q);
    assert(is_highest_price(levels, q));
    assert(levels.contains_key(p) && levels.contains_key(q));
}

proof fn lemma_no_price(levels: Map<u64, u32>)
    requires
        levels.dom().is_empty(),
    ensures
        lowest_price(levels) is None,
        highest_price(levels) is None,
{
    if exists|p: u64| is_lowest_price(levels, p) {
        let p = choose|p: u64| is_lowest_price(levels, p);
        assert(levels.dom().contains(p));
    }
    if exists|p: u64| is_highest_price(levels, p) {
        let p = choose|p: u64| is_highest_price(levels, p);
        assert(levels.dom().contains(p));
    }
}

/// Applies a level update to one side.
fn apply_level_update(levels: &mut BTreeMap<u64, u32>, size: u32, price: u64)
    ensures
        final(levels)@ == update_level(old(levels)@, size, price),
{
    if size == 0 {
        levels.remove(&price);
    } else if !levels.contains_key(&price) {
        levels.insert(price, size);
    }
}

impl OrderBook {
    /// An empty book.
    pub fn new() -> (book: Self)
        ensures
            book@.sells == Map::<u64, u32>::empty(),
            book@.buys == Map::<u64, u32>::empty(),
    {
        Self { sells: BTreeMap::new(), buys: BTreeMap::new() }
    }

    /// Return the lowest sell price, if present.
    pub fn min_sell(&self) -> (r: Option<u64>)
        ensures
            r == lowest_price(self@.sells),
    {
        match first_level(&self.sells) {
            Some((price, _)) => {
                proof {
                    lemma_lowest_price_is(self@.sells, price);
                }
                Some(price)
            },
            _ => {
                proof {
                    lemma_no_price(self@.sells);
                }
                None
            },
        }
    }

    /// Return the highest buy price, if present.
    pub fn max_buy(&self) -> (r: Option<u64>)
        ensures
            r == highest_price(self@.buys),
    {
        match last_level(&self.buys) {
            Some((price, _)) => {
                proof {
                    lemma_highest_price_is(self@.buys, price);
                }
                Some(price)
            },
            _ => {
                proof {
                    lemma_no_price(self@.buys);
                }
                None
            },
        }
    }

    /// Return the difference of the lowest ask and highest bid, if both are
    /// present.
    pub fn spread(&self) -> (r: Option<u64>)
        requires
            spread_fits(self@),
        ensures
            r == spread_of(self@),
    {
        match (self.max_buy(), self.min_sell()) {
            (Some(b), Some(a)) => {
                let d: i64 = (a as i64) - (b as i64);
                let m: i64 = if d < 0 {
                    -d
                } else {
                    d
                };
                Some(m as u64)
            },
            _ => None,
        }
    }

    /// Updates the level at `price` on `side`: a size of zero removes the level,
    /// any other size opens the level if it is not there yet.
    pub fn add_limit(&mut self, side: Side, size: u32, price: u64)
        ensures
            final(self)@ == book_after_limit(old(self)@, side, size, price),
    {
        match side {
            Side::Buy => apply_level_update(&mut self.buys, size, price),
            Side::Sell => apply_level_update(&mut self.sells, size, price),
        }
    }
}

proof fn lemma_highest_exists(levels: Map<u64, u32>, p: u64)
    requires
        levels.contains_key(p),
    ensures
        highest_price(levels) matches Some(q) && p <= q && is_highest_price(levels, q),
    decreases u64::MAX - p,
{
    if forall|q: u64| #[trigger] levels.contains_key(q) ==> q <= p {
        assert(is_highest_price(levels, p));
        lemma_highest_price_is(levels, p);
    } else {
        let q = choose|q: u64| #[trigger] levels.contains_key(q) && !(q <= p);
        lemma_highest_exists(levels, q);
    }
}

proof fn lemma_lowest_exists(levels: Map<u64, u32>, p: u64)
    requires
        levels.contains_key(p),
    ensures
        lowest_price(levels) matches Some(q) && q <= p && is_lowest_price(levels, q),
    decreases p,
{
    if forall|q: u64| #[trigger] levels.contains_key(q) ==> p <= q {
        assert(is_lowest_price(levels, p));
        lemma_lowest_price_is(levels, p);
    } else {
        let q = choose|q: u64| #[trigger] levels.contains_key(q) && !(p <= q);
        lemma_lowest_exists(levels, q);
    }
}

/// A new book has no level, so no best price and no spread.
pub proof fn law_empty_book_has_no_quote()
    ensures
        highest_price(Map::<u64, u32>::empty()) is None,
        lowest_price(Map::<u64, u32>::empty()) is None,
        spread_of(BookLevels { sells: Map::empty(), buys: Map::empty() }) is None,
        sizes_positive(BookLevels { sells: Map::empty(), buys: Map::empty() }),
{
    lemma_no_price(Map::<u64, u32>::empty());
}

/// No update ever leaves a level of size zero in the book.
pub proof fn law_sizes_stay_positive(book: BookLevels, side: Side, size: u32, price: u64)
    requires
        sizes_positive(book),
    ensures
        sizes_positive(book_after_limit(book, side, size, price)),
{
}

/// An update touches one level of one side: the other side and every other
/// price keep their levels.
pub proof fn law_update_is_local(book: BookLevels, side: Side, size: u32, price: u64, other: u64)
    requires
        other != price,
    ensures
        ({
            let after = book_after_limit(book, side, size, price);
            &&& side == Side::Buy ==> after.sells == book.sells
            &&& side == Side::Sell ==> after.buys == book.buys
            &&& after.buys.contains_key(other) == book.buys.contains_key(other)
            &&& after.sells.contains_key(other) == book.sells.contains_key(other)
            &&& book.buys.contains_key(other) ==> after.buys[other] == book.buys[other]
            &&& book.sells.contains_key(other) ==> after.sells[other] == book.sells[other]
        }),
{
}

/// What one update does to the levels of its side, price by price: size zero
/// leaves no level at `price`; a non-zero size opens a missing level with
/// exactly that size and leaves an existing level with the size it had; every
/// other price keeps its level, and the other side is not touched.
pub proof fn law_update_level_semantics(book: BookLevels, side: Side, size: u32, price: u64)
    ensures
        ({
            let after = book_after_limit(book, side, size, price);
            let (before_side, after_side) = match side {
                Side::Buy => (book.buys, after.buys),
                Side::Sell => (book.sells, after.sells),
            };
            &&& side == Side::Buy ==> after.sells == book.sells
            &&& side == Side::Sell ==> after.buys == book.buys
            &&& size == 0 ==> !after_side.contains_key(price)
            &&& size > 0 && !before_side.contains_key(price) ==> after_side.contains_key(price)
                && after_side[price] == size
            &&& size > 0 && before_side.contains_key(price) ==> after_side.contains_key(price)
                && after_side[price] == before_side[price]
            &&& forall|q: u64|
                q != price ==> (#[trigger] after_side.contains_key(q) == before_side.contains_key(q)
                    && (before_side.contains_key(q) ==> after_side[q] == before_side[q]))
            &&& after_side.dom().subset_of(before_side.dom().insert(price))
        }),
{
}

/// Opening a level at a price where the side has none, then sending size zero
/// for that price, gives the book back as it was.
pub proof fn law_open_then_close_restores(book: BookLevels, side: Side, size: u32, price: u64)
    requires
        size > 0,
        side == Side::Buy ==> !book.buys.contains_key(price),
        side == Side::Sell ==> !book.sells.contains_key(price),
    ensures
        book_after_limit(book_after_limit(book, side, size, price), side, 0, price) == book,
{
    let after = book_after_limit(book_after_limit(book, side, size, price), side, 0, price);
    assert(after.buys =~= book.buys);
    assert(after.sells =~= book.sells);
}

/// The first non-zero size at a price is the one that stays: a later non-zero
/// size for a level that exists changes nothing.
pub proof fn law_first_size_stays(book: BookLevels, side: Side, size: u32, later: u32, price: u64)
    requires
        size > 0,
        later > 0,
    ensures
        book_after_limit(book_after_limit(book, side, size, price), side, later, price)
            == book_after_limit(book, side, size, price),
{
}

/// Once a level opens at `price`, the best price of its side is at least as
/// good as `price`: a bid at least as high, an ask at least as low.
pub proof fn law_open_level_bounds_best_price(book: BookLevels, side: Side, size: u32, price: u64)
    requires
        size > 0,
    ensures
        ({
            let after = book_after_limit(book, side, size, price);
            &&& side == Side::Buy ==> (highest_price(after.buys) matches Some(bid) && price <= bid)
            &&& side == Side::Sell ==> (lowest_price(after.sells) matches Some(ask) && ask <= price)
        }),
{
    let after = book_after_limit(book, side, size, price);
    match side {
        Side::Buy => lemma_highest_exists(after.buys, price),
        Side::Sell => lemma_lowest_exists(after.sells, price),
    }
}

/// With both sides quoted at prices below 2^63, the spread can be computed and
/// is the distance between the best ask and the best bid.
pub proof fn law_spread_is_distance(book: BookLevels, bid: u64, ask: u64)
    requires
        highest_price(book.buys) == Some(bid),
        lowest_price(book.sells) == Some(ask),
        bid <= i64::MAX,
        ask <= i64::MAX,
    ensures
        spread_fits(book),
        spread_of(book) == Some(
            (if bid <= ask {
                ask - bid
            } else {
                bid - ask
            }) as u64,
        ),
{
}

} // verus!
