//! The template pallet: signed calls record numbers in a bounded buffer of
//! prices, and the off-chain worker reads back their (saturating) sum.
use vstd::prelude::*;

use crate::runtime::{ensure_signed, signer, DispatchError, Origin};

verus! {

/// The pallet's own errors. It declares none: no call ever returns this
/// value, as the contracts below state.
#[derive(Clone, Copy, PartialEq, Eq, Debug, Structural)]
pub struct Error;

/// The pallet's storage: `Prices`, bounded by `MaxPrices` entries.
pub struct Pallet {
    prices: Vec<u32>,
    max_prices: u32,
}

/// The buffer after `price` is recorded in `prices`, bounded by `max`: it is
/// appended while there is room, and otherwise overwrites the entry at
/// `price % max`.
pub open spec fn added(prices: Seq<u32>, max: u32, price: u32) -> Seq<u32> {
    if prices.len() < max {
        prices.push(price)
    } else {
        prices.update((price % max) as int, price)
    }
}

/// Adding up `s` from the left, each step saturating at `u32::MAX`.
pub open spec fn saturating_sum(s: Seq<u32>) -> u32
    decreases s.len(),
{
    if s.len() == 0 {
        0
    } else {
        saturating_sum(s.drop_last()).saturating_add(s.last())
    }
}

/// The plain sum of `s`.
pub open spec fn sum(s: Seq<u32>) -> int
    decreases s.len(),
{
    if s.len() == 0 {
        0
    } else {
        sum(s.drop_last()) + s.last()
    }
}

/// The reading the off-chain worker takes of `prices`: nothing when it is
/// empty, else the saturating sum.
pub open spec fn reading(prices: Seq<u32>) -> Option<u32> {
    if prices.len() == 0 {
        None
    } else {
        Some(saturating_sum(prices))
    }
}

/// Saturating at each step gives the true sum capped at `u32::MAX`.
pub proof fn lemma_saturating_sum_is_capped_sum(s: Seq<u32>)
    ensures
        saturating_sum(s) as int == if sum(s) > u32::MAX as int {
            u32::MAX as int
        } else {
            sum(s)
        },
    decreases s.len(),
{
    if s.len() > 0 {
        lemma_saturating_sum_is_capped_sum(s.drop_last());
        lemma_sum_nonneg(s.drop_last());
    }
}

/// A sum of `u32`s is never negative.
proof fn lemma_sum_nonneg(s: Seq<u32>)
    ensures
        sum(s) >= 0,
    decreases s.len(),
{
    if s.len() > 0 {
        lemma_sum_nonneg(s.drop_last());
    }
}

/// Recording a price: while the buffer has room the price is appended; once
/// it is full (`MaxPrices` entries) the entry at `price % MaxPrices` becomes
/// the price and every other entry stays as it was.
pub proof fn law_record_price(prices: Seq<u32>, max: u32, price: u32)
    requires
        0 < max,
        prices.len() <= max,
    ensures
        prices.len() < max ==> added(prices, max, price) == prices.push(price),
        prices.len() == max ==> {
            let slot = (price % max) as int;
            &&& added(prices, max, price).len() == max
            &&& 0 <= slot < max
            &&& added(prices, max, price)[slot] == price
            &&& forall|i: int|
                0 <= i < max && i != slot ==> #[trigger] added(prices, max, price)[i] == prices[i]
        },
{
}

/// The reading of the buffer: nothing when it is empty, else the sum of all
/// its entries, capped at `u32::MAX`.
pub proof fn law_reading_is_capped_sum(s: Seq<u32>)
    ensures
        s.len() == 0 ==> reading(s) is None,
        s.len() > 0 ==> reading(s) is Some && reading(s).unwrap() as int == if sum(s)
            > u32::MAX as int {
            u32::MAX as int
        } else {
            sum(s)
        },
{
    lemma_saturating_sum_is_capped_sum(s);
}

/// `sum` adds every entry: the sum of a buffer with one more entry is the
/// old sum plus that entry, and the empty buffer sums to zero.
pub proof fn law_sum_adds_every_entry(s: Seq<u32>, x: u32)
    ensures
        sum(Seq::<u32>::empty()) == 0,
        sum(s.push(x)) == sum(s) + x,
{
    assert(s.push(x).drop_last() =~= s);
}

impl Pallet {
    /// `Prices`.
    pub closed spec fn price_seq(&self) -> Seq<u32> {
        self.prices@
    }

    /// `MaxPrices`.
    pub closed spec fn max(&self) -> u32 {
        self.max_prices
    }

    /// The storage is consistent: the bound is positive and respected.
    pub closed spec fn wf(&self) -> bool {
        &&& 0 < self.max_prices
        &&& self.prices@.len() <= self.max_prices
    }

    /// An empty buffer holding at most `max_prices` prices.
    pub fn new(max_prices: u32) -> (r: Self)
        requires
            0 < max_prices,
        ensures
            r.wf(),
            r.price_seq() == Seq::<u32>::empty(),
            r.max() == max_prices,
    {
        Pallet { prices: Vec::new(), max_prices }
    }

    /// `Prices`: the recorded prices.
    pub fn prices(&self) -> (r: Vec<u32>)
        ensures
            r@ == self.price_seq(),
    {
        self.prices.clone()
    }

    /// `MaxPrices`.
    pub fn max_prices(&self) -> (r: u32)
        ensures
            r == self.max(),
    {
        self.max_prices
    }

    /// The buffer never holds more than `MaxPrices` prices.
    pub proof fn lemma_bounded(&self)
        requires
            self.wf(),
        ensures
            0 < self.max(),
            self.price_seq().len() <= self.max(),
    {
    }

    /// Records `some_number` for a signed call.
    pub fn set_local_storage(&mut self, origin: Origin, some_number: u32) -> (r: Result<
        (),
        DispatchError<Error>,
    >)
        requires
            old(self).wf(),
        ensures
            final(self).wf(),
            final(self).max() == old(self).max(),
            match signer(origin) {
                None => r == Err::<(), DispatchError<Error>>(DispatchError::BadOrigin)
                    && *final(self) == *old(self),
                Some(_) => {
                    let slot = (some_number % old(self).max()) as int;
                    &&& r == Ok::<(), DispatchError<Error>>(())
                    &&& final(self).price_seq() == added(
                        old(self).price_seq(),
                        old(self).max(),
                        some_number,
                    )
                    &&& old(self).price_seq().len() < old(self).max() ==> final(self).price_seq()
                        == old(self).price_seq().push(some_number)
                    &&& old(self).price_seq().len() >= old(self).max() ==> {
                        &&& final(self).price_seq().len() == old(self).price_seq().len()
                        &&& final(self).price_seq()[slot] == some_number
                        &&& forall|i: int|
                            0 <= i < old(self).price_seq().len() && i != slot ==> #[trigger] final(self).price_seq()[i] == old(self).price_seq()[i]
                    }
                },
            },
    {
        match ensure_signed::<Error>(origin) {
            Ok(_) => {},
            Err(e) => return Err(e),
        }
        self.add_price(some_number);
        Ok(())
    }

    /// `add_price`: appends `price` while there is room, else overwrites the
    /// entry at `price % MaxPrices`.
    pub fn add_price(&mut self, price: u32)
        requires
            old(self).wf(),
        ensures
            final(self).wf(),
            final(self).max() == old(self).max(),
            final(self).price_seq() == added(old(self).price_seq(), old(self).max(), price),
            old(self).price_seq().len() < old(self).max() ==> final(self).price_seq() == old(self).price_seq().push(price),
            old(self).price_seq().len() >= old(self).max() ==> {
                let slot = (price % old(self).max()) as int;
                &&& final(self).price_seq().len() == old(self).price_seq().len()
                &&& final(self).price_seq()[slot] == price
                &&& forall|i: int|
                    0 <= i < old(self).price_seq().len() && i != slot ==> #[trigger] final(self).price_seq()[i] == old(self).price_seq()[i]
            },
    {
        proof {
            law_record_price(self.prices@, self.max_prices, price);
        }
        if self.prices.len() < self.max_prices as usize {
            self.prices.push(price);
        } else {
            let index = (price % self.max_prices) as usize;
            self.prices[index] = price;
        }
    }

    /// `get_price`: nothing when no price was recorded, else their sum,
    /// saturating at `u32::MAX`.
    pub fn get_price(&self) -> (r: Option<u32>)
        ensures
            r == reading(self.price_seq()),
            self.price_seq().len() == 0 ==> r is None,
            self.price_seq().len() > 0 ==> r is Some && r.unwrap() as int == if sum(
                self.price_seq(),
            ) > u32::MAX as int {
                u32::MAX as int
            } else {
                sum(self.price_seq())
            },
    {
        proof {
            law_reading_is_capped_sum(self.prices@);
        }
        if self.prices.len() == 0 {
            return None;
        }
        let n = self.prices.len();
        let mut acc: u32 = 0;
        let mut i: usize = 0;
        while i < n
            invariant
                n == self.prices@.len(),
                i <= n,
                acc == saturating_sum(self.prices@.subrange(0, i as int)),
            decreases n - i,
        {
            proof {
                let s = self.prices@.subrange(0, i + 1);
                assert(s.drop_last() =~= self.prices@.subrange(0, i as int));
            }
            acc = acc.saturating_add(self.prices[i]);
            i = i + 1;
        }
        assert(self.prices@.subrange(0, n as int) =~= self.prices@);
        Some(acc)
    }
}

} // verus!
