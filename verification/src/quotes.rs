//! The set of quoted prices returned by one successful upstream call, and
//! the per-country quote rows derived from it.

use vstd::prelude::*;

use crate::country::Country;
use crate::text::str_eq_chars;
use crate::PriceMicros;

verus! {

/// The prices of one upstream response: currency code to price, in the order
/// the response listed them. A currency that is absent quotes as `0`
/// ("unknown"); a later entry for the same code supersedes an earlier one.
pub struct QuoteSet {
    pub entries: Vec<(String, PriceMicros)>,
}

/// The price that a quote sequence assigns to a currency code: the value of
/// the last entry for that code, or `0` when there is none.
pub open spec fn quote_lookup(q: Seq<(Seq<char>, u64)>, code: Seq<char>) -> u64
    decreases q.len(),
{
    if q.len() == 0 {
        0
    } else if q.last().0 == code {
        q.last().1
    } else {
        quote_lookup(q.drop_last(), code)
    }
}

impl View for QuoteSet {
    type V = Seq<(Seq<char>, u64)>;

    open spec fn view(&self) -> Seq<(Seq<char>, u64)> {
        self.entries@.map_values(|p: (String, PriceMicros)| (p.0@, p.1))
    }
}

impl QuoteSet {
    /// An empty quote set.
    pub fn new() -> (r: QuoteSet)
        ensures
            r@ == Seq::<(Seq<char>, u64)>::empty(),
    {
        let r = QuoteSet { entries: Vec::new() };
        proof {
            assert(r@ =~= Seq::<(Seq<char>, u64)>::empty());
        }
        r
    }

    /// Appends one quoted price.
    pub fn push(&mut self, code: String, price: PriceMicros)
        ensures
            final(self)@ == old(self)@.push((code@, price)),
    {
        let ghost pre = self@;
        self.entries.push((code, price));
        proof {
            assert(self@ =~= pre.push((code@, price)));
        }
    }

    /// Number of entries.
    pub fn len(&self) -> (r: usize)
        ensures
            r == self@.len(),
    {
        self.entries.len()
    }

    /// The price quoted for a currency code, `0` when the code is absent.
    pub fn get(&self, code: &str) -> (r: PriceMicros)
        ensures
            r == quote_lookup(self@, code@),
    {
        let mut i: usize = self.entries.len();
        proof {
            assert(self@.take(self@.len() as int) =~= self@);
        }
        while i > 0
            invariant
                i <= self@.len(),
                quote_lookup(self@, code@) == quote_lookup(self@.take(i as int), code@),
            decreases i,
        {
            i = i - 1;
            if str_eq_chars(self.entries[i].0.as_str(), code) {
                proof {
                    assert(self@.take(i + 1).last() == self@[i as int]);
                }
                return self.entries[i].1;
            }
            proof {
                assert(self@.take(i + 1).drop_last() =~= self@.take(i as int));
                assert(self@.take(i + 1).last() == self@[i as int]);
            }
        }
        proof {
            assert(self@.take(0) =~= Seq::<(Seq<char>, u64)>::empty());
        }
        0
    }
}

/// One row of the rendered list: a catalog entry together with the price the
/// latest quote set assigns to its currency.
#[derive(Debug)]
pub struct CountryPrice {
    pub country: Country,
    pub price: PriceMicros,
}

impl Clone for CountryPrice {
    /// Field-for-field copy.
    fn clone(&self) -> (r: CountryPrice)
        ensures
            r == *self,
    {
        CountryPrice { country: self.country.clone(), price: self.price }
    }
}

impl CountryPrice {
    /// Pairs a catalog entry with a price.
    pub fn new(country: Country, price: PriceMicros) -> (r: CountryPrice)
        ensures
            r.country == country,
            r.price == price,
    {
        CountryPrice { country, price }
    }
}

/// The quote rows that a catalog and a quote set determine: one row per
/// catalog entry, in catalog order, each priced by `quote_lookup`.
pub open spec fn quotes_of(catalog: Seq<Country>, q: Seq<(Seq<char>, u64)>) -> Seq<CountryPrice> {
    catalog.map_values(
        |c: Country| CountryPrice { country: c, price: quote_lookup(q, c.currency@) },
    )
}

/// Builds the quote rows for the whole catalog: one row per entry, priced
/// from the quote set, missing currencies priced `0`.
pub fn build_quotes(catalog: &Vec<Country>, q: &QuoteSet) -> (r: Vec<CountryPrice>)
    ensures
        r@ == quotes_of(catalog@, q@),
{
    let mut r: Vec<CountryPrice> = Vec::new();
    let mut i: usize = 0;
    while i < catalog.len()
        invariant
            i <= catalog@.len(),
            r@.len() == i,
            forall|j: int| 0 <= j < i ==> #[trigger] r@[j] == quotes_of(catalog@, q@)[j],
        decreases catalog@.len() - i,
    {
        let country = catalog[i].clone();
        let price = q.get(country.currency.as_str());
        r.push(CountryPrice { country, price });
        i = i + 1;
    }
    proof {
        assert(r@ =~= quotes_of(catalog@, q@));
    }
    r
}

} // verus!
