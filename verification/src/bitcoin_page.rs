//! The price page's refresh coordinator: it owns the view state, starts one
//! price fetch and one resource batch per cycle, and merges their
//! independently-arriving completions into one coherent state. Completions
//! are tagged with the cycle that started them; a completion of a
//! superseded cycle is discarded.

use vstd::prelude::*;

use crate::country::{get_countries, is_catalog, Country};
use crate::message::BitcoinMessage;
use crate::quotes::{build_quotes, quotes_of, CountryPrice, QuoteSet};
use crate::resources::ResourceMap;
use crate::PriceMicros;

verus! {

/// Where the page stands: a cycle's results are pending, or the last cycle
/// settled with data, or it settled with a failure.
#[derive(Debug)]
pub enum Status {
    /// A cycle is in flight and no price result has settled it yet.
    Loading,
    /// The latest cycle's price fetch succeeded.
    Ready,
    /// The latest cycle's price fetch failed; the message says how.
    Error(String),
}

/// A status value, with the message as a character sequence.
#[verifier::ext_equal]
pub enum StatusModel {
    Loading,
    Ready,
    Error(Seq<char>),
}

impl View for Status {
    type V = StatusModel;

    open spec fn view(&self) -> StatusModel {
        match self {
            Status::Loading => StatusModel::Loading,
            Status::Ready => StatusModel::Ready,
            Status::Error(m) => StatusModel::Error(m@),
        }
    }
}

/// The page's whole state, as the values it holds.
#[verifier::ext_equal]
pub struct PageModel {
    /// The fixed catalog the page was built over.
    pub catalog: Seq<Country>,
    /// Latest reference price, in micro-units; `0` until a cycle succeeds.
    pub price_usd: u64,
    /// One quote row per catalog entry, from the latest successful fetch.
    pub quotes: Seq<CountryPrice>,
    /// The resource bytes fetched by the current cycle so far.
    pub resources: Map<Seq<char>, Seq<u8>>,
    /// Where the page stands.
    pub status: StatusModel,
    /// The identifier of the cycle whose completions are current.
    pub cycle: u64,
}

/// A price completion: the reference price and the quote entries on
/// success, the displayed failure message otherwise.
pub type PriceOutcome = Result<(u64, Seq<(Seq<char>, u64)>), Seq<char>>;

/// The events the page reacts to.
pub enum EventModel {
    /// A new cycle is started: initial boot, manual refetch, or timer tick.
    Trigger,
    /// The price fetch of the tagged cycle completed.
    Price(u64, PriceOutcome),
    /// The resource batch of the tagged cycle completed.
    Resources(u64, Map<Seq<char>, Seq<u8>>),
}

impl View for BitcoinMessage {
    type V = EventModel;

    open spec fn view(&self) -> EventModel {
        match self {
            BitcoinMessage::Refetch => EventModel::Trigger,
            BitcoinMessage::Tick => EventModel::Trigger,
            BitcoinMessage::CurrentPrice(cycle, usd, q) => EventModel::Price(
                *cycle,
                Ok((*usd, q@)),
            ),
            BitcoinMessage::SvgLoaded(cycle, batch) => EventModel::Resources(*cycle, batch@),
            BitcoinMessage::Error(cycle, e) => EventModel::Price(
                *cycle,
                Err("Failed to fetch Bitcoin prices: "@ + e.spec_message()),
            ),
        }
    }
}

/// The state a page holds before any cycle has been started over a catalog:
/// nothing fetched, every quote zero, loading.
pub open spec fn initial_model(catalog: Seq<Country>) -> PageModel {
    PageModel {
        catalog,
        price_usd: 0,
        quotes: quotes_of(catalog, Seq::empty()),
        resources: Map::empty(),
        status: StatusModel::Loading,
        cycle: 0,
    }
}

/// One step of the page's state machine.
///
/// A trigger supersedes whatever is in flight: it starts a fresh cycle,
/// sets the status to loading and clears the resources, keeping the stale
/// quotes visible underneath. A completion tagged with a superseded cycle
/// changes nothing. A current price success rebuilds every quote row and
/// settles the status at ready; a current price failure settles it at the
/// failure's message without touching the data already shown; a current
/// resource completion only adds its bytes.
pub open spec fn step(m: PageModel, e: EventModel) -> PageModel {
    match e {
        EventModel::Trigger => PageModel {
            status: StatusModel::Loading,
            resources: Map::empty(),
            cycle: (m.cycle + 1) as u64,
            ..m
        },
        EventModel::Price(cycle, outcome) => {
            if cycle != m.cycle {
                m
            } else {
                match outcome {
                    Ok((usd, q)) => PageModel {
                        price_usd: usd,
                        quotes: quotes_of(m.catalog, q),
                        status: StatusModel::Ready,
                        ..m
                    },
                    Err(msg) => PageModel { status: StatusModel::Error(msg), ..m },
                }
            }
        },
        EventModel::Resources(cycle, batch) => {
            if cycle != m.cycle {
                m
            } else {
                PageModel { resources: m.resources.union_prefer_right(batch), ..m }
            }
        },
    }
}

/// The work one trigger starts: the currency codes of the price fetch and
/// the key/URL pairs of the resource batch, tagged with the new cycle.
pub struct FetchPlan {
    /// The cycle the started calls belong to; their completions carry it.
    pub cycle: u64,
    /// The currency codes to request prices for, in catalog order.
    pub currencies: Vec<String>,
    /// One (resource key, URL) pair per catalog entry, in catalog order.
    pub requests: Vec<(String, String)>,
}

/// The currency codes of a catalog, in order.
pub open spec fn catalog_currencies(catalog: Seq<Country>) -> Seq<Seq<char>> {
    catalog.map_values(|c: Country| c.currency@)
}

/// The (resource key, URL) pairs of a catalog, in order.
pub open spec fn catalog_requests(catalog: Seq<Country>) -> Seq<(Seq<char>, Seq<char>)> {
    catalog.map_values(|c: Country| (c.code@, c.flag@))
}

/// A plan that asks exactly for the catalog's price codes and resources,
/// tagged with the given cycle.
pub open spec fn plan_matches(plan: FetchPlan, catalog: Seq<Country>, cycle: u64) -> bool {
    &&& plan.cycle == cycle
    &&& plan.currencies@.map_values(|s: String| s@) == catalog_currencies(catalog)
    &&& plan.requests@.map_values(|p: (String, String)| (p.0@, p.1@)) == catalog_requests(catalog)
}

/// State for the price page: the coordinator of the refresh cycles.
pub struct BitcoinPage {
    /// The fixed catalog, shared by every cycle.
    catalog: Vec<Country>,
    /// Current reference price in micro-units.
    price_usd: PriceMicros,
    /// Prices in the catalog's currencies, with country information.
    quotes: Vec<CountryPrice>,
    /// Flag bytes fetched by the current cycle.
    resources: ResourceMap,
    /// Where the page stands.
    status: Status,
    /// Identifier of the current cycle.
    cycle: u64,
}

impl View for BitcoinPage {
    type V = PageModel;

    closed spec fn view(&self) -> PageModel {
        PageModel {
            catalog: self.catalog@,
            price_usd: self.price_usd,
            quotes: self.quotes@,
            resources: self.resources@,
            status: self.status@,
            cycle: self.cycle,
        }
    }
}

impl BitcoinPage {
    /// Internal validity: the resource map is well-formed.
    pub closed spec fn inv(&self) -> bool {
        self.resources.wf()
    }

    /// Creates a new price page over the fixed catalog and starts its first
    /// cycle.
    pub fn new() -> (r: (BitcoinPage, FetchPlan))
        ensures
            r.0.inv(),
            is_catalog(r.0@.catalog),
            r.0@ == step(initial_model(r.0@.catalog), EventModel::Trigger),
            plan_matches(r.1, r.0@.catalog, r.0@.cycle),
    {
        let catalog = get_countries();
        let quotes = build_quotes(&catalog, &QuoteSet::new());
        let mut page = BitcoinPage {
            catalog,
            price_usd: 0,
            quotes,
            resources: ResourceMap::new(),
            status: Status::Loading,
            cycle: 0,
        };
        let plan = page.start_cycle();
        proof {
            assert(page@ =~= step(initial_model(page@.catalog), EventModel::Trigger));
        }
        (page, plan)
    }

    /// Starts a fresh cycle: bumps the cycle, resets the resources, sets
    /// loading, and returns the work to start.
    fn start_cycle(&mut self) -> (plan: FetchPlan)
        requires
            old(self).inv(),
            old(self).cycle < u64::MAX,
        ensures
            final(self).inv(),
            final(self)@ == step(old(self)@, EventModel::Trigger),
            plan_matches(plan, old(self)@.catalog, final(self)@.cycle),
    {
        self.cycle = self.cycle + 1;
        self.status = Status::Loading;
        self.resources = ResourceMap::new();
        let mut currencies: Vec<String> = Vec::new();
        let mut requests: Vec<(String, String)> = Vec::new();
        let mut i: usize = 0;
        while i < self.catalog.len()
            invariant
                i <= self.catalog@.len(),
                currencies@.len() == i,
                requests@.len() == i,
                forall|j: int| 0 <= j < i ==> (#[trigger] currencies@[j])@ == self.catalog@[j].currency@,
                forall|j: int|
                    0 <= j < i ==> ((#[trigger] requests@[j]).0@, requests@[j].1@) == (
                    self.catalog@[j].code@,
                    self.catalog@[j].flag@,
                ),
            decreases self.catalog@.len() - i,
        {
            let entry = &self.catalog[i];
            currencies.push(entry.currency.clone());
            requests.push((entry.code.clone(), entry.flag.clone()));
            i = i + 1;
        }
        proof {
            assert(self@ =~= step(old(self)@, EventModel::Trigger));
            assert(currencies@.map_values(|s: String| s@) =~= catalog_currencies(self@.catalog));
            assert(requests@.map_values(|p: (String, String)| (p.0@, p.1@)) =~= catalog_requests(
                self@.catalog,
            ));
        }
        FetchPlan { cycle: self.cycle, currencies, requests }
    }

    /// Applies one event. A trigger starts a new cycle and returns the work
    /// it asks for; every completion is merged, or discarded when its cycle
    /// was superseded.
    pub fn update(&mut self, message: BitcoinMessage) -> (plan: Option<FetchPlan>)
        requires
            old(self).inv(),
            message@ is Trigger ==> old(self)@.cycle < u64::MAX,
        ensures
            final(self).inv(),
            final(self)@ == step(old(self)@, message@),
            final(self)@.catalog == old(self)@.catalog,
            match message@ {
                EventModel::Trigger => plan matches Some(p) && plan_matches(
                    p,
                    old(self)@.catalog,
                    final(self)@.cycle,
                ),
                _ => plan is None,
            },
    {
        match message {
            BitcoinMessage::Refetch => Some(self.start_cycle()),
            BitcoinMessage::Tick => Some(self.start_cycle()),
            BitcoinMessage::CurrentPrice(cycle, usd, q) => {
                if cycle == self.cycle {
                    self.price_usd = usd;
                    let quotes = build_quotes(&self.catalog, &q);
                    self.quotes = quotes;
                    self.status = Status::Ready;
                }
                proof {
                    assert(self@ =~= step(old(self)@, message@));
                }
                None
            },
            BitcoinMessage::SvgLoaded(cycle, batch) => {
                if cycle == self.cycle {
                    self.resources.merge(&batch);
                }
                proof {
                    assert(self@ =~= step(old(self)@, message@));
                }
                None
            },
            BitcoinMessage::Error(cycle, e) => {
                if cycle == self.cycle {
                    let mut msg = String::from_str("Failed to fetch Bitcoin prices: ");
                    let detail = e.message();
                    msg.append(detail.as_str());
                    self.status = Status::Error(msg);
                }
                proof {
                    assert(self@ =~= step(old(self)@, message@));
                }
                None
            },
        }
    }

    /// Current reference price in micro-units.
    pub fn price_usd(&self) -> (r: PriceMicros)
        ensures
            r == self@.price_usd,
    {
        self.price_usd
    }

    /// The quote rows currently shown.
    pub fn quotes(&self) -> (r: &Vec<CountryPrice>)
        ensures
            r@ == self@.quotes,
    {
        &self.quotes
    }

    /// The resource bytes of the current cycle.
    pub fn resources(&self) -> (r: &ResourceMap)
        requires
            self.inv(),
        ensures
            r@ == self@.resources,
            r.wf(),
    {
        &self.resources
    }

    /// Where the page stands.
    pub fn status(&self) -> (r: &Status)
        ensures
            r@ == self@.status,
    {
        &self.status
    }

    /// The identifier of the current cycle.
    pub fn cycle(&self) -> (r: u64)
        ensures
            r == self@.cycle,
    {
        self.cycle
    }

    /// The catalog the page was built over.
    pub fn catalog(&self) -> (r: &Vec<Country>)
        ensures
            r@ == self@.catalog,
    {
        &self.catalog
    }
}

/// The page never shows more or fewer quote rows than the catalog has
/// entries, and row `i` always belongs to catalog entry `i`.
pub open spec fn quotes_aligned(m: PageModel) -> bool {
    &&& m.quotes.len() == m.catalog.len()
    &&& forall|i: int| 0 <= i < m.quotes.len() ==> (#[trigger] m.quotes[i]).country == m.catalog[i]
}

/// The quote rows are aligned with the catalog from the initial state on,
/// and every step keeps them so: the number of rows equals the catalog
/// size whatever arrives, however many currencies a response quoted.
pub proof fn lemma_quotes_length_invariant(m: PageModel, e: EventModel)
    requires
        quotes_aligned(m),
    ensures
        quotes_aligned(step(m, e)),
        quotes_aligned(initial_model(m.catalog)),
        step(m, e).quotes.len() == m.catalog.len(),
        step(m, e).catalog == m.catalog,
{
}

/// For one cycle's two completions, the merged state does not depend on
/// the order in which they arrive.
pub proof fn lemma_merge_commutes(
    m: PageModel,
    c1: u64,
    outcome: PriceOutcome,
    c2: u64,
    batch: Map<Seq<char>, Seq<u8>>,
)
    ensures
        step(step(m, EventModel::Price(c1, outcome)), EventModel::Resources(c2, batch)) == step(
            step(m, EventModel::Resources(c2, batch)),
            EventModel::Price(c1, outcome),
        ),
{
    assert(step(step(m, EventModel::Price(c1, outcome)), EventModel::Resources(c2, batch)) =~= step(
        step(m, EventModel::Resources(c2, batch)),
        EventModel::Price(c1, outcome),
    ));
}

/// A price completion of the current cycle always settles the status, at
/// ready or at an error; so once both of a cycle's completions have been
/// incorporated — in whichever order — the page is not loading.
pub proof fn lemma_completions_settle_status(
    m: PageModel,
    c: u64,
    outcome: PriceOutcome,
    batch: Map<Seq<char>, Seq<u8>>,
)
    requires
        c == m.cycle,
    ensures
        !(step(m, EventModel::Price(c, outcome)).status is Loading),
        !(step(step(m, EventModel::Resources(c, batch)), EventModel::Price(c, outcome)).status
            is Loading),
        !(step(step(m, EventModel::Price(c, outcome)), EventModel::Resources(c, batch)).status
            is Loading),
{
}

/// A completion whose cycle was superseded changes nothing: the state a
/// newer cycle established stays as it is.
pub proof fn lemma_stale_completion_discarded(
    m: PageModel,
    c: u64,
    outcome: PriceOutcome,
    batch: Map<Seq<char>, Seq<u8>>,
)
    requires
        c != m.cycle,
    ensures
        step(m, EventModel::Price(c, outcome)) == m,
        step(m, EventModel::Resources(c, batch)) == m,
{
}

/// A failed price fetch of the current cycle leaves the previously shown
/// data — quotes, resources, reference price — untouched; only the status
/// changes, to the failure's message.
pub proof fn lemma_error_preserves_stale_data(m: PageModel, c: u64, msg: Seq<char>)
    requires
        c == m.cycle,
    ensures
        step(m, EventModel::Price(c, Err(msg))).quotes == m.quotes,
        step(m, EventModel::Price(c, Err(msg))).resources == m.resources,
        step(m, EventModel::Price(c, Err(msg))).price_usd == m.price_usd,
        step(m, EventModel::Price(c, Err(msg))).status == StatusModel::Error(msg),
{
}

} // verus!
