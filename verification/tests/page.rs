use price_monitor::api::ApiError;
use price_monitor::bitcoin_page::{BitcoinPage, Status};
use price_monitor::message::BitcoinMessage;
use price_monitor::quotes::QuoteSet;
use price_monitor::resources::ResourceMap;

fn quote_set(entries: &[(&str, u64)]) -> QuoteSet {
    let mut q = QuoteSet::new();
    for (code, price) in entries {
        q.push(code.to_string(), *price);
    }
    q
}

fn batch(entries: &[(&str, &[u8])]) -> ResourceMap {
    let mut m = ResourceMap::new();
    for (key, bytes) in entries {
        m.insert(key.to_string(), bytes.to_vec());
    }
    m
}

fn quote_snapshot(page: &BitcoinPage) -> Vec<(String, u64)> {
    page.quotes()
        .iter()
        .map(|row| (row.country.currency.clone(), row.price))
        .collect()
}

#[test]
fn new_page_starts_loading_with_full_quote_rows() {
    let (page, plan) = BitcoinPage::new();
    assert_eq!(page.cycle(), 1);
    assert_eq!(page.price_usd(), 0);
    assert!(matches!(page.status(), Status::Loading));
    assert_eq!(page.quotes().len(), 45);
    assert!(page.quotes().iter().all(|row| row.price == 0));
    assert_eq!(plan.cycle, 1);
    assert_eq!(plan.currencies.len(), 45);
    assert_eq!(plan.currencies[41], "usd");
    assert_eq!(plan.requests.len(), 45);
    assert_eq!(plan.requests[0].0, "ae");
    assert_eq!(
        plan.requests[0].1,
        "https://raw.githubusercontent.com/lipis/flag-icons/refs/heads/main/flags/4x3/ae.svg"
    );
}

#[test]
fn price_success_rebuilds_all_rows() {
    let (mut page, _plan) = BitcoinPage::new();
    let q = quote_set(&[("usd", 65_497_000_000), ("jpy", 9_000_000_000_000)]);
    let plan = page.update(BitcoinMessage::CurrentPrice(1, 65_497_000_000, q));
    assert!(plan.is_none());
    assert!(matches!(page.status(), Status::Ready));
    assert_eq!(page.price_usd(), 65_497_000_000);
    assert_eq!(page.quotes().len(), 45);
    let rows = quote_snapshot(&page);
    assert_eq!(rows[41], ("usd".to_string(), 65_497_000_000));
    assert_eq!(rows[20], ("jpy".to_string(), 9_000_000_000_000));
    assert_eq!(rows[0], ("aed".to_string(), 0));
}

#[test]
fn resource_completion_alone_does_not_settle() {
    let (mut page, _plan) = BitcoinPage::new();
    page.update(BitcoinMessage::SvgLoaded(1, batch(&[("ae", b"flag")])));
    assert!(matches!(page.status(), Status::Loading));
    assert_eq!(page.resources().get("ae").unwrap(), &b"flag".to_vec());
}

#[test]
fn completions_merge_the_same_in_either_order() {
    let (mut first, _) = BitcoinPage::new();
    let (mut second, _) = BitcoinPage::new();

    first.update(BitcoinMessage::SvgLoaded(1, batch(&[("us", b"stars")])));
    first.update(BitcoinMessage::CurrentPrice(1, 5_000_000, quote_set(&[("usd", 5_000_000)])));

    second.update(BitcoinMessage::CurrentPrice(1, 5_000_000, quote_set(&[("usd", 5_000_000)])));
    second.update(BitcoinMessage::SvgLoaded(1, batch(&[("us", b"stars")])));

    assert_eq!(first.price_usd(), second.price_usd());
    assert_eq!(first.cycle(), second.cycle());
    assert!(matches!(first.status(), Status::Ready));
    assert!(matches!(second.status(), Status::Ready));
    assert_eq!(quote_snapshot(&first), quote_snapshot(&second));
    assert_eq!(first.resources().len(), second.resources().len());
    assert_eq!(first.resources().get("us"), second.resources().get("us"));
}

#[test]
fn stale_completion_is_discarded() {
    let (mut page, _) = BitcoinPage::new();
    let plan = page.update(BitcoinMessage::Refetch).expect("a refetch starts a cycle");
    assert_eq!(plan.cycle, 2);
    assert_eq!(page.cycle(), 2);

    page.update(BitcoinMessage::CurrentPrice(1, 9_000_000, quote_set(&[("usd", 9_000_000)])));
    assert!(matches!(page.status(), Status::Loading));
    assert_eq!(page.price_usd(), 0);

    page.update(BitcoinMessage::CurrentPrice(2, 7_000_000, quote_set(&[("usd", 7_000_000)])));
    assert!(matches!(page.status(), Status::Ready));
    assert_eq!(page.price_usd(), 7_000_000);
}

#[test]
fn timer_tick_starts_a_new_cycle() {
    let (mut page, _) = BitcoinPage::new();
    let plan = page.update(BitcoinMessage::Tick).expect("a tick starts a cycle");
    assert_eq!(plan.cycle, 2);
    assert_eq!(plan.currencies.len(), 45);
    assert!(matches!(page.status(), Status::Loading));
}

#[test]
fn failed_cycle_keeps_stale_data_under_the_error() {
    let (mut page, _) = BitcoinPage::new();
    page.update(BitcoinMessage::CurrentPrice(1, 65_000_000, quote_set(&[("usd", 65_000_000)])));
    page.update(BitcoinMessage::SvgLoaded(1, batch(&[("us", b"stars")])));
    assert!(matches!(page.status(), Status::Ready));

    page.update(BitcoinMessage::Refetch);
    assert!(matches!(page.status(), Status::Loading));
    assert_eq!(page.resources().len(), 0);
    assert_eq!(page.price_usd(), 65_000_000);
    assert_eq!(page.quotes().len(), 45);

    page.update(BitcoinMessage::SvgLoaded(2, batch(&[("jp", b"sun")])));
    page.update(BitcoinMessage::Error(2, ApiError::NetworkError("boom".to_string())));

    match page.status() {
        Status::Error(m) => {
            assert_eq!(m, "Failed to fetch Bitcoin prices: Network error: boom");
        }
        _ => panic!("expected an error status"),
    }
    assert_eq!(page.price_usd(), 65_000_000);
    let rows = quote_snapshot(&page);
    assert_eq!(rows[41], ("usd".to_string(), 65_000_000));
    assert_eq!(page.resources().get("jp").unwrap(), &b"sun".to_vec());
}

#[test]
fn stale_resource_batch_is_discarded() {
    let (mut page, _) = BitcoinPage::new();
    page.update(BitcoinMessage::Refetch);
    page.update(BitcoinMessage::SvgLoaded(1, batch(&[("ae", b"late")])));
    assert_eq!(page.resources().len(), 0);
    page.update(BitcoinMessage::SvgLoaded(2, batch(&[("ae", b"fresh")])));
    assert_eq!(page.resources().get("ae").unwrap(), &b"fresh".to_vec());
}

#[test]
fn empty_resource_batch_changes_nothing() {
    let (mut page, _) = BitcoinPage::new();
    page.update(BitcoinMessage::SvgLoaded(1, ResourceMap::new()));
    assert_eq!(page.resources().len(), 0);
    assert!(matches!(page.status(), Status::Loading));
}

#[test]
fn stale_error_is_discarded() {
    let (mut page, _) = BitcoinPage::new();
    page.update(BitcoinMessage::CurrentPrice(1, 65_000_000, quote_set(&[("usd", 65_000_000)])));
    page.update(BitcoinMessage::Refetch);
    page.update(BitcoinMessage::Error(1, ApiError::NetworkError("late".to_string())));
    assert!(matches!(page.status(), Status::Loading));
}
