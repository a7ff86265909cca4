use price_monitor::api::{fetch_btc, price_url, ApiError, HttpOutcome};
use price_monitor::parse::parse_body;

fn response(status: u16, body: &str) -> HttpOutcome {
    HttpOutcome::Response { status, body: body.to_string() }
}

#[test]
fn reference_extraction() {
    let r = fetch_btc(response(200, "{\"bitcoin\":{\"usd\":65497.0,\"eur\":60123.0}}"));
    match r {
        Ok((usd, quotes)) => {
            assert_eq!(usd, 65_497_000_000);
            assert_eq!(quotes.len(), 2);
            assert_eq!(quotes.get("usd"), 65_497_000_000);
            assert_eq!(quotes.get("eur"), 60_123_000_000);
        }
        Err(_) => panic!("expected a successful fetch"),
    }
}

#[test]
fn missing_reference_is_failure() {
    let r = fetch_btc(response(200, "{\"bitcoin\":{\"eur\":100.0}}"));
    match r {
        Err(ApiError::InvalidResponse(m)) => {
            assert_eq!(m, "USD price not found in response");
        }
        _ => panic!("expected an invalid-response error"),
    }
}

#[test]
fn zero_reference_is_failure() {
    let r = fetch_btc(response(200, "{\"bitcoin\":{\"usd\":0.0}}"));
    assert!(matches!(r, Err(ApiError::InvalidResponse(_))));
}

#[test]
fn transport_failure_is_network_error() {
    let r = fetch_btc(HttpOutcome::Failed("timed out".to_string()));
    match r {
        Err(e @ ApiError::NetworkError(_)) => {
            assert_eq!(e.message(), "Network error: timed out");
        }
        _ => panic!("expected a network error"),
    }
}

#[test]
fn malformed_body_is_parse_error() {
    let r = fetch_btc(response(200, "not json at all"));
    match r {
        Err(e @ ApiError::ParseError(_)) => {
            assert_eq!(
                e.message(),
                "Failed to parse response: response body is not in the expected shape"
            );
        }
        _ => panic!("expected a parse error"),
    }
}

#[test]
fn non_success_status_is_failure() {
    let r = fetch_btc(response(404, "{\"bitcoin\":{\"usd\":65497.0}}"));
    assert!(matches!(r, Err(ApiError::InvalidResponse(_))));
}

#[test]
fn fractional_prices_truncate_to_micros() {
    let r = fetch_btc(response(200, "{\"bitcoin\":{\"usd\":1.2345678}}"));
    match r {
        Ok((usd, _)) => assert_eq!(usd, 1_234_567),
        Err(_) => panic!("expected a successful fetch"),
    }
}

#[test]
fn whitespace_is_tolerated() {
    let r = fetch_btc(response(200, " { \"bitcoin\" : { \"usd\" : 2 } } "));
    match r {
        Ok((usd, _)) => assert_eq!(usd, 2_000_000),
        Err(_) => panic!("expected a successful fetch"),
    }
}

#[test]
fn empty_quote_object_has_no_reference() {
    let r = fetch_btc(response(200, "{\"bitcoin\":{}}"));
    assert!(matches!(r, Err(ApiError::InvalidResponse(_))));
}

#[test]
fn later_duplicate_key_wins() {
    let r = fetch_btc(response(200, "{\"bitcoin\":{\"usd\":1.0,\"usd\":2.0}}"));
    match r {
        Ok((usd, _)) => assert_eq!(usd, 2_000_000),
        Err(_) => panic!("expected a successful fetch"),
    }
}

#[test]
fn parse_body_rejects_bad_shapes() {
    assert!(parse_body("").is_none());
    assert!(parse_body("{}").is_none());
    assert!(parse_body("{\"ethereum\":{\"usd\":1.0}}").is_none());
    assert!(parse_body("{\"bitcoin\":{\"usd\":1.0}} trailing").is_none());
    assert!(parse_body("{\"bitcoin\":{\"usd\":}}").is_none());
    assert!(parse_body("{\"bitcoin\":{\"usd\":1.}}").is_none());
    assert!(parse_body("{\"bitcoin\":{\"us\\d\":1.0}}").is_none());
    assert!(parse_body("{\"bitcoin\":{\"usd\":-1.0}}").is_none());
}

#[test]
fn parse_body_reads_all_entries() {
    let q = parse_body("{\"bitcoin\":{\"usd\":3,\"eur\":4.25,\"jpy\":0.000001}}").unwrap();
    assert_eq!(q.len(), 3);
    assert_eq!(q.get("usd"), 3_000_000);
    assert_eq!(q.get("eur"), 4_250_000);
    assert_eq!(q.get("jpy"), 1);
    assert_eq!(q.get("gbp"), 0);
}

#[test]
fn huge_numbers_are_rejected() {
    assert!(parse_body("{\"bitcoin\":{\"usd\":18446744073709551616}}").is_none());
    let q = parse_body("{\"bitcoin\":{\"usd\":18446744073709.551615}}").unwrap();
    assert_eq!(q.get("usd"), u64::MAX);
}

#[test]
fn price_url_joins_currencies() {
    let url = price_url(&vec!["usd".to_string(), "eur".to_string(), "jpy".to_string()]);
    assert_eq!(
        url,
        "https://api.coingecko.com/api/v3/simple/price?ids=bitcoin&vs_currencies=usd,eur,jpy"
    );
    let empty = price_url(&Vec::new());
    assert_eq!(
        empty,
        "https://api.coingecko.com/api/v3/simple/price?ids=bitcoin&vs_currencies="
    );
}
