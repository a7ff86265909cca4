//! Evaluation of one upstream price call: the request URL for a list of
//! currency codes, and the exact result — quote set plus reference price, or
//! a typed error — that a transport outcome determines. The transport itself
//! (one HTTP GET, one attempt per cycle) stays outside the library and hands
//! in an [`HttpOutcome`].

use vstd::prelude::*;

use crate::parse::{parse_body, spec_parse_body};
use crate::quotes::{quote_lookup, QuoteSet};
use crate::text::{join_comma, spec_join_comma};

verus! {

/// Endpoint for converted prices; the comma-joined currency codes are
/// appended to it.
pub const PRICE_API_URL: &'static str =
    "https://api.coingecko.com/api/v3/simple/price?ids=bitcoin&vs_currencies=";

/// What one attempted HTTP GET came back with: a transport failure, or a
/// status code with a body.
pub enum HttpOutcome {
    /// The transport failed (connection, timeout, name resolution); the
    /// message describes how.
    Failed(String),
    /// A response arrived.
    Response { status: u16, body: String },
}

/// Why a price fetch produced no quote set.
pub enum ApiError {
    /// Network request failed.
    NetworkError(String),
    /// Failed to parse the response body.
    ParseError(String),
    /// Invalid response format, reference price missing or zero.
    InvalidResponse(String),
}

impl ApiError {
    /// The human-readable message of this error.
    pub open spec fn spec_message(self) -> Seq<char> {
        match self {
            ApiError::NetworkError(m) => "Network error: "@ + m@,
            ApiError::ParseError(m) => "Failed to parse response: "@ + m@,
            ApiError::InvalidResponse(m) => "Invalid response: "@ + m@,
        }
    }

    /// Renders the error for display.
    pub fn message(&self) -> (r: String)
        ensures
            r@ == self.spec_message(),
    {
        match self {
            ApiError::NetworkError(m) => {
                let mut r = String::from_str("Network error: ");
                r.append(m.as_str());
                r
            },
            ApiError::ParseError(m) => {
                let mut r = String::from_str("Failed to parse response: ");
                r.append(m.as_str());
                r
            },
            ApiError::InvalidResponse(m) => {
                let mut r = String::from_str("Invalid response: ");
                r.append(m.as_str());
                r
            },
        }
    }
}

impl Clone for ApiError {
    /// Copy that keeps the variant and the message.
    fn clone(&self) -> (r: ApiError)
        ensures
            r == *self,
    {
        match self {
            ApiError::NetworkError(m) => ApiError::NetworkError(m.clone()),
            ApiError::ParseError(m) => ApiError::ParseError(m.clone()),
            ApiError::InvalidResponse(m) => ApiError::InvalidResponse(m.clone()),
        }
    }
}

/// The distinguished reference currency of every price response.
pub open spec fn spec_reference_code() -> Seq<char> {
    "usd"@
}

/// The result that a transport outcome determines: exactly when the
/// transport succeeded, the status is a success, the body is in the response
/// grammar, and the reference currency is quoted and nonzero, the call
/// yields the reference price and the full quote set.
pub open spec fn spec_fetch_result(outcome: HttpOutcome, r: Result<(u64, QuoteSet), ApiError>) -> bool {
    match outcome {
        HttpOutcome::Failed(m) => r matches Err(ApiError::NetworkError(e)) && e@ == m@,
        HttpOutcome::Response { status, body } => {
            if !(200 <= status && status <= 299) {
                r matches Err(ApiError::InvalidResponse(e)) && e@ == "unexpected HTTP status"@
            } else {
                match spec_parse_body(body@) {
                    None => r matches Err(ApiError::ParseError(e)) && e@
                        == "response body is not in the expected shape"@,
                    Some(q) => {
                        if quote_lookup(q, spec_reference_code()) == 0 {
                            r matches Err(ApiError::InvalidResponse(e)) && e@
                                == "USD price not found in response"@
                        } else {
                            r matches Ok(p) && p.0 == quote_lookup(q, spec_reference_code())
                                && p.1@ == q
                        }
                    },
                }
            }
        },
    }
}

/// The request URL for one price call over the given currency codes.
pub fn price_url(currencies: &Vec<String>) -> (r: String)
    ensures
        r@ == PRICE_API_URL@ + spec_join_comma(currencies@.map_values(|c: String| c@)),
{
    let mut r = String::from_str(PRICE_API_URL);
    let joined = join_comma(currencies);
    r.append(joined.as_str());
    r
}

/// Evaluates one attempted price call. Fails — with the reason — when the
/// transport failed, the status is not a success, the body is not in the
/// response grammar, or the reference currency is absent or quoted exactly
/// zero; otherwise returns the reference price and the quote set.
pub fn fetch_btc(outcome: HttpOutcome) -> (r: Result<(u64, QuoteSet), ApiError>)
    ensures
        spec_fetch_result(outcome, r),
{
    match outcome {
        HttpOutcome::Failed(m) => Err(ApiError::NetworkError(m)),
        HttpOutcome::Response { status, body } => {
            if !(200 <= status && status <= 299) {
                return Err(ApiError::InvalidResponse(String::from_str("unexpected HTTP status")));
            }
            match parse_body(body.as_str()) {
                None => Err(
                    ApiError::ParseError(
                        String::from_str("response body is not in the expected shape"),
                    ),
                ),
                Some(q) => {
                    let usd = q.get("usd");
                    if usd == 0 {
                        Err(
                            ApiError::InvalidResponse(
                                String::from_str("USD price not found in response"),
                            ),
                        )
                    } else {
                        Ok((usd, q))
                    }
                },
            }
        },
    }
}

} // verus!
