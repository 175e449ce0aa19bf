//! End-to-end tests of the gateway pipeline: authorization, fail-closed
//! admission, pass-through of relayer failures, sponsorship application
//! and reversal across the quote→assembly flow, the legacy fallback,
//! and settlement-gated credit.

use hmac::Mac;
use match_gateway::auth::{ApiKey, AuthRegistry};
use match_gateway::gateway::{require_body, sdk_version_or_default, Gateway};
use match_gateway::types::{
    AssembleMatchRequest, AssetTransfer, AuthError, ExternalMatchResult, ExternalOrder,
    ExternalQuote, MatchBundle, RejectReason, RelayerOutcome, SignedQuote,
    SponsorshipQueryParams, TimestampedPrice,
};

const KEY_ID: u64 = 11;
const SECRET: &[u8] = b"a shared test secret";

fn auth_msg(path: &[u8], query: &[u8], body: &[u8]) -> Vec<u8> {
    let mut v = Vec::new();
    v.extend_from_slice(&(path.len() as u64).to_be_bytes());
    v.extend_from_slice(path);
    v.extend_from_slice(&(query.len() as u64).to_be_bytes());
    v.extend_from_slice(query);
    v.extend_from_slice(body);
    v
}

fn sign(secret: &[u8], path: &[u8], query: &[u8], body: &[u8]) -> Vec<u8> {
    let mut mac = hmac::Hmac::<sha2::Sha256>::new_from_slice(secret).unwrap();
    mac.update(&auth_msg(path, query, body));
    mac.finalize().into_bytes().to_vec()
}

fn registry() -> AuthRegistry {
    let mut reg = AuthRegistry::new();
    assert!(reg.register(ApiKey { key_id: KEY_ID, secret: SECRET.to_vec(), disabled: false }));
    reg
}

fn gateway() -> Gateway {
    // Quote, bundle and sponsorship capacities of 2, 2 and 2; one-second
    // cache TTL; the sponsorship engine enabled.
    Gateway::new(registry(), 2, 2, 2, 1_000, true)
}

fn default_params() -> SponsorshipQueryParams {
    SponsorshipQueryParams {
        disable_gas_sponsorship: None,
        refund_address: None,
        refund_native_eth: None,
        use_gas_sponsorship: None,
    }
}

fn sample_quote() -> SignedQuote {
    SignedQuote {
        quote: ExternalQuote {
            order: ExternalOrder {
                base_mint: 0xaaaa,
                quote_mint: 0xbbbb,
                side_sell: false,
                base_amount: 5_000,
                quote_amount: 0,
                min_fill_size: 1,
            },
            match_result: ExternalMatchResult {
                base_mint: 0xaaaa,
                quote_mint: 0xbbbb,
                base_amount: 4_000,
                quote_amount: 120_000,
                direction_sell: false,
            },
            price: TimestampedPrice { price_repr: 30_000_000, timestamp: 1_700_000_000_000 },
            timestamp: 1_700_000_000_001,
        },
        signature: vec![5, 6, 7, 8],
    }
}

fn sample_bundle() -> MatchBundle {
    MatchBundle {
        match_result: sample_quote().quote.match_result,
        receive: AssetTransfer { mint: 0xaaaa, amount: 4_000 },
        send: AssetTransfer { mint: 0xbbbb, amount: 120_000 },
    }
}

#[test]
fn authorize_accepts_a_valid_signature() {
    let mut g = gateway();
    let (path, query, body) = (b"/v0/quote".to_vec(), b"".to_vec(), b"{}".to_vec());
    let sig = sign(SECRET, &path, &query, &body);
    let r = g.quote_request_begin(&path, &query, &body, Some(KEY_ID), &sig);
    assert_eq!(r, Ok(KEY_ID));
}

#[test]
fn authorize_rejects_a_missing_credential() {
    let mut g = gateway();
    let (path, query, body) = (b"/v0/quote".to_vec(), b"".to_vec(), b"{}".to_vec());
    let r = g.quote_request_begin(&path, &query, &body, None, &Vec::new());
    assert_eq!(r, Err(RejectReason::Auth(AuthError::Unauthorized)));
}

#[test]
fn authorize_rejects_an_unknown_key() {
    let mut g = gateway();
    let (path, query, body) = (b"/v0/quote".to_vec(), b"".to_vec(), b"{}".to_vec());
    let sig = sign(SECRET, &path, &query, &body);
    let r = g.quote_request_begin(&path, &query, &body, Some(KEY_ID + 1), &sig);
    assert_eq!(r, Err(RejectReason::Auth(AuthError::Unauthorized)));
}

#[test]
fn authorize_rejects_a_replayed_signature() {
    let mut g = gateway();
    let (path, query, body) = (b"/v0/quote".to_vec(), b"".to_vec(), b"{}".to_vec());
    let sig = sign(SECRET, &path, &query, &body);
    // The same signature does not cover another path or a mutated body.
    let r = g.quote_request_begin(&b"/v0/match".to_vec(), &query, &body, Some(KEY_ID), &sig);
    assert_eq!(r, Err(RejectReason::Auth(AuthError::Unauthorized)));
    let r = g.quote_request_begin(&path, &query, &b"{ }".to_vec(), Some(KEY_ID), &sig);
    assert_eq!(r, Err(RejectReason::Auth(AuthError::Unauthorized)));
    // The original request still verifies.
    let r = g.quote_request_begin(&path, &query, &body, Some(KEY_ID), &sig);
    assert_eq!(r, Ok(KEY_ID));
}

#[test]
fn authorize_rejects_a_disabled_key_as_forbidden() {
    let mut reg = AuthRegistry::new();
    assert!(reg.register(ApiKey { key_id: KEY_ID, secret: SECRET.to_vec(), disabled: true }));
    let mut g = Gateway::new(reg, 2, 2, 2, 1_000, true);
    let (path, query, body) = (b"/v0/quote".to_vec(), b"".to_vec(), b"{}".to_vec());
    let sig = sign(SECRET, &path, &query, &body);
    let r = g.quote_request_begin(&path, &query, &body, Some(KEY_ID), &sig);
    assert_eq!(r, Err(RejectReason::Auth(AuthError::Forbidden)));
}

#[test]
fn fail_closed_admission_with_zero_tokens() {
    // A bundle capacity of zero: the very first request is rejected
    // with a rate limit before anything would be forwarded.
    let mut g = Gateway::new(registry(), 2, 0, 2, 1_000, true);
    let (path, query, body) = (b"/v0/match".to_vec(), b"".to_vec(), b"{}".to_vec());
    let sig = sign(SECRET, &path, &query, &body);
    let mut relayer_calls: u32 = 0;
    let r = g.match_request_begin(&path, &query, &body, Some(KEY_ID), &sig);
    if r.is_ok() {
        // Only an admitted request reaches the relayer.
        relayer_calls += 1;
    }
    assert_eq!(r, Err(RejectReason::RateLimited));
    assert_eq!(relayer_calls, 0);
}

#[test]
fn admissions_stop_when_tokens_run_out() {
    let mut g = gateway();
    let (path, query, body) = (b"/v0/match".to_vec(), b"".to_vec(), b"{}".to_vec());
    let sig = sign(SECRET, &path, &query, &body);
    assert!(g.match_request_begin(&path, &query, &body, Some(KEY_ID), &sig).is_ok());
    assert!(g.match_request_begin(&path, &query, &body, Some(KEY_ID), &sig).is_ok());
    let r = g.match_request_begin(&path, &query, &body, Some(KEY_ID), &sig);
    assert_eq!(r, Err(RejectReason::RateLimited));
}

#[test]
fn unauthenticated_traffic_consumes_no_capacity() {
    let mut g = Gateway::new(registry(), 1, 1, 1, 1_000, true);
    let (path, query, body) = (b"/v0/quote".to_vec(), b"".to_vec(), b"{}".to_vec());
    // Many bad requests first: none of them may drain the bucket.
    for _ in 0..5 {
        let r = g.quote_request_begin(&path, &query, &body, Some(KEY_ID), &b"bad".to_vec());
        assert_eq!(r, Err(RejectReason::Auth(AuthError::Unauthorized)));
    }
    let sig = sign(SECRET, &path, &query, &body);
    assert_eq!(g.quote_request_begin(&path, &query, &body, Some(KEY_ID), &sig), Ok(KEY_ID));
}

#[test]
fn pass_through_on_upstream_failure() {
    let mut g = gateway();
    // The relayer answered 500: the status and body pass through and no
    // sponsorship or settlement logic runs.
    let r = g.quote_request_finish(KEY_ID, 500, Some(&sample_quote()), &default_params(), 10, 0);
    assert!(matches!(r, RelayerOutcome::PassThrough));
    let r = g.match_request_finish(KEY_ID, 500, Some(&sample_bundle()), &default_params(), 10);
    assert!(matches!(r, RelayerOutcome::PassThrough));
    // Nothing was cached for the quote: an assembly request right after
    // finds no sponsorship to reverse.
    let req = AssembleMatchRequest { signed_quote: sample_quote(), updated_order: None };
    let (forwarded, carried) = g.prepare_assembly_request(&req, 1);
    assert_eq!(forwarded.signed_quote.quote, req.signed_quote.quote);
    assert!(carried.is_none());
}

#[test]
fn malformed_success_body_is_a_serde_error() {
    let mut g = gateway();
    let r = g.quote_request_finish(KEY_ID, 200, None, &default_params(), 10, 0);
    assert!(matches!(r, RelayerOutcome::MalformedBody));
    let r = g.match_request_finish(KEY_ID, 200, None, &default_params(), 10);
    assert!(matches!(r, RelayerOutcome::MalformedBody));
    assert_eq!(require_body::<u32>(None), Err(RejectReason::Serde));
    assert_eq!(require_body(Some(5u32)), Ok(5u32));
}

#[test]
fn quote_sponsorship_cached_and_reversed_at_assembly() {
    let mut g = gateway();
    let sq = sample_quote();
    // Finish the quote with an in-kind refund of 150 granted.
    let r = g.quote_request_finish(KEY_ID, 200, Some(&sq), &default_params(), 150, 0);
    let sponsored = match r {
        RelayerOutcome::Respond(q) => q,
        _ => panic!("expected a response"),
    };
    let info = sponsored.gas_sponsorship_info.expect("sponsorship granted");
    assert_eq!(info.refund_amount, 150);
    assert!(!info.refund_native_eth);
    // The in-kind refund is folded into the quote the caller takes away.
    assert_eq!(sponsored.signed_quote.quote.match_result.base_amount, 4_000 - 150);
    assert_eq!(sponsored.signed_quote.quote.match_result.quote_amount, 120_000);
    assert_eq!(sponsored.signed_quote.signature, sq.signature);

    // The client assembles, echoing the quote it was handed: the cached
    // terms are found by its content and, being in-kind, reversed out
    // of the quote before forwarding.
    let req = AssembleMatchRequest { signed_quote: sponsored.signed_quote, updated_order: None };
    let (forwarded, carried) = g.prepare_assembly_request(&req, 500);
    assert_eq!(carried, Some(info));
    assert_eq!(forwarded.signed_quote.quote, sq.quote);

    // The relayer assembles the restored quote; the carried terms are
    // re-applied to the assembled bundle.
    let r = g.assembly_request_finish(
        KEY_ID,
        200,
        Some(&sample_bundle()),
        &default_params(),
        carried,
        150,
    );
    let resp = match r {
        RelayerOutcome::Respond(m) => m,
        _ => panic!("expected a response"),
    };
    assert!(resp.is_sponsored);
    assert_eq!(resp.match_bundle.match_result.base_amount, 4_000 - 150);
    assert_eq!(resp.match_bundle.receive.amount, 4_000 - 150);
}

#[test]
fn cache_miss_at_assembly_is_not_fatal() {
    let mut g = gateway();
    let req = AssembleMatchRequest { signed_quote: sample_quote(), updated_order: None };
    let (forwarded, carried) = g.prepare_assembly_request(&req, 0);
    assert!(carried.is_none());
    assert_eq!(forwarded.signed_quote.quote, req.signed_quote.quote);
    let r = g.assembly_request_finish(
        KEY_ID,
        200,
        Some(&sample_bundle()),
        &default_params(),
        None,
        10,
    );
    let resp = match r {
        RelayerOutcome::Respond(m) => m,
        _ => panic!("expected a response"),
    };
    assert!(!resp.is_sponsored);
    assert_eq!(resp.match_bundle, sample_bundle());
}

#[test]
fn expired_cache_entry_reads_as_a_miss() {
    let mut g = gateway();
    let sq = sample_quote();
    let r = g.quote_request_finish(KEY_ID, 200, Some(&sq), &default_params(), 150, 0);
    assert!(matches!(r, RelayerOutcome::Respond(_)));
    // One TTL later the entry is gone; the assembly falls back.
    let req = AssembleMatchRequest { signed_quote: sq, updated_order: None };
    let (_, carried) = g.prepare_assembly_request(&req, 1_000);
    assert!(carried.is_none());
}

#[test]
fn legacy_fallback_sponsors_with_native_refund() {
    let mut g = gateway();
    let mut params = default_params();
    params.use_gas_sponsorship = Some(true);
    // No cached terms, only the deprecated opt-in flag: the response is
    // sponsored with a native-asset refund and the request never fails.
    let r = g.assembly_request_finish(KEY_ID, 200, Some(&sample_bundle()), &params, None, 90);
    let resp = match r {
        RelayerOutcome::Respond(m) => m,
        _ => panic!("expected a response"),
    };
    assert!(resp.is_sponsored);
    let info = resp.gas_sponsorship_info.expect("sponsored");
    assert!(info.refund_native_eth);
    assert_eq!(info.refund_amount, 90);
    // A native refund never rewrites the bundle's amounts.
    assert_eq!(resp.match_bundle, sample_bundle());
}

#[test]
fn sponsorship_opt_out_is_honored() {
    let mut g = gateway();
    let mut params = default_params();
    params.disable_gas_sponsorship = Some(true);
    let r = g.match_request_finish(KEY_ID, 200, Some(&sample_bundle()), &params, 90);
    let resp = match r {
        RelayerOutcome::Respond(m) => m,
        _ => panic!("expected a response"),
    };
    assert!(!resp.is_sponsored);
    assert!(resp.gas_sponsorship_info.is_none());
    assert_eq!(resp.match_bundle, sample_bundle());
}

#[test]
fn exhausted_sponsorship_bucket_degrades_not_rejects() {
    // A sponsorship capacity of zero: requests still succeed, only
    // unsponsored.
    let mut g = Gateway::new(registry(), 2, 2, 0, 1_000, true);
    let r = g.match_request_finish(KEY_ID, 200, Some(&sample_bundle()), &default_params(), 90);
    let resp = match r {
        RelayerOutcome::Respond(m) => m,
        _ => panic!("expected a response"),
    };
    assert!(!resp.is_sponsored);
}

#[test]
fn settlement_gated_credit() {
    let mut g = Gateway::new(registry(), 2, 1, 2, 1_000, true);
    let (path, query, body) = (b"/v0/match".to_vec(), b"".to_vec(), b"{}".to_vec());
    let sig = sign(SECRET, &path, &query, &body);

    // The only bundle token is consumed.
    assert!(g.match_request_begin(&path, &query, &body, Some(KEY_ID), &sig).is_ok());
    assert_eq!(
        g.match_request_begin(&path, &query, &body, Some(KEY_ID), &sig),
        Err(RejectReason::RateLimited)
    );

    // The watcher never observed settlement: the credit is withheld and
    // the bucket stays empty.
    g.settlement_finish(KEY_ID, false, None);
    assert_eq!(
        g.match_request_begin(&path, &query, &body, Some(KEY_ID), &sig),
        Err(RejectReason::RateLimited)
    );

    // Settlement observed: exactly one token comes back.
    g.settlement_finish(KEY_ID, true, None);
    assert!(g.match_request_begin(&path, &query, &body, Some(KEY_ID), &sig).is_ok());
    assert_eq!(
        g.match_request_begin(&path, &query, &body, Some(KEY_ID), &sig),
        Err(RejectReason::RateLimited)
    );
}

#[test]
fn settlement_credit_capped_at_capacity() {
    let mut g = Gateway::new(registry(), 2, 1, 2, 1_000, true);
    let (path, query, body) = (b"/v0/match".to_vec(), b"".to_vec(), b"{}".to_vec());
    let sig = sign(SECRET, &path, &query, &body);
    // Crediting a full bucket changes nothing: still exactly one token.
    g.settlement_finish(KEY_ID, true, None);
    g.settlement_finish(KEY_ID, true, None);
    assert!(g.match_request_begin(&path, &query, &body, Some(KEY_ID), &sig).is_ok());
    assert_eq!(
        g.match_request_begin(&path, &query, &body, Some(KEY_ID), &sig),
        Err(RejectReason::RateLimited)
    );
}

#[test]
fn sdk_version_default_when_header_missing() {
    assert_eq!(sdk_version_or_default(None), "pre-v0.1.0");
    assert_eq!(sdk_version_or_default(Some("v0.2.1".to_string())), "v0.2.1");
}

#[test]
fn settlement_finalizes_sponsorship_accounting() {
    let mut g = gateway();
    let info = match_gateway::types::GasSponsorshipInfo {
        refund_amount: 70,
        refund_native_eth: true,
        refund_address: None,
    };
    g.settlement_finish(KEY_ID, true, Some(info));
    assert_eq!(g.settled_refund_total, 70);
    assert_eq!(g.settled_count, 1);
    // An unsettled bundle finalizes nothing.
    g.settlement_finish(KEY_ID, false, Some(info));
    assert_eq!(g.settled_refund_total, 70);
    assert_eq!(g.settled_count, 1);
}
