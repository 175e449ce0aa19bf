//! Unit tests for the leaf components: token buckets, the sponsorship
//! engine, the cache key and store, the settlement watcher, and the
//! price reporter's HTTP front.

use match_gateway::cache::{quote_cache_key, SponsorshipCache};
use match_gateway::price_server::{GlobalPriceStreams, HealthCheckHandler, HttpServer};
use match_gateway::rate_limit::{Bucket, RateLimiter};
use match_gateway::sponsorship::{apply_to_match, compute_refund, try_remove_from_quote};
use match_gateway::types::{
    AssetTransfer, ExternalMatchResult, ExternalOrder, ExternalQuote, GasSponsorshipInfo,
    LimitKind, MatchBundle, SignedQuote, SponsorshipQueryParams, TimestampedPrice,
};
use match_gateway::watcher::{watcher_step, PollOutcome, WatcherStep};

fn sample_order() -> ExternalOrder {
    ExternalOrder {
        base_mint: 0xaaaa,
        quote_mint: 0xbbbb,
        side_sell: false,
        base_amount: 5_000,
        quote_amount: 0,
        min_fill_size: 1,
    }
}

fn sample_match_result() -> ExternalMatchResult {
    ExternalMatchResult {
        base_mint: 0xaaaa,
        quote_mint: 0xbbbb,
        base_amount: 4_000,
        quote_amount: 120_000,
        direction_sell: false,
    }
}

fn sample_quote() -> SignedQuote {
    SignedQuote {
        quote: ExternalQuote {
            order: sample_order(),
            match_result: sample_match_result(),
            price: TimestampedPrice { price_repr: 30_000_000, timestamp: 1_700_000_000_000 },
            timestamp: 1_700_000_000_001,
        },
        signature: vec![1, 2, 3, 4],
    }
}

fn sample_bundle() -> MatchBundle {
    MatchBundle {
        match_result: sample_match_result(),
        receive: AssetTransfer { mint: 0xaaaa, amount: 3_990 },
        send: AssetTransfer { mint: 0xbbbb, amount: 120_000 },
    }
}

#[test]
fn bucket_admissions_bounded_by_tokens() {
    let mut b = Bucket::new_full(2);
    assert!(b.consume());
    assert!(b.consume());
    assert!(!b.consume());
    assert!(!b.consume());
    assert_eq!(b.tokens, 0);
    assert_eq!(b.capacity, 2);
}

#[test]
fn bucket_credit_capped_at_capacity() {
    let mut b = Bucket::new_full(3);
    b.credit();
    assert_eq!(b.tokens, 3);
    assert!(b.consume());
    b.credit();
    b.credit();
    assert_eq!(b.tokens, 3);
}

#[test]
fn zero_capacity_bucket_always_rejects() {
    let mut b = Bucket::new_full(0);
    assert!(!b.check());
    assert!(!b.consume());
    b.credit();
    assert!(!b.consume());
}

#[test]
fn limiter_buckets_are_independent() {
    let mut limiter = RateLimiter::new(1, 1, 1);
    assert!(limiter.consume(7, LimitKind::Quote));
    assert!(!limiter.consume(7, LimitKind::Quote));
    // Exhausting the quote bucket does not block the bundle bucket.
    assert!(limiter.consume(7, LimitKind::Bundle));
    // Nor another caller's quote bucket.
    assert!(limiter.consume(8, LimitKind::Quote));
    assert!(limiter.check(7, LimitKind::Sponsorship));
}

#[test]
fn limiter_credit_restores_one_token() {
    let mut limiter = RateLimiter::new(1, 1, 1);
    assert!(limiter.consume(7, LimitKind::Bundle));
    assert!(!limiter.consume(7, LimitKind::Bundle));
    limiter.credit(7, LimitKind::Bundle);
    assert!(limiter.consume(7, LimitKind::Bundle));
    // The credit is capped: crediting a full bucket changes nothing.
    limiter.credit(7, LimitKind::Bundle);
    limiter.credit(7, LimitKind::Bundle);
    assert!(limiter.consume(7, LimitKind::Bundle));
    assert!(!limiter.consume(7, LimitKind::Bundle));
}

#[test]
fn compute_refund_exact_values() {
    let mr = sample_match_result();
    // Disabled engine grants nothing.
    assert_eq!(compute_refund(&mr, true, 500, false), 0);
    // A native refund is the full estimate.
    assert_eq!(compute_refund(&mr, true, 500, true), 500);
    // An in-kind refund is clamped to the receive-side amount: the
    // caller buys the base here, so it receives 4_000 base units.
    assert_eq!(compute_refund(&mr, false, 500, true), 500);
    assert_eq!(compute_refund(&mr, false, 1_000_000, true), 4_000);
}

#[test]
fn in_kind_sponsorship_decreases_receive_amounts() {
    let bundle = sample_bundle();
    let resp = apply_to_match(&bundle, false, Some(0xdead), 100);
    assert!(resp.is_sponsored);
    assert_eq!(
        resp.gas_sponsorship_info,
        Some(GasSponsorshipInfo {
            refund_amount: 100,
            refund_native_eth: false,
            refund_address: Some(0xdead),
        })
    );
    assert_eq!(resp.match_bundle.match_result.base_amount, 3_900);
    assert_eq!(resp.match_bundle.match_result.quote_amount, 120_000);
    assert_eq!(resp.match_bundle.receive.amount, 3_890);
    assert_eq!(resp.match_bundle.send.amount, 120_000);
}

#[test]
fn native_sponsorship_leaves_amounts_untouched() {
    let bundle = sample_bundle();
    let resp = apply_to_match(&bundle, true, None, 777);
    assert!(resp.is_sponsored);
    assert_eq!(resp.match_bundle, bundle);
}

#[test]
fn sponsorship_reversible_bit_for_bit() {
    let quote = sample_quote().quote;
    // Rewrite the quote's match result as an in-kind refund would.
    let bundle = MatchBundle {
        match_result: quote.match_result,
        receive: AssetTransfer { mint: 0xaaaa, amount: quote.match_result.base_amount },
        send: AssetTransfer { mint: 0xbbbb, amount: quote.match_result.quote_amount },
    };
    let refund = 250;
    let sponsored = apply_to_match(&bundle, false, None, refund);
    let rewritten = ExternalQuote {
        match_result: sponsored.match_bundle.match_result,
        ..quote
    };
    // Removing the refund restores the original amounts exactly.
    let restored = try_remove_from_quote(&rewritten, refund).unwrap();
    assert_eq!(restored, quote);
}

#[test]
fn remove_from_quote_overflow_is_refused() {
    let mut quote = sample_quote().quote;
    quote.match_result.base_amount = u128::MAX - 10;
    quote.match_result.direction_sell = false;
    assert!(try_remove_from_quote(&quote, 11).is_none());
    assert!(try_remove_from_quote(&quote, 10).is_some());
}

#[test]
fn cache_key_content_addressed() {
    let q1 = sample_quote();
    let q2 = sample_quote();
    assert_eq!(quote_cache_key(&q1), quote_cache_key(&q2));

    let mut amount_changed = sample_quote();
    amount_changed.quote.match_result.base_amount += 1;
    assert_ne!(quote_cache_key(&q1), quote_cache_key(&amount_changed));

    let mut side_changed = sample_quote();
    side_changed.quote.order.side_sell = true;
    assert_ne!(quote_cache_key(&q1), quote_cache_key(&side_changed));

    let mut sig_changed = sample_quote();
    sig_changed.signature.push(9);
    assert_ne!(quote_cache_key(&q1), quote_cache_key(&sig_changed));
}

#[test]
fn cache_put_get_roundtrip_and_expiry() {
    let mut cache = SponsorshipCache::new(1_000);
    let key = quote_cache_key(&sample_quote());
    let info = GasSponsorshipInfo {
        refund_amount: 42,
        refund_native_eth: false,
        refund_address: None,
    };
    cache.put(key.clone(), info, 5_000);
    assert_eq!(cache.get(&key, 5_001), Some(info));
    assert_eq!(cache.get(&key, 5_999), Some(info));
    // The entry lives exactly one TTL from when it was put.
    assert_eq!(cache.get(&key, 6_000), None);
    // A different key reads nothing.
    let mut other = sample_quote();
    other.quote.timestamp += 1;
    assert_eq!(cache.get(&quote_cache_key(&other), 5_001), None);
}

#[test]
fn cache_overwrite_replaces_terms() {
    let mut cache = SponsorshipCache::new(1_000);
    let key = quote_cache_key(&sample_quote());
    let first = GasSponsorshipInfo {
        refund_amount: 1,
        refund_native_eth: true,
        refund_address: None,
    };
    let second = GasSponsorshipInfo {
        refund_amount: 2,
        refund_native_eth: false,
        refund_address: Some(3),
    };
    cache.put(key.clone(), first, 0);
    cache.put(key.clone(), second, 100);
    assert_eq!(cache.get(&key, 200), Some(second));
}

#[test]
fn watcher_settlement_wins() {
    assert_eq!(watcher_step(0, 100, PollOutcome::Settled), WatcherStep::Confirmed);
    // Settlement observed at the deadline still confirms.
    assert_eq!(watcher_step(100, 100, PollOutcome::Settled), WatcherStep::Confirmed);
}

#[test]
fn watcher_deadline_expires() {
    assert_eq!(watcher_step(100, 100, PollOutcome::NotYet), WatcherStep::Expired);
    assert_eq!(watcher_step(101, 100, PollOutcome::ClientFailure), WatcherStep::Expired);
}

#[test]
fn watcher_errors_are_retried() {
    assert_eq!(watcher_step(0, 100, PollOutcome::ClientFailure), WatcherStep::Retry);
    assert_eq!(watcher_step(99, 100, PollOutcome::NotYet), WatcherStep::Retry);
}

#[test]
fn query_params_defaults() {
    let params = SponsorshipQueryParams {
        disable_gas_sponsorship: None,
        refund_address: None,
        refund_native_eth: None,
        use_gas_sponsorship: None,
    };
    let (disabled, addr, native) = params.get_or_default();
    assert!(!disabled);
    assert_eq!(addr, None);
    assert!(!native);

    let params = SponsorshipQueryParams {
        disable_gas_sponsorship: Some(true),
        refund_address: Some(7),
        refund_native_eth: Some(true),
        use_gas_sponsorship: Some(true),
    };
    let (disabled, addr, native) = params.get_or_default();
    assert!(disabled);
    assert_eq!(addr, Some(7));
    assert!(native);
}

#[test]
fn price_server_serves_health() {
    let server = HttpServer::new(3000, GlobalPriceStreams { topics: Vec::new() });
    assert_eq!(server.port, 3000);
    let (status, body) = server.serve_request(&b"/health".to_vec());
    assert_eq!(status, 200);
    assert_eq!(body, "OK");
}

#[test]
fn price_server_unrouted_is_not_found() {
    let server = HttpServer::new(3000, GlobalPriceStreams { topics: Vec::new() });
    let (status, body) = server.serve_request(&b"/prices".to_vec());
    assert_eq!(status, 404);
    assert_eq!(body, "Not Found");
}

#[test]
fn health_handler_answers_ok() {
    let handler = HealthCheckHandler;
    let (status, body) = handler.handle();
    assert_eq!(status, 200);
    assert_eq!(body, "OK");
}
