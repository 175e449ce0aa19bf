//! The proxy orchestrator: the decision half of each request handler.
//!
//! Every inbound request runs authorize → rate-limit → forward →
//! sponsor → respond, with settlement tracked afterwards in a detached
//! unit of work. The I/O between those stages — the relayer call, the
//! clock, the chain client — suspends, so each handler is split at the
//! suspension points: a `*_begin` function decides everything up to the
//! relayer call, a `*_finish` function decides everything after it, and
//! [`Gateway::settlement_finish`] applies the settlement outcome. The
//! surrounding process performs the I/O these decisions call for and
//! never decides anything itself.

use vstd::prelude::*;

use crate::auth::{spec_authorize, AuthRegistry};
use crate::cache::{quote_cache_key, quote_content_key, quote_key_bytes, SponsorshipCache};
use crate::rate_limit::{spec_admit, spec_credit, RateLimiter};
use crate::sponsorship::{
    apply_to_match, apply_to_quote, compute_refund, spec_compute_refund, spec_quote_rewrite,
    spec_remove_from_quote, spec_sponsor_bundle, try_remove_from_quote,
};
use crate::types::{
    AssembleMatchRequest, GasSponsorshipInfo, LimitKind, MatchBundle, RejectReason,
    RelayerOutcome, SignedQuote, SponsoredMatchResponse, SponsoredQuoteResponse,
    SponsorshipQueryParams,
};

verus! {

/// The HTTP status the relayer answers on success
pub const STATUS_OK: u16 = 200;

/// The gateway's whole state: the key registry, the per-caller limits,
/// the sponsorship cache, the sponsorship switch, and the running
/// settlement accounting.
pub struct Gateway {
    /// The authorizer's key registry
    pub auth: AuthRegistry,
    /// The per-caller token buckets
    pub limiter: RateLimiter,
    /// The cached sponsorship terms, keyed by quote content
    pub cache: SponsorshipCache,
    /// Whether the sponsorship engine is enabled at all
    pub sponsorship_enabled: bool,
    /// The total refund amount of settled sponsored matches
    pub settled_refund_total: u128,
    /// How many settled sponsored matches have been accounted
    pub settled_count: u64,
}

/// What the begin half of a handler decides: the authorized caller when
/// the request may be forwarded to the relayer, or the rejection that
/// ends it before any relayer call.
pub open spec fn spec_begin_result(
    g: Gateway,
    path: Seq<u8>,
    query: Seq<u8>,
    body: Seq<u8>,
    key_id: Option<u64>,
    signature: Seq<u8>,
    kind: LimitKind,
) -> Result<u64, RejectReason> {
    match spec_authorize(g.auth, path, query, body, key_id, signature) {
        Err(e) => Err(RejectReason::Auth(e)),
        Ok(caller) => {
            if g.limiter.spec_bucket(caller, kind).tokens > 0 {
                Ok(caller)
            } else {
                Err(RejectReason::RateLimited)
            }
        },
    }
}

/// Whether sponsorship is granted for this request: the caller did not
/// opt out, the engine is enabled, and the caller's sponsorship bucket
/// is not exhausted. An exhausted bucket degrades to an unsponsored
/// response, never to a rejection.
pub open spec fn spec_sponsor_allowed(
    g: Gateway,
    caller: u64,
    params: SponsorshipQueryParams,
) -> bool {
    &&& !params.disabled_or_default()
    &&& g.sponsorship_enabled
    &&& g.limiter.spec_bucket(caller, LimitKind::Sponsorship).tokens > 0
}

/// The sponsorship terms granted to a quote under the given parameters
/// and gas cost estimate
pub open spec fn spec_quote_info(
    sq: SignedQuote,
    params: SponsorshipQueryParams,
    gas_cost_estimate: u128,
) -> GasSponsorshipInfo {
    GasSponsorshipInfo {
        refund_amount: spec_compute_refund(
            sq.quote.match_result,
            params.native_or_default(),
            gas_cost_estimate,
            true,
        ),
        refund_native_eth: params.native_or_default(),
        refund_address: params.refund_address,
    }
}

/// The refund granted to an assembled or direct-match bundle: the
/// computed refund, further clamped to the receive transfer for an
/// in-kind refund so the rewrite never underflows.
pub open spec fn spec_bundle_refund(
    bundle: MatchBundle,
    refund_native_eth: bool,
    gas_cost_estimate: u128,
) -> u128 {
    let r0 = spec_compute_refund(
        bundle.match_result,
        refund_native_eth,
        gas_cost_estimate,
        true,
    );
    if refund_native_eth {
        r0
    } else if r0 <= bundle.receive.amount {
        r0
    } else {
        bundle.receive.amount
    }
}

/// Whether a carried in-kind refund fits the bundle it is applied to
pub open spec fn spec_refund_fits(bundle: MatchBundle, info: GasSponsorshipInfo) -> bool {
    ||| info.refund_native_eth
    ||| (info.refund_amount <= bundle.match_result.receive_amount() && info.refund_amount
        <= bundle.receive.amount)
}

/// The sponsored match response built by applying the given terms
pub open spec fn spec_apply_info(bundle: MatchBundle, info: GasSponsorshipInfo)
    -> SponsoredMatchResponse {
    SponsoredMatchResponse {
        match_bundle: if info.refund_native_eth {
            bundle
        } else {
            spec_sponsor_bundle(bundle, info.refund_amount)
        },
        is_sponsored: true,
        gas_sponsorship_info: Some(info),
    }
}

/// The unsponsored match response: the bundle untouched
pub open spec fn spec_unsponsored(bundle: MatchBundle) -> SponsoredMatchResponse {
    SponsoredMatchResponse { match_bundle: bundle, is_sponsored: false, gas_sponsorship_info: None }
}

/// Copy a byte string
fn copy_bytes(a: &Vec<u8>) -> (r: Vec<u8>)
    ensures
        r@ == a@,
{
    let n = a.len();
    let mut v: Vec<u8> = Vec::new();
    let mut i: usize = 0;
    while i < n
        invariant
            n == a@.len(),
            0 <= i <= n,
            v@ == a@.take(i as int),
        decreases n - i,
    {
        v.push(a[i]);
        proof {
            assert(a@.take(i as int + 1) =~= a@.take(i as int).push(a@[i as int]));
        }
        i = i + 1;
    }
    proof {
        assert(a@.take(n as int) =~= a@);
    }
    v
}

impl Gateway {
    /// A fresh gateway: the given key registry, full buckets at the
    /// given capacities, an empty cache with the given TTL, and no
    /// settlement accounted yet.
    pub fn new(
        auth: AuthRegistry,
        quote_capacity: u64,
        bundle_capacity: u64,
        sponsorship_capacity: u64,
        cache_ttl_ms: u64,
        sponsorship_enabled: bool,
    ) -> (r: Gateway)
        ensures
            r.auth == auth,
            r.limiter.wf(),
            forall|c: u64, k: LimitKind| #[trigger] r.limiter.spec_bucket(c, k).tokens
                == r.limiter.spec_capacity(k),
            forall|c: u64, k: LimitKind| #[trigger] r.limiter.spec_bucket(c, k).capacity
                == r.limiter.spec_capacity(k),
            r.limiter.spec_capacity(LimitKind::Quote) == quote_capacity,
            r.limiter.spec_capacity(LimitKind::Bundle) == bundle_capacity,
            r.limiter.spec_capacity(LimitKind::Sponsorship) == sponsorship_capacity,
            r.cache.ttl_ms == cache_ttl_ms,
            forall|k: Seq<u8>, t: u64| #[trigger] r.cache.spec_get(k, t) is None,
            r.sponsorship_enabled == sponsorship_enabled,
            r.settled_refund_total == 0,
            r.settled_count == 0,
    {
        Gateway {
            auth,
            limiter: RateLimiter::new(quote_capacity, bundle_capacity, sponsorship_capacity),
            cache: SponsorshipCache::new(cache_ttl_ms),
            sponsorship_enabled,
            settled_refund_total: 0,
            settled_count: 0,
        }
    }

    /// Authorize a request and, if authorized, take one token from the
    /// caller's bucket for `kind`. Rejections leave every bucket as it
    /// was: unauthenticated traffic never consumes capacity, and a
    /// caller at zero tokens is rejected before any relayer call.
    fn begin_request(
        &mut self,
        kind: LimitKind,
        path: &Vec<u8>,
        query: &Vec<u8>,
        body: &Vec<u8>,
        key_id: Option<u64>,
        signature: &Vec<u8>,
    ) -> (r: Result<u64, RejectReason>)
        ensures
            r == spec_begin_result(*old(self), path@, query@, body@, key_id, signature@, kind),
            final(self).auth == old(self).auth,
            final(self).cache == old(self).cache,
            final(self).sponsorship_enabled == old(self).sponsorship_enabled,
            final(self).settled_refund_total == old(self).settled_refund_total,
            final(self).settled_count == old(self).settled_count,
            forall|k: LimitKind| #[trigger] final(self).limiter.spec_capacity(k) == old(self).limiter.spec_capacity(k),
            r is Ok ==> final(self).limiter.spec_bucket(r->Ok_0, kind) == spec_admit(
                old(self).limiter.spec_bucket(r->Ok_0, kind),
            ).0,
            r is Ok ==> forall|c: u64, k: LimitKind|
                !(c == r->Ok_0 && k == kind) ==> #[trigger] final(self).limiter.spec_bucket(c, k)
                    == old(self).limiter.spec_bucket(c, k),
            r is Err ==> forall|c: u64, k: LimitKind| #[trigger] final(self).limiter.spec_bucket(
                c,
                k,
            ) == old(self).limiter.spec_bucket(c, k),
            old(self).limiter.wf() ==> final(self).limiter.wf(),
    {
        let caller = match self.auth.authorize(path, query, body, key_id, signature) {
            Err(e) => {
                return Err(RejectReason::Auth(e));
            },
            Ok(caller) => caller,
        };
        if self.limiter.consume(caller, kind) {
            Ok(caller)
        } else {
            Err(RejectReason::RateLimited)
        }
    }

    /// Begin a quote request: authorize, then admit against the
    /// caller's quote bucket. `Ok` names the caller and means the body
    /// may be forwarded to the relayer unchanged; `Err` rejects the
    /// request before any relayer call.
    pub fn quote_request_begin(
        &mut self,
        path: &Vec<u8>,
        query: &Vec<u8>,
        body: &Vec<u8>,
        key_id: Option<u64>,
        signature: &Vec<u8>,
    ) -> (r: Result<u64, RejectReason>)
        ensures
            r == spec_begin_result(
                *old(self),
                path@,
                query@,
                body@,
                key_id,
                signature@,
                LimitKind::Quote,
            ),
            final(self).auth == old(self).auth,
            final(self).cache == old(self).cache,
            final(self).sponsorship_enabled == old(self).sponsorship_enabled,
            final(self).settled_refund_total == old(self).settled_refund_total,
            final(self).settled_count == old(self).settled_count,
            forall|k: LimitKind| #[trigger] final(self).limiter.spec_capacity(k) == old(self).limiter.spec_capacity(k),
            r is Ok ==> final(self).limiter.spec_bucket(r->Ok_0, LimitKind::Quote) == spec_admit(
                old(self).limiter.spec_bucket(r->Ok_0, LimitKind::Quote),
            ).0,
            r is Ok ==> forall|c: u64, k: LimitKind|
                !(c == r->Ok_0 && k == LimitKind::Quote) ==> #[trigger] final(self).limiter.spec_bucket(c, k) == old(self).limiter.spec_bucket(c, k),
            r is Err ==> forall|c: u64, k: LimitKind| #[trigger] final(self).limiter.spec_bucket(
                c,
                k,
            ) == old(self).limiter.spec_bucket(c, k),
            old(self).limiter.wf() ==> final(self).limiter.wf(),
    {
        self.begin_request(LimitKind::Quote, path, query, body, key_id, signature)
    }

    /// Begin a quote-assembly request: authorize, then admit against
    /// the caller's bundle bucket.
    pub fn assembly_request_begin(
        &mut self,
        path: &Vec<u8>,
        query: &Vec<u8>,
        body: &Vec<u8>,
        key_id: Option<u64>,
        signature: &Vec<u8>,
    ) -> (r: Result<u64, RejectReason>)
        ensures
            r == spec_begin_result(
                *old(self),
                path@,
                query@,
                body@,
                key_id,
                signature@,
                LimitKind::Bundle,
            ),
            final(self).auth == old(self).auth,
            final(self).cache == old(self).cache,
            final(self).sponsorship_enabled == old(self).sponsorship_enabled,
            final(self).settled_refund_total == old(self).settled_refund_total,
            final(self).settled_count == old(self).settled_count,
            forall|k: LimitKind| #[trigger] final(self).limiter.spec_capacity(k) == old(self).limiter.spec_capacity(k),
            r is Ok ==> final(self).limiter.spec_bucket(r->Ok_0, LimitKind::Bundle) == spec_admit(
                old(self).limiter.spec_bucket(r->Ok_0, LimitKind::Bundle),
            ).0,
            r is Ok ==> forall|c: u64, k: LimitKind|
                !(c == r->Ok_0 && k == LimitKind::Bundle) ==> #[trigger] final(self).limiter.spec_bucket(c, k) == old(self).limiter.spec_bucket(c, k),
            r is Err ==> forall|c: u64, k: LimitKind| #[trigger] final(self).limiter.spec_bucket(
                c,
                k,
            ) == old(self).limiter.spec_bucket(c, k),
            old(self).limiter.wf() ==> final(self).limiter.wf(),
    {
        self.begin_request(LimitKind::Bundle, path, query, body, key_id, signature)
    }

    /// Begin a direct-match request: authorize, then admit against the
    /// caller's bundle bucket.
    pub fn match_request_begin(
        &mut self,
        path: &Vec<u8>,
        query: &Vec<u8>,
        body: &Vec<u8>,
        key_id: Option<u64>,
        signature: &Vec<u8>,
    ) -> (r: Result<u64, RejectReason>)
        ensures
            r == spec_begin_result(
                *old(self),
                path@,
                query@,
                body@,
                key_id,
                signature@,
                LimitKind::Bundle,
            ),
            final(self).auth == old(self).auth,
            final(self).cache == old(self).cache,
            final(self).sponsorship_enabled == old(self).sponsorship_enabled,
            final(self).settled_refund_total == old(self).settled_refund_total,
            final(self).settled_count == old(self).settled_count,
            forall|k: LimitKind| #[trigger] final(self).limiter.spec_capacity(k) == old(self).limiter.spec_capacity(k),
            r is Ok ==> final(self).limiter.spec_bucket(r->Ok_0, LimitKind::Bundle) == spec_admit(
                old(self).limiter.spec_bucket(r->Ok_0, LimitKind::Bundle),
            ).0,
            r is Ok ==> forall|c: u64, k: LimitKind|
                !(c == r->Ok_0 && k == LimitKind::Bundle) ==> #[trigger] final(self).limiter.spec_bucket(c, k) == old(self).limiter.spec_bucket(c, k),
            r is Err ==> forall|c: u64, k: LimitKind| #[trigger] final(self).limiter.spec_bucket(
                c,
                k,
            ) == old(self).limiter.spec_bucket(c, k),
            old(self).limiter.wf() ==> final(self).limiter.wf(),
    {
        self.begin_request(LimitKind::Bundle, path, query, body, key_id, signature)
    }

    /// Rewrite an assembly request before it is forwarded: when the
    /// quote it names has cached sponsorship terms that rewrote the
    /// match amounts, remove that rewrite, restoring the amounts the
    /// relayer signed. Returns the request to forward and the terms to
    /// re-apply after assembly. A cache miss is never fatal: the
    /// request is forwarded as it came, unsponsored; so is a cached
    /// refund that no longer fits the quote.
    pub fn prepare_assembly_request(&self, req: &AssembleMatchRequest, now: u64) -> (r: (
        AssembleMatchRequest,
        Option<GasSponsorshipInfo>,
    ))
        ensures
            ({
                let cached = self.cache.spec_get(quote_key_bytes(req.signed_quote), now);
                match cached {
                    None => r.0.signed_quote.content_eq(req.signed_quote) && r.0.updated_order
                        == req.updated_order && r.1 is None,
                    Some(info) => {
                        if !info.requires_match_result_update() {
                            r.0.signed_quote.content_eq(req.signed_quote) && r.0.updated_order
                                == req.updated_order && r.1 == Some(info)
                        } else if req.signed_quote.quote.match_result.receive_amount()
                            + info.refund_amount <= u128::MAX {
                            r.0.signed_quote.quote == spec_remove_from_quote(
                                req.signed_quote.quote,
                                info.refund_amount,
                            ) && r.0.signed_quote.signature@ == req.signed_quote.signature@
                                && r.0.updated_order == req.updated_order && r.1 == Some(info)
                        } else {
                            r.0.signed_quote.content_eq(req.signed_quote) && r.0.updated_order
                                == req.updated_order && r.1 is None
                        }
                    },
                }
            }),
    {
        let key = quote_cache_key(&req.signed_quote);
        let cached = self.cache.get(&key, now);
        let passthrough = AssembleMatchRequest {
            signed_quote: SignedQuote {
                quote: req.signed_quote.quote,
                signature: copy_bytes(&req.signed_quote.signature),
            },
            updated_order: req.updated_order,
        };
        match cached {
            None => (passthrough, None),
            Some(info) => {
                if !(!info.refund_native_eth && info.refund_amount > 0) {
                    (passthrough, Some(info))
                } else {
                    match try_remove_from_quote(&req.signed_quote.quote, info.refund_amount) {
                        Some(restored) => (
                            AssembleMatchRequest {
                                signed_quote: SignedQuote {
                                    quote: restored,
                                    signature: copy_bytes(&req.signed_quote.signature),
                                },
                                updated_order: req.updated_order,
                            },
                            Some(info),
                        ),
                        None => (passthrough, None),
                    }
                }
            },
        }
    }

    /// Finish a quote request once the relayer answered. A non-success
    /// status passes through untouched and runs no sponsorship logic; a
    /// success body the surrounding process could not parse fails the
    /// request; otherwise the quote is returned, with sponsorship terms
    /// attached and cached when sponsorship is granted. An in-kind
    /// refund is folded into the quote the caller takes away, and the
    /// terms are cached under that quote's content, where the assembly
    /// request will look them up and reverse them. The caller's
    /// sponsorship bucket is only read, never drained.
    pub fn quote_request_finish(
        &mut self,
        caller: u64,
        status: u16,
        resp: Option<&SignedQuote>,
        params: &SponsorshipQueryParams,
        gas_cost_estimate: u128,
        now: u64,
    ) -> (r: RelayerOutcome<SponsoredQuoteResponse>)
        ensures
            final(self).auth == old(self).auth,
            final(self).sponsorship_enabled == old(self).sponsorship_enabled,
            final(self).settled_refund_total == old(self).settled_refund_total,
            final(self).settled_count == old(self).settled_count,
            final(self).limiter == old(self).limiter,
            final(self).cache.ttl_ms == old(self).cache.ttl_ms,
            status != STATUS_OK ==> r is PassThrough && final(self).cache == old(self).cache,
            status == STATUS_OK && resp is None ==> r is MalformedBody && final(self).cache == old(self).cache,
            status == STATUS_OK && resp is Some ==> ({
                let sq = *resp->Some_0;
                let granted = spec_sponsor_allowed(*old(self), caller, *params);
                let info = spec_quote_info(sq, *params, gas_cost_estimate);
                let held = spec_quote_rewrite(sq.quote, info);
                if !granted {
                    &&& r matches RelayerOutcome::Respond(q) && q.signed_quote.content_eq(sq)
                        && q.gas_sponsorship_info is None
                    &&& final(self).cache == old(self).cache
                } else {
                    &&& r matches RelayerOutcome::Respond(q) && q.signed_quote.quote == held
                        && q.signed_quote.signature@ == sq.signature@ && q.gas_sponsorship_info
                        == Some(info)
                    &&& forall|t: u64| #[trigger] final(self).cache.spec_get(
                        quote_content_key(held, sq.signature@),
                        t,
                    ) == (if t < old(self).cache.spec_expiry(now) {
                        Some(info)
                    } else {
                        Option::<GasSponsorshipInfo>::None
                    })
                    &&& forall|k: Seq<u8>, t: u64|
                        k != quote_content_key(held, sq.signature@) ==> #[trigger] final(self).cache.spec_get(k, t) == old(self).cache.spec_get(k, t)
                }
            }),
    {
        if status != STATUS_OK {
            return RelayerOutcome::PassThrough;
        }
        let sq = match resp {
            None => {
                return RelayerOutcome::MalformedBody;
            },
            Some(sq) => sq,
        };
        let (disabled, refund_address, refund_native_eth) = params.get_or_default();
        let granted = !disabled && self.sponsorship_enabled && self.limiter.check(
            caller,
            LimitKind::Sponsorship,
        );
        if !granted {
            let owned = SignedQuote { quote: sq.quote, signature: copy_bytes(&sq.signature) };
            return RelayerOutcome::Respond(
                SponsoredQuoteResponse { signed_quote: owned, gas_sponsorship_info: None },
            );
        }
        let refund_amount = compute_refund(
            &sq.quote.match_result,
            refund_native_eth,
            gas_cost_estimate,
            true,
        );
        let info = GasSponsorshipInfo { refund_amount, refund_native_eth, refund_address };
        let sponsored = apply_to_quote(sq, info);
        let key = quote_cache_key(&sponsored.signed_quote);
        self.cache.put(key, info, now);
        RelayerOutcome::Respond(sponsored)
    }

    /// Finish an assembly request once the relayer answered. A
    /// non-success status passes through untouched; an unparsable
    /// success body fails the request. Otherwise: terms carried from
    /// the quote stage are re-applied to the assembled bundle; with no
    /// carried terms, the deprecated opt-in flag falls back to a
    /// freshly derived native-asset refund rather than failing; with
    /// neither, the bundle is returned unsponsored. A carried in-kind
    /// refund that no longer fits the bundle degrades to unsponsored.
    pub fn assembly_request_finish(
        &mut self,
        caller: u64,
        status: u16,
        resp: Option<&MatchBundle>,
        params: &SponsorshipQueryParams,
        carried: Option<GasSponsorshipInfo>,
        gas_cost_estimate: u128,
    ) -> (r: RelayerOutcome<SponsoredMatchResponse>)
        ensures
            *final(self) == *old(self),
            status != STATUS_OK ==> r is PassThrough,
            status == STATUS_OK && resp is None ==> r is MalformedBody,
            status == STATUS_OK && resp is Some ==> ({
                let bundle = *resp->Some_0;
                match carried {
                    Some(info) => {
                        if spec_refund_fits(bundle, info) {
                            r == RelayerOutcome::Respond(spec_apply_info(bundle, info))
                        } else {
                            r == RelayerOutcome::Respond(spec_unsponsored(bundle))
                        }
                    },
                    None => {
                        if params.legacy_opt_in() && spec_sponsor_allowed(
                            *old(self),
                            caller,
                            *params,
                        ) {
                            r == RelayerOutcome::Respond(
                                spec_apply_info(
                                    bundle,
                                    GasSponsorshipInfo {
                                        refund_amount: spec_bundle_refund(
                                            bundle,
                                            true,
                                            gas_cost_estimate,
                                        ),
                                        refund_native_eth: true,
                                        refund_address: params.refund_address,
                                    },
                                ),
                            )
                        } else {
                            r == RelayerOutcome::Respond(spec_unsponsored(bundle))
                        }
                    },
                }
            }),
    {
        if status != STATUS_OK {
            return RelayerOutcome::PassThrough;
        }
        let bundle = match resp {
            None => {
                return RelayerOutcome::MalformedBody;
            },
            Some(b) => *b,
        };
        match carried {
            Some(info) => {
                let fits = info.refund_native_eth || (info.refund_amount
                    <= receive_side_amount(&bundle) && info.refund_amount
                    <= bundle.receive.amount);
                if fits {
                    RelayerOutcome::Respond(
                        apply_to_match(
                            &bundle,
                            info.refund_native_eth,
                            info.refund_address,
                            info.refund_amount,
                        ),
                    )
                } else {
                    RelayerOutcome::Respond(
                        SponsoredMatchResponse {
                            match_bundle: bundle,
                            is_sponsored: false,
                            gas_sponsorship_info: None,
                        },
                    )
                }
            },
            None => {
                let legacy = match params.use_gas_sponsorship {
                    Some(b) => b,
                    None => false,
                };
                let (disabled, refund_address, _) = params.get_or_default();
                let granted = legacy && !disabled && self.sponsorship_enabled
                    && self.limiter.check(caller, LimitKind::Sponsorship);
                if granted {
                    let refund_amount = compute_refund(
                        &bundle.match_result,
                        true,
                        gas_cost_estimate,
                        true,
                    );
                    RelayerOutcome::Respond(
                        apply_to_match(&bundle, true, refund_address, refund_amount),
                    )
                } else {
                    RelayerOutcome::Respond(
                        SponsoredMatchResponse {
                            match_bundle: bundle,
                            is_sponsored: false,
                            gas_sponsorship_info: None,
                        },
                    )
                }
            },
        }
    }

    /// Finish a direct-match request once the relayer answered. A
    /// non-success status passes through untouched; an unparsable
    /// success body fails the request. Otherwise sponsorship is granted
    /// exactly when the caller did not opt out, the engine is enabled,
    /// and the sponsorship bucket is not exhausted; the refund is
    /// derived here and applied to the bundle.
    pub fn match_request_finish(
        &mut self,
        caller: u64,
        status: u16,
        resp: Option<&MatchBundle>,
        params: &SponsorshipQueryParams,
        gas_cost_estimate: u128,
    ) -> (r: RelayerOutcome<SponsoredMatchResponse>)
        ensures
            *final(self) == *old(self),
            status != STATUS_OK ==> r is PassThrough,
            status == STATUS_OK && resp is None ==> r is MalformedBody,
            status == STATUS_OK && resp is Some ==> ({
                let bundle = *resp->Some_0;
                if spec_sponsor_allowed(*old(self), caller, *params) {
                    r == RelayerOutcome::Respond(
                        spec_apply_info(
                            bundle,
                            GasSponsorshipInfo {
                                refund_amount: spec_bundle_refund(
                                    bundle,
                                    params.native_or_default(),
                                    gas_cost_estimate,
                                ),
                                refund_native_eth: params.native_or_default(),
                                refund_address: params.refund_address,
                            },
                        ),
                    )
                } else {
                    r == RelayerOutcome::Respond(spec_unsponsored(bundle))
                }
            }),
    {
        if status != STATUS_OK {
            return RelayerOutcome::PassThrough;
        }
        let bundle = match resp {
            None => {
                return RelayerOutcome::MalformedBody;
            },
            Some(b) => *b,
        };
        let (disabled, refund_address, refund_native_eth) = params.get_or_default();
        let granted = !disabled && self.sponsorship_enabled && self.limiter.check(
            caller,
            LimitKind::Sponsorship,
        );
        if granted {
            let r0 = compute_refund(&bundle.match_result, refund_native_eth, gas_cost_estimate, true);
            let refund_amount = if refund_native_eth {
                r0
            } else if r0 <= bundle.receive.amount {
                r0
            } else {
                bundle.receive.amount
            };
            RelayerOutcome::Respond(
                apply_to_match(&bundle, refund_native_eth, refund_address, refund_amount),
            )
        } else {
            RelayerOutcome::Respond(
                SponsoredMatchResponse {
                    match_bundle: bundle,
                    is_sponsored: false,
                    gas_sponsorship_info: None,
                },
            )
        }
    }

    /// Account a settlement outcome for a bundle that was returned to a
    /// caller. A settled bundle credits one token back to the caller's
    /// bundle bucket, capped at its capacity, and finalizes the
    /// sponsorship accounting; an unsettled one changes nothing — the
    /// credit is simply withheld. Called once per bundle, after the
    /// caller already has its response.
    pub fn settlement_finish(
        &mut self,
        caller: u64,
        settled: bool,
        info: Option<GasSponsorshipInfo>,
    )
        ensures
            final(self).auth == old(self).auth,
            final(self).cache == old(self).cache,
            final(self).sponsorship_enabled == old(self).sponsorship_enabled,
            !settled ==> *final(self) == *old(self),
            settled ==> final(self).limiter.spec_bucket(caller, LimitKind::Bundle) == spec_credit(
                old(self).limiter.spec_bucket(caller, LimitKind::Bundle),
            ),
            settled ==> forall|c: u64, k: LimitKind|
                !(c == caller && k == LimitKind::Bundle) ==> #[trigger] final(self).limiter.spec_bucket(c, k) == old(self).limiter.spec_bucket(c, k),
            settled ==> forall|k: LimitKind| #[trigger] final(self).limiter.spec_capacity(k) == old(self).limiter.spec_capacity(k),
            old(self).limiter.wf() ==> final(self).limiter.wf(),
            settled && info is Some ==> final(self).settled_refund_total == (
            if old(self).settled_refund_total + info->Some_0.refund_amount <= u128::MAX {
                (old(self).settled_refund_total + info->Some_0.refund_amount) as u128
            } else {
                u128::MAX
            }),
            settled && info is Some ==> final(self).settled_count == (
            if old(self).settled_count < u64::MAX {
                (old(self).settled_count + 1) as u64
            } else {
                u64::MAX
            }),
            settled && info is None ==> final(self).settled_refund_total == old(self).settled_refund_total && final(self).settled_count == old(self).settled_count,
    {
        if !settled {
            return ;
        }
        self.limiter.credit(caller, LimitKind::Bundle);
        if let Some(i) = info {
            self.settled_refund_total = if self.settled_refund_total <= u128::MAX
                - i.refund_amount {
                self.settled_refund_total + i.refund_amount
            } else {
                u128::MAX
            };
            self.settled_count = if self.settled_count < u64::MAX {
                self.settled_count + 1
            } else {
                u64::MAX
            };
        }
    }
}

/// The client version a request reports, with its default: a missing or
/// unreadable version header reads as the version that predates the
/// header. Threaded through for logging and metrics only; it never
/// affects control flow beyond the documented legacy fallback.
pub fn sdk_version_or_default(v: Option<String>) -> (r: String)
    ensures
        v is Some ==> r@ == v->Some_0@,
        v is None ==> r@ == "pre-v0.1.0"@,
{
    match v {
        Some(s) => s,
        None => "pre-v0.1.0".to_owned(),
    }
}

/// Classify a parsed request body: a body the surrounding process could
/// not deserialize rejects the request with a serde error, exactly as
/// the relayer would have seen garbage.
pub fn require_body<T>(parsed: Option<T>) -> (r: Result<T, RejectReason>)
    ensures
        parsed is Some <==> r is Ok,
        r is Ok ==> r->Ok_0 == parsed->Some_0,
        r is Err ==> r->Err_0 == RejectReason::Serde,
{
    match parsed {
        Some(v) => Ok(v),
        None => Err(RejectReason::Serde),
    }
}

/// The receive-side amount of a bundle's match result
fn receive_side_amount(bundle: &MatchBundle) -> (r: u128)
    ensures
        r == bundle.match_result.receive_amount(),
{
    if bundle.match_result.direction_sell {
        bundle.match_result.quote_amount
    } else {
        bundle.match_result.base_amount
    }
}

} // verus!
