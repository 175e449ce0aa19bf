//! The data model of the gateway: orders, match results, quotes, bundles,
//! sponsorship terms, and the error taxonomy.
//!
//! Addresses and token mints are carried as plain integers: the pipeline
//! only ever copies or compares them, never does arithmetic on them.

use vstd::prelude::*;

verus! {

/// A caller's desired trade: the token pair, the side, and the target
/// amounts. Immutable input; rewrites always produce a new value.
#[derive(Clone, Copy, PartialEq, Eq, Structural, Debug)]
pub struct ExternalOrder {
    /// The mint (token address) of the base asset
    pub base_mint: u128,
    /// The mint of the quote asset
    pub quote_mint: u128,
    /// True when the caller sells the base asset
    pub side_sell: bool,
    /// The desired base amount, zero when the quote amount drives the order
    pub base_amount: u128,
    /// The desired quote amount, zero when the base amount drives the order
    pub quote_amount: u128,
    /// The minimum fill size the caller will accept
    pub min_fill_size: u128,
}

/// The relayer's match for an order: the matched amounts on the pair.
#[derive(Clone, Copy, PartialEq, Eq, Structural, Debug)]
pub struct ExternalMatchResult {
    /// The mint of the base asset
    pub base_mint: u128,
    /// The mint of the quote asset
    pub quote_mint: u128,
    /// The matched base amount
    pub base_amount: u128,
    /// The matched quote amount
    pub quote_amount: u128,
    /// True when the external caller sells the base asset, and so
    /// receives the quote asset
    pub direction_sell: bool,
}

impl ExternalMatchResult {
    /// The amount the external caller receives from this match: the quote
    /// amount when selling the base asset, the base amount when buying it.
    pub open spec fn receive_amount(self) -> u128 {
        if self.direction_sell {
            self.quote_amount
        } else {
            self.base_amount
        }
    }
}

/// A single asset transfer inside a settlement bundle
#[derive(Clone, Copy, PartialEq, Eq, Structural, Debug)]
pub struct AssetTransfer {
    /// The mint of the transferred asset
    pub mint: u128,
    /// The transferred amount
    pub amount: u128,
}

/// The relayer's executable settlement payload: the match result plus the
/// transfers the caller will receive and send when it executes.
#[derive(Clone, Copy, PartialEq, Eq, Structural, Debug)]
pub struct MatchBundle {
    /// The match this bundle settles
    pub match_result: ExternalMatchResult,
    /// The transfer to the external caller
    pub receive: AssetTransfer,
    /// The transfer from the external caller
    pub send: AssetTransfer,
}

/// A price at a point in time, in fixed-point integer representation
#[derive(Clone, Copy, PartialEq, Eq, Structural, Debug)]
pub struct TimestampedPrice {
    /// The fixed-point representation of the price
    pub price_repr: u128,
    /// The time the price was sampled, in milliseconds
    pub timestamp: u64,
}

/// The body of a relayer-issued quote: the order it was computed from,
/// the match it promises, and the price it used.
#[derive(Clone, Copy, PartialEq, Eq, Structural, Debug)]
pub struct ExternalQuote {
    /// The order the quote was computed from
    pub order: ExternalOrder,
    /// The match result the quote promises
    pub match_result: ExternalMatchResult,
    /// The price the quote used
    pub price: TimestampedPrice,
    /// The time the quote was issued, in milliseconds
    pub timestamp: u64,
}

/// A quote together with the relayer's signature over it. The signature is
/// opaque to the gateway: it is carried, keyed on, but never interpreted.
#[derive(Clone, Debug)]
pub struct SignedQuote {
    /// The quote body
    pub quote: ExternalQuote,
    /// The relayer's signature over the quote body
    pub signature: Vec<u8>,
}

impl SignedQuote {
    /// Deep equality of a signed quote's content
    pub open spec fn content_eq(self, other: SignedQuote) -> bool {
        self.quote == other.quote && self.signature@ == other.signature@
    }
}

/// The terms of a gas refund granted to one quote: how much is refunded,
/// whether in the native asset or in kind, and where the refund goes.
#[derive(Clone, Copy, PartialEq, Eq, Debug)]
pub struct GasSponsorshipInfo {
    /// The refund amount, in units of the refunded asset
    pub refund_amount: u128,
    /// True when the refund is paid in the native asset; false when it is
    /// paid in kind, by adjusting the receive-side amount of the match
    pub refund_native_eth: bool,
    /// An override for the address the refund is paid to
    pub refund_address: Option<u128>,
}

impl GasSponsorshipInfo {
    /// Whether honoring this refund rewrites the match amounts: only an
    /// in-kind refund of a nonzero amount does.
    pub open spec fn requires_match_result_update(self) -> bool {
        !self.refund_native_eth && self.refund_amount > 0
    }
}

/// The gateway's response to a quote request: the relayer's signed quote,
/// with the sponsorship terms attached when sponsorship was granted.
#[derive(Clone, Debug)]
pub struct SponsoredQuoteResponse {
    /// The relayer's signed quote
    pub signed_quote: SignedQuote,
    /// The sponsorship terms, when sponsorship was granted
    pub gas_sponsorship_info: Option<GasSponsorshipInfo>,
}

/// The gateway's response to an assembly or direct-match request: the
/// settlement bundle, possibly rewritten to realize an in-kind refund.
#[derive(Clone, Copy, PartialEq, Eq, Debug)]
pub struct SponsoredMatchResponse {
    /// The settlement bundle forwarded to the caller
    pub match_bundle: MatchBundle,
    /// Whether sponsorship was applied to this bundle
    pub is_sponsored: bool,
    /// The sponsorship terms applied, when any
    pub gas_sponsorship_info: Option<GasSponsorshipInfo>,
}

/// A caller's request to assemble a previously issued quote into an
/// executable bundle
#[derive(Clone, Debug)]
pub struct AssembleMatchRequest {
    /// The signed quote being assembled
    pub signed_quote: SignedQuote,
    /// A replacement order, when the caller amended it since the quote
    pub updated_order: Option<ExternalOrder>,
}

/// A caller's request for a direct match, without a prior quote
#[derive(Clone, Copy, PartialEq, Eq, Structural, Debug)]
pub struct ExternalMatchRequest {
    /// The order to match
    pub external_order: ExternalOrder,
}

/// The sponsorship-related query parameters of a request, each optional
/// as received on the wire
#[derive(Clone, Copy, PartialEq, Eq, Debug)]
pub struct SponsorshipQueryParams {
    /// An opt-out flag: when true, no sponsorship is applied
    pub disable_gas_sponsorship: Option<bool>,
    /// An override for the refund address
    pub refund_address: Option<u128>,
    /// An override for the refund kind: native asset when true
    pub refund_native_eth: Option<bool>,
    /// A deprecated opt-in flag, honored for backward compatibility
    pub use_gas_sponsorship: Option<bool>,
}

impl SponsorshipQueryParams {
    /// Resolve the optional parameters to their documented defaults:
    /// sponsorship enabled, no refund-address override, in-kind refund.
    pub fn get_or_default(&self) -> (r: (bool, Option<u128>, bool))
        ensures
            r.0 == self.disabled_or_default(),
            r.1 == self.refund_address,
            r.2 == self.native_or_default(),
    {
        (
            match self.disable_gas_sponsorship {
                Some(b) => b,
                None => false,
            },
            self.refund_address,
            match self.refund_native_eth {
                Some(b) => b,
                None => false,
            },
        )
    }

    /// The opt-out flag with its default of false
    pub open spec fn disabled_or_default(self) -> bool {
        match self.disable_gas_sponsorship {
            Some(b) => b,
            None => false,
        }
    }

    /// The refund-kind override with its default of an in-kind refund
    pub open spec fn native_or_default(self) -> bool {
        match self.refund_native_eth {
            Some(b) => b,
            None => false,
        }
    }

    /// The deprecated opt-in flag with its default of false
    pub open spec fn legacy_opt_in(self) -> bool {
        match self.use_gas_sponsorship {
            Some(b) => b,
            None => false,
        }
    }
}

/// Why a request was rejected by the authorizer
#[derive(Clone, Copy, PartialEq, Eq, Structural, Debug)]
pub enum AuthError {
    /// The credential is missing, malformed, or does not verify
    Unauthorized,
    /// The credential verifies but the key is disabled
    Forbidden,
}

/// Why the gateway rejected a request before or after the relayer call
#[derive(Clone, Copy, PartialEq, Eq, Structural, Debug)]
pub enum RejectReason {
    /// The authorizer rejected the request
    Auth(AuthError),
    /// The caller's token bucket for this endpoint is exhausted
    RateLimited,
    /// A request or response body failed to deserialize
    Serde,
}

/// What the gateway does with a relayer response: relay a non-success
/// verbatim, reject a body the relayer returned malformed, or answer
/// with the (possibly sponsored) response it built.
pub enum RelayerOutcome<T> {
    /// The relayer did not succeed: its status and body pass through to
    /// the caller unchanged, and nothing else runs
    PassThrough,
    /// The relayer's success body failed to deserialize: the request
    /// fails with a serde error
    MalformedBody,
    /// The gateway's rewritten response
    Respond(T),
}

/// The three independent per-caller limits
#[derive(Clone, Copy, PartialEq, Eq, Structural, Debug)]
pub enum LimitKind {
    /// The limit on quote requests
    Quote,
    /// The limit on bundle (assembly and direct-match) requests
    Bundle,
    /// The limit on gas-sponsorship grants
    Sponsorship,
}

} // verus!
