//! The gas sponsorship engine: pure integer rewriting of quotes and match
//! bundles to apply a gas refund, and the exact inverse rewriting used to
//! recover the original amounts when an assembly request references a
//! previously sponsored quote.
//!
//! A refund is either paid in the native asset, which leaves all token
//! amounts untouched, or in kind, which decreases the receive-side amount
//! of the match by the refund amount. The in-kind rewrite is reversible
//! bit for bit: see [`lemma_sponsorship_reversible`].

use vstd::prelude::*;

use crate::types::{
    ExternalMatchResult, ExternalQuote, GasSponsorshipInfo, MatchBundle, SignedQuote,
    SponsoredMatchResponse, SponsoredQuoteResponse,
};

verus! {

/// The match result with its receive-side amount decreased by `refund`
pub open spec fn spec_apply_refund(mr: ExternalMatchResult, refund: u128) -> ExternalMatchResult {
    if mr.direction_sell {
        ExternalMatchResult { quote_amount: (mr.quote_amount - refund) as u128, ..mr }
    } else {
        ExternalMatchResult { base_amount: (mr.base_amount - refund) as u128, ..mr }
    }
}

/// The match result with its receive-side amount increased by `refund`
pub open spec fn spec_remove_refund(mr: ExternalMatchResult, refund: u128) -> ExternalMatchResult {
    if mr.direction_sell {
        ExternalMatchResult { quote_amount: (mr.quote_amount + refund) as u128, ..mr }
    } else {
        ExternalMatchResult { base_amount: (mr.base_amount + refund) as u128, ..mr }
    }
}

/// The refund amount granted for a match: zero when the engine is
/// disabled; the full gas cost estimate for a native-asset refund; the
/// estimate clamped to the receive-side amount for an in-kind refund, so
/// that the rewrite never underflows.
pub open spec fn spec_compute_refund(
    mr: ExternalMatchResult,
    refund_native_eth: bool,
    gas_cost_estimate: u128,
    enabled: bool,
) -> u128 {
    if !enabled {
        0
    } else if refund_native_eth {
        gas_cost_estimate
    } else if gas_cost_estimate <= mr.receive_amount() {
        gas_cost_estimate
    } else {
        mr.receive_amount()
    }
}

/// Compute the refund amount for a match result.
///
/// Deterministic in its arguments; the gas cost estimate is converted to
/// refund-asset units by the chain client before it is handed in.
pub fn compute_refund(
    mr: &ExternalMatchResult,
    refund_native_eth: bool,
    gas_cost_estimate: u128,
    enabled: bool,
) -> (r: u128)
    ensures
        r == spec_compute_refund(*mr, refund_native_eth, gas_cost_estimate, enabled),
        !refund_native_eth ==> r <= mr.receive_amount(),
{
    if !enabled {
        0
    } else if refund_native_eth {
        gas_cost_estimate
    } else {
        let receive = if mr.direction_sell {
            mr.quote_amount
        } else {
            mr.base_amount
        };
        if gas_cost_estimate <= receive {
            gas_cost_estimate
        } else {
            receive
        }
    }
}

/// The bundle rewritten by an in-kind refund: both the match result's
/// receive side and the receive transfer are decreased by `refund`
pub open spec fn spec_sponsor_bundle(bundle: MatchBundle, refund: u128) -> MatchBundle {
    MatchBundle {
        match_result: spec_apply_refund(bundle.match_result, refund),
        receive: crate::types::AssetTransfer {
            amount: (bundle.receive.amount - refund) as u128,
            ..bundle.receive
        },
        ..bundle
    }
}

/// Apply sponsorship to a settlement bundle.
///
/// A native-asset refund leaves all token amounts untouched: it is
/// realized as a separate native transfer by the execution layer. An
/// in-kind refund decreases the receive-side amounts by the refund
/// amount. Either way the response records that it was sponsored and
/// carries the terms.
pub fn apply_to_match(
    bundle: &MatchBundle,
    refund_native_eth: bool,
    refund_address: Option<u128>,
    refund_amount: u128,
) -> (r: SponsoredMatchResponse)
    requires
        !refund_native_eth ==> refund_amount <= bundle.match_result.receive_amount()
            && refund_amount <= bundle.receive.amount,
    ensures
        r.is_sponsored,
        r.gas_sponsorship_info == Some(
            GasSponsorshipInfo { refund_amount, refund_native_eth, refund_address },
        ),
        refund_native_eth ==> r.match_bundle == *bundle,
        !refund_native_eth ==> r.match_bundle == spec_sponsor_bundle(*bundle, refund_amount),
{
    let info = GasSponsorshipInfo { refund_amount, refund_native_eth, refund_address };
    let match_bundle = if refund_native_eth {
        *bundle
    } else {
        let mut mr = bundle.match_result;
        if mr.direction_sell {
            mr.quote_amount = mr.quote_amount - refund_amount;
        } else {
            mr.base_amount = mr.base_amount - refund_amount;
        }
        MatchBundle {
            match_result: mr,
            receive: crate::types::AssetTransfer {
                mint: bundle.receive.mint,
                amount: bundle.receive.amount - refund_amount,
            },
            send: bundle.send,
        }
    };
    SponsoredMatchResponse { match_bundle, is_sponsored: true, gas_sponsorship_info: Some(info) }
}

/// The quote as the caller will hold it once sponsorship is granted: an
/// in-kind refund is folded into the receive-side match amount, so that
/// removing it at assembly time restores the amounts the relayer
/// signed; a native refund leaves the amounts untouched.
pub open spec fn spec_quote_rewrite(q: ExternalQuote, info: GasSponsorshipInfo) -> ExternalQuote {
    if info.requires_match_result_update() {
        ExternalQuote { match_result: spec_apply_refund(q.match_result, info.refund_amount), ..q }
    } else {
        q
    }
}

/// Attach granted sponsorship terms to a relayer-issued quote. A native
/// refund is informational at this stage and leaves the quote alone; an
/// in-kind refund is folded into the receive-side match amount, the
/// exact rewrite [`try_remove_from_quote`] reverses at assembly time.
pub fn apply_to_quote(sq: &SignedQuote, info: GasSponsorshipInfo) -> (r: SponsoredQuoteResponse)
    requires
        info.requires_match_result_update() ==> info.refund_amount
            <= sq.quote.match_result.receive_amount(),
    ensures
        r.signed_quote.quote == spec_quote_rewrite(sq.quote, info),
        r.signed_quote.signature@ == sq.signature@,
        r.gas_sponsorship_info == Some(info),
{
    let held = if !info.refund_native_eth && info.refund_amount > 0 {
        let mut mr = sq.quote.match_result;
        if mr.direction_sell {
            mr.quote_amount = mr.quote_amount - info.refund_amount;
        } else {
            mr.base_amount = mr.base_amount - info.refund_amount;
        }
        ExternalQuote { match_result: mr, ..sq.quote }
    } else {
        sq.quote
    };
    let signature = copy_signature(&sq.signature);
    SponsoredQuoteResponse {
        signed_quote: SignedQuote { quote: held, signature },
        gas_sponsorship_info: Some(info),
    }
}

/// Copy a signature's bytes
fn copy_signature(a: &Vec<u8>) -> (r: Vec<u8>)
    ensures
        r@ == a@,
{
    let n = a.len();
    let mut v: Vec<u8> = Vec::new();
    let mut i: usize = 0;
    while i < n
        invariant
            n == a@.len(),
            0 <= i <= n,
            v@ == a@.take(i as int),
        decreases n - i,
    {
        v.push(a[i]);
        proof {
            assert(a@.take(i as int + 1) =~= a@.take(i as int).push(a@[i as int]));
        }
        i = i + 1;
    }
    proof {
        assert(a@.take(n as int) =~= a@);
    }
    v
}

/// The quote with the in-kind refund removed from its match result
pub open spec fn spec_remove_from_quote(q: ExternalQuote, refund: u128) -> ExternalQuote {
    ExternalQuote { match_result: spec_remove_refund(q.match_result, refund), ..q }
}

/// Remove a previously applied in-kind refund from a quote, restoring the
/// receive-side amount the relayer originally signed.
///
/// Returns `None` when adding the refund back would overflow, which can
/// only happen on amounts the gateway never produced itself; the caller
/// then treats the quote as unsponsored rather than failing.
pub fn try_remove_from_quote(q: &ExternalQuote, refund_amount: u128) -> (r: Option<ExternalQuote>)
    ensures
        r is Some <==> q.match_result.receive_amount() + refund_amount <= u128::MAX,
        r is Some ==> r->Some_0 == spec_remove_from_quote(*q, refund_amount),
{
    let mut mr = q.match_result;
    if mr.direction_sell {
        if mr.quote_amount <= u128::MAX - refund_amount {
            mr.quote_amount = mr.quote_amount + refund_amount;
            Some(ExternalQuote { match_result: mr, ..*q })
        } else {
            None
        }
    } else {
        if mr.base_amount <= u128::MAX - refund_amount {
            mr.base_amount = mr.base_amount + refund_amount;
            Some(ExternalQuote { match_result: mr, ..*q })
        } else {
            None
        }
    }
}

/// Sponsorship reversibility: for every match result and in-kind refund
/// amount no larger than the receive-side amount, removing the refund
/// after applying it restores the original match result exactly.
pub proof fn lemma_sponsorship_reversible(mr: ExternalMatchResult, refund: u128)
    requires
        refund <= mr.receive_amount(),
    ensures
        spec_remove_refund(spec_apply_refund(mr, refund), refund) == mr,
{
}

/// The inverse direction: applying an in-kind refund after removing it
/// restores the rewritten match result exactly, provided the removal did
/// not overflow. This is the identity the assembly path relies on when it
/// re-applies cached sponsorship terms to a recovered quote.
pub proof fn lemma_sponsorship_reapplicable(mr: ExternalMatchResult, refund: u128)
    requires
        mr.receive_amount() + refund <= u128::MAX,
    ensures
        spec_apply_refund(spec_remove_refund(mr, refund), refund) == mr,
{
}

/// Reversibility lifted to whole quotes: removing the refund from a quote
/// whose match result was rewritten by `spec_apply_refund` restores the
/// original quote bit for bit.
pub proof fn lemma_quote_round_trip(q: ExternalQuote, refund: u128)
    requires
        refund <= q.match_result.receive_amount(),
    ensures
        spec_remove_from_quote(
            ExternalQuote { match_result: spec_apply_refund(q.match_result, refund), ..q },
            refund,
        ) == q,
{
}

} // verus!
