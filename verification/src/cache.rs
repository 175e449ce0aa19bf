//! The quote/sponsorship cache: a content-addressed key derived from a
//! signed quote, and a keyed store of sponsorship terms with expiry.
//!
//! The key is a canonical fixed-width byte encoding of the quote's
//! content. Two signed quotes map to the same key exactly when their
//! content is identical — see [`lemma_cache_key_injective`] — so an
//! assembly request can locate the terms computed at quote time by
//! content alone, and no caller can reach another quote's entry.

use vstd::prelude::*;
use vstd::pervasive::VecAdditionalExecFns;

use crate::types::{GasSponsorshipInfo, SignedQuote};

verus! {

/// The big-endian bytes of a 64-bit integer
pub open spec fn u64_be(x: u64) -> Seq<u8> {
    seq![
        (x >> 56) as u8,
        (x >> 48) as u8,
        (x >> 40) as u8,
        (x >> 32) as u8,
        (x >> 24) as u8,
        (x >> 16) as u8,
        (x >> 8) as u8,
        x as u8,
    ]
}

/// The big-endian bytes of a 128-bit integer
pub open spec fn u128_be(x: u128) -> Seq<u8> {
    seq![
        (x >> 120) as u8,
        (x >> 112) as u8,
        (x >> 104) as u8,
        (x >> 96) as u8,
        (x >> 88) as u8,
        (x >> 80) as u8,
        (x >> 72) as u8,
        (x >> 64) as u8,
        (x >> 56) as u8,
        (x >> 48) as u8,
        (x >> 40) as u8,
        (x >> 32) as u8,
        (x >> 24) as u8,
        (x >> 16) as u8,
        (x >> 8) as u8,
        x as u8,
    ]
}

/// One byte for a boolean
pub open spec fn bool_byte(b: bool) -> u8 {
    if b {
        1u8
    } else {
        0u8
    }
}

/// The canonical byte encoding of an order
pub open spec fn order_bytes(o: crate::types::ExternalOrder) -> Seq<u8> {
    u128_be(o.base_mint) + (u128_be(o.quote_mint) + (seq![bool_byte(o.side_sell)] + (u128_be(
        o.base_amount,
    ) + (u128_be(o.quote_amount) + u128_be(o.min_fill_size)))))
}

/// The canonical byte encoding of a match result
pub open spec fn match_bytes(m: crate::types::ExternalMatchResult) -> Seq<u8> {
    u128_be(m.base_mint) + (u128_be(m.quote_mint) + (u128_be(m.base_amount) + (u128_be(
        m.quote_amount,
    ) + seq![bool_byte(m.direction_sell)])))
}

/// The canonical byte encoding of a signed quote's price, timestamp
/// and signature
pub open spec fn tail_bytes(q: SignedQuote) -> Seq<u8> {
    content_tail_bytes(q.quote, q.signature@)
}

/// The canonical byte encoding of a quote's price, timestamp and a
/// signature
pub open spec fn content_tail_bytes(q: crate::types::ExternalQuote, sig: Seq<u8>) -> Seq<u8> {
    u128_be(q.price.price_repr) + (u64_be(q.price.timestamp) + (u64_be(q.timestamp) + sig))
}

/// The canonical byte encoding of a quote's content and the signature
/// over it: every field in a fixed order and width, the variable-length
/// signature last.
pub open spec fn quote_content_key(q: crate::types::ExternalQuote, sig: Seq<u8>) -> Seq<u8> {
    order_bytes(q.order) + (match_bytes(q.match_result) + content_tail_bytes(q, sig))
}

/// The canonical byte encoding of a signed quote's content
pub open spec fn quote_key_bytes(q: SignedQuote) -> Seq<u8> {
    quote_content_key(q.quote, q.signature@)
}

/// Two concatenations with equally long heads are equal only piecewise
proof fn lemma_split_add(a1: Seq<u8>, b1: Seq<u8>, a2: Seq<u8>, b2: Seq<u8>)
    requires
        a1.len() == a2.len(),
        a1 + b1 == a2 + b2,
    ensures
        a1 == a2,
        b1 == b2,
{
    assert((a1 + b1).len() == a1.len() + b1.len());
    assert((a2 + b2).len() == a2.len() + b2.len());
    assert(b1.len() == b2.len());
    assert forall|i: int| 0 <= i < a1.len() implies a1[i] == a2[i] by {
        assert((a1 + b1)[i] == a1[i]);
        assert((a2 + b2)[i] == a2[i]);
    }
    assert forall|i: int| 0 <= i < b1.len() implies b1[i] == b2[i] by {
        assert((a1 + b1)[a1.len() + i] == b1[i]);
        assert((a2 + b2)[a2.len() + i] == b2[i]);
    }
    assert(a1 =~= a2);
    assert(b1 =~= b2);
}

/// The big-endian encoding of a 64-bit integer determines it
proof fn lemma_u64_be_inj(x: u64, y: u64)
    requires
        u64_be(x) == u64_be(y),
    ensures
        x == y,
{
    assert((x >> 56) as u8 == (y >> 56) as u8) by {
        assert(u64_be(x)[0] == u64_be(y)[0]);
    }
    assert((x >> 48) as u8 == (y >> 48) as u8) by {
        assert(u64_be(x)[1] == u64_be(y)[1]);
    }
    assert((x >> 40) as u8 == (y >> 40) as u8) by {
        assert(u64_be(x)[2] == u64_be(y)[2]);
    }
    assert((x >> 32) as u8 == (y >> 32) as u8) by {
        assert(u64_be(x)[3] == u64_be(y)[3]);
    }
    assert((x >> 24) as u8 == (y >> 24) as u8) by {
        assert(u64_be(x)[4] == u64_be(y)[4]);
    }
    assert((x >> 16) as u8 == (y >> 16) as u8) by {
        assert(u64_be(x)[5] == u64_be(y)[5]);
    }
    assert((x >> 8) as u8 == (y >> 8) as u8) by {
        assert(u64_be(x)[6] == u64_be(y)[6]);
    }
    assert(x as u8 == y as u8) by {
        assert(u64_be(x)[7] == u64_be(y)[7]);
    }
    assert(x == y) by (bit_vector)
        requires
            (x >> 56) as u8 == (y >> 56) as u8,
            (x >> 48) as u8 == (y >> 48) as u8,
            (x >> 40) as u8 == (y >> 40) as u8,
            (x >> 32) as u8 == (y >> 32) as u8,
            (x >> 24) as u8 == (y >> 24) as u8,
            (x >> 16) as u8 == (y >> 16) as u8,
            (x >> 8) as u8 == (y >> 8) as u8,
            x as u8 == y as u8,
    ;
}

/// The big-endian encoding of a 128-bit integer determines it
proof fn lemma_u128_be_inj(x: u128, y: u128)
    requires
        u128_be(x) == u128_be(y),
    ensures
        x == y,
{
    assert((x >> 120) as u8 == (y >> 120) as u8) by {
        assert(u128_be(x)[0] == u128_be(y)[0]);
    }
    assert((x >> 112) as u8 == (y >> 112) as u8) by {
        assert(u128_be(x)[1] == u128_be(y)[1]);
    }
    assert((x >> 104) as u8 == (y >> 104) as u8) by {
        assert(u128_be(x)[2] == u128_be(y)[2]);
    }
    assert((x >> 96) as u8 == (y >> 96) as u8) by {
        assert(u128_be(x)[3] == u128_be(y)[3]);
    }
    assert((x >> 88) as u8 == (y >> 88) as u8) by {
        assert(u128_be(x)[4] == u128_be(y)[4]);
    }
    assert((x >> 80) as u8 == (y >> 80) as u8) by {
        assert(u128_be(x)[5] == u128_be(y)[5]);
    }
    assert((x >> 72) as u8 == (y >> 72) as u8) by {
        assert(u128_be(x)[6] == u128_be(y)[6]);
    }
    assert((x >> 64) as u8 == (y >> 64) as u8) by {
        assert(u128_be(x)[7] == u128_be(y)[7]);
    }
    assert((x >> 56) as u8 == (y >> 56) as u8) by {
        assert(u128_be(x)[8] == u128_be(y)[8]);
    }
    assert((x >> 48) as u8 == (y >> 48) as u8) by {
        assert(u128_be(x)[9] == u128_be(y)[9]);
    }
    assert((x >> 40) as u8 == (y >> 40) as u8) by {
        assert(u128_be(x)[10] == u128_be(y)[10]);
    }
    assert((x >> 32) as u8 == (y >> 32) as u8) by {
        assert(u128_be(x)[11] == u128_be(y)[11]);
    }
    assert((x >> 24) as u8 == (y >> 24) as u8) by {
        assert(u128_be(x)[12] == u128_be(y)[12]);
    }
    assert((x >> 16) as u8 == (y >> 16) as u8) by {
        assert(u128_be(x)[13] == u128_be(y)[13]);
    }
    assert((x >> 8) as u8 == (y >> 8) as u8) by {
        assert(u128_be(x)[14] == u128_be(y)[14]);
    }
    assert(x as u8 == y as u8) by {
        assert(u128_be(x)[15] == u128_be(y)[15]);
    }
    assert(x == y) by (bit_vector)
        requires
            (x >> 120) as u8 == (y >> 120) as u8,
            (x >> 112) as u8 == (y >> 112) as u8,
            (x >> 104) as u8 == (y >> 104) as u8,
            (x >> 96) as u8 == (y >> 96) as u8,
            (x >> 88) as u8 == (y >> 88) as u8,
            (x >> 80) as u8 == (y >> 80) as u8,
            (x >> 72) as u8 == (y >> 72) as u8,
            (x >> 64) as u8 == (y >> 64) as u8,
            (x >> 56) as u8 == (y >> 56) as u8,
            (x >> 48) as u8 == (y >> 48) as u8,
            (x >> 40) as u8 == (y >> 40) as u8,
            (x >> 32) as u8 == (y >> 32) as u8,
            (x >> 24) as u8 == (y >> 24) as u8,
            (x >> 16) as u8 == (y >> 16) as u8,
            (x >> 8) as u8 == (y >> 8) as u8,
            x as u8 == y as u8,
    ;
}

/// A one-byte boolean encoding determines the boolean
proof fn lemma_bool_byte_inj(b1: bool, b2: bool)
    requires
        seq![bool_byte(b1)] == seq![bool_byte(b2)],
    ensures
        b1 == b2,
{
    assert(seq![bool_byte(b1)][0] == bool_byte(b1));
    assert(seq![bool_byte(b2)][0] == bool_byte(b2));
    assert(seq![bool_byte(b1)][0] == seq![bool_byte(b2)][0]);
    assert(bool_byte(b1) == bool_byte(b2));
    if b1 != b2 {
        assert(false);
    }
}

/// The canonical order encoding determines the order
proof fn lemma_order_bytes_inj(o1: crate::types::ExternalOrder, o2: crate::types::ExternalOrder)
    requires
        order_bytes(o1) == order_bytes(o2),
    ensures
        o1 == o2,
{
    let r1a = u128_be(o1.quote_mint) + (seq![bool_byte(o1.side_sell)] + (u128_be(o1.base_amount)
        + (u128_be(o1.quote_amount) + u128_be(o1.min_fill_size))));
    let r2a = u128_be(o2.quote_mint) + (seq![bool_byte(o2.side_sell)] + (u128_be(o2.base_amount)
        + (u128_be(o2.quote_amount) + u128_be(o2.min_fill_size))));
    lemma_split_add(u128_be(o1.base_mint), r1a, u128_be(o2.base_mint), r2a);
    lemma_u128_be_inj(o1.base_mint, o2.base_mint);
    let r1b = seq![bool_byte(o1.side_sell)] + (u128_be(o1.base_amount) + (u128_be(o1.quote_amount)
        + u128_be(o1.min_fill_size)));
    let r2b = seq![bool_byte(o2.side_sell)] + (u128_be(o2.base_amount) + (u128_be(o2.quote_amount)
        + u128_be(o2.min_fill_size)));
    lemma_split_add(u128_be(o1.quote_mint), r1b, u128_be(o2.quote_mint), r2b);
    lemma_u128_be_inj(o1.quote_mint, o2.quote_mint);
    let r1c = u128_be(o1.base_amount) + (u128_be(o1.quote_amount) + u128_be(o1.min_fill_size));
    let r2c = u128_be(o2.base_amount) + (u128_be(o2.quote_amount) + u128_be(o2.min_fill_size));
    lemma_split_add(seq![bool_byte(o1.side_sell)], r1c, seq![bool_byte(o2.side_sell)], r2c);
    lemma_bool_byte_inj(o1.side_sell, o2.side_sell);
    let r1d = u128_be(o1.quote_amount) + u128_be(o1.min_fill_size);
    let r2d = u128_be(o2.quote_amount) + u128_be(o2.min_fill_size);
    lemma_split_add(u128_be(o1.base_amount), r1d, u128_be(o2.base_amount), r2d);
    lemma_u128_be_inj(o1.base_amount, o2.base_amount);
    lemma_split_add(
        u128_be(o1.quote_amount),
        u128_be(o1.min_fill_size),
        u128_be(o2.quote_amount),
        u128_be(o2.min_fill_size),
    );
    lemma_u128_be_inj(o1.quote_amount, o2.quote_amount);
    lemma_u128_be_inj(o1.min_fill_size, o2.min_fill_size);
}

/// The canonical match encoding determines the match result
proof fn lemma_match_bytes_inj(
    m1: crate::types::ExternalMatchResult,
    m2: crate::types::ExternalMatchResult,
)
    requires
        match_bytes(m1) == match_bytes(m2),
    ensures
        m1 == m2,
{
    let r1a = u128_be(m1.quote_mint) + (u128_be(m1.base_amount) + (u128_be(m1.quote_amount)
        + seq![bool_byte(m1.direction_sell)]));
    let r2a = u128_be(m2.quote_mint) + (u128_be(m2.base_amount) + (u128_be(m2.quote_amount)
        + seq![bool_byte(m2.direction_sell)]));
    lemma_split_add(u128_be(m1.base_mint), r1a, u128_be(m2.base_mint), r2a);
    lemma_u128_be_inj(m1.base_mint, m2.base_mint);
    let r1b = u128_be(m1.base_amount) + (u128_be(m1.quote_amount) + seq![bool_byte(
        m1.direction_sell,
    )]);
    let r2b = u128_be(m2.base_amount) + (u128_be(m2.quote_amount) + seq![bool_byte(
        m2.direction_sell,
    )]);
    lemma_split_add(u128_be(m1.quote_mint), r1b, u128_be(m2.quote_mint), r2b);
    lemma_u128_be_inj(m1.quote_mint, m2.quote_mint);
    let r1c = u128_be(m1.quote_amount) + seq![bool_byte(m1.direction_sell)];
    let r2c = u128_be(m2.quote_amount) + seq![bool_byte(m2.direction_sell)];
    lemma_split_add(u128_be(m1.base_amount), r1c, u128_be(m2.base_amount), r2c);
    lemma_u128_be_inj(m1.base_amount, m2.base_amount);
    lemma_split_add(
        u128_be(m1.quote_amount),
        seq![bool_byte(m1.direction_sell)],
        u128_be(m2.quote_amount),
        seq![bool_byte(m2.direction_sell)],
    );
    lemma_u128_be_inj(m1.quote_amount, m2.quote_amount);
    lemma_bool_byte_inj(m1.direction_sell, m2.direction_sell);
}

/// The canonical tail encoding determines price, timestamp and signature
proof fn lemma_tail_bytes_inj(q1: SignedQuote, q2: SignedQuote)
    requires
        tail_bytes(q1) == tail_bytes(q2),
    ensures
        q1.quote.price == q2.quote.price,
        q1.quote.timestamp == q2.quote.timestamp,
        q1.signature@ == q2.signature@,
{
    let r1a = u64_be(q1.quote.price.timestamp) + (u64_be(q1.quote.timestamp) + q1.signature@);
    let r2a = u64_be(q2.quote.price.timestamp) + (u64_be(q2.quote.timestamp) + q2.signature@);
    lemma_split_add(u128_be(q1.quote.price.price_repr), r1a, u128_be(q2.quote.price.price_repr), r2a);
    lemma_u128_be_inj(q1.quote.price.price_repr, q2.quote.price.price_repr);
    let r1b = u64_be(q1.quote.timestamp) + q1.signature@;
    let r2b = u64_be(q2.quote.timestamp) + q2.signature@;
    lemma_split_add(u64_be(q1.quote.price.timestamp), r1b, u64_be(q2.quote.price.timestamp), r2b);
    lemma_u64_be_inj(q1.quote.price.timestamp, q2.quote.price.timestamp);
    lemma_split_add(
        u64_be(q1.quote.timestamp),
        q1.signature@,
        u64_be(q2.quote.timestamp),
        q2.signature@,
    );
    lemma_u64_be_inj(q1.quote.timestamp, q2.quote.timestamp);
}

/// The canonical order and match encodings have fixed widths
proof fn lemma_segment_lens(q: SignedQuote)
    ensures
        order_bytes(q.quote.order).len() == 81,
        match_bytes(q.quote.match_result).len() == 65,
{
}

/// Cache-key determinism: two signed quotes have the same cache key
/// exactly when their content is identical; a change to any field
/// changes the key.
pub proof fn lemma_cache_key_injective(q1: SignedQuote, q2: SignedQuote)
    ensures
        quote_key_bytes(q1) == quote_key_bytes(q2) <==> q1.content_eq(q2),
{
    if q1.content_eq(q2) {
        assert(quote_key_bytes(q1) == quote_key_bytes(q2));
    }
    if quote_key_bytes(q1) == quote_key_bytes(q2) {
        lemma_segment_lens(q1);
        lemma_segment_lens(q2);
        lemma_split_add(
            order_bytes(q1.quote.order),
            match_bytes(q1.quote.match_result) + tail_bytes(q1),
            order_bytes(q2.quote.order),
            match_bytes(q2.quote.match_result) + tail_bytes(q2),
        );
        lemma_order_bytes_inj(q1.quote.order, q2.quote.order);
        lemma_split_add(
            match_bytes(q1.quote.match_result),
            tail_bytes(q1),
            match_bytes(q2.quote.match_result),
            tail_bytes(q2),
        );
        lemma_match_bytes_inj(q1.quote.match_result, q2.quote.match_result);
        lemma_tail_bytes_inj(q1, q2);
        assert(q1.content_eq(q2));
    }
}


/// Append the big-endian bytes of a 64-bit integer
pub(crate) fn push_u64_be(v: &mut Vec<u8>, x: u64)
    ensures
        final(v)@ == old(v)@ + u64_be(x),
{
    v.push((x >> 56) as u8);
    v.push((x >> 48) as u8);
    v.push((x >> 40) as u8);
    v.push((x >> 32) as u8);
    v.push((x >> 24) as u8);
    v.push((x >> 16) as u8);
    v.push((x >> 8) as u8);
    v.push(x as u8);
    proof {
        assert(v@ =~= old(v)@ + u64_be(x));
    }
}

/// Append the big-endian bytes of a 128-bit integer
fn push_u128_be(v: &mut Vec<u8>, x: u128)
    ensures
        final(v)@ == old(v)@ + u128_be(x),
{
    v.push((x >> 120) as u8);
    v.push((x >> 112) as u8);
    v.push((x >> 104) as u8);
    v.push((x >> 96) as u8);
    v.push((x >> 88) as u8);
    v.push((x >> 80) as u8);
    v.push((x >> 72) as u8);
    v.push((x >> 64) as u8);
    v.push((x >> 56) as u8);
    v.push((x >> 48) as u8);
    v.push((x >> 40) as u8);
    v.push((x >> 32) as u8);
    v.push((x >> 24) as u8);
    v.push((x >> 16) as u8);
    v.push((x >> 8) as u8);
    v.push(x as u8);
    proof {
        assert(v@ =~= old(v)@ + u128_be(x));
    }
}

/// Derive the cache key for a signed quote: its canonical content
/// encoding. Deterministic and content-addressed.
#[verifier::rlimit(100)]
pub fn quote_cache_key(q: &SignedQuote) -> (r: Vec<u8>)
    ensures
        r@ == quote_key_bytes(*q),
{
    let mut v: Vec<u8> = Vec::new();
    push_u128_be(&mut v, q.quote.order.base_mint);
    push_u128_be(&mut v, q.quote.order.quote_mint);
    v.push(if q.quote.order.side_sell {
        1u8
    } else {
        0u8
    });
    push_u128_be(&mut v, q.quote.order.base_amount);
    push_u128_be(&mut v, q.quote.order.quote_amount);
    push_u128_be(&mut v, q.quote.order.min_fill_size);
    push_u128_be(&mut v, q.quote.match_result.base_mint);
    push_u128_be(&mut v, q.quote.match_result.quote_mint);
    push_u128_be(&mut v, q.quote.match_result.base_amount);
    push_u128_be(&mut v, q.quote.match_result.quote_amount);
    v.push(if q.quote.match_result.direction_sell {
        1u8
    } else {
        0u8
    });
    push_u128_be(&mut v, q.quote.price.price_repr);
    push_u64_be(&mut v, q.quote.price.timestamp);
    push_u64_be(&mut v, q.quote.timestamp);
    let ghost fixed = v@;
    let n = q.signature.len();
    let mut i: usize = 0;
    while i < n
        invariant
            n == q.signature@.len(),
            0 <= i <= n,
            v@ == fixed + q.signature@.take(i as int),
        decreases n - i,
    {
        v.push(q.signature[i]);
        proof {
            assert(q.signature@.take(i as int + 1) =~= q.signature@.take(i as int).push(
                q.signature@[i as int],
            ));
            assert(v@ =~= fixed + q.signature@.take(i as int + 1));
        }
        i = i + 1;
    }
    proof {
        assert(q.signature@.take(n as int) =~= q.signature@);
        assert(v@ =~= quote_key_bytes(*q));
    }
    v
}

/// Compare two byte strings
pub fn bytes_eq(a: &Vec<u8>, b: &Vec<u8>) -> (r: bool)
    ensures
        r <==> a@ == b@,
{
    if a.len() != b.len() {
        return false;
    }
    let n = a.len();
    let mut i: usize = 0;
    while i < n
        invariant
            n == a@.len(),
            n == b@.len(),
            0 <= i <= n,
            forall|j: int| 0 <= j < i ==> a@[j] == b@[j],
        decreases n - i,
    {
        if a[i] != b[i] {
            return false;
        }
        i = i + 1;
    }
    proof {
        assert(a@ =~= b@);
    }
    true
}

/// One cached grant of sponsorship terms, with its expiry time
pub struct CacheEntry {
    /// The content-addressed key of the quote the terms were computed for
    pub key: Vec<u8>,
    /// The cached sponsorship terms
    pub info: GasSponsorshipInfo,
    /// The time the entry expires, in milliseconds
    pub expires_at: u64,
}

/// The first cache entry under a key, if any
pub open spec fn cache_lookup(s: Seq<CacheEntry>, key: Seq<u8>) -> Option<CacheEntry>
    decreases s.len(),
{
    if s.len() == 0 {
        None
    } else if s.first().key@ == key {
        Some(s.first())
    } else {
        cache_lookup(s.drop_first(), key)
    }
}

/// A found index with no earlier match determines what `cache_lookup`
/// returns
proof fn lemma_cache_lookup_at_index(s: Seq<CacheEntry>, key: Seq<u8>, i: int)
    requires
        0 <= i < s.len(),
        s[i].key@ == key,
        forall|j: int| 0 <= j < i ==> s[j].key@ != key,
    ensures
        cache_lookup(s, key) == Some(s[i]),
    decreases s.len(),
{
    if i > 0 {
        lemma_cache_lookup_at_index(s.drop_first(), key, i - 1);
    }
}

/// No match anywhere means `cache_lookup` finds nothing
proof fn lemma_cache_lookup_absent(s: Seq<CacheEntry>, key: Seq<u8>)
    requires
        forall|j: int| 0 <= j < s.len() ==> s[j].key@ != key,
    ensures
        cache_lookup(s, key) is None,
    decreases s.len(),
{
    if s.len() > 0 {
        lemma_cache_lookup_absent(s.drop_first(), key);
    }
}

/// Replacing the first entry under a key changes only that key's lookup
proof fn lemma_cache_lookup_update(s: Seq<CacheEntry>, i: int, e: CacheEntry)
    requires
        0 <= i < s.len(),
        s[i].key@ == e.key@,
        forall|j: int| 0 <= j < i ==> s[j].key@ != e.key@,
    ensures
        cache_lookup(s.update(i, e), e.key@) == Some(e),
        forall|k: Seq<u8>| k != e.key@ ==> cache_lookup(s.update(i, e), k) == cache_lookup(s, k),
    decreases s.len(),
{
    let t = s.update(i, e);
    if i == 0 {
        assert(t.drop_first() =~= s.drop_first());
    } else {
        assert(t.drop_first() =~= s.drop_first().update(i - 1, e));
        lemma_cache_lookup_update(s.drop_first(), i - 1, e);
        assert forall|k: Seq<u8>| k != e.key@ implies cache_lookup(t, k) == cache_lookup(s, k) by {
            if t.first().key@ != k {
                assert(cache_lookup(t.drop_first(), k) == cache_lookup(s.drop_first(), k));
            }
        }
    }
}

/// Appending an entry under an absent key changes only that key's lookup
proof fn lemma_cache_lookup_push(s: Seq<CacheEntry>, e: CacheEntry)
    requires
        cache_lookup(s, e.key@) is None,
    ensures
        cache_lookup(s.push(e), e.key@) == Some(e),
        forall|k: Seq<u8>| k != e.key@ ==> cache_lookup(s.push(e), k) == cache_lookup(s, k),
    decreases s.len(),
{
    let t = s.push(e);
    if s.len() == 0 {
        assert(t.first() == e);
        assert(t.drop_first() =~= Seq::<CacheEntry>::empty());
        assert forall|k: Seq<u8>| k != e.key@ implies cache_lookup(t, k) == cache_lookup(s, k) by {
            assert(cache_lookup(t.drop_first(), k) is None);
        }
    } else {
        assert(t.first() == s.first());
        assert(t.drop_first() =~= s.drop_first().push(e));
        lemma_cache_lookup_push(s.drop_first(), e);
        assert forall|k: Seq<u8>| k != e.key@ implies cache_lookup(t, k) == cache_lookup(s, k) by {
            if t.first().key@ != k {
                assert(cache_lookup(t.drop_first(), k) == cache_lookup(s.drop_first(), k));
            }
        }
    }
}

/// The keyed store of sponsorship terms with expiry: at most one live
/// entry per quote key, each entry lasting one TTL from when it was put.
pub struct SponsorshipCache {
    /// The cached entries, first match per key authoritative
    pub entries: Vec<CacheEntry>,
    /// How long an entry lives, in milliseconds
    pub ttl_ms: u64,
}

impl SponsorshipCache {
    /// The terms the cache holds live under a key at a given time:
    /// an entry answers only until its expiry.
    pub open spec fn spec_get(self, key: Seq<u8>, now: u64) -> Option<GasSponsorshipInfo> {
        match cache_lookup(self.entries@, key) {
            Some(e) => if now < e.expires_at {
                Some(e.info)
            } else {
                None
            },
            None => None,
        }
    }

    /// The expiry time an entry put now will get
    pub open spec fn spec_expiry(self, now: u64) -> u64 {
        if now + self.ttl_ms <= u64::MAX {
            (now + self.ttl_ms) as u64
        } else {
            u64::MAX
        }
    }

    /// A fresh, empty cache with the given TTL
    pub fn new(ttl_ms: u64) -> (r: SponsorshipCache)
        ensures
            r.ttl_ms == ttl_ms,
            forall|k: Seq<u8>, now: u64| #[trigger] r.spec_get(k, now) is None,
    {
        SponsorshipCache { entries: Vec::new(), ttl_ms }
    }

    /// Store sponsorship terms under a quote key, overwriting any
    /// previous entry under the same key. The entry expires one TTL from
    /// `now`. Every other key reads unchanged.
    pub fn put(&mut self, key: Vec<u8>, info: GasSponsorshipInfo, now: u64)
        ensures
            final(self).ttl_ms == old(self).ttl_ms,
            forall|t: u64| #[trigger] final(self).spec_get(key@, t) == (if t < old(
                self,
            ).spec_expiry(now) {
                Some(info)
            } else {
                Option::<GasSponsorshipInfo>::None
            }),
            forall|k: Seq<u8>, t: u64|
                k != key@ ==> #[trigger] final(self).spec_get(k, t) == old(self).spec_get(k, t),
    {
        let expires_at = if now <= u64::MAX - self.ttl_ms {
            now + self.ttl_ms
        } else {
            u64::MAX
        };
        let n = self.entries.len();
        let mut i: usize = 0;
        while i < n
            invariant
                n == self.entries@.len(),
                0 <= i <= n,
                *self == *old(self),
                expires_at == old(self).spec_expiry(now),
                forall|j: int| 0 <= j < i ==> self.entries@[j].key@ != key@,
            decreases n - i,
        {
            let hit = bytes_eq(&self.entries[i].key, &key);
            if hit {
                let e = CacheEntry { key, info, expires_at };
                proof {
                    lemma_cache_lookup_update(self.entries@, i as int, e);
                }
                self.entries.set(i, e);
                proof {
                    assert(cache_lookup(self.entries@, e.key@) == Some(e));
                    assert forall|k: Seq<u8>, t: u64|
                        k != e.key@ implies #[trigger] self.spec_get(k, t) == old(self).spec_get(
                        k,
                        t,
                    ) by {
                        assert(cache_lookup(self.entries@, k) == cache_lookup(old(self).entries@, k));
                    }
                }
                return ;
            }
            i = i + 1;
        }
        let e = CacheEntry { key, info, expires_at };
        proof {
            lemma_cache_lookup_absent(self.entries@, e.key@);
            lemma_cache_lookup_push(self.entries@, e);
        }
        self.entries.push(e);
        proof {
            assert(cache_lookup(self.entries@, e.key@) == Some(e));
            assert forall|k: Seq<u8>, t: u64|
                k != e.key@ implies #[trigger] self.spec_get(k, t) == old(self).spec_get(k, t) by {
                assert(cache_lookup(self.entries@, k) == cache_lookup(old(self).entries@, k));
            }
        }
    }

    /// Read the live sponsorship terms under a quote key, if any. An
    /// expired or absent entry answers nothing; the store is unchanged.
    pub fn get(&self, key: &Vec<u8>, now: u64) -> (r: Option<GasSponsorshipInfo>)
        ensures
            r == self.spec_get(key@, now),
    {
        let n = self.entries.len();
        let mut i: usize = 0;
        while i < n
            invariant
                n == self.entries@.len(),
                0 <= i <= n,
                forall|j: int| 0 <= j < i ==> self.entries@[j].key@ != key@,
            decreases n - i,
        {
            let hit = bytes_eq(&self.entries[i].key, key);
            if hit {
                proof {
                    lemma_cache_lookup_at_index(self.entries@, key@, i as int);
                }
                let e = &self.entries[i];
                if now < e.expires_at {
                    return Some(e.info);
                } else {
                    return None;
                }
            }
            i = i + 1;
        }
        proof {
            lemma_cache_lookup_absent(self.entries@, key@);
        }
        None
    }
}

} // verus!
