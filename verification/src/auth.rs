//! The authorizer: validates a caller's credential against the full
//! request — path, query and body are all covered by the signature, so a
//! signature cannot be replayed onto a different endpoint or with a
//! mutated body — and yields the caller identity used for all accounting.
//!
//! A credential is an API key identifier plus an HMAC-SHA256 signature,
//! with the key's secret, over a canonical length-framed encoding of the
//! request. The framing is injective (see
//! [`lemma_auth_message_injective`]): two different requests never share
//! an encoding, so a signature speaks for exactly one request.

use vstd::prelude::*;

use crate::cache::{bytes_eq, push_u64_be, u64_be};
use crate::types::AuthError;

verus! {

/// What HMAC-SHA256 returns for a key and a message; a function of the
/// two alone
pub uninterp spec fn hmac_sha256_of(key: Seq<u8>, msg: Seq<u8>) -> Seq<u8>;

/// Relies on the hmac crate's `Hmac<Sha256>` (through the `Mac` trait:
/// `new_from_slice`, which accepts any key length, then `update` and
/// `finalize`) to compute HMAC-SHA256: a 32-byte digest that depends on
/// the key and message bytes alone.
#[verifier::external_body]
fn hmac_sha256(key: &Vec<u8>, msg: &Vec<u8>) -> (r: Vec<u8>)
    ensures
        r@ == hmac_sha256_of(key@, msg@),
        r@.len() == 32,
{
    let mut mac = <hmac::Hmac<sha2::Sha256> as hmac::Mac>::new_from_slice(key.as_slice())
        .expect("any key length is accepted");
    hmac::Mac::update(&mut mac, msg.as_slice());
    hmac::Mac::finalize(mac).into_bytes().to_vec()
}

/// The canonical signed encoding of a request: the path and query are
/// length-prefixed, the body is the remainder.
pub open spec fn auth_message_bytes(path: Seq<u8>, query: Seq<u8>, body: Seq<u8>) -> Seq<u8> {
    u64_be(path.len() as u64) + (path + (u64_be(query.len() as u64) + (query + body)))
}

/// Build the canonical signed encoding of a request
pub fn auth_message(path: &Vec<u8>, query: &Vec<u8>, body: &Vec<u8>) -> (r: Vec<u8>)
    ensures
        r@ == auth_message_bytes(path@, query@, body@),
{
    let mut v: Vec<u8> = Vec::new();
    push_u64_be(&mut v, path.len() as u64);
    append_bytes(&mut v, path);
    push_u64_be(&mut v, query.len() as u64);
    append_bytes(&mut v, query);
    append_bytes(&mut v, body);
    proof {
        assert(v@ =~= auth_message_bytes(path@, query@, body@));
    }
    v
}

/// Append one byte string to another
fn append_bytes(v: &mut Vec<u8>, a: &Vec<u8>)
    ensures
        final(v)@ == old(v)@ + a@,
{
    let n = a.len();
    let mut i: usize = 0;
    while i < n
        invariant
            n == a@.len(),
            0 <= i <= n,
            v@ == old(v)@ + a@.take(i as int),
        decreases n - i,
    {
        v.push(a[i]);
        proof {
            assert(a@.take(i as int + 1) =~= a@.take(i as int).push(a@[i as int]));
            assert(v@ =~= old(v)@ + a@.take(i as int + 1));
        }
        i = i + 1;
    }
    proof {
        assert(a@.take(n as int) =~= a@);
        assert(v@ =~= old(v)@ + a@);
    }
}

/// Splitting a concatenation of equally long heads is piecewise
proof fn lemma_split(a1: Seq<u8>, b1: Seq<u8>, a2: Seq<u8>, b2: Seq<u8>)
    requires
        a1.len() == a2.len(),
        a1 + b1 == a2 + b2,
    ensures
        a1 == a2,
        b1 == b2,
{
    assert((a1 + b1).len() == a1.len() + b1.len());
    assert((a2 + b2).len() == a2.len() + b2.len());
    assert(b1.len() == b2.len());
    assert forall|i: int| 0 <= i < a1.len() implies a1[i] == a2[i] by {
        assert((a1 + b1)[i] == a1[i]);
        assert((a2 + b2)[i] == a2[i]);
    }
    assert forall|i: int| 0 <= i < b1.len() implies b1[i] == b2[i] by {
        assert((a1 + b1)[a1.len() + i] == b1[i]);
        assert((a2 + b2)[a2.len() + i] == b2[i]);
    }
    assert(a1 =~= a2);
    assert(b1 =~= b2);
}

/// The big-endian length prefix determines the length
proof fn lemma_len_prefix_inj(x: u64, y: u64)
    requires
        u64_be(x) == u64_be(y),
    ensures
        x == y,
{
    assert((x >> 56) as u8 == (y >> 56) as u8) by {
        assert(u64_be(x)[0] == u64_be(y)[0]);
    }
    assert((x >> 48) as u8 == (y >> 48) as u8) by {
        assert(u64_be(x)[1] == u64_be(y)[1]);
    }
    assert((x >> 40) as u8 == (y >> 40) as u8) by {
        assert(u64_be(x)[2] == u64_be(y)[2]);
    }
    assert((x >> 32) as u8 == (y >> 32) as u8) by {
        assert(u64_be(x)[3] == u64_be(y)[3]);
    }
    assert((x >> 24) as u8 == (y >> 24) as u8) by {
        assert(u64_be(x)[4] == u64_be(y)[4]);
    }
    assert((x >> 16) as u8 == (y >> 16) as u8) by {
        assert(u64_be(x)[5] == u64_be(y)[5]);
    }
    assert((x >> 8) as u8 == (y >> 8) as u8) by {
        assert(u64_be(x)[6] == u64_be(y)[6]);
    }
    assert(x as u8 == y as u8) by {
        assert(u64_be(x)[7] == u64_be(y)[7]);
    }
    assert(x == y) by (bit_vector)
        requires
            (x >> 56) as u8 == (y >> 56) as u8,
            (x >> 48) as u8 == (y >> 48) as u8,
            (x >> 40) as u8 == (y >> 40) as u8,
            (x >> 32) as u8 == (y >> 32) as u8,
            (x >> 24) as u8 == (y >> 24) as u8,
            (x >> 16) as u8 == (y >> 16) as u8,
            (x >> 8) as u8 == (y >> 8) as u8,
            x as u8 == y as u8,
    ;
}

/// The signed encoding covers the whole request: two requests share an
/// encoding only when path, query and body all agree. A signature over
/// one request therefore never validates another.
pub proof fn lemma_auth_message_injective(
    p1: Seq<u8>,
    q1: Seq<u8>,
    b1: Seq<u8>,
    p2: Seq<u8>,
    q2: Seq<u8>,
    b2: Seq<u8>,
)
    requires
        p1.len() <= u64::MAX,
        p2.len() <= u64::MAX,
        q1.len() <= u64::MAX,
        q2.len() <= u64::MAX,
        auth_message_bytes(p1, q1, b1) == auth_message_bytes(p2, q2, b2),
    ensures
        p1 == p2,
        q1 == q2,
        b1 == b2,
{
    lemma_split(
        u64_be(p1.len() as u64),
        p1 + (u64_be(q1.len() as u64) + (q1 + b1)),
        u64_be(p2.len() as u64),
        p2 + (u64_be(q2.len() as u64) + (q2 + b2)),
    );
    lemma_len_prefix_inj(p1.len() as u64, p2.len() as u64);
    lemma_split(
        p1,
        u64_be(q1.len() as u64) + (q1 + b1),
        p2,
        u64_be(q2.len() as u64) + (q2 + b2),
    );
    lemma_split(u64_be(q1.len() as u64), q1 + b1, u64_be(q2.len() as u64), q2 + b2);
    lemma_len_prefix_inj(q1.len() as u64, q2.len() as u64);
    lemma_split(q1, b1, q2, b2);
}

/// One registered API key: its identifier, its shared secret, and
/// whether it has been disabled
pub struct ApiKey {
    /// The key identifier a request names
    pub key_id: u64,
    /// The shared secret the key signs with
    pub secret: Vec<u8>,
    /// Whether the key has been disabled by the operator
    pub disabled: bool,
}

/// The first registered key under an identifier, if any
pub open spec fn key_lookup(s: Seq<ApiKey>, id: u64) -> Option<ApiKey>
    decreases s.len(),
{
    if s.len() == 0 {
        None
    } else if s.first().key_id == id {
        Some(s.first())
    } else {
        key_lookup(s.drop_first(), id)
    }
}

/// A found index with no earlier match determines what `key_lookup`
/// returns
proof fn lemma_key_lookup_at_index(s: Seq<ApiKey>, id: u64, i: int)
    requires
        0 <= i < s.len(),
        s[i].key_id == id,
        forall|j: int| 0 <= j < i ==> s[j].key_id != id,
    ensures
        key_lookup(s, id) == Some(s[i]),
    decreases s.len(),
{
    if i > 0 {
        lemma_key_lookup_at_index(s.drop_first(), id, i - 1);
    }
}

/// No match anywhere means `key_lookup` finds nothing
proof fn lemma_key_lookup_absent(s: Seq<ApiKey>, id: u64)
    requires
        forall|j: int| 0 <= j < s.len() ==> s[j].key_id != id,
    ensures
        key_lookup(s, id) is None,
    decreases s.len(),
{
    if s.len() > 0 {
        lemma_key_lookup_absent(s.drop_first(), id);
    }
}

/// Appending a key under an absent identifier changes only that
/// identifier's lookup
proof fn lemma_key_lookup_push(s: Seq<ApiKey>, e: ApiKey)
    requires
        key_lookup(s, e.key_id) is None,
    ensures
        key_lookup(s.push(e), e.key_id) == Some(e),
        forall|c: u64| c != e.key_id ==> key_lookup(s.push(e), c) == key_lookup(s, c),
    decreases s.len(),
{
    let t = s.push(e);
    if s.len() == 0 {
        assert(t.first() == e);
        assert(t.drop_first() =~= Seq::<ApiKey>::empty());
        assert forall|c: u64| c != e.key_id implies key_lookup(t, c) == key_lookup(s, c) by {
            assert(key_lookup(t.drop_first(), c) is None);
        }
    } else {
        assert(t.first() == s.first());
        assert(t.drop_first() =~= s.drop_first().push(e));
        lemma_key_lookup_push(s.drop_first(), e);
        assert forall|c: u64| c != e.key_id implies key_lookup(t, c) == key_lookup(s, c) by {
            if t.first().key_id != c {
                assert(key_lookup(t.drop_first(), c) == key_lookup(s.drop_first(), c));
            }
        }
    }
}

/// The registry of API keys the authorizer validates against
pub struct AuthRegistry {
    /// The registered keys, first match per identifier authoritative
    pub keys: Vec<ApiKey>,
}

/// What the authorizer decides for a request: the caller identity, or
/// why the credential was rejected. `Unauthorized` when the credential
/// is missing, names no registered key, or its signature does not
/// verify; `Forbidden` when the signature verifies but the key is
/// disabled.
pub open spec fn spec_authorize(
    reg: AuthRegistry,
    path: Seq<u8>,
    query: Seq<u8>,
    body: Seq<u8>,
    key_id: Option<u64>,
    signature: Seq<u8>,
) -> Result<u64, AuthError> {
    match key_id {
        None => Err(AuthError::Unauthorized),
        Some(id) => match key_lookup(reg.keys@, id) {
            None => Err(AuthError::Unauthorized),
            Some(k) => {
                if signature != hmac_sha256_of(k.secret@, auth_message_bytes(path, query, body)) {
                    Err(AuthError::Unauthorized)
                } else if k.disabled {
                    Err(AuthError::Forbidden)
                } else {
                    Ok(id)
                }
            },
        },
    }
}

impl AuthRegistry {
    /// A registry with no keys
    pub fn new() -> (r: AuthRegistry)
        ensures
            forall|id: u64| #[trigger] key_lookup(r.keys@, id) is None,
    {
        AuthRegistry { keys: Vec::new() }
    }

    /// Register a key. A key under an already registered identifier is
    /// refused, so an identifier never changes meaning.
    pub fn register(&mut self, key: ApiKey) -> (r: bool)
        ensures
            r <==> key_lookup(old(self).keys@, key.key_id) is None,
            r ==> key_lookup(final(self).keys@, key.key_id) == Some(key),
            !r ==> *final(self) == *old(self),
            forall|c: u64|
                c != key.key_id ==> #[trigger] key_lookup(final(self).keys@, c) == key_lookup(
                    old(self).keys@,
                    c,
                ),
    {
        let n = self.keys.len();
        let mut i: usize = 0;
        while i < n
            invariant
                n == self.keys@.len(),
                0 <= i <= n,
                *self == *old(self),
                forall|j: int| 0 <= j < i ==> self.keys@[j].key_id != key.key_id,
            decreases n - i,
        {
            if self.keys[i].key_id == key.key_id {
                proof {
                    lemma_key_lookup_at_index(self.keys@, key.key_id, i as int);
                }
                return false;
            }
            i = i + 1;
        }
        proof {
            lemma_key_lookup_absent(self.keys@, key.key_id);
            lemma_key_lookup_push(self.keys@, key);
        }
        self.keys.push(key);
        true
    }

    /// Authorize a request: validate the named key's signature over the
    /// canonical encoding of path, query and body, and yield the caller
    /// identity. Side-effect free; run before any rate-limit or proxy
    /// work, so unauthenticated traffic never consumes capacity.
    pub fn authorize(
        &self,
        path: &Vec<u8>,
        query: &Vec<u8>,
        body: &Vec<u8>,
        key_id: Option<u64>,
        signature: &Vec<u8>,
    ) -> (r: Result<u64, AuthError>)
        ensures
            r == spec_authorize(*self, path@, query@, body@, key_id, signature@),
    {
        let id = match key_id {
            None => {
                return Err(AuthError::Unauthorized);
            },
            Some(id) => id,
        };
        let n = self.keys.len();
        let mut i: usize = 0;
        while i < n
            invariant
                n == self.keys@.len(),
                0 <= i <= n,
                key_id == Some(id),
                forall|j: int| 0 <= j < i ==> self.keys@[j].key_id != id,
            decreases n - i,
        {
            if self.keys[i].key_id == id {
                proof {
                    lemma_key_lookup_at_index(self.keys@, id, i as int);
                }
                let k = &self.keys[i];
                let msg = auth_message(path, query, body);
                let mac = hmac_sha256(&k.secret, &msg);
                let valid = bytes_eq(signature, &mac);
                if !valid {
                    return Err(AuthError::Unauthorized);
                } else if k.disabled {
                    return Err(AuthError::Forbidden);
                } else {
                    return Ok(id);
                }
            }
            i = i + 1;
        }
        proof {
            lemma_key_lookup_absent(self.keys@, id);
        }
        Err(AuthError::Unauthorized)
    }
}

} // verus!
