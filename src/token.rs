//! Decoding of the bearer token issued at login: three dot-separated
//! segments, of which the first two are unpadded standard base64 over
//! JSON. The signature segment is not verified.
use vstd::prelude::*;

use crate::json::{text_field, text_member, u64_field, u64_member};

verus! {

/// Identity claims carried in the token's payload segment.
#[derive(Clone, Debug)]
pub struct UserDetails {
    pub user_id: String,
    pub user_role_id: String,
    pub exp_time: String,
    pub nbf: u64,
    pub exp: u64,
    pub iat: u64,
}

impl UserDetails {
    /// Claims with every field empty or zero.
    pub fn empty() -> (r: UserDetails)
        ensures
            r.user_id@.len() == 0 && r.user_role_id@.len() == 0 && r.exp_time@.len() == 0,
            r.nbf == 0 && r.exp == 0 && r.iat == 0,
    {
        UserDetails {
            user_id: String::new(),
            user_role_id: String::new(),
            exp_time: String::new(),
            nbf: 0,
            exp: 0,
            iat: 0,
        }
    }
}

/// Why authentication failed.
#[derive(Clone, Copy, Debug, PartialEq, Eq, Structural)]
pub enum AuthError {
    /// A required configuration value is missing or invalid.
    ConfigError,
    /// The login request could not be sent or its answer not read.
    TransportError,
    /// The login answer does not have the expected shape.
    ProtocolError,
    /// The token is not three segments of base64-encoded JSON.
    MalformedToken,
}

/// The decoding of `s` as unpadded standard base64.
pub uninterp spec fn base64_decoded(s: Seq<char>) -> Option<Seq<u8>>;

/// Relies on base64's `STANDARD_NO_PAD` engine and its `decode`.
#[verifier::external_body]
fn decode_base64(s: &str) -> (r: Option<Vec<u8>>)
    ensures
        r is Some <==> base64_decoded(s@) is Some,
        r is Some ==> r->0@ == base64_decoded(s@)->0,
{
    base64::Engine::decode(&base64::engine::general_purpose::STANDARD_NO_PAD, s).ok()
}

pub open spec fn dot_free(s: Seq<char>) -> bool {
    forall|i: int| 0 <= i < s.len() ==> s[i] != '.'
}

/// `t` is the segments `h`, `p` and `g` joined by dots.
pub open spec fn token_parts(t: Seq<char>, h: Seq<char>, p: Seq<char>, g: Seq<char>) -> bool {
    dot_free(h) && dot_free(p) && dot_free(g) && t == h + seq!['.'] + p + seq!['.'] + g
}

/// The decoded header names its algorithm and its type as strings.
pub open spec fn header_valid(doc: Seq<u8>) -> bool {
    text_field(doc, "alg"@) is Some && text_field(doc, "typ"@) is Some
}

/// The decoded payload holds every identity claim with its type.
pub open spec fn payload_valid(doc: Seq<u8>) -> bool {
    text_field(doc, "userId"@) is Some && text_field(doc, "userRoleId"@) is Some
        && text_field(doc, "expTime"@) is Some && u64_field(doc, "nbf"@) is Some
        && u64_field(doc, "exp"@) is Some && u64_field(doc, "iat"@) is Some
}

/// `c` holds the claims of the decoded payload `doc`.
pub open spec fn claims_of(c: UserDetails, doc: Seq<u8>) -> bool {
    Some(c.user_id@) == text_field(doc, "userId"@) && Some(c.user_role_id@) == text_field(
        doc,
        "userRoleId"@,
    ) && Some(c.exp_time@) == text_field(doc, "expTime"@) && Some(c.nbf) == u64_field(doc, "nbf"@)
        && Some(c.exp) == u64_field(doc, "exp"@) && Some(c.iat) == u64_field(doc, "iat"@)
}

/// `t` splits into the non-empty segments `h`, `p` and `g`, of which the
/// first two decode from base64 to a valid header and payload.
pub open spec fn token_valid(t: Seq<char>, h: Seq<char>, p: Seq<char>, g: Seq<char>) -> bool {
    token_parts(t, h, p, g) && h.len() > 0 && p.len() > 0 && g.len() > 0
        && base64_decoded(h) is Some && header_valid(base64_decoded(h)->0)
        && base64_decoded(p) is Some && payload_valid(base64_decoded(p)->0)
}

pub open spec fn decodable(t: Seq<char>) -> bool {
    exists|h: Seq<char>, p: Seq<char>, g: Seq<char>| token_valid(t, h, p, g)
}

/// `c` holds the claims of the token `t`.
pub open spec fn claims_of_token(c: UserDetails, t: Seq<char>) -> bool {
    forall|h: Seq<char>, p: Seq<char>, g: Seq<char>|
        #[trigger] token_valid(t, h, p, g) ==> claims_of(c, base64_decoded(p)->0)
}

/// Every dot of a token made of three segments is one of the two separators.
proof fn lemma_separators(t: Seq<char>, h: Seq<char>, p: Seq<char>, g: Seq<char>, k: int)
    requires
        token_parts(t, h, p, g),
        0 <= k < t.len(),
        t[k] == '.',
    ensures
        k == h.len() || k == h.len() + 1 + p.len(),
{
    let a = h.len() as int;
    let b = a + 1 + p.len();
    if k < a {
        assert(t[k] == h[k]);
    } else if a < k < b {
        assert(t[k] == p[k - a - 1]);
    } else if k > b {
        assert(t[k] == g[k - b - 1]);
    }
}

/// A token splits into three dot-free segments in one way only.
proof fn lemma_parts_unique(
    t: Seq<char>,
    h: Seq<char>,
    p: Seq<char>,
    g: Seq<char>,
    h2: Seq<char>,
    p2: Seq<char>,
    g2: Seq<char>,
)
    requires
        token_parts(t, h, p, g),
        token_parts(t, h2, p2, g2),
    ensures
        h == h2 && p == p2 && g == g2,
{
    let a = h.len() as int;
    let b = a + 1 + p.len();
    let a2 = h2.len() as int;
    let b2 = a2 + 1 + p2.len();
    assert(t[a] == '.');
    assert(t[b] == '.');
    assert(t[a2] == '.');
    assert(t[b2] == '.');
    lemma_separators(t, h, p, g, a2);
    lemma_separators(t, h, p, g, b2);
    lemma_separators(t, h2, p2, g2, a);
    lemma_separators(t, h2, p2, g2, b);
    assert(a == a2 && b == b2);
    assert(h =~= t.subrange(0, a));
    assert(h2 =~= t.subrange(0, a));
    assert(p =~= t.subrange(a + 1, b));
    assert(p2 =~= t.subrange(a + 1, b));
    assert(g =~= t.subrange(b + 1, t.len() as int));
    assert(g2 =~= t.subrange(b + 1, t.len() as int));
}

/// `t` holds exactly two dots.
pub open spec fn has_two_dots(t: Seq<char>) -> bool {
    exists|i: int, j: int|
        0 <= i < j < t.len() && t[i] == '.' && t[j] == '.' && forall|k: int|
            0 <= k < t.len() && t[k] == '.' ==> k == i || k == j
}

/// A token that does not hold exactly two dots never decodes.
pub proof fn lemma_decodable_has_two_dots(t: Seq<char>)
    ensures
        decodable(t) ==> has_two_dots(t),
{
    if decodable(t) {
        let (h, p, g) = choose|h: Seq<char>, p: Seq<char>, g: Seq<char>| token_valid(t, h, p, g);
        let a = h.len() as int;
        let b = a + 1 + p.len();
        assert(t[a] == '.');
        assert(t[b] == '.');
        assert forall|k: int| 0 <= k < t.len() && t[k] == '.' implies k == a || k == b by {
            lemma_separators(t, h, p, g, k);
        }
    }
}

/// Splits a token at its dots into exactly three segments.
pub fn split_token(t: &str) -> (r: Option<(String, String, String)>)
    ensures
        match r {
            Some((h, p, g)) => token_parts(t@, h@, p@, g@),
            None => forall|h: Seq<char>, p: Seq<char>, g: Seq<char>| !token_parts(t@, h, p, g),
        },
{
    let n = t.unicode_len();
    let mut count: usize = 0;
    let mut d1: usize = 0;
    let mut d2: usize = 0;
    let mut i: usize = 0;
    while i < n
        invariant
            i <= n,
            n == t@.len(),
            count <= 2,
            count >= 1 ==> d1 < i && t@[d1 as int] == '.',
            count >= 2 ==> d1 < d2 < i && t@[d2 as int] == '.',
            forall|k: int|
                0 <= k < i && t@[k] == '.' ==> (count >= 1 && k == d1) || (count >= 2 && k == d2),
        decreases n - i,
    {
        if t.get_char(i) == '.' {
            if count == 2 {
                assert forall|h: Seq<char>, p: Seq<char>, g: Seq<char>| !token_parts(t@, h, p, g) by {
                    if token_parts(t@, h, p, g) {
                        lemma_separators(t@, h, p, g, d1 as int);
                        lemma_separators(t@, h, p, g, d2 as int);
                        lemma_separators(t@, h, p, g, i as int);
                    }
                }
                return None;
            }
            if count == 0 {
                d1 = i;
            } else {
                d2 = i;
            }
            count = count + 1;
        }
        i = i + 1;
    }
    if count != 2 {
        assert forall|h: Seq<char>, p: Seq<char>, g: Seq<char>| !token_parts(t@, h, p, g) by {
            if token_parts(t@, h, p, g) {
                let a = h.len() as int;
                let b = a + 1 + p.len();
                assert(t@[a] == '.');
                assert(t@[b] == '.');
            }
        }
        return None;
    }
    let h = t.substring_char(0, d1).to_owned();
    let p = t.substring_char(d1 + 1, d2).to_owned();
    let g = t.substring_char(d2 + 1, n).to_owned();
    assert forall|k: int| 0 <= k < h@.len() implies h@[k] != '.' by {
        assert(h@[k] == t@[k]);
    }
    assert forall|k: int| 0 <= k < p@.len() implies p@[k] != '.' by {
        assert(p@[k] == t@[d1 + 1 + k]);
    }
    assert forall|k: int| 0 <= k < g@.len() implies g@[k] != '.' by {
        assert(g@[k] == t@[d2 + 1 + k]);
    }
    assert(t@ =~= h@ + seq!['.'] + p@ + seq!['.'] + g@);
    Some((h, p, g))
}

/// The decoded bytes of a non-empty base64 segment.
fn decode_segment(s: &String) -> (r: Option<Vec<u8>>)
    ensures
        r is Some <==> (s@.len() > 0 && base64_decoded(s@) is Some),
        r is Some ==> r->0@ == base64_decoded(s@)->0,
{
    if s.as_str().unicode_len() == 0 {
        return None;
    }
    decode_base64(s.as_str())
}

/// Reads the identity claims from the decoded payload.
fn read_claims(doc: &[u8]) -> (r: Option<UserDetails>)
    ensures
        r is Some <==> payload_valid(doc@),
        r is Some ==> claims_of(r->0, doc@),
{
    let user_id = text_member(doc, "userId")?;
    let user_role_id = text_member(doc, "userRoleId")?;
    let exp_time = text_member(doc, "expTime")?;
    let nbf = u64_member(doc, "nbf")?;
    let exp = u64_member(doc, "exp")?;
    let iat = u64_member(doc, "iat")?;
    Some(UserDetails { user_id, user_role_id, exp_time, nbf, exp, iat })
}

/// Whether the decoded header names its algorithm and type as strings.
fn header_ok(doc: &[u8]) -> (r: bool)
    ensures
        r == header_valid(doc@),
{
    text_member(doc, "alg").is_some() && text_member(doc, "typ").is_some()
}

/// Extracts the identity claims of a bearer token, without checking its
/// signature or its expiry. Fails with `MalformedToken` unless the token is
/// three non-empty dot-separated segments whose first two decode from
/// unpadded base64 to JSON: a header naming `alg` and `typ`, and a payload
/// holding every claim.
pub fn decode_token(token: &str) -> (r: Result<UserDetails, AuthError>)
    ensures
        r is Ok <==> decodable(token@),
        r is Ok ==> claims_of_token(r->Ok_0, token@),
        r is Err ==> r == Err::<UserDetails, AuthError>(AuthError::MalformedToken),
{
    let (h, p, g) = match split_token(token) {
        Some(parts) => parts,
        None => return Err(AuthError::MalformedToken),
    };
    proof {
        assert forall|h2: Seq<char>, p2: Seq<char>, g2: Seq<char>|
            token_parts(token@, h2, p2, g2) implies h2 == h@ && p2 == p@ && g2 == g@ by {
            lemma_parts_unique(token@, h@, p@, g@, h2, p2, g2);
        }
    }
    let header = match decode_segment(&h) {
        Some(v) => v,
        None => return Err(AuthError::MalformedToken),
    };
    if !header_ok(header.as_slice()) {
        return Err(AuthError::MalformedToken);
    }
    let payload = match decode_segment(&p) {
        Some(v) => v,
        None => return Err(AuthError::MalformedToken),
    };
    if g.as_str().unicode_len() == 0 {
        return Err(AuthError::MalformedToken);
    }
    match read_claims(payload.as_slice()) {
        Some(c) => {
            assert(token_valid(token@, h@, p@, g@));
            Ok(c)
        },
        None => Err(AuthError::MalformedToken),
    }
}

} // verus!
