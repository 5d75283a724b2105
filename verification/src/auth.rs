//! The signed-claim credential strategy: a bearer token is pulled out of a
//! header value, its signature is checked against the service's key, and its
//! scope list must carry the service's own scope.

use vstd::prelude::*;

use crate::error::TokenError;

verus! {

/// A raw credential pulled out of a transport header.
pub struct Token(pub String);

/// Failure to pull a credential out of a header value.
#[derive(Debug, Clone, Copy, PartialEq, Eq, Structural)]
pub enum TokenParseError {
    Type,
}

/// The credential a header value carries: everything after the bearer
/// prefix, or nothing when the prefix is missing.
pub open spec fn spec_bearer_token(s: Seq<char>) -> Option<Seq<char>> {
    if s.len() >= 7 && s.subrange(0, 7) == "Bearer "@ {
        Some(s.skip(7))
    } else {
        None
    }
}

impl Token {
    /// Pulls the credential out of a header value written in the bearer
    /// scheme; any other shape is a malformed credential.
    pub fn from_str(s: &str) -> (r: Result<Token, TokenParseError>)
        ensures
            match r {
                Ok(t) => spec_bearer_token(s@) == Some(t.0@),
                Err(e) => spec_bearer_token(s@) is None && e == TokenParseError::Type,
            },
    {
        proof {
            reveal_strlit("Bearer ");
        }
        let n = s.unicode_len();
        if n < 7 {
            return Err(TokenParseError::Type);
        }
        if s.get_char(0) == 'B' && s.get_char(1) == 'e' && s.get_char(2) == 'a' && s.get_char(3) == 'r'
            && s.get_char(4) == 'e' && s.get_char(5) == 'r' && s.get_char(6) == ' ' {
            proof {
                assert(s@.subrange(0, 7) =~= "Bearer "@);
            }
            let rest = s.substring_char(7, n);
            proof {
                assert(rest@ =~= s@.skip(7));
            }
            Ok(Token(String::from_str(rest)))
        } else {
            proof {
                if s@.subrange(0, 7) == "Bearer "@ {
                    assert(forall|k: int| 0 <= k < 7 ==> s@[k] == s@.subrange(0, 7)[k]);
                }
            }
            Err(TokenParseError::Type)
        }
    }
}

/// The stretch `[lo, hi)` is one comma-separated entry of the scope list
/// `s`: it touches a boundary or a comma on both sides and holds no comma
/// itself.
pub open spec fn is_scope_segment(s: Seq<char>, lo: int, hi: int) -> bool {
    &&& 0 <= lo <= hi <= s.len()
    &&& (lo == 0 || s[lo - 1] == ',')
    &&& (hi == s.len() || s[hi] == ',')
    &&& (forall|k: int| lo <= k < hi ==> s[k] != ',')
}

/// Whether the comma-separated scope list `s` carries `req` as one of its
/// entries.
pub open spec fn spec_scope_contains(s: Seq<char>, req: Seq<char>) -> bool {
    exists|lo: int, hi: int| is_scope_segment(s, lo, hi) && s.subrange(lo, hi) == req
}

/// Whether the comma-separated scope list carries `required` as one of its
/// entries, exactly as splitting on commas would find it.
pub fn scope_list_contains(list: &str, required: &str) -> (r: bool)
    ensures
        r == spec_scope_contains(list@, required@),
{
    let req = String::from_str(required);
    let n = list.unicode_len();
    let mut i: usize = 0;
    let mut start: usize = 0;
    loop
        invariant
            start <= i <= n,
            n == list@.len(),
            req@ == required@,
            start == 0 || list@[start - 1] == ',',
            forall|k: int| start <= k < i ==> list@[k] != ',',
            forall|lo: int, hi: int| is_scope_segment(list@, lo, hi) && hi < i as int
                ==> list@.subrange(lo, hi) != required@,
        decreases n - i,
    {
        if i == n || list.get_char(i) == ',' {
            let seg = list.substring_char(start, i);
            if String::from_str(seg) == req {
                proof {
                    assert(is_scope_segment(list@, start as int, i as int));
                    assert(list@.subrange(start as int, i as int) == required@);
                }
                return true;
            }
            proof {
                assert forall|lo: int| is_scope_segment(list@, lo, i as int) implies lo == start as int by {
                    if lo < start as int {
                        assert(list@[start - 1] == ',');
                    } else if lo > start as int {
                        assert(list@[lo - 1] == ',');
                    }
                }
            }
            if i == n {
                proof {
                    assert forall|lo: int, hi: int| is_scope_segment(list@, lo, hi)
                        implies list@.subrange(lo, hi) != required@ by {
                        if hi == n as int {
                            assert(lo == start as int);
                        }
                    }
                }
                return false;
            }
            start = i + 1;
        }
        i += 1;
    }
}

#[verifier::external_type_specification]
#[verifier::external_body]
pub struct ExDecodingKey(jsonwebtoken::DecodingKey);

/// Relies on jsonwebtoken::DecodingKey::from_ec_pem: builds a verification
/// key from a PEM-encoded elliptic-curve public key, failing on input that
/// is not such a key.
#[verifier::external_body]
fn key_from_ec_pem(pem: &[u8]) -> (r: Option<jsonwebtoken::DecodingKey>) {
    jsonwebtoken::DecodingKey::from_ec_pem(pem).ok()
}

/// Relies on jsonwebtoken::DecodingKey::from_secret: builds a verification
/// key from a shared secret.
#[verifier::external_body]
fn key_from_secret(secret: &[u8]) -> (r: jsonwebtoken::DecodingKey) {
    jsonwebtoken::DecodingKey::from_secret(secret)
}

/// Relies on jsonwebtoken::decode: checks the token's signature and its
/// registered claims (among them expiry, against the clock) for the selected
/// algorithm, and hands out the `sub` and `scope` claims of its payload.
/// Nothing is promised of the outcome: a token may fail for a bad signature,
/// a malformed or expired payload, or claims without those two text fields,
/// and what comes back is judged by the caller.
#[verifier::external_body]
fn decode_sub_and_scope(token: &str, key: &jsonwebtoken::DecodingKey, es256: bool) -> (r: Option<(String, String)>) {
    let alg = if es256 { jsonwebtoken::Algorithm::ES256 } else { jsonwebtoken::Algorithm::HS256 };
    let data: jsonwebtoken::TokenData<serde_json::Value> =
        jsonwebtoken::decode(token, key, &jsonwebtoken::Validation::new(alg)).ok()?;
    let sub = data.claims.get("sub")?.as_str()?.to_string();
    let scope = data.claims.get("scope")?.as_str()?.to_string();
    Some((sub, scope))
}

/// The claims a validated token carries: the subject and its scope list.
#[derive(Debug)]
pub struct TokenClaims {
    pub sub: String,
    pub scope: String,
}

/// The token authority of the signed-claim strategy: a verification key and
/// the one scope a token's scope list must carry.
pub struct TokenService {
    pub scope: String,
    pub key: jsonwebtoken::DecodingKey,
    pub es256: bool,
}

impl TokenService {
    /// An authority that checks signatures against an elliptic-curve public
    /// key in PEM form; nothing when the key cannot be parsed.
    pub fn new(scope: String, public_key_pem: &[u8]) -> (r: Option<TokenService>)
        ensures
            r matches Some(ts) ==> ts.scope@ == scope@ && ts.es256,
    {
        match key_from_ec_pem(public_key_pem) {
            None => None,
            Some(key) => Some(TokenService { scope, key, es256: true }),
        }
    }

    /// An authority that checks signatures against a shared secret.
    pub fn from_secret(scope: String, secret: &[u8]) -> (r: TokenService)
        ensures
            r.scope@ == scope@ && !r.es256,
    {
        TokenService { scope, key: key_from_secret(secret), es256: false }
    }

    /// Decodes and checks a presented token: claims come back only when the
    /// signature verified and their scope list carries this service's scope;
    /// every rejection is the same bad-token failure.
    pub fn validate_token(&self, token: &str) -> (r: Result<TokenClaims, TokenError>)
        ensures
            r matches Ok(c) ==> spec_scope_contains(c.scope@, self.scope@),
            r matches Err(e) ==> e == TokenError::BadAppToken,
    {
        match decode_sub_and_scope(token, &self.key, self.es256) {
            None => Err(TokenError::BadAppToken),
            Some((sub, scope)) => {
                if scope_list_contains(scope.as_str(), self.scope.as_str()) {
                    Ok(TokenClaims { sub, scope })
                } else {
                    Err(TokenError::BadAppToken)
                }
            },
        }
    }
}

} // verus!
