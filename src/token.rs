//! Access and refresh token claims, and token identifiers.
use vstd::prelude::*;

verus! {

/// The kind of a token.
#[derive(Debug, Clone, Copy, PartialEq, Eq, Structural)]
pub enum TokenType {
    Access,
    Refresh,
}

/// The claims that a token carries.
#[derive(Debug, Clone)]
pub struct Claims {
    /// Subject: the user id.
    pub sub: String,
    pub email: String,
    pub token_type: TokenType,
    /// Expiry, in seconds since the epoch.
    pub exp: i64,
    /// Issue time, in seconds since the epoch.
    pub iat: i64,
    /// Unique token id.
    pub jti: String,
}

/// What a successful authentication hands back (the refresh token travels
/// in a cookie).
#[derive(Debug, Clone)]
pub struct TokenPair {
    pub access_token: String,
    pub token_type: String,
    pub expires_in: i64,
}

/// The sixteen hexadecimal digits, lower case.
pub open spec fn hex_digits() -> Seq<char> {
    seq!['0', '1', '2', '3', '4', '5', '6', '7', '8', '9', 'a', 'b', 'c', 'd', 'e', 'f']
}

/// Two lower-case hexadecimal digits per byte, high nibble first.
pub open spec fn hex_of(b: Seq<u8>) -> Seq<char>
    decreases b.len(),
{
    if b.len() == 0 {
        Seq::empty()
    } else {
        hex_of(b.drop_last()) + seq![hex_digits()[b.last() as int / 16], hex_digits()[b.last() as int % 16]]
    }
}

/// Lower-case hexadecimal text of `bytes`.
pub fn encode(bytes: &[u8]) -> (r: String)
    ensures
        r@ == hex_of(bytes@),
{
    let digits = "0123456789abcdef";
    proof {
        reveal_strlit("0123456789abcdef");
    }
    assert(digits@ =~= hex_digits());
    let mut result = String::new();
    let mut i: usize = 0;
    while i < bytes.len()
        invariant
            i <= bytes@.len(),
            digits@ == hex_digits(),
            result@ == hex_of(bytes@.take(i as int)),
        decreases bytes@.len() - i,
    {
        assert(bytes@.take(i + 1).drop_last() =~= bytes@.take(i as int));
        assert(bytes@.take(i + 1).last() == bytes@[i as int]);
        let b = bytes[i];
        let hi = (b / 16) as usize;
        let lo = (b % 16) as usize;
        result.append(digits.substring_char(hi, hi + 1));
        result.append(digits.substring_char(lo, lo + 1));
        assert(result@ =~= hex_of(bytes@.take(i + 1)));
        i = i + 1;
    }
    assert(bytes@.take(bytes@.len() as int) =~= bytes@);
    result
}

/// Relies on `rand::thread_rng` and `Rng::gen`: sixteen random bytes.
#[verifier::external_body]
fn random_bytes() -> (r: [u8; 16]) {
    rand::Rng::gen(&mut rand::thread_rng())
}

/// A fresh token id: thirty-two hexadecimal digits of sixteen random bytes.
pub fn generate_jti() -> (r: String)
    ensures
        exists|b: Seq<u8>| b.len() == 16 && r@ == hex_of(b),
{
    let bytes = random_bytes();
    encode(bytes.as_slice())
}

impl Claims {
    /// The claims of a token for `sub` issued at `now` that lives
    /// `lifetime_secs` seconds.
    pub fn issue(
        sub: String,
        email: String,
        token_type: TokenType,
        now: i64,
        lifetime_secs: i64,
        jti: String,
    ) -> (r: Self)
        requires
            i64::MIN <= now + lifetime_secs <= i64::MAX,
        ensures
            r.sub == sub,
            r.email == email,
            r.token_type == token_type,
            r.iat == now,
            r.exp == now + lifetime_secs,
            r.jti == jti,
    {
        Claims { sub, email, token_type, exp: now + lifetime_secs, iat: now, jti }
    }

    /// Whether the claims are of the expected kind.
    pub fn is_of_type(&self, expected: TokenType) -> (r: bool)
        ensures
            r == (self.token_type == expected),
    {
        self.token_type == expected
    }
}

impl TokenPair {
    /// A bearer token pair for an access token that expires after
    /// `expires_in` seconds.
    pub fn bearer(access_token: String, expires_in: i64) -> (r: Self)
        ensures
            r.access_token == access_token,
            r.token_type@ == "Bearer"@,
            r.expires_in == expires_in,
    {
        TokenPair { access_token, token_type: String::from_str("Bearer"), expires_in }
    }
}

/// What `uuid::Uuid::parse_str` accepts.
pub uninterp spec fn uuid_text(s: Seq<char>) -> bool;

/// Relies on `uuid::Uuid::parse_str`: whether the text is a UUID in one of
/// its written forms, a function of the text; the empty text is none.
#[verifier::external_body]
fn is_uuid(s: &str) -> (r: bool)
    ensures
        r == uuid_text(s@),
        s@.len() == 0 ==> !r,
{
    uuid::Uuid::parse_str(s).is_ok()
}

/// The header starts with the `Bearer ` scheme, in any ASCII case, and has
/// something after it.
pub open spec fn bearer_scheme(h: Seq<char>) -> bool {
    let lower = seq!['b', 'e', 'a', 'r', 'e', 'r', ' '];
    let upper = seq!['B', 'E', 'A', 'R', 'E', 'R', ' '];
    h.len() > 7 && forall|i: int| 0 <= i < 7 ==> #[trigger] h[i] == lower[i] || h[i] == upper[i]
}

/// The token of an `Authorization` header of the `Bearer` scheme: what
/// follows the scheme; none for any other header.
pub fn bearer_token(header: &str) -> (r: Option<&str>)
    ensures
        r.is_some() == bearer_scheme(header@),
        r.is_some() ==> r.unwrap()@ == header@.subrange(7, header@.len() as int),
{
    let lower = "bearer ";
    let upper = "BEARER ";
    proof {
        reveal_strlit("bearer ");
        reveal_strlit("BEARER ");
    }
    let n = header.unicode_len();
    if n <= 7 {
        return None;
    }
    let mut i: usize = 0;
    while i < 7
        invariant
            n == header@.len(),
            n > 7,
            i <= 7,
            lower@ == seq!['b', 'e', 'a', 'r', 'e', 'r', ' '],
            upper@ == seq!['B', 'E', 'A', 'R', 'E', 'R', ' '],
            forall|j: int| 0 <= j < i ==> #[trigger] header@[j] == lower@[j] || header@[j] == upper@[j],
        decreases 7 - i,
    {
        let c = header.get_char(i);
        if c != lower.get_char(i) && c != upper.get_char(i) {
            return None;
        }
        i = i + 1;
    }
    Some(header.substring_char(7, n))
}

/// Why a decoded token is refused.
#[derive(Debug, Clone, Copy, PartialEq, Eq)]
pub enum TokenRejection {
    /// The token is of the other kind.
    WrongType,
    /// The subject is not a user id.
    InvalidSubject,
}

impl Claims {
    /// Checks decoded claims for an access token: of the access kind, with
    /// a UUID for subject.
    pub fn check_access(&self) -> (r: Result<(), TokenRejection>)
        ensures
            r == if self.token_type != TokenType::Access {
                Err(TokenRejection::WrongType)
            } else if !uuid_text(self.sub@) {
                Err(TokenRejection::InvalidSubject)
            } else {
                Ok(())
            },
    {
        if !self.is_of_type(TokenType::Access) {
            Err(TokenRejection::WrongType)
        } else if !is_uuid(self.sub.as_str()) {
            Err(TokenRejection::InvalidSubject)
        } else {
            Ok(())
        }
    }

    /// Checks decoded claims for a refresh token: of the refresh kind.
    pub fn check_refresh(&self) -> (r: Result<(), TokenRejection>)
        ensures
            r == if self.token_type != TokenType::Refresh {
                Err(TokenRejection::WrongType)
            } else {
                Ok(())
            },
    {
        if !self.is_of_type(TokenType::Refresh) {
            Err(TokenRejection::WrongType)
        } else {
            Ok(())
        }
    }
}

} // verus!
