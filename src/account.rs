//! Account input rules: e-mail normalisation, password strength and the
//! validation of registration and login requests.
use vstd::prelude::*;

verus! {

/// A character with the Unicode `White_Space` property.
pub open spec fn white_space(c: char) -> bool {
    ('\u{9}' <= c <= '\u{d}') || c == ' ' || c == '\u{85}' || c == '\u{a0}' || c == '\u{1680}' || (
    '\u{2000}' <= c <= '\u{200a}') || c == '\u{2028}' || c == '\u{2029}' || c == '\u{202f}' || c
        == '\u{205f}' || c == '\u{3000}'
}

/// The text without its leading whitespace.
pub open spec fn strip_leading(s: Seq<char>) -> Seq<char>
    decreases s.len(),
{
    if s.len() > 0 && white_space(s[0]) {
        strip_leading(s.drop_first())
    } else {
        s
    }
}

/// The text without its trailing whitespace.
pub open spec fn strip_trailing(s: Seq<char>) -> Seq<char>
    decreases s.len(),
{
    if s.len() > 0 && white_space(s.last()) {
        strip_trailing(s.drop_last())
    } else {
        s
    }
}

/// The text without leading and trailing whitespace.
pub open spec fn trimmed(s: Seq<char>) -> Seq<char> {
    strip_trailing(strip_leading(s))
}

/// What `str::to_lowercase` returns.
pub uninterp spec fn lower_of(s: Seq<char>) -> Seq<char>;

/// What `char::is_uppercase` returns.
pub uninterp spec fn upper_char(c: char) -> bool;

/// What `char::is_lowercase` returns.
pub uninterp spec fn lower_char(c: char) -> bool;

/// What `char::is_alphanumeric` returns.
pub uninterp spec fn alnum_char(c: char) -> bool;

/// What the `validator` crate's e-mail check returns.
pub uninterp spec fn email_valid(s: Seq<char>) -> bool;

/// Relies on `str::trim`: the text without leading and trailing whitespace
/// (characters with the Unicode `White_Space` property).
#[verifier::external_body]
fn trim_text(s: &str) -> (r: &str)
    ensures
        r@ == trimmed(s@),
{
    s.trim()
}

/// Relies on `str::to_lowercase`: the lower-case form depends on the
/// characters alone; an empty text stays empty.
#[verifier::external_body]
fn lowercase_text(s: &str) -> (r: String)
    ensures
        r@ == lower_of(s@),
        s@.len() == 0 ==> r@.len() == 0,
{
    s.to_lowercase()
}

/// Relies on `char::is_uppercase` (the Unicode `Uppercase` property).
#[verifier::external_body]
fn is_upper(c: char) -> (r: bool)
    ensures
        r == upper_char(c),
{
    c.is_uppercase()
}

/// Relies on `char::is_lowercase` (the Unicode `Lowercase` property).
#[verifier::external_body]
fn is_lower(c: char) -> (r: bool)
    ensures
        r == lower_char(c),
{
    c.is_lowercase()
}

/// Relies on `char::is_alphanumeric` (alphabetic or numeric in Unicode).
#[verifier::external_body]
fn is_alnum(c: char) -> (r: bool)
    ensures
        r == alnum_char(c),
{
    c.is_alphanumeric()
}

/// Relies on `validator::ValidateEmail::validate_email` for `&str`: a
/// function of the text alone, false for an empty text and for a text
/// without `@`.
#[verifier::external_body]
fn email_check(s: &str) -> (r: bool)
    ensures
        r == email_valid(s@),
        s@.len() == 0 ==> !r,
        !s@.contains('@') ==> !r,
{
    validator::ValidateEmail::validate_email(&s)
}

/// An e-mail address in the form it is stored and looked up: trimmed,
/// then lower-cased.
pub fn normalize_email(email: &str) -> (r: String)
    ensures
        r@ == lower_of(trimmed(email@)),
{
    lowercase_text(trim_text(email))
}

/// What a password lacks.
#[derive(Debug, Clone, Copy, PartialEq, Eq)]
pub enum PasswordError {
    MissingUppercase,
    MissingLowercase,
    MissingDigit,
    MissingSpecial,
}

/// `c` is an ASCII digit.
pub open spec fn ascii_digit(c: char) -> bool {
    '0' <= c <= '9'
}

/// Some character is upper case.
pub open spec fn has_upper(s: Seq<char>) -> bool {
    exists|i: int| 0 <= i < s.len() && upper_char(#[trigger] s[i])
}

/// Some character is lower case.
pub open spec fn has_lower(s: Seq<char>) -> bool {
    exists|i: int| 0 <= i < s.len() && lower_char(#[trigger] s[i])
}

/// Some character is an ASCII digit.
pub open spec fn has_digit(s: Seq<char>) -> bool {
    exists|i: int| 0 <= i < s.len() && ascii_digit(#[trigger] s[i])
}

/// Some character is neither a letter nor a numeral.
pub open spec fn has_special(s: Seq<char>) -> bool {
    exists|i: int| 0 <= i < s.len() && !alnum_char(#[trigger] s[i])
}

/// The first rule that the password breaks, in the order upper case,
/// lower case, digit, special character; none when it keeps all four.
pub open spec fn password_verdict(s: Seq<char>) -> Result<(), PasswordError> {
    if !has_upper(s) {
        Err(PasswordError::MissingUppercase)
    } else if !has_lower(s) {
        Err(PasswordError::MissingLowercase)
    } else if !has_digit(s) {
        Err(PasswordError::MissingDigit)
    } else if !has_special(s) {
        Err(PasswordError::MissingSpecial)
    } else {
        Ok(())
    }
}

/// Checks that a password holds an upper-case letter, a lower-case letter,
/// an ASCII digit and a character that is not alphanumeric.
pub fn validate_password_strength(password: &str) -> (r: Result<(), PasswordError>)
    ensures
        r == password_verdict(password@),
{
    let n = password.unicode_len();
    let mut upper = false;
    let mut lower = false;
    let mut digit = false;
    let mut special = false;
    let mut i: usize = 0;
    while i < n
        invariant
            n == password@.len(),
            i <= n,
            upper == exists|j: int| 0 <= j < i && upper_char(#[trigger] password@[j]),
            lower == exists|j: int| 0 <= j < i && lower_char(#[trigger] password@[j]),
            digit == exists|j: int| 0 <= j < i && ascii_digit(#[trigger] password@[j]),
            special == exists|j: int| 0 <= j < i && !alnum_char(#[trigger] password@[j]),
        decreases n - i,
    {
        let c = password.get_char(i);
        if is_upper(c) {
            upper = true;
        }
        if is_lower(c) {
            lower = true;
        }
        if '0' <= c && c <= '9' {
            digit = true;
        }
        if !is_alnum(c) {
            special = true;
        }
        i = i + 1;
    }
    if !upper {
        Err(PasswordError::MissingUppercase)
    } else if !lower {
        Err(PasswordError::MissingLowercase)
    } else if !digit {
        Err(PasswordError::MissingDigit)
    } else if !special {
        Err(PasswordError::MissingSpecial)
    } else {
        Ok(())
    }
}

/// Why a request was rejected.
#[derive(Debug, Clone, Copy, PartialEq, Eq)]
pub enum RequestError {
    InvalidEmail,
    EmailTooLong,
    PasswordLength,
    WeakPassword(PasswordError),
    PasswordTooLong,
}

/// A registration request.
#[derive(Debug, Clone)]
pub struct RegisterRequest {
    pub email: String,
    pub password: String,
}

/// A login request.
#[derive(Debug, Clone)]
pub struct LoginRequest {
    pub email: String,
    pub password: String,
}

/// A refresh request; the token travels in a cookie, not in the body.
#[derive(Debug, Clone, Copy, PartialEq, Eq)]
pub struct RefreshRequest {}

/// The verdict on an e-mail field: well formed and at most 255 characters.
pub open spec fn email_verdict(e: Seq<char>) -> Result<(), RequestError> {
    if !email_valid(e) {
        Err(RequestError::InvalidEmail)
    } else if e.len() > 255 {
        Err(RequestError::EmailTooLong)
    } else {
        Ok(())
    }
}

/// The verdict on a registration: the e-mail's, then a password of 8 to
/// 128 characters, then its strength.
pub open spec fn register_verdict(e: Seq<char>, p: Seq<char>) -> Result<(), RequestError> {
    if email_verdict(e).is_err() {
        email_verdict(e)
    } else if p.len() < 8 || p.len() > 128 {
        Err(RequestError::PasswordLength)
    } else {
        match password_verdict(p) {
            Ok(()) => Ok(()),
            Err(w) => Err(RequestError::WeakPassword(w)),
        }
    }
}

/// The verdict on a login: the e-mail's, then a password of at most 128
/// characters.
pub open spec fn login_verdict(e: Seq<char>, p: Seq<char>) -> Result<(), RequestError> {
    if email_verdict(e).is_err() {
        email_verdict(e)
    } else if p.len() > 128 {
        Err(RequestError::PasswordTooLong)
    } else {
        Ok(())
    }
}

fn check_email(email: &String) -> (r: Result<(), RequestError>)
    ensures
        r == email_verdict(email@),
{
    let e = email.as_str();
    if !email_check(e) {
        Err(RequestError::InvalidEmail)
    } else if e.unicode_len() > 255 {
        Err(RequestError::EmailTooLong)
    } else {
        Ok(())
    }
}

impl RegisterRequest {
    /// Checks the request's fields.
    pub fn validate(&self) -> (r: Result<(), RequestError>)
        ensures
            r == register_verdict(self.email@, self.password@),
    {
        match check_email(&self.email) {
            Err(e) => Err(e),
            Ok(()) => {
                let n = self.password.as_str().unicode_len();
                if n < 8 || n > 128 {
                    Err(RequestError::PasswordLength)
                } else {
                    match validate_password_strength(self.password.as_str()) {
                        Ok(()) => Ok(()),
                        Err(w) => Err(RequestError::WeakPassword(w)),
                    }
                }
            },
        }
    }
}

impl LoginRequest {
    /// Checks the request's fields.
    pub fn validate(&self) -> (r: Result<(), RequestError>)
        ensures
            r == login_verdict(self.email@, self.password@),
    {
        match check_email(&self.email) {
            Err(e) => Err(e),
            Ok(()) => {
                if self.password.as_str().unicode_len() > 128 {
                    Err(RequestError::PasswordTooLong)
                } else {
                    Ok(())
                }
            },
        }
    }
}

/// Failed logins after which an account locks.
pub const MAX_FAILED_ATTEMPTS: i32 = 5;

/// How long a lock lasts, in seconds (fifteen minutes).
pub const LOCKOUT_SECS: i64 = 15 * 60;

/// The login-failure state of an account.
#[derive(Debug, Clone, Copy, PartialEq, Eq)]
pub struct LoginGuard {
    pub failed_attempts: i32,
    /// End of the lock, in seconds since the epoch, if one was set.
    pub locked_until: Option<i64>,
}

impl LoginGuard {
    /// The account refuses logins at `now`: a lock is set and has not ended.
    pub fn is_locked(&self, now: i64) -> (r: bool)
        ensures
            r == match self.locked_until {
                Some(t) => now < t,
                None => false,
            },
    {
        match self.locked_until {
            Some(t) => now < t,
            None => false,
        }
    }

    /// The state after a failed login at `now`: one more failure; from the
    /// fifth on, the account locks for fifteen minutes.
    pub fn after_failure(&self, now: i64) -> (r: Self)
        requires
            self.failed_attempts < i32::MAX,
            now + 900 <= i64::MAX,
        ensures
            r.failed_attempts == self.failed_attempts + 1,
            r.locked_until == if self.failed_attempts + 1 >= 5 {
                Some((now + 900) as i64)
            } else {
                self.locked_until
            },
    {
        let attempts = self.failed_attempts + 1;
        if attempts >= MAX_FAILED_ATTEMPTS {
            LoginGuard { failed_attempts: attempts, locked_until: Some(now + LOCKOUT_SECS) }
        } else {
            LoginGuard { failed_attempts: attempts, locked_until: self.locked_until }
        }
    }

    /// The state after a successful login: no failures, no lock.
    pub fn after_success(&self) -> (r: Self)
        ensures
            r.failed_attempts == 0,
            r.locked_until.is_none(),
    {
        LoginGuard { failed_attempts: 0, locked_until: None }
    }
}

} // verus!
