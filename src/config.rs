//! Service settings that are checked before the service starts.
use vstd::prelude::*;

verus! {

/// The least length of the token-signing secret, in bytes (256 bits).
pub const MIN_JWT_SECRET_BYTES: usize = 32;

/// Why the configuration was refused.
#[derive(Debug, Clone, Copy, PartialEq, Eq)]
pub enum ConfigError {
    /// A required setting is absent; it carries the setting's name.
    Missing(&'static str),
    /// A setting has an unusable value; it carries the reason.
    InvalidValue(&'static str),
}

/// The length in bytes of a text's UTF-8 form, as `str::len` gives it.
pub open spec fn byte_len(s: Seq<char>) -> usize {
    vstd::utf8::encode_utf8(s).len() as usize
}

/// Checks that the token-signing secret holds at least 32 bytes.
pub fn check_jwt_secret(secret: &str) -> (r: Result<(), ConfigError>)
    ensures
        r.is_ok() == (byte_len(secret@) >= 32),
{
    if secret.len() < MIN_JWT_SECRET_BYTES {
        Err(ConfigError::InvalidValue("JWT_SECRET must be at least 32 characters (256 bits)"))
    } else {
        Ok(())
    }
}

/// The decimal value of a text of ASCII digits.
pub open spec fn digits_value(s: Seq<char>) -> int
    decreases s.len(),
{
    if s.len() == 0 {
        0
    } else {
        digits_value(s.drop_last()) * 10 + (s.last() as int - '0' as int)
    }
}

/// The text is one or more ASCII digits.
pub open spec fn all_digits(s: Seq<char>) -> bool {
    s.len() > 0 && forall|i: int| 0 <= i < s.len() ==> '0' <= #[trigger] s[i] <= '9'
}

/// The integer that a text writes in the form `str::parse` accepts for a
/// signed type: an optional `+` or `-`, then one or more ASCII digits.
pub open spec fn signed_text_value(s: Seq<char>) -> Option<int> {
    if s.len() > 0 && s[0] == '-' && all_digits(s.drop_first()) {
        Some(-digits_value(s.drop_first()))
    } else if s.len() > 0 && s[0] == '+' && all_digits(s.drop_first()) {
        Some(digits_value(s.drop_first()))
    } else if all_digits(s) {
        Some(digits_value(s))
    } else {
        None
    }
}

/// The integer that a text writes in the form `str::parse` accepts for an
/// unsigned type: an optional `+`, then one or more ASCII digits.
pub open spec fn unsigned_text_value(s: Seq<char>) -> Option<int> {
    if s.len() > 0 && s[0] == '+' && all_digits(s.drop_first()) {
        Some(digits_value(s.drop_first()))
    } else if all_digits(s) {
        Some(digits_value(s))
    } else {
        None
    }
}

/// Relies on `str::parse::<i64>`: an optional sign and decimal digits, no
/// whitespace, within the range of `i64`.
#[verifier::external_body]
fn parse_i64(s: &str) -> (r: Option<i64>)
    ensures
        r.is_some() == (signed_text_value(s@).is_some() && i64::MIN <= signed_text_value(
            s@,
        ).unwrap() <= i64::MAX),
        r.is_some() ==> r.unwrap() == signed_text_value(s@).unwrap(),
{
    s.parse::<i64>().ok()
}

/// Relies on `str::parse::<u16>`: an optional `+` and decimal digits, no
/// whitespace, within the range of `u16`.
#[verifier::external_body]
fn parse_u16(s: &str) -> (r: Option<u16>)
    ensures
        r.is_some() == (unsigned_text_value(s@).is_some() && unsigned_text_value(s@).unwrap()
            <= u16::MAX),
        r.is_some() ==> r.unwrap() == unsigned_text_value(s@).unwrap(),
{
    s.parse::<u16>().ok()
}

/// The settings that the service reads at start, once checked.
#[derive(Debug, Clone, PartialEq, Eq)]
pub struct Settings {
    pub jwt_access_expiry_seconds: i64,
    pub jwt_refresh_expiry_seconds: i64,
    pub host: String,
    pub port: u16,
    pub cors_origin: String,
}

/// An optional setting read as `i64`, with a default when absent.
pub open spec fn i64_setting(v: Option<String>, default: int) -> Option<int> {
    match v {
        Some(t) => match signed_text_value(t@) {
            Some(n) => if i64::MIN <= n <= i64::MAX {
                Some(n)
            } else {
                None
            },
            None => None,
        },
        None => Some(default),
    }
}

/// An optional setting read as `u16`, with a default when absent.
pub open spec fn u16_setting(v: Option<String>, default: int) -> Option<int> {
    match v {
        Some(t) => match unsigned_text_value(t@) {
            Some(n) => if n <= u16::MAX {
                Some(n)
            } else {
                None
            },
            None => None,
        },
        None => Some(default),
    }
}

fn read_i64(v: &Option<String>, default: i64) -> (r: Option<i64>)
    ensures
        r.is_some() == i64_setting(*v, default as int).is_some(),
        r.is_some() ==> r.unwrap() == i64_setting(*v, default as int).unwrap(),
{
    match v {
        Some(t) => parse_i64(t.as_str()),
        None => Some(default),
    }
}

impl Settings {
    /// Checks the raw settings: the database address and the signing secret
    /// must be present and the secret at least 32 bytes long; the token
    /// lifetimes (default 900 and 604800 seconds) and the port (default
    /// 8080) must be numbers; the host defaults to `127.0.0.1` and the
    /// allowed origin to `http://localhost:3000`.
    pub fn from_values(
        database_url: &Option<String>,
        jwt_secret: &Option<String>,
        access_expiry: &Option<String>,
        refresh_expiry: &Option<String>,
        host: Option<String>,
        port: &Option<String>,
        cors_origin: Option<String>,
    ) -> (r: Result<Settings, ConfigError>)
        ensures
            r.is_ok() == (database_url.is_some() && jwt_secret.is_some() && byte_len(jwt_secret.unwrap()@)
                >= 32 && i64_setting(*access_expiry, 900).is_some() && i64_setting(
                *refresh_expiry,
                604800,
            ).is_some() && u16_setting(*port, 8080).is_some()),
            database_url.is_none() ==> r == Err::<Settings, ConfigError>(
                ConfigError::Missing("DATABASE_URL"),
            ),
            r.is_ok() ==> ({
                let s = r.unwrap();
                &&& s.jwt_access_expiry_seconds == i64_setting(*access_expiry, 900).unwrap()
                &&& s.jwt_refresh_expiry_seconds == i64_setting(*refresh_expiry, 604800).unwrap()
                &&& s.port == u16_setting(*port, 8080).unwrap()
                &&& s.host@ == match host {
                    Some(h) => h@,
                    None => "127.0.0.1"@,
                }
                &&& s.cors_origin@ == match cors_origin {
                    Some(c) => c@,
                    None => "http://localhost:3000"@,
                }
            }),
    {
        if database_url.is_none() {
            return Err(ConfigError::Missing("DATABASE_URL"));
        }
        let secret = match jwt_secret {
            Some(s) => s,
            None => {
                return Err(ConfigError::Missing("JWT_SECRET"));
            },
        };
        if let Err(e) = check_jwt_secret(secret.as_str()) {
            return Err(e);
        }
        let access = match read_i64(access_expiry, 900) {
            Some(n) => n,
            None => {
                return Err(ConfigError::InvalidValue("JWT_ACCESS_EXPIRY_SECONDS must be a number"));
            },
        };
        let refresh = match read_i64(refresh_expiry, 604800) {
            Some(n) => n,
            None => {
                return Err(ConfigError::InvalidValue("JWT_REFRESH_EXPIRY_SECONDS must be a number"));
            },
        };
        let port_number = match port {
            Some(t) => match parse_u16(t.as_str()) {
                Some(p) => p,
                None => {
                    return Err(ConfigError::InvalidValue("PORT must be a valid port number"));
                },
            },
            None => 8080,
        };
        let host = match host {
            Some(h) => h,
            None => String::from_str("127.0.0.1"),
        };
        let cors_origin = match cors_origin {
            Some(c) => c,
            None => String::from_str("http://localhost:3000"),
        };
        Ok(Settings {
            jwt_access_expiry_seconds: access,
            jwt_refresh_expiry_seconds: refresh,
            host,
            port: port_number,
            cors_origin,
        })
    }
}

/// Request-rate settings.
#[derive(Debug, Clone, Copy, PartialEq, Eq)]
pub struct RateLimitConfig {
    /// Requests allowed per minute.
    pub requests_per_minute: u32,
}

impl Default for RateLimitConfig {
    fn default() -> (r: Self)
        ensures
            r.requests_per_minute == 60,
    {
        RateLimitConfig { requests_per_minute: 60 }
    }
}

impl RateLimitConfig {
    /// The settings for authentication endpoints: 10 requests a minute.
    pub fn strict() -> (r: Self)
        ensures
            r.requests_per_minute == 10,
    {
        RateLimitConfig { requests_per_minute: 10 }
    }

    /// The settings for general endpoints: 100 requests a minute.
    pub fn lenient() -> (r: Self)
        ensures
            r.requests_per_minute == 100,
    {
        RateLimitConfig { requests_per_minute: 100 }
    }

    /// The quota to enforce: the configured rate, or 60 when it is zero.
    pub fn quota_per_minute(&self) -> (r: u32)
        ensures
            r == if self.requests_per_minute == 0 {
                60
            } else {
                self.requests_per_minute
            },
            r > 0,
    {
        if self.requests_per_minute == 0 {
            60
        } else {
            self.requests_per_minute
        }
    }
}

} // verus!
