use meal_core::inventory::{average_rating, expiry_status, remaining_after_cooking};
use meal_core::account::{
    LoginGuard,
    normalize_email, validate_password_strength, LoginRequest, PasswordError, RegisterRequest,
    RequestError,
};
use meal_core::config::{check_jwt_secret, ConfigError, RateLimitConfig, Settings};
use meal_core::models::{
    page_number, page_size, total_pages, FavouriteResponse, FieldError, PaginatedResponse, RateRecipeRequest,
    ScaleRequest, UpdateProfileRequest,
};
use meal_core::signal::PreferenceSignal;
use meal_core::token::{bearer_token, encode, generate_jti, Claims, TokenPair, TokenRejection, TokenType};

#[test]
fn test_password_validation() {
    // Valid password
    assert!(validate_password_strength("SecurePass123!").is_ok());

    // Missing uppercase
    assert!(validate_password_strength("securepass123!").is_err());

    // Missing lowercase
    assert!(validate_password_strength("SECUREPASS123!").is_err());

    // Missing digit
    assert!(validate_password_strength("SecurePass!!!").is_err());

    // Missing special char
    assert!(validate_password_strength("SecurePass123").is_err());
}

#[test]
fn test_email_normalization() {
    assert_eq!(normalize_email("  Test@Example.COM  "), "test@example.com");
}

#[test]
fn password_errors_name_the_first_missing_class() {
    assert_eq!(validate_password_strength("securepass123!"), Err(PasswordError::MissingUppercase));
    assert_eq!(validate_password_strength("SECUREPASS123!"), Err(PasswordError::MissingLowercase));
    assert_eq!(validate_password_strength("SecurePass!!!"), Err(PasswordError::MissingDigit));
    assert_eq!(validate_password_strength("SecurePass123"), Err(PasswordError::MissingSpecial));
    assert_eq!(validate_password_strength(""), Err(PasswordError::MissingUppercase));
    assert_eq!(validate_password_strength("Ärger1ß "), Ok(()));
}

#[test]
fn registration_rules() {
    let ok = RegisterRequest { email: "a@example.com".to_string(), password: "SecurePass123!".to_string() };
    assert_eq!(ok.validate(), Ok(()));
    let bad_email = RegisterRequest { email: "nope".to_string(), password: "SecurePass123!".to_string() };
    assert_eq!(bad_email.validate(), Err(RequestError::InvalidEmail));
    let short = RegisterRequest { email: "a@example.com".to_string(), password: "Sp1!".to_string() };
    assert_eq!(short.validate(), Err(RequestError::PasswordLength));
    let weak = RegisterRequest { email: "a@example.com".to_string(), password: "securepass123!".to_string() };
    assert_eq!(weak.validate(), Err(RequestError::WeakPassword(PasswordError::MissingUppercase)));
    let long_email = format!("{}@{}com", "a".repeat(64), format!("{}.", "b".repeat(49)).repeat(4));
    assert_eq!(long_email.chars().count(), 268);
    let req = RegisterRequest { email: long_email, password: "SecurePass123!".to_string() };
    assert_eq!(req.validate(), Err(RequestError::EmailTooLong));
}

#[test]
fn login_rules() {
    let ok = LoginRequest { email: "a@example.com".to_string(), password: "x".to_string() };
    assert_eq!(ok.validate(), Ok(()));
    let long = LoginRequest { email: "a@example.com".to_string(), password: "x".repeat(129) };
    assert_eq!(long.validate(), Err(RequestError::PasswordTooLong));
    let bad = LoginRequest { email: "".to_string(), password: "x".to_string() };
    assert_eq!(bad.validate(), Err(RequestError::InvalidEmail));
}

#[test]
fn hex_encoding() {
    assert_eq!(encode(&[0x00, 0x0f, 0xa5, 0xff]), "000fa5ff");
    assert_eq!(encode(&[]), "");
    let jti = generate_jti();
    assert_eq!(jti.len(), 32);
    assert!(jti.chars().all(|c| c.is_ascii_hexdigit() && !c.is_ascii_uppercase()));
}

#[test]
fn claims_and_pairs() {
    let c = Claims::issue("u1".to_string(), "a@b.c".to_string(), TokenType::Access, 1_000, 900, "j".to_string());
    assert_eq!(c.exp, 1_900);
    assert_eq!(c.iat, 1_000);
    assert!(c.is_of_type(TokenType::Access));
    assert!(!c.is_of_type(TokenType::Refresh));
    let p = TokenPair::bearer("tok".to_string(), 900);
    assert_eq!(p.token_type, "Bearer");
    assert_eq!(p.expires_in, 900);
}

#[test]
fn config_checks() {
    assert!(check_jwt_secret(&"k".repeat(32)).is_ok());
    assert!(matches!(check_jwt_secret(&"k".repeat(31)), Err(ConfigError::InvalidValue(_))));
    assert_eq!(RateLimitConfig::default().requests_per_minute, 60);
    assert_eq!(RateLimitConfig::strict().quota_per_minute(), 10);
    assert_eq!(RateLimitConfig::lenient().quota_per_minute(), 100);
    assert_eq!(RateLimitConfig { requests_per_minute: 0 }.quota_per_minute(), 60);
}

#[test]
fn request_field_rules() {
    let r = RateRecipeRequest { rating: 5, comment: Some("great".to_string()) };
    assert!(r.validate().is_ok());
    assert_eq!(r.signal(), PreferenceSignal::Rated(5));
    assert_eq!(r.signal().value(), 1000);
    assert_eq!(RateRecipeRequest { rating: 0, comment: None }.validate(), Err(FieldError::OutOfRange("rating")));
    assert!(RateRecipeRequest { rating: 3, comment: Some("x".repeat(1001)) }.validate().is_err());
    let up = UpdateProfileRequest {
        name: Some("".to_string()),
        household_size: None,
        dietary_restrictions: None,
        allergies: None,
        avatar_url: None,
    };
    assert!(up.validate().is_err());
    let up = UpdateProfileRequest {
        name: Some("Sam".to_string()),
        household_size: Some(51),
        dietary_restrictions: None,
        allergies: None,
        avatar_url: None,
    };
    assert_eq!(up.validate(), Err(FieldError::OutOfRange("household_size")));
    assert!(ScaleRequest { servings: 100 }.validate().is_ok());
    assert!(ScaleRequest { servings: 0 }.validate().is_err());
}

#[test]
fn paging() {
    assert_eq!(page_number(None), 1);
    assert_eq!(page_number(Some(0)), 1);
    assert_eq!(page_number(Some(4)), 4);
    assert_eq!(page_size(None, 50), 20);
    assert_eq!(page_size(Some(80), 50), 50);
    assert_eq!(total_pages(101, 20), 6);
    assert_eq!(total_pages(100, 20), 5);
    assert_eq!(total_pages(0, 20), 0);
    assert_eq!(total_pages(0, 0), 0);
    assert_eq!(total_pages(3, 0), u64::MAX);
    let p = PaginatedResponse::new(vec![1, 2], 41, 1, 20);
    assert_eq!(p.total_pages, 3);
}

#[test]
fn login_lockout() {
    let g = LoginGuard { failed_attempts: 3, locked_until: None };
    let g = g.after_failure(1_000);
    assert_eq!(g, LoginGuard { failed_attempts: 4, locked_until: None });
    let g = g.after_failure(2_000);
    assert_eq!(g, LoginGuard { failed_attempts: 5, locked_until: Some(2_900) });
    assert!(g.is_locked(2_899));
    assert!(!g.is_locked(2_900));
    assert_eq!(g.after_success(), LoginGuard { failed_attempts: 0, locked_until: None });
}

#[test]
fn inventory_rules() {
    assert_eq!(expiry_status(Some(105), 100), (Some(5), true));
    assert_eq!(expiry_status(Some(106), 100), (Some(6), false));
    assert_eq!(expiry_status(Some(90), 100), (Some(-10), true));
    assert_eq!(expiry_status(None, 100), (None, false));
    // 200 g for 4 servings, 2 made: 100 g taken
    assert_eq!(remaining_after_cooking(150_000, 200_000, 2, 4), 50_000);
    assert_eq!(remaining_after_cooking(50_000, 200_000, 2, 4), 0);
    // zero recipe servings count as one
    assert_eq!(remaining_after_cooking(500_000, 100_000, 3, 0), 200_000);
    assert_eq!(average_rating(&vec![]), None);
    assert_eq!(average_rating(&vec![5, 4, 4]), Some(4_333));
    assert_eq!(average_rating(&vec![5, 4]), Some(4_500));
}

fn some(x: &str) -> Option<String> {
    Some(x.to_string())
}

#[test]
fn settings_defaults_and_errors() {
    let secret = some(&"k".repeat(32));
    let db = some("postgres://db");
    let s = Settings::from_values(&db, &secret, &None, &None, None, &None, None).unwrap();
    assert_eq!(s.jwt_access_expiry_seconds, 900);
    assert_eq!(s.jwt_refresh_expiry_seconds, 604_800);
    assert_eq!(s.port, 8080);
    assert_eq!(s.host, "127.0.0.1");
    assert_eq!(s.cors_origin, "http://localhost:3000");
    let s = Settings::from_values(&db, &secret, &some("+60"), &some("-5"), some("0.0.0.0"), &some("443"), some("https://x"))
        .unwrap();
    assert_eq!((s.jwt_access_expiry_seconds, s.jwt_refresh_expiry_seconds, s.port), (60, -5, 443));
    assert_eq!(s.host, "0.0.0.0");
    assert_eq!(
        Settings::from_values(&None, &secret, &None, &None, None, &None, None),
        Err(ConfigError::Missing("DATABASE_URL"))
    );
    assert_eq!(
        Settings::from_values(&db, &None, &None, &None, None, &None, None),
        Err(ConfigError::Missing("JWT_SECRET"))
    );
    assert!(matches!(
        Settings::from_values(&db, &some("short"), &None, &None, None, &None, None),
        Err(ConfigError::InvalidValue(_))
    ));
    assert!(Settings::from_values(&db, &secret, &some(" 60"), &None, None, &None, None).is_err());
    assert!(Settings::from_values(&db, &secret, &None, &some("1e3"), None, &None, None).is_err());
    assert!(Settings::from_values(&db, &secret, &None, &None, None, &some("65536"), None).is_err());
    assert!(Settings::from_values(&db, &secret, &None, &None, None, &some("-1"), None).is_err());
    // a multi-byte secret counts its bytes
    assert!(check_jwt_secret(&"é".repeat(16)).is_ok());
}

#[test]
fn favourite_toggle() {
    let (r, sig) = FavouriteResponse::toggled(9, false);
    assert_eq!(r, FavouriteResponse { recipe_id: 9, is_favourited: true });
    assert_eq!(sig, Some(PreferenceSignal::Favourited));
    let (r, sig) = FavouriteResponse::toggled(9, true);
    assert!(!r.is_favourited);
    assert_eq!(sig, None);
}

#[test]
fn bearer_header_parsing() {
    assert_eq!(bearer_token("Bearer abc.def"), Some("abc.def"));
    assert_eq!(bearer_token("bEaReR x"), Some("x"));
    assert_eq!(bearer_token("Bearer "), None);
    assert_eq!(bearer_token("Basic abcdef"), None);
    assert_eq!(bearer_token(""), None);
    assert_eq!(bearer_token("Beärer token"), None);
}

#[test]
fn claim_checks() {
    let uid = "67e55044-10b1-426f-9247-bb680e5fe0c8".to_string();
    let access = Claims::issue(uid.clone(), "a@b.c".to_string(), TokenType::Access, 0, 900, "j".to_string());
    assert_eq!(access.check_access(), Ok(()));
    assert_eq!(access.check_refresh(), Err(TokenRejection::WrongType));
    let refresh = Claims::issue(uid, "a@b.c".to_string(), TokenType::Refresh, 0, 900, "j".to_string());
    assert_eq!(refresh.check_access(), Err(TokenRejection::WrongType));
    assert_eq!(refresh.check_refresh(), Ok(()));
    let odd = Claims::issue("user-7".to_string(), "a@b.c".to_string(), TokenType::Access, 0, 900, "j".to_string());
    assert_eq!(odd.check_access(), Err(TokenRejection::InvalidSubject));
}

#[test]
fn email_normalization_trims_unicode_whitespace() {
    assert_eq!(normalize_email("\u{3000}\tMe@Host.ORG\u{a0}\n"), "me@host.org");
    assert_eq!(normalize_email("   "), "");
}
