use trading_journal::auth::{
    bearer_token, subject_user_id, validate_login, validate_registration, Claims,
    CreateUserRequest, LoginRequest,
};
use trading_journal::config::Config;
use trading_journal::error::AppError;
use trading_journal::subscription::{
    StripePriceIds, SubscriptionInterval, SubscriptionStatus, SubscriptionTier,
};
use trading_journal::webhook::{subscription_change, webhook_action, WebhookAction, WebhookEvent};

fn config(secret: &str, hours: i64) -> Config {
    Config {
        database_url: "postgres://localhost/journal".to_string(),
        jwt_secret: secret.to_string(),
        jwt_expiration_hours: hours,
        server_host: "127.0.0.1".to_string(),
        server_port: 3000,
        stripe_secret_key: String::new(),
        stripe_webhook_secret: String::new(),
    }
}

fn signup(name: &str, email: &str, password: &str) -> CreateUserRequest {
    CreateUserRequest { name: name.to_string(), email: email.to_string(), password: password.to_string() }
}

fn validation_message(r: Result<(), AppError>) -> String {
    match r {
        Err(AppError::ValidationError(m)) => m,
        other => panic!("expected a validation error, got {:?}", other),
    }
}

#[test]
fn tier_texts() {
    assert_eq!(SubscriptionTier::Free.as_str(), "none");
    assert_eq!(SubscriptionTier::Paid.as_str(), "paid");
    assert_eq!(SubscriptionTier::from("paid".to_string()), SubscriptionTier::Paid);
    assert_eq!(SubscriptionTier::from("gold".to_string()), SubscriptionTier::Free);
}

#[test]
fn interval_texts_and_prices() {
    assert_eq!(SubscriptionInterval::Month6.as_str(), "month_6");
    assert_eq!(SubscriptionInterval::from("year".to_string()), SubscriptionInterval::Year);
    assert_eq!(SubscriptionInterval::from("month_6".to_string()), SubscriptionInterval::Month6);
    assert_eq!(SubscriptionInterval::from("weekly".to_string()), SubscriptionInterval::Month);
    assert_eq!(SubscriptionInterval::Month.price_cents(), 700);
    assert_eq!(SubscriptionInterval::Month6.price_cents(), 3000);
    assert_eq!(SubscriptionInterval::Year.price_cents(), 4800);
    assert_eq!(SubscriptionInterval::Month6.monthly_price_cents(), 500);
    assert_eq!(SubscriptionInterval::Year.monthly_price_cents(), 400);
    assert_eq!(SubscriptionInterval::Month.savings_percentage(), 0);
    assert_eq!(SubscriptionInterval::Month6.savings_percentage(), 29);
    assert_eq!(SubscriptionInterval::Year.savings_percentage(), 43);
}

#[test]
fn status_texts() {
    assert_eq!(SubscriptionStatus::PastDue.as_str(), "past_due");
    assert_eq!(SubscriptionStatus::Inactive.as_str(), "none");
    assert_eq!(SubscriptionStatus::from("trialing".to_string()), SubscriptionStatus::Trialing);
    assert_eq!(SubscriptionStatus::from("canceled".to_string()), SubscriptionStatus::Canceled);
    assert_eq!(SubscriptionStatus::from("unknown".to_string()), SubscriptionStatus::Inactive);
}

#[test]
fn price_ids_per_interval() {
    let ids = StripePriceIds::placeholder();
    assert_eq!(ids.get_price_id(&SubscriptionInterval::Month), "price_1month_placeholder");
    assert_eq!(ids.get_price_id(&SubscriptionInterval::Month6), "price_6month_placeholder");
    assert_eq!(ids.get_price_id(&SubscriptionInterval::Year), "price_year_placeholder");
}

#[test]
fn config_validation() {
    let long_secret = "0123456789abcdef0123456789abcdef";
    assert!(config(long_secret, 24).validate().is_ok());
    assert_eq!(
        config("short", 24).validate().unwrap_err(),
        "JWT_SECRET must be at least 32 characters long"
    );
    assert_eq!(
        config(long_secret, 0).validate().unwrap_err(),
        "JWT_EXPIRATION_HOURS must be at least 1"
    );
}

#[test]
fn registration_checks_in_order() {
    assert!(validate_registration(&signup("Ann", "ann@example.com", "password1")).is_ok());
    assert_eq!(validation_message(validate_registration(&signup("   ", "x", "y"))), "Name cannot be empty");
    assert_eq!(
        validation_message(validate_registration(&signup("Ann", "ann.example.com", "password1"))),
        "Invalid email address"
    );
    assert_eq!(
        validation_message(validate_registration(&signup("Ann", "  ", "password1"))),
        "Invalid email address"
    );
    assert_eq!(
        validation_message(validate_registration(&signup("Ann", "ann@example.com", "short"))),
        "Password must be at least 8 characters"
    );
}

#[test]
fn login_checks_in_order() {
    let ok = LoginRequest { email: "a@b.c".to_string(), password: "x".to_string() };
    assert!(validate_login(&ok).is_ok());
    let blank = LoginRequest { email: " \t".to_string(), password: "x".to_string() };
    assert_eq!(validation_message(validate_login(&blank)), "Email cannot be empty");
    let empty = LoginRequest { email: "a@b.c".to_string(), password: String::new() };
    assert_eq!(validation_message(validate_login(&empty)), "Password cannot be empty");
}

#[test]
fn bearer_tokens() {
    assert_eq!(bearer_token(Some("Bearer abc.def")).unwrap(), "abc.def");
    assert!(matches!(bearer_token(None), Err(AppError::Unauthorized)));
    assert!(matches!(bearer_token(Some("Basic abc")), Err(AppError::InvalidToken)));
    assert!(matches!(bearer_token(Some("Bear")), Err(AppError::InvalidToken)));
}

#[test]
fn claims_expire_after_the_given_hours() {
    let c = Claims::new("u".to_string(), "e@x".to_string(), 1_000, 24).unwrap();
    assert_eq!(c.iat, 1_000);
    assert_eq!(c.exp, 1_000 + 24 * 3600);
    assert!(Claims::new("u".to_string(), "e@x".to_string(), i64::MAX - 10, 1).is_none());
}

#[test]
fn token_subject_must_be_a_uuid() {
    let good = Claims::new("67e55044-10b1-426f-9247-bb680e5fe0c8".to_string(), "e".to_string(), 0, 1).unwrap();
    assert_eq!(subject_user_id(&good).unwrap(), 0x67e5504410b1426f9247bb680e5fe0c8);
    let bad = Claims::new("not-a-uuid".to_string(), "e".to_string(), 0, 1).unwrap();
    assert!(matches!(subject_user_id(&bad), Err(AppError::InvalidToken)));
}

#[test]
fn error_responses() {
    let e = AppError::ValidationError("Trade not found".to_string());
    assert_eq!(e.status_code(), 400);
    assert_eq!(e.error_label(), "Validation error");
    assert_eq!(e.details(), Some("Trade not found".to_string()));
    assert_eq!(AppError::InvalidCredentials.status_code(), 401);
    assert_eq!(AppError::InvalidCredentials.details(), Some("Email or password is incorrect".to_string()));
    assert_eq!(AppError::UserAlreadyExists.status_code(), 409);
    assert_eq!(AppError::UserNotFound.status_code(), 404);
    assert_eq!(AppError::UserNotFound.details(), None);
    let internal = AppError::InternalServerError("boom".to_string());
    assert_eq!(internal.status_code(), 500);
    assert_eq!(internal.error_label(), "Internal server error");
    assert_eq!(internal.details(), None);
    assert!(matches!(AppError::token_rejected(true), AppError::TokenExpired));
    assert!(matches!(AppError::token_rejected(false), AppError::InvalidToken));
}

#[test]
fn webhook_events_become_subscription_changes() {
    let created = webhook_action(WebhookEvent::CheckoutSessionCompleted {
        customer_id: Some("cus_1".to_string()),
        subscription_id: Some("sub_1".to_string()),
    });
    let change = subscription_change(created).unwrap();
    assert_eq!(change.customer_id, "cus_1");
    assert_eq!(change.status, "active");
    assert_eq!(change.tier, "paid");
    assert_eq!(change.interval, Some("month".to_string()));

    let updated = webhook_action(WebhookEvent::SubscriptionUpdated {
        customer_id: "cus_2".to_string(),
        status: "past_due".to_string(),
    });
    let change = subscription_change(updated).unwrap();
    assert_eq!(change.status, "past_due");
    assert_eq!(change.tier, "paid");
    assert_eq!(change.interval, None);

    let deleted = webhook_action(WebhookEvent::SubscriptionDeleted { customer_id: "cus_3".to_string() });
    let change = subscription_change(deleted).unwrap();
    assert_eq!(change.status, "canceled");
    assert_eq!(change.tier, "none");

    assert!(matches!(webhook_action(WebhookEvent::Other), WebhookAction::Ignored));
    assert!(subscription_change(WebhookAction::Ignored).is_none());
    let anonymous = WebhookAction::SubscriptionCreated { customer_id: None, subscription_id: None };
    assert!(subscription_change(anonymous).is_none());
}

#[test]
fn issued_claims_expire_after_the_given_hours() {
    let c = trading_journal::auth::issue_claims("u".to_string(), "e@x".to_string(), 2).unwrap();
    assert_eq!(c.exp - c.iat, 7200);
    assert!(c.iat > 1_600_000_000);
}
