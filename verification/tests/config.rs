use stozher_kernel::codes::CALLER_UNAUTHENTICATED;
use stozher_kernel::config::{Config, DEFAULT_DECAY_INTERVAL_SECONDS};
use stozher_kernel::crypto::sha256_hex;
use stozher_kernel::json::{text, Json};

fn from_value(value: &serde_json::Value) -> Json {
    match value {
        serde_json::Value::Null => Json::Null,
        serde_json::Value::Bool(b) => Json::Bool(*b),
        serde_json::Value::Number(n) => match (n.as_u64(), n.as_i64()) {
            (Some(u), _) => Json::Unsigned(u),
            (None, Some(i)) => Json::Signed(i),
            (None, None) => Json::Number(n.to_string()),
        },
        serde_json::Value::String(s) => Json::Text(s.clone()),
        serde_json::Value::Array(items) => Json::List(items.iter().map(from_value).collect()),
        serde_json::Value::Object(members) => {
            Json::Record(members.iter().map(|(k, v)| (k.clone(), from_value(v))).collect())
        }
    }
}

fn json(text: &str) -> Json {
    from_value(&serde_json::from_str::<serde_json::Value>(text).unwrap())
}

fn key(byte: u8) -> String {
    format!("ed25519:{}", hex::encode([byte; 32]))
}

fn document() -> Json {
    json(&format!(
        "{{\"policy-key\":\"{}\",\"roots\":[{}],\"callers\":[{{\"subject\":\"agent:gateway\",\"token-sha256\":\"{}\"}}]}}",
        key(1),
        root("human:ivan"),
        sha256_hex("secret".as_bytes())
    ))
}

fn root(subject: &str) -> String {
    format!(
        "{{\"subject\":\"{subject}\",\"key\":\"{}\",\"enrolled-at\":\"2026-07-26T08:00:00.000Z\"}}",
        key(2)
    )
}

fn code(document: &Json) -> String {
    Config::parse(document).unwrap_err().code().to_owned()
}

#[test]
fn a_configured_token_resolves_to_its_subject() {
    let config = Config::parse(&document()).unwrap();
    assert_eq!(config.authenticate("secret").unwrap(), "agent:gateway");
    assert_eq!(config.authenticate("wrong").unwrap_err().code(), CALLER_UNAUTHENTICATED);
}

#[test]
fn a_deployment_that_says_nothing_about_decay_still_gets_it() {
    assert_eq!(
        Config::parse(&document()).unwrap().decay_interval_seconds,
        DEFAULT_DECAY_INTERVAL_SECONDS
    );
}

#[test]
fn a_decay_interval_is_a_duration_and_must_be_positive() {
    let with = |value: Json| document().with("decay-interval", value);
    assert_eq!(
        Config::parse(&with(text("PT6H"))).unwrap().decay_interval_seconds,
        6 * 60 * 60
    );
    assert_eq!(
        code(&with(text("-PT1H"))),
        "encoding-bad-duration",
        "a negative decay interval was accepted"
    );
    assert_eq!(
        code(&with(text("PT0S"))),
        "config-malformed",
        "a zero decay interval was accepted"
    );
    assert_eq!(
        code(&with(Json::Unsigned(3600))),
        "config-malformed",
        "a bare number was accepted where an ISO 8601 duration is required"
    );
}

#[test]
fn configuration_never_holds_a_token_in_the_clear() {
    let document = document().with(
        "callers",
        json("[{\"subject\":\"agent:gateway\",\"token-sha256\":\"secret\"}]"),
    );
    assert_eq!(code(&document), "config-malformed");
}

#[test]
fn a_root_must_be_a_named_human() {
    for subject in ["the-team", "human:"] {
        let document = document().with("roots", json(&format!("[{}]", root(subject))));
        assert_eq!(code(&document), "config-malformed");
    }
}

#[test]
fn a_notification_channel_names_the_variable_holding_its_secret_not_the_secret() {
    let named = document().with(
        "notifications",
        json(
            "[{\"channel\":\"slack\",\"webhook-url-env\":\"STOZHER_SLACK_WEBHOOK\"},\
             {\"channel\":\"webhook\",\"url-env\":\"STOZHER_WEBHOOK_URL\",\"token-env\":\"STOZHER_WEBHOOK_TOKEN\"},\
             {\"channel\":\"smtp\",\"host\":\"127.0.0.1\",\"port\":25,\"from\":\"stozher@acme.internal\",\
             \"to\":[\"ivan@acme.internal\"]}]",
        ),
    );
    let config = Config::parse(&named).unwrap();
    assert_eq!(config.notifications.len(), 3);

    let literal = document().with(
        "notifications",
        json("[{\"channel\":\"slack\",\"webhook-url\":\"https://hooks.slack.com/services/T/B/xoxb-secret\"}]"),
    );
    assert_eq!(code(&literal), "config-malformed");
}

#[test]
fn a_fourth_notification_channel_is_refused() {
    let document = document().with(
        "notifications",
        json("[{\"channel\":\"sms\",\"url-env\":\"STOZHER_SMS\"}]"),
    );
    let error = Config::parse(&document).unwrap_err();
    assert_eq!(error.code(), "config-malformed");
    assert!(error.detail().contains("slack, smtp, webhook"));
}

#[test]
fn unknown_members_are_refused_rather_than_ignored() {
    assert_eq!(code(&document().with("gate-bypass", Json::Bool(true))), "config-malformed");
}

#[test]
fn a_configuration_has_defaults_for_what_it_does_not_say() {
    let config = Config::parse(&document()).unwrap();
    assert_eq!(config.bind, "127.0.0.1:8787");
    assert_eq!(config.kernel_core_stream, "kernel:core");
    assert_eq!(config.max_future_skew_seconds, 300);
    assert_eq!(config.gate_rate_limit.per_subject, 30);
    assert_eq!(config.gate_rate_limit.window_seconds, 300);
    assert_eq!(code(&Json::Null), "config-malformed");
    assert_eq!(code(&document().without("policy-key")), "config-malformed");
    assert_eq!(code(&document().with("policy-key", text("ed25519:00"))), "key-id-malformed");
}
