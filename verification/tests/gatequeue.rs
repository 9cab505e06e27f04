use stozher_kernel::crypto::sha256_hex;
use stozher_kernel::error::Error;
use stozher_kernel::gatequeue::{
    check_arguments, check_decision, submission, validate, ARGUMENTS_HASH_MISMATCH, MEMBERS,
};
use stozher_kernel::json::{text, Json};
use stozher_kernel::keys::KeyId;
use stozher_kernel::vocabulary::VERSION;

fn from_value(value: &serde_json::Value) -> Json {
    match value {
        serde_json::Value::Null => Json::Null,
        serde_json::Value::Bool(b) => Json::Bool(*b),
        serde_json::Value::Number(n) => match (n.as_u64(), n.as_i64()) {
            (Some(u), _) => Json::Unsigned(u),
            (None, Some(i)) => Json::Signed(i),
            (None, None) => Json::Number(n.to_string()),
        },
        serde_json::Value::String(s) => Json::Text(s.clone()),
        serde_json::Value::Array(items) => Json::List(items.iter().map(from_value).collect()),
        serde_json::Value::Object(members) => {
            Json::Record(members.iter().map(|(k, v)| (k.clone(), from_value(v))).collect())
        }
    }
}

fn json(text: &str) -> Json {
    from_value(&serde_json::from_str::<serde_json::Value>(text).unwrap())
}

const AT: &str = "2026-07-26T09:00:00.000Z";

fn canonical(value: &Json) -> String {
    value.to_text()
}

fn hash_of(value: &Json) -> Result<String, Error> {
    Ok(sha256_hex(canonical(value).as_bytes()))
}

fn request() -> Json {
    json(&format!(
        "{{\"v\":\"{VERSION}\",\"kind\":\"action-request\",\"requested-at\":\"{AT}\",\
         \"subject\":\"agent:coding-assistant/ivan-mbp\",\"key\":\"ed25519:{}\",\"component\":\"gateway\",\
         \"mandate-ref\":\"{}\",\"policy-version\":\"2026.07.1\",\"classification\":\"consequential\",\
         \"action\":\"github.create_issue\",\"target\":\"repo:acme/backend\",\"args-hash\":\"{}\",\
         \"nonce\":\"{}\",\"not-after\":\"2026-07-26T10:00:00.000Z\"}}",
        "aa".repeat(32),
        "7c".repeat(32),
        "91".repeat(32),
        "0f".repeat(16)
    ))
}

fn refusal(value: &Json, at: &str) -> String {
    validate(value, at, &hash_of(value)).unwrap_err().code().to_owned()
}

#[test]
fn a_well_formed_request_validates_and_hashes_to_its_object_hash() {
    let value = request();
    let ok = validate(&value, AT, &hash_of(&value)).unwrap();
    assert_eq!(ok.request_hash, hash_of(&value).unwrap());
    assert_eq!(ok.action, "github.create_issue");
}

#[test]
fn an_unknown_member_is_refused_rather_than_ignored() {
    let value = request().with("approved", Json::Bool(true));
    assert_eq!(refusal(&value, AT), "schema-unknown-member");
}

#[test]
fn every_member_is_required() {
    for member in MEMBERS {
        let value = request().without(member);
        assert_eq!(refusal(&value, AT), "schema-missing-member", "{member} was not required");
    }
}

#[test]
fn a_short_nonce_is_refused_because_it_is_what_makes_two_requests_distinct() {
    let value = request().with("nonce", text("0f0f"));
    assert_eq!(refusal(&value, AT), "encoding-not-lowercase-hex");
}

#[test]
fn a_request_that_is_already_dead_never_enters_the_queue() {
    assert_eq!(refusal(&request(), "2026-07-26T11:00:00.000Z"), "gate-request-expired");
}

#[test]
fn a_submission_is_a_request_or_a_request_with_arguments() {
    let bare = request();
    let (alone, none) = submission(&bare).unwrap();
    assert!(alone.is_same(&bare));
    assert!(none.is_none());

    let wrapped = json("{}").with("request", request()).with("arguments", json("{\"a\":1}"));
    let (inner, arguments) = submission(&wrapped).unwrap();
    assert!(inner.is_same(&bare));
    assert!(arguments.unwrap().is_same(&json("{\"a\":1}")));

    let third = json("{}").with("request", request()).with("extra", Json::Null);
    assert_eq!(submission(&third).unwrap_err().code(), "schema-unknown-member");
    assert_eq!(submission(&Json::Null).unwrap_err().code(), "schema-type-mismatch");
    let wrong = json("{\"request\":1}");
    assert_eq!(submission(&wrong).unwrap_err().code(), "schema-type-mismatch");
}

#[test]
fn arguments_are_shown_only_where_they_are_what_was_committed_to() {
    let text = "{\"a\":1}".to_owned();
    let hash = sha256_hex(text.as_bytes());
    assert_eq!(hash, "015abd7f5cc57a2dd94b7590f04ad8084273905ee33ec5cebeae62276a97f862");
    assert_eq!(check_arguments(&Ok(text.clone()), &hash).unwrap(), text);
    assert_eq!(
        check_arguments(&Ok(text), &"0".repeat(64)).unwrap_err().code(),
        ARGUMENTS_HASH_MISMATCH
    );
    assert_eq!(
        check_arguments(&Ok("x".repeat(16_385)), &hash).unwrap_err().code(),
        "gate-arguments-too-large"
    );
}

fn decision(verdict: &str, reason: &str, hash: &str) -> Json {
    json(&format!(
        "{{\"kind\":\"gate-decision\",\"request-hash\":\"{hash}\",\"decision\":\"{verdict}\",\
         \"decided-at\":\"2026-07-26T09:30:00.000Z\",\"not-after\":\"2026-07-26T09:45:00.000Z\",\
         \"reason\":{reason}}}"
    ))
}

#[test]
fn a_decision_is_signed_by_another_answers_this_request_and_says_why_not() {
    let value = request();
    let queued = validate(&value, AT, &hash_of(&value)).unwrap();
    let hash = queued.request_hash.clone();
    let other = || KeyId::parse(&format!("ed25519:{}", "bb".repeat(32)));
    let checked = check_decision(&decision("approve", "null", &hash), &other(), &queued).unwrap();
    assert_eq!(checked.verdict, "approve");
    let remarked = check_decision(&decision("approve", "\"fine\"", &hash), &other(), &queued).unwrap();
    assert_eq!(remarked.reason, None);
    let denied = check_decision(&decision("deny", "\"no\"", &hash), &other(), &queued).unwrap();
    assert_eq!(denied.reason.as_deref(), Some("no"));
    assert_eq!(checked.decided_by.as_str(), other().unwrap().as_str());

    let code = |d: Json, signer: Result<KeyId, Error>| {
        check_decision(&d, &signer, &queued).unwrap_err().code().to_owned()
    };
    assert_eq!(
        code(decision("deny", "null", &hash), other()),
        "gate-denial-without-reason"
    );
    assert_eq!(code(decision("maybe", "null", &hash), other()), "gate-decision-unknown");
    assert_eq!(
        code(decision("approve", "null", &"0".repeat(64)), other()),
        "gate-authorization-request-hash-mismatch"
    );
    let own = KeyId::parse(&format!("ed25519:{}", "aa".repeat(32)));
    assert_eq!(code(decision("approve", "null", &hash), own), "gate-self-approval");
    let unsigned = Err(Error::new("sig-invalid", "no".to_owned()));
    assert_eq!(
        code(decision("approve", "null", &hash), unsigned),
        "gate-decision-sig-invalid"
    );
    let late = decision("approve", "null", &hash)
        .with("decided-at", text("2026-07-26T10:00:00.001Z"))
        .with("not-after", text("2026-07-26T11:00:00.000Z"));
    assert_eq!(code(late, other()), "gate-request-expired");
    let empty = decision("approve", "null", &hash).with("not-after", text("2026-07-26T09:30:00.000Z"));
    assert_eq!(code(empty, other()), "gate-approval-expired");
    let nameless = decision("approve", "null", &hash).with("kind", text("effect"));
    assert_eq!(code(nameless, other()), "envelope-unknown-kind");
}
