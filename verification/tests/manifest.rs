use stozher_kernel::error::Error;
use stozher_kernel::json::Json;
use stozher_kernel::keys::KeyId;
use stozher_kernel::manifest::{
    is_action_identifier, is_component_name, validate_durable_objects, Manifest,
};

fn from_value(value: &serde_json::Value) -> Json {
    match value {
        serde_json::Value::Null => Json::Null,
        serde_json::Value::Bool(b) => Json::Bool(*b),
        serde_json::Value::Number(n) => match (n.as_u64(), n.as_i64()) {
            (Some(u), _) => Json::Unsigned(u),
            (None, Some(i)) => Json::Signed(i),
            (None, None) => Json::Number(n.to_string()),
        },
        serde_json::Value::String(s) => Json::Text(s.clone()),
        serde_json::Value::Array(items) => Json::List(items.iter().map(from_value).collect()),
        serde_json::Value::Object(members) => {
            Json::Record(members.iter().map(|(k, v)| (k.clone(), from_value(v))).collect())
        }
    }
}

fn json(text: &str) -> Json {
    from_value(&serde_json::from_str::<serde_json::Value>(text).unwrap())
}

fn key(byte: u8) -> KeyId {
    KeyId::parse(&format!("ed25519:{}", hex::encode([byte; 32]))).unwrap()
}

fn manifest_document() -> Json {
    json(
        "{\"v\":\"stozher/0.1\",\"kind\":\"manifest\",\"name\":\"notes\",\"version\":\"1.0.0\",\
         \"subject-class\":\"executor\",\"actions\":[\
         {\"action\":\"notes.read\",\"class\":\"read\",\"evidence-schema\":\"notes.v1\",\"idempotent\":true,\
         \"target-kind\":\"note\",\"aggregate\":{\"max-samples\":2,\"sampling\":\"first\"}},\
         {\"action\":\"notes.delete\",\"class\":\"consequential\",\"evidence-schema\":\"notes.v1\",\
         \"idempotent\":false,\"target-kind\":\"note\"}],\
         \"evidence-schemas\":{\"notes.v1\":{\"additionalProperties\":false}},\
         \"budget-dimensions\":[\"requests\",\"money-eur\"],\
         \"durable-objects\":[{\"object-type\":\"note\",\"id-kind\":\"opaque\",\"transitions\":[\
         {\"transition\":\"create\",\"from\":[],\"to\":\"open\",\"signers\":[\"agent\",\"human\"]},\
         {\"transition\":\"close\",\"from\":[\"open\"],\"to\":\"closed\",\"signers\":[\"human\"]}]}],\
         \"conformance\":{\"self-test\":\"notes.self_test\",\"vectors-version\":\"1\"}}",
    )
}

fn manifest_of(document: &Json) -> Result<Manifest, Error> {
    Manifest::parse(document, &Ok(key(7)), &Ok("33".repeat(32)))
}

#[test]
fn action_identifiers_are_namespaced_by_the_manifest_name() {
    assert!(is_action_identifier("github", "github.create_issue"));
    assert!(!is_action_identifier("github", "githubx.create_issue"));
    assert!(!is_action_identifier("github", "slack.post_message"));
    assert!(!is_action_identifier("github", "github."));
    assert!(!is_action_identifier("github", "github.Create"));
}

#[test]
fn component_names_are_bounded_and_lowercase() {
    assert!(is_component_name("github"));
    assert!(is_component_name("svod-foundry"));
    assert!(!is_component_name("GitHub"));
    assert!(!is_component_name("g"));
    assert!(!is_component_name(&"g".repeat(33)));
}

fn code(document: &Json) -> String {
    manifest_of(document).unwrap_err().code().to_owned()
}

fn with_action(name: &str, value: &str) -> Json {
    let d = manifest_document();
    let mut actions: Vec<Json> = d.at("actions").as_list().unwrap().iter().map(Json::copy).collect();
    let first = actions.remove(0).with(name, json(value));
    actions.insert(0, first);
    d.with("actions", Json::List(actions))
}

#[test]
fn a_manifest_is_read_whole() {
    let m = manifest_of(&manifest_document()).unwrap();
    assert_eq!((m.name(), m.version()), ("notes", "1.0.0"));
    assert_eq!(m.hash(), "33".repeat(32));
    assert_eq!(m.component_key().as_str(), key(7).as_str());
    assert_eq!(m.proposed_class("notes.read"), Some("read"));
    assert_eq!(m.evidence_schema("notes.delete"), Some("notes.v1"));
    assert_eq!(m.proposed_class("notes.none"), None);
    assert!(m.document().is_same(&manifest_document()));
}

#[test]
fn each_defect_of_a_manifest_has_its_code() {
    let d = manifest_document;
    assert_eq!(code(&Json::Null), "manifest-malformed");
    assert_eq!(code(&d().with("extra", Json::Null)), "schema-unknown-member");
    assert_eq!(code(&d().without("actions")), "schema-missing-member");
    assert_eq!(code(&d().with("v", Json::Text("2".to_owned()))), "envelope-version-unsupported");
    assert_eq!(code(&d().with("kind", Json::Null)), "envelope-unknown-kind");
    assert_eq!(code(&d().with("name", Json::Null)), "schema-type-mismatch");
    assert_eq!(code(&d().with("name", Json::Text("N".to_owned()))), "manifest-malformed");
    assert_eq!(code(&d().with("version", Json::Text(String::new()))), "schema-type-mismatch");
    assert_eq!(code(&d().with("subject-class", Json::Null)), "manifest-malformed");
    assert_eq!(code(&d().with("evidence-schemas", Json::Null)), "schema-type-mismatch");
    assert_eq!(code(&d().with("evidence-schemas", json("{\"notes.v1\":{}}"))), "manifest-malformed");
    assert_eq!(code(&d().with("actions", json("[]"))), "manifest-malformed");
    assert_eq!(code(&d().with("actions", json("[1]"))), "schema-type-mismatch");
    assert_eq!(code(&d().with("actions", json("[{}]"))), "schema-missing-member");
    assert_eq!(code(&with_action("more", "1")), "schema-unknown-member");
    assert_eq!(code(&with_action("action", "\"other.read\"")), "manifest-action-namespace");
    assert_eq!(code(&with_action("class", "\"worse\"")), "envelope-classification-unknown");
    assert_eq!(code(&with_action("idempotent", "1")), "schema-type-mismatch");
    assert_eq!(code(&with_action("evidence-schema", "\"no\"")), "manifest-evidence-schema-missing");
    assert_eq!(code(&with_action("aggregate", "null")), "manifest-malformed");
    assert_eq!(code(&with_action("aggregate", "{}")), "schema-missing-member");
    assert_eq!(
        code(&with_action("aggregate", "{\"max-samples\":17,\"sampling\":\"x\"}")),
        "aggregate-sample-bounds"
    );
    assert_eq!(code(&with_action("class", "\"benign\"")), "manifest-malformed");
    assert_eq!(code(&d().with("budget-dimensions", json("[\"money-EUR\"]"))), "manifest-malformed");
    assert_eq!(code(&d().with("conformance", json("{}"))), "schema-missing-member");
    let unsigned = Err(Error::new("sig-invalid", "x".to_owned()));
    let refused = Manifest::parse(&d(), &unsigned, &Ok(String::new())).unwrap_err();
    assert_eq!(refused.code(), "sig-invalid");
    let forbidden = json(
        "[{\"action\":\"notes.x\",\"class\":\"prohibited\",\"evidence-schema\":\"notes.v1\",\
         \"idempotent\":true,\"target-kind\":\"n\",\"degrade\":{}}]",
    );
    assert_eq!(code(&d().with("actions", forbidden)), "manifest-prohibited-degrade");
    assert!(validate_durable_objects(&Json::Null).is_err());
    assert!(validate_durable_objects(&json("[]")).is_ok());
}

#[test]
fn an_object_moves_only_as_its_table_says() {
    let m = manifest_of(&manifest_document()).unwrap();
    assert_eq!(m.check_transition("note", "create", "agent", None).unwrap(), "open");
    assert_eq!(m.check_transition("note", "close", "human", Some("open")).unwrap(), "closed");
    let refused = |o: &str, t: &str, role: &str, from: Option<&str>| {
        m.check_transition(o, t, role, from).unwrap_err().code().to_owned()
    };
    assert_eq!(refused("page", "create", "agent", None), "durable-transition-not-permitted");
    assert_eq!(refused("note", "burn", "agent", None), "durable-transition-not-permitted");
    assert_eq!(refused("note", "close", "agent", Some("open")), "durable-transition-not-permitted");
    assert_eq!(refused("note", "create", "agent", Some("open")), "durable-transition-illegal");
    assert_eq!(refused("note", "close", "human", None), "durable-transition-illegal");
}
