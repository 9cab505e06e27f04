use stozher_kernel::checkpoint::{
    decay_next, decay_with_checkpoints, emission_result, emit, emit_all, leak_code, run_interval,
    verify_stream, ChainResult, DecayStep, RecordedCheckpoint,
};
use stozher_kernel::clock::FixedClock;
use stozher_kernel::documents::{action_request, authorization, gate_decision, RequestTerms};
use stozher_kernel::error::Error;
use stozher_kernel::ingest::admission::{
    check_admission, genesis_question, genesis_request, open_request, route, validate,
    validate_genesis, AdmissionFacts, Appended, GenesisFacts,
    KindFacts, Position, Route, Validated,
};
use stozher_kernel::ingest::approvers::{
    approver_keys, approvers_for, pattern_covers, scope_covers, subject_of, GateRule, Root,
};
use stozher_kernel::ingest::changes::{
    fold_transitions, stream_resume, validate_commitment, validate_policy_change,
    validate_registration, validate_root_change, IncomingManifest, IncomingPolicy, RootChange,
};
use stozher_kernel::ingest::effect::{
    accrue_budget, class_weight, classify_inputs, effect_requests, gate_question, heaviest_class,
    mandate_ref, mandate_requests, trigger_refs, validate_aggregate_window, validate_effect_kind,
    Charged, EffectFacts, GateOk,
};
use stozher_kernel::ingest::records::{
    collect_payloads, parent_of, retain_until_for, validate_checkpoint, validate_gate_decision,
    validate_mandate_grant, validate_revocation, CheckpointFacts, DecisionFacts, GrantFacts,
    Retention, RevocationFacts,
};
use stozher_kernel::ingest::submission::{
    after_attempt, claims, pause_millis, rejected, rejected_bytes_hash, rejection_input, settle,
    truncate, Attempt, Head, Outcome, Settled,
};
use stozher_kernel::ingest::{body_text, Ingest, IngestConfig};
use stozher_kernel::json::Json;
use stozher_kernel::keys::KeyId;
use stozher_kernel::manifest::Manifest;

fn from_value(value: &serde_json::Value) -> Json {
    match value {
        serde_json::Value::Null => Json::Null,
        serde_json::Value::Bool(b) => Json::Bool(*b),
        serde_json::Value::Number(n) => match (n.as_u64(), n.as_i64()) {
            (Some(u), _) => Json::Unsigned(u),
            (None, Some(i)) => Json::Signed(i),
            (None, None) => Json::Number(n.to_string()),
        },
        serde_json::Value::String(s) => Json::Text(s.clone()),
        serde_json::Value::Array(items) => Json::List(items.iter().map(from_value).collect()),
        serde_json::Value::Object(members) => {
            Json::Record(members.iter().map(|(k, v)| (k.clone(), from_value(v))).collect())
        }
    }
}

fn json(text: &str) -> Json {
    from_value(&serde_json::from_str::<serde_json::Value>(text).unwrap())
}

fn key(byte: u8) -> KeyId {
    KeyId::parse(&format!("ed25519:{}", hex::encode([byte; 32]))).unwrap()
}

fn manifest_document() -> Json {
    json(
        "{\"v\":\"stozher/0.1\",\"kind\":\"manifest\",\"name\":\"notes\",\"version\":\"1.0.0\",\
         \"subject-class\":\"executor\",\"actions\":[\
         {\"action\":\"notes.read\",\"class\":\"read\",\"evidence-schema\":\"notes.v1\",\"idempotent\":true,\
         \"target-kind\":\"note\",\"aggregate\":{\"max-samples\":2,\"sampling\":\"first\"}},\
         {\"action\":\"notes.delete\",\"class\":\"consequential\",\"evidence-schema\":\"notes.v1\",\
         \"idempotent\":false,\"target-kind\":\"note\"}],\
         \"evidence-schemas\":{\"notes.v1\":{\"additionalProperties\":false}},\
         \"budget-dimensions\":[\"requests\",\"money-eur\"],\
         \"durable-objects\":[{\"object-type\":\"note\",\"id-kind\":\"opaque\",\"transitions\":[\
         {\"transition\":\"create\",\"from\":[],\"to\":\"open\",\"signers\":[\"agent\",\"human\"]},\
         {\"transition\":\"close\",\"from\":[\"open\"],\"to\":\"closed\",\"signers\":[\"human\"]}]}],\
         \"conformance\":{\"self-test\":\"notes.self_test\",\"vectors-version\":\"1\"}}",
    )
}

fn manifest_of(document: &Json) -> Result<Manifest, Error> {
    Manifest::parse(document, &Ok(key(7)), &Ok("33".repeat(32)))
}

const AT: &str = "2026-07-26T09:00:00.000Z";

fn outage() -> Error {
    Error::new("x-store-unavailable", "disk".to_owned())
}

fn error(code: &str) -> Error {
    Error::new(code, "why".to_owned())
}

fn roots() -> Vec<Root> {
    vec![Root { key: key(2), subject: "human:ivan".to_owned() }]
}

fn head(seq: u64) -> Option<Head> {
    Some(Head { seq, id: format!("h{seq}") })
}

#[test]
fn a_body_is_text_or_it_is_refused() {
    assert_eq!(body_text("{}é".as_bytes()).unwrap(), "{}é");
    let e = body_text(&[b'a', 0xff]).unwrap_err();
    assert_eq!(e.code(), "jcs-malformed-json");
    assert_eq!(
        e.detail(),
        "body is not UTF-8: invalid utf-8 sequence of 1 bytes from index 1"
    );
}

#[test]
fn a_submission_is_taken_apart_or_refused() {
    let code = |body: &str| open_request(&json(body)).unwrap_err().code().to_owned();
    assert_eq!(code("[]"), "schema-type-mismatch");
    assert_eq!(code("{\"envelope\":{},\"more\":1}"), "schema-unknown-member");
    assert_eq!(code("{}"), "schema-missing-member");
    assert_eq!(code("{\"envelope\":{},\"payloads\":{}}"), "schema-type-mismatch");
    let opened = open_request(&json("{\"envelope\":{\"a\":1},\"payloads\":[1,2]}")).unwrap();
    assert_eq!(opened.payloads.len(), 2);
    assert_eq!(opened.envelope.at("a").as_u64(), Some(1));
}

fn facts() -> AdmissionFacts {
    AdmissionFacts {
        id: Ok("e1".to_owned()),
        canonical: Ok("{}".to_owned()),
        existing: Ok(None),
        signer: Ok(key(1)),
        schema: Ok(()),
        bound: Ok(()),
        policy: Ok(true),
        roots: Ok(roots()),
    }
}

#[test]
fn what_is_in_the_log_is_not_judged_again() {
    let env = json(&format!("{{\"emitted-at\":\"{AT}\"}}"));
    assert!(check_admission(&env, AT, 300, &facts()).unwrap().is_none());
    let mut known = facts();
    known.existing = Ok(Some(Position { stream: "s".to_owned(), seq: 4 }));
    known.signer = Err(error("sig-invalid"));
    let again = check_admission(&env, AT, 300, &known).unwrap().unwrap();
    assert!(again.idempotent);
    assert_eq!((again.id.as_str(), again.stream.as_str(), again.seq), ("e1", "s", 4));

    let code = |f: &AdmissionFacts| check_admission(&env, AT, 300, f).unwrap_err().code().to_owned();
    let mut f = facts();
    f.roots = Err(outage());
    assert_eq!(code(&f), "x-store-unavailable");
    f.policy = Err(error("policy"));
    assert_eq!(code(&f), "policy");
    f.bound = Err(error("payload-hash-mismatch"));
    assert_eq!(code(&f), "payload-hash-mismatch");
    f.schema = Err(error("schema-missing-member"));
    assert_eq!(code(&f), "schema-missing-member");
    f.signer = Err(error("sig-invalid"));
    assert_eq!(code(&f), "sig-invalid");
    f.existing = Err(outage());
    assert_eq!(code(&f), "x-store-unavailable");
    f.canonical = Err(error("jcs"));
    assert_eq!(code(&f), "jcs");
    f.id = Err(error("id"));
    assert_eq!(code(&f), "id");

    let late = json("{\"emitted-at\":\"2026-07-26T09:05:00.001Z\"}");
    let e = check_admission(&late, AT, 300, &facts()).unwrap_err();
    assert_eq!(e.code(), "envelope-emitted-in-future");
    let just = json("{\"emitted-at\":\"2026-07-26T09:05:00.000Z\"}");
    assert!(check_admission(&just, AT, 300, &facts()).unwrap().is_none());
}

#[test]
fn a_kind_is_sent_to_what_judges_it() {
    let to = |kind: &str, policy: bool| route(&json(&format!("{{\"kind\":\"{kind}\"}}")), policy);
    assert!(matches!(to("effect", false), Route::Genesis));
    assert!(matches!(to("effect", true), Route::Effect));
    assert!(matches!(to("policy-change", true), Route::Effect));
    assert!(matches!(to("aggregate", true), Route::Effect));
    assert!(matches!(to("cognition", true), Route::Cognition));
    assert!(matches!(to("mandate", true), Route::Grant));
    assert!(matches!(to("revocation", true), Route::Revocation));
    assert!(matches!(to("checkpoint", true), Route::Checkpoint));
    assert!(matches!(to("rumour", true), Route::Unknown));
}

fn config() -> IngestConfig {
    IngestConfig {
        policy_key: key(9),
        max_future_skew_seconds: 300,
        kernel_core_stream: "kernel:core".to_owned(),
    }
}

fn genesis_facts() -> GenesisFacts {
    GenesisFacts {
        granted: Ok(()),
        mandate_id: Ok("m1".to_owned()),
        policy: no_policy(),
        ancestry: Ok(()),
        chain: Ok("human:ivan".to_owned()),
        verdict: Ok(None),
    }
}

fn no_policy() -> IncomingPolicy {
    IncomingPolicy {
        document_hash: Err(error("unused")),
        policy: Err(error("unused")),
        version_exists: Ok(false),
    }
}

#[test]
fn before_a_policy_only_the_ceremony_is_heard() {
    let mut f = facts();
    f.policy = Ok(false);
    let first = json(&format!(
        "{{\"kind\":\"mandate\",\"stream\":\"kernel:core\",\"seq\":0,\"emitted-at\":\"{AT}\",\
         \"mandate\":{{\"mandate-kind\":\"interactive\"}}}}"
    ));
    let none = Vec::new();
    let heard = |env: &Json| {
        validate(env, &none, AT, &config(), &key(3), &f, &KindFacts::Genesis(genesis_facts()))
    };
    match heard(&first).unwrap() {
        Validated::Fresh(plan) => {
            assert_eq!(plan.id, "e1");
            assert_eq!(plan.plan.projections.mandate.unwrap().id, "m1");
        }
        other => panic!("{other:?}"),
    }
    let elsewhere = first.copy().with("stream", Json::Text("other".to_owned()));
    assert_eq!(heard(&elsewhere).unwrap_err().code(), "policy-not-published");
    let later = first.with("seq", Json::Unsigned(5));
    assert_eq!(heard(&later).unwrap_err().code(), "policy-not-published");
}

#[test]
fn an_approver_is_named_or_is_a_root() {
    assert!(pattern_covers("github.*", "github.create_issue"));
    assert!(pattern_covers("*", "x"));
    assert!(!pattern_covers("github.*", "githubx.y"));
    let mandate = json("{\"scope\":{\"actions\":[\"a.*\"]}}");
    assert!(scope_covers(&mandate, "a.b"));
    assert!(!scope_covers(&mandate, "b.a"));
    let subjects = vec!["human:mira".to_owned()];
    let grant = format!(
        "{{\"scope\":{{\"actions\":[\"a.*\"]}},\"grantee\":{{\"subject\":\"human:mira\",\"key\":\"{}\"}}}}",
        key(5).as_str()
    );
    let held = vec![Ok(vec![json(&grant)])];
    let found = approver_keys(&roots(), &subjects, &held, "a.b").unwrap();
    assert!(found.iter().any(|a| a.key.as_str() == key(5).as_str()));
    assert!(approver_keys(&roots(), &subjects, &held, "c.d").unwrap().is_empty());
    assert!(approver_keys(&roots(), &subjects, &vec![Err(outage())], "a.b").is_err());
    let rooted = approvers_for(&Ok(Some(GateRule::Deny)), &roots(), "kernel.enroll_root").unwrap();
    assert_eq!(rooted.len(), 1);
    assert_eq!(rooted[0].key.as_str(), key(2).as_str());
    assert_eq!(
        subject_of(&roots(), &Ok(None), &key(2)).unwrap(),
        Some("human:ivan".to_owned())
    );
    assert_eq!(subject_of(&roots(), &Ok(None), &key(5)).unwrap(), None);
}

fn enrolment(evidence: &str) -> (Json, Vec<Json>) {
    let hash = "91".repeat(32);
    let env = json(&format!(
        "{{\"execution\":{{\"action\":\"kernel.enroll_root\",\"target\":\"root:{}\",\"args-hash\":\"{hash}\"}}}}",
        key(6).as_str()
    ));
    (env, vec![json(&format!("{{\"payload-hash\":\"{hash}\",\"payload\":{evidence}}}"))])
}

#[test]
fn a_root_is_enrolled_by_a_root_under_the_name_the_evidence_gives() {
    let k = key(6);
    let (env, good) =
        enrolment(&format!("{{\"subject\":\"human:mira\",\"key\":\"{}\"}}", k.as_str()));
    match validate_root_change(&env, &good, &roots(), &key(2)).unwrap() {
        RootChange::Enrol { key, subject } => {
            assert_eq!((key.as_str(), subject.as_str()), (k.as_str(), "human:mira"));
        }
        other => panic!("{other:?}"),
    }
    let e = validate_root_change(&env, &good, &roots(), &key(8)).unwrap_err();
    assert_eq!(e.code(), "mandate-root-not-enrolled");
    let detail = |evidence: &str| {
        let (env, p) = enrolment(evidence);
        let e = validate_root_change(&env, &p, &roots(), &key(2)).unwrap_err();
        assert_eq!(e.code(), "root-enrollment-malformed");
        e.detail().to_owned()
    };
    assert_eq!(
        detail("{\"subject\":\"agent:x\"}"),
        "the evidence names \"agent:x\", which is not a human subject"
    );
    assert_eq!(detail("{\"subject\":\"human:mira\"}"), "the evidence names no key");
    assert!(detail("{\"subject\":\"human:mira\",\"key\":\"k\"}").starts_with("the evidence names key k, "));
    assert!(validate_root_change(&env, &Vec::new(), &roots(), &key(2)).is_err());
    let retire = json(&format!(
        "{{\"execution\":{{\"action\":\"kernel.retire_root\",\"target\":\"root:{}\"}}}}",
        k.as_str()
    ));
    assert!(matches!(
        validate_root_change(&retire, &Vec::new(), &roots(), &key(2)).unwrap(),
        RootChange::Retire { .. }
    ));
}

#[test]
fn a_stream_resumes_over_the_refusal_it_names() {
    let hash = "91".repeat(32);
    let env = json(&format!(
        "{{\"execution\":{{\"target\":\"stream:s\",\"args-hash\":\"{hash}\"}}}}"
    ));
    let with = |document: &str| {
        vec![json(&format!("{{\"payload-hash\":\"{hash}\",\"payload\":{document}}}"))]
    };
    let good = format!(
        "{{\"stream\":\"s\",\"resume-seq\":4,\"refused-object-hash\":\"{}\",\"reason-code\":\"x\"}}",
        "aa".repeat(32)
    );
    let resumed = stream_resume(&env, &with(&good)).unwrap();
    assert_eq!((resumed.stream.as_str(), resumed.resume_seq), ("s", 4));
    assert_eq!(resumed.bridge_hash, "aa".repeat(32));
    let code = |document: &str| stream_resume(&env, &with(document)).unwrap_err().code().to_owned();
    assert_eq!(code(&good.replace("\"s\"", "\"t\"")), "stream-resume-malformed");
    assert_eq!(code(&good.replace("aa", "AA")), "stream-resume-malformed");
    assert_eq!(code(&good.replace(":4", ":-4")), "stream-resume-malformed");
    assert_eq!(code("[]"), "stream-resume-malformed");
    assert_eq!(
        stream_resume(&env, &Vec::new()).unwrap_err().code(),
        "stream-resume-unbound"
    );
}

fn policy_change() -> (Json, Vec<Json>, IncomingPolicy) {
    let hash = "91".repeat(32);
    (
        json(&format!(
            "{{\"execution\":{{\"target\":\"policy:2\",\"args-hash\":\"{hash}\"}}}}"
        )),
        vec![json(&format!("{{\"payload-hash\":\"{hash}\",\"payload\":{{\"policy-version\":\"2\"}}}}"))],
        IncomingPolicy {
            document_hash: Ok(hash.clone()),
            policy: Ok(("2".to_owned(), hash)),
            version_exists: Ok(false),
        },
    )
}

#[test]
fn a_policy_is_the_document_that_was_approved() {
    let (env, payloads, incoming) = policy_change();
    let installed = validate_policy_change(&env, &payloads, &incoming).unwrap();
    assert_eq!(installed.version, "2");
    assert_eq!(installed.document.text_at("policy-version"), Some("2"));
    let code = |i: &IncomingPolicy| {
        validate_policy_change(&env, &payloads, i).unwrap_err().code().to_owned()
    };
    let (_, _, mut i) = policy_change();
    i.version_exists = Ok(true);
    assert_eq!(code(&i), "policy-version-reused");
    i.policy = Ok(("3".to_owned(), String::new()));
    assert_eq!(code(&i), "policy-change-target-mismatch");
    assert_eq!(
        validate_policy_change(&env, &payloads, &i).unwrap_err().detail(),
        "execution.target is String(\"policy:2\"), expected \"policy:3\""
    );
    i.policy = Err(error("policy-sig-invalid"));
    assert_eq!(code(&i), "policy-sig-invalid");
    i.document_hash = Ok("22".repeat(32));
    assert_eq!(code(&i), "policy-change-document-unbound");
    assert_eq!(
        validate_policy_change(&env, &Vec::new(), &incoming).unwrap_err().code(),
        "policy-change-document-unbound"
    );
    for written in [
        "null",
        "[true,false,-3,7,1.5,\"a\\\"b\\n\"]",
        "{\"a\":{},\"b\\t\":[[],null]}",
    ] {
        let value: serde_json::Value = serde_json::from_str(written).unwrap();
        assert_eq!(from_value(&value).to_debug(), format!("{value:?}"));
    }
}

#[test]
fn a_component_is_registered_once_and_only_when_green() {
    let hash = "33".repeat(32);
    let env = json(&format!(
        "{{\"execution\":{{\"action\":\"kernel.register_component\",\"args-hash\":\"{hash}\"}}}}"
    ));
    let payloads = vec![Json::Record(vec![
        ("payload-hash".to_owned(), Json::Text(hash.clone())),
        ("payload".to_owned(), manifest_document()),
    ])];
    let incoming = || IncomingManifest {
        signer: Ok(key(7)),
        hash: Ok(hash.clone()),
        bound_key: Ok(None),
        version_exists: Ok(false),
        green: Ok(true),
    };
    let registered = validate_registration(&env, &payloads, &incoming()).unwrap();
    assert_eq!((registered.name.as_str(), registered.version.as_str()), ("notes", "1.0.0"));
    let code = |i: &IncomingManifest| {
        validate_registration(&env, &payloads, i).unwrap_err().code().to_owned()
    };
    let mut i = incoming();
    i.green = Ok(false);
    assert_eq!(code(&i), "manifest-conformance-not-green");
    i.version_exists = Ok(true);
    assert_eq!(code(&i), "manifest-version-retained");
    i.bound_key = Ok(Some(key(8).as_str().to_owned()));
    assert_eq!(code(&i), "manifest-name-key-conflict");
    i.hash = Ok("44".repeat(32));
    assert_eq!(code(&i), "manifest-malformed");
    i.signer = Err(error("sig-invalid"));
    assert_eq!(code(&i), "sig-invalid");
}

#[test]
fn the_first_policy_needs_a_root_and_a_mandate_that_covers_it() {
    let asked = genesis_request(&effect("applied", "consequential"));
    assert_eq!(asked.component, "notes");
    assert_eq!(asked.action, "notes.delete");
    assert_eq!(asked.classification, "consequential");
    assert_eq!(asked.resource, "note:1");
    assert_eq!(genesis_request(&json("{}")).action, "");
    let question = genesis_question(&roots());
    assert!(question.requires_gate);
    assert_eq!(question.approvers.len(), roots().len());
}

#[test]
fn a_commitment_follows_from_its_history() {
    let m = manifest_of(&manifest_document()).unwrap();
    assert_eq!(fold_transitions(&m, "note", &Vec::new()).unwrap(), None);
    let past = vec!["create".to_owned()];
    assert_eq!(fold_transitions(&m, "note", &past).unwrap(), Some("open".to_owned()));
    let env = json(
        "{\"commitment-ref\":{\"object-type\":\"note\",\"object-id\":\"n\",\"transition\":\"close\"}}",
    );
    let held = Some(m);
    assert!(validate_commitment(&env, &held, "human:ivan", &Ok(past)).is_ok());
    let code = |subject: &str, past: Vec<String>| {
        validate_commitment(&env, &held, subject, &Ok(past)).unwrap_err().code().to_owned()
    };
    assert_eq!(code("agent:a", vec!["create".to_owned()]), "durable-transition-not-permitted");
    assert_eq!(code("human:ivan", Vec::new()), "durable-transition-illegal");
    let closed = vec!["create".to_owned(), "close".to_owned()];
    let m = held.as_ref().unwrap();
    assert_eq!(fold_transitions(m, "note", &closed).unwrap(), Some("closed".to_owned()));
    assert_eq!(code("human:ivan", closed), "durable-transition-illegal");
    let e = validate_commitment(&env, &None, "human:ivan", &Ok(Vec::new())).unwrap_err();
    assert_eq!(e.code(), "durable-transition-not-permitted");
    assert!(validate_commitment(&json("{}"), &None, "a", &Err(outage())).is_ok());
}

fn effect(outcome: &str, class: &str) -> Json {
    json(&format!(
        "{{\"kind\":\"effect\",\"classification\":\"{class}\",\"mandate-ref\":\"m\",\
         \"identity\":{{\"subject\":\"agent:a\",\"component\":\"notes\"}},\"cost\":{{\"requests\":1}},\
         \"execution\":{{\"action\":\"notes.delete\",\"target\":\"note:1\",\"outcome\":\"{outcome}\"}}}}"
    ))
}

fn effect_facts(class: &str, rule: GateRule) -> EffectFacts {
    EffectFacts {
        manifest: Ok(None),
        classes: vec![class.to_owned()],
        ancestry: Ok(()),
        chains: vec![Ok("human:ivan".to_owned())],
        trigger: Ok(()),
        max_window_seconds: 3_600,
        policy: no_policy(),
        registration: IncomingManifest {
            signer: Err(error("unused")),
            hash: Err(error("unused")),
            bound_key: Ok(None),
            version_exists: Ok(false),
            green: Ok(false),
        },
        history: Ok(Vec::new()),
        rule,
        request_hash: Ok("ab".repeat(32)),
        seen: Ok(false),
        verdict: Ok(None),
        line: Ok(Vec::new()),
        canonical: Vec::new(),
        retention: Retention { stores: true, ceiling: Ok(AT.to_owned()) },
    }
}

fn open_rule() -> GateRule {
    GateRule::Gate { subjects: Vec::new(), held: Vec::new() }
}

#[test]
fn what_an_effect_asks_is_read_from_what_it_did() {
    let env = effect("applied", "consequential");
    let asked = effect_requests(&env).unwrap();
    assert_eq!((asked[0].action.as_str(), asked[0].resource.as_str()), ("notes.delete", "note:1"));
    let folded = json("{\"kind\":\"aggregate\",\"counts\":{\"by-action\":{\"a.b\":2,\"c.d\":1}}}");
    let many = effect_requests(&folded).unwrap();
    assert_eq!(many.len(), 2);
    assert_eq!(many[0].resource, "-");
    let empty = json("{\"kind\":\"aggregate\",\"counts\":{\"by-action\":{}}}");
    assert_eq!(effect_requests(&empty).unwrap_err().code(), "aggregate-count-mismatch");
    let m = manifest_of(&manifest_document()).unwrap();
    let inputs = classify_inputs(&env, &asked, &Some(m));
    assert_eq!(inputs[0].manifest_class, Some("consequential".to_owned()));
    assert_eq!(mandate_requests(&env, &asked)[0].component, "notes");
    assert_eq!(mandate_ref(&env).unwrap(), "m");
    assert!(mandate_ref(&json("{}")).is_err());
    assert!(trigger_refs(&env).is_none());
    assert!(class_weight("read") < class_weight("consequential"));
    assert_eq!(
        heaviest_class(&vec!["read".to_owned(), "prohibited".to_owned(), "benign".to_owned()]),
        "prohibited"
    );
}

fn approval() -> Json {
    let request = action_request(&RequestTerms {
        requested_at: AT.to_owned(),
        subject: "agent:a".to_owned(),
        key: key(1).as_str().to_owned(),
        component: "notes".to_owned(),
        mandate_ref: "7c".repeat(32),
        policy_version: "1".to_owned(),
        classification: "consequential".to_owned(),
        action: "notes.delete".to_owned(),
        target: "note:1".to_owned(),
        args_hash: "91".repeat(32),
        nonce: "0f".repeat(16),
        not_after: "2026-07-26T10:00:00.000Z".to_owned(),
    });
    let until = "2026-07-26T09:45:00.000Z";
    authorization(&request, &gate_decision(&"ab".repeat(32), None, AT, until))
}

fn verified() -> Result<Option<GateOk>, Error> {
    Ok(Some(GateOk { request_hash: "ab".repeat(32), decided_by: key(2), single_use: true }))
}

#[test]
fn no_verdict_stands_in_for_an_authorization() {
    let bare = effect("applied", "consequential");
    let mut f = effect_facts("consequential", open_rule());
    for verdict in [verified(), Ok(None), Err(error("gate-denied"))] {
        f.verdict = verdict;
        let e = validate_effect_kind(&bare, &Vec::new(), &roots(), &key(1), &f).unwrap_err();
        assert_eq!(e.code(), "gate-authorization-missing");
        assert_eq!(e.detail(), "the effect carries no approval");
    }
    let said = Error::new("gate-authorization-missing", "as it was said".to_owned());
    f.verdict = Err(said);
    let e = validate_effect_kind(&bare, &Vec::new(), &roots(), &key(1), &f).unwrap_err();
    assert_eq!(e.detail(), "as it was said");

    let (env, payloads, policy) = policy_change();
    let env = env
        .with("kind", Json::Text("policy-change".to_owned()))
        .with("stream", Json::Text("kernel:core".to_owned()))
        .with("seq", Json::Unsigned(1))
        .with("classification", Json::Text("consequential".to_owned()))
        .with("mandate-ref", Json::Text("m1".to_owned()));
    let facts = GenesisFacts { policy, verdict: verified(), ..genesis_facts() };
    let e = validate_genesis(&env, &payloads, "kernel:core", &facts).unwrap_err();
    assert_eq!(e.code(), "gate-authorization-missing");
    let env = env.with("authorization", approval());
    assert!(validate_genesis(&env, &payloads, "kernel:core", &facts).unwrap().gate_use.is_some());
}

#[test]
fn an_effect_is_judged_in_order() {
    let judge = |env: &Json, f: &EffectFacts| {
        validate_effect_kind(env, &Vec::new(), &roots(), &key(1), f)
    };
    let applied = effect("applied", "consequential").with("authorization", approval());
    let mut f = effect_facts("consequential", open_rule());
    assert_eq!(judge(&applied, &f).unwrap_err().code(), "gate-authorization-missing");
    f.verdict = verified();
    let plan = judge(&applied, &f).unwrap();
    assert_eq!(plan.human_root, Some("human:ivan".to_owned()));
    assert_eq!(plan.effective_class, Some("consequential".to_owned()));
    assert_eq!(plan.gate_use.unwrap().request_hash, "ab".repeat(32));
    f.verdict = Err(error("gate-authorization-replayed"));
    assert_eq!(judge(&applied, &f).unwrap_err().code(), "gate-authorization-replayed");
    f.verdict = Err(error("gate-denied"));
    assert_eq!(judge(&applied, &f).unwrap_err().code(), "gate-denied");
    assert!(judge(&effect("refused", "consequential"), &f).is_ok());
    f.chains = vec![Err(error("mandate-expired"))];
    assert_eq!(judge(&applied, &f).unwrap_err().code(), "mandate-expired");
    f.ancestry = Err(error("mandate-unresolved"));
    assert_eq!(judge(&applied, &f).unwrap_err().code(), "mandate-unresolved");
    f.classes = vec!["prohibited".to_owned()];
    assert_eq!(judge(&applied, &f).unwrap_err().code(), "policy-component-override-attempt");

    let banned = effect_facts("prohibited", GateRule::Allow);
    let plan = judge(&effect("applied", "prohibited"), &banned).unwrap();
    assert_eq!(plan.policy_violation, Some("prohibited-applied".to_owned()));
    let plan = judge(&effect("attempted", "prohibited"), &banned).unwrap();
    assert_eq!(plan.policy_violation, None);
    let denied = effect_facts("benign", GateRule::Deny);
    let plan = judge(&effect("applied", "benign"), &denied).unwrap();
    assert_eq!(plan.policy_violation, Some("policy-denied-applied".to_owned()));
}

#[test]
fn spending_past_a_cap_is_confessed_and_charged() {
    let line = |cap: &str| {
        Ok(vec![Charged {
            id: "m".to_owned(),
            mandate: Ok(Some(json(&format!("{{\"budget\":{cap}}}")))),
            spent: Ok(vec![("requests".to_owned(), "5".to_owned())]),
        }])
    };
    let env = effect("applied", "benign");
    let (over, spend) = accrue_budget(&env, &line("{\"requests\":6}")).unwrap();
    assert!(!over);
    assert_eq!(spend.unwrap().mandates, ["m"]);
    let (over, spend) = accrue_budget(&env, &line("{\"requests\":5}")).unwrap();
    assert!(over);
    assert!(spend.is_some());
    let mut f = effect_facts("benign", GateRule::Allow);
    f.line = line("{\"requests\":5}");
    let plan = validate_effect_kind(&env, &Vec::new(), &roots(), &key(1), &f).unwrap();
    assert_eq!(plan.policy_violation, Some("x-budget-exceeded-applied".to_owned()));
    f.line = Err(outage());
    let e = validate_effect_kind(&env, &Vec::new(), &roots(), &key(1), &f).unwrap_err();
    assert_eq!(e.code(), "x-store-unavailable");
    assert!(matches!(accrue_budget(&json("{}"), &Err(outage())), Ok((false, None))));
}

#[test]
fn an_approval_is_asked_of_the_right_keys() {
    let q = gate_question(&effect("applied", "benign"), &GateRule::Allow, &roots()).unwrap();
    assert!(!q.requires_gate);
    let q = gate_question(&effect("applied", "benign"), &open_rule(), &roots()).unwrap();
    assert!(q.requires_gate);
    let q = gate_question(&effect("refused", "benign"), &open_rule(), &roots()).unwrap();
    assert!(!q.requires_gate);
    let rooted = json("{\"execution\":{\"action\":\"kernel.retire_root\",\"outcome\":\"applied\"}}");
    let q = gate_question(&rooted, &GateRule::Allow, &roots()).unwrap();
    assert!(q.requires_gate);
    assert_eq!(q.approvers.len(), 1);
}

#[test]
fn a_window_is_ordered_and_bounded() {
    let window = |from: &str, to: &str| {
        validate_aggregate_window(
            &json(&format!("{{\"window\":{{\"from\":\"{from}\",\"to\":\"{to}\"}}}}")),
            3_600,
        )
    };
    assert!(window(AT, "2026-07-26T10:00:00.000Z").is_ok());
    assert_eq!(
        window(AT, "2026-07-26T10:00:00.001Z").unwrap_err().code(),
        "aggregate-window-too-long"
    );
    assert_eq!(
        window("2026-07-26T09:00:00.001Z", AT).unwrap_err().code(),
        "aggregate-window-inverted"
    );
    assert!(validate_aggregate_window(&json("{}"), 1).is_err());
}

#[test]
fn evidence_is_kept_no_longer_than_policy_allows() {
    let env = json(&format!(
        "{{\"emitted-at\":\"{AT}\",\"evidence\":{{\"payload-hash\":\"h\",\"retain-until\":\"2026-08-01T00:00:00.000Z\"}}}}"
    ));
    assert_eq!(retain_until_for(&env, "h"), Some("2026-08-01T00:00:00.000Z".to_owned()));
    assert_eq!(retain_until_for(&env, "i"), None);
    let payloads = vec![
        json("{\"payload-hash\":\"h\",\"media-type\":\"application/json\",\"payload\":{\"a\":1}}"),
        json("{\"payload-hash\":\"i\",\"media-type\":\"text/plain\",\"payload\":\"6869\"}"),
    ];
    let canonical = vec![Ok("{\"a\":1}".to_owned()), Ok(String::new())];
    let rows = collect_payloads(&env, &payloads, &canonical, None).unwrap();
    assert_eq!(rows[0].bytes, "{\"a\":1}".as_bytes());
    assert_eq!(rows[0].retain_until, "2026-08-01T00:00:00.000Z");
    assert_eq!(rows[1].bytes, "hi".as_bytes());
    assert_eq!(rows[1].retain_until, AT);
    let short = Retention { stores: true, ceiling: Ok("2026-07-31T00:00:00.000Z".to_owned()) };
    let e = collect_payloads(&env, &payloads, &canonical, Some(("read", &short))).unwrap_err();
    assert_eq!(e.code(), "evidence-retention-too-long");
    let never = Retention { stores: false, ceiling: Err(error("unused")) };
    assert!(collect_payloads(&env, &payloads, &canonical, Some(("read", &never))).unwrap().is_empty());
    let bad = vec![json("{\"payload-hash\":\"i\",\"media-type\":\"text/plain\",\"payload\":\"zz\"}")];
    let e = collect_payloads(&env, &bad, &vec![Ok(String::new())], None).unwrap_err();
    assert_eq!(e.code(), "encoding-not-lowercase-hex");
    assert_eq!(e.detail(), "payloads[].payload: Invalid character 'z' at position 0");
}

#[test]
fn a_grant_rests_on_its_parent() {
    let facts = || GrantFacts {
        parent: Ok(None),
        ceiling: Ok(AT.to_owned()),
        verified: Ok(()),
        id: Ok("m1".to_owned()),
    };
    let standing = json("{\"mandate\":{\"mandate-kind\":\"standing\",\"issued-at\":\"x\"}}");
    assert_eq!(validate_mandate_grant(&standing, &facts()).unwrap().id, "m1");
    let delegated =
        json("{\"mandate\":{\"mandate-kind\":\"delegated\",\"issued-at\":\"x\",\"parent\":\"p\"}}");
    assert_eq!(
        validate_mandate_grant(&delegated, &facts()).unwrap_err().code(),
        "mandate-unresolved"
    );
    let mut f = facts();
    f.verified = Err(error("mandate-scope-exceeds-parent"));
    assert_eq!(
        validate_mandate_grant(&standing, &f).unwrap_err().code(),
        "mandate-scope-exceeds-parent"
    );
    assert_eq!(parent_of(&delegated), Some("p"));
    assert_eq!(parent_of(&standing), None);
    let claims = json("{\"mandate\":{\"mandate-kind\":\"standing\",\"parent\":\"p\"}}");
    assert_eq!(parent_of(&claims), None);
    assert!(validate_mandate_grant(&json("{}"), &facts()).is_err());
}

#[test]
fn a_revocation_says_the_same_inside_and_out() {
    let mandate = "7c".repeat(32);
    let object = format!("\"revokes\":\"{mandate}\",\"revoked-at\":\"{AT}\"");
    let env = json(&format!("{{{object},\"revocation\":{{{object}}}}}"));
    let facts = || RevocationFacts { ancestry: Ok(()), verified: Ok(()), id: Ok("r1".to_owned()) };
    assert_eq!(validate_revocation(&env, &facts()).unwrap().id, "r1");
    let other = env.copy().with("revoked-at", Json::Text("2026-07-26T09:00:01.000Z".to_owned()));
    assert!(validate_revocation(&other, &facts()).is_err());
    let mut f = facts();
    f.verified = Err(error("revocation-signer-not-permitted"));
    assert_eq!(
        validate_revocation(&env, &f).unwrap_err().code(),
        "revocation-signer-not-permitted"
    );
    assert!(validate_revocation(&json("{}"), &facts()).is_err());
}

fn decision_env(decision: &str) -> Json {
    let hash = "ab".repeat(32);
    json(&format!(
        "{{\"decision-of\":\"{hash}\",\"decision\":{{\"kind\":\"gate-decision\",\"request-hash\":\"{hash}\",\
         \"decided-at\":\"{AT}\",\"not-after\":\"2026-07-26T09:15:00.000Z\",{decision}}}}}"
    ))
}

fn decision_facts() -> DecisionFacts {
    DecisionFacts {
        signer: Ok(key(2)),
        rule: GateRule::Allow,
        request: Ok(None),
        request_hash: Ok("ab".repeat(32)),
        mandated_subject: Ok(None),
    }
}

#[test]
fn a_decision_is_a_human_s_and_is_not_about_themselves() {
    let judge = |env: &Json, f: &DecisionFacts| validate_gate_decision(env, AT, &roots(), f);
    let yes = decision_env("\"decision\":\"approve\"");
    assert!(judge(&yes, &decision_facts()).unwrap().is_none());
    let request = json(&format!(
        "{{\"v\":\"stozher/0.1\",\"kind\":\"action-request\",\"requested-at\":\"{AT}\",\
         \"subject\":\"agent:a\",\"key\":\"{}\",\"component\":\"gateway\",\"mandate-ref\":\"{}\",\
         \"policy-version\":\"1\",\"classification\":\"consequential\",\"action\":\"x.y\",\
         \"target\":\"t\",\"args-hash\":\"{}\",\"nonce\":\"{}\",\"not-after\":\"2026-07-26T10:00:00.000Z\"}}",
        key(1).as_str(),
        "7c".repeat(32),
        "91".repeat(32),
        "0f".repeat(16)
    ));
    let mut f = decision_facts();
    f.request = Ok(Some(request.copy()));
    let answer = judge(&yes, &f).unwrap().unwrap();
    assert_eq!(answer.verdict, "approve");
    f.request = Ok(Some(request.with("subject", Json::Text("human:ivan".to_owned()))));
    assert_eq!(judge(&yes, &f).unwrap_err().code(), "gate-self-approval");
    let code = |env: &Json, f: &DecisionFacts| judge(env, f).unwrap_err().code().to_owned();
    assert_eq!(code(&decision_env("\"decision\":\"deny\""), &decision_facts()), "gate-denial-without-reason");
    assert_eq!(code(&decision_env("\"decision\":\"maybe\""), &decision_facts()), "gate-decision-unknown");
    let mut f = decision_facts();
    f.signer = Ok(key(8));
    assert_eq!(code(&yes, &f), "gate-approver-not-permitted");
    f.signer = Err(error("sig-invalid"));
    assert_eq!(code(&yes, &f), "gate-decision-sig-invalid");
    assert_eq!(code(&json("{}"), &decision_facts()), "schema-missing-member");
    assert_eq!(code(&json("{\"decision-of\":\"x\"}"), &decision_facts()), "encoding-not-lowercase-hex");
}

fn checkpoint_env(from: u64, to: u64, count: u64, signer: &KeyId) -> Json {
    json(&format!(
        "{{\"sig\":{{\"key\":\"{}\"}},\"checkpoint\":{{\"stream\":\"s\",\"from-seq\":{from},\"to-seq\":{to},\
         \"count\":{count},\"head-hash\":\"hh\",\"observed-at\":\"{AT}\"}}}}",
        signer.as_str()
    ))
}

#[test]
fn a_checkpoint_attests_the_head_the_log_has() {
    let k = key(3);
    let facts = |id: Option<&str>| CheckpointFacts {
        stream_known: Ok(true),
        attested: Ok(id.map(str::to_owned)),
    };
    let row = validate_checkpoint(&checkpoint_env(2, 4, 3, &k), &k, &facts(Some("hh"))).unwrap();
    assert_eq!((row.from_seq, row.to_seq, row.head_hash.as_str()), (2, 4, "hh"));
    let code = |env: &Json, f: &CheckpointFacts| {
        validate_checkpoint(env, &k, f).unwrap_err().code().to_owned()
    };
    assert_eq!(code(&checkpoint_env(2, 4, 2, &k), &facts(None)), "checkpoint-count-mismatch");
    assert_eq!(code(&checkpoint_env(2, 4, 3, &key(4)), &facts(None)), "checkpoint-signer-not-kernel");
    assert_eq!(code(&checkpoint_env(2, 4, 3, &k), &facts(None)), "checkpoint-head-mismatch");
    assert_eq!(code(&checkpoint_env(2, 4, 3, &k), &facts(Some("other"))), "checkpoint-head-mismatch");
    let mut lost = facts(None);
    lost.stream_known = Ok(false);
    assert_eq!(code(&checkpoint_env(2, 4, 3, &k), &lost), "checkpoint-stream-unknown");
    assert_eq!(code(&json("{}"), &facts(None)), "schema-missing-member");
}

#[test]
fn a_refusal_is_recorded_and_an_outage_is_not() {
    assert!(matches!(settle(&Err(outage())), Settled::Answer(Outcome::Unavailable(d)) if d == "disk"));
    assert!(matches!(settle(&Err(error("x"))), Settled::Refuse(e) if e.code() == "x"));
    let placed = Appended { id: "e".to_owned(), stream: "s".to_owned(), seq: 1, idempotent: false };
    assert!(matches!(settle(&Ok(placed)), Settled::Answer(Outcome::Accepted(_))));
    assert!(matches!(rejected(&error("x"), None), Outcome::Rejected { reason, .. } if reason == "x"));
    let body = json("{\"envelope\":{\"stream\":\"s\",\"seq\":3,\"kind\":\"effect\"}}");
    let said = claims(Some(&body));
    assert_eq!((said.stream, said.seq, said.kind), (Some("s".to_owned()), Some(3), Some("effect".to_owned())));
    assert!(claims(None).stream.is_none());
    assert_eq!(rejected_bytes_hash(b"x", Some("o".to_owned())), "o");
    assert_eq!(
        rejected_bytes_hash(b"", None),
        "e3b0c44298fc1c149afbf4c8996fb92427ae41e4649b934ca495991b7852b855"
    );
    assert_eq!(truncate("short", 10), "short");
    assert_eq!(truncate("ééé", 3), "é…");
    let long = Error::new("c", "x".repeat(2_000));
    let input = rejection_input(&long, "o".to_owned(), Some("agent:g"), AT, claims(None));
    assert_eq!(input.detail.len(), 1_024 + "…".len());
    assert_eq!(input.submitted_by, Some("agent:g".to_owned()));
}

#[test]
fn the_kernel_extends_its_own_stream() {
    let clock = FixedClock::new(AT).unwrap();
    let ingest = Ingest::new(clock, key(3), config());
    assert_eq!(ingest.kernel_key().as_str(), key(3).as_str());
    assert_eq!(ingest.policy_key().as_str(), key(9).as_str());
    let more = vec![("x".to_owned(), Json::Unsigned(1))];
    let env = ingest.append_as_kernel("gate-decision", &head(4), AT, &more);
    assert_eq!(env.at("seq").as_u64(), Some(5));
    assert_eq!(env.text_at("prev-hash"), Some("h4"));
    assert_eq!(env.text_at("stream"), Some("kernel:core"));
    assert_eq!(env.at("identity").text_at("subject"), Some("agent:kernel"));
    assert_eq!(env.at("x").as_u64(), Some(1));
    let first = ingest.append_as_kernel("gate-decision", &None, AT, &more);
    assert_eq!(first.at("seq").as_u64(), Some(0));
    assert!(first.at("prev-hash").is_null());
    assert_eq!([0, 1, 2, 3, 6, 9].map(pause_millis), [0, 4, 8, 16, 128, 128]);
    let lost = rejected(&error("chain-seq-duplicate"), None);
    assert!(matches!(after_attempt(&lost, 0, "a decision"), Attempt::Again));
    assert!(matches!(after_attempt(&lost, 7, "a decision"), Attempt::Failed(_, m) if m.starts_with(
        "the kernel's core stream is too contended to record a decision: 8 attempts"
    )));
    let no = rejected(&error("gate-request-expired"), None);
    assert!(matches!(after_attempt(&no, 0, "x"), Attempt::Failed(c, _) if c == "gate-request-expired"));
}

#[test]
fn checkpoints_are_contiguous() {
    let none: Option<Head> = None;
    assert!(emit("s", &none, None, "c", &none, AT, &key(3)).is_none());
    assert!(emit("s", &head(4), Some(4), "c", &none, AT, &key(3)).is_none());
    let body = emit("s", &head(4), Some(1), "c", &head(0), AT, &key(3)).unwrap();
    let c = body.at("checkpoint");
    assert_eq!(
        (c.at("from-seq").as_u64(), c.at("to-seq").as_u64(), c.at("count").as_u64()),
        (Some(2), Some(4), Some(3))
    );
    assert_eq!(c.text_at("head-hash"), Some("h4"));
    assert_eq!(body.at("seq").as_u64(), Some(1));
    assert_eq!(body.text_at("stream"), Some("c"));
    let first = emit("s", &head(0), None, "c", &none, AT, &key(3)).unwrap();
    assert_eq!(first.at("checkpoint").at("count").as_u64(), Some(1));
    assert_eq!(leak_code("chain-seq-gap"), "chain-seq-gap");
    assert_eq!(leak_code("anything"), "checkpoint-stream-unknown");
    let e = emission_result(&rejected(&error("chain-seq-gap"), None)).unwrap_err();
    assert_eq!(e.code(), "chain-seq-gap");
    let e = emission_result(&Outcome::Unavailable("d".to_owned())).unwrap_err();
    assert_eq!(e.code(), "x-store-unavailable");
    let streams = vec![json("{\"stream\":\"a\"}"), json("{\"stream\":\"c\"}"), json("{}")];
    assert_eq!(emit_all(&streams, "c"), ["a", "c"]);
    assert_eq!(run_interval(&Ok(Some(Ok(90)))), 90);
    assert_eq!(run_interval(&Ok(Some(Ok(0)))), 1);
    assert_eq!(run_interval(&Ok(Some(Ok(-5)))), 3_600);
    assert_eq!(run_interval(&Ok(Some(Err(error("x"))))), 3_600);
    assert_eq!(run_interval(&Ok(None)), 60);
    assert_eq!(run_interval(&Err(outage())), 60);
}

#[test]
fn nothing_is_deleted_before_every_stream_it_is_in_is_attested() {
    let mut done: Vec<Result<Option<u64>, Error>> = Vec::new();
    assert!(matches!(decay_next(2, &done), DecayStep::Checkpoint(0)));
    done.push(Ok(Some(3)));
    assert!(matches!(decay_next(2, &done), DecayStep::Checkpoint(1)));
    done.push(Ok(None));
    assert!(matches!(decay_next(2, &done), DecayStep::Delete));
    let affected = vec!["a".to_owned(), "b".to_owned()];
    let report = decay_with_checkpoints(AT, &affected, &done, vec!["h".to_owned()]);
    assert_eq!(report.payloads_deleted, 1);
    assert_eq!(report.streams_checkpointed, ["a@3"]);
    let failed = vec![Err(error("chain-seq-gap"))];
    assert!(matches!(decay_next(2, &failed), DecayStep::Stop(e) if e.code() == "chain-seq-gap"));
}

#[test]
fn a_stream_is_verified_without_its_payloads() {
    let chain = || Ok(ChainResult { count: 5, head_hash: "h4".to_owned(), anchored: true });
    let report = verify_stream("s", &head(4), &chain(), &Vec::new()).unwrap();
    assert_eq!(
        report.to_text(),
        "{\"anchored\":true,\"count\":5,\"head-hash\":\"h4\",\"last-checkpoint\":null,\"payloads-consulted\":0,\"stream\":\"s\"}"
    );
    let attests = |to_seq: u64, seen: &str| RecordedCheckpoint {
        from_seq: 0,
        to_seq,
        head_hash: format!("h{to_seq}"),
        observed: Ok(ChainResult {
            count: to_seq + 1,
            head_hash: seen.to_owned(),
            anchored: true,
        }),
    };
    let both = vec![attests(2, "h2"), attests(3, "h3")];
    let report = verify_stream("s", &head(4), &chain(), &both).unwrap();
    assert_eq!(report.at("last-checkpoint").text_at("head-hash"), Some("h3"));
    for wrong in [
        vec![attests(2, "zz"), attests(3, "h3")],
        vec![attests(2, "h2"), attests(3, "zz")],
    ] {
        assert_eq!(
            verify_stream("s", &head(4), &chain(), &wrong).unwrap_err().code(),
            "checkpoint-head-mismatch"
        );
    }
    let first = verify_stream("s", &head(4), &chain(), &vec![attests(2, "x"), attests(3, "y")]);
    assert_eq!(
        first.unwrap_err().detail(),
        "the checkpoint of s[0, 2] attests h2, the chain reproduces x"
    );
    assert_eq!(
        verify_stream("s", &None, &chain(), &Vec::new()).unwrap_err().code(),
        "chain-empty-range"
    );
    let broken = Err(Error::at_seq("chain-prev-hash-mismatch", "x".to_owned(), 3));
    assert_eq!(verify_stream("s", &head(4), &broken, &Vec::new()).unwrap_err().seq(), Some(3));
}
