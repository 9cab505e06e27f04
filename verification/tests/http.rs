use stozher_kernel::checkpoint::DecayReport;
use stozher_kernel::config::{Config, RateLimit};
use stozher_kernel::crypto::sha256_hex;
use stozher_kernel::error::Error;
use stozher_kernel::http::gate::{
    get_gate_request, parked, ping, post_gate_request, window_start, ParkFacts,
};
use stozher_kernel::http::reads::{
    disposition, get_envelope, get_envelope_mandate, get_payload, get_rejections_verify,
    get_stream_verify, listed, post_checkpoints, post_decay, Payload, Stored,
};
use stozher_kernel::http::{
    caller, failure, get_policy_current, get_policy_version, get_revocations, health, post_ingest,
    unchanged, Feed, Reply,
};
use stozher_kernel::ingest::admission::Appended;
use stozher_kernel::ingest::submission::{Outcome, RejectionRecord};
use stozher_kernel::json::Json;
use stozher_kernel::kernel::Kernel;
use stozher_kernel::query::{
    get_envelopes, get_gate_requests, get_rejections, EnvelopeQuery,
};
use stozher_kernel::vocabulary::VERSION;
use stozher_kernel::walk::{chain, mandate_in};

fn from_value(value: &serde_json::Value) -> Json {
    match value {
        serde_json::Value::Null => Json::Null,
        serde_json::Value::Bool(b) => Json::Bool(*b),
        serde_json::Value::Number(n) => match (n.as_u64(), n.as_i64()) {
            (Some(u), _) => Json::Unsigned(u),
            (None, Some(i)) => Json::Signed(i),
            (None, None) => Json::Number(n.to_string()),
        },
        serde_json::Value::String(s) => Json::Text(s.clone()),
        serde_json::Value::Array(items) => Json::List(items.iter().map(from_value).collect()),
        serde_json::Value::Object(members) => {
            Json::Record(members.iter().map(|(k, v)| (k.clone(), from_value(v))).collect())
        }
    }
}

fn json(text: &str) -> Json {
    from_value(&serde_json::from_str::<serde_json::Value>(text).unwrap())
}

const AT: &str = "2026-07-26T09:00:00.000Z";

fn outage() -> Error {
    Error::new("x-store-unavailable", "disk".to_owned())
}

fn pairs(items: &[(&str, &str)]) -> Vec<(String, String)> {
    items.iter().map(|(k, v)| ((*k).to_owned(), (*v).to_owned())).collect()
}

fn code(reply: &Reply) -> (u16, &str) {
    (reply.status, reply.body.text_at("reason-code").unwrap())
}

fn config() -> Config {
    let key = |b: u8| format!("ed25519:{}", hex::encode([b; 32]));
    Config::parse(&json(&format!(
        "{{\"policy-key\":\"{}\",\"roots\":[{{\"subject\":\"human:ivan\",\"key\":\"{}\",\
         \"enrolled-at\":\"2026-07-26T08:00:00.000Z\"}}],\"callers\":[{{\"subject\":\"agent:gateway\",\
         \"token-sha256\":\"{}\"}}]}}",
        key(1),
        key(2),
        sha256_hex("secret".as_bytes())
    )))
    .unwrap()
}

#[test]
fn only_an_outage_invites_another_try() {
    assert_eq!(health().status, 200);
    assert_eq!(health().body.text_at("stozher"), Some(VERSION));
    let down = failure(&outage());
    assert_eq!(code(&down), (503, "x-store-unavailable"));
    assert_eq!(down.body.at("retryable").as_bool(), Some(true));
    let no = failure(&Error::at_seq("chain-seq-gap", "no".to_owned(), 4));
    assert_eq!(code(&no), (422, "chain-seq-gap"));
    assert_eq!(no.body.at("retryable").as_bool(), Some(false));
    assert_eq!(no.body.at("failed-at-seq").as_u64(), Some(4));
    assert_eq!(no.body.text_at("reason"), Some("no"));
}

#[test]
fn a_caller_is_one_the_configuration_names() {
    let c = config();
    assert_eq!(caller(&c, Some("Bearer  secret ")).unwrap(), "agent:gateway");
    for header in [None, Some("secret"), Some("Bearer "), Some("bearer secret"), Some("Bearer no")] {
        let reply = caller(&c, header).unwrap_err();
        assert_eq!(code(&reply), (401, "x-caller-unauthenticated"));
    }
}

#[test]
fn a_submission_is_answered_with_where_it_stands_or_why_it_was_refused() {
    let placed = |idempotent: bool| {
        Outcome::Accepted(Appended {
            id: "e".to_owned(),
            stream: "s".to_owned(),
            seq: 3,
            idempotent,
        })
    };
    let reply = post_ingest(&placed(false));
    assert_eq!(reply.status, 201);
    assert_eq!(
        reply.body.to_text(),
        format!(
            "{{\"envelope-id\":\"e\",\"idempotent\":false,\"result\":\"accepted\",\"seq\":3,\"stozher\":\"{VERSION}\",\"stream\":\"s\"}}"
        )
    );
    assert_eq!(post_ingest(&placed(true)).status, 200);
    let refused = Outcome::Rejected {
        reason: "mandate-expired".to_owned(),
        detail: "d".to_owned(),
        record: Some(RejectionRecord { id: "r".to_owned(), seq: 9 }),
    };
    let reply = post_ingest(&refused);
    assert_eq!(code(&reply), (422, "mandate-expired"));
    assert_eq!(reply.body.text_at("rejection-id"), Some("r"));
    assert_eq!(reply.body.at("rejection-seq").as_u64(), Some(9));
    assert_eq!(reply.body.at("retryable").as_bool(), Some(false));
    assert_eq!(post_ingest(&Outcome::Unavailable("x".to_owned())).status, 503);
}

#[test]
fn a_policy_is_served_with_its_version_as_its_tag() {
    let (reply, tag) = get_policy_current(Ok(Some(json("{\"policy-version\":\"7\"}"))));
    assert_eq!(reply.status, 200);
    assert_eq!(tag, Some("\"7\"".to_owned()));
    let (reply, tag) = get_policy_current(Ok(None));
    assert_eq!(code(&reply), (404, "policy-not-published"));
    assert_eq!(tag, None);
    assert_eq!(get_policy_current(Err(outage())).0.status, 503);
    assert_eq!(
        get_policy_version(Ok(None)).body.text_at("reason"),
        Some("that policy version has never been published here")
    );
}

#[test]
fn a_revocation_feed_is_not_sent_twice() {
    assert!(unchanged(Some("\"1\" , \"2\""), "\"2\""));
    assert!(!unchanged(Some("\"1\",\"2"), "\"2\""));
    assert!(!unchanged(None, "\"2\""));
    let feed = || Ok(("5".to_owned(), vec![json("{\"revokes\":\"m\"}")]));
    let (whole, tag) = get_revocations(feed(), Some("\"4\""));
    assert_eq!(tag, Some("\"5\"".to_owned()));
    match whole {
        Feed::Whole(reply) => {
            assert_eq!(reply.body.at("count").as_u64(), Some(1));
            assert_eq!(reply.body.text_at("revocation-epoch"), Some("5"));
        }
        other => panic!("{other:?}"),
    }
    assert!(matches!(get_revocations(feed(), Some("\"5\"")).0, Feed::Unchanged));
    assert!(matches!(get_revocations(Err(outage()), None), (Feed::Unavailable(r), None) if r.status == 503));
}

fn request(args_hash: &str) -> Json {
    json(&format!(
        "{{\"v\":\"{VERSION}\",\"kind\":\"action-request\",\"requested-at\":\"{AT}\",\
         \"subject\":\"agent:a\",\"key\":\"ed25519:{}\",\"component\":\"gateway\",\
         \"mandate-ref\":\"{}\",\"policy-version\":\"1\",\"classification\":\"consequential\",\
         \"action\":\"x.y\",\"target\":\"t\",\"args-hash\":\"{args_hash}\",\
         \"nonce\":\"{}\",\"not-after\":\"2026-07-26T10:00:00.000Z\"}}",
        "aa".repeat(32),
        "7c".repeat(32),
        "0f".repeat(16)
    ))
}

fn facts() -> ParkFacts {
    ParkFacts {
        body: Ok(request(&"91".repeat(32))),
        hash: Ok("ab".repeat(32)),
        canonical: Ok(String::new()),
        existing: Ok(false),
        parked: Ok(4),
        mismatches: Ok(4),
    }
}

fn limit() -> RateLimit {
    RateLimit { per_subject: 5, window_seconds: 60 }
}

#[test]
fn the_queue_is_bounded_and_a_retry_is_not_counted() {
    assert_eq!(window_start(AT, &limit()).unwrap(), "2026-07-26T08:59:00.000Z");
    let ok = post_gate_request(&facts(), AT, &limit()).unwrap();
    assert_eq!(ok.queued.request_hash, "ab".repeat(32));
    assert!(ok.arguments.is_none());
    let told = ping(&ok.queued, Some("http://c"));
    assert_eq!(told.subject, "agent:a");
    assert_eq!(told.console_url, Some("http://c".to_owned()));

    let mut full = facts();
    full.parked = Ok(5);
    let no = post_gate_request(&full, AT, &limit()).unwrap_err();
    assert_eq!(code(&no.reply), (429, "gate-rate-limited"));
    assert_eq!(
        no.reply.body.text_at("reason"),
        Some(
            "agent:a has parked 5 requests in the last 60 seconds, at or above the configured cap of 5. The console shows this as a spike."
        )
    );
    assert!(!no.durable);
    full.existing = Ok(true);
    assert!(post_gate_request(&full, AT, &limit()).is_ok());
    full.existing = Err(outage());
    assert_eq!(post_gate_request(&full, AT, &limit()).unwrap_err().reply.status, 503);
    let mut blind = facts();
    blind.parked = Err(outage());
    assert_eq!(post_gate_request(&blind, AT, &limit()).unwrap_err().reply.status, 503);
    let mut broken = facts();
    broken.body = Err(Error::new("jcs-malformed-json", "x".to_owned()));
    let no = post_gate_request(&broken, AT, &limit()).unwrap_err();
    assert_eq!(code(&no.reply), (422, "jcs-malformed-json"));
    let late = post_gate_request(&facts(), "2026-07-26T11:00:00.000Z", &limit()).unwrap_err();
    assert_eq!(late.reply.status, 422);
}

#[test]
fn arguments_that_are_not_what_was_committed_to_are_remembered() {
    let shown = "{\"a\":1}";
    let with = |hash: &str| {
        let mut f = facts();
        f.body = Ok(Json::Record(vec![
            ("request".to_owned(), request(hash)),
            ("arguments".to_owned(), json(shown)),
        ]));
        f.canonical = Ok(shown.to_owned());
        f
    };
    let ok = post_gate_request(&with(&sha256_hex(shown.as_bytes())), AT, &limit()).unwrap();
    assert_eq!(ok.arguments, Some(shown.to_owned()));
    let no = post_gate_request(&with(&"91".repeat(32)), AT, &limit()).unwrap_err();
    assert_eq!(no.reply.status, 422);
    assert!(no.durable);
    let mut capped = with(&"91".repeat(32));
    capped.mismatches = Ok(5);
    assert!(!post_gate_request(&capped, AT, &limit()).unwrap_err().durable);
    capped.mismatches = Err(outage());
    assert!(!post_gate_request(&capped, AT, &limit()).unwrap_err().durable);
}

#[test]
fn a_parked_request_is_read_back_with_its_answer() {
    let queued = post_gate_request(&facts(), AT, &limit()).unwrap().queued;
    let reply = parked(&queued, &Ok(true), 2);
    assert_eq!(reply.status, 201);
    assert_eq!(reply.body.at("channels").as_u64(), Some(2));
    assert_eq!(reply.body.at("idempotent").as_bool(), Some(false));
    assert_eq!(parked(&queued, &Ok(false), 0).status, 200);
    assert_eq!(parked(&queued, &Err(outage()), 0).status, 503);
    let found = || Ok(Some((json("{\"q\":1}"), "agent:gateway".to_owned())));
    let reply = get_gate_request("h", &found(), &Ok(Some(json("{\"d\":2}"))));
    assert_eq!(reply.body.at("request").at("q").as_u64(), Some(1));
    assert_eq!(reply.body.at("decision").at("d").as_u64(), Some(2));
    assert_eq!(reply.body.text_at("submitted-by"), Some("agent:gateway"));
    assert!(get_gate_request("h", &found(), &Ok(None)).body.at("decision").is_null());
    assert_eq!(get_gate_request("h", &Ok(None), &Ok(None)).status, 404);
    assert_eq!(get_gate_request("h", &found(), &Err(outage())).status, 503);
}

fn stored(body: &str) -> Stored {
    Stored {
        id: "i".to_owned(),
        received_at: AT.to_owned(),
        human_root: Some("human:ivan".to_owned()),
        effective_class: None,
        policy_violation: None,
        envelope: Ok(json(body)),
        canonical_json: body.to_owned(),
    }
}

#[test]
fn an_envelope_is_read_with_the_chain_behind_it() {
    let found = Ok(Some(stored("{\"mandate-ref\":\"leaf\"}")));
    let reply = get_envelope(&found);
    assert_eq!(reply.status, 200);
    assert_eq!(reply.body.text_at("human-root"), Some("human:ivan"));
    assert!(reply.body.at("effective-class").is_null());
    assert_eq!(code(&get_envelope(&Ok(None))), (404, "not-found"));
    assert_eq!(get_envelope(&Err(outage())).status, 503);
    let ancestry: Vec<(String, Json)> = vec![
        ("top".to_owned(), json("{\"parent\":null,\"mandate-kind\":\"standing\"}")),
        ("leaf".to_owned(), json("{\"parent\":\"top\",\"mandate-kind\":\"delegated\"}")),
    ];
    assert!(mandate_in(&ancestry, "none").is_none());
    let links = chain(&ancestry, "leaf");
    assert_eq!(links.len(), 2);
    assert_eq!(links[1].0, "top");
    let reply = get_envelope_mandate("i", &found, &Ok(ancestry));
    let links = reply.body.at("chain").as_list().unwrap();
    assert_eq!(links.len(), 2);
    assert_eq!(links[0].text_at("mandate-kind"), Some("delegated"));
    assert_eq!(links[1].text_at("mandate-id"), Some("top"));
    let bare = Ok(Some(stored("{}")));
    let reply = get_envelope_mandate("i", &bare, &Err(outage()));
    assert!(reply.body.at("mandate-ref").is_null());
    assert_eq!(get_envelope_mandate("i", &found, &Err(outage())).status, 503);
}

#[test]
fn a_broken_chain_is_an_answer_and_not_an_outage() {
    let reply = listed("streams", Ok(vec![json("{}"), json("{}")]));
    assert_eq!(reply.body.at("count").as_u64(), Some(2));
    assert_eq!(reply.body.at("streams").as_list().unwrap().len(), 2);
    assert_eq!(listed("streams", Err(outage())).status, 503);
    let broken = Error::at_seq("chain-prev-hash-mismatch", "no".to_owned(), 4);
    let reply = get_stream_verify("s", &Err(broken));
    assert_eq!(reply.status, 200);
    assert_eq!(reply.body.at("valid").as_bool(), Some(false));
    assert_eq!(reply.body.at("failed-at-seq").as_u64(), Some(4));
    let reply = get_stream_verify("s", &Ok(json("{\"valid\":true}")));
    assert_eq!(reply.body.at("valid").as_bool(), Some(true));
    let reasons = json("{\"mandate-expired\":2}");
    let reply = get_rejections_verify("r", 2, &Ok(Some("h".to_owned())), &reasons);
    assert_eq!(reply.body.text_at("head-hash"), Some("h"));
    assert_eq!(reply.body.at("reasons").at("mandate-expired").as_u64(), Some(2));
    let reply = get_rejections_verify("r", 2, &Err(Error::new("c", "d".to_owned())), &reasons);
    assert_eq!(code(&reply), (200, "c"));
    assert_eq!(reply.body.at("valid").as_bool(), Some(false));
}

#[test]
fn a_payload_is_an_attachment_named_by_its_digest() {
    let hash = "ab".repeat(32);
    assert_eq!(disposition(&hash), format!("attachment; filename=\"{hash}.bin\""));
    assert_eq!(disposition("a\"b"), "attachment");
    assert_eq!(disposition(&"AB".repeat(32)), "attachment");
    match get_payload(&hash, Ok(Some(vec![1, 2]))) {
        Payload::Bytes(bytes, _) => assert_eq!(bytes, [1, 2]),
        other => panic!("{other:?}"),
    }
    match get_payload(&hash, Ok(None)) {
        Payload::Answer(reply) => {
            assert_eq!(reply.status, 410);
            assert_eq!(reply.body.text_at("payload-hash"), Some(hash.as_str()));
            assert_eq!(reply.body.text_at("result"), Some("decayed"));
        }
        other => panic!("{other:?}"),
    }
    assert!(matches!(get_payload(&hash, Err(outage())), Payload::Answer(r) if r.status == 503));
}

#[test]
fn a_sweep_reports_what_it_covered_and_what_it_deleted() {
    let done = Ok(vec![
        ("a".to_owned(), Ok(Some(3))),
        ("b".to_owned(), Ok(None)),
        ("c".to_owned(), Err("no".to_owned())),
    ]);
    assert_eq!(
        post_checkpoints(&done).body.to_text(),
        "{\"checkpointed\":[{\"seq\":3,\"stream\":\"a\"},{\"seq\":null,\"stream\":\"b\"},{\"error\":\"no\",\"stream\":\"c\"}]}"
    );
    assert_eq!(post_checkpoints(&Err(outage())).status, 503);
    let report = Ok(DecayReport {
        at: AT.to_owned(),
        streams_checkpointed: vec!["a".to_owned()],
        payloads_deleted: 1,
        deleted_hashes: vec!["h".to_owned()],
    });
    assert_eq!(
        post_decay(&report).body.to_text(),
        format!("{{\"at\":\"{AT}\",\"decayed-hashes\":[\"h\"],\"payloads-deleted\":1,\"streams-checkpointed\":[\"a\"]}}")
    );
    let no = post_decay(&Err(Error::new("checkpoint-head-mismatch", "x".to_owned())));
    assert_eq!(code(&no), (422, "checkpoint-head-mismatch"));
}

#[test]
fn a_query_is_what_the_parameters_say() {
    let all = pairs(&[("limit", "999999"), ("offset", "-4"), ("violations-only", "true"), ("kind", "effect")]);
    let q = get_envelopes(&all);
    assert_eq!((q.limit, q.offset, q.violations_only), (999_999, -4, true));
    assert_eq!(q.kind, Some("effect"));
    let none = Vec::new();
    let q = get_envelopes(&none);
    assert_eq!((q.limit, q.offset, q.violations_only), (100, 0, false));
    assert_eq!(EnvelopeQuery::of_outcome("refused", 3).outcome, Some("refused"));
    assert!(EnvelopeQuery::of_violations(3).violations_only);
    assert_eq!(get_gate_requests(&pairs(&[("answered", "true"), ("limit", "5")])), (true, 5));
    assert_eq!(get_gate_requests(&pairs(&[("answered", "yes")])), (false, 200));
    assert_eq!(get_rejections(&pairs(&[("reason", "x"), ("limit", "0")])), (Some("x"), 1));
    assert_eq!(get_rejections(&pairs(&[("limit", "9999")])), (None, 1_000));
}

#[test]
fn a_form_token_is_for_one_process_one_caller_and_one_request() {
    let kernel = Kernel::assemble(config()).unwrap();
    let token = kernel.csrf_token("agent:gateway", "h");
    assert_eq!(token.len(), 64);
    assert!(kernel.csrf_ok("agent:gateway", "h", &token));
    assert!(!kernel.csrf_ok("agent:other", "h", &token));
    assert!(!kernel.csrf_ok("agent:gateway", "i", &token));
    assert!(!kernel.csrf_ok("agent:gateway", "h", ""));
    assert!(!Kernel::assemble(config()).unwrap().csrf_ok("agent:gateway", "h", &token));
    assert_eq!(kernel.ingest_config().kernel_core_stream, "kernel:core");
}

#[test]
fn a_document_is_written_with_its_text_escaped() {
    let d = Json::Record(vec![
        ("a\"b".to_owned(), Json::Text("line\nend\u{1} é".to_owned())),
        ("n".to_owned(), Json::Signed(-3)),
        ("l".to_owned(), Json::List(vec![Json::Null, Json::Bool(true), Json::Number("1.5".to_owned())])),
    ]);
    assert_eq!(d.to_text(), "{\"a\\\"b\":\"line\\nend\\u0001 é\",\"n\":-3,\"l\":[null,true,1.5]}");
    for written in [
        "null",
        "[]",
        "{}",
        "[[],{},\"\",0,-1,18446744073709551615,-9223372036854775808,1.5e300,0.1]",
        "{\"\":{\"/\":\"\\\\ \\b\\f\\n\\r\\t \\u001f \u{7f} \u{2028} \u{1f600}\"},\"b\":[false,[true]]}",
    ] {
        let value: serde_json::Value = serde_json::from_str(written).unwrap();
        assert_eq!(from_value(&value).to_text(), serde_json::to_string(&value).unwrap());
    }
}
