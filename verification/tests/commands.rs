use stozher_kernel::arguments::{list, parse_i64, parse_u32, parse_u64, present, value, words};
use stozher_kernel::clock::declaration::KernelClock;
use stozher_kernel::clock::ClockAdvance;
use stozher_kernel::commands::offline::{
    ceremony, decide, decision, grant, identity, revocation, revoke,
};
use stozher_kernel::commands::policy::{policy_current, policy_draft, policy_sign};
use stozher_kernel::commands::publishing::{
    after_effect, after_publish, check_document, contended, effect_publish, fetch_decision,
    head_of, is_enrolment, policy_publish, publish_ask, publish_effect, root_publish, Published,
    PublishAsk, PublishFacts, Reread,
};
use stozher_kernel::commands::reports::{
    after_look, conformance, health_seconds, is_corpus_document, verify, Waited,
};
use stozher_kernel::commands::requests::{
    effect_ask, effect_request, policy_ask, policy_request, root_arguments, root_request,
    Arguments, Stamp,
};
use stozher_kernel::commands::{offline_clock, seconds_in, seed_key, usable_token, Answer};
use stozher_kernel::error::Error;
use stozher_kernel::json::Json;
use stozher_kernel::keys::KeyId;

fn from_value(value: &serde_json::Value) -> Json {
    match value {
        serde_json::Value::Null => Json::Null,
        serde_json::Value::Bool(b) => Json::Bool(*b),
        serde_json::Value::Number(n) => match (n.as_u64(), n.as_i64()) {
            (Some(u), _) => Json::Unsigned(u),
            (None, Some(i)) => Json::Signed(i),
            (None, None) => Json::Number(n.to_string()),
        },
        serde_json::Value::String(s) => Json::Text(s.clone()),
        serde_json::Value::Array(items) => Json::List(items.iter().map(from_value).collect()),
        serde_json::Value::Object(members) => {
            Json::Record(members.iter().map(|(k, v)| (k.clone(), from_value(v))).collect())
        }
    }
}

fn json(text: &str) -> Json {
    from_value(&serde_json::from_str::<serde_json::Value>(text).unwrap())
}

const NOW: &str = "2026-07-26T09:00:00.000Z";

fn args(line: &str) -> Vec<String> {
    line.split('|').map(str::to_owned).collect()
}

fn key(byte: u8) -> KeyId {
    KeyId::parse(&format!("ed25519:{}", hex::encode([byte; 32]))).unwrap()
}

fn stamp() -> Stamp {
    Stamp { key: Ok(key(1)), now: Ok(NOW.to_owned()), nonce: Ok("0f".repeat(16)) }
}

#[test]
fn flags_are_read_by_name() {
    let a = args("--key|k|--caller|a, b,,c |--last");
    assert_eq!(value(&a, "--key"), Some("k"));
    assert_eq!(value(&a, "--last"), None);
    assert_eq!(value(&a, "--none"), None);
    assert!(present(&a, "--last"));
    assert_eq!(list(&a, "--caller", &["x"]), ["a", "b", "c"]);
    assert_eq!(list(&a, "--none", &["x"]), ["x"]);
    assert_eq!(words("  run \t it\nnow "), ["run", "it", "now"]);
    assert!(words(" \t").is_empty());
    assert_eq!(words("a\u{2003}b\u{a0}c\u{200b}"), ["a", "b", "c\u{200b}"]);
}

#[test]
fn numerals_are_read_as_std_reads_them() {
    for s in [
        "0", "7", "+7", "-7", "-0", "", "+", "-", "++1", "1 ", "9223372036854775807",
        "9223372036854775808", "-9223372036854775808", "-9223372036854775809",
        "18446744073709551615", "18446744073709551616", "4294967295", "4294967296", "007", "1x",
        "99999999999999999999999999", "\u{663}",
    ] {
        assert_eq!(parse_i64(s), s.parse::<i64>().ok(), "{s:?}");
        assert_eq!(parse_u64(s), s.parse::<u64>().ok(), "{s:?}");
        assert_eq!(parse_u32(s), s.parse::<u32>().ok(), "{s:?}");
    }
    assert_eq!(seconds_in(2, 60), 120);
    assert_eq!(seconds_in(i64::MAX, 60), i64::MAX);
    assert_eq!(seconds_in(i64::MIN, 60), i64::MIN);
}

#[test]
fn the_signing_key_and_the_clock_follow_the_flags() {
    assert_eq!(seed_key(&args("--role|0|--index|3"), 1), (0, 3));
    assert_eq!(seed_key(&args("--role|x"), 1), (1, 0));
    let none = Ok(None);
    assert!(matches!(offline_clock(None, none), Ok(KernelClock::Host(_))));
    let broken = Err(Error::new("config-malformed", "no".to_owned()));
    assert_eq!(
        offline_clock(Some("c.json"), broken).unwrap_err(),
        "reading c.json: config-malformed: no"
    );
    let ahead = ClockAdvance { seconds: 60, duration: "PT1M".to_owned() };
    assert!(matches!(offline_clock(Some("c"), Ok(Some(ahead))), Ok(KernelClock::Ahead(_))));
    let back = ClockAdvance { seconds: -60, duration: "forged".to_owned() };
    assert!(offline_clock(Some("c"), Ok(Some(back))).unwrap_err().starts_with("clock: "));
    assert_eq!(usable_token(Some(" t \n")), Some("t".to_owned()));
    assert_eq!(usable_token(Some(" ")), None);
    assert_eq!(usable_token(Some("\u{3000}t\u{85}")), Some("t".to_owned()));
}

#[test]
fn identity_names_one_key_or_all() {
    assert_eq!(identity(&args("--role|1")).unwrap_err(), "identity requires --key <path>");
    assert_eq!(identity(&args("--key|k")).unwrap().place, None);
    assert_eq!(identity(&args("--key|k|--role|2")).unwrap().place, Some((2, 0)));
    assert_eq!(
        identity(&args("--key|k|--role|-2")).unwrap_err(),
        "--role must be a non-negative integer"
    );
}

#[test]
fn a_ceremony_takes_both_halves_of_a_second_root_or_neither() {
    let base = "--key|k|--root|human:ivan|--out|d";
    let asked = ceremony(&args(base), NOW).unwrap();
    assert_eq!(asked.ceremony.agent_subject, "agent:bootstrap");
    assert_eq!(asked.ceremony.core_stream, "kernel:core");
    assert_eq!(asked.callers, ["agent:gateway"]);
    assert!(asked.ceremony.second_root.is_none());
    assert!(ceremony(&args("--key|k"), NOW).is_err());
    let half = args(&format!("{base}|--second-root|human:mira"));
    assert!(ceremony(&half, NOW).unwrap_err().contains("together or not at all"));
    let bad = args(&format!("{base}|--second-root|human:mira|--second-root-key|x"));
    assert!(ceremony(&bad, NOW).unwrap_err().starts_with("--second-root-key: "));
    let two = args(&format!(
        "{base}|--second-root|human:mira|--second-root-key|{}",
        key(2).as_str()
    ));
    assert_eq!(ceremony(&two, NOW).unwrap().ceremony.second_root.unwrap().0, "human:mira");
}

#[test]
fn a_decision_is_stated_and_a_denial_says_why() {
    let hash = "ab".repeat(32);
    let base = format!("--request|{hash}|--key|k");
    let message = |rest: &str| decide(&args(&format!("{base}{rest}"))).unwrap_err();
    assert_eq!(
        decide(&args("--key|k")).unwrap_err(),
        "decide requires --request <64 hex> and --key <path>"
    );
    assert_eq!(
        decide(&args("--request|AB|--key|k|--approve")).unwrap_err(),
        "--request must be 64 lowercase hex digits"
    );
    let exactly = "decide requires exactly one of --approve or --deny <reason>";
    assert_eq!(message(""), exactly);
    assert_eq!(message("|--approve|--deny|no"), exactly);
    assert!(message("|--deny| ").starts_with("a denial must state why"));
    assert_eq!(message("|--approve|--minutes|0"), "--minutes must be positive");
    let ask = decide(&args(&format!("{base}|--approve"))).unwrap();
    let (d, until) = decision(&ask, NOW).unwrap();
    assert_eq!(until, "2026-07-26T09:15:00.000Z");
    assert_eq!(d.text_at("decision"), Some("approve"));
    assert_eq!(d.text_at("request-hash"), Some(hash.as_str()));
    assert!(d.at("reason").is_null());
    let ask = decide(&args(&format!("{base}|--deny|no sign-off|--minutes|1"))).unwrap();
    let (d, until) = decision(&ask, NOW).unwrap();
    assert_eq!(until, "2026-07-26T09:01:00.000Z");
    assert_eq!(d.text_at("decision"), Some("deny"));
    assert_eq!(d.text_at("reason"), Some("no sign-off"));
    let forever = decide(&args(&format!("{base}|--approve|--minutes|{}", i64::MAX))).unwrap();
    assert_eq!(decision(&forever, NOW).unwrap_err().code(), "encoding-bad-timestamp");
}

#[test]
fn a_grant_has_a_key_and_a_life() {
    let base = format!(
        "--key|k|--root|human:ivan|--grantee|agent:a|--grantee-key|{}|--out|o",
        key(3).as_str()
    );
    let asked = grant(&args(&base)).unwrap();
    assert_eq!(asked.days, 30);
    assert_eq!(asked.components, ["gateway"]);
    assert_eq!(asked.classes.len(), 4);
    for days in ["0", "-1", "x", "106751991167301"] {
        assert_eq!(
            grant(&args(&format!("{base}|--days|{days}"))).unwrap_err(),
            "--days must be a positive integer"
        );
    }
    assert_eq!(grant(&args(&format!("{base}|--days|7"))).unwrap().days, 7);
    let bad = base.replace("ed25519", "rsa");
    assert!(grant(&args(&bad)).unwrap_err().starts_with("--grantee-key: "));
    assert!(grant(&args("--key|k")).unwrap_err().starts_with("grant requires"));
}

#[test]
fn a_revocation_has_a_reason_exactly_where_one_is_given() {
    let mandate = "7c".repeat(32);
    let base = format!("--mandate|{mandate}|--key|k");
    let bare = revocation(&revoke(&args(&base)).unwrap(), NOW);
    assert!(bare.get("reason").is_none());
    assert_eq!(bare.text_at("revokes"), Some(mandate.as_str()));
    assert_eq!(bare.text_at("revoked-at"), Some(NOW));
    let why = revocation(&revoke(&args(&format!("{base}|--reason|lost"))).unwrap(), NOW);
    assert_eq!(why.text_at("reason"), Some("lost"));
    assert_eq!(
        revoke(&args(&format!("{base}|--reason| "))).unwrap_err(),
        "--reason, if given, must say something"
    );
    assert_eq!(
        revoke(&args("--mandate|x|--key|k")).unwrap_err(),
        "--mandate must be 64 lowercase hex digits"
    );
    assert!(revoke(&args("--key|k")).is_err());
}

fn policy_args(in_force: &str) -> Vec<String> {
    args(&format!(
        "--document|p.json|--subject|agent:p|--key|k|--mandate|{}|--in-force|{in_force}|--out|o",
        "7c".repeat(32)
    ))
}

#[test]
fn a_policy_is_judged_by_the_one_it_replaces() {
    let document = json("{\"policy-version\":\"2\"}");
    let hash = Ok("91".repeat(32));
    let ask = policy_ask(&policy_args("1")).unwrap();
    let q = policy_request(&ask, &document, &hash, &stamp()).unwrap();
    assert_eq!(q.text_at("policy-version"), Some("1"));
    assert_eq!(q.text_at("target"), Some("policy:2"));
    assert_eq!(q.text_at("action"), Some("kernel.publish_policy"));
    assert_eq!(q.text_at("not-after"), Some("2026-07-26T10:00:00.000Z"));
    let same = policy_ask(&policy_args("2")).unwrap();
    assert!(policy_request(&same, &document, &hash, &stamp())
        .unwrap_err()
        .starts_with("--in-force is 2, which is the version"));
    assert!(policy_request(&ask, &Json::Null, &hash, &stamp())
        .unwrap_err()
        .contains("carries no policy-version"));
    let unhashed = Err(Error::new("jcs", "x".to_owned()));
    assert_eq!(
        policy_request(&ask, &document, &unhashed, &stamp()).unwrap_err(),
        "hashing the document: jcs: x"
    );
    let mut keyless = stamp();
    keyless.key = Err("key: none".to_owned());
    assert_eq!(policy_request(&ask, &document, &hash, &keyless).unwrap_err(), "key: none");
    let mut still = stamp();
    still.now = Ok("soon".to_owned());
    assert!(policy_request(&ask, &document, &hash, &still).unwrap_err().starts_with("clock: "));
    let mut dry = stamp();
    dry.nonce = Err(Error::new("kernel-entropy-unavailable", "dry".to_owned()));
    assert_eq!(
        policy_request(&ask, &document, &hash, &dry).unwrap_err(),
        "nonce: kernel-entropy-unavailable: dry"
    );
    assert!(policy_ask(&args("--document|p")).is_err());
}

#[test]
fn a_root_request_enrols_or_retires_and_binds_the_name() {
    let base = format!("--requester|human:a|--key|k|--mandate|{}|--in-force|1|--out|o", "7c".repeat(32));
    let k = key(5);
    let enrol = args(&format!("{base}|--enrol|{}|--subject|human:mira", k.as_str()));
    let asked = root_request(&enrol).unwrap();
    assert_eq!(asked.ask.action, "kernel.enroll_root");
    assert_eq!(asked.ask.target, format!("root:{}", k.as_str()));
    assert_eq!(asked.evidence_path, "o.evidence");
    let bound = root_arguments(&asked);
    assert_eq!(bound.text_at("subject"), Some("human:mira"));
    assert_eq!(bound.text_at("key"), Some(k.as_str()));
    let q = effect_request(&asked.ask, &"91".repeat(32), &stamp()).unwrap();
    assert_eq!(q.text_at("subject"), Some("human:a"));
    let retire = args(&format!("{base}|--retire|{}", k.as_str()));
    let asked = root_request(&retire).unwrap();
    assert_eq!(asked.ask.action, "kernel.retire_root");
    assert!(asked.evidence.is_none());
    assert_eq!(root_arguments(&asked).to_text(), "{}");
    let message = |rest: String| root_request(&args(&format!("{base}{rest}"))).unwrap_err();
    assert!(message(String::new()).starts_with("root-request requires exactly one of"));
    assert!(message("|--enrol|x".to_owned()).starts_with("x is not a key identifier: "));
    assert!(message(format!("|--enrol|{}", k.as_str())).contains("is required to enrol"));
    assert_eq!(
        message(format!("|--enrol|{}|--subject|human:", k.as_str())),
        "--subject must be a human:<name> subject"
    );
    assert!(root_request(&args("--key|k")).is_err());
}

#[test]
fn an_effect_request_commits_to_a_hash_or_a_file() {
    let base = format!(
        "--action|kernel.x|--target|t|--requester|r|--key|k|--mandate|{}|--in-force|1|--out|o",
        "7c".repeat(32)
    );
    let (asked, given) = effect_ask(&args(&format!("{base}|--args-from|f"))).unwrap();
    assert!(matches!(given, Arguments::File(p) if p == "f"));
    assert_eq!(asked.component, "kernel");
    assert_eq!(asked.classification, "consequential");
    let hash = "91".repeat(32);
    let (_, given) = effect_ask(&args(&format!("{base}|--args-hash|{hash}"))).unwrap();
    assert!(matches!(given, Arguments::Stated(h) if h == hash));
    assert!(effect_ask(&args(&base)).unwrap_err().contains("exactly one of"));
    assert_eq!(
        effect_ask(&args(&format!("{base}|--args-hash|zz"))).unwrap_err(),
        "--args-hash zz is not 64 lowercase hex digits"
    );
    assert!(effect_ask(&args("--action|a")).is_err());
    let mut dry = stamp();
    dry.nonce = Err(Error::new("x", "y".to_owned()));
    assert_eq!(
        effect_request(&asked, &hash, &dry).unwrap_err(),
        "could not stamp the request"
    );
}

fn answered(status: u16, body: &str) -> Result<Answer, String> {
    Ok(Answer { status, body: body.to_owned() })
}

#[test]
fn only_an_approval_is_something_to_publish_under() {
    let read = answered(200, "");
    let fetch = |body: &str| fetch_decision("h", &read, &Ok(json(body)));
    assert_eq!(
        fetch("{\"decision\":{\"decision\":\"approve\"}}").unwrap().text_at("decision"),
        Some("approve")
    );
    assert_eq!(
        fetch("{\"decision\":{\"decision\":\"deny\",\"reason\":\"no\"}}").unwrap_err(),
        "h was denied: no"
    );
    assert_eq!(
        fetch("{\"decision\":{\"decision\":\"deny\"}}").unwrap_err(),
        "h was denied: no reason recorded"
    );
    assert!(fetch("{}").unwrap_err().contains("has not been answered yet"));
    assert_eq!(fetch("{\"decision\":{}}").unwrap_err(), "h carries no readable decision");
    let parsed = Ok(Json::Null);
    assert_eq!(
        fetch_decision("h", &answered(404, "gone"), &parsed).unwrap_err(),
        "the kernel has no answerable request h (404): gone"
    );
    assert_eq!(
        fetch_decision("h", &Err("down".to_owned()), &parsed).unwrap_err(),
        "reading the parked request: down"
    );
    assert_eq!(
        fetch_decision("h", &answered(200, "x"), &Err("bad".to_owned())).unwrap_err(),
        "the kernel's answer: bad"
    );
}

#[test]
fn a_publication_extends_the_stream_it_names() {
    let read = answered(200, "");
    let listed = Ok(json(
        "{\"streams\":[{\"stream\":\"a\"},{\"stream\":\"kernel:core\",\"head-seq\":4,\"head-hash\":\"hh\"}]}",
    ));
    let (seq, prev) = head_of("kernel:core", &read, &listed).unwrap();
    assert_eq!(seq, 5);
    assert_eq!(prev.as_text(), Some("hh"));
    assert_eq!(head_of("a", &read, &listed).unwrap_err(), "a has no readable head");
    assert!(head_of("b", &read, &listed).unwrap_err().starts_with("b holds nothing"));
    assert_eq!(
        head_of("b", &answered(401, ""), &listed).unwrap_err(),
        "the kernel refused /v1/streams (401)"
    );
}

#[test]
fn a_lost_race_is_tried_again_while_there_are_attempts_left() {
    let lost = answered(422, "{\"reason-code\":\"chain-seq-duplicate\"}");
    assert!(contended("xx chain-prev-hash-mismatch"));
    assert!(!contended("mandate-expired"));
    assert!(matches!(after_publish("policy-publish", 0, &lost), Published::Again(200)));
    assert!(matches!(after_publish("policy-publish", 1, &lost), Published::Again(400)));
    assert!(matches!(after_publish("policy-publish", 2, &lost), Published::Again(800)));
    assert!(matches!(
        after_publish("policy-publish", 3, &lost),
        Published::Refused(m) if m == "the kernel refused it (422)"
    ));
    assert!(matches!(after_effect("root-publish", "s", 2, &lost), Published::Again(800)));
    assert!(matches!(
        after_effect("root-publish", "s", 3, &lost),
        Published::Contended(m) if m == "s stayed contended for 4 attempts; nothing was recorded"
    ));
    assert!(matches!(
        after_effect("root-publish", "s", 3, &answered(422, "mandate-expired")),
        Published::Refused(m) if m == "the kernel refused it (422)"
    ));
    let refused = answered(422, "mandate-expired");
    assert!(matches!(
        after_publish("policy-publish", 0, &refused),
        Published::Refused(m) if m == "the kernel refused it (422)"
    ));
    assert!(matches!(
        after_publish("policy-publish", 0, &answered(201, "")),
        Published::Recorded
    ));
    assert!(matches!(
        after_publish("policy-publish", 0, &Err("down".to_owned())),
        Published::Refused(m) if m == "policy-publish: down"
    ));
}

fn facts() -> PublishFacts {
    PublishFacts {
        decision: Ok(json("{\"decision\":\"approve\"}")),
        key: Ok(key(1)),
        now: Ok(NOW.to_owned()),
        head: Ok((5, Json::Text("hh".to_owned()))),
    }
}

fn publication() -> PublishAsk {
    publish_ask(&args("--url|u|--request|q|--document|d|--key|k")).unwrap()
}

#[test]
fn what_is_published_is_what_was_approved() {
    let hash = "91".repeat(32);
    let request = json(&format!(
        "{{\"args-hash\":\"{hash}\",\"subject\":\"agent:p\",\"mandate-ref\":\"m\",\"policy-version\":\"1\",\"target\":\"policy:2\"}}"
    ));
    let ok = Ok("00".repeat(32));
    let e = policy_publish(&publication(), &request, &ok, &Ok(hash.clone()), &facts()).unwrap();
    assert_eq!(e.text_at("kind"), Some("policy-change"));
    assert_eq!(e.text_at("stream"), Some("kernel:core"));
    assert_eq!(e.at("seq").as_u64(), Some(5));
    assert_eq!(e.text_at("prev-hash"), Some("hh"));
    assert_eq!(e.at("execution").text_at("args-hash"), Some(hash.as_str()));
    assert_eq!(e.at("evidence").text_at("retain-until"), Some("2027-07-26T09:00:00.000Z"));
    assert!(e.at("authorization").at("request").is_same(&request));
    let other = check_document(&publication(), &request, &ok, &Ok("22".repeat(32))).unwrap_err();
    assert!(other.starts_with("d is not the document q asks to publish"));
    let none = check_document(&publication(), &Json::Null, &ok, &Ok(hash.clone())).unwrap_err();
    assert!(none.contains("commits to nothing"));
    let mut headless = facts();
    headless.head = Err("no head".to_owned());
    assert_eq!(
        policy_publish(&publication(), &request, &ok, &Ok(hash), &headless).unwrap_err(),
        "no head"
    );
    assert!(publish_ask(&args("--url|u")).is_err());
}

fn reread(hash: &str) -> Reread {
    Reread { path: "e".to_owned(), document: json("{\"a\":1}"), hash: Ok(hash.to_owned()) }
}

#[test]
fn evidence_is_hashed_again_before_it_is_published() {
    let hash = "91".repeat(32);
    let request = json(&format!(
        "{{\"action\":\"kernel.enroll_root\",\"args-hash\":\"{hash}\",\"component\":\"kernel\",\"target\":\"t\"}}"
    ));
    assert!(is_enrolment(&request));
    let now = Ok(NOW.to_owned());
    let carried = root_publish(&request, Some(&reread(&hash)), &now).unwrap();
    assert_eq!(carried.payloads[0].text_at("payload-hash"), Some(hash.as_str()));
    assert_eq!(carried.evidence.unwrap().text_at("schema"), Some("kernel.enroll_root.v1"));
    assert!(root_publish(&request, None, &now).unwrap().payloads.is_empty());
    assert!(root_publish(&request, Some(&reread("22")), &now)
        .unwrap_err()
        .ends_with("this is not the evidence that was approved"));
    let a = args("--retain-days|7");
    let carried = effect_publish(&a, &request, Some(&reread(&hash)), &now).unwrap();
    let evidence = carried.evidence.unwrap();
    assert_eq!(evidence.text_at("retain-until"), Some("2026-08-02T09:00:00.000Z"));
    let e = publish_effect("s", &request, Some(&evidence), &facts()).unwrap();
    assert_eq!(e.text_at("kind"), Some("effect"));
    assert_eq!(e.at("execution").text_at("action"), Some("kernel.enroll_root"));
    assert!(publish_effect("s", &request, None, &facts()).unwrap().get("evidence").is_none());
}

#[test]
fn a_draft_is_unsigned_and_can_be_signed() {
    let held = json("{\"policy-version\":\"1\",\"sig\":{\"key\":\"k\"},\"x\":2}");
    assert_eq!(policy_current(Some(&held)).unwrap(), "1");
    assert!(policy_current(None).is_err());
    assert!(policy_sign("p", &held).unwrap_err().starts_with("p still carries a sig"));
    let (draft, from) = policy_draft(Some(held.copy()), "2").unwrap();
    assert_eq!(from, "1");
    assert_eq!(draft.text_at("policy-version"), Some("2"));
    assert_eq!(draft.at("x").as_u64(), Some(2));
    assert!(policy_sign("p", &draft).is_ok());
    assert!(policy_draft(Some(held), "1").unwrap_err().starts_with("1 is already in force"));
    assert!(policy_draft(None, "2").is_err());
    assert!(policy_draft(Some(Json::Null), "2").is_err());
    assert_eq!(policy_sign("p", &json("{}")).unwrap_err(), "p carries no policy-version");
}

#[test]
fn an_empty_store_is_no_verified_store() {
    let head = Ok(None);
    assert!(verify(&Vec::new(), "r", 0, &head).verdict.unwrap_err().starts_with("no streams"));
    let report = json("{\"count\":2,\"head-hash\":\"hh\",\"anchored\":true}");
    let good = vec![("kernel:core".to_owned(), Ok(report.copy()))];
    let v = verify(&good, "r", 3, &Ok(Some("rr".to_owned())));
    assert_eq!(v.lines[0], "kernel:core: 2 envelopes, head \"hh\", anchored true");
    assert_eq!(v.lines[1], "r: 3 rejection records, head rr");
    assert_eq!(v.verdict.unwrap(), "all 1 streams verify");
    let bad = vec![
        ("a".to_owned(), Err(Error::new("chain-prev-hash-mismatch", "at 1".to_owned()))),
        ("b".to_owned(), Ok(report)),
    ];
    let v = verify(&bad, "r", 0, &Err(Error::new("x", "y".to_owned())));
    assert_eq!(v.lines[0], "a: FAILED chain-prev-hash-mismatch: at 1");
    assert_eq!(v.verdict.unwrap_err(), "2 stream(s) failed verification");
}

#[test]
fn a_certification_names_a_program() {
    let asked = conformance(&args("--manifest|m|--component|python3 -m  self_test")).unwrap();
    assert_eq!(asked.command, ["python3", "-m", "self_test"]);
    assert_eq!(
        conformance(&args("--manifest|m|--component| ")).unwrap_err(),
        "--component names no program"
    );
    assert!(conformance(&args("--manifest|m")).is_err());
    assert!(is_corpus_document(&json("{\"kind\":\"jcs\"}")));
    assert!(!is_corpus_document(&json("{}")));
}

#[test]
fn a_kernel_is_awaited_for_so_long() {
    assert_eq!(health_seconds(&args("--timeout|5")), 5);
    assert_eq!(health_seconds(&args("--timeout|x")), 60);
    assert!(matches!(after_look("u", true, true, 5), Waited::Up(_)));
    assert!(matches!(after_look("u", false, false, 5), Waited::Again));
    assert!(matches!(
        after_look("u", false, true, 5),
        Waited::GaveUp(m) if m == "u did not answer /health within 5s"
    ));
}
