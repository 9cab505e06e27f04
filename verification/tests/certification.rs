use stozher_kernel::conformance::declared::{
    actions_of, check_durable_objects, check_per_action_emission, uncovered, Tried,
};
use stozher_kernel::conformance::driven::{
    check_aggregation, check_negative_cases, check_offline_behaviour, expected_of, read_actions,
    verdict_of, Expected, Move, Verdict, NEGATIVE_CASES,
};
use stozher_kernel::conformance::vectors::{
    check_vectors, vector_answers, vector_requests, vectors_question,
};
use stozher_kernel::conformance::GroupResult;
use stozher_kernel::crypto::sha256_hex;
use stozher_kernel::error::Error;
use stozher_kernel::harness::{
    accept, attempt_args_hash, authorization, brief_grant, check_key, collect_samples,
    consequential_action, context, decay_group, grant_to, hello as hello_question, introduction,
    offline_actions,
    prepare_negatives, publish_mandate, run, run_ceremony, run_config, sample_answer,
    sample_request, Groups,
};
use stozher_kernel::ingest::admission::Appended;
use stozher_kernel::ingest::submission::{Head, Outcome};
use stozher_kernel::json::Json;
use stozher_kernel::keys::KeyId;
use stozher_kernel::manifest::Manifest;

fn from_value(value: &serde_json::Value) -> Json {
    match value {
        serde_json::Value::Null => Json::Null,
        serde_json::Value::Bool(b) => Json::Bool(*b),
        serde_json::Value::Number(n) => match (n.as_u64(), n.as_i64()) {
            (Some(u), _) => Json::Unsigned(u),
            (None, Some(i)) => Json::Signed(i),
            (None, None) => Json::Number(n.to_string()),
        },
        serde_json::Value::String(s) => Json::Text(s.clone()),
        serde_json::Value::Array(items) => Json::List(items.iter().map(from_value).collect()),
        serde_json::Value::Object(members) => {
            Json::Record(members.iter().map(|(k, v)| (k.clone(), from_value(v))).collect())
        }
    }
}

fn json(text: &str) -> Json {
    from_value(&serde_json::from_str::<serde_json::Value>(text).unwrap())
}

fn key(byte: u8) -> KeyId {
    KeyId::parse(&format!("ed25519:{}", hex::encode([byte; 32]))).unwrap()
}

fn manifest_document() -> Json {
    json(
        "{\"v\":\"stozher/0.1\",\"kind\":\"manifest\",\"name\":\"notes\",\"version\":\"1.0.0\",\
         \"subject-class\":\"executor\",\"actions\":[\
         {\"action\":\"notes.read\",\"class\":\"read\",\"evidence-schema\":\"notes.v1\",\"idempotent\":true,\
         \"target-kind\":\"note\",\"aggregate\":{\"max-samples\":2,\"sampling\":\"first\"}},\
         {\"action\":\"notes.delete\",\"class\":\"consequential\",\"evidence-schema\":\"notes.v1\",\
         \"idempotent\":false,\"target-kind\":\"note\"}],\
         \"evidence-schemas\":{\"notes.v1\":{\"additionalProperties\":false}},\
         \"budget-dimensions\":[\"requests\",\"money-eur\"],\
         \"durable-objects\":[{\"object-type\":\"note\",\"id-kind\":\"opaque\",\"transitions\":[\
         {\"transition\":\"create\",\"from\":[],\"to\":\"open\",\"signers\":[\"agent\",\"human\"]},\
         {\"transition\":\"close\",\"from\":[\"open\"],\"to\":\"closed\",\"signers\":[\"human\"]}]}],\
         \"conformance\":{\"self-test\":\"notes.self_test\",\"vectors-version\":\"1\"}}",
    )
}

fn manifest_of(document: &Json) -> Result<Manifest, Error> {
    Manifest::parse(document, &Ok(key(7)), &Ok("33".repeat(32)))
}

const AT: &str = "2026-07-26T09:00:00.000Z";

fn manifest() -> Manifest {
    manifest_of(&manifest_document()).unwrap()
}

fn accepted() -> Outcome {
    Outcome::Accepted(Appended {
        id: "e".to_owned(),
        stream: "s".to_owned(),
        seq: 0,
        idempotent: false,
    })
}

fn refused(reason: &str) -> Outcome {
    Outcome::Rejected { reason: reason.to_owned(), detail: "d".to_owned(), record: None }
}

fn detail(result: GroupResult) -> String {
    match result {
        GroupResult::Failed { detail } => detail,
        other => panic!("{other:?}"),
    }
}

fn passed(result: GroupResult) -> u32 {
    match result {
        GroupResult::Passed { checks } => checks,
        other => panic!("{other:?}"),
    }
}

#[test]
fn a_durable_object_is_held_to_its_own_table() {
    assert_eq!(passed(check_durable_objects(&manifest())), 4);
    let none = manifest_of(&manifest_document().with("durable-objects", json("[]"))).unwrap();
    assert!(matches!(check_durable_objects(&none), GroupResult::NotApplicable { .. }));
}

fn sample(action: &str) -> Json {
    json(&format!("{{\"envelope\":{{\"execution\":{{\"action\":\"{action}\"}}}}}}"))
}

#[test]
fn every_declared_action_is_sampled_and_accepted() {
    let m = manifest();
    assert_eq!(actions_of(&m), ["notes.read", "notes.delete"]);
    let both = vec![sample("notes.read"), sample("notes.delete")];
    let tried = || vec![Tried::Answered(accepted()), Tried::Answered(accepted())];
    assert_eq!(passed(check_per_action_emission(&m, &both, &tried()).unwrap()), 3);
    assert!(uncovered(&m, &both).is_none());
    let turned = vec![Tried::Answered(refused("mandate-expired"))];
    let why = detail(check_per_action_emission(&m, &both, &turned).unwrap());
    assert_eq!(why, "the sample for notes.read was rejected mandate-expired: d");
    let down = || vec![Tried::Answered(Outcome::Unavailable("x".to_owned()))];
    assert_eq!(
        check_per_action_emission(&m, &both, &down()).unwrap_err().code(),
        "x-store-unavailable"
    );
    let odd = vec![Tried::NotCanonical(Error::new("jcs", "n".to_owned()))];
    let why = detail(check_per_action_emission(&m, &both, &odd).unwrap());
    assert!(why.starts_with("the sample for notes.read does not canonicalize: "));
    let nameless = vec![sample("notes.read"), json("{}")];
    assert!(uncovered(&m, &nameless).is_none());
    let first = vec![Tried::Answered(accepted())];
    let why = detail(check_per_action_emission(&m, &nameless, &first).unwrap());
    assert_eq!(why, "a sample carries no execution.action");
}

#[test]
fn coverage_is_judged_before_any_sample_is_submitted() {
    let m = manifest();
    let one = vec![sample("notes.read")];
    let said = "no sample was emitted for 1 of 2 declared actions: [\"notes.delete\"]";
    assert_eq!(detail(uncovered(&m, &one).unwrap()), said);
    let down = vec![Tried::Answered(Outcome::Unavailable("x".to_owned()))];
    for tried in [Vec::new(), down, vec![Tried::Answered(accepted())]] {
        assert_eq!(detail(check_per_action_emission(&m, &one, &tried).unwrap()), said);
    }
    let none = manifest_of(&manifest_document().with("actions", json("[]")));
    assert!(none.is_err());
}

#[test]
fn a_vector_is_asked_without_its_answer() {
    assert_eq!(vector_answers("sha256"), ["sha256"]);
    let document = |kind: &str, vectors: &str| {
        json(&format!("{{\"kind\":\"{kind}\",\"vectors\":{vectors}}}"))
    };
    let corpus = vec![
        document("jcs", "[]"),
        document("sha256", "[{\"name\":\"empty\",\"input\":\"\",\"sha256\":\"e3\"}]"),
        document("ed25519", "[{\"name\":\"v\",\"signature\":\"s\",\"verifies\":true}]"),
        document("object-hash", "[]"),
        document("chain", "[{\"name\":\"c\",\"expected\":{\"valid\":true,\"count\":2}}]"),
    ];
    let plan = vector_requests(&corpus).unwrap();
    assert_eq!(plan.requests.len(), 3);
    assert!(plan.requests[0].get("sha256").is_none());
    assert_eq!(plan.requests[0].text_at("id"), Some("sha256/empty"));
    assert_eq!(plan.requests[1].text_at("signature"), Some("s"));
    assert!(plan.requests[1].get("verifies").is_none());
    let answer = |chain: &str| {
        Ok(json(&format!(
            "{{\"answers\":{{\"sha256/empty\":{{\"sha256\":\"e3\"}},\"ed25519/v\":{{\"verifies\":true}},\"chain/c\":{chain}}}}}"
        )))
    };
    let good = answer("{\"expected\":{\"valid\":true,\"count\":2}}");
    assert_eq!(passed(check_vectors(&plan.expected, &good)), 4);
    let bad = answer("{\"expected\":{\"valid\":true,\"count\":3}}");
    assert_eq!(
        detail(check_vectors(&plan.expected, &bad)),
        "vector chain/c: expected.count was 3 where the corpus says 2"
    );
    let none = Ok(json("{\"answers\":{}}"));
    assert!(detail(check_vectors(&plan.expected, &none)).starts_with("the component did not answer vector "));
    let error = Ok(json("{\"error\":\"no\"}"));
    assert_eq!(
        detail(check_vectors(&plan.expected, &error)),
        "the component answered with an error: no"
    );
    assert!(detail(check_vectors(&plan.expected, &Ok(json("{}")))).contains("`answers`"));
    assert_eq!(
        detail(check_vectors(&plan.expected, &Err("gone".to_owned()))),
        "the component could not be driven: gone"
    );
    assert!(vector_requests(&vec![document("jcs", "[]")]).unwrap_err().contains("\"sha256\""));
    assert!(vector_requests(&vec![document("jcs", "[{\"canonical\":1}]")]).unwrap_err().contains("has no name"));
}

fn ctx() -> Json {
    context(AT, "m")
}

#[test]
fn a_window_of_reads_is_folded() {
    let m = manifest();
    assert_eq!(read_actions(&m), [("notes.read".to_owned(), 2)]);
    match check_aggregation(&m, &ctx(), &Vec::new(), &Vec::new()) {
        Move::Ask(q) => {
            assert_eq!(q.text_at("case"), Some("emit"));
            assert_eq!(q.at("count").as_u64(), Some(3));
        }
        other => panic!("{other:?}"),
    }
    let record = |calls: u64, samples: &str| {
        Ok(json(&format!(
            "{{\"submissions\":[{{\"envelope\":{{\"kind\":\"aggregate\",\"mandate-ref\":\"m\",\
             \"policy-version\":\"conformance.1\",\"sample-hashes\":{samples},\
             \"counts\":{{\"by-action\":{{\"notes.read\":{calls}}}}}}}}}]}}"
        )))
    };
    let answers = vec![record(3, "[\"a\"]")];
    assert!(matches!(
        check_aggregation(&m, &ctx(), &answers, &Vec::new()),
        Move::Submit(_, who) if who == "agent:conformance"
    ));
    let ok = || vec![Ok(Verdict::Accepted)];
    match check_aggregation(&m, &ctx(), &answers, &ok()) {
        Move::Conclude(r) => assert_eq!(passed(r), 3),
        other => panic!("{other:?}"),
    }
    let concluded = |answers: Vec<Result<Json, String>>| match check_aggregation(&m, &ctx(), &answers, &ok()) {
        Move::Conclude(r) => detail(r),
        other => panic!("{other:?}"),
    };
    assert!(concluded(vec![record(2, "[\"a\"]")]).contains("account for 2 calls where the harness drove 3"));
    assert!(concluded(vec![record(3, "[1,2,3]")]).contains("sampled 3 calls against its declared max-samples of 2"));
    assert!(concluded(vec![Ok(json("{}"))]).contains("emitted nothing"));
    assert!(concluded(vec![Err("x".to_owned())]).contains("could not be driven for notes.read: x"));
    let down = vec![Err(Error::new("x-store-unavailable", "d".to_owned()))];
    assert!(matches!(
        check_aggregation(&m, &ctx(), &vec![record(3, "[\"a\"]")], &down),
        Move::Fail(_)
    ));
}

#[test]
fn every_attempt_that_must_be_refused_is_refused_for_its_reason() {
    let verdict = |reason: &str| {
        Ok(Verdict::Rejected { reason: reason.to_owned(), detail: "d".to_owned() })
    };
    let prepared = prepare_negatives(Some("notes.delete"), &json("{}"), "brief", AT);
    let mut answers: Vec<Result<Json, String>> = Vec::new();
    let mut verdicts: Vec<Result<Verdict, Error>> = Vec::new();
    for case in NEGATIVE_CASES {
        if case != "administrative-path" {
            match check_negative_cases(&ctx(), &prepared, &answers, &verdicts) {
                Move::Ask(q) => assert_eq!(q.text_at("negative"), Some(case)),
                other => panic!("{other:?}"),
            }
            let body = if case == "prohibited-attempted" {
                "{\"submissions\":[{\"envelope\":{\"execution\":{\"outcome\":\"attempted\"}}}]}"
            } else {
                "{\"submissions\":[{\"envelope\":{}}]}"
            };
            answers.push(Ok(json(body)));
        }
        match check_negative_cases(&ctx(), &prepared, &answers, &verdicts) {
            Move::Submit(_, who) if case == "administrative-path" => {
                assert_eq!(who, "operator:kernel-admin");
            }
            Move::Submit(_, who) => assert_eq!(who, "agent:conformance"),
            other => panic!("{other:?}"),
        }
        verdicts.push(match expected_of(case) {
            Expected::Refused(codes) => verdict(&codes[0]),
            Expected::AttemptRecorded => Ok(Verdict::Accepted),
        });
    }
    match check_negative_cases(&ctx(), &prepared, &answers, &verdicts) {
        Move::Conclude(r) => assert_eq!(passed(r), 8),
        other => panic!("{other:?}"),
    }
    verdicts[0] = Ok(Verdict::Accepted);
    match check_negative_cases(&ctx(), &prepared, &answers, &verdicts) {
        Move::Conclude(r) => assert_eq!(
            detail(r),
            "gate-authorization-missing was accepted; conformance requires [\"gate-authorization-missing\"]"
        ),
        other => panic!("{other:?}"),
    }
    assert!(matches!(verdict_of(&accepted()), Ok(Verdict::Accepted)));
    assert!(matches!(verdict_of(&refused("x")), Ok(Verdict::Rejected { reason, .. }) if reason == "x"));
    assert!(verdict_of(&Outcome::Unavailable("x".to_owned())).is_err());
}

fn queued_answer(second_prev: &str) -> Option<Result<Json, String>> {
    Some(Ok(json(&format!(
        "{{\"blocked\":[\"notes.delete\"],\"submissions\":[\
         {{\"envelope\":{{\"stream\":\"s\",\"seq\":0,\"prev-hash\":null}}}},\
         {{\"envelope\":{{\"stream\":\"s\",\"seq\":1,\"prev-hash\":\"{second_prev}\"}}}}]}}"
    ))))
}

#[test]
fn an_offline_queue_is_a_chain_that_lands() {
    let actions = vec!["notes.read".to_owned()];
    let ids = || vec![Ok("i0".to_owned()), Ok("i1".to_owned())];
    let next = |answer: &Option<Result<Json, String>>,
                heads: Vec<Result<Option<Head>, Error>>,
                verdicts: usize| {
        let verdicts: Vec<Result<Verdict, Error>> =
            (0..verdicts).map(|_| Ok(Verdict::Accepted)).collect();
        check_offline_behaviour(&ctx(), &actions, "notes.delete", answer, &ids(), &heads, &verdicts)
    };
    assert!(matches!(next(&None, Vec::new(), 0), Move::Ask(q) if q.text_at("gated") == Some("notes.delete")));
    let good = queued_answer("i0");
    assert!(matches!(next(&good, Vec::new(), 0), Move::Look(s) if s == "s"));
    assert!(matches!(next(&good, vec![Ok(None)], 0), Move::Submit(_, _)));
    assert!(matches!(next(&good, vec![Ok(None)], 2), Move::Look(_)));
    let landed = |seq: u64, id: &str| Ok(Some(Head { seq, id: id.to_owned() }));
    match next(&good, vec![Ok(None), landed(1, "i1")], 2) {
        Move::Conclude(r) => assert_eq!(passed(r), 6),
        other => panic!("{other:?}"),
    }
    let failed = |answer: &Option<Result<Json, String>>, heads| match next(answer, heads, 2) {
        Move::Conclude(r) => detail(r),
        other => panic!("{other:?}"),
    };
    assert!(failed(&good, vec![Ok(None), landed(0, "i0")]).starts_with(
        "the queue was accepted but s now heads at Some((0, \"i0\"))"
    ));
    assert!(failed(&queued_answer("zz"), Vec::new()).contains("does not link"));
    assert!(failed(&good, vec![landed(7, "x")]).contains("continues at 8"));
    let open = Some(Ok(json("{\"submissions\":[{\"envelope\":{\"seq\":0}}]}")));
    assert!(failed(&open, Vec::new()).contains("did not report blocking it offline"));
}

fn hello(stream: &str) -> Json {
    json(&format!("{{\"subject\":\"agent:n\",\"key\":\"{}\",{stream}}}", key(7).as_str()))
}

#[test]
fn a_component_introduces_itself_with_the_key_of_its_manifest() {
    let who = introduction(&hello("\"stream\":\"s\"")).unwrap();
    assert_eq!((who.subject.as_str(), who.stream.as_str()), ("agent:n", "s"));
    assert!(check_key(&who, &manifest()).is_ok());
    let other = Manifest::parse(&manifest_document(), &Ok(key(8)), &Ok("33".repeat(32))).unwrap();
    assert_eq!(check_key(&who, &other).unwrap_err().code(), "x-conformance-harness-failed");
    assert!(introduction(&hello("\"x\":1")).is_err());
    assert!(introduction(&json("{}")).is_err());
    assert!(accept(&accepted()).is_ok());
    assert_eq!(accept(&refused("x")).unwrap_err().code(), "x-conformance-harness-failed");
    assert_eq!(
        accept(&Outcome::Unavailable("d".to_owned())).unwrap_err().code(),
        "x-store-unavailable"
    );
}

#[test]
fn a_run_grants_and_asks_what_the_manifest_declares() {
    assert_eq!(hello_question().to_text(), "{\"case\":\"hello\"}");
    assert_eq!(
        vectors_question(vec![Json::Unsigned(1)]).to_text(),
        "{\"case\":\"vectors\",\"vectors\":[1]}"
    );
    let ceremony = run_ceremony(AT);
    assert_eq!(ceremony.root_subject, "human:conformance-operator");
    let config = run_config(&json("{\"policy-key\":\"p\",\"roots\":[1]}"));
    assert_eq!(config.text_at("database"), Some(":memory:"));
    assert_eq!(config.text_at("policy-key"), Some("p"));
    let k = key(7);
    assert_eq!(grant_to("agent:n", &k, AT).days, 30);
    assert_eq!(brief_grant("agent:n", &k, AT).classes, ["read"]);
    let env = publish_mandate(&k, &Some(Head { seq: 1, id: "h".to_owned() }), &json("{\"g\":1}"), AT);
    assert_eq!(env.at("seq").as_u64(), Some(2));
    assert_eq!(env.at("mandate").at("g").as_u64(), Some(1));
    let who = introduction(&hello("\"stream\":\"s\"")).unwrap();
    let (request, until) = authorization(&who, "m", "notes.delete", "t", "91", AT).unwrap();
    assert_eq!(request.text_at("not-after"), Some(until.as_str()));
    assert_eq!(request.text_at("subject"), Some("agent:n"));
    let nonce = sha256_hex("notes.delete|t".as_bytes());
    assert_eq!(request.text_at("nonce"), Some(&nonce[..32]));
    let m = manifest();
    let samples = collect_samples(&m);
    assert_eq!(samples.len(), 2);
    assert!(!samples[0].gated && samples[1].gated);
    assert_eq!(samples[0].args_hash, sha256_hex("conformance-sample-notes.read".as_bytes()));
    let asked = sample_request(&ctx(), &samples[1], Some(&json("{\"a\":1}")));
    assert_eq!(asked.at("authorization").at("a").as_u64(), Some(1));
    assert!(sample_request(&ctx(), &samples[0], None).get("authorization").is_none());
    assert_eq!(sample_answer("a", &Ok(json("{\"submissions\":[1]}"))).unwrap().len(), 1);
    assert_eq!(
        sample_answer("a", &Ok(json("{\"error\":\"no\"}"))).unwrap_err(),
        "a: the component answered no"
    );
    assert_eq!(consequential_action(&m), Some("notes.delete".to_owned()));
    assert_eq!(
        offline_actions(&m),
        Some((
            vec!["notes.read".to_owned(), "notes.delete".to_owned()],
            "notes.delete".to_owned()
        ))
    );
    assert_eq!(attempt_args_hash(), sha256_hex("conformance-args".as_bytes()));
    assert_eq!(prepare_negatives(None, &Json::Null, "b", AT).to_text(), "{}");
}

#[test]
fn a_run_records_each_group_or_says_why_it_could_not() {
    let pass = || GroupResult::Passed { checks: 1 };
    let groups = |offline: Option<GroupResult>| Groups {
        vectors: pass(),
        emission: Ok(pass()),
        aggregation: pass(),
        negatives: pass(),
        offline,
        durable: pass(),
        decay: pass(),
    };
    let m = manifest();
    let green = run(&m, AT, groups(Some(pass())));
    assert!(green.is_green());
    assert_eq!(green.manifest_hash, "33".repeat(32));
    let red = run(&m, AT, groups(None));
    assert_eq!(red.outstanding(), ["offline-behaviour"]);
    let head = |h: &str| Ok(json(&format!("{{\"head-hash\":\"{h}\"}}")));
    assert!(decay_group("s", &head("a"), 1, &head("a")).unwrap().satisfied());
    assert!(!decay_group("s", &head("a"), 1, &head("b")).unwrap().satisfied());
    let broken = || Err(Error::new("c", "d".to_owned()));
    assert_eq!(
        detail(decay_group("s", &broken(), 1, &head("a")).unwrap()),
        "s did not verify before decay: c: d"
    );
    assert!(!decay_group("s", &head("a"), 1, &broken()).unwrap().satisfied());
    let down = || Err(Error::new("x-store-unavailable", "d".to_owned()));
    for (before, after) in [(down(), head("a")), (head("a"), down())] {
        assert_eq!(
            decay_group("s", &before, 1, &after).unwrap_err().code(),
            "x-store-unavailable"
        );
    }
}
