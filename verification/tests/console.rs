use stozher_kernel::config::RateLimit;
use stozher_kernel::console::deciding::{
    decide, decided, form_fields, submit_decision, submitted_decision, Answered, DecideFacts,
};
use stozher_kernel::console::encoding::{form_decode, percent_encode};
use stozher_kernel::console::filters::Filters;
use stozher_kernel::console::pages::{
    audit, bad_cursor, envelope, export, export_batch, export_query, exported, ignored, mandates,
    mismatch_row, overview, pending, recorded, rejections, spike_row, unauthenticated, verify,
    watch_threshold, Counts,
};
use stozher_kernel::console::rows::{
    chain_links, human_root_of, mandate_row, pending_row, quiet_after_seconds, rejection_row,
    revocation_row, row, stream_row, PendingFacts, StreamStatus,
};
use stozher_kernel::console::shaping::{
    age_seconds, humanize, patterns, preview, preview_of, short, short_key, text,
};
use stozher_kernel::error::Error;
use stozher_kernel::http::reads::Stored;
use stozher_kernel::ingest::approvers::Approver;
use stozher_kernel::json::Json;
use stozher_kernel::keys::KeyId;

fn from_value(value: &serde_json::Value) -> Json {
    match value {
        serde_json::Value::Null => Json::Null,
        serde_json::Value::Bool(b) => Json::Bool(*b),
        serde_json::Value::Number(n) => match (n.as_u64(), n.as_i64()) {
            (Some(u), _) => Json::Unsigned(u),
            (None, Some(i)) => Json::Signed(i),
            (None, None) => Json::Number(n.to_string()),
        },
        serde_json::Value::String(s) => Json::Text(s.clone()),
        serde_json::Value::Array(items) => Json::List(items.iter().map(from_value).collect()),
        serde_json::Value::Object(members) => {
            Json::Record(members.iter().map(|(k, v)| (k.clone(), from_value(v))).collect())
        }
    }
}

fn json(text: &str) -> Json {
    from_value(&serde_json::from_str::<serde_json::Value>(text).unwrap())
}

const NOW: &str = "2026-07-26T09:00:00.000Z";

fn pairs(items: &[(&str, &str)]) -> Vec<(String, String)> {
    items.iter().map(|(k, v)| ((*k).to_owned(), (*v).to_owned())).collect()
}

fn key(byte: u8) -> KeyId {
    KeyId::parse(&format!("ed25519:{}", hex::encode([byte; 32]))).unwrap()
}

fn outage() -> Error {
    Error::new("x-store-unavailable", "down".to_owned())
}

#[test]
fn values_survive_a_query_string() {
    for s in ["", "plain-Text_1.~", "a b&c=d+e%#?", "žluťoučký — 漢字", "100%"] {
        assert_eq!(form_decode(&percent_encode(s)), s);
        assert!(percent_encode(s).is_ascii());
    }
    assert_eq!(percent_encode("a b&é"), "a%20b%26%C3%A9");
    assert_eq!(form_decode("a+b%2b%zz%4"), "a b+%zz%4");
    assert_eq!(form_decode("%C3"), "\u{fffd}");
    assert_eq!(form_decode("%+5"), "\u{5}");
    assert_eq!(form_decode("%aé"), "%aé");
}

#[test]
fn absence_is_shown_one_way() {
    assert_eq!(text(&Json::Null), "—");
    assert_eq!(text(&json("\"\"")), "—");
    assert_eq!(text(&json("\"x\"")), "x");
    assert_eq!(text(&json("7")), "7");
    assert_eq!(text(&json("{\"a\":[1,\"b\"]}")), "{\"a\":[1,\"b\"]}");
    assert_eq!(short(""), "—");
    assert_eq!(short("0123456789ab"), "0123456789ab");
    assert_eq!(short("0123456789abc"), "0123456789ab");
    assert_eq!(short_key("ed25519:0123456789abcdef"), "ed25519:0123456789ab");
    assert_eq!(short_key("—"), "—");
    assert_eq!(patterns(&json("[\"a\",\"b\"]")), "a, b");
    assert_eq!(patterns(&json("[]")), "—");
}

#[test]
fn spans_are_shown_in_human_units() {
    assert_eq!(age_seconds(NOW, "2026-07-26T09:00:01.900Z"), Some(1));
    assert_eq!(age_seconds("2026-07-26T09:00:01.900Z", NOW), Some(-1));
    assert_eq!(age_seconds("x", NOW), None);
    assert_eq!(humanize(-1), "in the future");
    assert_eq!(humanize(119), "119s");
    assert_eq!(humanize(120), "2m");
    assert_eq!(humanize(7_199), "119m");
    assert_eq!(humanize(7_200), "2h");
    assert_eq!(humanize(172_800), "2d");
    assert_eq!(quiet_after_seconds(None), 3_600);
    assert_eq!(quiet_after_seconds(Some(60)), 60);
}

#[test]
fn evidence_is_spread_over_lines_and_cut() {
    assert_eq!(preview("{\"a\":1}".as_bytes()), "{\n  \"a\": 1\n}");
    assert_eq!(preview("not json".as_bytes()), "not json");
    assert_eq!(preview(&[0xff]), "\u{fffd}");
    let long = preview_of("é".repeat(5_000), None);
    assert!(long.starts_with(&"é".repeat(4_096)));
    assert!(long.ends_with("GET /v1/payloads/<hash>"));
    assert_eq!(long.chars().filter(|c| *c == 'é').count(), 4_096);
}

fn filters(items: &[(&str, &str)]) -> Filters {
    Filters::from_params(&pairs(items))
}

#[test]
fn an_export_carries_the_filters_and_not_the_page() {
    let f = filters(&[
        ("subject", "agent:a b"),
        ("violations-only", "true"),
        ("limit", "5"),
        ("after", "c"),
    ]);
    assert_eq!(f.to_query_string(), "subject=agent%3Aa%20b&limit=5&violations-only=true");
    assert_eq!(f.to_export_query_string(), "subject=agent%3Aa%20b&violations-only=true");
    assert_eq!(f.cursor(true), Ok(Some("c")));
    assert_eq!(f.cursor(false), Err(()));
    assert_eq!(filters(&[]).cursor(false), Ok(None));
    assert_eq!(filters(&[]).limit, "200");
    assert_eq!(f.query().subject, Some("agent:a b"));
    assert_eq!(f.query().kind, None);
    assert_eq!(f.query().limit, 5);
    assert_eq!(f.query_from(Some("c")).after, Some("c"));
    assert_eq!(filters(&[("limit", "x")]).query().limit, 200);
    assert_eq!(export_query(&f, None).limit, 10_000);
}

#[test]
fn an_export_refuses_what_it_does_not_know() {
    let refused = export(&pairs(&[("zz", "1"), ("class", "x"), ("kind", "effect")])).unwrap_err();
    assert_eq!(refused.status, 400);
    assert!(refused.detail.starts_with("No such filter: class, zz. Nothing was exported."));
    assert!(refused.detail.ends_with("violations-only, after."));
    assert!(!export(&pairs(&[("after", "x"), ("limit", "1")])).unwrap());
    assert!(export(&pairs(&[("format", "html")])).unwrap());
    let refused = export(&pairs(&[("format", "csv")])).unwrap_err();
    assert!(refused.detail.starts_with("No such format: csv."));
    assert_eq!(ignored(&pairs(&[("b", ""), ("a", ""), ("format", "")]), false), ["a", "b", "format"]);
    assert_eq!(ignored(&pairs(&[("b", ""), ("a", ""), ("b", "1")]), false), ["a", "b"]);
    let twice = filters(&[("kind", "effect"), ("kind", "signal")]);
    assert_eq!(twice.query().kind, Some("signal"));
}

#[test]
fn an_export_ends_with_a_batch_that_is_not_full() {
    let lines = vec!["{\"a\":1}".to_owned(), "{\"b\":2}".to_owned()];
    let done = export_batch("{\"z\":0}\n".to_owned(), 1, &lines);
    assert_eq!(done.body, "{\"z\":0}\n{\"a\":1}\n{\"b\":2}\n");
    assert_eq!(done.records, 3);
    assert!(!done.more);
    assert!(export_batch(String::new(), 0, &vec![String::new(); 10_000]).more);
    let kept = record();
    let signed = exported(&kept);
    assert_eq!(signed.at("seq").as_u64(), Some(4));
    assert!(signed.get("human-root").is_none());
}

#[test]
fn matched_and_shown_are_different_numbers() {
    let f = filters(&[("kind", "effect"), ("limit", "2")]);
    let params = pairs(&[("kind", "effect"), ("limit", "2"), ("class", "x")]);
    let records = vec![json("{\"id\":\"a\"}"), json("{\"id\":\"b\"}")];
    let page = audit(&f, &params, &records, 9, false, Some("2026|b"));
    assert_eq!(page.shown, 2);
    assert_eq!(page.matched, 9);
    assert!(page.truncated);
    assert_eq!(page.ignored, ["class"]);
    assert_eq!(
        page.next.unwrap(),
        "/console/audit?kind=effect&limit=2&after=2026%7Cb"
    );
    let last = audit(&f, &params, &vec![json("{}")], 1, true, Some("x"));
    assert!(last.next.is_none());
    assert!(last.paged && !last.truncated);
    assert_eq!(bad_cursor().status, 400);
    assert!(unauthenticated("no").detail.starts_with("no. Every console page"));
}

fn record() -> Json {
    json(
        "{\"id\":\"0123456789abcdef\",\"human-root\":\"human:ivan\",\"effective-class\":\"read\",\
         \"policy-violation\":null,\"envelope\":{\"stream\":\"s\",\"seq\":4,\"kind\":\"effect\",\
         \"execution\":{\"action\":\"a.b\",\"outcome\":\"applied\"},\
         \"evidence\":{\"schema\":\"a.v1\",\"payload-hash\":\"91919191919191\"},\
         \"authorization\":{\"decision\":{\"decision\":\"deny\",\"reason\":\"no\",\"sig\":{\"key\":\"ed25519:00\"}}}}}",
    )
}

#[test]
fn a_row_shows_what_a_human_wrote() {
    let r = row(&record());
    assert_eq!(r.short, "0123456789ab");
    assert_eq!(r.seq, "4");
    assert_eq!(r.target, "—");
    assert_eq!(r.violation, "");
    assert_eq!(r.evidence, "a.v1 · 919191919191");
    assert_eq!(r.payload_hash, "91919191919191");
    assert_eq!(r.decided_by, "ed25519:00");
    assert_eq!(r.decision, "deny");
    assert_eq!(r.decision_reason, "no");
    assert_eq!(row(&Json::Null).evidence, "—");
    let answered = json(
        "{\"id\":\"ab\",\"envelope\":{\"kind\":\"gate-decision\",\"decision-of\":\"cd\",\
         \"decision\":{\"decision\":\"deny\",\"reason\":\"no DBA sign-off\",\"sig\":{\"key\":\"ed25519:11\"}}}}",
    );
    let r = row(&answered);
    assert_eq!((r.decision.as_str(), r.decision_reason.as_str()), ("deny", "no DBA sign-off"));
    assert_eq!(r.decided_by, "ed25519:11");
    let s = stored("{\"decision\":{\"decision\":\"deny\",\"decided-at\":\"t\",\"sig\":{\"key\":\"k\"}}}");
    let page = envelope(&Ok(Some(s)), &Ok(Vec::new()), &Ok(None)).unwrap();
    assert_eq!(page.authorization, "deny by k at t");
}

#[test]
fn a_stream_shows_its_silence_and_its_refusals_apart() {
    let d = json("{\"stream\":\"s\",\"last-appended-at\":\"2026-07-26T08:00:00.000Z\"}");
    let r = stream_row(&d, NOW, StreamStatus::Refused);
    assert!(r.refused && !r.quiet);
    assert_eq!(r.status, "refused");
    assert_eq!(r.silent_for, "60m");
    assert_eq!(stream_row(&Json::Null, NOW, StreamStatus::Quiet).silent_for, "—");
}

#[test]
fn a_revoked_mandate_is_shown_as_revoked() {
    let state = |body: &str| {
        let r = mandate_row(&json(body), NOW);
        (r.state, r.state_class, r.expires_in)
    };
    let own = |a: &str, b: &str, c: &str| (a.to_owned(), b.to_owned(), c.to_owned());
    assert_eq!(
        state("{\"not-after\":\"2026-07-26T08:00:00.000Z\",\"revoked-at\":\"x\"}"),
        own("revoked", "prohibited", "60m ago")
    );
    assert_eq!(
        state("{\"not-after\":\"2026-07-26T08:00:00.000Z\"}"),
        own("expired", "prohibited", "60m ago")
    );
    assert_eq!(
        state("{\"not-after\":\"2026-08-02T08:59:59.000Z\"}"),
        own("expiring", "quiet", "in 6d")
    );
    assert_eq!(
        state("{\"not-after\":\"2026-08-02T09:00:00.000Z\"}"),
        own("active", "ok", "in 7d")
    );
    let page = mandates(
        &vec![json("{\"revoked-at\":\"x\"}"), json("{\"not-after\":\"2026-07-27T09:00:00.000Z\"}")],
        NOW,
    );
    assert_eq!((page.total, page.expiring_count, page.revoked_count), (2, 1, 1));
    assert_eq!(revocation_row(&json("{\"revokes\":\"m\"}")).revokes_short, "m");
    assert_eq!(rejection_row(&json("{\"seq\":3}")).seq, "3");
}

fn ancestry() -> Vec<(String, Json)> {
    vec![
        (
            "leaf".to_owned(),
            json("{\"parent\":\"top\",\"grantor\":{\"subject\":\"agent:x\"},\"mandate-kind\":\"delegated\"}"),
        ),
        ("top".to_owned(), json("{\"parent\":null,\"grantor\":{\"subject\":\"human:ivan\"}}")),
    ]
}

#[test]
fn authority_ends_at_a_named_human_or_is_not_shown() {
    assert_eq!(human_root_of(&Ok(ancestry()), "leaf"), "human:ivan");
    assert_eq!(human_root_of(&Ok(ancestry()), "lost"), "—");
    assert_eq!(human_root_of(&Ok(ancestry()), ""), "—");
    assert_eq!(human_root_of(&Err(outage()), "leaf"), "—");
    let round = vec![("a".to_owned(), json("{\"parent\":\"a\"}"))];
    assert_eq!(human_root_of(&Ok(round), "a"), "—");
    let links = chain_links(&ancestry(), "leaf");
    assert_eq!(links.len(), 2);
    assert_eq!(links[1].depth, "1");
    assert_eq!(links[1].grantor, "human:ivan");
}

#[test]
fn a_parked_request_is_shown_with_what_its_hash_covers() {
    let d = json(
        "{\"request-hash\":\"abc\",\"mandate-ref\":\"leaf\",\"not-after\":\"2026-07-26T09:12:00.000Z\",\"expired\":true}",
    );
    let facts = PendingFacts {
        request_json: Ok("{}".to_owned()),
        arguments: Err(outage()),
        csrf: "t".to_owned(),
        ancestry: Ok(ancestry()),
    };
    let r = pending_row(&d, &facts, NOW);
    assert_eq!(r.expires_in, "12m");
    assert_eq!(r.human_root, "human:ivan");
    assert_eq!(r.request_json, "{}");
    assert_eq!(r.arguments, "");
    assert!(r.expired && !r.arguments_supplied);
    let canonical = |t: &str| PendingFacts {
        request_json: Ok("{}".to_owned()),
        arguments: Ok(t.to_owned()),
        csrf: "t".to_owned(),
        ancestry: Ok(ancestry()),
    };
    assert_eq!(pending_row(&d, &canonical("null"), NOW).arguments, "");
    let supplied = d.with("arguments-supplied", Json::Bool(true));
    assert_eq!(pending_row(&supplied, &canonical("{}"), NOW).arguments, "{}");
}

#[test]
fn the_overview_names_the_streams_that_need_looking_at() {
    let streams = vec![
        (json("{\"stream\":\"a\"}"), StreamStatus::Quiet),
        (json("{\"stream\":\"b\"}"), StreamStatus::Healthy),
        (json("{\"stream\":\"c\"}"), StreamStatus::Refused),
    ];
    let registry: Vec<Json> = (0..12).map(|_| json("{}")).collect();
    let page = overview(
        &vec![record()],
        Counts::gather(5, 1, 2, 3, 4, 6),
        &registry,
        &streams,
        None,
        NOW,
        3_600,
    );
    assert_eq!(page.counts.pending, 7);
    assert_eq!(page.policy_version, "none published");
    assert_eq!(page.expiring.len(), 10);
    assert_eq!(page.quiet.len(), 1);
    assert_eq!(page.quiet[0].stream, "a");
    assert_eq!(page.refused[0].stream, "c");
    assert_eq!(page.quiet_after, "60m");
}

#[test]
fn a_spike_is_named_before_it_is_refused() {
    let limit = RateLimit { per_subject: 5, window_seconds: 60 };
    assert_eq!(watch_threshold(&limit), 2);
    assert_eq!(watch_threshold(&RateLimit { per_subject: 1, window_seconds: 60 }), 1);
    assert!(!spike_row(&json("{\"parked\":4}"), &limit).refused);
    let spike = spike_row(&json("{\"parked\":5,\"subject\":\"agent:a\"}"), &limit);
    assert!(spike.refused);
    assert_eq!(spike.latest, "-");
    assert!(mismatch_row(&json("{\"recorded\":6}"), &limit).capped);
    let id = "ab".repeat(32);
    let said = recorded(&pairs(&[("recorded", &id), ("verdict", "deny")]));
    assert_eq!((said.envelope.as_str(), said.verdict.as_str()), (id.as_str(), "deny"));
    let forged = recorded(&pairs(&[("recorded", "<script>"), ("verdict", "deny")]));
    assert_eq!(forged.envelope, "");
    let silent = recorded(&pairs(&[("recorded", &id), ("verdict", "won")]));
    assert_eq!(silent.envelope, "");
    let page = pending(
        Vec::new(),
        Vec::new(),
        &vec![record()],
        &Vec::new(),
        &vec![json("{\"parked\":5}")],
        &limit,
        &Vec::new(),
        2,
    );
    assert_eq!(page.spikes.len(), 1);
    assert_eq!((page.spike_window.as_str(), page.spike_cap.as_str()), ("60", "5"));
}

#[test]
fn rooted_and_attested_are_different_questions() {
    let report = json("{\"count\":3,\"head-hash\":\"hh\",\"anchored\":true,\"last-checkpoint\":null}");
    let page = verify("s", &Ok(report)).unwrap();
    assert!(page.valid && page.rooted && !page.attested);
    assert_eq!(page.checkpoint, "—");
    let report = |head: &str| {
        json(&format!(
            "{{\"head-hash\":\"{head}\",\"anchored\":false,\"last-checkpoint\":{{\"from-seq\":0,\"to-seq\":2,\"head-hash\":\"h\"}}}}"
        ))
    };
    let page = verify("s", &Ok(report("h"))).unwrap();
    assert!(!page.rooted && page.attested);
    assert_eq!(page.checkpoint, "seq 0…2 attesting h");
    let behind = verify("s", &Ok(report("later"))).unwrap();
    assert!(!behind.attested);
    assert_eq!(behind.checkpoint, "seq 0…2 attesting h");
    let broken = Error::at_seq("chain-prev-hash-mismatch", "no".to_owned(), 4);
    let page = verify("s", &Err(broken)).unwrap();
    assert!(!page.valid);
    assert_eq!(page.failed_at_seq, "4");
    assert_eq!(verify("s", &Err(outage())).unwrap_err().status, 503);
    assert_eq!(rejections(&Ok(Some("h".to_owned()))), (true, "h".to_owned()));
    assert_eq!(rejections(&Err(outage())), (false, "—".to_owned()));
}

fn stored(body: &str) -> Stored {
    Stored {
        id: "i".to_owned(),
        received_at: NOW.to_owned(),
        human_root: None,
        effective_class: Some("read".to_owned()),
        policy_violation: None,
        envelope: Ok(json(body)),
        canonical_json: body.to_owned(),
    }
}

#[test]
fn a_decayed_payload_leaves_its_hash() {
    let body = "{\"mandate-ref\":\"leaf\",\"evidence\":{\"payload-hash\":\"hh\"}}";
    let found = Ok(Some(stored(body)));
    let page = envelope(&found, &Ok(ancestry()), &Ok(None)).unwrap();
    assert!(page.payload_state.starts_with("decayed"));
    assert_eq!(page.chain.len(), 2);
    assert_eq!(page.authorization, "none — this envelope carries no gate decision");
    let bytes = "{\"a\":1}".as_bytes().to_vec();
    let page =
        envelope(&found, &Ok(ancestry()), &Ok(Some(("application/json".to_owned(), bytes)))).unwrap();
    assert_eq!(page.payload_state, "7 bytes, application/json");
    assert_eq!(page.payload_preview, "{\n  \"a\": 1\n}");
    assert_eq!(page.r.class, "read");
    assert_eq!(envelope(&Ok(None), &Ok(Vec::new()), &Ok(None)).unwrap_err().status, 404);
    assert_eq!(envelope(&found, &Err(outage()), &Ok(None)).unwrap_err().status, 503);
    assert_eq!(envelope(&found, &Ok(ancestry()), &Err(outage())).unwrap_err().status, 503);
    let plain = Ok(Some(stored("{}")));
    assert!(envelope(&plain, &Err(outage()), &Err(outage())).is_ok());
}

#[test]
fn a_submission_is_a_form_or_a_document() {
    let (csrf, decision) = form_fields("csrf=a&decision=%7B%22x%22%3A1%7D&other&csrf=b%20c");
    assert_eq!(csrf, "b c");
    assert_eq!(decision, "{\"x\":1}");
    let (token, d) = submitted_decision(Some("t"), &Ok(json("{\"x\":1}"))).unwrap();
    assert_eq!(token, "t");
    assert_eq!(d.at("x").as_u64(), Some(1));
    let (token, d) =
        submitted_decision(None, &Ok(json("{\"csrf\":\"u\",\"decision\":{\"y\":2}}"))).unwrap();
    assert_eq!(token, "u");
    assert_eq!(d.at("y").as_u64(), Some(2));
    assert_eq!(
        submitted_decision(Some(""), &Ok(Json::Null)).unwrap_err().detail(),
        "csrf"
    );
    assert_eq!(submitted_decision(None, &Ok(json("{}"))).unwrap_err().detail(), "decision");
    assert!(submitted_decision(None, &Err(outage())).is_err());
}

fn request() -> Json {
    json(&format!(
        "{{\"v\":\"stozher/0.1\",\"kind\":\"action-request\",\"requested-at\":\"{NOW}\",\
         \"subject\":\"agent:a\",\"key\":\"{}\",\"component\":\"gateway\",\"mandate-ref\":\"{}\",\
         \"policy-version\":\"1\",\"classification\":\"consequential\",\"action\":\"x.y\",\
         \"target\":\"t\",\"args-hash\":\"{}\",\"nonce\":\"{}\",\"not-after\":\"2026-07-26T10:00:00.000Z\"}}",
        key(1).as_str(),
        "7c".repeat(32),
        "91".repeat(32),
        "0f".repeat(16)
    ))
}

fn facts() -> DecideFacts {
    let hash = "ab".repeat(32);
    let decision = json(&format!(
        "{{\"kind\":\"gate-decision\",\"request-hash\":\"{hash}\",\"decision\":\"approve\",\
         \"decided-at\":\"{NOW}\",\"not-after\":\"2026-07-26T09:15:00.000Z\"}}"
    ));
    DecideFacts {
        submitted: Ok(("t".to_owned(), decision)),
        csrf_ok: true,
        request: Ok(Some(request())),
        hash: Ok(hash),
        signer: Ok(key(2)),
        approvers: Ok(vec![Approver { key: key(2), subject: Some("human:ivan".to_owned()) }]),
    }
}

fn status(facts: &DecideFacts) -> (u16, String) {
    match decide(facts, false, NOW).unwrap_err() {
        Answered::Document(reply) => {
            (reply.status, reply.body.text_at("reason-code").unwrap().to_owned())
        }
        Answered::Page(notice) => (notice.status, notice.title),
        Answered::Redirect(to) => (303, to),
    }
}

#[test]
fn an_answer_is_recorded_only_where_another_human_signed_it() {
    let checked = decide(&facts(), false, NOW).unwrap();
    assert_eq!(checked.verdict, "approve");

    let mut f = facts();
    f.submitted = Err(Error::new("jcs-malformed-json", "x".to_owned()));
    assert_eq!(status(&f), (400, "jcs-malformed-json".to_owned()));
    let mut f = facts();
    f.csrf_ok = false;
    assert_eq!(status(&f), (403, "console-csrf-invalid".to_owned()));
    f.request = Ok(None);
    assert_eq!(status(&f), (403, "console-csrf-invalid".to_owned()));
    f.csrf_ok = true;
    assert_eq!(status(&f), (404, "not-found".to_owned()));
    f.request = Err(outage());
    assert_eq!(status(&f).0, 503);
    let mut f = facts();
    f.signer = Ok(key(1));
    assert_eq!(status(&f), (422, "gate-self-approval".to_owned()));
    let mut f = facts();
    f.approvers = Ok(Vec::new());
    assert_eq!(status(&f), (403, "gate-approver-not-permitted".to_owned()));
    f.approvers = Ok(vec![Approver { key: key(2), subject: Some("agent:a".to_owned()) }]);
    assert_eq!(status(&f), (403, "gate-self-approval".to_owned()));
    f.approvers = Err(outage());
    assert_eq!(status(&f).0, 503);
    let mut f = facts();
    f.csrf_ok = false;
    match decide(&f, true, NOW).unwrap_err() {
        Answered::Page(notice) => assert!(notice.detail.starts_with("console-csrf-invalid: ")),
        other => panic!("{other:?}"),
    }

    let members = submit_decision("h", &checked.decision);
    assert_eq!(members[0].1.as_text(), Some("h"));
    let id = Ok("e1".to_owned());
    assert!(matches!(
        decided(true, &checked, &id),
        Answered::Redirect(to) if to == "/console/pending?recorded=e1&verdict=approve"
    ));
    assert!(matches!(decided(false, &checked, &id), Answered::Document(r) if r.status == 201));
    let down = Err(("x-store-unavailable".to_owned(), "d".to_owned()));
    assert!(matches!(decided(false, &checked, &down), Answered::Page(n) if n.status == 503));
    let no = Err(("gate-request-expired".to_owned(), "d".to_owned()));
    assert!(matches!(decided(false, &checked, &no), Answered::Document(r) if r.status == 422));
}
