use stozher_kernel::config::Config;
use stozher_kernel::crypto::{drawn, sha256_hex};
use stozher_kernel::error::Error;
use stozher_kernel::genesis::{
    build, caller_token, kernel_config, nonce_text, request_nonce, standing_grant, token_text,
    Ceremony, Deployment, Genesis, Grant, Material, Signed, Signer, Work,
};
use stozher_kernel::json::Json;
use stozher_kernel::keys::KeyId;

fn from_value(value: &serde_json::Value) -> Json {
    match value {
        serde_json::Value::Null => Json::Null,
        serde_json::Value::Bool(b) => Json::Bool(*b),
        serde_json::Value::Number(n) => match (n.as_u64(), n.as_i64()) {
            (Some(u), _) => Json::Unsigned(u),
            (None, Some(i)) => Json::Signed(i),
            (None, None) => Json::Number(n.to_string()),
        },
        serde_json::Value::String(s) => Json::Text(s.clone()),
        serde_json::Value::Array(items) => Json::List(items.iter().map(from_value).collect()),
        serde_json::Value::Object(members) => {
            Json::Record(members.iter().map(|(k, v)| (k.clone(), from_value(v))).collect())
        }
    }
}

fn json(text: &str) -> Json {
    from_value(&serde_json::from_str::<serde_json::Value>(text).unwrap())
}

fn key(byte: u8) -> KeyId {
    KeyId::parse(&format!("ed25519:{}", hex::encode([byte; 32]))).unwrap()
}

fn ceremony() -> Ceremony {
    Ceremony {
        root_subject: "human:ivan".to_owned(),
        agent_subject: "agent:bootstrap".to_owned(),
        policy_version: "2026.07.1".to_owned(),
        second_root: None,
        core_stream: "kernel:core".to_owned(),
        now: "2026-07-26T09:00:00.000Z".to_owned(),
    }
}

fn hash_of(d: &Json) -> String {
    sha256_hex(d.to_text().as_bytes())
}

fn id_of(d: &Json) -> String {
    sha256_hex(d.copy().without("sig").to_text().as_bytes())
}

fn material() -> Material {
    Material {
        root: key(1),
        agent: key(2),
        policy: key(4),
        mandate_nonce: request_nonce().unwrap(),
        request_nonce: request_nonce().unwrap(),
        policy_body: json("{\"policy-version\":\"2026.07.1\"}"),
        signed: Vec::new(),
        request_hash: None,
    }
}

fn perform(ceremony: &Ceremony) -> Result<Genesis, Error> {
    let mut m = material();
    loop {
        match build(ceremony, &m)? {
            Work::Sign(who, d) => {
                let by = match who {
                    Signer::Root => &m.root,
                    Signer::Agent => &m.agent,
                    Signer::Policy => &m.policy,
                };
                let sig = json(&format!("{{\"key\":\"{}\"}}", by.as_str()));
                let object = d.with("sig", sig);
                let (id, hash) = (id_of(&object), hash_of(&object));
                m.signed.push(Signed { object, id, hash });
            }
            Work::Hash(d) => m.request_hash = Some(hash_of(&d)),
            Work::Done(genesis) => return Ok(*genesis),
        }
    }
}

#[test]
fn the_ceremony_produces_two_chained_envelopes_and_nothing_else() {
    let genesis = perform(&ceremony()).unwrap();
    let zero = genesis.root_mandate.at("envelope");
    let one = genesis.first_policy.at("envelope");
    assert_eq!(zero.at("seq").as_u64(), Some(0));
    assert!(zero.at("prev-hash").is_null());
    assert_eq!(one.at("seq").as_u64(), Some(1));
    assert_eq!(
        one.text_at("prev-hash"),
        Some(id_of(zero).as_str()),
        "seq 1 must chain onto seq 0 — the ceremony builds a chain, not two documents"
    );
    assert_eq!(zero.text_at("kind"), Some("mandate"));
    assert_eq!(one.text_at("kind"), Some("policy-change"));
}

#[test]
fn the_approval_binds_the_exact_policy_document_that_takes_effect() {
    let genesis = perform(&ceremony()).unwrap();
    let authorization = genesis.first_policy.at("envelope").at("authorization");
    let request = authorization.at("request");
    assert_eq!(request.text_at("args-hash"), Some(hash_of(&genesis.policy_document).as_str()));
    assert_eq!(
        authorization.at("decision").text_at("request-hash"),
        Some(hash_of(request).as_str()),
        "the human's signature must cover the request verbatim"
    );
}

#[test]
fn the_approver_is_never_the_subject_it_approves() {
    let genesis = perform(&ceremony()).unwrap();
    let authorization = genesis.first_policy.at("envelope").at("authorization");
    assert_ne!(
        authorization.at("decision").at("sig").text_at("key"),
        authorization.at("request").text_at("key"),
        "self-approval at genesis would make the ceremony the bypass it exists to avoid"
    );
}

#[test]
fn a_single_root_deployment_is_supported_and_says_what_it_costs() {
    let genesis = perform(&ceremony()).unwrap();
    assert_eq!(genesis.config_fragment.at("roots").as_list().unwrap().len(), 1);
    assert!(
        genesis.warnings.iter().any(|w| w.contains("second")),
        "a one-root ceremony must state the prerequisite, not discover it later"
    );

    let mut two = ceremony();
    two.second_root = Some(("human:mira".to_owned(), key(9)));
    let genesis = perform(&two).unwrap();
    assert_eq!(genesis.config_fragment.at("roots").as_list().unwrap().len(), 2);
    assert!(genesis.warnings.is_empty());
}

#[test]
fn a_root_must_be_a_named_human_and_the_bootstrap_subject_an_agent() {
    let mut broken = ceremony();
    broken.root_subject = "the-team".to_owned();
    assert_eq!(perform(&broken).unwrap_err().code(), "config-malformed");

    let mut broken = ceremony();
    broken.agent_subject = "human:ivan".to_owned();
    assert_eq!(perform(&broken).unwrap_err().code(), "config-malformed");
}

#[test]
fn two_names_on_one_key_is_refused_as_one_root() {
    let mut same = ceremony();
    same.second_root = Some(("human:mira".to_owned(), key(1)));
    let error = perform(&same).unwrap_err();
    assert_eq!(error.code(), "config-malformed");
    assert!(error.detail().contains("one root"), "{}", error.detail());
}

fn grant(grantee: &KeyId) -> Grant<'_> {
    Grant {
        root_subject: "human:ivan",
        grantee_subject: "agent:assistant/laptop",
        grantee_key: grantee,
        days: 30,
        components: vec!["gateway".to_owned()],
        actions: vec!["*".to_owned()],
        classes: ["read", "benign", "consequential", "prohibited"].map(str::to_owned).to_vec(),
        resources: vec!["*".to_owned()],
        now: "2026-07-26T09:00:00.000Z",
    }
}

#[test]
fn a_standing_grant_is_signed_by_the_root_and_never_by_its_grantee() {
    let grantee = key(7);
    let mandate = standing_grant(&key(1), &grant(&grantee), "00").unwrap();
    assert_eq!(mandate.at("grantor").text_at("key"), Some(key(1).as_str()));
    assert_eq!(mandate.at("grantee").text_at("key"), Some(grantee.as_str()));
    assert_eq!(mandate.text_at("mandate-kind"), Some("standing"));
    assert!(mandate.at("parent").is_null());
    assert_eq!(mandate.text_at("not-after"), Some("2026-08-25T09:00:00.000Z"));
    assert_eq!(mandate.text_at("not-before"), Some("2026-07-26T08:59:00.000Z"));
}

#[test]
fn a_grant_covers_prohibited_so_the_attempt_record_is_appendable() {
    let grantee = key(7);
    let mandate = standing_grant(&key(1), &grant(&grantee), "00").unwrap();
    let classes = mandate.at("scope").at("classes").as_list().unwrap();
    assert!(classes.iter().any(|c| c.as_text() == Some("prohibited")));
}

#[test]
fn a_root_cannot_grant_to_itself() {
    let own = key(1);
    let error = standing_grant(&key(1), &grant(&own), "00").unwrap_err();
    assert_eq!(error.code(), "config-malformed");
    assert!(error.detail().contains("self-grant"));
}

#[test]
fn an_empty_scope_dimension_is_refused_rather_than_silently_permitting_nothing() {
    let grantee = key(7);
    let mut empty = grant(&grantee);
    empty.actions = Vec::new();
    assert_eq!(standing_grant(&key(1), &empty, "00").unwrap_err().code(), "config-malformed");
    let mut dead = grant(&grantee);
    dead.days = 0;
    assert_eq!(standing_grant(&key(1), &dead, "00").unwrap_err().code(), "config-malformed");
}

#[test]
fn the_emitted_configuration_is_one_the_kernel_accepts_and_holds_no_token() {
    let genesis = perform(&ceremony()).unwrap();
    let callers = vec!["agent:gateway".to_owned()];
    let (config, credentials) = kernel_config(
        &genesis,
        &Deployment {
            bind: "0.0.0.0:8787",
            database: "/var/lib/stozher/data/stozher.db",
            kernel_seed: "/var/lib/stozher/keys/kernel.seed",
            console_base_url: "http://127.0.0.1:8787",
            callers: &callers,
        },
    )
    .unwrap();

    let parsed = Config::parse(&config).expect("the ceremony's configuration must load");
    assert_eq!(parsed.roots.len(), 1);
    assert_eq!(parsed.callers.len(), 1);
    assert_eq!(parsed.authenticate(&credentials[0].token).unwrap(), "agent:gateway");

    let rendered = config.to_text();
    assert!(
        !rendered.contains(&credentials[0].token),
        "a configuration file is copied, diffed and pasted into tickets; a token in one is a secret \
         in all three places"
    );
}

#[test]
fn every_caller_gets_a_token_of_its_own_and_none_need_be_there() {
    let mut c = ceremony();
    c.second_root = Some(("human:ana".to_owned(), key(9)));
    let genesis = perform(&c).unwrap();
    let deployed = |callers: &Vec<String>| {
        let deployment = Deployment {
            bind: "b",
            database: "d",
            kernel_seed: "k",
            console_base_url: "u",
            callers,
        };
        kernel_config(&genesis, &deployment).unwrap()
    };
    let (config, credentials) = deployed(&Vec::new());
    assert!(credentials.is_empty());
    assert_eq!(Config::parse(&config).unwrap().roots.len(), 2);
    let callers = vec!["agent:a".to_owned(), "agent:b".to_owned(), "agent:a".to_owned()];
    let (config, credentials) = deployed(&callers);
    let parsed = Config::parse(&config).unwrap();
    for (credential, caller) in credentials.iter().zip(&callers) {
        assert_eq!(parsed.authenticate(&credential.token).unwrap(), caller);
    }
}

#[test]
fn a_caller_token_is_never_its_own_digest() {
    let (token, digest) = caller_token().unwrap();
    assert_eq!(token.len(), 64);
    assert_eq!(digest, sha256_hex(token.as_bytes()));
    assert_ne!(token, digest);
}

#[test]
fn a_token_is_the_text_of_the_octets_that_were_drawn() {
    assert_eq!(nonce_text(&[0x00, 0x0f, 0xa0, 0xff]), "000fa0ff");
    let (token, digest) = token_text(&[0xab; 32]);
    assert_eq!(token, "ab".repeat(32));
    assert_eq!(digest, sha256_hex("ab".repeat(32).as_bytes()));
    assert_eq!(drawn(Ok(vec![1, 2])).unwrap(), [1, 2]);
    let refused = drawn(Err("no source".to_owned())).unwrap_err();
    assert_eq!(refused.code(), "kernel-entropy-unavailable");
    assert_eq!(refused.detail(), "no source");
}

#[test]
fn nonces_are_hexadecimal_and_differ() {
    let (a, b) = (request_nonce().unwrap(), request_nonce().unwrap());
    assert_eq!(a.len(), 32);
    assert!(a.chars().all(|c| c.is_ascii_hexdigit() && !c.is_ascii_uppercase()));
    assert_ne!(a, b);
}
