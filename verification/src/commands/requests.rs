//! Building the action requests that ask for something gated: a policy version, a change of the
//! root set, or any other action of the kernel.

use vstd::prelude::*;

use crate::arguments::{flag, flag_i64, flag_or, number_or, value, value_or};
use crate::clock::{shift, shifted};
use crate::commands::{failed, failing, held64, seconds_in};
use crate::config::{is_human, names_human};
use crate::documents::{action_request, request_doc, Question, RequestTerms};
use crate::error::Error;
use crate::gatequeue::opt_json;
use crate::json::{member, member_docs, record, text, Doc, Json};
use crate::keys::{bad_key_id, is_key_id, KeyId};
use crate::text::{is_digest, is_digest_hex, join2, join3, same, texts};

verus! {

/// How many minutes a request can be answered, where nothing else is said.
pub const DEFAULT_REQUEST_MINUTES: i64 = 60;

/// The action that publishes a policy version.
pub const PUBLISH_POLICY: &'static str = "kernel.publish_policy";

/// The action that enrols a root.
pub const ENROL_ROOT: &'static str = "kernel.enroll_root";

/// The action that retires a root.
pub const RETIRE_ROOT: &'static str = "kernel.retire_root";

/// What a request is stamped with, each with what went wrong where it could not be had.
#[derive(Debug)]
pub struct Stamp {
    /// The key of the subject that asks.
    pub key: Result<KeyId, String>,
    /// The instant.
    pub now: Result<String, String>,
    /// What makes the request distinct.
    pub nonce: Result<String, Error>,
}

// -- asking for a policy version --------------------------------------------------------------

/// What `policy-request` is asked for.
#[derive(Debug)]
pub struct PolicyAsk {
    /// Where the document lies.
    pub document_path: String,
    /// The publishing subject.
    pub subject: String,
    /// Where its seed lies.
    pub key_path: String,
    /// The mandate it acts under.
    pub mandate: String,
    /// The version that is in force.
    pub in_force: String,
    /// Where the request is written.
    pub out: String,
    /// How many minutes it can be answered.
    pub minutes: i64,
}

/// What `policy-request` refuses to start with.
pub open spec fn policy_request_refusal(args: Seq<Seq<char>>) -> Option<Seq<char>> {
    let mandate = flag(args, "--mandate"@);
    if flag(args, "--document"@) is None || flag(args, "--subject"@) is None || flag(
        args,
        "--key"@,
    ) is None || mandate is None || flag(args, "--in-force"@) is None || flag(args, "--out"@)
        is None {
        Some(
            "policy-request requires --document <path>, --subject <agent:name>, --key <path>, --mandate <64 hex>, --in-force <version> and --out <path>"@,
        )
    } else if !is_digest(mandate->0) {
        Some("--mandate must be the 64-hex id of the mandate the publisher acts under"@)
    } else {
        None
    }
}

/// What `policy-request` is asked for.
pub fn policy_ask(arguments: &[String]) -> (r: Result<PolicyAsk, String>)
    ensures
        match policy_request_refusal(texts(arguments@)) {
            Some(m) => r matches Err(e) && e@ == m,
            None => r matches Ok(a) && {
                let args = texts(arguments@);
                &&& Some(a.document_path@) == flag(args, "--document"@)
                &&& Some(a.subject@) == flag(args, "--subject"@)
                &&& Some(a.key_path@) == flag(args, "--key"@)
                &&& Some(a.mandate@) == flag(args, "--mandate"@)
                &&& Some(a.in_force@) == flag(args, "--in-force"@)
                &&& Some(a.out@) == flag(args, "--out"@)
                &&& a.minutes == flag_i64(args, "--minutes"@, DEFAULT_REQUEST_MINUTES as int)
            },
        },
{
    let (document_path, subject, key_path, mandate, in_force, out) = match (
        value(arguments, "--document"),
        value(arguments, "--subject"),
        value(arguments, "--key"),
        value(arguments, "--mandate"),
        value(arguments, "--in-force"),
        value(arguments, "--out"),
    ) {
        (Some(d), Some(s), Some(k), Some(m), Some(i), Some(o)) => (d, s, k, m, i, o),
        _ => {
            return Err(
                "policy-request requires --document <path>, --subject <agent:name>, --key <path>, --mandate <64 hex>, --in-force <version> and --out <path>".to_owned(),
            );
        },
    };
    if !is_digest_hex(mandate) {
        return Err(
            "--mandate must be the 64-hex id of the mandate the publisher acts under".to_owned(),
        );
    }
    Ok(
        PolicyAsk {
            document_path: document_path.to_owned(),
            subject: subject.to_owned(),
            key_path: key_path.to_owned(),
            mandate: mandate.to_owned(),
            in_force: in_force.to_owned(),
            out: out.to_owned(),
            minutes: number_or(arguments, "--minutes", DEFAULT_REQUEST_MINUTES),
        },
    )
}

/// The request that asks to publish a document, which installs another version than the one in
/// force, given the document's hash.
pub open spec fn policy_question(
    ask: PolicyAsk,
    document: Doc,
    hash: Result<String, Error>,
    stamp: Stamp,
) -> Result<Doc, Seq<char>> {
    let version = document.text_at("policy-version"@);
    if version is None {
        Err(ask.document_path@ + " carries no policy-version — it is not a policy document"@)
    } else if version->0 == ask.in_force@ {
        Err(
            "--in-force is "@ + ask.in_force@
                + ", which is the version this document installs: pass the version currently in force (GET /v1/policy/current)"@,
        )
    } else if let Err(e) = hash {
        Err(failing("hashing the document"@, e@))
    } else if let Err(m) = stamp.key {
        Err(m@)
    } else if let Err(m) = stamp.now {
        Err(m@)
    } else {
        let now = stamp.now->Ok_0@;
        let until = shifted(now, held64(ask.minutes * 60));
        if let Err(f) = until {
            Err(failing("clock"@, f))
        } else if let Err(e) = stamp.nonce {
            Err(failing("nonce"@, e@))
        } else {
            Ok(
                request_doc(
                    Question {
                        requested_at: now,
                        subject: ask.subject@,
                        key: stamp.key->Ok_0@,
                        component: "kernel"@,
                        mandate_ref: ask.mandate@,
                        policy_version: ask.in_force@,
                        classification: "consequential"@,
                        action: PUBLISH_POLICY@,
                        target: "policy:"@ + version->0,
                        args_hash: hash->Ok_0@,
                        nonce: stamp.nonce->Ok_0@,
                        not_after: until->Ok_0,
                    },
                ),
            )
        }
    }
}

/// The request that asks to publish a document.
pub fn policy_request(
    ask: &PolicyAsk,
    document: &Json,
    hash: &Result<String, Error>,
    stamp: &Stamp,
) -> (r: Result<Json, String>)
    ensures
        match policy_question(*ask, document@, *hash, *stamp) {
            Ok(d) => r matches Ok(v) && v@ == d,
            Err(m) => r matches Err(e) && e@ == m,
        },
{
    let version = match document.text_at("policy-version") {
        Some(v) => v,
        None => {
            return Err(
                join2(
                    ask.document_path.as_str(),
                    " carries no policy-version — it is not a policy document",
                ),
            );
        },
    };
    if same(version, ask.in_force.as_str()) {
        return Err(
            join3(
                "--in-force is ",
                ask.in_force.as_str(),
                ", which is the version this document installs: pass the version currently in force (GET /v1/policy/current)",
            ),
        );
    }
    let args_hash = match hash {
        Ok(h) => h,
        Err(e) => {
            return Err(failed("hashing the document", e));
        },
    };
    let key = match &stamp.key {
        Ok(k) => k,
        Err(m) => {
            return Err(m.clone());
        },
    };
    let now = match &stamp.now {
        Ok(n) => n,
        Err(m) => {
            return Err(m.clone());
        },
    };
    let not_after = match shift(now.as_str(), seconds_in(ask.minutes, 60)) {
        Ok(t) => t,
        Err(e) => {
            return Err(failed("clock", &e));
        },
    };
    let nonce = match &stamp.nonce {
        Ok(n) => n,
        Err(e) => {
            return Err(failed("nonce", e));
        },
    };
    Ok(
        action_request(
            &RequestTerms {
                requested_at: now.clone(),
                subject: ask.subject.clone(),
                key: key.as_str().to_owned(),
                component: "kernel".to_owned(),
                mandate_ref: ask.mandate.clone(),
                policy_version: ask.in_force.clone(),
                classification: "consequential".to_owned(),
                action: PUBLISH_POLICY.to_owned(),
                target: join2("policy:", version),
                args_hash: args_hash.clone(),
                nonce: nonce.clone(),
                not_after,
            },
        ),
    )
}

// -- asking for anything else -----------------------------------------------------------------

/// What is asked for in general.
#[derive(Debug)]
pub struct EffectAsk {
    /// The action.
    pub action: String,
    /// The thing acted upon.
    pub target: String,
    /// Who asks.
    pub requester: String,
    /// Where the seed of the one that asks lies.
    pub key_path: String,
    /// The mandate it acts under.
    pub mandate: String,
    /// The version that is in force.
    pub in_force: String,
    /// Where the request is written.
    pub out: String,
    /// The component that will emit the effect.
    pub component: String,
    /// The weight class.
    pub classification: String,
    /// How many minutes it can be answered.
    pub minutes: i64,
}

/// The request that asks for an action, given the hash of what it is given.
pub open spec fn effect_question(ask: EffectAsk, args_hash: Seq<char>, stamp: Stamp) -> Result<
    Doc,
    Seq<char>,
> {
    if let Err(m) = stamp.key {
        Err(m@)
    } else if let Err(m) = stamp.now {
        Err(m@)
    } else {
        let now = stamp.now->Ok_0@;
        let until = shifted(now, held64(ask.minutes * 60));
        if until is Err || stamp.nonce is Err {
            Err("could not stamp the request"@)
        } else {
            Ok(
                request_doc(
                    Question {
                        requested_at: now,
                        subject: ask.requester@,
                        key: stamp.key->Ok_0@,
                        component: ask.component@,
                        mandate_ref: ask.mandate@,
                        policy_version: ask.in_force@,
                        classification: ask.classification@,
                        action: ask.action@,
                        target: ask.target@,
                        args_hash,
                        nonce: stamp.nonce->Ok_0@,
                        not_after: until->Ok_0,
                    },
                ),
            )
        }
    }
}

/// The request that asks for an action.
pub fn effect_request(ask: &EffectAsk, args_hash: &str, stamp: &Stamp) -> (r: Result<Json, String>)
    ensures
        match effect_question(*ask, args_hash@, *stamp) {
            Ok(d) => r matches Ok(v) && v@ == d,
            Err(m) => r matches Err(e) && e@ == m,
        },
{
    let key = match &stamp.key {
        Ok(k) => k,
        Err(m) => {
            return Err(m.clone());
        },
    };
    let now = match &stamp.now {
        Ok(n) => n,
        Err(m) => {
            return Err(m.clone());
        },
    };
    let (not_after, nonce) = match (
        shift(now.as_str(), seconds_in(ask.minutes, 60)),
        &stamp.nonce,
    ) {
        (Ok(t), Ok(n)) => (t, n),
        _ => {
            return Err("could not stamp the request".to_owned());
        },
    };
    Ok(
        action_request(
            &RequestTerms {
                requested_at: now.clone(),
                subject: ask.requester.clone(),
                key: key.as_str().to_owned(),
                component: ask.component.clone(),
                mandate_ref: ask.mandate.clone(),
                policy_version: ask.in_force.clone(),
                classification: ask.classification.clone(),
                action: ask.action.clone(),
                target: ask.target.clone(),
                args_hash: args_hash.to_owned(),
                nonce: nonce.clone(),
                not_after,
            },
        ),
    )
}

/// What an action is given: a hash that is stated, or the hash of a file.
#[derive(Debug)]
pub enum Arguments {
    /// A hash.
    Stated(String),
    /// A file.
    File(String),
}

/// What `effect-request` refuses to start with.
pub open spec fn effect_request_refusal(args: Seq<Seq<char>>) -> Option<Seq<char>> {
    let stated = flag(args, "--args-hash"@);
    let file = flag(args, "--args-from"@);
    if flag(args, "--action"@) is None || flag(args, "--target"@) is None || flag(
        args,
        "--requester"@,
    ) is None || flag(args, "--key"@) is None || flag(args, "--mandate"@) is None || flag(
        args,
        "--in-force"@,
    ) is None || flag(args, "--out"@) is None {
        Some(
            "effect-request requires --action, --target, --requester, --key, --mandate, --in-force and --out"@,
        )
    } else if (stated is Some) == (file is Some) {
        Some("effect-request requires exactly one of --args-hash or --args-from <path>"@)
    } else if stated is Some && !is_digest(stated->0) {
        Some("--args-hash "@ + stated->0 + " is not 64 lowercase hex digits"@)
    } else {
        None
    }
}

/// What `effect-request` is asked for.
pub fn effect_ask(arguments: &[String]) -> (r: Result<(EffectAsk, Arguments), String>)
    ensures
        match effect_request_refusal(texts(arguments@)) {
            Some(m) => r matches Err(e) && e@ == m,
            None => r matches Ok((a, given)) && {
                let args = texts(arguments@);
                &&& Some(a.action@) == flag(args, "--action"@)
                &&& Some(a.target@) == flag(args, "--target"@)
                &&& Some(a.requester@) == flag(args, "--requester"@)
                &&& Some(a.key_path@) == flag(args, "--key"@)
                &&& Some(a.mandate@) == flag(args, "--mandate"@)
                &&& Some(a.in_force@) == flag(args, "--in-force"@)
                &&& Some(a.out@) == flag(args, "--out"@)
                &&& a.component@ == flag_or(args, "--emitting-component"@, "kernel"@)
                &&& a.classification@ == flag_or(args, "--classification"@, "consequential"@)
                &&& a.minutes == flag_i64(args, "--minutes"@, DEFAULT_REQUEST_MINUTES as int)
                &&& match given {
                    Arguments::Stated(h) => Some(h@) == flag(args, "--args-hash"@),
                    Arguments::File(p) => Some(p@) == flag(args, "--args-from"@),
                }
            },
        },
{
    let (action, target, requester, key_path, mandate, in_force, out) = match (
        value(arguments, "--action"),
        value(arguments, "--target"),
        value(arguments, "--requester"),
        value(arguments, "--key"),
        value(arguments, "--mandate"),
        value(arguments, "--in-force"),
        value(arguments, "--out"),
    ) {
        (Some(a), Some(t), Some(q), Some(k), Some(m), Some(i), Some(o)) => (a, t, q, k, m, i, o),
        _ => {
            return Err(
                "effect-request requires --action, --target, --requester, --key, --mandate, --in-force and --out".to_owned(),
            );
        },
    };
    let given = match (value(arguments, "--args-hash"), value(arguments, "--args-from")) {
        (Some(h), None) => if is_digest_hex(h) {
            Arguments::Stated(h.to_owned())
        } else {
            return Err(join3("--args-hash ", h, " is not 64 lowercase hex digits"));
        },
        (None, Some(p)) => Arguments::File(p.to_owned()),
        _ => {
            return Err(
                "effect-request requires exactly one of --args-hash or --args-from <path>".to_owned(),
            );
        },
    };
    Ok(
        (
            EffectAsk {
                action: action.to_owned(),
                target: target.to_owned(),
                requester: requester.to_owned(),
                key_path: key_path.to_owned(),
                mandate: mandate.to_owned(),
                in_force: in_force.to_owned(),
                out: out.to_owned(),
                component: value_or(arguments, "--emitting-component", "kernel").to_owned(),
                classification: value_or(
                    arguments,
                    "--classification",
                    "consequential",
                ).to_owned(),
                minutes: number_or(arguments, "--minutes", DEFAULT_REQUEST_MINUTES),
            },
            given,
        ),
    )
}

// -- asking to change the root set ------------------------------------------------------------

/// The evidence of an enrolment: the human it names and the key.
pub open spec fn enrolment_doc(subject: Seq<char>, key: Seq<char>) -> Doc {
    Doc::Record(seq![("key"@, Doc::Text(key)), ("subject"@, Doc::Text(subject))])
}

/// What `root-request` is asked for: what it asks, and what the approval will be bound to.
#[derive(Debug)]
pub struct RootAsk {
    /// What is asked.
    pub ask: EffectAsk,
    /// The evidence of an enrolment; a retirement has none.
    pub evidence: Option<Json>,
    /// Where the evidence is written.
    pub evidence_path: String,
}

/// What `root-request` refuses to start with.
pub open spec fn root_request_refusal(args: Seq<Seq<char>>) -> Option<Seq<char>> {
    let enrol = flag(args, "--enrol"@);
    let retire = flag(args, "--retire"@);
    let subject = flag(args, "--subject"@);
    let key = if enrol is Some {
        enrol->0
    } else {
        retire->0
    };
    if flag(args, "--requester"@) is None || flag(args, "--key"@) is None || flag(
        args,
        "--mandate"@,
    ) is None || flag(args, "--in-force"@) is None || flag(args, "--out"@) is None {
        Some(
            "root-request requires --requester <human:name>, --key <path>, --mandate <64 hex>, --in-force <version> and --out <path>"@,
        )
    } else if (enrol is Some) == (retire is Some) {
        Some("root-request requires exactly one of --enrol <ed25519:…> or --retire <…>"@)
    } else if !is_key_id(key) {
        Some(key + " is not a key identifier: "@ + bad_key_id(key).detail)
    } else if enrol is Some && subject is None {
        Some("--subject human:<name> is required to enrol: the root set records the human"@)
    } else if enrol is Some && !names_human(subject->0) {
        Some("--subject must be a human:<name> subject"@)
    } else {
        None
    }
}

/// The evidence of what `root-request` asks, where it asks to enrol.
pub open spec fn root_evidence(args: Seq<Seq<char>>) -> Option<Doc> {
    match flag(args, "--enrol"@) {
        Some(key) => Some(enrolment_doc(flag(args, "--subject"@)->0, key)),
        None => None,
    }
}

/// What `root-request` is asked for. The action is an enrolment or a retirement, and its target
/// names the key.
pub fn root_request(arguments: &[String]) -> (r: Result<RootAsk, String>)
    ensures
        match root_request_refusal(texts(arguments@)) {
            Some(m) => r matches Err(e) && e@ == m,
            None => r matches Ok(a) && {
                let args = texts(arguments@);
                let enrol = flag(args, "--enrol"@);
                &&& a.ask.action@ == if enrol is Some {
                    ENROL_ROOT@
                } else {
                    RETIRE_ROOT@
                }
                &&& a.ask.target@ == "root:"@ + if enrol is Some {
                    enrol->0
                } else {
                    flag(args, "--retire"@)->0
                }
                &&& Some(a.ask.requester@) == flag(args, "--requester"@)
                &&& Some(a.ask.key_path@) == flag(args, "--key"@)
                &&& Some(a.ask.mandate@) == flag(args, "--mandate"@)
                &&& Some(a.ask.in_force@) == flag(args, "--in-force"@)
                &&& Some(a.ask.out@) == flag(args, "--out"@)
                &&& a.ask.component@ == "kernel"@
                &&& a.ask.classification@ == "consequential"@
                &&& a.ask.minutes == flag_i64(args, "--minutes"@, DEFAULT_REQUEST_MINUTES as int)
                &&& opt_json(a.evidence) == root_evidence(args)
                &&& a.evidence_path@ == flag_or(
                    args,
                    "--evidence-out"@,
                    flag(args, "--out"@)->0 + ".evidence"@,
                )
            },
        },
{
    let (requester, key_path, mandate, in_force, out) = match (
        value(arguments, "--requester"),
        value(arguments, "--key"),
        value(arguments, "--mandate"),
        value(arguments, "--in-force"),
        value(arguments, "--out"),
    ) {
        (Some(q), Some(k), Some(m), Some(i), Some(o)) => (q, k, m, i, o),
        _ => {
            return Err(
                "root-request requires --requester <human:name>, --key <path>, --mandate <64 hex>, --in-force <version> and --out <path>".to_owned(),
            );
        },
    };
    let (action, key, enrolling) = match (value(arguments, "--enrol"), value(arguments, "--retire")) {
        (Some(k), None) => (ENROL_ROOT, k, true),
        (None, Some(k)) => (RETIRE_ROOT, k, false),
        _ => {
            return Err(
                "root-request requires exactly one of --enrol <ed25519:…> or --retire <…>".to_owned(),
            );
        },
    };
    if let Err(e) = KeyId::parse(key) {
        return Err(join3(key, " is not a key identifier: ", e.detail()));
    }
    let evidence = if enrolling {
        let subject = match value(arguments, "--subject") {
            Some(s) => s,
            None => {
                return Err(
                    "--subject human:<name> is required to enrol: the root set records the human".to_owned(),
                );
            },
        };
        if !is_human(subject) {
            return Err("--subject must be a human:<name> subject".to_owned());
        }
        let mut members: Vec<(String, Json)> = Vec::new();
        members.push(member("key", text(key)));
        members.push(member("subject", text(subject)));
        assert(member_docs(members@) =~= enrolment_doc(subject@, key@)->Record_0);
        Some(record(members))
    } else {
        None
    };
    let evidence_path = match value(arguments, "--evidence-out") {
        Some(p) => p.to_owned(),
        None => join2(out, ".evidence"),
    };
    Ok(
        RootAsk {
            ask: EffectAsk {
                action: action.to_owned(),
                target: join2("root:", key),
                requester: requester.to_owned(),
                key_path: key_path.to_owned(),
                mandate: mandate.to_owned(),
                in_force: in_force.to_owned(),
                out: out.to_owned(),
                component: "kernel".to_owned(),
                classification: "consequential".to_owned(),
                minutes: number_or(arguments, "--minutes", DEFAULT_REQUEST_MINUTES),
            },
            evidence,
            evidence_path,
        },
    )
}

/// What the approval of a change of the root set is bound to: the evidence of an enrolment, and
/// the empty record for a retirement, which carries nothing.
pub fn root_arguments(ask: &RootAsk) -> (r: Json)
    ensures
        r@ == match opt_json(ask.evidence) {
            Some(d) => d,
            None => Doc::Record(Seq::empty()),
        },
{
    match &ask.evidence {
        Some(d) => d.copy(),
        None => {
            let members: Vec<(String, Json)> = Vec::new();
            assert(member_docs(members@) =~= Seq::empty());
            record(members)
        },
    }
}

// -- laws -------------------------------------------------------------------------------------

/// A policy is judged by the one it replaces: a request to publish names another version than the
/// one its document installs.
pub proof fn lemma_policies_are_judged_by_the_outgoing(
    ask: PolicyAsk,
    document: Doc,
    hash: Result<String, Error>,
    stamp: Stamp,
)
    requires
        policy_question(ask, document, hash, stamp) is Ok,
    ensures
        document.text_at("policy-version"@) matches Some(version) && version != ask.in_force@,
{
}

/// The name the root set records is the name an approval is bound to: what a request to enrol is
/// bound to names the human and the key.
pub proof fn lemma_enrolments_bind_the_name(args: Seq<Seq<char>>, key: Seq<char>)
    requires
        root_request_refusal(args) is None,
        flag(args, "--enrol"@) == Some(key),
    ensures
        root_evidence(args) matches Some(d) && flag(args, "--subject"@) matches Some(subject)
            && names_human(subject) && d == enrolment_doc(subject, key),
{
}

/// A policy may be asked for exactly where everything it takes is given and the mandate is named by
/// its digest.
pub proof fn lemma_what_asking_for_a_policy_takes(args: Seq<Seq<char>>)
    ensures
        policy_request_refusal(args) is None <==> {
            &&& flag(args, "--document"@) is Some
            &&& flag(args, "--subject"@) is Some
            &&& flag(args, "--key"@) is Some
            &&& flag(args, "--in-force"@) is Some
            &&& flag(args, "--out"@) is Some
            &&& flag(args, "--mandate"@) matches Some(mandate) && is_digest(mandate)
        },
{
}

/// What is asked of a policy is that this document come into force, by the hash it has, as the
/// version it gives, under the policy in force now; and it is asked exactly where the document is
/// such a one and everything that goes into the question is at hand.
pub proof fn lemma_what_is_asked_of_a_policy(
    ask: PolicyAsk,
    document: Doc,
    hash: Result<String, Error>,
    stamp: Stamp,
)
    ensures
        policy_question(ask, document, hash, stamp) is Ok <==> {
            &&& document.at("policy-version"@) matches Doc::Text(version) && version
                != ask.in_force@
            &&& hash is Ok && stamp.key is Ok && stamp.now is Ok && stamp.nonce is Ok
            &&& shifted(stamp.now->Ok_0@, held64(ask.minutes * 60)) is Ok
        },
        policy_question(ask, document, hash, stamp) matches Ok(d) ==> {
            &&& d.get("action"@) == Some(Doc::Text("kernel.publish_policy"@))
            &&& d.get("target"@) == Some(
                Doc::Text("policy:"@ + document.at("policy-version"@)->Text_0),
            )
            &&& d.get("args-hash"@) == Some(Doc::Text(hash->Ok_0@))
            &&& d.get("policy-version"@) == Some(Doc::Text(ask.in_force@))
            &&& d.get("classification"@) == Some(Doc::Text("consequential"@))
            &&& d.get("component"@) == Some(Doc::Text("kernel"@))
            &&& d.get("subject"@) == Some(Doc::Text(ask.subject@))
            &&& d.get("key"@) == Some(Doc::Text(stamp.key->Ok_0@))
            &&& d.get("mandate-ref"@) == Some(Doc::Text(ask.mandate@))
            &&& d.get("nonce"@) == Some(Doc::Text(stamp.nonce->Ok_0@))
            &&& d.get("requested-at"@) == Some(Doc::Text(stamp.now->Ok_0@))
            &&& d.get("not-after"@) == Some(
                Doc::Text(shifted(stamp.now->Ok_0@, held64(ask.minutes * 60))->Ok_0),
            )
        },
{
    if policy_question(ask, document, hash, stamp) is Ok {
        let now = stamp.now->Ok_0@;
        crate::documents::lemma_what_a_request_says(
            Question {
                requested_at: now,
                subject: ask.subject@,
                key: stamp.key->Ok_0@,
                component: "kernel"@,
                mandate_ref: ask.mandate@,
                policy_version: ask.in_force@,
                classification: "consequential"@,
                action: PUBLISH_POLICY@,
                target: "policy:"@ + document.text_at("policy-version"@)->0,
                args_hash: hash->Ok_0@,
                nonce: stamp.nonce->Ok_0@,
                not_after: shifted(now, held64(ask.minutes * 60))->Ok_0,
            },
        );
    }
}

/// What is asked of an action is what was given, each thing in its own place, committed to the
/// arguments by their hash; and it is asked exactly where everything that goes into the question is
/// at hand.
pub proof fn lemma_what_is_asked_of_an_action(ask: EffectAsk, args_hash: Seq<char>, stamp: Stamp)
    ensures
        effect_question(ask, args_hash, stamp) is Ok <==> {
            &&& stamp.key is Ok && stamp.now is Ok && stamp.nonce is Ok
            &&& shifted(stamp.now->Ok_0@, held64(ask.minutes * 60)) is Ok
        },
        effect_question(ask, args_hash, stamp) matches Ok(d) ==> {
            &&& d.get("action"@) == Some(Doc::Text(ask.action@))
            &&& d.get("target"@) == Some(Doc::Text(ask.target@))
            &&& d.get("args-hash"@) == Some(Doc::Text(args_hash))
            &&& d.get("policy-version"@) == Some(Doc::Text(ask.in_force@))
            &&& d.get("classification"@) == Some(Doc::Text(ask.classification@))
            &&& d.get("component"@) == Some(Doc::Text(ask.component@))
            &&& d.get("subject"@) == Some(Doc::Text(ask.requester@))
            &&& d.get("key"@) == Some(Doc::Text(stamp.key->Ok_0@))
            &&& d.get("mandate-ref"@) == Some(Doc::Text(ask.mandate@))
            &&& d.get("nonce"@) == Some(Doc::Text(stamp.nonce->Ok_0@))
            &&& d.get("requested-at"@) == Some(Doc::Text(stamp.now->Ok_0@))
            &&& d.get("not-after"@) == Some(
                Doc::Text(shifted(stamp.now->Ok_0@, held64(ask.minutes * 60))->Ok_0),
            )
        },
{
    if effect_question(ask, args_hash, stamp) is Ok {
        let now = stamp.now->Ok_0@;
        crate::documents::lemma_what_a_request_says(
            Question {
                requested_at: now,
                subject: ask.requester@,
                key: stamp.key->Ok_0@,
                component: ask.component@,
                mandate_ref: ask.mandate@,
                policy_version: ask.in_force@,
                classification: ask.classification@,
                action: ask.action@,
                target: ask.target@,
                args_hash,
                nonce: stamp.nonce->Ok_0@,
                not_after: shifted(now, held64(ask.minutes * 60))->Ok_0,
            },
        );
    }
}

/// An action may be asked for exactly where everything it takes is given, and its arguments are
/// given in one of two ways and not in both: by their digest, or as a file.
pub proof fn lemma_what_asking_for_an_action_takes(args: Seq<Seq<char>>)
    ensures
        effect_request_refusal(args) is None <==> {
            &&& flag(args, "--action"@) is Some
            &&& flag(args, "--target"@) is Some
            &&& flag(args, "--requester"@) is Some
            &&& flag(args, "--key"@) is Some
            &&& flag(args, "--mandate"@) is Some
            &&& flag(args, "--in-force"@) is Some
            &&& flag(args, "--out"@) is Some
            &&& {
                ||| flag(args, "--args-from"@) is None && (flag(args, "--args-hash"@) matches Some(
                    hash,
                ) && is_digest(hash))
                ||| flag(args, "--args-from"@) is Some && flag(args, "--args-hash"@) is None
            }
        },
{
}

/// A change of the root set may be asked for exactly where everything it takes is given, and one key
/// is to be enrolled, for a human that is named, or retired, and not both.
pub proof fn lemma_what_asking_for_a_root_takes(args: Seq<Seq<char>>)
    ensures
        root_request_refusal(args) is None <==> {
            &&& flag(args, "--requester"@) is Some
            &&& flag(args, "--key"@) is Some
            &&& flag(args, "--mandate"@) is Some
            &&& flag(args, "--in-force"@) is Some
            &&& flag(args, "--out"@) is Some
            &&& {
                ||| {
                    &&& flag(args, "--enrol"@) matches Some(key) && is_key_id(key)
                    &&& flag(args, "--retire"@) is None
                    &&& flag(args, "--subject"@) matches Some(who) && who.len() > 6 && who.take(6)
                        == "human:"@
                }
                ||| {
                    &&& flag(args, "--retire"@) matches Some(key) && is_key_id(key)
                    &&& flag(args, "--enrol"@) is None
                }
            }
        },
        root_evidence(args) is Some <==> flag(args, "--enrol"@) is Some,
{
    reveal_strlit("human:");
    assert("human:"@.len() == 6);
}

/// The evidence of an enrolment names the key and the human it belongs to.
pub proof fn lemma_what_an_enrolment_says(subject: Seq<char>, key: Seq<char>)
    ensures
        ({
            let d = enrolment_doc(subject, key);
            &&& d->Record_0.len() == 2
            &&& d.get("key"@) == Some(Doc::Text(key))
            &&& d.get("subject"@) == Some(Doc::Text(subject))
        }),
{
    reveal_strlit("key");
    reveal_strlit("subject");
    assert("key"@.len() == 3);
    assert("subject"@.len() == 7);
    let members = enrolment_doc(subject, key)->Record_0;
    crate::json::lemma_lookup_at(members, "key"@, 0);
    crate::json::lemma_lookup_at(members, "subject"@, 1);
}

} // verus!
