//! The root key ceremony: the two envelopes that found a deployment, the configuration they
//! presuppose, and the grants a root signs.
//!
//! Nothing here is privileged. The ceremony yields two ordinary submissions, and everything that
//! is judged of a submission is judged of them.

use vstd::prelude::*;

use crate::clock::{bad_timestamp, is_timestamp, parse_timestamp, shift, shifted};
use crate::config::{
    caller_fault, caller_with, callers_fault, config_fault, is_caller, is_config, root_fault,
    roots_fault, Config, ConfiguredCaller, MEMBERS,
};
use crate::crypto::{
    drawn, hex_encode, hex_of, lemma_hex_is_digest, random_bytes, sha256_hex, sha256_hex_of,
    ENTROPY_UNAVAILABLE,
};
use crate::documents::{
    action_request, authorization, authorization_doc, decision_doc, envelope, envelope_doc,
    evidence, evidence_doc, execution, execution_doc, gate_decision, header_members, identity,
    identity_doc, lemma_envelope_stands, lemma_extended_gives, mandate, mandate_doc, names_of,
    owned_names, payload, payload_doc, request_doc, submission, submission_doc, MandateTerms,
    Question, Reach, RequestTerms, Scope, Terms,
};
use crate::error::{fault, refusal, settles, Error, Fault};
use crate::json::{
    docs, lemma_lookup_absent, lemma_lookup_at, list, lookup, member, member_docs, named, record,
    stranger, text, Doc, Json,
};
use crate::keys::{is_key_id, KeyId};
use crate::text::{
    begins, contains, debug_text, has_part, is_digest, join2, join3, join4,
    occurs_at, quoted, same, starts_with, texts, trim, trimmed,
};

verus! {

/// How long the mandate of the ceremony lives, in seconds: one working day.
pub const CEREMONY_SECONDS: i64 = 28_800;

/// How long the evidence of the first policy is kept, in seconds.
pub const POLICY_EVIDENCE_SECONDS: i64 = 31_536_000;

/// The public half of a ceremony.
#[derive(Debug)]
pub struct Identity {
    /// The human root's key.
    pub root: KeyId,
    /// The bootstrap agent's key.
    pub agent: KeyId,
    /// The kernel's own key.
    pub checkpoint: KeyId,
    /// The organization's policy key.
    pub policy: KeyId,
}

/// What is said of the deployment that is founded.
#[derive(Debug)]
pub struct Ceremony {
    /// The founding root, a named human.
    pub root_subject: String,
    /// The subject the root grants to, an agent.
    pub agent_subject: String,
    /// The first policy version.
    pub policy_version: String,
    /// A second root, where there is one.
    pub second_root: Option<(String, KeyId)>,
    /// The kernel's own stream.
    pub core_stream: String,
    /// When the ceremony is performed.
    pub now: String,
}

/// What a ceremony yields.
#[derive(Debug)]
pub struct Genesis {
    /// The submission of the interactive root mandate.
    pub root_mandate: Json,
    /// The submission of the first policy.
    pub first_policy: Json,
    /// What the configuration must hold when these arrive.
    pub config_fragment: Json,
    /// The signed policy document.
    pub policy_document: Json,
    /// What later envelopes cite the mandate by.
    pub mandate_ref: String,
    /// What the operator must read.
    pub warnings: Vec<String>,
}

/// What a ceremony yields.
pub struct Founding {
    /// The submission of the interactive root mandate.
    pub root_mandate: Doc,
    /// The submission of the first policy.
    pub first_policy: Doc,
    /// What the configuration must hold.
    pub config_fragment: Doc,
    /// The signed policy document.
    pub policy_document: Doc,
    /// What later envelopes cite the mandate by.
    pub mandate_ref: Seq<char>,
    /// What the operator must read.
    pub warnings: Seq<Seq<char>>,
}

impl View for Genesis {
    type V = Founding;

    open spec fn view(&self) -> Founding {
        Founding {
            root_mandate: self.root_mandate@,
            first_policy: self.first_policy@,
            config_fragment: self.config_fragment@,
            policy_document: self.policy_document@,
            mandate_ref: self.mandate_ref@,
            warnings: texts(self.warnings@),
        }
    }
}

// -- the subjects -----------------------------------------------------------------------------

/// What is wrong with a subject that must be of a class.
pub open spec fn subject_fault(subject: Seq<char>, prefix: Seq<char>) -> Option<Fault> {
    if begins(subject, prefix) && subject.len() > prefix.len() {
        None
    } else {
        Some(
            fault(
                "config-malformed"@,
                quoted(subject) + " must be of the form "@ + prefix + "<name>"@,
            ),
        )
    }
}

/// Refuses a subject that is not of a class, with a name.
pub fn require_subject(subject: &str, prefix: &str) -> (r: Result<(), Error>)
    ensures
        settles(r, subject_fault(subject@, prefix@)),
{
    if starts_with(subject, prefix) && !same(subject, prefix) {
        proof {
            if subject@.len() == prefix@.len() {
                assert(subject@ =~= prefix@) by {
                    assert(subject@.take(prefix@.len() as int) =~= subject@);
                }
            }
        }
        Ok(())
    } else {
        Err(
            Error::new(
                "config-malformed",
                join4(debug_text(subject).as_str(), " must be of the form ", prefix, "<name>"),
            ),
        )
    }
}

/// What is wrong with what is said of the deployment.
pub open spec fn ceremony_fault(c: Ceremony) -> Option<Fault> {
    if let Some(f) = subject_fault(c.root_subject@, "human:"@) {
        Some(f)
    } else if let Some(f) = subject_fault(c.agent_subject@, "agent:"@) {
        Some(f)
    } else if trimmed(c.policy_version@).len() == 0 {
        Some(fault("config-malformed"@, "the first policy needs a version"@))
    } else if !is_timestamp(c.now@) {
        Some(bad_timestamp(c.now@))
    } else {
        None
    }
}

fn check_ceremony(c: &Ceremony) -> (r: Result<(), Error>)
    ensures
        settles(r, ceremony_fault(*c)),
{
    require_subject(c.root_subject.as_str(), "human:")?;
    require_subject(c.agent_subject.as_str(), "agent:")?;
    if trim(c.policy_version.as_str()).is_empty() {
        return Err(refusal("config-malformed", "the first policy needs a version"));
    }
    let _instant: i64 = parse_timestamp(c.now.as_str())?;
    Ok(())
}

// -- the ceremony -----------------------------------------------------------------------------

/// The components the mandate of the ceremony reaches.
pub const CEREMONY_COMPONENTS: [&'static str; 1] = ["kernel"];

/// The actions it reaches.
pub const CEREMONY_ACTIONS: [&'static str; 1] = ["kernel.*"];

/// The classes it reaches.
pub const CEREMONY_CLASSES: [&'static str; 3] = ["read", "benign", "consequential"];

/// The resources it reaches.
pub const CEREMONY_RESOURCES: [&'static str; 1] = ["*"];

/// A document that was signed, and what it is known by.
#[derive(Debug)]
pub struct Signed {
    /// The document with its signature.
    pub object: Json,
    /// What identifies it.
    pub id: String,
    /// Its hash.
    pub hash: String,
}

/// What a ceremony is performed with: three keys of one seed, two nonces, the first policy, and
/// what has been signed so far.
#[derive(Debug)]
pub struct Material {
    /// The root's key.
    pub root: KeyId,
    /// The bootstrap agent's key.
    pub agent: KeyId,
    /// The policy key.
    pub policy: KeyId,
    /// What makes the mandate distinct.
    pub mandate_nonce: String,
    /// What makes the request distinct.
    pub request_nonce: String,
    /// The first policy, unsigned.
    pub policy_body: Json,
    /// What has been signed, in order: the mandate, its envelope, the policy, the approval and the
    /// envelope of the policy.
    pub signed: Vec<Signed>,
    /// The hash of the request, once it is known.
    pub request_hash: Option<String>,
}

/// Who signs.
#[derive(Debug, Clone, Copy, PartialEq, Eq, Structural)]
pub enum Signer {
    /// The human root.
    Root,
    /// The bootstrap agent.
    Agent,
    /// The organization's policy key.
    Policy,
}

/// What a ceremony needs next.
#[derive(Debug)]
pub enum Work {
    /// This is to be signed.
    Sign(Signer, Json),
    /// This is to be hashed.
    Hash(Json),
    /// The ceremony is done.
    Done(Box<Genesis>),
}

/// What a ceremony needs next.
pub enum Task {
    /// This is to be signed.
    Sign(Signer, Doc),
    /// This is to be hashed.
    Hash(Doc),
    /// The ceremony is done.
    Done(Founding),
}

impl View for Work {
    type V = Task;

    open spec fn view(&self) -> Task {
        match *self {
            Work::Sign(who, d) => Task::Sign(who, d@),
            Work::Hash(d) => Task::Hash(d@),
            Work::Done(g) => Task::Done((*g)@),
        }
    }
}

/// The mandate of the ceremony: interactive, from the root to the bootstrap agent, over the
/// kernel's own actions.
pub open spec fn ceremony_mandate(c: Ceremony, m: Material, until: Seq<char>) -> Doc {
    mandate_doc(
        Terms {
            kind: "interactive"@,
            grantor: c.root_subject@,
            grantor_key: m.root@,
            grantee: c.agent_subject@,
            grantee_key: m.agent@,
            from: c.now@,
            until,
            max_depth: 2,
            scope: Reach {
                components: names_of(CEREMONY_COMPONENTS@),
                actions: names_of(CEREMONY_ACTIONS@),
                classes: names_of(CEREMONY_CLASSES@),
                resources: names_of(CEREMONY_RESOURCES@),
            },
            nonce: m.mandate_nonce@,
        },
    )
}

/// Who emits the envelopes of the ceremony.
pub open spec fn ceremony_emitter(c: Ceremony, m: Material) -> Doc {
    identity_doc(Doc::Text(c.agent_subject@), m.agent@, Doc::Text("kernel"@))
}

/// The envelope of the mandate, unsigned: the first of the core stream.
pub open spec fn mandate_envelope_doc(c: Ceremony, m: Material, mandate: Doc) -> Doc {
    envelope_doc(
        "mandate"@,
        c.core_stream@,
        0,
        Doc::Null,
        c.now@,
        ceremony_emitter(c, m),
        seq![("mandate"@, mandate)],
    )
}

/// What the first policy is published as.
pub open spec fn policy_target(c: Ceremony) -> Seq<char> {
    "policy:"@ + c.policy_version@
}

/// The request to publish the first policy: it commits to the very document that is published.
pub open spec fn first_policy_request(c: Ceremony, m: Material, until: Seq<char>) -> Doc {
    request_doc(
        Question {
            requested_at: c.now@,
            subject: c.agent_subject@,
            key: m.agent@,
            component: "kernel"@,
            mandate_ref: m.signed@[0].id@,
            policy_version: c.policy_version@,
            classification: "consequential"@,
            action: "kernel.publish_policy"@,
            target: policy_target(c),
            args_hash: m.signed@[2].hash@,
            nonce: m.request_nonce@,
            not_after: until,
        },
    )
}

/// The members of the envelope of the first policy.
pub open spec fn policy_members(
    c: Ceremony,
    m: Material,
    until: Seq<char>,
    kept_until: Seq<char>,
) -> Seq<(Seq<char>, Doc)> {
    let hash = m.signed@[2].hash@;
    seq![
        (
            "authorization"@,
            authorization_doc(first_policy_request(c, m, until), m.signed@[3].object@),
        ),
        ("classification"@, Doc::Text("consequential"@)),
        ("evidence"@, evidence_doc("kernel.publish_policy.v1"@, hash, kept_until)),
        (
            "execution"@,
            execution_doc(
                Doc::Text("kernel.publish_policy"@),
                Doc::Text(policy_target(c)),
                Doc::Text(hash),
                c.now@,
            ),
        ),
        ("mandate-ref"@, Doc::Text(m.signed@[0].id@)),
        ("policy-version"@, Doc::Text(c.policy_version@)),
    ]
}

/// The envelope of the first policy, unsigned: the second of the core stream, linked to the first.
pub open spec fn policy_envelope_doc(
    c: Ceremony,
    m: Material,
    until: Seq<char>,
    kept_until: Seq<char>,
) -> Doc {
    envelope_doc(
        "policy-change"@,
        c.core_stream@,
        1,
        Doc::Text(m.signed@[1].id@),
        c.now@,
        ceremony_emitter(c, m),
        policy_members(c, m, until, kept_until),
    )
}

/// An enrolled root, as a configuration holds it.
pub open spec fn root_entry(subject: Seq<char>, key: Seq<char>, now: Seq<char>) -> Doc {
    Doc::Record(
        seq![
            ("enrolled-at"@, Doc::Text(now)),
            ("key"@, Doc::Text(key)),
            ("subject"@, Doc::Text(subject)),
        ],
    )
}

/// What is said where only one root is enrolled.
pub const ONE_ROOT: &'static str = "one enrolled root. A human acting directly cannot satisfy `mandate-ref` (self-grant is forbidden), so changing the root set needs a mandate another human granted — that is, a second enrolled root. Enrol one before you need one: with a single root, losing that seed loses the ability to change the root set at all.";

/// The roots of the deployment, and what the operator must read of them; or why the second is none.
pub open spec fn founding_roots(c: Ceremony, root: Seq<char>) -> Result<
    (Seq<Doc>, Seq<Seq<char>>),
    Fault,
> {
    let first = root_entry(c.root_subject@, root, c.now@);
    match c.second_root {
        None => Ok((seq![first], seq![ONE_ROOT@])),
        Some((subject, key)) => if let Some(f) = subject_fault(subject@, "human:"@) {
            Err(f)
        } else if key@ == root {
            Err(
                fault(
                    "config-malformed"@,
                    "the second root must be a different key — two names on one key is one root"@,
                ),
            )
        } else {
            Ok((seq![first, root_entry(subject@, key@, c.now@)], Seq::empty()))
        },
    }
}

/// What a ceremony yields, once everything is signed.
pub open spec fn founding(c: Ceremony, m: Material) -> Result<Founding, Fault> {
    let document = m.signed@[2];
    match founding_roots(c, m.root@) {
        Err(f) => Err(f),
        Ok((roots, warnings)) => Ok(
            Founding {
                root_mandate: submission_doc(m.signed@[1].object@, Seq::empty()),
                first_policy: submission_doc(
                    m.signed@[4].object@,
                    seq![payload_doc(document.hash@, document.object@)],
                ),
                config_fragment: Doc::Record(
                    seq![("policy-key"@, Doc::Text(m.policy@)), ("roots"@, Doc::List(roots))],
                ),
                policy_document: document.object@,
                mandate_ref: m.signed@[0].id@,
                warnings,
            },
        ),
    }
}

/// What a ceremony needs next: the mandate, its envelope, the policy, the root's approval over the
/// request and the envelope of the policy are signed, in that order, and then it is done.
pub open spec fn ceremony_task(c: Ceremony, m: Material) -> Result<Task, Fault> {
    let until = shifted(c.now@, CEREMONY_SECONDS as int);
    let kept_until = shifted(c.now@, POLICY_EVIDENCE_SECONDS as int);
    let done = m.signed@.len();
    if let Some(f) = ceremony_fault(c) {
        Err(f)
    } else if let Err(f) = until {
        Err(f)
    } else if done == 0 {
        Ok(Task::Sign(Signer::Root, ceremony_mandate(c, m, until->Ok_0)))
    } else if done == 1 {
        Ok(Task::Sign(Signer::Agent, mandate_envelope_doc(c, m, m.signed@[0].object@)))
    } else if done == 2 {
        Ok(Task::Sign(Signer::Policy, m.policy_body@))
    } else if done == 3 {
        match m.request_hash {
            None => Ok(Task::Hash(first_policy_request(c, m, until->Ok_0))),
            Some(hash) => Ok(
                Task::Sign(Signer::Root, decision_doc(hash@, None, c.now@, until->Ok_0)),
            ),
        }
    } else if done == 4 {
        match kept_until {
            Err(f) => Err(f),
            Ok(kept) => Ok(Task::Sign(Signer::Agent, policy_envelope_doc(c, m, until->Ok_0, kept))),
        }
    } else {
        match founding(c, m) {
            Err(f) => Err(f),
            Ok(g) => Ok(Task::Done(g)),
        }
    }
}

fn draw_mandate(c: &Ceremony, m: &Material, until: &str) -> (r: Json)
    ensures
        r@ == ceremony_mandate(*c, *m, until@),
{
    let terms = MandateTerms {
        kind: "interactive".to_owned(),
        grantor: c.root_subject.clone(),
        grantor_key: m.root.as_str().to_owned(),
        grantee: c.agent_subject.clone(),
        grantee_key: m.agent.as_str().to_owned(),
        from: c.now.clone(),
        until: until.to_owned(),
        max_depth: 2,
        scope: Scope {
            components: owned_names(&CEREMONY_COMPONENTS),
            actions: owned_names(&CEREMONY_ACTIONS),
            classes: owned_names(&CEREMONY_CLASSES),
            resources: owned_names(&CEREMONY_RESOURCES),
        },
        nonce: m.mandate_nonce.clone(),
    };
    mandate(&terms)
}

fn emitter(c: &Ceremony, m: &Material) -> (r: Json)
    ensures
        r@ == ceremony_emitter(*c, *m),
{
    identity(text(c.agent_subject.as_str()), m.agent.as_str(), text("kernel"))
}

fn draw_mandate_envelope(c: &Ceremony, m: &Material, signed: &Json) -> (r: Json)
    ensures
        r@ == mandate_envelope_doc(*c, *m, signed@),
{
    let mut more: Vec<(String, Json)> = Vec::new();
    more.push(member("mandate", signed.copy()));
    assert(member_docs(more@) =~= seq![("mandate"@, signed@)]);
    envelope(
        "mandate",
        c.core_stream.as_str(),
        0,
        Json::Null,
        c.now.as_str(),
        emitter(c, m),
        &more,
    )
}

fn draw_request(c: &Ceremony, m: &Material, until: &str) -> (r: Json)
    requires
        m.signed@.len() >= 3,
    ensures
        r@ == first_policy_request(*c, *m, until@),
{
    let terms = RequestTerms {
        requested_at: c.now.clone(),
        subject: c.agent_subject.clone(),
        key: m.agent.as_str().to_owned(),
        component: "kernel".to_owned(),
        mandate_ref: m.signed[0].id.clone(),
        policy_version: c.policy_version.clone(),
        classification: "consequential".to_owned(),
        action: "kernel.publish_policy".to_owned(),
        target: join2("policy:", c.policy_version.as_str()),
        args_hash: m.signed[2].hash.clone(),
        nonce: m.request_nonce.clone(),
        not_after: until.to_owned(),
    };
    action_request(&terms)
}

fn draw_policy_envelope(c: &Ceremony, m: &Material, until: &str, kept_until: &str) -> (r: Json)
    requires
        m.signed@.len() >= 4,
    ensures
        r@ == policy_envelope_doc(*c, *m, until@, kept_until@),
{
    let hash = m.signed[2].hash.as_str();
    let target = join2("policy:", c.policy_version.as_str());
    let request = draw_request(c, m, until);
    let mut more: Vec<(String, Json)> = Vec::new();
    more.push(member("authorization", authorization(&request, &m.signed[3].object)));
    more.push(member("classification", text("consequential")));
    more.push(member("evidence", evidence("kernel.publish_policy.v1", hash, kept_until)));
    more.push(
        member(
            "execution",
            execution(
                text("kernel.publish_policy"),
                text(target.as_str()),
                text(hash),
                c.now.as_str(),
            ),
        ),
    );
    more.push(member("mandate-ref", text(m.signed[0].id.as_str())));
    more.push(member("policy-version", text(c.policy_version.as_str())));
    assert(member_docs(more@) =~= policy_members(*c, *m, until@, kept_until@));
    envelope(
        "policy-change",
        c.core_stream.as_str(),
        1,
        text(m.signed[1].id.as_str()),
        c.now.as_str(),
        emitter(c, m),
        &more,
    )
}

fn draw_root(subject: &str, key: &str, now: &str) -> (r: Json)
    ensures
        r@ == root_entry(subject@, key@, now@),
{
    let mut out: Vec<(String, Json)> = Vec::new();
    out.push(member("enrolled-at", text(now)));
    out.push(member("key", text(key)));
    out.push(member("subject", text(subject)));
    assert(member_docs(out@) =~= root_entry(subject@, key@, now@)->Record_0);
    record(out)
}

fn draw_roots(c: &Ceremony, root: &KeyId) -> (r: Result<(Vec<Json>, Vec<String>), Error>)
    ensures
        match founding_roots(*c, root@) {
            Ok((roots, warnings)) => r matches Ok(v) && docs(v.0@) == roots && texts(v.1@)
                == warnings,
            Err(f) => r matches Err(e) && e@ == f,
        },
{
    let mut roots: Vec<Json> = Vec::new();
    let mut warnings: Vec<String> = Vec::new();
    let ghost first = root_entry(c.root_subject@, root@, c.now@);
    roots.push(draw_root(c.root_subject.as_str(), root.as_str(), c.now.as_str()));
    match &c.second_root {
        None => {
            warnings.push(ONE_ROOT.to_owned());
            assert(docs(roots@) =~= seq![first]);
            assert(texts(warnings@) =~= seq![ONE_ROOT@]);
        },
        Some((subject, key)) => {
            require_subject(subject.as_str(), "human:")?;
            if same(key.as_str(), root.as_str()) {
                return Err(
                    refusal(
                        "config-malformed",
                        "the second root must be a different key — two names on one key is one root",
                    ),
                );
            }
            roots.push(draw_root(subject.as_str(), key.as_str(), c.now.as_str()));
            assert(docs(roots@) =~= seq![first, root_entry(subject@, key@, c.now@)]);
            assert(texts(warnings@) =~= Seq::empty());
        },
    }
    Ok((roots, warnings))
}

fn conclude(c: &Ceremony, m: &Material) -> (r: Result<Genesis, Error>)
    requires
        m.signed@.len() >= 5,
    ensures
        match founding(*c, *m) {
            Ok(g) => r matches Ok(v) && v@ == g,
            Err(f) => r matches Err(e) && e@ == f,
        },
{
    let (roots, warnings) = draw_roots(c, &m.root)?;
    let document = &m.signed[2];
    let none: Vec<Json> = Vec::new();
    assert(docs(none@) =~= Seq::empty());
    let mut payloads: Vec<Json> = Vec::new();
    payloads.push(payload(document.hash.as_str(), &document.object));
    assert(docs(payloads@) =~= seq![payload_doc(document.hash@, document.object@)]);
    let ghost listed = docs(roots@);
    let mut fragment: Vec<(String, Json)> = Vec::new();
    fragment.push(member("policy-key", text(m.policy.as_str())));
    fragment.push(member("roots", list(roots)));
    assert(member_docs(fragment@) =~= seq![
        ("policy-key"@, Doc::Text(m.policy@)),
        ("roots"@, Doc::List(listed)),
    ]);
    Ok(
        Genesis {
            root_mandate: submission(&m.signed[1].object, none),
            first_policy: submission(&m.signed[4].object, payloads),
            config_fragment: record(fragment),
            policy_document: document.object.copy(),
            mandate_ref: m.signed[0].id.clone(),
            warnings,
        },
    )
}

/// Whether the keys that a ceremony enrols and publishes under are named as keys are. Every key in
/// hand is.
pub open spec fn has_valid_keys(c: Ceremony, m: Material) -> bool {
    &&& is_key_id(m.root@)
    &&& is_key_id(m.policy@)
    &&& c.second_root matches Some((_, key)) ==> is_key_id(key@)
}

/// What a ceremony needs next, given what has been signed so far.
pub fn build(ceremony: &Ceremony, material: &Material) -> (r: Result<Work, Error>)
    ensures
        match ceremony_task(*ceremony, *material) {
            Ok(t) => r matches Ok(v) && v@ == t,
            Err(f) => r matches Err(e) && e@ == f,
        },
        has_valid_keys(*ceremony, *material),
{
    proof {
        use_type_invariant(&material.root);
        use_type_invariant(&material.policy);
    }
    if let Some((_, key)) = &ceremony.second_root {
        proof {
            use_type_invariant(key);
        }
    }
    check_ceremony(ceremony)?;
    let until = shift(ceremony.now.as_str(), CEREMONY_SECONDS)?;
    let done: usize = material.signed.len();
    if done == 0 {
        return Ok(Work::Sign(Signer::Root, draw_mandate(ceremony, material, until.as_str())));
    }
    if done == 1 {
        return Ok(
            Work::Sign(
                Signer::Agent,
                draw_mandate_envelope(ceremony, material, &material.signed[0].object),
            ),
        );
    }
    if done == 2 {
        return Ok(Work::Sign(Signer::Policy, material.policy_body.copy()));
    }
    if done == 3 {
        return match &material.request_hash {
            None => Ok(Work::Hash(draw_request(ceremony, material, until.as_str()))),
            Some(hash) => Ok(
                Work::Sign(
                    Signer::Root,
                    gate_decision(hash.as_str(), None, ceremony.now.as_str(), until.as_str()),
                ),
            ),
        };
    }
    if done == 4 {
        let kept = shift(ceremony.now.as_str(), POLICY_EVIDENCE_SECONDS)?;
        return Ok(
            Work::Sign(
                Signer::Agent,
                draw_policy_envelope(ceremony, material, until.as_str(), kept.as_str()),
            ),
        );
    }
    let genesis = conclude(ceremony, material)?;
    Ok(Work::Done(Box::new(genesis)))
}

// -- grants -----------------------------------------------------------------------------------

/// What a root grants, and to whom.
#[derive(Debug)]
pub struct Grant<'a> {
    /// The granting root, a named human.
    pub root_subject: &'a str,
    /// The subject it is granted to.
    pub grantee_subject: &'a str,
    /// The key it is granted to.
    pub grantee_key: &'a KeyId,
    /// How many days the grant lives.
    pub days: i64,
    /// The components the grantee may act through.
    pub components: Vec<String>,
    /// The actions, or patterns of them.
    pub actions: Vec<String>,
    /// The weight classes.
    pub classes: Vec<String>,
    /// The resources.
    pub resources: Vec<String>,
    /// When it is issued.
    pub now: &'a str,
}

/// The refusal of a grant that names nothing under a dimension.
pub open spec fn empty_dimension(name: Seq<char>) -> Fault {
    fault("config-malformed"@, "scope."@ + name + " must name at least one pattern"@)
}

/// What is wrong with a grant: nobody grants to themselves, nor nothing.
pub open spec fn grant_fault(g: Grant, root: Seq<char>) -> Option<Fault> {
    if let Some(f) = subject_fault(g.root_subject@, "human:"@) {
        Some(f)
    } else if !has_part(g.grantee_subject@, ":"@) {
        Some(
            fault(
                "config-malformed"@,
                "the grantee subject must be of the form <class>:<name>"@,
            ),
        )
    } else if g.days <= 0 {
        Some(fault("config-malformed"@, "a grant with no lifetime grants nothing"@))
    } else if g.components@.len() == 0 {
        Some(empty_dimension("components"@))
    } else if g.actions@.len() == 0 {
        Some(empty_dimension("actions"@))
    } else if g.classes@.len() == 0 {
        Some(empty_dimension("classes"@))
    } else if g.resources@.len() == 0 {
        Some(empty_dimension("resources"@))
    } else if !is_timestamp(g.now@) {
        Some(bad_timestamp(g.now@))
    } else if root == g.grantee_key@ {
        Some(
            fault(
                "config-malformed"@,
                "the root cannot grant to itself — self-grant is forbidden"@,
            ),
        )
    } else {
        None
    }
}

/// The standing mandate of a grant, unsigned: from a minute ago, for so many days.
pub open spec fn grant_doc(g: Grant, root: Seq<char>, nonce: Seq<char>) -> Result<Doc, Fault> {
    let from = shifted(g.now@, -60);
    let until = shifted(g.now@, g.days * 86_400);
    if let Some(f) = grant_fault(g, root) {
        Err(f)
    } else if let Err(f) = from {
        Err(f)
    } else if let Err(f) = until {
        Err(f)
    } else {
        Ok(
            mandate_doc(
                Terms {
                    kind: "standing"@,
                    grantor: g.root_subject@,
                    grantor_key: root,
                    grantee: g.grantee_subject@,
                    grantee_key: g.grantee_key@,
                    from: from->Ok_0,
                    until: until->Ok_0,
                    max_depth: 1,
                    scope: Reach {
                        components: texts(g.components@),
                        actions: texts(g.actions@),
                        classes: texts(g.classes@),
                        resources: texts(g.resources@),
                    },
                    nonce,
                },
            ),
        )
    }
}

fn no_dimension(name: &str) -> (r: Error)
    ensures
        r@ == empty_dimension(name@),
{
    Error::new("config-malformed", join3("scope.", name, " must name at least one pattern"))
}

fn check_grant(g: &Grant, root: &KeyId) -> (r: Result<(), Error>)
    ensures
        settles(r, grant_fault(*g, root@)),
{
    require_subject(g.root_subject, "human:")?;
    if !contains(g.grantee_subject, ":") {
        return Err(
            refusal(
                "config-malformed",
                "the grantee subject must be of the form <class>:<name>",
            ),
        );
    }
    if g.days <= 0 {
        return Err(refusal("config-malformed", "a grant with no lifetime grants nothing"));
    }
    if g.components.len() == 0 {
        return Err(no_dimension("components"));
    }
    if g.actions.len() == 0 {
        return Err(no_dimension("actions"));
    }
    if g.classes.len() == 0 {
        return Err(no_dimension("classes"));
    }
    if g.resources.len() == 0 {
        return Err(no_dimension("resources"));
    }
    let _instant: i64 = parse_timestamp(g.now)?;
    if same(root.as_str(), g.grantee_key.as_str()) {
        return Err(
            refusal(
                "config-malformed",
                "the root cannot grant to itself — self-grant is forbidden",
            ),
        );
    }
    Ok(())
}

fn copies(items: &Vec<String>) -> (r: Vec<String>)
    ensures
        texts(r@) == texts(items@),
{
    let mut out: Vec<String> = Vec::new();
    let mut i: usize = 0;
    while i < items.len()
        invariant
            i <= items@.len(),
            out@.len() == i,
            forall|j: int| 0 <= j < i ==> (#[trigger] out@[j])@ == items@[j]@,
        decreases items@.len() - i,
    {
        out.push(items[i].clone());
        i += 1;
    }
    assert(texts(out@) =~= texts(items@));
    out
}

/// The standing mandate of a grant, unsigned, for the root with this key. Its lifetime in seconds
/// fits in sixty-four bits.
pub fn standing_grant(root: &KeyId, grant: &Grant, nonce: &str) -> (r: Result<Json, Error>)
    requires
        grant.days * 86_400 <= i64::MAX,
    ensures
        match grant_doc(*grant, root@, nonce@) {
            Ok(d) => r matches Ok(v) && v@ == d,
            Err(f) => r matches Err(e) && e@ == f,
        },
{
    check_grant(grant, root)?;
    let from = shift(grant.now, -60)?;
    let until = shift(grant.now, grant.days * 86_400)?;
    let terms = MandateTerms {
        kind: "standing".to_owned(),
        grantor: grant.root_subject.to_owned(),
        grantor_key: root.as_str().to_owned(),
        grantee: grant.grantee_subject.to_owned(),
        grantee_key: grant.grantee_key.as_str().to_owned(),
        from,
        until,
        max_depth: 1,
        scope: Scope {
            components: copies(&grant.components),
            actions: copies(&grant.actions),
            classes: copies(&grant.classes),
            resources: copies(&grant.resources),
        },
        nonce: nonce.to_owned(),
    };
    Ok(mandate(&terms))
}

// -- secrets ----------------------------------------------------------------------------------

/// What some octets that were drawn are as a nonce: their text in hexadecimal.
pub fn nonce_text(octets: &[u8]) -> (r: String)
    ensures
        r@ == hex_of(octets@),
{
    hex_encode(octets)
}

/// What some octets that were drawn are as a credential: their text in hexadecimal, which is the
/// token, and the digest of that text.
pub fn token_text(octets: &[u8]) -> (r: (String, String))
    ensures
        r.0@ == hex_of(octets@),
        r.1@ == sha256_hex_of(vstd::utf8::encode_utf8(r.0@)),
        is_digest(r.1@),
{
    let token = hex_encode(octets);
    let digest = sha256_hex(token.as_str().as_bytes());
    (token, digest)
}

/// Sixteen octets of entropy, in hexadecimal: what makes two requests distinct.
pub fn request_nonce() -> (r: Result<String, Error>)
    ensures
        match r {
            Ok(s) => exists|octets: Seq<u8>| octets.len() == 16 && s@ == #[trigger] hex_of(octets),
            Err(e) => e@.code == ENTROPY_UNAVAILABLE@,
        },
{
    let octets = drawn(random_bytes(16))?;
    Ok(nonce_text(octets.as_slice()))
}

/// A credential for a caller: a token of thirty-two octets, in hexadecimal, and the digest that a
/// configuration keeps in place of it.
pub fn caller_token() -> (r: Result<(String, String), Error>)
    ensures
        match r {
            Ok((token, digest)) => {
                &&& exists|octets: Seq<u8>|
                    octets.len() == 32 && token@ == #[trigger] hex_of(octets)
                &&& is_digest(token@)
                &&& digest@ == sha256_hex_of(vstd::utf8::encode_utf8(token@))
                &&& is_digest(digest@)
            },
            Err(e) => e@.code == ENTROPY_UNAVAILABLE@,
        },
{
    let octets = drawn(random_bytes(32))?;
    proof {
        lemma_hex_is_digest(octets@);
    }
    Ok(token_text(octets.as_slice()))
}

/// Where a deployment puts things.
#[derive(Debug)]
pub struct Deployment<'a> {
    /// The address the service binds.
    pub bind: &'a str,
    /// The path of the store.
    pub database: &'a str,
    /// The path of the kernel's seed.
    pub kernel_seed: &'a str,
    /// Where the console answers.
    pub console_base_url: &'a str,
    /// The subjects that may talk to the kernel.
    pub callers: &'a Vec<String>,
}

/// A caller's credential.
#[derive(Debug)]
pub struct Credential {
    /// The subject.
    pub subject: String,
    /// The token itself, which is in no configuration.
    pub token: String,
}

/// A caller, as a configuration holds it: by the digest of its token.
pub open spec fn caller_entry(subject: Seq<char>, digest: Seq<char>) -> Doc {
    Doc::Record(seq![("subject"@, Doc::Text(subject)), ("token-sha256"@, Doc::Text(digest))])
}

/// The callers of a deployment, each by its digest.
pub open spec fn caller_entries(subjects: Seq<Seq<char>>, digests: Seq<Seq<char>>) -> Seq<Doc> {
    Seq::new(subjects.len(), |i: int| caller_entry(subjects[i], digests[i]))
}

/// The configuration of a deployment.
pub open spec fn config_doc(fragment: Doc, d: Deployment, digests: Seq<Seq<char>>) -> Doc {
    Doc::Record(
        seq![
            ("bind"@, Doc::Text(d.bind@)),
            ("callers"@, Doc::List(caller_entries(texts(d.callers@), digests))),
            ("console-base-url"@, Doc::Text(d.console_base_url@)),
            ("database"@, Doc::Text(d.database@)),
            ("kernel-seed"@, Doc::Text(d.kernel_seed@)),
            ("notifications"@, Doc::List(Seq::empty())),
            ("policy-key"@, fragment.at("policy-key"@)),
            ("roots"@, fragment.at("roots"@)),
        ],
    )
}

/// The configuration of a deployment, given the digests of its callers' tokens.
pub fn config_with(fragment: &Json, deployment: &Deployment, digests: &Vec<String>) -> (r: Json)
    requires
        digests@.len() == deployment.callers@.len(),
    ensures
        r@ == config_doc(fragment@, *deployment, texts(digests@)),
{
    let mut callers: Vec<Json> = Vec::new();
    let mut i: usize = 0;
    while i < deployment.callers.len()
        invariant
            i <= deployment.callers@.len() == digests@.len(),
            callers@.len() == i,
            forall|j: int|
                0 <= j < i ==> (#[trigger] callers@[j])@ == caller_entry(
                    deployment.callers@[j]@,
                    digests@[j]@,
                ),
        decreases deployment.callers@.len() - i,
    {
        let mut entry: Vec<(String, Json)> = Vec::new();
        entry.push(member("subject", text(deployment.callers[i].as_str())));
        entry.push(member("token-sha256", text(digests[i].as_str())));
        assert(member_docs(entry@) =~= caller_entry(
            deployment.callers@[i as int]@,
            digests@[i as int]@,
        )->Record_0);
        callers.push(record(entry));
        i += 1;
    }
    assert(docs(callers@) =~= caller_entries(texts(deployment.callers@), texts(digests@)));
    let none: Vec<Json> = Vec::new();
    assert(docs(none@) =~= Seq::empty());
    let mut out: Vec<(String, Json)> = Vec::new();
    out.push(member("bind", text(deployment.bind)));
    out.push(member("callers", list(callers)));
    out.push(member("console-base-url", text(deployment.console_base_url)));
    out.push(member("database", text(deployment.database)));
    out.push(member("kernel-seed", text(deployment.kernel_seed)));
    out.push(member("notifications", list(none)));
    out.push(member("policy-key", fragment.at("policy-key").copy()));
    out.push(member("roots", fragment.at("roots").copy()));
    assert(member_docs(out@) =~= config_doc(fragment@, *deployment, texts(digests@))->Record_0);
    record(out)
}

/// Whether credentials are those of some callers: one each, in order, with a token and a digest of
/// it that a configuration can hold.
pub open spec fn are_credentials(credentials: Seq<Credential>, callers: Seq<String>) -> bool {
    &&& credentials.len() == callers.len()
    &&& forall|i: int|
        0 <= i < credentials.len() ==> (#[trigger] credentials[i]).subject@ == callers[i]@
            && is_digest(credentials[i].token@) && is_digest(token_digests(credentials)[i])
}

/// The digests of the tokens of some credentials.
pub open spec fn token_digests(credentials: Seq<Credential>) -> Seq<Seq<char>> {
    Seq::new(
        credentials.len(),
        |i: int| sha256_hex_of(vstd::utf8::encode_utf8(credentials[i].token@)),
    )
}

/// A complete configuration around a ceremony's public material, and a fresh credential for each
/// caller; or a refusal where the system has no entropy.
pub fn kernel_config(genesis: &Genesis, deployment: &Deployment) -> (r: Result<
    (Json, Vec<Credential>),
    Error,
>)
    ensures
        match r {
            Ok((config, credentials)) => are_credentials(credentials@, deployment.callers@)
                && config@ == config_doc(
                genesis.config_fragment@,
                *deployment,
                token_digests(credentials@),
            ),
            Err(e) => e@.code == ENTROPY_UNAVAILABLE@,
        },
        deployment.callers@.len() == 0 ==> r is Ok,
{
    let mut credentials: Vec<Credential> = Vec::new();
    let mut digests: Vec<String> = Vec::new();
    let mut i: usize = 0;
    while i < deployment.callers.len()
        invariant
            i <= deployment.callers@.len(),
            credentials@.len() == i,
            digests@.len() == i,
            forall|j: int|
                0 <= j < i ==> {
                    &&& (#[trigger] credentials@[j]).subject@ == deployment.callers@[j]@
                    &&& is_digest(credentials@[j].token@)
                    &&& is_digest(digests@[j]@)
                    &&& digests@[j]@ == sha256_hex_of(
                        vstd::utf8::encode_utf8(credentials@[j].token@),
                    )
                },
        decreases deployment.callers@.len() - i,
    {
        let (token, digest) = caller_token()?;
        credentials.push(Credential { subject: deployment.callers[i].clone(), token });
        digests.push(digest);
        i += 1;
    }
    let config = config_with(&genesis.config_fragment, deployment, &digests);
    assert(texts(digests@) =~= token_digests(credentials@));
    assert forall|j: int| 0 <= j < credentials@.len() implies is_digest(
        #[trigger] token_digests(credentials@)[j],
    ) by {
        assert(credentials@[j].subject@ == deployment.callers@[j]@);
    }
    Ok((config, credentials))
}

// -- laws -------------------------------------------------------------------------------------

/// The ceremony builds a chain: the envelope of the first policy stands next to that of the mandate
/// on the core stream, and links to it.
pub proof fn lemma_the_ceremony_is_a_chain(
    c: Ceremony,
    m: Material,
    until: Seq<char>,
    kept_until: Seq<char>,
)
    ensures
        ({
            let zero = mandate_envelope_doc(c, m, m.signed@[0].object@);
            let one = policy_envelope_doc(c, m, until, kept_until);
            &&& zero.at("seq"@) == Doc::Int(0)
            &&& zero.at("prev-hash"@) == Doc::Null
            &&& zero.text_at("kind"@) == Some("mandate"@)
            &&& zero.text_at("stream"@) == Some(c.core_stream@)
            &&& one.at("seq"@) == Doc::Int(1)
            &&& one.text_at("prev-hash"@) == Some(m.signed@[1].id@)
            &&& one.text_at("kind"@) == Some("policy-change"@)
            &&& one.text_at("stream"@) == Some(c.core_stream@)
        }),
{
    lemma_member_names();
    lemma_envelope_stands(
        "mandate"@,
        c.core_stream@,
        0,
        Doc::Null,
        c.now@,
        ceremony_emitter(c, m),
        seq![("mandate"@, m.signed@[0].object@)],
    );
    lemma_envelope_stands(
        "policy-change"@,
        c.core_stream@,
        1,
        Doc::Text(m.signed@[1].id@),
        c.now@,
        ceremony_emitter(c, m),
        policy_members(c, m, until, kept_until),
    );
}

proof fn lemma_member_names()
    ensures
        "mandate"@.len() == 7,
        "authorization"@.len() == 13,
        "classification"@.len() == 14,
        "evidence"@.len() == 8,
        "execution"@.len() == 9,
        "execution"@[0] == 'e',
        "mandate-ref"@.len() == 11,
        "policy-version"@.len() == 14,
        "prev-hash"@.len() == 9,
        "prev-hash"@[0] == 'p',
        "seq"@.len() == 3,
        "stream"@.len() == 6,
        "kind"@.len() == 4,
{
    reveal_strlit("mandate");
    reveal_strlit("authorization");
    reveal_strlit("classification");
    reveal_strlit("evidence");
    reveal_strlit("execution");
    reveal_strlit("mandate-ref");
    reveal_strlit("policy-version");
    reveal_strlit("prev-hash");
    reveal_strlit("seq");
    reveal_strlit("stream");
    reveal_strlit("kind");
}

/// The approval binds the very document that takes effect: the request commits to its hash, the
/// envelope carries that request with the root's decision, and the hash is what is executed, kept
/// as evidence and submitted.
pub proof fn lemma_the_approval_binds_the_document(
    c: Ceremony,
    m: Material,
    until: Seq<char>,
    kept_until: Seq<char>,
)
    ensures
        ({
            let hash = m.signed@[2].hash@;
            let request = first_policy_request(c, m, until);
            let one = policy_envelope_doc(c, m, until, kept_until);
            &&& request.text_at("args-hash"@) == Some(hash)
            &&& one.at("authorization"@) == authorization_doc(request, m.signed@[3].object@)
            &&& one.at("execution"@).text_at("args-hash"@) == Some(hash)
            &&& one.at("evidence"@).text_at("payload-hash"@) == Some(hash)
        }),
{
    lemma_member_names();
    reveal_strlit("action");
    reveal_strlit("args-hash");
    reveal_strlit("media-type");
    reveal_strlit("payload-hash");
    let hash = m.signed@[2].hash@;
    let request = first_policy_request(c, m, until);
    assert("action"@.len() == 6 && "args-hash"@.len() == 9);
    lemma_lookup_at(request->Record_0, "args-hash"@, 1);
    let more = policy_members(c, m, until, kept_until);
    let head = Doc::Record(
        header_members(
            "policy-change"@,
            c.core_stream@,
            1,
            Doc::Text(m.signed@[1].id@),
            c.now@,
            ceremony_emitter(c, m),
        ),
    );
    assert("policy-version"@[0] == 'p' && "classification"@[0] == 'c') by {
        reveal_strlit("policy-version");
        reveal_strlit("classification");
    }
    lemma_extended_gives(head, more, more.len() as int, 0);
    lemma_extended_gives(head, more, more.len() as int, 2);
    lemma_extended_gives(head, more, more.len() as int, 3);
    let done = execution_doc(
        Doc::Text("kernel.publish_policy"@),
        Doc::Text(policy_target(c)),
        Doc::Text(hash),
        c.now@,
    );
    lemma_lookup_at(done->Record_0, "args-hash"@, 1);
    let kept = evidence_doc("kernel.publish_policy.v1"@, hash, kept_until);
    assert("media-type"@.len() == 10 && "payload-hash"@.len() == 12);
    lemma_lookup_at(kept->Record_0, "payload-hash"@, 1);
}

/// A grant that is drawn up is not to the root's own key, and grants something for some time.
pub proof fn lemma_roots_do_not_grant_to_themselves(g: Grant, root: Seq<char>, nonce: Seq<char>)
    requires
        grant_doc(g, root, nonce) is Ok,
    ensures
        g.grantee_key@ != root,
        g.days > 0,
        g.components@.len() > 0,
        g.actions@.len() > 0,
        g.classes@.len() > 0,
        g.resources@.len() > 0,
{
}

/// Two names on one key is one root: a ceremony enrols as many roots as it has different keys, and
/// says what it costs to have one.
pub proof fn lemma_founding_roots_are_distinct(c: Ceremony, root: Seq<char>)
    requires
        founding_roots(c, root) is Ok,
    ensures
        ({
            let (roots, warnings) = founding_roots(c, root)->Ok_0;
            &&& c.second_root is None ==> roots.len() == 1 && warnings.len() == 1
            &&& c.second_root matches Some((_, key)) ==> roots.len() == 2 && warnings.len() == 0
                && key@ != root
        }),
{
}

proof fn lemma_config_names()
    ensures
        "bind"@.len() == 4,
        "callers"@.len() == 7,
        "console-base-url"@.len() == 16,
        "database"@.len() == 8,
        "kernel-seed"@.len() == 11,
        "notifications"@.len() == 13,
        "policy-key"@.len() == 10,
        "roots"@.len() == 5,
        "gate-rate-limit"@.len() == 15,
        "decay-interval"@.len() == 14,
        "enrolled-at"@.len() == 11,
        "key"@.len() == 3,
        "subject"@.len() == 7,
        "token-sha256"@.len() == 12,
{
    reveal_strlit("bind");
    reveal_strlit("callers");
    reveal_strlit("console-base-url");
    reveal_strlit("database");
    reveal_strlit("kernel-seed");
    reveal_strlit("notifications");
    reveal_strlit("policy-key");
    reveal_strlit("roots");
    reveal_strlit("gate-rate-limit");
    reveal_strlit("decay-interval");
    reveal_strlit("enrolled-at");
    reveal_strlit("key");
    reveal_strlit("subject");
    reveal_strlit("token-sha256");
}

/// What is read from a configuration that was drawn up.
proof fn lemma_config_members(fragment: Doc, d: Deployment, digests: Seq<Seq<char>>)
    ensures
        ({
            let config = config_doc(fragment, d, digests);
            &&& stranger(config->Record_0, MEMBERS@, 0) is None
            &&& config.at("policy-key"@) == fragment.at("policy-key"@)
            &&& config.at("roots"@) == fragment.at("roots"@)
            &&& config.at("callers"@).items() == caller_entries(texts(d.callers@), digests)
            &&& config.at("notifications"@).items() == Seq::<Doc>::empty()
            &&& config.get("gate-rate-limit"@) is None
            &&& config.get("decay-interval"@) is None
        }),
{
    lemma_config_names();
    let members = config_doc(fragment, d, digests)->Record_0;
    lemma_lookup_at(members, "callers"@, 1);
    lemma_lookup_at(members, "notifications"@, 5);
    lemma_lookup_at(members, "policy-key"@, 6);
    lemma_lookup_at(members, "roots"@, 7);
    lemma_lookup_absent(members, "gate-rate-limit"@);
    lemma_lookup_absent(members, "decay-interval"@);
    assert(named(MEMBERS@, "bind"@)) by {
        assert(MEMBERS@[0]@ == "bind"@);
    }
    assert(named(MEMBERS@, "callers"@)) by {
        assert(MEMBERS@[9]@ == "callers"@);
    }
    assert(named(MEMBERS@, "console-base-url"@)) by {
        assert(MEMBERS@[11]@ == "console-base-url"@);
    }
    assert(named(MEMBERS@, "database"@)) by {
        assert(MEMBERS@[1]@ == "database"@);
    }
    assert(named(MEMBERS@, "kernel-seed"@)) by {
        assert(MEMBERS@[2]@ == "kernel-seed"@);
    }
    assert(named(MEMBERS@, "notifications"@)) by {
        assert(MEMBERS@[10]@ == "notifications"@);
    }
    assert(named(MEMBERS@, "policy-key"@)) by {
        assert(MEMBERS@[3]@ == "policy-key"@);
    }
    assert(named(MEMBERS@, "roots"@)) by {
        assert(MEMBERS@[8]@ == "roots"@);
    }
    reveal_with_fuel(stranger, 9);
}

proof fn lemma_root_entry_stands(subject: Seq<char>, key: Seq<char>, now: Seq<char>)
    requires
        subject_fault(subject, "human:"@) is None,
        is_key_id(key),
        is_timestamp(now),
    ensures
        root_fault(root_entry(subject, key, now)) is None,
{
    lemma_config_names();
    reveal_strlit("human:");
    let members = root_entry(subject, key, now)->Record_0;
    lemma_lookup_at(members, "enrolled-at"@, 0);
    lemma_lookup_at(members, "key"@, 1);
    lemma_lookup_at(members, "subject"@, 2);
}

proof fn lemma_caller_entry_reads(subject: Seq<char>, digest: Seq<char>)
    ensures
        caller_entry(subject, digest).text_at("subject"@) == Some(subject),
        caller_entry(subject, digest).text_at("token-sha256"@) == Some(digest),
{
    lemma_config_names();
    let members = caller_entry(subject, digest)->Record_0;
    lemma_lookup_at(members, "subject"@, 0);
    lemma_lookup_at(members, "token-sha256"@, 1);
}

proof fn lemma_callers_stand(entries: Seq<Doc>, from: int)
    requires
        0 <= from <= entries.len(),
        forall|i: int| 0 <= i < entries.len() ==> caller_fault(#[trigger] entries[i]) is None,
    ensures
        callers_fault(entries, from) is None,
    decreases entries.len() - from,
{
    if from < entries.len() {
        lemma_callers_stand(entries, from + 1);
    }
}

/// The configuration that a ceremony writes is one that the kernel accepts, whatever the deployment
/// and however many callers it has.
pub proof fn lemma_the_emitted_configuration_is_accepted(
    c: Ceremony,
    m: Material,
    d: Deployment,
    credentials: Seq<Credential>,
)
    requires
        ceremony_fault(c) is None,
        founding(c, m) is Ok,
        has_valid_keys(c, m),
        are_credentials(credentials, d.callers@),
    ensures
        config_fault(
            config_doc(founding(c, m)->Ok_0.config_fragment, d, token_digests(credentials)),
        ) is None,
{
    let fragment = founding(c, m)->Ok_0.config_fragment;
    let digests = token_digests(credentials);
    lemma_config_names();
    lemma_config_members(fragment, d, digests);
    lemma_lookup_at(fragment->Record_0, "policy-key"@, 0);
    lemma_lookup_at(fragment->Record_0, "roots"@, 1);
    lemma_root_entry_stands(c.root_subject@, m.root@, c.now@);
    if let Some((subject, key)) = c.second_root {
        lemma_root_entry_stands(subject@, key@, c.now@);
    }
    reveal_with_fuel(roots_fault, 3);
    let entries = caller_entries(texts(d.callers@), digests);
    assert forall|i: int| 0 <= i < entries.len() implies caller_fault(#[trigger] entries[i]) is None by {
        assert(credentials[i].subject@ == d.callers@[i]@);
        lemma_caller_entry_reads(d.callers@[i]@, digests[i]);
    }
    lemma_callers_stand(entries, 0);
}

/// Every fresh token authenticates to the caller it was made for, in the configuration that was
/// written with it, where no two of the tokens have one digest.
pub proof fn lemma_fresh_tokens_authenticate(
    fragment: Doc,
    d: Deployment,
    credentials: Seq<Credential>,
    parsed: Config,
    i: int,
)
    requires
        are_credentials(credentials, d.callers@),
        is_config(parsed, config_doc(fragment, d, token_digests(credentials))),
        forall|j: int, k: int|
            0 <= j < k < credentials.len() ==> #[trigger] token_digests(credentials)[j]
                != #[trigger] token_digests(credentials)[k],
        0 <= i < credentials.len(),
    ensures
        parsed.callers@.len() == credentials.len(),
        caller_with(
            parsed.callers@,
            sha256_hex_of(vstd::utf8::encode_utf8(credentials[i].token@)),
            parsed.callers@.len() as int,
        ) == Some(d.callers@[i]@),
{
    let digests = token_digests(credentials);
    lemma_config_members(fragment, d, digests);
    let entries = caller_entries(texts(d.callers@), digests);
    assert forall|j: int| 0 <= j < credentials.len() implies (#[trigger] parsed.callers@[j]).token_sha256@
        == digests[j] && parsed.callers@[j].subject@ == d.callers@[j]@ by {
        assert(is_caller(parsed.callers@[j], entries[j]));
        lemma_caller_entry_reads(d.callers@[j]@, digests[j]);
    }
    lemma_resolved(parsed.callers@, i, parsed.callers@.len() as int);
}

proof fn lemma_resolved(callers: Seq<ConfiguredCaller>, i: int, upto: int)
    requires
        0 <= i < upto <= callers.len(),
        forall|j: int|
            i < j < callers.len() ==> (#[trigger] callers[j]).token_sha256@
                != callers[i].token_sha256@,
    ensures
        caller_with(callers, callers[i].token_sha256@, upto) == Some(callers[i].subject@),
    decreases upto,
{
    if i < upto - 1 {
        lemma_resolved(callers, i, upto - 1);
    }
}

/// Whether a text occurs anywhere in a document: in a string, in a number or in a name.
pub open spec fn mentions(d: Doc, part: Seq<char>) -> bool
    decreases d,
{
    match d {
        Doc::Text(s) => has_part(s, part),
        Doc::Number(s) => has_part(s, part),
        Doc::List(items) => exists|i: int|
            0 <= i < items.len() && mentions(#[trigger] items[i], part),
        Doc::Record(members) => exists|i: int|
            0 <= i < members.len() && (has_part((#[trigger] members[i]).0, part) || mentions(
                members[i].1,
                part,
            )),
        _ => false,
    }
}

proof fn lemma_longer_is_no_part(s: Seq<char>, part: Seq<char>)
    requires
        s.len() < part.len() || (s.len() == part.len() && s != part),
    ensures
        !has_part(s, part),
{
    assert forall|i: int| !#[trigger] occurs_at(s, part, i) by {
        if occurs_at(s, part, i) {
            assert(i == 0);
            assert(s =~= part);
        }
    }
}

/// What is read under a name is the value of some member.
proof fn lemma_read_from_a_member(members: Seq<(Seq<char>, Doc)>, name: Seq<char>) -> (i: int)
    requires
        lookup(members, name) is Some,
    ensures
        0 <= i < members.len(),
        members[i].1 == lookup(members, name)->0,
    decreases members.len(),
{
    if members[0].0 == name {
        0
    } else {
        let j = lemma_read_from_a_member(members.drop_first(), name);
        assert(members.drop_first()[j] == members[j + 1]);
        j + 1
    }
}

proof fn lemma_members_mention(d: Doc, name: Seq<char>, part: Seq<char>)
    requires
        !mentions(d, part),
    ensures
        !mentions(d.at(name), part),
{
    if let Doc::Record(members) = d {
        if lookup(members, name) is Some {
            let i = lemma_read_from_a_member(members, name);
            assert(!mentions(members[i].1, part));
        }
    }
}

/// A configuration holds no token: it is made of the digests, so a token is in it only where what
/// the deployment was given, or what the ceremony wrote, happens to hold that very text, or where a
/// digest is itself the token.
pub proof fn lemma_the_configuration_holds_no_token(
    fragment: Doc,
    d: Deployment,
    digests: Seq<Seq<char>>,
    token: Seq<char>,
)
    requires
        is_digest(token),
        digests.len() == d.callers@.len(),
        forall|i: int|
            0 <= i < digests.len() ==> is_digest(#[trigger] digests[i]) && digests[i] != token,
        forall|i: int| 0 <= i < d.callers@.len() ==> !has_part((#[trigger] d.callers@[i])@, token),
        !has_part(d.bind@, token),
        !has_part(d.console_base_url@, token),
        !has_part(d.database@, token),
        !has_part(d.kernel_seed@, token),
        !mentions(fragment, token),
    ensures
        !mentions(config_doc(fragment, d, digests), token),
{
    lemma_config_names();
    let config = config_doc(fragment, d, digests);
    let members = config->Record_0;
    let entries = caller_entries(texts(d.callers@), digests);
    assert forall|i: int| 0 <= i < entries.len() implies !mentions(#[trigger] entries[i], token) by {
        let entry = entries[i]->Record_0;
        assert(entries[i] == caller_entry(d.callers@[i]@, digests[i]));
        lemma_longer_is_no_part(entry[0].0, token);
        lemma_longer_is_no_part(entry[1].0, token);
        lemma_longer_is_no_part(digests[i], token);
        assert(!has_part(d.callers@[i]@, token));
        assert(!mentions(entry[0].1, token) && !mentions(entry[1].1, token));
    }
    assert(!mentions(members[1].1, token));
    assert(!mentions(members[5].1, token));
    lemma_members_mention(fragment, "policy-key"@, token);
    lemma_members_mention(fragment, "roots"@, token);
    assert forall|i: int| 0 <= i < members.len() implies !has_part((#[trigger] members[i]).0, token)
        && !mentions(members[i].1, token) by {
        lemma_longer_is_no_part(members[i].0, token);
    }
}

/// A subject is named exactly where its class stands before it and something behind that.
pub proof fn lemma_what_a_subject_is(prefix: Seq<char>, subject: Seq<char>)
    ensures
        subject_fault(subject, prefix) is None <==> exists|name: Seq<char>|
            name.len() > 0 && subject == #[trigger] (prefix + name),
{
    if subject_fault(subject, prefix) is None {
        let name = subject.skip(prefix.len() as int);
        assert(subject =~= prefix + name);
    }
    assert forall|name: Seq<char>|
        name.len() > 0 && subject == #[trigger] (prefix + name) implies subject_fault(
        subject,
        prefix,
    ) is None by {
        assert(subject.take(prefix.len() as int) =~= prefix);
    }
}

/// A ceremony may be held exactly where its root is a human, its agent an agent, its policy has a
/// version and it is held at an instant.
pub proof fn lemma_when_a_ceremony_may_be_held(c: Ceremony)
    ensures
        ceremony_fault(c) is None <==> {
            &&& subject_fault(c.root_subject@, "human:"@) is None
            &&& subject_fault(c.agent_subject@, "agent:"@) is None
            &&& trimmed(c.policy_version@).len() > 0
            &&& is_timestamp(c.now@)
        },
{
}

/// A ceremony goes one signature at a time: the root signs the mandate, the agent its envelope, the
/// policy key the policy, the root, once the request is hashed, the decision, and the agent the
/// envelope of the policy; and only then is it done.
pub proof fn lemma_who_signs_when(c: Ceremony, m: Material)
    requires
        ceremony_fault(c) is None,
        shifted(c.now@, 28_800) is Ok,
        shifted(c.now@, 31_536_000) is Ok,
    ensures
        ({
            let until = shifted(c.now@, 28_800)->Ok_0;
            let kept = shifted(c.now@, 31_536_000)->Ok_0;
            let n = m.signed@.len();
            &&& n == 0 ==> ceremony_task(c, m) == Ok::<Task, Fault>(
                Task::Sign(Signer::Root, ceremony_mandate(c, m, until)),
            )
            &&& n == 1 ==> ceremony_task(c, m) == Ok::<Task, Fault>(
                Task::Sign(Signer::Agent, mandate_envelope_doc(c, m, m.signed@[0].object@)),
            )
            &&& n == 2 ==> ceremony_task(c, m) == Ok::<Task, Fault>(
                Task::Sign(Signer::Policy, m.policy_body@),
            )
            &&& n == 3 && m.request_hash is None ==> ceremony_task(c, m) == Ok::<Task, Fault>(
                Task::Hash(first_policy_request(c, m, until)),
            )
            &&& n == 3 && m.request_hash is Some ==> ceremony_task(c, m) == Ok::<Task, Fault>(
                Task::Sign(
                    Signer::Root,
                    decision_doc(m.request_hash->0@, None, c.now@, until),
                ),
            )
            &&& n == 4 ==> ceremony_task(c, m) == Ok::<Task, Fault>(
                Task::Sign(Signer::Agent, policy_envelope_doc(c, m, until, kept)),
            )
            &&& n >= 5 ==> (ceremony_task(c, m) is Ok <==> founding(c, m) is Ok)
            &&& n >= 5 && ceremony_task(c, m) is Ok ==> ceremony_task(c, m) == Ok::<Task, Fault>(
                Task::Done(founding(c, m)->Ok_0),
            )
        }),
{
}

/// What is founded is what was signed: the mandate's envelope alone, the policy's with the policy
/// beside it under its hash, the mandate by its identifier; and the configuration names the policy
/// key and the roots.
pub proof fn lemma_what_is_founded(c: Ceremony, m: Material)
    requires
        founding(c, m) is Ok,
    ensures
        ({
            let f = founding(c, m)->Ok_0;
            &&& f.root_mandate.get("envelope"@) == Some(m.signed@[1].object@)
            &&& f.root_mandate.get("payloads"@) == Some(Doc::List(Seq::empty()))
            &&& f.first_policy.get("envelope"@) == Some(m.signed@[4].object@)
            &&& f.first_policy.get("payloads"@) == Some(
                Doc::List(seq![payload_doc(m.signed@[2].hash@, m.signed@[2].object@)]),
            )
            &&& f.policy_document == m.signed@[2].object@
            &&& f.mandate_ref == m.signed@[0].id@
            &&& f.config_fragment.get("policy-key"@) == Some(Doc::Text(m.policy@))
            &&& f.config_fragment.at("roots"@) is List
            &&& f.config_fragment.at("roots"@).items().len() == if c.second_root is Some {
                2int
            } else {
                1
            }
            &&& f.warnings.len() == if c.second_root is Some {
                0int
            } else {
                1
            }
        }),
{
    crate::documents::lemma_what_is_submitted(m.signed@[1].object@, Seq::empty());
    crate::documents::lemma_what_is_submitted(
        m.signed@[4].object@,
        seq![payload_doc(m.signed@[2].hash@, m.signed@[2].object@)],
    );
    let members = founding(c, m)->Ok_0.config_fragment->Record_0;
    reveal_strlit("policy-key");
    reveal_strlit("roots");
    assert("policy-key"@.len() == 10);
    assert("roots"@.len() == 5);
    lemma_lookup_at(members, "policy-key"@, 0);
    lemma_lookup_at(members, "roots"@, 1);
}

/// The roots of a deployment are the one that founds it and, where there is a second, that one,
/// which must be a human with a key of its own.
pub proof fn lemma_who_the_founding_roots_are(c: Ceremony, root: Seq<char>)
    ensures
        founding_roots(c, root) is Ok <==> (c.second_root matches Some((subject, key))
            ==> subject_fault(subject@, "human:"@) is None && key@ != root),
        founding_roots(c, root) matches Ok((roots, _)) ==> {
            &&& roots[0] == root_entry(c.root_subject@, root, c.now@)
            &&& c.second_root matches Some((subject, key)) ==> roots.len() == 2 && roots[1]
                == root_entry(subject@, key@, c.now@)
            &&& c.second_root is None ==> roots.len() == 1
        },
{
}

/// A root is entered with its key, its human and when.
pub proof fn lemma_what_a_root_entry_says(subject: Seq<char>, key: Seq<char>, now: Seq<char>)
    ensures
        ({
            let d = root_entry(subject, key, now);
            &&& d->Record_0.len() == 3
            &&& d.get("enrolled-at"@) == Some(Doc::Text(now))
            &&& d.get("key"@) == Some(Doc::Text(key))
            &&& d.get("subject"@) == Some(Doc::Text(subject))
        }),
{
    reveal_strlit("enrolled-at");
    reveal_strlit("key");
    reveal_strlit("subject");
    assert("enrolled-at"@.len() == 11);
    assert("key"@.len() == 3);
    assert("subject"@.len() == 7);
    let members = root_entry(subject, key, now)->Record_0;
    crate::json::lemma_lookup_at(members, "enrolled-at"@, 0);
    crate::json::lemma_lookup_at(members, "key"@, 1);
    crate::json::lemma_lookup_at(members, "subject"@, 2);
}

/// A caller is entered with the digest of its token and never with the token.
pub proof fn lemma_what_a_caller_entry_says(subject: Seq<char>, digest: Seq<char>)
    ensures
        ({
            let d = caller_entry(subject, digest);
            &&& d->Record_0.len() == 2
            &&& d.get("subject"@) == Some(Doc::Text(subject))
            &&& d.get("token-sha256"@) == Some(Doc::Text(digest))
        }),
{
    reveal_strlit("subject");
    reveal_strlit("token-sha256");
    assert("subject"@.len() == 7);
    assert("token-sha256"@.len() == 12);
    let members = caller_entry(subject, digest)->Record_0;
    crate::json::lemma_lookup_at(members, "subject"@, 0);
    crate::json::lemma_lookup_at(members, "token-sha256"@, 1);
}

/// A grant may be drawn up exactly where a human grants, to a subject that can be told and a key that
/// is not the root's own, something in every dimension, for some days.
pub proof fn lemma_what_may_be_granted(g: Grant, root: Seq<char>)
    ensures
        grant_fault(g, root) is None <==> {
            &&& subject_fault(g.root_subject@, "human:"@) is None
            &&& has_part(g.grantee_subject@, ":"@)
            &&& g.days > 0
            &&& g.components@.len() > 0 && g.actions@.len() > 0 && g.classes@.len() > 0
                && g.resources@.len() > 0
            &&& is_timestamp(g.now@)
            &&& root != g.grantee_key@
        },
{
}

/// A grant is a standing mandate of what was granted, to whom, from a minute before it was drawn up
/// and for as many days as were asked for, and may be passed on once.
pub proof fn lemma_what_a_grant_says(g: Grant, root: Seq<char>, nonce: Seq<char>)
    ensures
        grant_doc(g, root, nonce) is Ok <==> grant_fault(g, root) is None && shifted(g.now@, -60)
            is Ok && shifted(g.now@, g.days * 86_400) is Ok,
        grant_doc(g, root, nonce) matches Ok(d) ==> {
            &&& d.get("mandate-kind"@) == Some(Doc::Text("standing"@))
            &&& d.get("not-before"@) == Some(Doc::Text(shifted(g.now@, -60)->Ok_0))
            &&& d.get("not-after"@) == Some(Doc::Text(shifted(g.now@, g.days * 86_400)->Ok_0))
            &&& d.get("max-depth"@) == Some(Doc::Int(1))
            &&& d.get("nonce"@) == Some(Doc::Text(nonce))
            &&& d.at("grantor"@).get("subject"@) == Some(Doc::Text(g.root_subject@))
            &&& d.at("grantor"@).get("key"@) == Some(Doc::Text(root))
            &&& d.at("grantee"@).get("subject"@) == Some(Doc::Text(g.grantee_subject@))
            &&& d.at("grantee"@).get("key"@) == Some(Doc::Text(g.grantee_key@))
            &&& d.at("scope"@).get("components"@) == Some(
                crate::documents::text_list(texts(g.components@)),
            )
            &&& d.at("scope"@).get("actions"@) == Some(
                crate::documents::text_list(texts(g.actions@)),
            )
            &&& d.at("scope"@).get("classes"@) == Some(
                crate::documents::text_list(texts(g.classes@)),
            )
            &&& d.at("scope"@).get("resources"@) == Some(
                crate::documents::text_list(texts(g.resources@)),
            )
        },
{
    if grant_doc(g, root, nonce) is Ok {
        let scope = Reach {
            components: texts(g.components@),
            actions: texts(g.actions@),
            classes: texts(g.classes@),
            resources: texts(g.resources@),
        };
        let terms = Terms {
            kind: "standing"@,
            grantor: g.root_subject@,
            grantor_key: root,
            grantee: g.grantee_subject@,
            grantee_key: g.grantee_key@,
            from: shifted(g.now@, -60)->Ok_0,
            until: shifted(g.now@, g.days * 86_400)->Ok_0,
            max_depth: 1,
            scope,
            nonce,
        };
        assert(grant_doc(g, root, nonce)->Ok_0 == mandate_doc(terms));
        crate::documents::lemma_what_a_mandate_says(terms);
        crate::documents::lemma_who_a_mandate_binds(terms);
        crate::documents::lemma_what_a_scope_says(scope);
    }
}

/// The mandate of a ceremony lets the agent do what the kernel does, in every class but the
/// prohibited one, to anything, for a working day, and may be passed on twice.
pub proof fn lemma_what_the_ceremony_grants(c: Ceremony, m: Material, until: Seq<char>)
    ensures
        ({
            let d = ceremony_mandate(c, m, until);
            let scope = d.at("scope"@);
            &&& d.get("mandate-kind"@) == Some(Doc::Text("interactive"@))
            &&& d.get("not-before"@) == Some(Doc::Text(c.now@))
            &&& d.get("not-after"@) == Some(Doc::Text(until))
            &&& d.get("max-depth"@) == Some(Doc::Int(2))
            &&& d.at("grantor"@).get("subject"@) == Some(Doc::Text(c.root_subject@))
            &&& d.at("grantor"@).get("key"@) == Some(Doc::Text(m.root@))
            &&& d.at("grantee"@).get("subject"@) == Some(Doc::Text(c.agent_subject@))
            &&& d.at("grantee"@).get("key"@) == Some(Doc::Text(m.agent@))
            &&& scope.at("components"@).items() == seq![Doc::Text("kernel"@)]
            &&& scope.at("actions"@).items() == seq![Doc::Text("kernel.*"@)]
            &&& scope.at("classes"@).items() == seq![
                Doc::Text("read"@),
                Doc::Text("benign"@),
                Doc::Text("consequential"@),
            ]
            &&& scope.at("resources"@).items() == seq![Doc::Text("*"@)]
        }),
{
    let scope = Reach {
        components: names_of(CEREMONY_COMPONENTS@),
        actions: names_of(CEREMONY_ACTIONS@),
        classes: names_of(CEREMONY_CLASSES@),
        resources: names_of(CEREMONY_RESOURCES@),
    };
    let terms = Terms {
        kind: "interactive"@,
        grantor: c.root_subject@,
        grantor_key: m.root@,
        grantee: c.agent_subject@,
        grantee_key: m.agent@,
        from: c.now@,
        until,
        max_depth: 2,
        scope,
        nonce: m.mandate_nonce@,
    };
    crate::documents::lemma_what_a_mandate_says(terms);
    crate::documents::lemma_who_a_mandate_binds(terms);
    crate::documents::lemma_what_a_scope_says(scope);
    let d = ceremony_mandate(c, m, until).at("scope"@);
    assert(d.at("components"@).items() =~= seq![Doc::Text("kernel"@)]);
    assert(d.at("actions"@).items() =~= seq![Doc::Text("kernel.*"@)]);
    assert(d.at("classes"@).items() =~= seq![
        Doc::Text("read"@),
        Doc::Text("benign"@),
        Doc::Text("consequential"@),
    ]);
    assert(d.at("resources"@).items() =~= seq![Doc::Text("*"@)]);
}

/// The configuration that is written says where the kernel listens and keeps what it has, who may
/// call it, and the policy key and the roots that were founded.
pub proof fn lemma_what_a_configuration_is_written_with(fragment: Doc, c: Deployment, digests: Seq<Seq<char>>)
    ensures
        ({
            let d = config_doc(fragment, c, digests);
            &&& d->Record_0.len() == 8
            &&& d.get("bind"@) == Some(Doc::Text(c.bind@))
            &&& d.get("callers"@) == Some(Doc::List(caller_entries(texts(c.callers@), digests)))
            &&& d.get("console-base-url"@) == Some(Doc::Text(c.console_base_url@))
            &&& d.get("database"@) == Some(Doc::Text(c.database@))
            &&& d.get("kernel-seed"@) == Some(Doc::Text(c.kernel_seed@))
            &&& d.get("notifications"@) == Some(Doc::List(Seq::empty()))
            &&& d.get("policy-key"@) == Some(fragment.at("policy-key"@))
            &&& d.get("roots"@) == Some(fragment.at("roots"@))
        }),
{
    reveal_strlit("bind");
    reveal_strlit("callers");
    reveal_strlit("console-base-url");
    reveal_strlit("database");
    reveal_strlit("kernel-seed");
    reveal_strlit("notifications");
    reveal_strlit("policy-key");
    reveal_strlit("roots");
    assert("bind"@.len() == 4);
    assert("callers"@.len() == 7);
    assert("console-base-url"@.len() == 16);
    assert("database"@.len() == 8);
    assert("kernel-seed"@.len() == 11);
    assert("notifications"@.len() == 13);
    assert("policy-key"@.len() == 10);
    assert("roots"@.len() == 5);
    let members = config_doc(fragment, c, digests)->Record_0;
    crate::json::lemma_lookup_at(members, "bind"@, 0);
    crate::json::lemma_lookup_at(members, "callers"@, 1);
    crate::json::lemma_lookup_at(members, "console-base-url"@, 2);
    crate::json::lemma_lookup_at(members, "database"@, 3);
    crate::json::lemma_lookup_at(members, "kernel-seed"@, 4);
    crate::json::lemma_lookup_at(members, "notifications"@, 5);
    crate::json::lemma_lookup_at(members, "policy-key"@, 6);
    crate::json::lemma_lookup_at(members, "roots"@, 7);
}

/// Every caller is entered, in its place, with the digest of its own token.
pub proof fn lemma_every_caller_is_entered(
    subjects: Seq<Seq<char>>,
    digests: Seq<Seq<char>>,
    i: int,
)
    requires
        0 <= i < subjects.len(),
    ensures
        caller_entries(subjects, digests).len() == subjects.len(),
        caller_entries(subjects, digests)[i].get("subject"@) == Some(Doc::Text(subjects[i])),
        caller_entries(subjects, digests)[i].get("token-sha256"@) == Some(Doc::Text(digests[i])),
{
    lemma_what_a_caller_entry_says(subjects[i], digests[i]);
}

/// The policy of a ceremony is asked for as what it is, by the agent, under the mandate just granted
/// and by the hash of the document.
pub proof fn lemma_what_the_first_policy_asks(c: Ceremony, m: Material, until: Seq<char>)
    ensures
        ({
            let d = first_policy_request(c, m, until);
            &&& d.get("action"@) == Some(Doc::Text("kernel.publish_policy"@))
            &&& d.get("target"@) == Some(Doc::Text("policy:"@ + c.policy_version@))
            &&& d.get("args-hash"@) == Some(Doc::Text(m.signed@[2].hash@))
            &&& d.get("mandate-ref"@) == Some(Doc::Text(m.signed@[0].id@))
            &&& d.get("policy-version"@) == Some(Doc::Text(c.policy_version@))
            &&& d.get("classification"@) == Some(Doc::Text("consequential"@))
            &&& d.get("subject"@) == Some(Doc::Text(c.agent_subject@))
            &&& d.get("key"@) == Some(Doc::Text(m.agent@))
            &&& d.get("component"@) == Some(Doc::Text("kernel"@))
            &&& d.get("nonce"@) == Some(Doc::Text(m.request_nonce@))
            &&& d.get("requested-at"@) == Some(Doc::Text(c.now@))
            &&& d.get("not-after"@) == Some(Doc::Text(until))
        }),
{
    crate::documents::lemma_what_a_request_says(
        Question {
            requested_at: c.now@,
            subject: c.agent_subject@,
            key: m.agent@,
            component: "kernel"@,
            mandate_ref: m.signed@[0].id@,
            policy_version: c.policy_version@,
            classification: "consequential"@,
            action: "kernel.publish_policy"@,
            target: policy_target(c),
            args_hash: m.signed@[2].hash@,
            nonce: m.request_nonce@,
            not_after: until,
        },
    );
}

} // verus!
