//! Admission: what every submission goes through before and after its kind is judged.
//!
//! The order is fixed: parse strictly, verify the signature over what was received, validate the
//! schema, and only then the mandate and the authorization.

use vstd::prelude::*;

use crate::clock::{shift, shifted};
use crate::codes::BUDGET_EXCEEDED_APPLIED;
use crate::error::{fault, refusal, Error, Fault};
use crate::gatequeue::said;
use crate::ingest::approvers::{all_roots, permitted, root_approvers, Root};
use crate::ingest::changes::{install, validate_policy_change, IncomingPolicy};
use crate::ingest::effect::{
    accrue_budget, charge, effect_written, gathered, refuse_unapproved, unapproved, used, use_of,
    validate_effect_kind, Charged, EffectFacts, GateOk, GateQuestion, MandateRequest,
};
use crate::ingest::plan::{bare, no_changes, opt_view, Changes, Entry, Plan, Recorded, Written};
use crate::ingest::records::{
    attested, collect_payloads, decided, granted, kept_payloads, revoked, validate_checkpoint,
    validate_gate_decision, validate_mandate_grant, validate_revocation, CheckpointFacts,
    DecisionFacts, GrantFacts, RevocationFacts,
};
use crate::ingest::IngestConfig;
use crate::json::{docs, is_text, named, one_of, stranger, unknown_member, Doc, Json};
use crate::keys::KeyId;
use crate::text::{
    debug_text, is_before, join2, join3, join4, join5, precedes, quoted, same, text_or_empty,
};
use crate::vocabulary::{STREAM_KIND_EFFECT, STREAM_KIND_SIGNAL};

verus! {

/// The kinds of envelope that carry authority, and with it a mandate.
pub const EFFECT_KINDS: [&'static str; 3] = ["effect", "policy-change", "aggregate"];

/// The members of a submission.
pub const SUBMISSION_MEMBERS: [&'static str; 2] = ["envelope", "payloads"];

// -- opening ----------------------------------------------------------------------------------

/// An envelope and the payloads submitted with it.
#[derive(Debug)]
pub struct Opened {
    /// The envelope.
    pub envelope: Json,
    /// The payloads.
    pub payloads: Vec<Json>,
}

/// The envelope of a submission and the payloads beside it.
pub open spec fn opened(request: Doc) -> Result<(Doc, Seq<Doc>), Fault> {
    let payloads = request.get("payloads"@);
    if request.as_record() is None {
        Err(fault("schema-type-mismatch"@, "an ingest request must be an object"@))
    } else if let Some(key) = stranger(request->Record_0, SUBMISSION_MEMBERS@, 0) {
        Err(fault("schema-unknown-member"@, key))
    } else if request.get("envelope"@) is None {
        Err(fault("schema-missing-member"@, "envelope"@))
    } else if payloads is Some && payloads->0.as_list() is None {
        Err(fault("schema-type-mismatch"@, "payloads must be an array"@))
    } else {
        Ok(
            (
                request.at("envelope"@),
                match payloads {
                    Some(list) => list.items(),
                    None => Seq::empty(),
                },
            ),
        )
    }
}

fn copies(items: &Vec<Json>) -> (r: Vec<Json>)
    ensures
        docs(r@) == docs(items@),
{
    let mut out: Vec<Json> = Vec::new();
    let mut i: usize = 0;
    while i < items.len()
        invariant
            i <= items@.len(),
            out@.len() == i,
            forall|j: int| 0 <= j < i ==> (#[trigger] out@[j])@ == items@[j]@,
        decreases items@.len() - i,
    {
        out.push(items[i].copy());
        i += 1;
    }
    assert(docs(out@) =~= docs(items@));
    out
}

/// Takes a submission apart.
pub fn open_request(request: &Json) -> (r: Result<Opened, Error>)
    ensures
        match opened(request@) {
            Ok((env, payloads)) => r matches Ok(v) && v.envelope@ == env && docs(v.payloads@)
                == payloads,
            Err(f) => r matches Err(e) && e@ == f,
        },
{
    let members = match request.as_record() {
        Some(members) => members,
        None => {
            return Err(refusal("schema-type-mismatch", "an ingest request must be an object"));
        },
    };
    if let Some(key) = unknown_member(members, &SUBMISSION_MEMBERS) {
        return Err(Error::new("schema-unknown-member", key));
    }
    let envelope = match request.get("envelope") {
        Some(envelope) => envelope,
        None => {
            return Err(refusal("schema-missing-member", "envelope"));
        },
    };
    let payloads = match request.get("payloads") {
        None => {
            let none: Vec<Json> = Vec::new();
            assert(docs(none@) =~= Seq::empty());
            none
        },
        Some(value) => match value.as_list() {
            Some(list) => copies(list),
            None => {
                return Err(refusal("schema-type-mismatch", "payloads must be an array"));
            },
        },
    };
    Ok(Opened { envelope: envelope.copy(), payloads })
}

// -- admission --------------------------------------------------------------------------------

/// Where an envelope stands in the log.
#[derive(Debug)]
pub struct Position {
    /// Its stream.
    pub stream: String,
    /// Its place in the stream.
    pub seq: u64,
}

/// An envelope that is in the log.
#[derive(Debug)]
pub struct Appended {
    /// Its identifier.
    pub id: String,
    /// Its stream.
    pub stream: String,
    /// Its place in the stream.
    pub seq: u64,
    /// Whether it was there before.
    pub idempotent: bool,
}

/// An envelope that is in the log.
pub struct Placed {
    /// Its identifier.
    pub id: Seq<char>,
    /// Its stream.
    pub stream: Seq<char>,
    /// Its place in the stream.
    pub seq: u64,
    /// Whether it was there before.
    pub idempotent: bool,
}

impl View for Appended {
    type V = Placed;

    open spec fn view(&self) -> Placed {
        Placed {
            id: self.id@,
            stream: self.stream@,
            seq: self.seq,
            idempotent: self.idempotent,
        }
    }
}

impl Appended {
    /// The same again.
    pub fn copy(&self) -> (r: Appended)
        ensures
            r@ == self@,
    {
        Appended {
            id: self.id.clone(),
            stream: self.stream.clone(),
            seq: self.seq,
            idempotent: self.idempotent,
        }
    }
}

/// What is known of an envelope before its kind is judged.
#[derive(Debug)]
pub struct AdmissionFacts {
    /// What identifying it came to.
    pub id: Result<String, Error>,
    /// What bringing it into canonical form came to.
    pub canonical: Result<String, Error>,
    /// Where it stands in the log, if it does.
    pub existing: Result<Option<Position>, Error>,
    /// What verifying its signature came to: the key that signed it.
    pub signer: Result<KeyId, Error>,
    /// What holding it against the schema came to.
    pub schema: Result<(), Error>,
    /// What binding the payloads to it came to.
    pub bound: Result<(), Error>,
    /// Whether a policy is in force.
    pub policy: Result<bool, Error>,
    /// The roots enrolled when it was emitted.
    pub roots: Result<Vec<Root>, Error>,
}

/// What admission comes to: the place of an envelope that is in the log already, or a refusal, or
/// nothing yet. Only what is not there already is verified: to submit it again is to ask again.
pub open spec fn admission(
    env: Doc,
    received_at: Seq<char>,
    skew: int,
    facts: AdmissionFacts,
) -> Result<Option<Placed>, Fault> {
    let emitted_at = said(env, "emitted-at"@);
    let horizon = shifted(received_at, skew);
    if let Err(e) = facts.id {
        Err(e@)
    } else if let Err(e) = facts.canonical {
        Err(e@)
    } else if let Err(e) = facts.existing {
        Err(e@)
    } else if let Some(p) = facts.existing->Ok_0 {
        Ok(
            Some(
                Placed {
                    id: facts.id->Ok_0@,
                    stream: p.stream@,
                    seq: p.seq,
                    idempotent: true,
                },
            ),
        )
    } else if let Err(e) = facts.signer {
        Err(e@)
    } else if let Err(e) = facts.schema {
        Err(e@)
    } else if let Err(f) = horizon {
        Err(f)
    } else if precedes(horizon->Ok_0, emitted_at) {
        Err(
            fault(
                "envelope-emitted-in-future"@,
                "emitted-at "@ + emitted_at + " is beyond the accepted horizon "@ + horizon->Ok_0,
            ),
        )
    } else if let Err(e) = facts.bound {
        Err(e@)
    } else if let Err(e) = facts.policy {
        Err(e@)
    } else if let Err(e) = facts.roots {
        Err(e@)
    } else {
        Ok(None)
    }
}

/// Admits an envelope, or finds it in the log already.
pub fn check_admission(env: &Json, received_at: &str, skew: i64, facts: &AdmissionFacts) -> (r: Result<
    Option<Appended>,
    Error,
>)
    ensures
        match admission(env@, received_at@, skew as int, *facts) {
            Ok(p) => r matches Ok(v) && opt_view(v) == p,
            Err(f) => r matches Err(e) && e@ == f,
        },
{
    let id = match &facts.id {
        Ok(id) => id,
        Err(e) => {
            return Err(e.copy());
        },
    };
    if let Err(e) = &facts.canonical {
        return Err(e.copy());
    }
    match &facts.existing {
        Err(e) => {
            return Err(e.copy());
        },
        Ok(Some(p)) => {
            return Ok(
                Some(
                    Appended {
                        id: id.clone(),
                        stream: p.stream.clone(),
                        seq: p.seq,
                        idempotent: true,
                    },
                ),
            );
        },
        Ok(None) => {},
    }
    if let Err(e) = &facts.signer {
        return Err(e.copy());
    }
    if let Err(e) = &facts.schema {
        return Err(e.copy());
    }
    let emitted_at = text_or_empty(env.text_at("emitted-at"));
    let horizon = shift(received_at, skew)?;
    if is_before(horizon.as_str(), emitted_at) {
        return Err(
            Error::new(
                "envelope-emitted-in-future",
                join4(
                    "emitted-at ",
                    emitted_at,
                    " is beyond the accepted horizon ",
                    horizon.as_str(),
                ),
            ),
        );
    }
    if let Err(e) = &facts.bound {
        return Err(e.copy());
    }
    if let Err(e) = &facts.policy {
        return Err(e.copy());
    }
    if let Err(e) = &facts.roots {
        return Err(e.copy());
    }
    Ok(None)
}

// -- the ceremony -----------------------------------------------------------------------------

/// How deep the mandate that the first policy is published under may be delegated.
pub const CEREMONY_DEPTH: u32 = 3;

/// What the mandate that the first policy is published under must cover: the envelope as it stands,
/// at the class it declares.
pub fn genesis_request(env: &Json) -> (r: MandateRequest)
    ensures
        r.component@ == said(env@.at("identity"@), "component"@),
        r.action@ == said(env@.at("execution"@), "action"@),
        r.classification@ == said(env@, "classification"@),
        r.resource@ == said(env@.at("execution"@), "target"@),
{
    MandateRequest {
        component: text_or_empty(env.at("identity").text_at("component")).to_owned(),
        action: text_or_empty(env.at("execution").text_at("action")).to_owned(),
        classification: text_or_empty(env.text_at("classification")).to_owned(),
        resource: text_or_empty(env.at("execution").text_at("target")).to_owned(),
    }
}

/// What approval the first policy needs: that of an enrolled root, always.
pub fn genesis_question(roots: &Vec<Root>) -> (r: GateQuestion)
    ensures
        r.requires_gate,
        permitted(r.approvers@) == all_roots(roots@),
{
    GateQuestion { requires_gate: true, approvers: root_approvers(roots) }
}

/// What is known of an envelope that arrives before any policy is in force.
#[derive(Debug)]
pub struct GenesisFacts {
    /// What verifying the mandate as a grant of the enrolled roots came to.
    pub granted: Result<(), Error>,
    /// What identifying the mandate came to.
    pub mandate_id: Result<String, Error>,
    /// What is known of the first policy.
    pub policy: IncomingPolicy,
    /// What resolving the cited mandate, its ancestors and their revocations came to.
    pub ancestry: Result<(), Error>,
    /// What verifying the mandate chain came to: the human it reaches.
    pub chain: Result<String, Error>,
    /// What verifying the authorization, as one the enrolled roots must give, came to.
    pub verdict: Result<Option<GateOk>, Error>,
}

/// The refusal of anything but the ceremony before a policy is in force.
pub open spec fn not_the_ceremony(core: Seq<char>) -> Fault {
    fault(
        "policy-not-published"@,
        "no policy version is in force; before one exists this kernel accepts only an interactive root mandate at ("@
            + core + ", 0) and the first policy change at ("@ + core + ", 1)"@,
    )
}

/// What the first envelope of the ceremony will write: a root grants an interactive mandate.
pub open spec fn first_mandate(env: Doc, core: Seq<char>, facts: GenesisFacts) -> Result<
    Written,
    Fault,
> {
    let mandate = env.at("mandate"@);
    if env.get("mandate"@) is None {
        Err(fault("schema-missing-member"@, "mandate"@))
    } else if mandate.text_at("mandate-kind"@) != Some("interactive"@) {
        Err(not_the_ceremony(core))
    } else if let Err(e) = facts.granted {
        Err(e@)
    } else if let Err(e) = facts.mandate_id {
        Err(e@)
    } else {
        Ok(
            Written {
                projections: Changes {
                    mandate: Some(Entry { id: facts.mandate_id->Ok_0@, object: mandate }),
                    ..no_changes()
                },
                ..bare()
            },
        )
    }
}

/// What the second envelope of the ceremony will write: the first policy, approved by a root.
pub open spec fn first_policy(env: Doc, payloads: Seq<Doc>, facts: GenesisFacts) -> Result<
    Written,
    Fault,
> {
    let class = said(env, "classification"@);
    let policy = install(env, payloads, facts.policy);
    if class != "consequential"@ {
        Err(
            fault(
                "policy-component-override-attempt"@,
                "a policy change is consequential, not "@ + class,
            ),
        )
    } else if let Err(f) = policy {
        Err(f)
    } else if env.text_at("mandate-ref"@) is None {
        Err(fault("schema-missing-member"@, "mandate-ref"@))
    } else if let Err(e) = facts.ancestry {
        Err(e@)
    } else if let Err(e) = facts.chain {
        Err(e@)
    } else if env.get("authorization"@) is None {
        Err(
            unapproved(
                facts.verdict,
                "the first policy must carry a root's approval signature"@,
            ),
        )
    } else {
        match facts.verdict {
            Err(e) => Err(e@),
            Ok(None) => Err(
                fault(
                    "gate-authorization-missing"@,
                    "the first policy must carry a root's approval signature"@,
                ),
            ),
            Ok(Some(ok)) => Ok(
                Written {
                    human_root: Some(facts.chain->Ok_0@),
                    effective_class: Some(class),
                    gate_use: Some(used(env, ok)),
                    projections: Changes { policy: Some(policy->Ok_0), ..no_changes() },
                    ..bare()
                },
            ),
        }
    }
}

/// What an envelope that arrives before any policy is in force will write: the ceremony, at its
/// two positions of the core stream, and nothing else.
pub open spec fn ceremony(
    env: Doc,
    payloads: Seq<Doc>,
    core: Seq<char>,
    facts: GenesisFacts,
) -> Result<Written, Fault> {
    let kind = said(env, "kind"@);
    let seq = env.at("seq"@).as_u64();
    if env.text_at("stream"@) != Some(core) {
        Err(not_the_ceremony(core))
    } else if kind == "mandate"@ && seq == Some(0int) {
        first_mandate(env, core, facts)
    } else if kind == "policy-change"@ && seq == Some(1int) {
        first_policy(env, payloads, facts)
    } else {
        Err(not_the_ceremony(core))
    }
}

fn refuse_ceremony(core: &str) -> (r: Error)
    ensures
        r@ == not_the_ceremony(core@),
{
    Error::new(
        "policy-not-published",
        join5(
            "no policy version is in force; before one exists this kernel accepts only an interactive root mandate at (",
            core,
            ", 0) and the first policy change at (",
            core,
            ", 1)",
        ),
    )
}

fn check_first_mandate(env: &Json, core: &str, facts: &GenesisFacts) -> (r: Result<Plan, Error>)
    ensures
        match first_mandate(env@, core@, *facts) {
            Ok(w) => r matches Ok(v) && v@ == w,
            Err(f) => r matches Err(e) && e@ == f,
        },
{
    let mandate = match env.get("mandate") {
        Some(mandate) => mandate,
        None => {
            return Err(refusal("schema-missing-member", "mandate"));
        },
    };
    if !is_text(mandate.at("mandate-kind"), "interactive") {
        return Err(refuse_ceremony(core));
    }
    if let Err(e) = &facts.granted {
        return Err(e.copy());
    }
    match &facts.mandate_id {
        Err(e) => Err(e.copy()),
        Ok(id) => {
            let mut plan = Plan::bare();
            plan.projections.mandate = Some(
                Recorded { id: id.clone(), object: mandate.copy() },
            );
            Ok(plan)
        },
    }
}

fn check_first_policy(env: &Json, payloads: &Vec<Json>, facts: &GenesisFacts) -> (r: Result<
    Plan,
    Error,
>)
    ensures
        match first_policy(env@, docs(payloads@), *facts) {
            Ok(w) => r matches Ok(v) && v@ == w,
            Err(f) => r matches Err(e) && e@ == f,
        },
{
    let class = text_or_empty(env.text_at("classification"));
    if !same(class, "consequential") {
        return Err(
            Error::new(
                "policy-component-override-attempt",
                join2("a policy change is consequential, not ", class),
            ),
        );
    }
    let policy = validate_policy_change(env, payloads, &facts.policy)?;
    if env.text_at("mandate-ref").is_none() {
        return Err(refusal("schema-missing-member", "mandate-ref"));
    }
    if let Err(e) = &facts.ancestry {
        return Err(e.copy());
    }
    let human = match &facts.chain {
        Ok(human) => human,
        Err(e) => {
            return Err(e.copy());
        },
    };
    if env.get("authorization").is_none() {
        return Err(
            refuse_unapproved(
                &facts.verdict,
                "the first policy must carry a root's approval signature",
            ),
        );
    }
    match &facts.verdict {
        Err(e) => Err(e.copy()),
        Ok(None) => Err(
            refusal(
                "gate-authorization-missing",
                "the first policy must carry a root's approval signature",
            ),
        ),
        Ok(Some(ok)) => {
            let mut plan = Plan::bare();
            plan.human_root = Some(human.clone());
            plan.effective_class = Some(class.to_owned());
            plan.gate_use = Some(use_of(env, ok));
            plan.projections.policy = Some(policy);
            Ok(plan)
        },
    }
}

/// Validates an envelope that arrives before any policy is in force.
pub fn validate_genesis(
    env: &Json,
    payloads: &Vec<Json>,
    core: &str,
    facts: &GenesisFacts,
) -> (r: Result<Plan, Error>)
    ensures
        match ceremony(env@, docs(payloads@), core@, *facts) {
            Ok(w) => r matches Ok(v) && v@ == w,
            Err(f) => r matches Err(e) && e@ == f,
        },
{
    if !is_text(env.at("stream"), core) {
        return Err(refuse_ceremony(core));
    }
    let kind = text_or_empty(env.text_at("kind"));
    let seq: Option<u64> = env.at("seq").as_u64();
    match seq {
        Some(n) => {
            if same(kind, "mandate") && n == 0 {
                return check_first_mandate(env, core, facts);
            }
            if same(kind, "policy-change") && n == 1 {
                return check_first_policy(env, payloads, facts);
            }
            Err(refuse_ceremony(core))
        },
        None => Err(refuse_ceremony(core)),
    }
}

// -- cognition --------------------------------------------------------------------------------

/// What is known of a cognition envelope.
#[derive(Debug)]
pub struct CognitionFacts {
    /// What resolving the cited mandate, its ancestors and their revocations came to.
    pub ancestry: Result<(), Error>,
    /// What verifying the mandate chain for the resource came to: the human it reaches.
    pub chain: Result<String, Error>,
    /// The citing mandate and every ancestor of it.
    pub line: Result<Vec<Charged>, Error>,
}

/// The resource a cognition envelope spends on, spelled as targets are.
pub open spec fn cognised(env: Doc) -> Result<Seq<char>, Fault> {
    let kind = env.at("resource"@).text_at("kind"@);
    let name = env.at("resource"@).text_at("name"@);
    if kind is None || name is None {
        Err(
            fault(
                "schema-missing-member"@,
                "resource.kind and resource.name are required to check scope"@,
            ),
        )
    } else {
        Ok(kind->0 + ":"@ + name->0)
    }
}

/// The resource a cognition envelope spends on.
pub fn cognition_resource(env: &Json) -> (r: Result<String, Error>)
    ensures
        crate::error::is_text_result(r, cognised(env@)),
{
    match (env.at("resource").text_at("kind"), env.at("resource").text_at("name")) {
        (Some(kind), Some(name)) => Ok(join3(kind, ":", name)),
        _ => Err(
            refusal(
                "schema-missing-member",
                "resource.kind and resource.name are required to check scope",
            ),
        ),
    }
}

/// What a cognition envelope will write: its mandate covers the resource, and its cost is charged.
pub open spec fn cognition_written(env: Doc, facts: CognitionFacts) -> Result<Written, Fault> {
    if let Err(f) = cognised(env) {
        Err(f)
    } else if env.text_at("mandate-ref"@) is None {
        Err(fault("schema-missing-member"@, "mandate-ref"@))
    } else if let Err(e) = facts.ancestry {
        Err(e@)
    } else if let Err(e) = facts.chain {
        Err(e@)
    } else {
        match charge(env, facts.line) {
            Err(f) => Err(f),
            Ok((over, spend)) => Ok(
                Written {
                    human_root: Some(facts.chain->Ok_0@),
                    policy_violation: if over {
                        Some(BUDGET_EXCEEDED_APPLIED@)
                    } else {
                        None
                    },
                    spend,
                    ..bare()
                },
            ),
        }
    }
}

/// Validates a cognition envelope.
pub fn validate_cognition(env: &Json, facts: &CognitionFacts) -> (r: Result<Plan, Error>)
    ensures
        match cognition_written(env@, *facts) {
            Ok(w) => r matches Ok(v) && v@ == w,
            Err(f) => r matches Err(e) && e@ == f,
        },
{
    let _resource = cognition_resource(env)?;
    if env.text_at("mandate-ref").is_none() {
        return Err(refusal("schema-missing-member", "mandate-ref"));
    }
    if let Err(e) = &facts.ancestry {
        return Err(e.copy());
    }
    let human = match &facts.chain {
        Ok(human) => human,
        Err(e) => {
            return Err(e.copy());
        },
    };
    let (over, spend) = accrue_budget(env, &facts.line)?;
    let mut plan = Plan::bare();
    plan.human_root = Some(human.clone());
    if over {
        plan.policy_violation = Some(BUDGET_EXCEEDED_APPLIED.to_owned());
    }
    plan.spend = spend;
    Ok(plan)
}

// -- by kind ----------------------------------------------------------------------------------

/// How an envelope is judged.
#[derive(Debug, Clone, Copy, PartialEq, Eq, Structural)]
pub enum Route {
    /// As part of the ceremony: no policy is in force.
    Genesis,
    /// As an effect.
    Effect,
    /// As cognition.
    Cognition,
    /// As something received from outside.
    Signal,
    /// As a grant.
    Grant,
    /// As a revocation.
    Revocation,
    /// As a decision.
    Decision,
    /// As a checkpoint.
    Checkpoint,
    /// Not at all: its kind has no rule.
    Unknown,
}

/// How an envelope is judged, by its kind, once a policy is in force.
pub open spec fn route_of(env: Doc, policy: bool) -> Route {
    let kind = said(env, "kind"@);
    if !policy {
        Route::Genesis
    } else if named(EFFECT_KINDS@, kind) {
        Route::Effect
    } else if kind == "cognition"@ {
        Route::Cognition
    } else if kind == "signal"@ {
        Route::Signal
    } else if kind == "mandate"@ {
        Route::Grant
    } else if kind == "revocation"@ {
        Route::Revocation
    } else if kind == "gate-decision"@ {
        Route::Decision
    } else if kind == "checkpoint"@ {
        Route::Checkpoint
    } else {
        Route::Unknown
    }
}

/// How an envelope is judged.
pub fn route(env: &Json, policy: bool) -> (r: Route)
    ensures
        r == route_of(env@, policy),
{
    let kind = text_or_empty(env.text_at("kind"));
    if !policy {
        Route::Genesis
    } else if one_of(kind, &EFFECT_KINDS) {
        Route::Effect
    } else if same(kind, "cognition") {
        Route::Cognition
    } else if same(kind, "signal") {
        Route::Signal
    } else if same(kind, "mandate") {
        Route::Grant
    } else if same(kind, "revocation") {
        Route::Revocation
    } else if same(kind, "gate-decision") {
        Route::Decision
    } else if same(kind, "checkpoint") {
        Route::Checkpoint
    } else {
        Route::Unknown
    }
}

/// What is known of an envelope, as its route asks.
#[derive(Debug)]
pub enum KindFacts {
    /// As part of the ceremony.
    Genesis(GenesisFacts),
    /// As an effect.
    Effect(EffectFacts),
    /// As cognition.
    Cognition(CognitionFacts),
    /// As something received from outside: the canonical form of each payload.
    Signal(Vec<Result<String, Error>>),
    /// As a grant.
    Grant(GrantFacts),
    /// As a revocation.
    Revocation(RevocationFacts),
    /// As a decision.
    Decision(DecisionFacts),
    /// As a checkpoint.
    Checkpoint(CheckpointFacts),
    /// Nothing.
    Unknown,
}

/// Whether what is known of an envelope is what its route asks, and complete.
pub open spec fn answers(
    env: Doc,
    payloads: Seq<Doc>,
    policy: bool,
    facts: KindFacts,
) -> bool {
    match route_of(env, policy) {
        Route::Genesis => facts is Genesis,
        Route::Effect => facts matches KindFacts::Effect(f) && gathered(env, payloads, f),
        Route::Cognition => facts is Cognition,
        Route::Signal => facts matches KindFacts::Signal(canonical) && canonical@.len()
            == payloads.len(),
        Route::Grant => facts is Grant,
        Route::Revocation => facts is Revocation,
        Route::Decision => facts matches KindFacts::Decision(f) && f.rule.is_complete(),
        Route::Checkpoint => facts is Checkpoint,
        Route::Unknown => true,
    }
}

/// The keys and the stream that judging an envelope depends on.
pub struct Setting {
    /// The roots enrolled when it was emitted.
    pub roots: Seq<Root>,
    /// The key that signed it.
    pub signer: Seq<char>,
    /// The kernel's own key.
    pub kernel_key: Seq<char>,
    /// The kernel's own stream.
    pub core: Seq<char>,
}

/// What an envelope will write, by its route.
pub open spec fn written_by_kind(
    env: Doc,
    payloads: Seq<Doc>,
    policy: bool,
    at: Setting,
    facts: KindFacts,
) -> Result<Written, Fault> {
    match route_of(env, policy) {
        Route::Genesis => ceremony(env, payloads, at.core, facts->Genesis_0),
        Route::Effect => effect_written(env, payloads, at.roots, at.signer, facts->Effect_0),
        Route::Cognition => cognition_written(env, facts->Cognition_0),
        Route::Signal => match kept_payloads(env, payloads, facts->Signal_0@, None) {
            Ok(rows) => Ok(Written { payloads: rows, ..bare() }),
            Err(f) => Err(f),
        },
        Route::Grant => match granted(env, facts->Grant_0) {
            Ok(entry) => Ok(
                Written {
                    projections: Changes { mandate: Some(entry), ..no_changes() },
                    ..bare()
                },
            ),
            Err(f) => Err(f),
        },
        Route::Revocation => match revoked(env, facts->Revocation_0) {
            Ok(entry) => Ok(
                Written {
                    projections: Changes { revocation: Some(entry), ..no_changes() },
                    ..bare()
                },
            ),
            Err(f) => Err(f),
        },
        Route::Decision => match decided(
            env,
            said(env, "emitted-at"@),
            at.roots,
            facts->Decision_0,
        ) {
            Ok(answer) => Ok(
                Written {
                    projections: Changes { gate_decision: answer, ..no_changes() },
                    ..bare()
                },
            ),
            Err(f) => Err(f),
        },
        Route::Checkpoint => match attested(env, at.kernel_key, facts->Checkpoint_0) {
            Ok(row) => Ok(
                Written {
                    projections: Changes { checkpoint: Some(row), ..no_changes() },
                    ..bare()
                },
            ),
            Err(f) => Err(f),
        },
        Route::Unknown => Err(
            fault(
                "envelope-unknown-kind"@,
                "kind "@ + quoted(said(env, "kind"@)) + " has no ingest rule"@,
            ),
        ),
    }
}

/// What an envelope will write: as its route judges it, and with no authorization where its kind
/// takes none.
pub open spec fn written(
    env: Doc,
    payloads: Seq<Doc>,
    policy: bool,
    at: Setting,
    facts: KindFacts,
) -> Result<Written, Fault> {
    let route = route_of(env, policy);
    match written_by_kind(env, payloads, policy, at, facts) {
        Err(f) => Err(f),
        Ok(w) => if route != Route::Genesis && route != Route::Effect && env.get(
            "authorization"@,
        ) is Some {
            Err(
                fault(
                    "schema-unknown-member"@,
                    "a "@ + said(env, "kind"@) + " envelope must not carry authorization"@,
                ),
            )
        } else {
            Ok(w)
        },
    }
}

fn judge_kind(
    env: &Json,
    payloads: &Vec<Json>,
    policy: bool,
    roots: &Vec<Root>,
    signer: &KeyId,
    kernel_key: &KeyId,
    core: &str,
    facts: &KindFacts,
) -> (r: Result<Plan, Error>)
    requires
        answers(env@, docs(payloads@), policy, *facts),
    ensures
        match written_by_kind(
            env@,
            docs(payloads@),
            policy,
            (Setting {
                roots: roots@,
                signer: signer@,
                kernel_key: kernel_key@,
                core: core@,
            }),
            *facts,
        ) {
            Ok(w) => r matches Ok(v) && v@ == w,
            Err(f) => r matches Err(e) && e@ == f,
        },
{
    let mut plan = Plan::bare();
    match route(env, policy) {
        Route::Genesis => {
            if let KindFacts::Genesis(f) = facts {
                return validate_genesis(env, payloads, core, f);
            }
        },
        Route::Effect => {
            if let KindFacts::Effect(f) = facts {
                return validate_effect_kind(env, payloads, roots, signer, f);
            }
        },
        Route::Cognition => {
            if let KindFacts::Cognition(f) = facts {
                return validate_cognition(env, f);
            }
        },
        Route::Signal => {
            if let KindFacts::Signal(canonical) = facts {
                plan.payloads = collect_payloads(env, payloads, canonical, None)?;
            }
        },
        Route::Grant => {
            if let KindFacts::Grant(f) = facts {
                plan.projections.mandate = Some(validate_mandate_grant(env, f)?);
            }
        },
        Route::Revocation => {
            if let KindFacts::Revocation(f) = facts {
                plan.projections.revocation = Some(validate_revocation(env, f)?);
            }
        },
        Route::Decision => {
            if let KindFacts::Decision(f) = facts {
                let at = text_or_empty(env.text_at("emitted-at"));
                plan.projections.gate_decision = validate_gate_decision(env, at, roots, f)?;
            }
        },
        Route::Checkpoint => {
            if let KindFacts::Checkpoint(f) = facts {
                plan.projections.checkpoint = Some(validate_checkpoint(env, kernel_key, f)?);
            }
        },
        Route::Unknown => {
            let kind = text_or_empty(env.text_at("kind"));
            return Err(
                Error::new(
                    "envelope-unknown-kind",
                    join3("kind ", debug_text(kind).as_str(), " has no ingest rule"),
                ),
            );
        },
    }
    Ok(plan)
}

/// Judges an envelope by its route, and refuses an authorization where its kind takes none.
pub fn validate_kind(
    env: &Json,
    payloads: &Vec<Json>,
    policy: bool,
    roots: &Vec<Root>,
    signer: &KeyId,
    kernel_key: &KeyId,
    core: &str,
    facts: &KindFacts,
) -> (r: Result<Plan, Error>)
    requires
        answers(env@, docs(payloads@), policy, *facts),
    ensures
        match written(
            env@,
            docs(payloads@),
            policy,
            (Setting {
                roots: roots@,
                signer: signer@,
                kernel_key: kernel_key@,
                core: core@,
            }),
            *facts,
        ) {
            Ok(w) => r matches Ok(v) && v@ == w,
            Err(f) => r matches Err(e) && e@ == f,
        },
{
    let plan = judge_kind(env, payloads, policy, roots, signer, kernel_key, core, facts)?;
    let way = route(env, policy);
    if way != Route::Genesis && way != Route::Effect && env.get("authorization").is_some() {
        let kind = text_or_empty(env.text_at("kind"));
        return Err(
            Error::new(
                "schema-unknown-member",
                join3("a ", kind, " envelope must not carry authorization"),
            ),
        );
    }
    Ok(plan)
}

// -- the whole --------------------------------------------------------------------------------

/// What an accepted envelope appends.
#[derive(Debug)]
pub struct AppendPlan {
    /// The envelope.
    pub envelope: Json,
    /// Its identifier.
    pub id: String,
    /// Its canonical form.
    pub canonical_json: String,
    /// The kind of the stream it belongs to.
    pub stream_kind: String,
    /// When it was received.
    pub received_at: String,
    /// What it writes beside the chain.
    pub plan: Plan,
}

/// What an accepted envelope appends.
pub struct Appending {
    /// The envelope.
    pub envelope: Doc,
    /// Its identifier.
    pub id: Seq<char>,
    /// Its canonical form.
    pub canonical_json: Seq<char>,
    /// The kind of the stream it belongs to.
    pub stream_kind: Seq<char>,
    /// When it was received.
    pub received_at: Seq<char>,
    /// What it writes beside the chain.
    pub plan: Written,
}

impl View for AppendPlan {
    type V = Appending;

    open spec fn view(&self) -> Appending {
        Appending {
            envelope: self.envelope@,
            id: self.id@,
            canonical_json: self.canonical_json@,
            stream_kind: self.stream_kind@,
            received_at: self.received_at@,
            plan: self.plan@,
        }
    }
}

/// What validating a submission came to.
#[derive(Debug)]
pub enum Validated {
    /// The envelope is in the log already.
    Idempotent(Appended),
    /// The envelope may be appended.
    Fresh(Box<AppendPlan>),
}

/// What validating a submission comes to.
pub enum Validity {
    /// The envelope is in the log already.
    Known(Placed),
    /// The envelope may be appended.
    New(Appending),
}

impl View for Validated {
    type V = Validity;

    open spec fn view(&self) -> Validity {
        match *self {
            Validated::Idempotent(a) => Validity::Known(a@),
            Validated::Fresh(p) => Validity::New((*p)@),
        }
    }
}

/// What validating an envelope comes to: it is admitted, its kind is judged, and what it appends
/// is drawn up.
pub open spec fn validity(
    env: Doc,
    payloads: Seq<Doc>,
    received_at: Seq<char>,
    config: IngestConfig,
    kernel_key: Seq<char>,
    facts: AdmissionFacts,
    kind: KindFacts,
) -> Result<Validity, Fault> {
    match admission(env, received_at, config.max_future_skew_seconds as int, facts) {
        Err(f) => Err(f),
        Ok(Some(placed)) => Ok(Validity::Known(placed)),
        Ok(None) => match written(
            env,
            payloads,
            facts.policy->Ok_0,
            Setting {
                roots: facts.roots->Ok_0@,
                signer: facts.signer->Ok_0@,
                kernel_key,
                core: config.kernel_core_stream@,
            },
            kind,
        ) {
            Err(f) => Err(f),
            Ok(plan) => Ok(
                Validity::New(
                    Appending {
                        envelope: env,
                        id: facts.id->Ok_0@,
                        canonical_json: facts.canonical->Ok_0@,
                        stream_kind: if said(env, "kind"@) == "signal"@ {
                            STREAM_KIND_SIGNAL@
                        } else {
                            STREAM_KIND_EFFECT@
                        },
                        received_at,
                        plan,
                    },
                ),
            ),
        },
    }
}

/// Validates an envelope.
pub fn validate(
    env: &Json,
    payloads: &Vec<Json>,
    received_at: &str,
    config: &IngestConfig,
    kernel_key: &KeyId,
    facts: &AdmissionFacts,
    kind: &KindFacts,
) -> (r: Result<Validated, Error>)
    requires
        facts.policy matches Ok(policy) ==> answers(env@, docs(payloads@), policy, *kind),
    ensures
        match validity(
            env@,
            docs(payloads@),
            received_at@,
            *config,
            kernel_key@,
            *facts,
            *kind,
        ) {
            Ok(v) => r matches Ok(w) && w@ == v,
            Err(f) => r matches Err(e) && e@ == f,
        },
{
    if let Some(placed) = check_admission(
        env,
        received_at,
        config.max_future_skew_seconds,
        facts,
    )? {
        return Ok(Validated::Idempotent(placed));
    }
    match (&facts.id, &facts.canonical, &facts.signer, &facts.policy, &facts.roots) {
        (Ok(id), Ok(canonical), Ok(signer), Ok(policy), Ok(roots)) => {
            let plan = validate_kind(
                env,
                payloads,
                *policy,
                roots,
                signer,
                kernel_key,
                config.kernel_core_stream.as_str(),
                kind,
            )?;
            let stream_kind = if same(text_or_empty(env.text_at("kind")), "signal") {
                STREAM_KIND_SIGNAL
            } else {
                STREAM_KIND_EFFECT
            };
            Ok(
                Validated::Fresh(
                    Box::new(
                        AppendPlan {
                            envelope: env.copy(),
                            id: id.clone(),
                            canonical_json: canonical.clone(),
                            stream_kind: stream_kind.to_owned(),
                            received_at: received_at.to_owned(),
                            plan,
                        },
                    ),
                ),
            )
        },
        _ => {
            assert(false);
            Err(refusal("schema-missing-member", "envelope"))
        },
    }
}

// -- laws -------------------------------------------------------------------------------------

/// To submit again what is in the log already succeeds, whatever would be said of it now.
pub proof fn lemma_submitting_again_succeeds(
    env: Doc,
    received_at: Seq<char>,
    skew: int,
    facts: AdmissionFacts,
    p: Position,
)
    requires
        facts.id is Ok,
        facts.canonical is Ok,
        facts.existing == Ok::<Option<Position>, Error>(Some(p)),
    ensures
        admission(env, received_at, skew, facts) matches Ok(Some(placed)) && placed.id
            == facts.id->Ok_0@ && placed.stream == p.stream@ && placed.seq == p.seq
            && placed.idempotent,
{
}

/// Nothing new is appended without a signature that was verified and a schema that holds.
pub proof fn lemma_nothing_unsigned_is_appended(
    env: Doc,
    payloads: Seq<Doc>,
    received_at: Seq<char>,
    config: IngestConfig,
    kernel_key: Seq<char>,
    facts: AdmissionFacts,
    kind: KindFacts,
)
    requires
        validity(env, payloads, received_at, config, kernel_key, facts, kind) matches Ok(
            Validity::New(_),
        ),
    ensures
        facts.signer is Ok,
        facts.schema is Ok,
        facts.bound is Ok,
        shifted(received_at, config.max_future_skew_seconds as int) matches Ok(horizon)
            && !precedes(horizon, said(env, "emitted-at"@)),
{
}

/// An unsigned object probes nothing: where the signature does not verify, what a new envelope is
/// answered depends on neither its schema, nor its payloads, nor the policy, nor the roots.
pub proof fn lemma_unsigned_objects_probe_nothing(
    env: Doc,
    received_at: Seq<char>,
    skew: int,
    facts: AdmissionFacts,
    others: AdmissionFacts,
)
    requires
        facts.signer is Err,
        facts.id == others.id,
        facts.canonical == others.canonical,
        facts.existing == others.existing,
        facts.signer == others.signer,
    ensures
        admission(env, received_at, skew, facts) == admission(env, received_at, skew, others),
{
}

/// Before a policy is in force only the ceremony is accepted: an interactive mandate at the first
/// position of the core stream, or a policy change at the second that a root's approval carries.
pub proof fn lemma_only_the_ceremony_precedes_policy(
    env: Doc,
    payloads: Seq<Doc>,
    at: Setting,
    facts: KindFacts,
)
    requires
        written(env, payloads, false, at, facts) is Ok,
    ensures
        env.text_at("stream"@) == Some(at.core),
        ({
            let w = written(env, payloads, false, at, facts)->Ok_0;
            ||| said(env, "kind"@) == "mandate"@ && env.at("seq"@).as_u64() == Some(0int) && env.at(
                "mandate"@,
            ).text_at("mandate-kind"@) == Some("interactive"@) && w.gate_use is None
                && w.projections.policy is None
            ||| said(env, "kind"@) == "policy-change"@ && env.at("seq"@).as_u64() == Some(1int)
                && env.get("authorization"@) is Some && w.gate_use is Some
                && facts->Genesis_0.verdict matches Ok(Some(_))
        }),
{
}

/// No envelope carries an authorization that was not verified: where its kind takes none, it is
/// refused.
pub proof fn lemma_stray_authorizations_are_refused(
    env: Doc,
    payloads: Seq<Doc>,
    at: Setting,
    facts: KindFacts,
)
    requires
        env.get("authorization"@) is Some,
        !named(EFFECT_KINDS@, said(env, "kind"@)),
    ensures
        written(env, payloads, true, at, facts) is Err,
{
}

/// What is new is admitted exactly where everything that is asked of every submission holds: it is
/// identified and unknown, its signature and its schema verified, it was emitted no later than the
/// skew allows after it came in, it is bound to its payloads, and the policy and the roots are at
/// hand.
pub proof fn lemma_what_is_admitted(
    env: Doc,
    received_at: Seq<char>,
    skew: int,
    facts: AdmissionFacts,
)
    ensures
        admission(env, received_at, skew, facts) == Ok::<Option<Placed>, Fault>(None) <==> {
            &&& facts.id is Ok && facts.canonical is Ok
            &&& facts.existing == Ok::<Option<Position>, Error>(None)
            &&& facts.signer is Ok && facts.schema is Ok && facts.bound is Ok
            &&& facts.policy is Ok && facts.roots is Ok
            &&& shifted(received_at, skew) matches Ok(horizon) && !precedes(
                horizon,
                match env.at("emitted-at"@) {
                    Doc::Text(at) => at,
                    _ => Seq::empty(),
                },
            )
        },
        admission(env, received_at, skew, facts) matches Ok(Some(_)) ==> facts.existing matches Ok(
            Some(_),
        ),
{
}

/// Before a policy is in force everything is judged as the ceremony; from then on each kind has the
/// one rule of its name, and effects, changes of policy and aggregates share theirs.
pub proof fn lemma_every_kind_has_its_rule(env: Doc, kind: Seq<char>)
    requires
        env.at("kind"@) == Doc::Text(kind),
    ensures
        route_of(env, false) is Genesis,
        route_of(env, true) is Effect <==> kind == "effect"@ || kind == "policy-change"@ || kind
            == "aggregate"@,
        route_of(env, true) is Cognition <==> kind == "cognition"@,
        route_of(env, true) is Signal <==> kind == "signal"@,
        route_of(env, true) is Grant <==> kind == "mandate"@,
        route_of(env, true) is Revocation <==> kind == "revocation"@,
        route_of(env, true) is Decision <==> kind == "gate-decision"@,
        route_of(env, true) is Checkpoint <==> kind == "checkpoint"@,
        route_of(env, true) !is Genesis,
{
    let kinds = EFFECT_KINDS@;
    assert(kinds[0]@ == "effect"@);
    assert(kinds[1]@ == "policy-change"@);
    assert(kinds[2]@ == "aggregate"@);
    reveal_strlit("effect");
    reveal_strlit("policy-change");
    reveal_strlit("aggregate");
    reveal_strlit("cognition");
    reveal_strlit("signal");
    reveal_strlit("mandate");
    reveal_strlit("revocation");
    reveal_strlit("gate-decision");
    reveal_strlit("checkpoint");
    assert("effect"@[0] == 'e');
    assert("policy-change"@[0] == 'p');
    assert("aggregate"@[0] == 'a');
    assert("cognition"@[0] == 'c' && "cognition"@.len() == 9);
    assert("signal"@[0] == 's');
    assert("mandate"@[0] == 'm');
    assert("revocation"@[0] == 'r');
    assert("gate-decision"@[0] == 'g');
    assert("checkpoint"@[0] == 'c' && "checkpoint"@.len() == 10);
}

/// A submission is opened exactly where it is an object of nothing but an envelope and, where there
/// is one, a list of payloads; and what comes out is what went in.
pub proof fn lemma_what_is_opened(request: Doc)
    ensures
        opened(request) is Ok <==> {
            &&& request matches Doc::Record(members) && forall|i: int|
                0 <= i < members.len() ==> (#[trigger] members[i]).0 == "envelope"@ || members[i].0
                    == "payloads"@
            &&& request.get("envelope"@) is Some
            &&& request.get("payloads"@) matches Some(payloads) ==> payloads is List
        },
        opened(request) matches Ok((env, payloads)) ==> request.get("envelope"@) == Some(env)
            && match request.get("payloads"@) {
            Some(list) => list == Doc::List(payloads),
            None => payloads.len() == 0,
        },
{
    if let Doc::Record(members) = request {
        let names = SUBMISSION_MEMBERS@;
        assert(names[0]@ == "envelope"@);
        assert(names[1]@ == "payloads"@);
        crate::json::lemma_strangers_are_found(members, names, 0);
    }
}

/// The ceremony is two envelopes of the core stream: at its first place the interactive mandate
/// that was granted, and at its second the first policy, of class `consequential`, under a mandate
/// whose chain verified, carrying an approval that was verified.
pub proof fn lemma_what_the_ceremony_is(
    env: Doc,
    payloads: Seq<Doc>,
    core: Seq<char>,
    facts: GenesisFacts,
)
    ensures
        ceremony(env, payloads, core, facts) is Ok <==> env.at("stream"@) == Doc::Text(core) && {
            ||| {
                &&& env.at("kind"@) == Doc::Text("mandate"@) && env.at("seq"@) == Doc::Int(0)
                &&& env.at("mandate"@).at("mandate-kind"@) == Doc::Text("interactive"@)
                &&& facts.granted is Ok && facts.mandate_id is Ok
            }
            ||| {
                &&& env.at("kind"@) == Doc::Text("policy-change"@) && env.at("seq"@) == Doc::Int(1)
                &&& env.at("classification"@) == Doc::Text("consequential"@)
                &&& install(env, payloads, facts.policy) is Ok
                &&& env.at("mandate-ref"@) is Text
                &&& facts.ancestry is Ok && facts.chain is Ok
                &&& env.get("authorization"@) is Some
                &&& facts.verdict matches Ok(Some(_))
            }
        },
        ceremony(env, payloads, core, facts) matches Ok(w) ==> {
            let begun = env.at("seq"@) == Doc::Int(0);
            &&& w.projections.mandate is Some <==> begun
            &&& w.projections.policy is Some <==> !begun
            &&& w.gate_use is Some <==> !begun
            &&& begun ==> w.projections.mandate->0.object == env.at("mandate"@)
                && w.projections.mandate->0.id == facts.mandate_id->Ok_0@
            &&& !begun ==> w.human_root == Some(facts.chain->Ok_0@)
        },
{
    reveal_strlit("mandate");
    reveal_strlit("policy-change");
    reveal_strlit("consequential");
    assert("mandate"@.len() == 7);
    assert("policy-change"@.len() == 13);
    assert("consequential"@.len() == 13);
    if env.get("mandate"@) is None {
        assert(env.at("mandate"@) == Doc::Null);
        assert(env.at("mandate"@).at("mandate-kind"@) == Doc::Null);
    }
}

/// A report of cognition is accepted exactly where it names what it read, and its mandate chain and
/// its charge come to something; a budget without room is confessed and refuses nothing.
pub proof fn lemma_what_cognition_needs(env: Doc, facts: CognitionFacts)
    ensures
        cognition_written(env, facts) is Ok <==> {
            &&& env.at("resource"@).at("kind"@) is Text && env.at("resource"@).at("name"@) is Text
            &&& env.at("mandate-ref"@) is Text
            &&& facts.ancestry is Ok && facts.chain is Ok
            &&& charge(env, facts.line) is Ok
        },
        cognition_written(env, facts) matches Ok(w) ==> {
            &&& w.human_root == Some(facts.chain->Ok_0@)
            &&& w.spend == charge(env, facts.line)->Ok_0.1
            &&& w.policy_violation == if charge(env, facts.line)->Ok_0.0 {
                Some("x-budget-exceeded-applied"@)
            } else {
                None
            }
            &&& w.gate_use is None && w.payloads.len() == 0
        },
        cognised(env) matches Ok(resource) ==> resource == env.at("resource"@).at(
            "kind"@,
        )->Text_0 + ":"@ + env.at("resource"@).at("name"@)->Text_0,
{
}

/// Once a policy is in force only effects, changes of policy and aggregates carry an authorization;
/// with one, anything else is refused, and without one it comes to what its kind comes to.
pub proof fn lemma_who_may_carry_an_authorization(
    env: Doc,
    payloads: Seq<Doc>,
    at: Setting,
    facts: KindFacts,
)
    ensures
        ({
            let kind = env.at("kind"@);
            let theirs = kind == Doc::Text("effect"@) || kind == Doc::Text("policy-change"@) || kind
                == Doc::Text("aggregate"@);
            let judged = written_by_kind(env, payloads, true, at, facts);
            if !theirs && env.get("authorization"@) is Some {
                written(env, payloads, true, at, facts) is Err
            } else {
                written(env, payloads, true, at, facts) == judged
            }
        }),
        written(env, payloads, false, at, facts) == written_by_kind(
            env,
            payloads,
            false,
            at,
            facts,
        ),
{
    let kinds = EFFECT_KINDS@;
    assert(kinds[0]@ == "effect"@);
    assert(kinds[1]@ == "policy-change"@);
    assert(kinds[2]@ == "aggregate"@);
    reveal_strlit("effect");
    reveal_strlit("policy-change");
    reveal_strlit("aggregate");
    assert("effect"@.len() > 0 && "policy-change"@.len() > 0 && "aggregate"@.len() > 0);
}

/// What is appended is the envelope that came in, under the identifier and in the form that were
/// computed of it, at the time it came in; signals go to streams of signals and all else to streams
/// of effects.
pub proof fn lemma_what_is_appended(
    env: Doc,
    payloads: Seq<Doc>,
    received_at: Seq<char>,
    config: IngestConfig,
    kernel_key: Seq<char>,
    facts: AdmissionFacts,
    kind: KindFacts,
)
    requires
        validity(env, payloads, received_at, config, kernel_key, facts, kind) matches Ok(
            Validity::New(_),
        ),
    ensures
        validity(env, payloads, received_at, config, kernel_key, facts, kind) matches Ok(
            Validity::New(a),
        ) && {
            &&& a.envelope == env
            &&& facts.id matches Ok(id) && a.id == id@
            &&& facts.canonical matches Ok(text) && a.canonical_json == text@
            &&& a.received_at == received_at
            &&& a.stream_kind == if env.at("kind"@) == Doc::Text("signal"@) {
                "signal"@
            } else {
                "effect"@
            }
            &&& facts.existing matches Ok(None)
        },
{
    reveal_strlit("signal");
    assert("signal"@.len() > 0);
}

/// Each kind of record writes its own entry and no other: a grant the mandate, a revocation the
/// revocation, a decision the answer where it came to one, a checkpoint its row, and a signal its
/// payloads alone. A kind without a rule is refused.
pub proof fn lemma_what_each_kind_writes(
    env: Doc,
    payloads: Seq<Doc>,
    at: Setting,
    facts: KindFacts,
    kind: Seq<char>,
)
    requires
        env.at("kind"@) == Doc::Text(kind),
        env.get("authorization"@) is None,
    ensures
        ({
            let w = written(env, payloads, true, at, facts);
            &&& kind == "mandate"@ ==> (w is Ok <==> granted(env, facts->Grant_0) is Ok)
            &&& kind == "mandate"@ && w is Ok ==> w->Ok_0.projections == (Changes {
                mandate: Some(granted(env, facts->Grant_0)->Ok_0),
                ..no_changes()
            })
            &&& kind == "revocation"@ ==> (w is Ok <==> revoked(env, facts->Revocation_0) is Ok)
            &&& kind == "revocation"@ && w is Ok ==> w->Ok_0.projections == (Changes {
                revocation: Some(revoked(env, facts->Revocation_0)->Ok_0),
                ..no_changes()
            })
            &&& kind == "checkpoint"@ ==> (w is Ok <==> attested(
                env,
                at.kernel_key,
                facts->Checkpoint_0,
            ) is Ok)
            &&& kind == "checkpoint"@ && w is Ok ==> w->Ok_0.projections == (Changes {
                checkpoint: Some(attested(env, at.kernel_key, facts->Checkpoint_0)->Ok_0),
                ..no_changes()
            })
            &&& kind == "gate-decision"@ ==> (w is Ok <==> decided(
                env,
                crate::text::or_empty(env.text_at("emitted-at"@)),
                at.roots,
                facts->Decision_0,
            ) is Ok)
            &&& kind == "gate-decision"@ && w is Ok ==> w->Ok_0.projections == (Changes {
                gate_decision: decided(
                    env,
                    crate::text::or_empty(env.text_at("emitted-at"@)),
                    at.roots,
                    facts->Decision_0,
                )->Ok_0,
                ..no_changes()
            })
            &&& kind == "signal"@ ==> (w is Ok <==> kept_payloads(
                env,
                payloads,
                facts->Signal_0@,
                None,
            ) is Ok)
            &&& kind == "signal"@ && w is Ok ==> w->Ok_0.projections == no_changes()
                && w->Ok_0.payloads == kept_payloads(env, payloads, facts->Signal_0@, None)->Ok_0
            &&& kind == "cognition"@ ==> w == cognition_written(env, facts->Cognition_0)
            &&& kind == "effect"@ || kind == "policy-change"@ || kind == "aggregate"@ ==> w
                == effect_written(env, payloads, at.roots, at.signer, facts->Effect_0)
            &&& route_of(env, true) is Unknown ==> (w matches Err(f) && f.code
                == "envelope-unknown-kind"@)
            &&& (kind == "mandate"@ || kind == "revocation"@ || kind == "checkpoint"@ || kind
                == "gate-decision"@ || kind == "signal"@) && w is Ok ==> w->Ok_0.gate_use is None
                && w->Ok_0.spend is None && w->Ok_0.policy_violation is None
        }),
{
    lemma_every_kind_has_its_rule(env, kind);
}

} // verus!
