//! Envelopes that report an effect: what they must be authorized for, the class policy gives them,
//! the mandate they cite, what gates them, and what they charge.
//!
//! What they do is judged in a fixed order: classification, prohibition, mandate, gate rule,
//! budget.

use vstd::prelude::*;

use crate::budget::{accrual, accrual_of, figures, over_budget, would_exceed, Amounts};
use crate::clock::{shift, shifted};
use crate::codes::{
    AGGREGATE_WINDOW_INVERTED, AGGREGATE_WINDOW_TOO_LONG, BUDGET_EXCEEDED_APPLIED,
};
use crate::config::opt_string;
use crate::error::{fault, refusal, settles, Error, Fault};
use crate::gatequeue::{embedded_fault, said, validate_embedded};
use crate::ingest::approvers::{
    all_roots, permitted, root_approvers, Approver, GateRule, Permitted, Root,
    ROOT_APPROVED_ACTIONS,
};
use crate::ingest::changes::{
    commitment_ref_fault, executed, install, permitted_set_change, registration, resume,
    stream_resume, validate_commitment, validate_policy_change, validate_registration,
    validate_root_change, IncomingManifest, IncomingPolicy,
};
use crate::ingest::plan::{
    no_changes, opt_view, Changes, GateUse, Plan, Projections, Spend, SpendAccrual, Use, Written,
};
use crate::ingest::records::{collect_payloads, kept_payloads, Retention};
use crate::json::{docs, is_text, named, one_of, Doc, Json};
use crate::keys::KeyId;
use crate::manifest::Manifest;
use crate::text::{
    is_before, join, join4, join5, joined, opt_text, or_empty, precedes, same, text_or_empty,
    texts,
};

verus! {

// -- what must be authorized ------------------------------------------------------------------

/// An action on a resource.
#[derive(Debug)]
pub struct EffectRequest {
    /// The action.
    pub action: String,
    /// What it acts on.
    pub resource: String,
}

/// An action on a resource.
pub struct Asked {
    /// The action.
    pub action: Seq<char>,
    /// What it acts on.
    pub resource: Seq<char>,
}

impl View for EffectRequest {
    type V = Asked;

    open spec fn view(&self) -> Asked {
        Asked { action: self.action@, resource: self.resource@ }
    }
}

/// What some requests ask.
pub open spec fn asked(requests: Seq<EffectRequest>) -> Seq<Asked> {
    Seq::new(requests.len(), |i: int| requests[i]@)
}

/// What an envelope must be authorized for: the one action it reports on its target, or every
/// action an aggregate folds, on no target.
pub open spec fn asks(env: Doc) -> Result<Seq<Asked>, Fault> {
    let folded = env.at("counts"@).at("by-action"@);
    let action = executed(env, "action"@);
    let target = executed(env, "target"@);
    if env.text_at("kind"@) == Some("aggregate"@) {
        if folded.as_record() is None {
            Err(fault("schema-missing-member"@, "counts.by-action"@))
        } else if folded->Record_0.len() == 0 {
            Err(
                fault(
                    "aggregate-count-mismatch"@,
                    "an aggregation record folds no actions"@,
                ),
            )
        } else {
            Ok(
                Seq::new(
                    folded->Record_0.len(),
                    |i: int| Asked { action: folded->Record_0[i].0, resource: "-"@ },
                ),
            )
        }
    } else if action is None {
        Err(fault("schema-missing-member"@, "execution.action"@))
    } else if target is None {
        Err(fault("schema-missing-member"@, "execution.target"@))
    } else {
        Ok(seq![Asked { action: action->0, resource: target->0 }])
    }
}

/// What an envelope must be authorized for.
pub fn effect_requests(env: &Json) -> (r: Result<Vec<EffectRequest>, Error>)
    ensures
        match asks(env@) {
            Ok(requests) => r matches Ok(v) && asked(v@) == requests,
            Err(f) => r matches Err(e) && e@ == f,
        },
{
    let mut out: Vec<EffectRequest> = Vec::new();
    if is_text(env.at("kind"), "aggregate") {
        let folded = match env.at("counts").at("by-action").as_record() {
            Some(folded) => folded,
            None => {
                return Err(refusal("schema-missing-member", "counts.by-action"));
            },
        };
        if folded.len() == 0 {
            return Err(
                refusal("aggregate-count-mismatch", "an aggregation record folds no actions"),
            );
        }
        let mut i: usize = 0;
        while i < folded.len()
            invariant
                i <= folded@.len(),
                out@.len() == i,
                forall|j: int|
                    0 <= j < i ==> (#[trigger] out@[j])@ == (Asked {
                        action: folded@[j].0@,
                        resource: "-"@,
                    }),
            decreases folded@.len() - i,
        {
            out.push(EffectRequest { action: folded[i].0.clone(), resource: "-".to_owned() });
            i += 1;
        }
        assert(asked(out@) =~= asks(env@)->Ok_0);
        return Ok(out);
    }
    let action = match env.at("execution").text_at("action") {
        Some(action) => action,
        None => {
            return Err(refusal("schema-missing-member", "execution.action"));
        },
    };
    let target = match env.at("execution").text_at("target") {
        Some(target) => target,
        None => {
            return Err(refusal("schema-missing-member", "execution.target"));
        },
    };
    out.push(EffectRequest { action: action.to_owned(), resource: target.to_owned() });
    assert(asked(out@) =~= asks(env@)->Ok_0);
    Ok(out)
}

/// What policy is asked to classify.
#[derive(Debug)]
pub struct ClassifyInput {
    /// Who acts.
    pub subject: String,
    /// The action.
    pub action: String,
    /// What it acts on.
    pub resource: String,
    /// The class the component's manifest proposes.
    pub manifest_class: Option<String>,
}

/// The questions to put to policy, one for each request: each with the class the manifest, where
/// there is one, proposes for its action.
pub fn classify_inputs(
    env: &Json,
    requests: &Vec<EffectRequest>,
    manifest: &Option<Manifest>,
) -> (r: Vec<ClassifyInput>)
    ensures
        r@.len() == requests@.len(),
        forall|i: int|
            0 <= i < r@.len() ==> {
                let input = #[trigger] r@[i];
                &&& input.subject@ == said(env@.at("identity"@), "subject"@)
                &&& input.action@ == requests@[i].action@
                &&& input.resource@ == requests@[i].resource@
                &&& opt_string(input.manifest_class) == match *manifest {
                    Some(m) => m.declared(requests@[i].action@, "class"@),
                    None => None,
                }
            },
{
    let subject = text_or_empty(env.at("identity").text_at("subject"));
    let mut out: Vec<ClassifyInput> = Vec::new();
    let mut i: usize = 0;
    while i < requests.len()
        invariant
            i <= requests@.len(),
            out@.len() == i,
            subject@ == said(env@.at("identity"@), "subject"@),
            forall|j: int|
                0 <= j < i ==> {
                    let input = #[trigger] out@[j];
                    &&& input.subject@ == said(env@.at("identity"@), "subject"@)
                    &&& input.action@ == requests@[j].action@
                    &&& input.resource@ == requests@[j].resource@
                    &&& opt_string(input.manifest_class) == match *manifest {
                        Some(m) => m.declared(requests@[j].action@, "class"@),
                        None => None,
                    }
                },
        decreases requests@.len() - i,
    {
        let proposed = match manifest {
            Some(m) => m.proposed_class(requests[i].action.as_str()),
            None => None,
        };
        out.push(
            ClassifyInput {
                subject: subject.to_owned(),
                action: requests[i].action.clone(),
                resource: requests[i].resource.clone(),
                manifest_class: match proposed {
                    Some(class) => Some(class.to_owned()),
                    None => None,
                },
            },
        );
        i += 1;
    }
    out
}

/// What a mandate must cover.
#[derive(Debug)]
pub struct MandateRequest {
    /// The component that acts.
    pub component: String,
    /// The action.
    pub action: String,
    /// The weight class it acts at.
    pub classification: String,
    /// What it acts on.
    pub resource: String,
}

/// Whether a mandate is asked for a request: by the component that acts, at the class the envelope
/// declares, or at `read` where it folds many.
pub open spec fn asks_mandate(r: MandateRequest, env: Doc, request: Asked) -> bool {
    &&& r.component@ == said(env.at("identity"@), "component"@)
    &&& r.action@ == request.action
    &&& r.resource@ == request.resource
    &&& r.classification@ == if env.text_at("kind"@) == Some("aggregate"@) {
        "read"@
    } else {
        said(env, "classification"@)
    }
}

/// What the cited mandate must cover, one for each request.
pub fn mandate_requests(env: &Json, requests: &Vec<EffectRequest>) -> (r: Vec<MandateRequest>)
    ensures
        r@.len() == requests@.len(),
        forall|i: int| 0 <= i < r@.len() ==> asks_mandate(#[trigger] r@[i], env@, requests@[i]@),
{
    let component = text_or_empty(env.at("identity").text_at("component"));
    let class = if is_text(env.at("kind"), "aggregate") {
        "read"
    } else {
        text_or_empty(env.text_at("classification"))
    };
    let mut out: Vec<MandateRequest> = Vec::new();
    let mut i: usize = 0;
    while i < requests.len()
        invariant
            i <= requests@.len(),
            out@.len() == i,
            component@ == said(env@.at("identity"@), "component"@),
            class@ == if env@.text_at("kind"@) == Some("aggregate"@) {
                "read"@
            } else {
                said(env@, "classification"@)
            },
            forall|j: int| 0 <= j < i ==> asks_mandate(#[trigger] out@[j], env@, requests@[j]@),
        decreases requests@.len() - i,
    {
        out.push(
            MandateRequest {
                component: component.to_owned(),
                action: requests[i].action.clone(),
                classification: class.to_owned(),
                resource: requests[i].resource.clone(),
            },
        );
        i += 1;
    }
    out
}

// -- classification ---------------------------------------------------------------------------

/// How much a class weighs: one more than its place among the classes, and nothing where it is
/// none of them.
pub open spec fn weight(class: Seq<char>) -> int {
    if class == "read"@ {
        1
    } else if class == "benign"@ {
        2
    } else if class == "consequential"@ {
        3
    } else if class == "prohibited"@ {
        4
    } else {
        0
    }
}

/// How much a class weighs.
pub fn class_weight(class: &str) -> (r: u8)
    ensures
        r == weight(class@),
{
    if same(class, "read") {
        1
    } else if same(class, "benign") {
        2
    } else if same(class, "consequential") {
        3
    } else if same(class, "prohibited") {
        4
    } else {
        0
    }
}

/// The first of the heaviest classes, up to a place.
pub open spec fn heaviest(classes: Seq<Seq<char>>, upto: int) -> Seq<char>
    decreases upto,
{
    if upto <= 0 {
        Seq::empty()
    } else {
        let before = heaviest(classes, upto - 1);
        if before.len() == 0 || weight(classes[upto - 1]) > weight(before) {
            classes[upto - 1]
        } else {
            before
        }
    }
}

/// The first of the heaviest classes.
pub fn heaviest_class(classes: &Vec<String>) -> (r: String)
    ensures
        r@ == heaviest(texts(classes@), classes@.len() as int),
{
    let mut best: String = "".to_owned();
    proof {
        reveal_strlit("");
        assert(best@ =~= Seq::empty());
    }
    let mut i: usize = 0;
    while i < classes.len()
        invariant
            i <= classes@.len(),
            best@ == heaviest(texts(classes@), i as int),
        decreases classes@.len() - i,
    {
        if best.as_str().is_empty() || class_weight(classes[i].as_str()) > class_weight(best.as_str()) {
            best = classes[i].clone();
        }
        i += 1;
    }
    best
}

/// The actions some requests are about.
pub open spec fn actions(requests: Seq<Asked>) -> Seq<Seq<char>> {
    Seq::new(requests.len(), |i: int| requests[i].action)
}

fn action_names(requests: &Vec<EffectRequest>) -> (r: Vec<String>)
    ensures
        texts(r@) == actions(asked(requests@)),
{
    let mut out: Vec<String> = Vec::new();
    let mut i: usize = 0;
    while i < requests.len()
        invariant
            i <= requests@.len(),
            out@.len() == i,
            forall|j: int| 0 <= j < i ==> (#[trigger] out@[j])@ == requests@[j].action@,
        decreases requests@.len() - i,
    {
        out.push(requests[i].action.clone());
        i += 1;
    }
    assert(texts(out@) =~= actions(asked(requests@)));
    out
}

/// The class in force for an envelope: the heaviest that policy gives what it must be authorized
/// for. A component may not claim a lighter one.
pub open spec fn effective_class(env: Doc, facts: EffectFacts) -> Result<Seq<char>, Fault> {
    let declared = said(env, "classification"@);
    let class = heaviest(texts(facts.classes@), facts.classes@.len() as int);
    if let Err(f) = asks(env) {
        Err(f)
    } else if let Err(e) = facts.manifest {
        Err(e@)
    } else if weight(declared) < weight(class) {
        Err(
            fault(
                "policy-component-override-attempt"@,
                "envelope claims "@ + declared + ", policy computes "@ + class + " for "@ + joined(
                    actions(asks(env)->Ok_0),
                    ", "@,
                ),
            ),
        )
    } else {
        Ok(class)
    }
}

/// What is known of an effect: what policy, the store and the verification of its signatures said.
#[derive(Debug)]
pub struct EffectFacts {
    /// The component's registered manifest, where there is one.
    pub manifest: Result<Option<Manifest>, Error>,
    /// The class policy gives each request.
    pub classes: Vec<String>,
    /// What resolving the cited mandate, its ancestors and their revocations came to.
    pub ancestry: Result<(), Error>,
    /// What verifying the mandate chain for each request came to: the human it reaches.
    pub chains: Vec<Result<String, Error>>,
    /// What judging the trigger, where there is one, came to.
    pub trigger: Result<(), Error>,
    /// How many seconds policy lets an aggregation window last.
    pub max_window_seconds: i64,
    /// What is known of a policy coming into force.
    pub policy: IncomingPolicy,
    /// What is known of a manifest being registered.
    pub registration: IncomingManifest,
    /// The transitions of the durable object so far.
    pub history: Result<Vec<String>, Error>,
    /// What policy rules for the class in force.
    pub rule: GateRule,
    /// What hashing the request of the authorization came to.
    pub request_hash: Result<String, Error>,
    /// Whether the approval has been used.
    pub seen: Result<bool, Error>,
    /// What verifying the authorization, as its rule demands, came to.
    pub verdict: Result<Option<GateOk>, Error>,
    /// The citing mandate and every ancestor of it.
    pub line: Result<Vec<Charged>, Error>,
    /// The canonical form of each payload.
    pub canonical: Vec<Result<String, Error>>,
    /// What policy says of keeping evidence of the class in force.
    pub retention: Retention,
}

/// What a verified approval says.
#[derive(Debug)]
pub struct GateOk {
    /// The request it approves.
    pub request_hash: String,
    /// The key that approved.
    pub decided_by: KeyId,
    /// Whether it may be used once only.
    pub single_use: bool,
}

/// A mandate that is charged: what the store has of it, and what it has spent.
#[derive(Debug)]
pub struct Charged {
    /// Its identifier.
    pub id: String,
    /// The mandate, where the store has it.
    pub mandate: Result<Option<Json>, Error>,
    /// What has been charged to it.
    pub spent: Result<Amounts, Error>,
}

/// Whether facts were gathered for an envelope: a class and a chain for each request, and a
/// canonical form for each payload.
pub open spec fn gathered(env: Doc, payloads: Seq<Doc>, facts: EffectFacts) -> bool {
    &&& asks(env) matches Ok(requests) ==> facts.classes@.len() == requests.len()
        && facts.chains@.len() == requests.len()
    &&& facts.canonical@.len() == payloads.len()
    &&& facts.rule.is_complete()
}

fn judge_class(env: &Json, facts: &EffectFacts) -> (r: Result<String, Error>)
    ensures
        crate::error::is_text_result(r, effective_class(env@, *facts)),
{
    let declared = text_or_empty(env.text_at("classification"));
    let requests = effect_requests(env)?;
    if let Err(e) = &facts.manifest {
        return Err(e.copy());
    }
    let class = heaviest_class(&facts.classes);
    if class_weight(declared) < class_weight(class.as_str()) {
        let names = action_names(&requests);
        let mut detail = join5(
            "envelope claims ",
            declared,
            ", policy computes ",
            class.as_str(),
            " for ",
        );
        detail.push_str(join(&names, ", ").as_str());
        return Err(Error::new("policy-component-override-attempt", detail));
    }
    Ok(class)
}

/// Whether an envelope reports that something was done: its outcome is `applied` or `failed`, or
/// unsaid, or it folds a window of reads.
pub open spec fn is_applied(env: Doc) -> bool {
    let outcome = match executed(env, "outcome"@) {
        Some(outcome) => outcome,
        None => "applied"@,
    };
    outcome == "applied"@ || outcome == "failed"@ || env.text_at("kind"@) == Some("aggregate"@)
}

/// Whether an envelope reports that something was done.
pub fn applied(env: &Json) -> (r: bool)
    ensures
        r == is_applied(env@),
{
    let outcome = match env.at("execution").text_at("outcome") {
        Some(outcome) => outcome,
        None => "applied",
    };
    same(outcome, "applied") || same(outcome, "failed") || is_text(env.at("kind"), "aggregate")
}

// -- the mandate ------------------------------------------------------------------------------

/// The first chain, from a place on, that does not verify.
pub open spec fn broken_chain(chains: Seq<Result<String, Error>>, from: int) -> Option<Fault>
    decreases chains.len() - from,
{
    if from >= chains.len() {
        None
    } else {
        match chains[from] {
            Err(e) => Some(e@),
            Ok(_) => broken_chain(chains, from + 1),
        }
    }
}

/// The human the cited mandate reaches, for every request alike.
pub open spec fn reached(env: Doc, facts: EffectFacts) -> Result<Option<Seq<char>>, Fault> {
    let chains = facts.chains@;
    if env.text_at("mandate-ref"@) is None {
        Err(fault("schema-missing-member"@, "mandate-ref"@))
    } else if let Err(e) = facts.ancestry {
        Err(e@)
    } else if let Some(f) = broken_chain(chains, 0) {
        Err(f)
    } else if chains.len() == 0 {
        Ok(None)
    } else {
        Ok(Some(chains.last()->Ok_0@))
    }
}

fn check_mandate(env: &Json, facts: &EffectFacts) -> (r: Result<Option<String>, Error>)
    ensures
        match reached(env@, *facts) {
            Ok(human) => r matches Ok(v) && opt_string(v) == human,
            Err(f) => r matches Err(e) && e@ == f,
        },
{
    if env.text_at("mandate-ref").is_none() {
        return Err(refusal("schema-missing-member", "mandate-ref"));
    }
    if let Err(e) = &facts.ancestry {
        return Err(e.copy());
    }
    let mut human: Option<String> = None;
    let mut i: usize = 0;
    while i < facts.chains.len()
        invariant
            i <= facts.chains@.len(),
            env@.text_at("mandate-ref"@) is Some,
            facts.ancestry is Ok,
            broken_chain(facts.chains@, 0) == broken_chain(facts.chains@, i as int),
            i == 0 ==> human is None,
            i > 0 ==> facts.chains@[i - 1] is Ok && opt_string(human) == Some(
                facts.chains@[i - 1]->Ok_0@,
            ),
        decreases facts.chains@.len() - i,
    {
        match &facts.chains[i] {
            Err(e) => {
                return Err(e.copy());
            },
            Ok(root) => {
                human = Some(root.clone());
            },
        }
        i += 1;
    }
    Ok(human)
}

// -- what the action changes ------------------------------------------------------------------

/// What is wrong with the window an aggregate covers: it does not end before it begins, nor later
/// than policy allows.
pub open spec fn window_fault(env: Doc, max_seconds: int) -> Option<Fault> {
    let from = env.at("window"@).text_at("from"@);
    let to = env.at("window"@).text_at("to"@);
    if from is None {
        Some(fault("schema-missing-member"@, "window.from"@))
    } else if to is None {
        Some(fault("schema-missing-member"@, "window.to"@))
    } else if precedes(to->0, from->0) {
        Some(
            fault(
                AGGREGATE_WINDOW_INVERTED@,
                "window ["@ + from->0 + ", "@ + to->0 + "] is inverted"@,
            ),
        )
    } else {
        match shifted(from->0, max_seconds) {
            Err(f) => Some(f),
            Ok(ceiling) => if precedes(ceiling, to->0) {
                Some(
                    fault(
                        AGGREGATE_WINDOW_TOO_LONG@,
                        "window ends at "@ + to->0 + ", later than the policy ceiling "@ + ceiling,
                    ),
                )
            } else {
                None
            },
        }
    }
}

/// Checks the window an aggregate covers.
pub fn validate_aggregate_window(env: &Json, max_seconds: i64) -> (r: Result<(), Error>)
    ensures
        settles(r, window_fault(env@, max_seconds as int)),
{
    let from = match env.at("window").text_at("from") {
        Some(from) => from,
        None => {
            return Err(refusal("schema-missing-member", "window.from"));
        },
    };
    let to = match env.at("window").text_at("to") {
        Some(to) => to,
        None => {
            return Err(refusal("schema-missing-member", "window.to"));
        },
    };
    if is_before(to, from) {
        return Err(
            Error::new(
                AGGREGATE_WINDOW_INVERTED,
                join5("window [", from, ", ", to, "] is inverted"),
            ),
        );
    }
    let ceiling = shift(from, max_seconds)?;
    if is_before(ceiling.as_str(), to) {
        return Err(
            Error::new(
                AGGREGATE_WINDOW_TOO_LONG,
                join4("window ends at ", to, ", later than the policy ceiling ", ceiling.as_str()),
            ),
        );
    }
    Ok(())
}

/// What an effect changes beside the chain itself, by its kind and its action: a policy version, a
/// registration, the root set or a stream.
pub open spec fn effect_changes(
    env: Doc,
    payloads: Seq<Doc>,
    roots: Seq<Root>,
    signer: Seq<char>,
    facts: EffectFacts,
) -> Result<Changes, Fault> {
    let kind = env.text_at("kind"@);
    let action = executed(env, "action"@);
    let publishes = kind == Some("policy-change"@);
    let registers = action == Some("kernel.register_component"@);
    let enrols = action == Some("kernel.enroll_root"@) || action == Some("kernel.retire_root"@);
    let resumes = action == Some("kernel.resume_stream"@);
    let policy = install(env, payloads, facts.policy);
    let manifest = registration(env, payloads, facts.registration);
    let root = permitted_set_change(env, payloads, roots, signer);
    let stream = resume(env, payloads);
    let subject = said(env.at("identity"@), "subject"@);
    if env.get("trigger"@) is Some && facts.trigger is Err {
        Err(facts.trigger->Err_0@)
    } else if kind == Some("aggregate"@) && window_fault(
        env,
        facts.max_window_seconds as int,
    ) is Some {
        Err(window_fault(env, facts.max_window_seconds as int)->0)
    } else if publishes && policy is Err {
        Err(policy->Err_0)
    } else if registers && manifest is Err {
        Err(manifest->Err_0)
    } else if enrols && root is Err {
        Err(root->Err_0)
    } else if resumes && stream is Err {
        Err(stream->Err_0)
    } else if let Some(f) = commitment_ref_fault(
        env,
        facts.manifest->Ok_0,
        subject,
        facts.history,
    ) {
        Err(f)
    } else {
        Ok(
            Changes {
                policy: if publishes {
                    Some(policy->Ok_0)
                } else {
                    None
                },
                manifest: if registers {
                    Some(manifest->Ok_0)
                } else {
                    None
                },
                root: if enrols {
                    Some(root->Ok_0)
                } else {
                    None
                },
                stream_resume: if resumes {
                    Some(stream->Ok_0)
                } else {
                    None
                },
                ..no_changes()
            },
        )
    }
}

fn collect_changes(
    env: &Json,
    payloads: &Vec<Json>,
    roots: &Vec<Root>,
    signer: &KeyId,
    manifest: &Option<Manifest>,
    facts: &EffectFacts,
) -> (r: Result<Projections, Error>)
    requires
        facts.manifest == Ok::<Option<Manifest>, Error>(*manifest),
    ensures
        match effect_changes(env@, docs(payloads@), roots@, signer@, *facts) {
            Ok(changes) => r matches Ok(v) && v@ == changes,
            Err(f) => r matches Err(e) && e@ == f,
        },
{
    let mut changes = Projections::none();
    if env.get("trigger").is_some() {
        if let Err(e) = &facts.trigger {
            return Err(e.copy());
        }
    }
    if is_text(env.at("kind"), "aggregate") {
        validate_aggregate_window(env, facts.max_window_seconds)?;
    }
    if is_text(env.at("kind"), "policy-change") {
        changes.policy = Some(validate_policy_change(env, payloads, &facts.policy)?);
    }
    let action = env.at("execution").at("action");
    if is_text(action, "kernel.register_component") {
        changes.manifest = Some(validate_registration(env, payloads, &facts.registration)?);
    }
    if is_text(action, "kernel.enroll_root") || is_text(action, "kernel.retire_root") {
        changes.root = Some(validate_root_change(env, payloads, roots, signer)?);
    }
    if is_text(action, "kernel.resume_stream") {
        changes.stream_resume = Some(stream_resume(env, payloads)?);
    }
    let subject = text_or_empty(env.at("identity").text_at("subject"));
    validate_commitment(env, manifest, subject, &facts.history)?;
    Ok(changes)
}

// -- approval -----------------------------------------------------------------------------------

/// Whether only enrolled roots approve what an envelope reports.
pub open spec fn is_root_approved(env: Doc) -> bool {
    named(ROOT_APPROVED_ACTIONS@, or_empty(executed(env, "action"@))) || env.text_at("kind"@)
        == Some("policy-change"@)
}

/// Whether an envelope must carry an approval: one that reports something done, where the rule
/// gates its class or only roots approve it. What was never applied has no approval to carry.
pub open spec fn must_be_approved(env: Doc, rule: GateRule) -> bool {
    is_applied(env) && (rule is Gate || is_root_approved(env))
}

/// The keys whose approval an envelope may carry.
pub open spec fn may_approve(env: Doc, rule: GateRule, roots: Seq<Root>) -> Result<
    Seq<Permitted>,
    Fault,
> {
    if is_root_approved(env) {
        Ok(all_roots(roots))
    } else {
        rule.approving(roots, or_empty(executed(env, "action"@)), Seq::empty())
    }
}

/// What approval an envelope needs.
#[derive(Debug)]
pub struct GateQuestion {
    /// Whether it must carry an approval.
    pub requires_gate: bool,
    /// The keys whose approval it may carry.
    pub approvers: Vec<Approver>,
}

/// What approval an envelope needs: what its authorization is verified against.
pub fn gate_question(env: &Json, rule: &GateRule, roots: &Vec<Root>) -> (r: Result<
    GateQuestion,
    Error,
>)
    requires
        rule.is_complete(),
    ensures
        match may_approve(env@, *rule, roots@) {
            Ok(keys) => r matches Ok(q) && permitted(q.approvers@) == keys && q.requires_gate
                == must_be_approved(env@, *rule),
            Err(f) => r matches Err(e) && e@ == f,
        },
{
    let action = text_or_empty(env.at("execution").text_at("action"));
    let root_approved = one_of(action, &ROOT_APPROVED_ACTIONS) || is_text(
        env.at("kind"),
        "policy-change",
    );
    let gated = match rule {
        GateRule::Gate { .. } => true,
        _ => false,
    };
    let approvers = if root_approved {
        root_approvers(roots)
    } else {
        let none: Vec<Approver> = Vec::new();
        assert(permitted(none@) =~= Seq::empty());
        rule.approvers(roots, action, none)?
    };
    Ok(GateQuestion { requires_gate: applied(env) && (gated || root_approved), approvers })
}

/// The approval an envelope uses up, once it has been verified.
pub open spec fn used(env: Doc, ok: GateOk) -> Use {
    Use {
        request_hash: ok.request_hash@,
        decided_by: ok.decided_by@,
        single_use: ok.single_use,
        not_after: match env.at("authorization"@).at("decision"@).text_at("not-after"@) {
            Some(t) => t,
            None => said(env, "emitted-at"@),
        },
    }
}

/// The approval an envelope uses up, once it has been verified.
pub fn use_of(env: &Json, ok: &GateOk) -> (r: GateUse)
    ensures
        r@ == used(env@, *ok),
{
    let until = match env.at("authorization").at("decision").text_at("not-after") {
        Some(t) => t,
        None => text_or_empty(env.text_at("emitted-at")),
    };
    GateUse {
        request_hash: ok.request_hash.clone(),
        decided_by: ok.decided_by.as_str().to_owned(),
        single_use: ok.single_use,
        not_after: until.to_owned(),
    }
}

/// The refusal of an envelope that carries no authorization and must: what verifying it came to
/// where that says as much, and otherwise this detail. No verdict stands in for an authorization.
pub open spec fn unapproved(verdict: Result<Option<GateOk>, Error>, detail: Seq<char>) -> Fault {
    match verdict {
        Err(e) => if e@.code == "gate-authorization-missing"@ {
            e@
        } else {
            fault("gate-authorization-missing"@, detail)
        },
        Ok(_) => fault("gate-authorization-missing"@, detail),
    }
}

/// The refusal of an envelope that carries no authorization and must.
pub fn refuse_unapproved(verdict: &Result<Option<GateOk>, Error>, detail: &str) -> (r: Error)
    ensures
        r@ == unapproved(*verdict, detail@),
{
    if let Err(e) = verdict {
        if same(e.code(), "gate-authorization-missing") {
            return e.copy();
        }
    }
    refusal("gate-authorization-missing", detail)
}

/// What an envelope's approval comes to: an authorization that is there is well formed, one that is
/// demanded is verified, and what reports something done uses it up. A signed denial passes only
/// with what was never applied: it is then a record, and not an authorization.
pub open spec fn gate_outcome(env: Doc, roots: Seq<Root>, facts: EffectFacts) -> Result<
    Option<Use>,
    Fault,
> {
    let authorization = env.at("authorization"@);
    let hash = authorization.at("decision"@).text_at("request-hash"@);
    if let Err(f) = may_approve(env, facts.rule, roots) {
        Err(f)
    } else if env.get("authorization"@) is Some && embedded_fault(
        authorization,
        facts.request_hash,
    ) is Some {
        Err(embedded_fault(authorization, facts.request_hash)->0)
    } else if hash is Some && facts.seen is Err {
        Err(facts.seen->Err_0@)
    } else if env.get("authorization"@) is None && must_be_approved(env, facts.rule) {
        Err(unapproved(facts.verdict, "the effect carries no approval"@))
    } else {
        match facts.verdict {
            Ok(Some(ok)) => Ok(
                if is_applied(env) {
                    Some(used(env, ok))
                } else {
                    None
                },
            ),
            Ok(None) => if must_be_approved(env, facts.rule) {
                Err(fault("gate-authorization-missing"@, "the effect carries no approval"@))
            } else {
                Ok(None)
            },
            Err(e) => if e@.code == "gate-denied"@ && !is_applied(env) {
                Ok(None)
            } else {
                Err(e@)
            },
        }
    }
}

fn pass_gate(env: &Json, roots: &Vec<Root>, facts: &EffectFacts) -> (r: Result<
    Option<GateUse>,
    Error,
>)
    requires
        facts.rule.is_complete(),
    ensures
        match gate_outcome(env@, roots@, *facts) {
            Ok(u) => r matches Ok(v) && opt_view(v) == u,
            Err(f) => r matches Err(e) && e@ == f,
        },
{
    let question = gate_question(env, &facts.rule, roots)?;
    if let Some(authorization) = env.get("authorization") {
        validate_embedded(authorization, &facts.request_hash)?;
    }
    if env.at("authorization").at("decision").text_at("request-hash").is_some() {
        if let Err(e) = &facts.seen {
            return Err(e.copy());
        }
    }
    if question.requires_gate && env.get("authorization").is_none() {
        return Err(refuse_unapproved(&facts.verdict, "the effect carries no approval"));
    }
    let done = applied(env);
    match &facts.verdict {
        Ok(Some(ok)) => {
            if done {
                Ok(Some(use_of(env, ok)))
            } else {
                Ok(None)
            }
        },
        Ok(None) => {
            if question.requires_gate {
                return Err(refusal("gate-authorization-missing", "the effect carries no approval"));
            }
            Ok(None)
        },
        Err(e) => {
            if same(e.code(), "gate-denied") && !done {
                return Ok(None);
            }
            Err(e.copy())
        },
    }
}

// -- the budget -------------------------------------------------------------------------------

/// The first failure, from a place on, to learn what a mandate's budget is and what it has spent.
pub open spec fn line_fault(line: Seq<Charged>, from: int) -> Option<Fault>
    decreases line.len() - from,
{
    if from >= line.len() {
        None
    } else {
        match line[from].mandate {
            Err(e) => Some(e@),
            Ok(Some(m)) => if m@.get("budget"@) is Some && line[from].spent is Err {
                Some(line[from].spent->Err_0@)
            } else {
                line_fault(line, from + 1)
            },
            Ok(None) => line_fault(line, from + 1),
        }
    }
}

/// Whether the cap of a mandate has no room for what is being added.
pub open spec fn lacks_room(c: Charged, adding: Seq<(Seq<char>, Seq<char>)>) -> bool {
    match c.mandate {
        Ok(Some(m)) => m@.get("budget"@) is Some && over_budget(
            m@.at("budget"@),
            figures(c.spent->Ok_0@),
            adding,
        ).len() > 0,
        _ => false,
    }
}

/// Whether the cap of some mandate, before a place, has no room for what is being added.
pub open spec fn overspends(
    line: Seq<Charged>,
    adding: Seq<(Seq<char>, Seq<char>)>,
    upto: int,
) -> bool {
    exists|i: int| 0 <= i < upto && lacks_room(#[trigger] line[i], adding)
}

/// The identifiers of the mandates that are charged.
pub open spec fn charged_ids(line: Seq<Charged>) -> Seq<Seq<char>> {
    Seq::new(line.len(), |i: int| line[i].id@)
}

/// What an envelope charges and whether a cap has no room for it. The mandate it cites is charged,
/// and every ancestor of it; where it consumed nothing, or cites none, none is. A cap that has no
/// room does not refuse: what was consumed has been consumed.
pub open spec fn charge(env: Doc, line: Result<Vec<Charged>, Error>) -> Result<
    (bool, Option<Spend>),
    Fault,
> {
    let adding = accrual(env);
    if adding.len() == 0 || env.text_at("mandate-ref"@) is None {
        Ok((false, None))
    } else {
        match line {
            Err(e) => Err(e@),
            Ok(charged) => match line_fault(charged@, 0) {
                Some(f) => Err(f),
                None => Ok(
                    (
                        overspends(charged@, adding, charged@.len() as int),
                        Some(Spend { mandates: charged_ids(charged@), amounts: adding }),
                    ),
                ),
            },
        }
    }
}

fn has_no_room(c: &Charged, adding: &Amounts) -> (r: Result<bool, Error>)
    ensures
        match r {
            Ok(over) => over == lacks_room(*c, figures(adding@)) && !(c.mandate is Err) && (
            c.mandate matches Ok(Some(m)) ==> m@.get("budget"@) is None || c.spent is Ok),
            Err(e) => match c.mandate {
                Err(f) => e@ == f@,
                Ok(Some(m)) => m@.get("budget"@) is Some && c.spent is Err && e@
                    == c.spent->Err_0@,
                Ok(None) => false,
            },
        },
{
    let mandate = match &c.mandate {
        Err(e) => {
            return Err(e.copy());
        },
        Ok(None) => {
            return Ok(false);
        },
        Ok(Some(mandate)) => mandate,
    };
    let cap = match mandate.get("budget") {
        None => {
            return Ok(false);
        },
        Some(cap) => cap,
    };
    match &c.spent {
        Err(e) => Err(e.copy()),
        Ok(spent) => {
            let over = would_exceed(cap, spent, adding);
            Ok(over.len() > 0)
        },
    }
}

/// What an envelope charges, and whether a cap has no room for it.
pub fn accrue_budget(env: &Json, line: &Result<Vec<Charged>, Error>) -> (r: Result<
    (bool, Option<SpendAccrual>),
    Error,
>)
    ensures
        match charge(env@, *line) {
            Ok(c) => r matches Ok(v) && (v.0, opt_view(v.1)) == c,
            Err(f) => r matches Err(e) && e@ == f,
        },
{
    let adding = accrual_of(env);
    if adding.len() == 0 {
        return Ok((false, None));
    }
    if env.text_at("mandate-ref").is_none() {
        return Ok((false, None));
    }
    let charged = match line {
        Err(e) => {
            return Err(e.copy());
        },
        Ok(charged) => charged,
    };
    let mut over = false;
    let mut mandates: Vec<String> = Vec::new();
    let mut i: usize = 0;
    while i < charged.len()
        invariant
            i <= charged@.len(),
            figures(adding@) == accrual(env@),
            accrual(env@).len() != 0,
            env@.text_at("mandate-ref"@) is Some,
            line == Ok::<Vec<Charged>, Error>(*charged),
            line_fault(charged@, 0) == line_fault(charged@, i as int),
            over == overspends(charged@, figures(adding@), i as int),
            mandates@.len() == i,
            forall|j: int| 0 <= j < i ==> (#[trigger] mandates@[j])@ == charged@[j].id@,
        decreases charged@.len() - i,
    {
        let none_left = has_no_room(&charged[i], &adding)?;
        if none_left {
            assert(lacks_room(charged@[i as int], figures(adding@)));
            over = true;
        }
        mandates.push(charged[i].id.clone());
        i += 1;
    }
    assert(texts(mandates@) =~= charged_ids(charged@));
    Ok((over, Some(SpendAccrual { mandates, amounts: adding })))
}

// -- the plan ---------------------------------------------------------------------------------

/// What an envelope confesses to: the first that holds, in the order in which policy judges.
pub open spec fn confession(
    env: Doc,
    class: Seq<char>,
    rule: GateRule,
    over: bool,
) -> Option<Seq<char>> {
    if class == "prohibited"@ && is_applied(env) {
        Some("prohibited-applied"@)
    } else if rule is Deny && is_applied(env) {
        Some("policy-denied-applied"@)
    } else if over {
        Some(BUDGET_EXCEEDED_APPLIED@)
    } else {
        None
    }
}

fn confess(env: &Json, class: &str, rule: &GateRule, over: bool) -> (r: Option<String>)
    ensures
        opt_string(r) == confession(env@, class@, *rule, over),
{
    let done = applied(env);
    let denied = match rule {
        GateRule::Deny => true,
        _ => false,
    };
    if same(class, "prohibited") && done {
        Some("prohibited-applied".to_owned())
    } else if denied && done {
        Some("policy-denied-applied".to_owned())
    } else if over {
        Some(BUDGET_EXCEEDED_APPLIED.to_owned())
    } else {
        None
    }
}

/// What an envelope that reports an effect will write: classified, its mandate verified, its
/// changes read, its gate passed, its budget charged and its evidence kept, in that order. What it
/// did that policy does not permit is written too, as a confession: refusing it would delete the
/// only record of it.
pub open spec fn effect_written(
    env: Doc,
    payloads: Seq<Doc>,
    roots: Seq<Root>,
    signer: Seq<char>,
    facts: EffectFacts,
) -> Result<Written, Fault> {
    match effective_class(env, facts) {
        Err(f) => Err(f),
        Ok(class) => match reached(env, facts) {
            Err(f) => Err(f),
            Ok(human) => match effect_changes(env, payloads, roots, signer, facts) {
                Err(f) => Err(f),
                Ok(changes) => match gate_outcome(env, roots, facts) {
                    Err(f) => Err(f),
                    Ok(gate_use) => match charge(env, facts.line) {
                        Err(f) => Err(f),
                        Ok((over, spend)) => match kept_payloads(
                            env,
                            payloads,
                            facts.canonical@,
                            Some((class, facts.retention)),
                        ) {
                            Err(f) => Err(f),
                            Ok(rows) => Ok(
                                Written {
                                    human_root: human,
                                    effective_class: Some(class),
                                    policy_violation: confession(env, class, facts.rule, over),
                                    payloads: rows,
                                    gate_use,
                                    projections: changes,
                                    spend,
                                },
                            ),
                        },
                    },
                },
            },
        },
    }
}

/// Validates an envelope that reports an effect.
pub fn validate_effect_kind(
    env: &Json,
    payloads: &Vec<Json>,
    roots: &Vec<Root>,
    signer: &KeyId,
    facts: &EffectFacts,
) -> (r: Result<Plan, Error>)
    requires
        gathered(env@, docs(payloads@), *facts),
    ensures
        match effect_written(env@, docs(payloads@), roots@, signer@, *facts) {
            Ok(w) => r matches Ok(v) && v@ == w,
            Err(f) => r matches Err(e) && e@ == f,
        },
{
    let class = judge_class(env, facts)?;
    let manifest = match &facts.manifest {
        Ok(manifest) => manifest,
        Err(e) => {
            return Err(e.copy());
        },
    };
    let human_root = check_mandate(env, facts)?;
    let projections = collect_changes(env, payloads, roots, signer, manifest, facts)?;
    let gate_use = pass_gate(env, roots, facts)?;
    let (over, spend) = accrue_budget(env, &facts.line)?;
    let kept = collect_payloads(
        env,
        payloads,
        &facts.canonical,
        Some((class.as_str(), &facts.retention)),
    )?;
    let policy_violation = confess(env, class.as_str(), &facts.rule, over);
    Ok(
        Plan {
            human_root,
            effective_class: Some(class),
            policy_violation,
            payloads: kept,
            gate_use,
            projections,
            spend,
        },
    )
}

// -- what the facts are asked for -------------------------------------------------------------

/// The mandate an envelope acts under, which it must name.
pub fn mandate_ref(env: &Json) -> (r: Result<&str, Error>)
    ensures
        match env@.text_at("mandate-ref"@) {
            Some(m) => r matches Ok(t) && t@ == m,
            None => r matches Err(e) && e@ == fault("schema-missing-member"@, "mandate-ref"@),
        },
{
    match env.text_at("mandate-ref") {
        Some(m) => Ok(m),
        None => Err(refusal("schema-missing-member", "mandate-ref")),
    }
}

/// The signal and the standing mandate a trigger names, where an envelope has a trigger: what they
/// resolve to is what the trigger is judged by.
pub fn trigger_refs(env: &Json) -> (r: Option<(Option<&str>, Option<&str>)>)
    ensures
        match env@.get("trigger"@) {
            Some(t) => r matches Some((signal, mandate)) && crate::text::opt_text(signal)
                == t.text_at("signal-ref"@) && crate::text::opt_text(mandate) == t.text_at(
                "standing-mandate-ref"@,
            ),
            None => r is None,
        },
{
    match env.get("trigger") {
        Some(t) => Some((t.text_at("signal-ref"), t.text_at("standing-mandate-ref"))),
        None => None,
    }
}

// -- laws -------------------------------------------------------------------------------------

/// No action of an aggregate is diluted by the others: the class in force weighs at least as much
/// as that of each of them, and the declared class at least as much as the one in force.
pub proof fn lemma_no_class_is_diluted(env: Doc, facts: EffectFacts, i: int)
    requires
        effective_class(env, facts) is Ok,
        0 <= i < facts.classes@.len(),
    ensures
        weight(facts.classes@[i]@) <= weight(effective_class(env, facts)->Ok_0),
        weight(effective_class(env, facts)->Ok_0) <= weight(said(env, "classification"@)),
{
    lemma_heaviest(texts(facts.classes@), facts.classes@.len() as int, i);
}

proof fn lemma_heaviest(classes: Seq<Seq<char>>, upto: int, i: int)
    requires
        0 <= i < upto <= classes.len(),
    ensures
        weight(classes[i]) <= weight(heaviest(classes, upto)),
    decreases upto,
{
    reveal_strlit("read");
    reveal_strlit("benign");
    reveal_strlit("consequential");
    reveal_strlit("prohibited");
    if i < upto - 1 {
        lemma_heaviest(classes, upto - 1, i);
    }
}

/// There is no ambient approval: an effect that reports something done, of a class that policy
/// gates or that only roots approve, is accepted only with an authorization that it carries and an
/// approval that was verified, and uses it up.
pub proof fn lemma_gated_effects_carry_a_verified_approval(
    env: Doc,
    payloads: Seq<Doc>,
    roots: Seq<Root>,
    signer: Seq<char>,
    facts: EffectFacts,
)
    requires
        effect_written(env, payloads, roots, signer, facts) is Ok,
        is_applied(env),
        facts.rule is Gate || is_root_approved(env),
    ensures
        env.get("authorization"@) is Some,
        facts.verdict matches Ok(Some(ok)) && effect_written(
            env,
            payloads,
            roots,
            signer,
            facts,
        )->Ok_0.gate_use == Some(used(env, ok)),
{
}

/// Policy cannot lower the bar on the mechanism that enforces policy: what only roots approve is
/// asked of the enrolled roots, and must be approved once applied, whatever the rule.
pub proof fn lemma_policy_cannot_lower_the_bar(env: Doc, rule: GateRule, roots: Seq<Root>)
    requires
        is_root_approved(env),
    ensures
        may_approve(env, rule, roots) == Ok::<Seq<Permitted>, Fault>(all_roots(roots)),
        must_be_approved(env, rule) == is_applied(env),
{
}

/// A denial never accompanies an applied effect, and what was never applied uses up no approval.
pub proof fn lemma_denials_and_approvals_are_not_spent_on_nothing(
    env: Doc,
    payloads: Seq<Doc>,
    roots: Seq<Root>,
    signer: Seq<char>,
    facts: EffectFacts,
)
    requires
        effect_written(env, payloads, roots, signer, facts) is Ok,
    ensures
        facts.verdict is Err ==> !is_applied(env),
        !is_applied(env) ==> effect_written(env, payloads, roots, signer, facts)->Ok_0.gate_use
            is None,
{
}

/// A violation is recorded and not refused: what was prohibited and applied all the same is
/// accepted on the same terms as anything else, and flagged.
pub proof fn lemma_violations_are_confessed(
    env: Doc,
    payloads: Seq<Doc>,
    roots: Seq<Root>,
    signer: Seq<char>,
    facts: EffectFacts,
)
    requires
        effect_written(env, payloads, roots, signer, facts) is Ok,
        is_applied(env),
    ensures
        ({
            let w = effect_written(env, payloads, roots, signer, facts)->Ok_0;
            &&& w.effective_class == Some("prohibited"@) ==> w.policy_violation == Some(
                "prohibited-applied"@,
            )
            &&& w.effective_class != Some("prohibited"@) && facts.rule is Deny
                ==> w.policy_violation == Some("policy-denied-applied"@)
        }),
{
}

/// A budget never refuses: whether a cap has room changes what is flagged and nothing else, and
/// the charge reaches every mandate of the line.
pub proof fn lemma_budgets_flag_and_charge(env: Doc, line: Vec<Charged>)
    requires
        accrual(env).len() > 0,
        env.text_at("mandate-ref"@) is Some,
        line_fault(line@, 0) is None,
    ensures
        charge(env, Ok(line)) matches Ok((over, Some(spend))) && spend.amounts == accrual(env)
            && spend.mandates == charged_ids(line@) && over == overspends(
            line@,
            accrual(env),
            line@.len() as int,
        ),
{
}

/// What was done must have been approved, whether it succeeded or not: under a rule that gates its
/// class an effect that says `applied`, that says `failed` or that does not say how it came out,
/// and any aggregate, must be approved, and without an authorization nothing of it is written. An
/// effect with any other outcome need not be.
pub proof fn lemma_what_was_done_must_be_approved(
    env: Doc,
    payloads: Seq<Doc>,
    roots: Seq<Root>,
    signer: Seq<char>,
    facts: EffectFacts,
)
    ensures
        ({
            let outcome = env.at("execution"@).at("outcome"@);
            let done = {
                ||| outcome == Doc::Text("applied"@)
                ||| outcome == Doc::Text("failed"@)
                ||| !(outcome is Text)
                ||| env.at("kind"@) == Doc::Text("aggregate"@)
            };
            &&& is_applied(env) == done
            &&& facts.rule is Gate ==> must_be_approved(env, facts.rule) == done
            &&& must_be_approved(env, facts.rule) ==> done
            &&& facts.rule is Gate && done && env.get("authorization"@) is None ==> effect_written(
                env,
                payloads,
                roots,
                signer,
                facts,
            ) is Err
            &&& !done && facts.verdict == Ok::<Option<GateOk>, Error>(None) ==> (gate_outcome(
                env,
                roots,
                facts,
            ) is Err ==> may_approve(env, facts.rule, roots) is Err || (env.get(
                "authorization"@,
            ) is Some && embedded_fault(
                env.at("authorization"@),
                facts.request_hash,
            ) is Some) || facts.seen is Err)
        }),
{
}

/// What only enrolled roots approve: to publish a policy, to register a component, to enrol or
/// retire a root, to run the conformance suite and to resume a stream, by whatever kind of
/// envelope, and any change of policy. It is asked of every enrolled root and of nobody else, and
/// once it was done it must have been approved under every rule.
pub proof fn lemma_what_roots_approve(env: Doc, rule: GateRule, roots: Seq<Root>)
    ensures
        ({
            let action = env.at("execution"@).at("action"@);
            let outcome = env.at("execution"@).at("outcome"@);
            let theirs = {
                ||| action == Doc::Text("kernel.publish_policy"@)
                ||| action == Doc::Text("kernel.register_component"@)
                ||| action == Doc::Text("kernel.enroll_root"@)
                ||| action == Doc::Text("kernel.retire_root"@)
                ||| action == Doc::Text("kernel.conformance_run"@)
                ||| action == Doc::Text("kernel.resume_stream"@)
                ||| env.at("kind"@) == Doc::Text("policy-change"@)
            };
            &&& is_root_approved(env) == theirs
            &&& theirs ==> (may_approve(env, rule, roots) matches Ok(keys) && keys.len()
                == roots.len() && forall|i: int|
                0 <= i < roots.len() ==> (#[trigger] keys[i]).key == roots[i].key@)
            &&& theirs && (outcome == Doc::Text("applied"@) || outcome == Doc::Text("failed"@) || !(
            outcome is Text)) ==> must_be_approved(env, rule)
            &&& !theirs && !(rule is Gate) ==> !must_be_approved(env, rule)
        }),
{
    let names = ROOT_APPROVED_ACTIONS@;
    let action = or_empty(executed(env, "action"@));
    reveal_strlit("kernel.publish_policy");
    reveal_strlit("kernel.register_component");
    reveal_strlit("kernel.enroll_root");
    reveal_strlit("kernel.retire_root");
    reveal_strlit("kernel.conformance_run");
    reveal_strlit("kernel.resume_stream");
    assert(names[0]@ == "kernel.publish_policy"@);
    assert(names[1]@ == "kernel.register_component"@);
    assert(names[2]@ == "kernel.enroll_root"@);
    assert(names[3]@ == "kernel.retire_root"@);
    assert(names[4]@ == "kernel.conformance_run"@);
    assert(names[5]@ == "kernel.resume_stream"@);
    if named(names, action) {
        let i = choose|i: int| 0 <= i < names.len() && #[trigger] names[i]@ == action;
        assert(action.len() > 0);
        assert(i == 0 || i == 1 || i == 2 || i == 3 || i == 4 || i == 5);
    }
}

/// Classes weigh more from `read` over `benign` and `consequential` to `prohibited`, and what is no
/// class weighs less than any.
pub proof fn lemma_classes_weigh_in_order(other: Seq<char>)
    requires
        other != "read"@,
        other != "benign"@,
        other != "consequential"@,
        other != "prohibited"@,
    ensures
        weight(other) < weight("read"@) < weight("benign"@) < weight("consequential"@) < weight(
            "prohibited"@,
        ),
        weight(other) == 0,
        weight("prohibited"@) == 4,
{
    reveal_strlit("read");
    reveal_strlit("benign");
    reveal_strlit("consequential");
    reveal_strlit("prohibited");
    assert("read"@.len() == 4);
    assert("benign"@.len() == 6);
    assert("consequential"@.len() == 13);
    assert("prohibited"@.len() == 10);
}

/// The heaviest is one of them.
proof fn lemma_heaviest_is_one(classes: Seq<Seq<char>>, upto: int) -> (r: int)
    requires
        0 < upto <= classes.len(),
    ensures
        0 <= r < upto,
        heaviest(classes, upto) == classes[r],
    decreases upto,
{
    if upto == 1 {
        assert(heaviest(classes, 0).len() == 0);
        0
    } else {
        let r = lemma_heaviest_is_one(classes, upto - 1);
        if heaviest(classes, upto) == classes[upto - 1] {
            upto - 1
        } else {
            r
        }
    }
}

/// The class in force is one that policy gave, none that it gave weighs more, and a component may
/// claim exactly the classes that weigh as much as every one of them.
pub proof fn lemma_the_class_in_force_is_the_heaviest(env: Doc, facts: EffectFacts)
    requires
        asks(env) is Ok,
        facts.manifest is Ok,
        facts.classes@.len() > 0,
    ensures
        effective_class(env, facts) is Ok <==> forall|i: int|
            0 <= i < facts.classes@.len() ==> weight((#[trigger] facts.classes@[i])@) <= weight(
                or_empty(env.text_at("classification"@)),
            ),
        effective_class(env, facts) matches Ok(class) ==> {
            &&& exists|i: int| 0 <= i < facts.classes@.len() && (#[trigger] facts.classes@[i])@ == class
            &&& forall|i: int|
                0 <= i < facts.classes@.len() ==> weight((#[trigger] facts.classes@[i])@) <= weight(
                    class,
                )
        },
        effective_class(env, facts) matches Err(f) ==> f.code
            == "policy-component-override-attempt"@,
{
    let classes = texts(facts.classes@);
    let n = facts.classes@.len() as int;
    let class = heaviest(classes, n);
    let at = lemma_heaviest_is_one(classes, n);
    assert(facts.classes@[at]@ == class);
    assert forall|i: int| 0 <= i < n implies weight((#[trigger] facts.classes@[i])@) <= weight(
        class,
    ) by {
        lemma_heaviest(classes, n, i);
        assert(classes[i] == facts.classes@[i]@);
    }
}

/// What an envelope must be authorized for is all that it reports: each action an aggregate folds,
/// none left out, or the one action and target of any other.
pub proof fn lemma_everything_reported_is_asked_for(env: Doc)
    ensures
        env.at("kind"@) == Doc::Text("aggregate"@) ==> match env.at("counts"@).at("by-action"@) {
            Doc::Record(folded) => if folded.len() == 0 {
                asks(env) is Err
            } else {
                asks(env) matches Ok(requests) && requests.len() == folded.len() && forall|i: int|
                    0 <= i < folded.len() ==> (#[trigger] requests[i]).action == folded[i].0
                        && requests[i].resource == "-"@
            },
            _ => asks(env) is Err,
        },
        env.at("kind"@) != Doc::Text("aggregate"@) ==> match (
            env.at("execution"@).at("action"@),
            env.at("execution"@).at("target"@),
        ) {
            (Doc::Text(action), Doc::Text(target)) => asks(env) matches Ok(requests)
                && requests.len() == 1 && requests[0].action == action && requests[0].resource
                == target,
            _ => asks(env) is Err,
        },
{
}

/// The chain of every request must verify: one that does not, wherever it stands, refuses, and the
/// refusal is that of the first.
pub proof fn lemma_every_chain_must_verify(env: Doc, facts: EffectFacts)
    ensures
        reached(env, facts) is Ok <==> env.at("mandate-ref"@) is Text && facts.ancestry is Ok
            && forall|i: int| 0 <= i < facts.chains@.len() ==> (#[trigger] facts.chains@[i]) is Ok,
        forall|i: int|
            0 <= i < facts.chains@.len() && (#[trigger] facts.chains@[i]) is Err && env.at(
                "mandate-ref"@,
            ) is Text && facts.ancestry is Ok && (forall|j: int|
                0 <= j < i ==> (#[trigger] facts.chains@[j]) is Ok) ==> reached(env, facts) == Err::<
                Option<Seq<char>>,
                Fault,
            >(facts.chains@[i]->Err_0@),
        reached(env, facts) is Ok && facts.chains@.len() > 0 ==> reached(env, facts)->Ok_0 == Some(
            facts.chains@[facts.chains@.len() - 1]->Ok_0@,
        ),
{
    lemma_broken_chain(facts.chains@, 0);
    assert forall|i: int|
        0 <= i < facts.chains@.len() && (#[trigger] facts.chains@[i]) is Err && env.at(
            "mandate-ref"@,
        ) is Text && facts.ancestry is Ok && (forall|j: int|
            0 <= j < i ==> (#[trigger] facts.chains@[j]) is Ok) implies reached(env, facts) == Err::<
        Option<Seq<char>>,
        Fault,
    >(facts.chains@[i]->Err_0@) by {
        let k = choose|k: int|
            0 <= k < facts.chains@.len() && (#[trigger] facts.chains@[k]) is Err && broken_chain(
                facts.chains@,
                0,
            ) == Some(facts.chains@[k]->Err_0@) && forall|j: int|
                0 <= j < k ==> (#[trigger] facts.chains@[j]) is Ok;
        if i < k {
            assert(facts.chains@[i] is Ok);
        } else if k < i {
            assert(facts.chains@[k] is Ok);
        }
    }
}

proof fn lemma_broken_chain(chains: Seq<Result<String, Error>>, from: int)
    requires
        0 <= from <= chains.len(),
    ensures
        match broken_chain(chains, from) {
            None => forall|j: int| from <= j < chains.len() ==> (#[trigger] chains[j]) is Ok,
            Some(f) => exists|k: int|
                from <= k < chains.len() && (#[trigger] chains[k]) is Err && f
                    == chains[k]->Err_0@ && forall|j: int|
                    from <= j < k ==> (#[trigger] chains[j]) is Ok,
        },
    decreases chains.len() - from,
{
    if from < chains.len() {
        if chains[from] is Ok {
            lemma_broken_chain(chains, from + 1);
        } else {
            assert(chains[from] is Err);
        }
    }
}

/// A line can be read where every mandate of it can, and the spending of each that has a budget.
proof fn lemma_line_fault(line: Seq<Charged>, from: int)
    requires
        0 <= from <= line.len(),
    ensures
        line_fault(line, from) is None <==> forall|i: int|
            from <= i < line.len() ==> {
                &&& (#[trigger] line[i]).mandate is Ok
                &&& (line[i].mandate matches Ok(Some(m)) && m@.get("budget"@) is Some)
                    ==> line[i].spent is Ok
            },
    decreases line.len() - from,
{
    if from < line.len() {
        lemma_line_fault(line, from + 1);
        let first = line[from];
        if !(first.mandate is Err || (first.mandate matches Ok(Some(m)) && m@.get("budget"@) is Some
            && first.spent is Err)) {
            assert(line_fault(line, from) == line_fault(line, from + 1));
        }
    }
}

/// A budget caps a mandate and everything delegated beneath it: where the line can be read and
/// something accrues, the charge is flagged exactly where the budget of any mandate of the line,
/// however far up, has no room for it. The accrual is charged to every mandate of the line.
pub proof fn lemma_any_budget_of_the_line_flags(env: Doc, line: Vec<Charged>)
    requires
        accrual(env).len() > 0,
        env.at("mandate-ref"@) is Text,
        forall|i: int|
            0 <= i < line@.len() ==> {
                &&& (#[trigger] line@[i]).mandate is Ok
                &&& (line@[i].mandate matches Ok(Some(m)) && m@.get("budget"@) is Some)
                    ==> line@[i].spent is Ok
            },
    ensures
        charge(env, Ok(line)) matches Ok((flagged, Some(spend))) && {
            &&& flagged <==> exists|i: int|
                0 <= i < line@.len() && ((#[trigger] line@[i]).mandate matches Ok(Some(m))
                    && m@.get("budget"@) is Some && over_budget(
                    m@.at("budget"@),
                    figures(line@[i].spent->Ok_0@),
                    accrual(env),
                ).len() > 0)
            &&& spend.amounts == accrual(env)
            &&& spend.mandates.len() == line@.len()
            &&& forall|i: int| 0 <= i < line@.len() ==> #[trigger] spend.mandates[i] == line@[i].id@
        },
{
    lemma_line_fault(line@, 0);
    let adding = accrual(env);
    if exists|i: int|
        0 <= i < line@.len() && ((#[trigger] line@[i]).mandate matches Ok(Some(m)) && m@.get(
            "budget"@,
        ) is Some && over_budget(
            m@.at("budget"@),
            figures(line@[i].spent->Ok_0@),
            adding,
        ).len() > 0) {
        let i = choose|i: int|
            0 <= i < line@.len() && ((#[trigger] line@[i]).mandate matches Ok(Some(m)) && m@.get(
                "budget"@,
            ) is Some && over_budget(
                m@.at("budget"@),
                figures(line@[i].spent->Ok_0@),
                adding,
            ).len() > 0);
        assert(lacks_room(line@[i], adding));
    }
}

/// A budget that cannot be read is an error and never room: where something accrues, a line with
/// any mandate or any capped spending that could not be learned charges nothing.
pub proof fn lemma_an_unread_line_charges_nothing(env: Doc, line: Vec<Charged>, i: int)
    requires
        accrual(env).len() > 0,
        env.at("mandate-ref"@) is Text,
        0 <= i < line@.len(),
        line@[i].mandate is Err || (line@[i].mandate matches Ok(Some(m)) && m@.get("budget"@)
            is Some && line@[i].spent is Err),
    ensures
        charge(env, Ok(line)) is Err,
{
    lemma_line_fault(line@, 0);
    assert(!(line@[i].mandate is Ok) || line@[i].spent is Err);
}

/// What policy did not permit and was done all the same is confessed, in the order in which policy
/// judges; what was not done confesses to nothing but what it spent; and where nothing was amiss
/// there is no confession.
pub proof fn lemma_what_is_confessed(env: Doc, class: Seq<char>, rule: GateRule, over: bool)
    ensures
        ({
            let outcome = env.at("execution"@).at("outcome"@);
            let done = {
                ||| outcome == Doc::Text("applied"@)
                ||| outcome == Doc::Text("failed"@)
                ||| !(outcome is Text)
                ||| env.at("kind"@) == Doc::Text("aggregate"@)
            };
            let confessed = confession(env, class, rule, over);
            &&& class == "prohibited"@ && done ==> confessed == Some("prohibited-applied"@)
            &&& class != "prohibited"@ && rule is Deny && done ==> confessed == Some(
                "policy-denied-applied"@,
            )
            &&& (!done || class != "prohibited"@ && !(rule is Deny)) ==> confessed == if over {
                Some("x-budget-exceeded-applied"@)
            } else {
                None
            }
        }),
{
}

/// Each kind of change comes of its own kind of envelope or action and of no other.
pub proof fn lemma_what_an_effect_changes(
    env: Doc,
    payloads: Seq<Doc>,
    roots: Seq<Root>,
    signer: Seq<char>,
    facts: EffectFacts,
)
    ensures
        effect_changes(env, payloads, roots, signer, facts) matches Ok(changes) ==> {
            let action = env.at("execution"@).at("action"@);
            &&& changes.policy is Some <==> env.at("kind"@) == Doc::Text("policy-change"@)
            &&& changes.manifest is Some <==> action == Doc::Text("kernel.register_component"@)
            &&& changes.root is Some <==> action == Doc::Text("kernel.enroll_root"@) || action
                == Doc::Text("kernel.retire_root"@)
            &&& changes.stream_resume is Some <==> action == Doc::Text("kernel.resume_stream"@)
            &&& env.get("trigger"@) is Some ==> facts.trigger is Ok
            &&& env.at("kind"@) == Doc::Text("aggregate"@) ==> {
                let from = env.at("window"@).at("from"@);
                let to = env.at("window"@).at("to"@);
                &&& from is Text && to is Text && !precedes(to->Text_0, from->Text_0)
                &&& shifted(from->Text_0, facts.max_window_seconds as int) matches Ok(ceiling)
                    && !precedes(ceiling, to->Text_0)
            }
        },
{
}

/// Whatever is written of an effect was classified, traced to a human for every request, gated and
/// charged: a failure of any of these, and nothing is written.
pub proof fn lemma_effects_are_written_whole(
    env: Doc,
    payloads: Seq<Doc>,
    roots: Seq<Root>,
    signer: Seq<char>,
    facts: EffectFacts,
)
    ensures
        match effect_written(env, payloads, roots, signer, facts) {
            Ok(w) => {
                &&& effective_class(env, facts) matches Ok(class) && w.effective_class == Some(
                    class,
                )
                &&& reached(env, facts) == Ok::<Option<Seq<char>>, Fault>(w.human_root)
                &&& effect_changes(env, payloads, roots, signer, facts) == Ok::<Changes, Fault>(
                    w.projections,
                )
                &&& gate_outcome(env, roots, facts) == Ok::<Option<Use>, Fault>(w.gate_use)
                &&& charge(env, facts.line) matches Ok((over, spend)) && w.spend == spend
                    && w.policy_violation == confession(
                    env,
                    w.effective_class->0,
                    facts.rule,
                    over,
                )
                &&& kept_payloads(
                    env,
                    payloads,
                    facts.canonical@,
                    Some((w.effective_class->0, facts.retention)),
                ) matches Ok(rows) && w.payloads == rows
            },
            Err(f) => {
                ||| effective_class(env, facts) is Err
                ||| reached(env, facts) is Err
                ||| effect_changes(env, payloads, roots, signer, facts) is Err
                ||| gate_outcome(env, roots, facts) is Err
                ||| charge(env, facts.line) is Err
                ||| kept_payloads(
                    env,
                    payloads,
                    facts.canonical@,
                    Some((effective_class(env, facts)->Ok_0, facts.retention)),
                ) is Err
            },
        },
{
}

/// An approval is used up exactly by what was done: a verified approval that accompanies it is
/// recorded as used, under the request it approves and the key that gave it, and one that
/// accompanies anything else is not. A signed denial accompanies only what was never done.
pub proof fn lemma_approvals_are_used_by_what_was_done(
    env: Doc,
    roots: Seq<Root>,
    facts: EffectFacts,
)
    ensures
        gate_outcome(env, roots, facts) matches Ok(used_up) ==> {
            let outcome = env.at("execution"@).at("outcome"@);
            let done = {
                ||| outcome == Doc::Text("applied"@)
                ||| outcome == Doc::Text("failed"@)
                ||| !(outcome is Text)
                ||| env.at("kind"@) == Doc::Text("aggregate"@)
            };
            match facts.verdict {
                Ok(Some(ok)) => if done {
                    used_up matches Some(u) && u.request_hash == ok.request_hash@ && u.decided_by
                        == ok.decided_by@ && u.single_use == ok.single_use && u.not_after
                        == match env.at("authorization"@).at("decision"@).at("not-after"@) {
                        Doc::Text(t) => t,
                        _ => or_empty(env.text_at("emitted-at"@)),
                    }
                } else {
                    used_up is None
                },
                Ok(None) => used_up is None && !(done && facts.rule is Gate),
                Err(e) => used_up is None && !done && e@.code == "gate-denied"@,
            }
        },
{
}

/// The window of an aggregate is right exactly where it has both ends, does not end before it begins
/// and ends no later than policy lets it last.
pub proof fn lemma_which_windows_are_right(env: Doc, max_seconds: int)
    ensures
        window_fault(env, max_seconds) is None <==> {
            let from = env.at("window"@).at("from"@);
            let to = env.at("window"@).at("to"@);
            &&& from is Text && to is Text
            &&& !precedes(to->Text_0, from->Text_0)
            &&& shifted(from->Text_0, max_seconds) matches Ok(ceiling) && !precedes(
                ceiling,
                to->Text_0,
            )
        },
        window_fault(env, max_seconds) matches Some(f) ==> {
            let from = env.at("window"@).at("from"@);
            let to = env.at("window"@).at("to"@);
            &&& from is Text && to is Text && precedes(to->Text_0, from->Text_0) ==> f.code
                == "aggregate-window-inverted"@
            &&& from is Text && to is Text && !precedes(to->Text_0, from->Text_0) && shifted(
                from->Text_0,
                max_seconds,
            ) is Ok ==> f.code == "aggregate-window-too-long"@
        },
{
}

/// Whatever was made of its absence, an authorization that is missing is refused as missing.
pub proof fn lemma_what_is_missing_is_refused_as_missing(
    verdict: Result<Option<GateOk>, Error>,
    detail: Seq<char>,
)
    ensures
        unapproved(verdict, detail).code == "gate-authorization-missing"@,
        verdict is Ok ==> unapproved(verdict, detail).detail == detail,
{
}

/// A mandate is asked for what a request is about, by the component that acts, at the class that the
/// envelope declares; and where the envelope folds many, at `read`.
pub proof fn lemma_what_a_mandate_is_asked_for(r: MandateRequest, env: Doc, request: Asked)
    requires
        asks_mandate(r, env, request),
    ensures
        r.action@ == request.action,
        r.resource@ == request.resource,
        r.component@ == or_empty(env.at("identity"@).text_at("component"@)),
        env.at("kind"@) == Doc::Text("aggregate"@) ==> r.classification@ == "read"@,
        env.at("kind"@) != Doc::Text("aggregate"@) ==> r.classification@ == or_empty(
            env.text_at("classification"@),
        ),
{
}

/// Nothing is charged, and nothing flagged, exactly where nothing accrues or no mandate is cited;
/// and where something is charged, a line that could not be had is an error.
pub proof fn lemma_when_nothing_is_charged(env: Doc, line: Result<Vec<Charged>, Error>)
    ensures
        accrual(env).len() == 0 || !(env.at("mandate-ref"@) is Text) ==> charge(env, line) == Ok::<
            (bool, Option<Spend>),
            Fault,
        >((false, None)),
        accrual(env).len() > 0 && env.at("mandate-ref"@) is Text && line is Err ==> charge(env, line)
            == Err::<(bool, Option<Spend>), Fault>(line->Err_0@),
        charge(env, line) matches Ok((_, spend)) ==> (spend is Some <==> accrual(env).len() > 0
            && env.at("mandate-ref"@) is Text),
{
}

/// An envelope passes exactly where it could be told who may approve it, an authorization that it
/// carries is well formed and its use could be looked up, and the approval it needs was verified; or
/// it needs none and has none; or it was denied and never done.
pub proof fn lemma_when_an_envelope_passes(env: Doc, roots: Seq<Root>, facts: EffectFacts)
    ensures
        gate_outcome(env, roots, facts) is Ok <==> {
            let outcome = env.at("execution"@).at("outcome"@);
            let done = {
                ||| outcome == Doc::Text("applied"@)
                ||| outcome == Doc::Text("failed"@)
                ||| !(outcome is Text)
                ||| env.at("kind"@) == Doc::Text("aggregate"@)
            };
            let needed = done && (facts.rule is Gate || is_root_approved(env));
            &&& may_approve(env, facts.rule, roots) is Ok
            &&& env.get("authorization"@) is Some ==> embedded_fault(
                env.at("authorization"@),
                facts.request_hash,
            ) is None
            &&& env.at("authorization"@).at("decision"@).at("request-hash"@) is Text
                ==> facts.seen is Ok
            &&& needed ==> env.get("authorization"@) is Some
            &&& match facts.verdict {
                Ok(Some(_)) => true,
                Ok(None) => !needed,
                Err(e) => e@.code == "gate-denied"@ && !done,
            }
        },
{
}

/// What an effect changes can be told exactly where everything it takes to change it is in order: the
/// trigger and the window where there is one, each change that its kind and its action make, and the
/// commitment it refers to.
pub proof fn lemma_when_changes_can_be_told(
    env: Doc,
    payloads: Seq<Doc>,
    roots: Seq<Root>,
    signer: Seq<char>,
    facts: EffectFacts,
)
    ensures
        effect_changes(env, payloads, roots, signer, facts) is Ok <==> {
            let action = env.at("execution"@).at("action"@);
            &&& env.get("trigger"@) is Some ==> facts.trigger is Ok
            &&& env.at("kind"@) == Doc::Text("aggregate"@) ==> window_fault(
                env,
                facts.max_window_seconds as int,
            ) is None
            &&& env.at("kind"@) == Doc::Text("policy-change"@) ==> install(
                env,
                payloads,
                facts.policy,
            ) is Ok
            &&& action == Doc::Text("kernel.register_component"@) ==> registration(
                env,
                payloads,
                facts.registration,
            ) is Ok
            &&& action == Doc::Text("kernel.enroll_root"@) || action == Doc::Text(
                "kernel.retire_root"@,
            ) ==> permitted_set_change(env, payloads, roots, signer) is Ok
            &&& action == Doc::Text("kernel.resume_stream"@) ==> resume(env, payloads) is Ok
            &&& commitment_ref_fault(
                env,
                facts.manifest->Ok_0,
                or_empty(env.at("identity"@).text_at("subject"@)),
                facts.history,
            ) is None
        },
        effect_changes(env, payloads, roots, signer, facts) matches Ok(changes) ==> {
            &&& changes.policy matches Some(p) ==> install(env, payloads, facts.policy) == Ok::<
                crate::ingest::changes::Install,
                Fault,
            >(p)
            &&& changes.manifest matches Some(m) ==> registration(env, payloads, facts.registration)
                == Ok::<crate::ingest::changes::Registered, Fault>(m)
            &&& changes.root matches Some(r) ==> permitted_set_change(env, payloads, roots, signer)
                == Ok::<crate::ingest::changes::SetChange, Fault>(r)
            &&& changes.stream_resume matches Some(s) ==> resume(env, payloads) == Ok::<
                crate::ingest::changes::Resume,
                Fault,
            >(s)
            &&& changes.mandate is None && changes.revocation is None && changes.gate_decision
                is None && changes.checkpoint is None
        },
{
}

} // verus!
