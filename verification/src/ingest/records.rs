//! The records that carry no effect: grants, revocations, decisions and checkpoints; and the
//! payloads an envelope brings.

use vstd::prelude::*;
use vstd::string::*;

use crate::clock::{bad_timestamp, is_timestamp, parse_timestamp};
use crate::codes::CHECKPOINT_STREAM_UNKNOWN;
use crate::config::opt_string;
use crate::crypto::{bytes_of_hex, hex_complaint, hex_decode, is_hex_text};
use crate::error::{fault, refusal, settles, Error, Fault};
use crate::gatequeue::{
    check_decision, decision_fault, recorded_reason, request_fault, said, validate, GateDecision,
};
use crate::ingest::approvers::{
    acting_subject, all_roots, approves, is_approver, is_enrolled, is_root, permitted,
    root_approvers, subject_of, GateRule, Permitted, Root,
};
use crate::ingest::plan::{Answer, Attested, CheckpointRow, Entry, PayloadRow, Recorded, Stored};
use crate::json::{docs, is_text, stranger, unknown_member, Doc, Json};
use crate::keys::KeyId;
use crate::text::{
    debug_text, decimal, decimal_text, is_before, is_digest, is_digest_hex, join2, join3, join5,
    or_empty, precedes, quoted, same, text_or_empty,
};

verus! {

// -- payloads ---------------------------------------------------------------------------------

/// The media type of a payload held in its canonical form.
pub const JSON_MEDIA_TYPE: &'static str = "application/json";

/// What policy says of keeping the payloads of a class: whether it keeps them at all, and until
/// when at most, seen from when the envelope was emitted.
#[derive(Debug)]
pub struct Retention {
    /// Whether payloads of the class are stored.
    pub stores: bool,
    /// Until when at most.
    pub ceiling: Result<String, Error>,
}

/// Until when the section that commits to a payload says it is kept: the evidence, or else the
/// signal.
pub open spec fn retained_until(env: Doc, hash: Seq<char>) -> Option<Seq<char>> {
    if env.at("evidence"@).text_at("payload-hash"@) == Some(hash) {
        env.at("evidence"@).text_at("retain-until"@)
    } else if env.at("signal"@).text_at("payload-hash"@) == Some(hash) {
        env.at("signal"@).text_at("retain-until"@)
    } else {
        None
    }
}

/// Until when the section that commits to a payload says it is kept.
pub fn retain_until_for(env: &Json, hash: &str) -> (r: Option<String>)
    ensures
        opt_string(r) == retained_until(env@, hash@),
{
    let kept = if is_text(env.at("evidence").at("payload-hash"), hash) {
        env.at("evidence").text_at("retain-until")
    } else if is_text(env.at("signal").at("payload-hash"), hash) {
        env.at("signal").text_at("retain-until")
    } else {
        None
    };
    match kept {
        Some(s) => Some(s.to_owned()),
        None => None,
    }
}

/// What storing a payload comes to: its bytes, in canonical form where it is JSON and out of
/// hexadecimal where it is not, until the section that commits to it says, or not past emission.
pub open spec fn payload_row(
    env: Doc,
    payload: Doc,
    canonical: Result<String, Error>,
) -> Result<Stored, Fault> {
    let hash = payload.text_at("payload-hash"@);
    let media_type = payload.text_at("media-type"@);
    let body = or_empty(payload.text_at("payload"@));
    let kept = match retained_until(env, hash->0) {
        Some(t) => t,
        None => or_empty(env.text_at("emitted-at"@)),
    };
    if hash is None {
        Err(fault("schema-missing-member"@, "payloads[].payload-hash"@))
    } else if media_type is None {
        Err(fault("schema-missing-member"@, "payloads[].media-type"@))
    } else if media_type->0 == JSON_MEDIA_TYPE@ {
        match canonical {
            Err(e) => Err(e@),
            Ok(text) => Ok(
                Stored {
                    payload_hash: hash->0,
                    media_type: media_type->0,
                    bytes: vstd::utf8::encode_utf8(text@),
                    retain_until: kept,
                },
            ),
        }
    } else if !is_hex_text(body) {
        Err(
            fault("encoding-not-lowercase-hex"@, "payloads[].payload: "@ + hex_complaint(body)),
        )
    } else {
        Ok(
            Stored {
                payload_hash: hash->0,
                media_type: media_type->0,
                bytes: bytes_of_hex(body),
                retain_until: kept,
            },
        )
    }
}

fn read_payload(env: &Json, payload: &Json, canonical: &Result<String, Error>) -> (r: Result<
    PayloadRow,
    Error,
>)
    ensures
        match payload_row(env@, payload@, *canonical) {
            Ok(row) => r matches Ok(v) && v@ == row,
            Err(f) => r matches Err(e) && e@ == f,
        },
{
    let hash = match payload.text_at("payload-hash") {
        Some(hash) => hash,
        None => {
            return Err(refusal("schema-missing-member", "payloads[].payload-hash"));
        },
    };
    let media_type = match payload.text_at("media-type") {
        Some(media_type) => media_type,
        None => {
            return Err(refusal("schema-missing-member", "payloads[].media-type"));
        },
    };
    let bytes: Vec<u8> = if same(media_type, JSON_MEDIA_TYPE) {
        match canonical {
            Ok(text) => text.as_str().as_bytes_vec(),
            Err(e) => {
                return Err(e.copy());
            },
        }
    } else {
        match hex_decode(text_or_empty(payload.text_at("payload"))) {
            Ok(bytes) => bytes,
            Err(complaint) => {
                return Err(
                    Error::new(
                        "encoding-not-lowercase-hex",
                        join2("payloads[].payload: ", complaint.as_str()),
                    ),
                );
            },
        }
    };
    let retain_until = match retain_until_for(env, hash) {
        Some(t) => t,
        None => text_or_empty(env.text_at("emitted-at")).to_owned(),
    };
    Ok(
        PayloadRow {
            payload_hash: hash.to_owned(),
            media_type: media_type.to_owned(),
            bytes,
            retain_until,
        },
    )
}

/// What is wrong with how long an envelope wants its evidence kept: no longer than policy allows.
pub open spec fn retention_fault(
    env: Doc,
    class: Seq<char>,
    ceiling: Result<String, Error>,
) -> Option<Fault> {
    let claimed = env.at("evidence"@).text_at("retain-until"@);
    if claimed is None {
        Some(fault("schema-missing-member"@, "evidence.retain-until"@))
    } else if let Err(e) = ceiling {
        Some(e@)
    } else if precedes(ceiling->Ok_0@, claimed->0) {
        Some(
            fault(
                "evidence-retention-too-long"@,
                "retain-until "@ + claimed->0 + " exceeds the policy ceiling "@ + ceiling->Ok_0@
                    + " for "@ + class,
            ),
        )
    } else {
        None
    }
}

/// The refusal of the first payload, from a place on, that cannot be stored.
pub open spec fn payloads_fault(
    env: Doc,
    payloads: Seq<Doc>,
    canonical: Seq<Result<String, Error>>,
    from: int,
) -> Option<Fault>
    decreases payloads.len() - from,
{
    if from >= payloads.len() {
        None
    } else if let Err(f) = payload_row(env, payloads[from], canonical[from]) {
        Some(f)
    } else {
        payloads_fault(env, payloads, canonical, from + 1)
    }
}

/// The payloads to store with an envelope, given what policy says of its class where it has one,
/// and each payload's canonical form. Where policy keeps nothing of the class, nothing is stored
/// and nothing is refused.
pub open spec fn kept_payloads(
    env: Doc,
    payloads: Seq<Doc>,
    canonical: Seq<Result<String, Error>>,
    class: Option<(Seq<char>, Retention)>,
) -> Result<Seq<Stored>, Fault> {
    let (name, retention) = class->0;
    let judged = class is Some && env.get("evidence"@) is Some;
    if judged && !retention.stores {
        Ok(Seq::empty())
    } else if judged && retention_fault(env, name, retention.ceiling) is Some {
        Err(retention_fault(env, name, retention.ceiling)->0)
    } else if let Some(f) = payloads_fault(env, payloads, canonical, 0) {
        Err(f)
    } else {
        Ok(
            Seq::new(
                payloads.len(),
                |i: int| payload_row(env, payloads[i], canonical[i])->Ok_0,
            ),
        )
    }
}

/// A class and what policy says of it.
pub open spec fn class_retention(class: Option<(&str, &Retention)>) -> Option<
    (Seq<char>, Retention),
> {
    match class {
        Some((name, retention)) => Some((name@, *retention)),
        None => None,
    }
}

/// Prepares the payloads of an envelope for storage, refusing a retention beyond what policy
/// allows.
pub fn collect_payloads(
    env: &Json,
    payloads: &Vec<Json>,
    canonical: &Vec<Result<String, Error>>,
    class: Option<(&str, &Retention)>,
) -> (r: Result<Vec<PayloadRow>, Error>)
    requires
        canonical@.len() == payloads@.len(),
    ensures
        match kept_payloads(env@, docs(payloads@), canonical@, class_retention(class)) {
            Ok(rows) => r matches Ok(v) && crate::ingest::plan::stored(v@) == rows,
            Err(f) => r matches Err(e) && e@ == f,
        },
{
    let mut out: Vec<PayloadRow> = Vec::new();
    assert(crate::ingest::plan::stored(out@) =~= Seq::empty());
    if let Some((name, retention)) = class {
        if env.get("evidence").is_some() {
            if !retention.stores {
                return Ok(out);
            }
            let claimed = match env.at("evidence").text_at("retain-until") {
                Some(claimed) => claimed,
                None => {
                    return Err(refusal("schema-missing-member", "evidence.retain-until"));
                },
            };
            match &retention.ceiling {
                Err(e) => {
                    return Err(e.copy());
                },
                Ok(ceiling) => {
                    if is_before(ceiling.as_str(), claimed) {
                        let mut detail = join5(
                            "retain-until ",
                            claimed,
                            " exceeds the policy ceiling ",
                            ceiling.as_str(),
                            " for ",
                        );
                        detail.push_str(name);
                        return Err(Error::new("evidence-retention-too-long", detail));
                    }
                },
            }
        }
    }
    let ghost all = docs(payloads@);
    let mut i: usize = 0;
    while i < payloads.len()
        invariant
            i <= payloads@.len() == canonical@.len(),
            all == docs(payloads@),
            out@.len() == i,
            payloads_fault(env@, all, canonical@, 0) == payloads_fault(
                env@,
                all,
                canonical@,
                i as int,
            ),
            forall|j: int|
                0 <= j < i ==> Ok::<Stored, Fault>((#[trigger] out@[j])@) == payload_row(
                    env@,
                    all[j],
                    canonical@[j],
                ),
            payloads_fault(env@, all, canonical@, 0) matches Some(f) ==> kept_payloads(
                env@,
                all,
                canonical@,
                class_retention(class),
            ) == Err::<Seq<Stored>, Fault>(f),
        decreases payloads@.len() - i,
    {
        let row = read_payload(env, &payloads[i], &canonical[i])?;
        out.push(row);
        i += 1;
    }
    assert(crate::ingest::plan::stored(out@) =~= Seq::new(
        all.len(),
        |i: int| payload_row(env@, all[i], canonical@[i])->Ok_0,
    ));
    Ok(out)
}

// -- grants -----------------------------------------------------------------------------------

/// What is known of a mandate about to be granted.
#[derive(Debug)]
pub struct GrantFacts {
    /// The mandate it is delegated from, where it names one and the store has it.
    pub parent: Result<Option<Json>, Error>,
    /// What asking policy how long a standing mandate may live came to.
    pub ceiling: Result<String, Error>,
    /// What verifying the grant, against its parent, the roots and that ceiling, came to.
    pub verified: Result<(), Error>,
    /// What identifying the mandate came to.
    pub id: Result<String, Error>,
}

/// The mandate a grant is looked up under: only one that delegates has a parent to be found.
pub open spec fn parent_named(mandate: Doc) -> Option<Seq<char>> {
    if mandate.text_at("mandate-kind"@) == Some("delegated"@) {
        mandate.text_at("parent"@)
    } else {
        None
    }
}

/// The mandate a grant is looked up under.
pub fn parent_of(env: &Json) -> (r: Option<&str>)
    ensures
        crate::text::opt_text(r) == parent_named(env@.at("mandate"@)),
{
    let mandate = env.at("mandate");
    if is_text(mandate.at("mandate-kind"), "delegated") {
        mandate.text_at("parent")
    } else {
        None
    }
}

/// The mandate an envelope grants: a delegated one must have its parent in the store, and what it
/// grants must verify.
pub open spec fn granted(env: Doc, facts: GrantFacts) -> Result<Entry, Fault> {
    let mandate = env.at("mandate"@);
    let parent_ref = parent_named(mandate);
    let delegated = parent_ref is Some;
    if env.get("mandate"@) is None {
        Err(fault("schema-missing-member"@, "mandate"@))
    } else if mandate.text_at("issued-at"@) is None {
        Err(fault("schema-missing-member"@, "mandate.issued-at"@))
    } else if delegated && facts.parent is Err {
        Err(facts.parent->Err_0@)
    } else if delegated && facts.parent->Ok_0 is None {
        Err(fault("mandate-unresolved"@, "no mandate "@ + parent_ref->0))
    } else if let Err(e) = facts.ceiling {
        Err(e@)
    } else if let Err(e) = facts.verified {
        Err(e@)
    } else if let Err(e) = facts.id {
        Err(e@)
    } else {
        Ok(Entry { id: facts.id->Ok_0@, object: mandate })
    }
}

/// Checks the mandate an envelope grants.
pub fn validate_mandate_grant(env: &Json, facts: &GrantFacts) -> (r: Result<Recorded, Error>)
    ensures
        match granted(env@, *facts) {
            Ok(entry) => r matches Ok(v) && v@ == entry,
            Err(f) => r matches Err(e) && e@ == f,
        },
{
    let mandate = match env.get("mandate") {
        Some(mandate) => mandate,
        None => {
            return Err(refusal("schema-missing-member", "mandate"));
        },
    };
    if mandate.text_at("issued-at").is_none() {
        return Err(refusal("schema-missing-member", "mandate.issued-at"));
    }
    if let Some(parent_ref) = parent_of(env) {
        match &facts.parent {
            Err(e) => {
                return Err(e.copy());
            },
            Ok(None) => {
                return Err(Error::new("mandate-unresolved", join2("no mandate ", parent_ref)));
            },
            Ok(Some(_)) => {},
        }
    }
    if let Err(e) = &facts.ceiling {
        return Err(e.copy());
    }
    if let Err(e) = &facts.verified {
        return Err(e.copy());
    }
    match &facts.id {
        Err(e) => Err(e.copy()),
        Ok(id) => Ok(Recorded { id: id.clone(), object: mandate.copy() }),
    }
}

// -- revocations ------------------------------------------------------------------------------

/// What an envelope says of its revocation, and must not say otherwise than the signed object.
pub const REVOCATION_MEMBERS: [&'static str; 3] = ["revokes", "revoked-at", "reason"];

/// What is known of a revocation.
#[derive(Debug)]
pub struct RevocationFacts {
    /// What asking the store for the mandate and its ancestors came to.
    pub ancestry: Result<(), Error>,
    /// What verifying the revocation, against those mandates and the roots, came to.
    pub verified: Result<(), Error>,
    /// What identifying the envelope came to.
    pub id: Result<String, Error>,
}

/// The refusal of the first member, from a place on, on which an envelope and the object it
/// carries disagree.
pub open spec fn disagreement(env: Doc, object: Doc, from: int) -> Option<Fault>
    decreases REVOCATION_MEMBERS@.len() - from,
{
    if from >= REVOCATION_MEMBERS@.len() {
        None
    } else {
        let name = REVOCATION_MEMBERS@[from]@;
        if env.get(name) != object.get(name) {
            Some(
                fault(
                    "revocation-object-mismatch"@,
                    "the envelope's "@ + name + " does not match the signed revocation object"@,
                ),
            )
        } else {
            disagreement(env, object, from + 1)
        }
    }
}

/// The revocation an envelope records: the signed object, which the envelope repeats and may not
/// contradict, naming a mandate and an instant, signed by someone who may revoke it.
pub open spec fn revoked(env: Doc, facts: RevocationFacts) -> Result<Entry, Fault> {
    let object = env.at("revocation"@);
    let target = env.text_at("revokes"@);
    let at = env.text_at("revoked-at"@);
    if env.get("revocation"@) is None {
        Err(fault("schema-missing-member"@, "revocation"@))
    } else if let Some(f) = disagreement(env, object, 0) {
        Err(f)
    } else if target is None {
        Err(fault("schema-missing-member"@, "revokes"@))
    } else if !is_digest(target->0) {
        Err(fault("encoding-not-lowercase-hex"@, "revokes must be a 64-hex mandate id"@))
    } else if at is None {
        Err(fault("schema-missing-member"@, "revoked-at"@))
    } else if !is_timestamp(at->0) {
        Err(bad_timestamp(at->0))
    } else if let Err(e) = facts.ancestry {
        Err(e@)
    } else if let Err(e) = facts.verified {
        Err(e@)
    } else if let Err(e) = facts.id {
        Err(e@)
    } else {
        Ok(Entry { id: facts.id->Ok_0@, object })
    }
}

/// Whether two documents that may be absent are the same.
fn same_member(a: Option<&Json>, b: Option<&Json>) -> (r: bool)
    ensures
        r == (crate::config::opt_doc(a) == crate::config::opt_doc(b)),
{
    match (a, b) {
        (None, None) => true,
        (Some(x), Some(y)) => x.is_same(y),
        _ => false,
    }
}

fn check_agreement(env: &Json, object: &Json) -> (r: Result<(), Error>)
    ensures
        settles(r, disagreement(env@, object@, 0)),
{
    let mut i: usize = 0;
    while i < REVOCATION_MEMBERS.len()
        invariant
            i <= REVOCATION_MEMBERS@.len(),
            disagreement(env@, object@, 0) == disagreement(env@, object@, i as int),
        decreases REVOCATION_MEMBERS@.len() - i,
    {
        let name = REVOCATION_MEMBERS[i];
        if !same_member(env.get(name), object.get(name)) {
            return Err(
                Error::new(
                    "revocation-object-mismatch",
                    join3(
                        "the envelope's ",
                        name,
                        " does not match the signed revocation object",
                    ),
                ),
            );
        }
        i += 1;
    }
    Ok(())
}

/// Checks the revocation an envelope records.
pub fn validate_revocation(env: &Json, facts: &RevocationFacts) -> (r: Result<Recorded, Error>)
    ensures
        match revoked(env@, *facts) {
            Ok(entry) => r matches Ok(v) && v@ == entry,
            Err(f) => r matches Err(e) && e@ == f,
        },
{
    let object = match env.get("revocation") {
        Some(object) => object,
        None => {
            return Err(refusal("schema-missing-member", "revocation"));
        },
    };
    check_agreement(env, object)?;
    let target = match env.text_at("revokes") {
        Some(target) => target,
        None => {
            return Err(refusal("schema-missing-member", "revokes"));
        },
    };
    if !is_digest_hex(target) {
        return Err(
            refusal("encoding-not-lowercase-hex", "revokes must be a 64-hex mandate id"),
        );
    }
    let at = match env.text_at("revoked-at") {
        Some(at) => at,
        None => {
            return Err(refusal("schema-missing-member", "revoked-at"));
        },
    };
    let _instant: i64 = parse_timestamp(at)?;
    if let Err(e) = &facts.ancestry {
        return Err(e.copy());
    }
    if let Err(e) = &facts.verified {
        return Err(e.copy());
    }
    match &facts.id {
        Err(e) => Err(e.copy()),
        Ok(id) => Ok(Recorded { id: id.clone(), object: object.copy() }),
    }
}

// -- decisions --------------------------------------------------------------------------------

/// The class whose rule says who may answer a request that this kernel may never have seen.
pub const DECIDED_CLASS: &'static str = "consequential";

/// What is known of a decision about to be recorded.
#[derive(Debug)]
pub struct DecisionFacts {
    /// What verifying the decision's signature came to: the key that signed it.
    pub signer: Result<KeyId, Error>,
    /// What policy rules for consequential acts.
    pub rule: GateRule,
    /// The request it answers, where this kernel queued it.
    pub request: Result<Option<Json>, Error>,
    /// What hashing that request came to.
    pub request_hash: Result<String, Error>,
    /// The subject that mandates in force grant to the deciding key.
    pub mandated_subject: Result<Option<String>, Error>,
}

/// An optional text as it is named in a refusal.
pub open spec fn shown_option(s: Option<Seq<char>>) -> Seq<char> {
    match s {
        Some(t) => "Some("@ + quoted(t) + ")"@,
        None => "None"@,
    }
}

/// What is wrong with a decision itself: its signature, the request it names, its verdict.
pub open spec fn verdict_fault(
    decision: Doc,
    decision_of: Seq<char>,
    signer: Result<KeyId, Error>,
) -> Option<Fault> {
    let verdict = decision.text_at("decision"@);
    if let Err(e) = signer {
        Some(fault("gate-decision-sig-invalid"@, e@.detail))
    } else if decision.text_at("request-hash"@) != Some(decision_of) {
        Some(
            fault(
                "gate-authorization-request-hash-mismatch"@,
                "decision-of must equal the decision's request-hash"@,
            ),
        )
    } else if verdict == Some("deny"@) && said(decision, "reason"@).len() == 0 {
        Some(fault("gate-denial-without-reason"@, "a denial must state why"@))
    } else if verdict != Some("approve"@) && verdict != Some("deny"@) {
        Some(fault("gate-decision-unknown"@, "decision "@ + shown_option(verdict)))
    } else {
        None
    }
}

/// What recording a decision over a request this kernel queued comes to: bound to that request,
/// and never by the subject that asked.
pub open spec fn bound_answer(
    decision: Doc,
    roots: Seq<Root>,
    facts: DecisionFacts,
    request: Doc,
    at: Seq<char>,
) -> Result<Answer, Fault> {
    let requested_at = match request.text_at("requested-at"@) {
        Some(t) => t,
        None => at,
    };
    let asked = said(request, "subject"@);
    let decider = acting_subject(roots, facts.mandated_subject, facts.signer->Ok_0@);
    if let Some(f) = request_fault(request, requested_at, facts.request_hash) {
        Err(f)
    } else if let Some(f) = decision_fault(
        decision,
        facts.signer,
        facts.request_hash->Ok_0@,
        said(request, "key"@),
        said(request, "not-after"@),
    ) {
        Err(f)
    } else if let Err(f) = decider {
        Err(f)
    } else if decider->Ok_0 == Some(asked) {
        Err(fault("gate-self-approval"@, asked + " decided its own subject's request"@))
    } else {
        Ok(
            Answer {
                request_hash: facts.request_hash->Ok_0@,
                verdict: said(decision, "decision"@),
                reason: recorded_reason(decision),
                decided_by: facts.signer->Ok_0@,
                decided_at: said(decision, "decided-at"@),
                decision,
            },
        )
    }
}

/// What an envelope that records a decision comes to: nothing beside the chain where it carries no
/// decision, or one over a request this kernel never queued; and otherwise the answer to that
/// request. An agent that can approve is a system with no gates: the signer must be an approver.
pub open spec fn decided(
    env: Doc,
    at: Seq<char>,
    roots: Seq<Root>,
    facts: DecisionFacts,
) -> Result<Option<Answer>, Fault> {
    let decision_of = env.text_at("decision-of"@);
    let decision = env.at("decision"@);
    let signer = facts.signer->Ok_0@;
    let approving = facts.rule.approving(roots, ""@, all_roots(roots));
    if decision_of is None {
        Err(fault("schema-missing-member"@, "decision-of"@))
    } else if !is_digest(decision_of->0) {
        Err(
            fault(
                "encoding-not-lowercase-hex"@,
                "decision-of must be a 64-hex request hash"@,
            ),
        )
    } else if env.get("decision"@) is None {
        Ok(None)
    } else if let Some(f) = verdict_fault(decision, decision_of->0, facts.signer) {
        Err(f)
    } else if let Err(f) = approving {
        Err(f)
    } else if !approves(approving->Ok_0, signer) && !is_enrolled(roots, signer) {
        Err(
            fault(
                "gate-approver-not-permitted"@,
                signer + " is not an approver in this deployment"@,
            ),
        )
    } else if let Err(e) = facts.request {
        Err(e@)
    } else {
        match facts.request->Ok_0 {
            None => Ok(None),
            Some(request) => match bound_answer(decision, roots, facts, request@, at) {
                Ok(answer) => Ok(Some(answer)),
                Err(f) => Err(f),
            },
        }
    }
}

fn check_verdict(decision: &Json, decision_of: &str, signer: &Result<KeyId, Error>) -> (r: Result<
    (),
    Error,
>)
    ensures
        settles(r, verdict_fault(decision@, decision_of@, *signer)),
{
    if let Err(e) = signer {
        return Err(refusal("gate-decision-sig-invalid", e.detail()));
    }
    if !is_text(decision.at("request-hash"), decision_of) {
        return Err(
            refusal(
                "gate-authorization-request-hash-mismatch",
                "decision-of must equal the decision's request-hash",
            ),
        );
    }
    match decision.text_at("decision") {
        Some(verdict) => {
            if same(verdict, "deny") {
                if text_or_empty(decision.text_at("reason")).is_empty() {
                    return Err(refusal("gate-denial-without-reason", "a denial must state why"));
                }
                return Ok(());
            }
            if same(verdict, "approve") {
                return Ok(());
            }
            Err(
                Error::new(
                    "gate-decision-unknown",
                    join2(
                        "decision ",
                        join3("Some(", debug_text(verdict).as_str(), ")").as_str(),
                    ),
                ),
            )
        },
        None => Err(Error::new("gate-decision-unknown", join2("decision ", "None"))),
    }
}

/// Checks a decision about to be recorded.
pub fn validate_gate_decision(
    env: &Json,
    at: &str,
    roots: &Vec<Root>,
    facts: &DecisionFacts,
) -> (r: Result<Option<GateDecision>, Error>)
    requires
        facts.rule.is_complete(),
    ensures
        match decided(env@, at@, roots@, *facts) {
            Ok(answer) => r matches Ok(v) && crate::ingest::plan::opt_view(v) == answer,
            Err(f) => r matches Err(e) && e@ == f,
        },
{
    let decision_of = match env.text_at("decision-of") {
        Some(hash) => hash,
        None => {
            return Err(refusal("schema-missing-member", "decision-of"));
        },
    };
    if !is_digest_hex(decision_of) {
        return Err(
            refusal("encoding-not-lowercase-hex", "decision-of must be a 64-hex request hash"),
        );
    }
    let decision = match env.get("decision") {
        Some(decision) => decision,
        None => {
            return Ok(None);
        },
    };
    check_verdict(decision, decision_of, &facts.signer)?;
    let signer = match &facts.signer {
        Ok(signer) => signer,
        Err(e) => {
            return Err(e.copy());
        },
    };
    let approvers = facts.rule.approvers(roots, "", root_approvers(roots))?;
    if !is_approver(&approvers, signer) && !is_root(roots, signer) {
        return Err(
            Error::new(
                "gate-approver-not-permitted",
                join2(signer.as_str(), " is not an approver in this deployment"),
            ),
        );
    }
    let request = match &facts.request {
        Err(e) => {
            return Err(e.copy());
        },
        Ok(None) => {
            return Ok(None);
        },
        Ok(Some(request)) => request,
    };
    let requested_at = match request.text_at("requested-at") {
        Some(t) => t,
        None => at,
    };
    let queued = validate(request, requested_at, &facts.request_hash)?;
    let checked = check_decision(decision, &facts.signer, &queued)?;
    let decider = subject_of(roots, &facts.mandated_subject, signer)?;
    if let Some(subject) = decider {
        if same(subject.as_str(), queued.subject.as_str()) {
            return Err(
                Error::new(
                    "gate-self-approval",
                    join2(queued.subject.as_str(), " decided its own subject's request"),
                ),
            );
        }
    }
    Ok(Some(checked))
}

// -- checkpoints ------------------------------------------------------------------------------

/// The members of a checkpoint.
pub const CHECKPOINT_MEMBERS: [&'static str; 6] = [
    "stream",
    "from-seq",
    "to-seq",
    "head-hash",
    "count",
    "observed-at",
];

/// What is known of a checkpoint.
#[derive(Debug)]
pub struct CheckpointFacts {
    /// Whether the attested stream has been written to.
    pub stream_known: Result<bool, Error>,
    /// What identifying the envelope at the last attested position came to, where there is one.
    pub attested: Result<Option<String>, Error>,
}

/// The refusal of a checkpoint that lacks a member.
pub open spec fn checkpoint_lacks(name: Seq<char>) -> Fault {
    fault("schema-missing-member"@, "checkpoint."@ + name)
}

/// What is wrong with what a checkpoint says, before anything is asked of the store.
pub open spec fn checkpoint_fault(env: Doc, kernel_key: Seq<char>) -> Option<Fault> {
    let d = env.at("checkpoint"@);
    let from = d.at("from-seq"@).as_u64();
    let to = d.at("to-seq"@).as_u64();
    let count = d.at("count"@).as_u64();
    let at = d.text_at("observed-at"@);
    if d.as_record() is None {
        Some(fault("schema-missing-member"@, "checkpoint"@))
    } else if let Some(key) = stranger(d->Record_0, CHECKPOINT_MEMBERS@, 0) {
        Some(fault("schema-unknown-member"@, "checkpoint."@ + key))
    } else if env.at("sig"@).text_at("key"@) != Some(kernel_key) {
        Some(
            fault(
                "checkpoint-signer-not-kernel"@,
                "a checkpoint must be signed by the kernel's enrolled checkpoint key"@,
            ),
        )
    } else if d.text_at("stream"@) is None {
        Some(checkpoint_lacks("stream"@))
    } else if from is None {
        Some(checkpoint_lacks("from-seq"@))
    } else if to is None {
        Some(checkpoint_lacks("to-seq"@))
    } else if count is None {
        Some(checkpoint_lacks("count"@))
    } else if d.text_at("head-hash"@) is None {
        Some(checkpoint_lacks("head-hash"@))
    } else if at is None {
        Some(checkpoint_lacks("observed-at"@))
    } else if !is_timestamp(at->0) {
        Some(bad_timestamp(at->0))
    } else if count->0 != (if to->0 > from->0 {
        to->0 - from->0
    } else {
        0
    }) + 1 {
        Some(
            fault(
                "checkpoint-count-mismatch"@,
                "count "@ + decimal(count->0 as nat) + " does not match ["@ + decimal(
                    from->0 as nat,
                ) + ", "@ + decimal(to->0 as nat) + "]"@,
            ),
        )
    } else {
        None
    }
}

/// The checkpoint an envelope records: signed by the kernel's own key, of a stream that is there,
/// with the hash that the last attested position really has.
pub open spec fn attested(
    env: Doc,
    kernel_key: Seq<char>,
    facts: CheckpointFacts,
) -> Result<Attested, Fault> {
    let d = env.at("checkpoint"@);
    let stream = d.text_at("stream"@)->0;
    let to = d.at("to-seq"@).as_u64()->0;
    let head = d.text_at("head-hash"@)->0;
    if let Some(f) = checkpoint_fault(env, kernel_key) {
        Err(f)
    } else if let Err(e) = facts.stream_known {
        Err(e@)
    } else if !facts.stream_known->Ok_0 {
        Err(
            fault(
                CHECKPOINT_STREAM_UNKNOWN@,
                "no stream "@ + stream + " has been written to"@,
            ),
        )
    } else if let Err(e) = facts.attested {
        Err(e@)
    } else if facts.attested->Ok_0 is None {
        Err(
            fault(
                "checkpoint-head-mismatch"@,
                stream + " has no envelope at seq "@ + decimal(to as nat),
            ),
        )
    } else if facts.attested->Ok_0->0@ != head {
        Err(
            fault(
                "checkpoint-head-mismatch"@,
                "head of "@ + stream + " at "@ + decimal(to as nat) + " is "@
                    + facts.attested->Ok_0->0@ + ", attested "@ + head,
            ),
        )
    } else {
        Ok(
            Attested {
                stream,
                from_seq: d.at("from-seq"@).as_u64()->0,
                to_seq: to,
                head_hash: head,
                observed_at: d.text_at("observed-at"@)->0,
            },
        )
    }
}

fn lacks(name: &str) -> (r: Error)
    ensures
        r@ == checkpoint_lacks(name@),
{
    Error::new("schema-missing-member", join2("checkpoint.", name))
}

fn read_checkpoint(env: &Json, kernel_key: &KeyId) -> (r: Result<CheckpointRow, Error>)
    ensures
        match checkpoint_fault(env@, kernel_key@) {
            Some(f) => r matches Err(e) && e@ == f,
            None => r matches Ok(row) && {
                let d = env@.at("checkpoint"@);
                &&& Some(row.stream@) == d.text_at("stream"@)
                &&& Some(row.from_seq as int) == d.at("from-seq"@).as_u64()
                &&& Some(row.to_seq as int) == d.at("to-seq"@).as_u64()
                &&& Some(row.head_hash@) == d.text_at("head-hash"@)
                &&& Some(row.observed_at@) == d.text_at("observed-at"@)
            },
        },
{
    let body = env.at("checkpoint");
    let members = match body.as_record() {
        Some(members) => members,
        None => {
            return Err(refusal("schema-missing-member", "checkpoint"));
        },
    };
    if let Some(key) = unknown_member(members, &CHECKPOINT_MEMBERS) {
        return Err(Error::new("schema-unknown-member", join2("checkpoint.", key.as_str())));
    }
    if !is_text(env.at("sig").at("key"), kernel_key.as_str()) {
        return Err(
            refusal(
                "checkpoint-signer-not-kernel",
                "a checkpoint must be signed by the kernel's enrolled checkpoint key",
            ),
        );
    }
    let stream = match body.text_at("stream") {
        Some(stream) => stream,
        None => {
            return Err(lacks("stream"));
        },
    };
    let from_seq: u64 = match body.at("from-seq").as_u64() {
        Some(seq) => seq,
        None => {
            return Err(lacks("from-seq"));
        },
    };
    let to_seq: u64 = match body.at("to-seq").as_u64() {
        Some(seq) => seq,
        None => {
            return Err(lacks("to-seq"));
        },
    };
    let count: u64 = match body.at("count").as_u64() {
        Some(count) => count,
        None => {
            return Err(lacks("count"));
        },
    };
    let head_hash = match body.text_at("head-hash") {
        Some(hash) => hash,
        None => {
            return Err(lacks("head-hash"));
        },
    };
    let observed_at = match body.text_at("observed-at") {
        Some(at) => at,
        None => {
            return Err(lacks("observed-at"));
        },
    };
    let _instant: i64 = parse_timestamp(observed_at)?;
    let span: u64 = to_seq.saturating_sub(from_seq);
    if count == 0 || count - 1 != span {
        let mut detail = join5(
            "count ",
            decimal_text(count).as_str(),
            " does not match [",
            decimal_text(from_seq).as_str(),
            ", ",
        );
        detail.push_str(decimal_text(to_seq).as_str());
        detail.push_str("]");
        return Err(Error::new("checkpoint-count-mismatch", detail));
    }
    Ok(
        CheckpointRow {
            stream: stream.to_owned(),
            from_seq,
            to_seq,
            head_hash: head_hash.to_owned(),
            observed_at: observed_at.to_owned(),
        },
    )
}

/// Checks the checkpoint an envelope records.
pub fn validate_checkpoint(env: &Json, kernel_key: &KeyId, facts: &CheckpointFacts) -> (r: Result<
    CheckpointRow,
    Error,
>)
    ensures
        match attested(env@, kernel_key@, *facts) {
            Ok(row) => r matches Ok(v) && v@ == row,
            Err(f) => r matches Err(e) && e@ == f,
        },
{
    let row = read_checkpoint(env, kernel_key)?;
    match &facts.stream_known {
        Err(e) => {
            return Err(e.copy());
        },
        Ok(known) => {
            if !*known {
                return Err(
                    Error::new(
                        CHECKPOINT_STREAM_UNKNOWN,
                        join3("no stream ", row.stream.as_str(), " has been written to"),
                    ),
                );
            }
        },
    }
    match &facts.attested {
        Err(e) => Err(e.copy()),
        Ok(None) => Err(
            Error::new(
                "checkpoint-head-mismatch",
                join3(
                    row.stream.as_str(),
                    " has no envelope at seq ",
                    decimal_text(row.to_seq).as_str(),
                ),
            ),
        ),
        Ok(Some(head)) => {
            if !same(head.as_str(), row.head_hash.as_str()) {
                let mut detail = join5(
                    "head of ",
                    row.stream.as_str(),
                    " at ",
                    decimal_text(row.to_seq).as_str(),
                    " is ",
                );
                detail.push_str(head.as_str());
                detail.push_str(", attested ");
                detail.push_str(row.head_hash.as_str());
                return Err(Error::new("checkpoint-head-mismatch", detail));
            }
            Ok(row)
        },
    }
}

// -- laws -------------------------------------------------------------------------------------

/// What is stored is kept no longer than policy allows: where a class is judged and its evidence
/// stored, what the evidence claims does not come after the ceiling.
pub proof fn lemma_retention_is_bounded(
    env: Doc,
    payloads: Seq<Doc>,
    canonical: Seq<Result<String, Error>>,
    name: Seq<char>,
    retention: Retention,
)
    requires
        kept_payloads(env, payloads, canonical, Some((name, retention))) is Ok,
        env.get("evidence"@) is Some,
        retention.stores,
    ensures
        retention.ceiling is Ok,
        env.at("evidence"@).text_at("retain-until"@) matches Some(claimed) && !precedes(
            retention.ceiling->Ok_0@,
            claimed,
        ),
{
}

/// A recorded answer to a queued request is signed by an approver or a root, and never by the
/// subject that asked, under that subject's own key or another the deployment knows to be theirs.
pub proof fn lemma_no_subject_answers_itself(
    env: Doc,
    at: Seq<char>,
    roots: Seq<Root>,
    facts: DecisionFacts,
    request: Json,
)
    requires
        decided(env, at, roots, facts) matches Ok(Some(_)),
        facts.request == Ok::<Option<Json>, Error>(Some(request)),
    ensures
        facts.signer is Ok,
        facts.signer->Ok_0@ != said(request@, "key"@),
        acting_subject(roots, facts.mandated_subject, facts.signer->Ok_0@) matches Ok(subject)
            && subject != Some(said(request@, "subject"@)),
        facts.rule.approving(roots, ""@, all_roots(roots)) matches Ok(keys) && (approves(
            keys,
            facts.signer->Ok_0@,
        ) || is_enrolled(roots, facts.signer->Ok_0@)),
{
}

/// A checkpoint that is recorded was signed by the kernel's own key and names the hash its stream
/// really has.
pub proof fn lemma_checkpoints_name_the_real_head(
    env: Doc,
    kernel_key: Seq<char>,
    facts: CheckpointFacts,
)
    requires
        attested(env, kernel_key, facts) is Ok,
    ensures
        env.at("sig"@).text_at("key"@) == Some(kernel_key),
        facts.stream_known == Ok::<bool, Error>(true),
        facts.attested->Ok_0 matches Some(head) && head@ == attested(
            env,
            kernel_key,
            facts,
        )->Ok_0.head_hash,
{
}

/// The payload that cannot be read first, wherever it stands, is what refuses.
proof fn lemma_payloads_fault(
    env: Doc,
    payloads: Seq<Doc>,
    canonical: Seq<Result<String, Error>>,
    from: int,
)
    requires
        0 <= from <= payloads.len(),
    ensures
        payloads_fault(env, payloads, canonical, from) is None <==> forall|i: int|
            from <= i < payloads.len() ==> payload_row(env, #[trigger] payloads[i], canonical[i])
                is Ok,
    decreases payloads.len() - from,
{
    if from < payloads.len() {
        lemma_payloads_fault(env, payloads, canonical, from + 1);
    }
}

/// Every payload is kept, in its place, or none is: where policy keeps the class at all and the
/// claimed retention is within its ceiling, all of them are stored exactly where each can be; where
/// policy keeps none, none is stored.
pub proof fn lemma_payloads_are_kept_together(
    env: Doc,
    payloads: Seq<Doc>,
    canonical: Seq<Result<String, Error>>,
    class: Option<(Seq<char>, Retention)>,
)
    ensures
        ({
            let kept = kept_payloads(env, payloads, canonical, class);
            let judged = class is Some && env.get("evidence"@) is Some;
            let (_, retention) = class->0;
            let stores = retention.stores;
            let within = env.at("evidence"@).at("retain-until"@) is Text
                && retention.ceiling is Ok && !precedes(
                retention.ceiling->Ok_0@,
                env.at("evidence"@).at("retain-until"@)->Text_0,
            );
            &&& judged && !stores ==> kept == Ok::<Seq<Stored>, Fault>(Seq::empty())
            &&& !judged || stores ==> (kept is Ok <==> (judged ==> within) && forall|i: int|
                0 <= i < payloads.len() ==> payload_row(env, #[trigger] payloads[i], canonical[i])
                    is Ok)
            &&& (!judged || stores) && kept is Ok ==> kept->Ok_0.len() == payloads.len() && forall|
                i: int,
            |
                0 <= i < payloads.len() ==> payload_row(env, #[trigger] payloads[i], canonical[i])
                    == Ok::<Stored, Fault>(kept->Ok_0[i])
        }),
{
    lemma_payloads_fault(env, payloads, canonical, 0);
}

/// A payload is stored under the hash and the media type it gives: in its canonical form where it
/// is JSON, and otherwise as the bytes that its text spells. It is kept until the section that
/// commits to it says, and where none does, until the envelope was emitted.
pub proof fn lemma_how_a_payload_is_stored(
    env: Doc,
    payload: Doc,
    canonical: Result<String, Error>,
)
    ensures
        payload_row(env, payload, canonical) is Ok <==> {
            &&& payload.at("payload-hash"@) is Text && payload.at("media-type"@) is Text
            &&& if payload.at("media-type"@) == Doc::Text("application/json"@) {
                canonical is Ok
            } else {
                is_hex_text(or_empty(payload.text_at("payload"@)))
            }
        },
        payload_row(env, payload, canonical) matches Ok(row) ==> {
            &&& payload.at("payload-hash"@) == Doc::Text(row.payload_hash)
            &&& payload.at("media-type"@) == Doc::Text(row.media_type)
            &&& row.bytes == if row.media_type == "application/json"@ {
                vstd::utf8::encode_utf8(canonical->Ok_0@)
            } else {
                bytes_of_hex(or_empty(payload.text_at("payload"@)))
            }
            &&& ({
                let by_evidence = env.at("evidence"@).at("payload-hash"@) == Doc::Text(
                    row.payload_hash,
                );
                let by_signal = env.at("signal"@).at("payload-hash"@) == Doc::Text(
                    row.payload_hash,
                );
                let section = if by_evidence {
                    "evidence"@
                } else {
                    "signal"@
                };
                let until = env.at(section).at("retain-until"@);
                row.retain_until == if (by_evidence || by_signal) && until is Text {
                    until->Text_0
                } else {
                    or_empty(env.text_at("emitted-at"@))
                }
            })
        },
{
}

/// A mandate is recorded exactly where it was verified, within its ceiling and, where it is
/// delegated from a parent, under one that is known.
pub proof fn lemma_what_is_granted(env: Doc, facts: GrantFacts)
    ensures
        granted(env, facts) is Ok <==> {
            &&& env.get("mandate"@) is Some
            &&& env.at("mandate"@).at("issued-at"@) is Text
            &&& env.at("mandate"@).at("mandate-kind"@) == Doc::Text("delegated"@) && env.at(
                "mandate"@,
            ).at("parent"@) is Text ==> (facts.parent matches Ok(Some(_)))
            &&& facts.ceiling is Ok && facts.verified is Ok && facts.id is Ok
        },
        granted(env, facts) matches Ok(entry) ==> entry.id == facts.id->Ok_0@ && entry.object
            == env.at("mandate"@),
{
}

/// A revocation is recorded exactly where the envelope says what the signed object says, of what
/// is revoked, when and why, in the forms they have, and the object was verified.
pub proof fn lemma_what_is_revoked(env: Doc, facts: RevocationFacts)
    ensures
        revoked(env, facts) is Ok <==> {
            &&& env.get("revocation"@) is Some
            &&& env.get("revokes"@) == env.at("revocation"@).get("revokes"@)
            &&& env.get("revoked-at"@) == env.at("revocation"@).get("revoked-at"@)
            &&& env.get("reason"@) == env.at("revocation"@).get("reason"@)
            &&& env.at("revokes"@) matches Doc::Text(target) && is_digest(target)
            &&& env.at("revoked-at"@) matches Doc::Text(at) && is_timestamp(at)
            &&& facts.ancestry is Ok && facts.verified is Ok && facts.id is Ok
        },
        revoked(env, facts) matches Ok(entry) ==> entry.id == facts.id->Ok_0@ && entry.object
            == env.at("revocation"@),
{
    let names = REVOCATION_MEMBERS@;
    assert(names[0]@ == "revokes"@);
    assert(names[1]@ == "revoked-at"@);
    assert(names[2]@ == "reason"@);
    reveal_with_fuel(disagreement, 4);
}

/// A decision says one of two things. It approves, or it denies and says why; and it is signed, and
/// about the request that the envelope names.
pub proof fn lemma_what_a_verdict_is(
    decision: Doc,
    decision_of: Seq<char>,
    signer: Result<KeyId, Error>,
)
    ensures
        verdict_fault(decision, decision_of, signer) is None <==> {
            &&& signer is Ok
            &&& decision.at("request-hash"@) == Doc::Text(decision_of)
            &&& {
                ||| decision.at("decision"@) == Doc::Text("approve"@)
                ||| decision.at("decision"@) == Doc::Text("deny"@) && (decision.at(
                    "reason"@,
                ) matches Doc::Text(why) && why.len() > 0)
            }
        },
{
    reveal_strlit("approve");
    reveal_strlit("deny");
    assert("approve"@.len() == 7);
    assert("deny"@.len() == 4);
}

/// A decision answers a request exactly where it names it by its hash, is carried and says one of
/// two things, was signed by one that the rule lets approve or by an enrolled root, and binds to a
/// request that is known, well formed and not the decider's own. It comes to nothing where it is
/// not carried, and where the request is not known.
pub proof fn lemma_what_is_decided(
    env: Doc,
    at: Seq<char>,
    roots: Seq<Root>,
    facts: DecisionFacts,
)
    ensures
        decided(env, at, roots, facts) matches Ok(answer) ==> {
            &&& env.at("decision-of"@) matches Doc::Text(of) && is_digest(of)
            &&& env.get("decision"@) is None ==> answer is None
            &&& env.get("decision"@) is Some ==> {
                &&& verdict_fault(
                    env.at("decision"@),
                    env.at("decision-of"@)->Text_0,
                    facts.signer,
                ) is None
                &&& facts.rule.approving(roots, ""@, all_roots(roots)) matches Ok(keys) && ((
                exists|k: int|
                    0 <= k < keys.len() && (#[trigger] keys[k]).key == facts.signer->Ok_0@) || (
                exists|i: int|
                    0 <= i < roots.len() && (#[trigger] roots[i]).key@ == facts.signer->Ok_0@))
                &&& facts.request is Ok
                &&& answer is Some <==> facts.request->Ok_0 is Some
                &&& answer matches Some(a) ==> {
                    &&& a.decision == env.at("decision"@)
                    &&& a.decided_by == facts.signer->Ok_0@
                    &&& a.request_hash == facts.request_hash->Ok_0@
                    &&& env.at("decision"@).at("decision"@) == Doc::Text(a.verdict)
                    &&& acting_subject(
                        roots,
                        facts.mandated_subject,
                        facts.signer->Ok_0@,
                    ) matches Ok(decider) && decider != Some(
                        or_empty(facts.request->Ok_0->0@.text_at("subject"@)),
                    )
                }
            }
        },
{
}

/// Whoever may decide and does so rightly is answered: a decision that names its request, is well
/// formed and is signed by a key that the rule lets approve or by an enrolled root is not refused
/// for who signed it.
pub proof fn lemma_permitted_deciders_decide(
    env: Doc,
    at: Seq<char>,
    roots: Seq<Root>,
    facts: DecisionFacts,
    keys: Seq<Permitted>,
)
    requires
        env.at("decision-of"@) matches Doc::Text(of) && is_digest(of) && verdict_fault(
            env.at("decision"@),
            of,
            facts.signer,
        ) is None,
        facts.rule.approving(roots, ""@, all_roots(roots)) == Ok::<Seq<Permitted>, Fault>(keys),
        (exists|k: int| 0 <= k < keys.len() && (#[trigger] keys[k]).key == facts.signer->Ok_0@) || (
        exists|i: int| 0 <= i < roots.len() && (#[trigger] roots[i]).key@ == facts.signer->Ok_0@),
        facts.request is Ok,
    ensures
        facts.request->Ok_0 is None ==> decided(env, at, roots, facts) is Ok,
        facts.request->Ok_0 matches Some(request) ==> (decided(env, at, roots, facts) is Err ==> (
        env.get("decision"@) is Some && bound_answer(
            env.at("decision"@),
            roots,
            facts,
            request@,
            at,
        ) is Err)),
{
}

/// A checkpoint is recorded exactly where it is the kernel's, complete and of nothing else, counts
/// what it spans, and names the head that its stream has at its end.
pub proof fn lemma_what_is_attested(env: Doc, kernel_key: Seq<char>, facts: CheckpointFacts)
    ensures
        ({
            let d = env.at("checkpoint"@);
            attested(env, kernel_key, facts) is Ok <==> {
                &&& d matches Doc::Record(members) && forall|i: int|
                    0 <= i < members.len() ==> {
                        ||| (#[trigger] members[i]).0 == "stream"@
                        ||| members[i].0 == "from-seq"@
                        ||| members[i].0 == "to-seq"@
                        ||| members[i].0 == "head-hash"@
                        ||| members[i].0 == "count"@
                        ||| members[i].0 == "observed-at"@
                    }
                &&& env.at("sig"@).at("key"@) == Doc::Text(kernel_key)
                &&& d.at("stream"@) is Text && d.at("head-hash"@) is Text
                &&& d.at("observed-at"@) matches Doc::Text(at) && is_timestamp(at)
                &&& d.at("from-seq"@) matches Doc::Int(from) && 0 <= from <= u64::MAX
                &&& d.at("to-seq"@) matches Doc::Int(to) && 0 <= to <= u64::MAX
                &&& d.at("count"@) matches Doc::Int(count) && 0 <= count <= u64::MAX
                &&& ({
                    let from = d.at("from-seq"@)->Int_0;
                    let to = d.at("to-seq"@)->Int_0;
                    let count = d.at("count"@)->Int_0;
                    if from <= to {
                        count == to - from + 1
                    } else {
                        count == 1
                    }
                })
                &&& facts.stream_known == Ok::<bool, Error>(true)
                &&& facts.attested matches Ok(Some(head)) && d.at("head-hash"@) == Doc::Text(head@)
            }
        }),
        attested(env, kernel_key, facts) matches Ok(row) ==> {
            let d = env.at("checkpoint"@);
            &&& d.at("stream"@) == Doc::Text(row.stream)
            &&& d.at("from-seq"@) == Doc::Int(row.from_seq)
            &&& d.at("to-seq"@) == Doc::Int(row.to_seq)
            &&& d.at("head-hash"@) == Doc::Text(row.head_hash)
            &&& d.at("observed-at"@) == Doc::Text(row.observed_at)
        },
{
    let names = CHECKPOINT_MEMBERS@;
    assert(names[0]@ == "stream"@);
    assert(names[1]@ == "from-seq"@);
    assert(names[2]@ == "to-seq"@);
    assert(names[3]@ == "head-hash"@);
    assert(names[4]@ == "count"@);
    assert(names[5]@ == "observed-at"@);
    if let Doc::Record(members) = env.at("checkpoint"@) {
        crate::json::lemma_strangers_are_found(members, names, 0);
    }
}

/// Only a delegated mandate has a parent that counts, and that is the one it names.
pub proof fn lemma_which_parents_count(mandate: Doc)
    ensures
        mandate.at("mandate-kind"@) == Doc::Text("delegated"@) ==> parent_named(mandate)
            == mandate.text_at("parent"@),
        mandate.at("mandate-kind"@) != Doc::Text("delegated"@) ==> parent_named(mandate) is None,
{
}

} // verus!
