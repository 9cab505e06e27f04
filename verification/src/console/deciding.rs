//! Recording a human's answer to a parked request. The console decides nothing: it checks a
//! decision that was signed with a key the kernel has never held, and hands it to ingest.

use vstd::prelude::*;

use crate::codes::STORE_UNAVAILABLE;
use crate::console::encoding::{form_bytes, form_decode, percent_encode, percent_encoded};
use crate::console::pages::{outage, unavailable, Notice, Said};
use crate::error::{fault, refusal as error_of, Error, Fault};
use crate::gatequeue::{
    check_decision, decision_fault, is_decision, request_fault, said, validate, GateDecision,
};
use crate::http::{Replied, Reply};
use crate::ingest::approvers::{permitted, Approver, Permitted};
use crate::json::{member, member_docs, record, text, Doc, Json};
use crate::keys::KeyId;
use crate::text::{
    after, find, index_of, join2, join3, join4, lossy_text, or_empty, pieces, same, split,
    text_or_empty, texts,
};
use crate::vocabulary::VERSION;

verus! {

// -- what is submitted ------------------------------------------------------------------------

/// The name and the value of a part of a form.
pub open spec fn field_of(part: Seq<char>) -> (Seq<char>, Seq<char>) {
    match index_of(part, '=') {
        Some(i) => (part.take(i), part.skip(i + 1)),
        None => (part, ""@),
    }
}

/// What the last of some parts of a form with a name says, those before a place, and nothing where
/// there is none.
pub open spec fn field_in(parts: Seq<Seq<char>>, name: Seq<char>, upto: int) -> Seq<char>
    decreases upto,
{
    if upto <= 0 {
        Seq::empty()
    } else if field_of(parts[upto - 1]).0 == name {
        lossy_text(form_bytes(vstd::utf8::encode_utf8(field_of(parts[upto - 1]).1)))
    } else {
        field_in(parts, name, upto - 1)
    }
}

/// What a form says under a name.
pub open spec fn form_field(body: Seq<char>, name: Seq<char>) -> Seq<char> {
    field_in(pieces(body, '&'), name, pieces(body, '&').len() as int)
}

/// The token and the decision a form holds, as they are written there.
pub fn form_fields(body: &str) -> (r: (String, String))
    ensures
        r.0@ == form_field(body@, "csrf"@),
        r.1@ == form_field(body@, "decision"@),
{
    let parts = split(body, '&');
    let ghost all = texts(parts@);
    let mut csrf = String::new();
    let mut decision = String::new();
    let mut i: usize = 0;
    assert("csrf"@ != "decision"@) by {
        reveal_strlit("csrf");
        reveal_strlit("decision");
        assert("csrf"@.len() != "decision"@.len());
    }
    while i < parts.len()
        invariant
            i <= parts@.len(),
            all == texts(parts@),
            "csrf"@ != "decision"@,
            csrf@ == field_in(all, "csrf"@, i as int),
            decision@ == field_in(all, "decision"@, i as int),
        decreases parts@.len() - i,
    {
        let part = parts[i].as_str();
        let (name, value) = match find(part, '=') {
            Some(at) => (part.substring_char(0, at), after(part, at + 1)),
            None => (part, ""),
        };
        assert((name@, value@) == field_of(part@));
        if same(name, "csrf") {
            csrf = form_decode(value);
        } else if same(name, "decision") {
            decision = form_decode(value);
        }
        i += 1;
    }
    (csrf, decision)
}

/// The token and the decision of a submission, given what parsing came to: of the decision a form
/// holds, with the form's token, or of the whole body.
pub open spec fn submission_of(form: Option<Seq<char>>, parsed: Result<Json, Error>) -> Result<
    (Seq<char>, Doc),
    Fault,
> {
    match parsed {
        Err(e) => Err(e@),
        Ok(d) => {
            let csrf = match form {
                Some(token) => token,
                None => or_empty(d@.text_at("csrf"@)),
            };
            if form is None && d@.get("decision"@) is None {
                Err(fault("schema-missing-member"@, "decision"@))
            } else if csrf.len() == 0 {
                Err(fault("schema-missing-member"@, "csrf"@))
            } else {
                Ok(
                    (
                        csrf,
                        if form is Some {
                            d@
                        } else {
                            d@.at("decision"@)
                        },
                    ),
                )
            }
        },
    }
}

/// The token and the decision of a submission.
pub fn submitted_decision(form: Option<&str>, parsed: &Result<Json, Error>) -> (r: Result<
    (String, Json),
    Error,
>)
    ensures
        match submission_of(crate::text::opt_text(form), *parsed) {
            Ok((csrf, d)) => r matches Ok((c, v)) && c@ == csrf && v@ == d,
            Err(f) => r matches Err(e) && e@ == f,
        },
{
    let body = match parsed {
        Ok(d) => d,
        Err(e) => {
            return Err(e.copy());
        },
    };
    match form {
        Some(token) => {
            if token.unicode_len() == 0 {
                return Err(error_of("schema-missing-member", "csrf"));
            }
            Ok((token.to_owned(), body.copy()))
        },
        None => {
            let decision = match body.get("decision") {
                Some(d) => d,
                None => {
                    return Err(error_of("schema-missing-member", "decision"));
                },
            };
            let csrf = text_or_empty(body.text_at("csrf"));
            if csrf.unicode_len() == 0 {
                return Err(error_of("schema-missing-member", "csrf"));
            }
            Ok((csrf.to_owned(), decision.copy()))
        },
    }
}

// -- what is checked --------------------------------------------------------------------------

/// What recording an answer rests on. What the store says is an outage where it could not be had.
#[derive(Debug)]
pub struct DecideFacts {
    /// The token and the decision that were submitted.
    pub submitted: Result<(String, Json), Error>,
    /// Whether the token was issued to this caller for this request.
    pub csrf_ok: bool,
    /// The parked request, where there is one.
    pub request: Result<Option<Json>, Error>,
    /// Its hash.
    pub hash: Result<String, Error>,
    /// The key that signed the decision.
    pub signer: Result<KeyId, Error>,
    /// The keys that may answer it.
    pub approvers: Result<Vec<Approver>, Error>,
}

/// How an answer is refused.
pub enum Blocked {
    /// With a reason.
    Because(int, Seq<char>, Seq<char>),
    /// Because the store could not answer.
    Outage,
}

/// The first of some approvers, from a place on, with a key.
pub open spec fn approver_with(keys: Seq<Permitted>, key: Seq<char>, from: int) -> Option<Permitted>
    decreases keys.len() - from,
{
    if from < 0 || from >= keys.len() {
        None
    } else if keys[from].key == key {
        Some(keys[from])
    } else {
        approver_with(keys, key, from + 1)
    }
}

/// When a parked request was made, as far as it says.
pub open spec fn made_at(request: Doc, now: Seq<char>) -> Seq<char> {
    match request.text_at("requested-at"@) {
        Some(t) => t,
        None => now,
    }
}

/// What keeps an answer from being recorded. The token is looked at before anything of the store
/// is; the decision must answer this request; its signer must be one that may; and nobody answers
/// their own request, whichever of their keys they sign with.
pub open spec fn deciding(facts: DecideFacts, now: Seq<char>) -> Option<Blocked> {
    if let Err(e) = facts.submitted {
        Some(Blocked::Because(400, e@.code, e@.detail))
    } else if !facts.csrf_ok {
        Some(
            Blocked::Because(
                403,
                "console-csrf-invalid"@,
                "this form was not issued to this caller by this kernel for this request"@,
            ),
        )
    } else if facts.request is Err {
        Some(Blocked::Outage)
    } else if facts.request->Ok_0 is None {
        Some(Blocked::Because(404, "not-found"@, "no such parked request"@))
    } else {
        let request = (facts.request->Ok_0->0)@;
        let (csrf, decision) = facts.submitted->Ok_0;
        if request_fault(request, made_at(request, now), facts.hash) is Some {
            Some(Blocked::Outage)
        } else if let Some(f) = decision_fault(
            decision@,
            facts.signer,
            (facts.hash->Ok_0)@,
            said(request, "key"@),
            said(request, "not-after"@),
        ) {
            Some(Blocked::Because(422, f.code, f.detail))
        } else if facts.approvers is Err {
            Some(Blocked::Outage)
        } else {
            let signer = (facts.signer->Ok_0)@;
            match approver_with(permitted((facts.approvers->Ok_0)@), signer, 0) {
                None => Some(
                    Blocked::Because(
                        403,
                        "gate-approver-not-permitted"@,
                        signer + " may not answer this request"@,
                    ),
                ),
                Some(a) => if a.subject == Some(said(request, "subject"@)) {
                    Some(
                        Blocked::Because(
                            403,
                            "gate-self-approval"@,
                            "a subject may not answer its own request"@,
                        ),
                    )
                } else {
                    None
                },
            }
        }
    }
}

/// What is answered: a page for a person, and a document for a program.
#[derive(Debug)]
pub enum Answered {
    /// A page that says one thing.
    Page(Notice),
    /// A document.
    Document(Reply),
    /// Another place to look at.
    Redirect(String),
}

/// Whether a refusal is answered as it should be: an outage as such, and a reason as a page where
/// the submission was a form and as a document otherwise.
pub open spec fn is_refused(a: Answered, form: bool, b: Blocked) -> bool {
    match b {
        Blocked::Outage => a matches Answered::Page(n) && n@ == outage(),
        Blocked::Because(status, code, reason) => if form {
            a matches Answered::Page(n) && n@ == (Said {
                status,
                title: "The decision was refused"@,
                detail: code + ": "@ + reason,
            })
        } else {
            a matches Answered::Document(p) && p@ == (Replied {
                status,
                body: refusal_doc(code, reason),
            })
        },
    }
}

/// A refusal, as a document.
pub open spec fn refusal_doc(code: Seq<char>, reason: Seq<char>) -> Doc {
    Doc::Record(
        seq![
            ("reason"@, Doc::Text(reason)),
            ("reason-code"@, Doc::Text(code)),
            ("result"@, Doc::Text("rejected"@)),
            ("retryable"@, Doc::Bool(false)),
            ("stozher"@, Doc::Text(VERSION@)),
        ],
    )
}

/// How a refusal is answered.
pub fn decision_refusal(form: bool, status: u16, code: &str, reason: &str) -> (r: Answered)
    ensures
        is_refused(r, form, Blocked::Because(status as int, code@, reason@)),
{
    if form {
        return Answered::Page(
            Notice {
                status,
                title: "The decision was refused".to_owned(),
                detail: join3(code, ": ", reason),
            },
        );
    }
    let mut out: Vec<(String, Json)> = Vec::new();
    out.push(member("reason", text(reason)));
    out.push(member("reason-code", text(code)));
    out.push(member("result", text("rejected")));
    out.push(member("retryable", Json::Bool(false)));
    out.push(member("stozher", text(VERSION)));
    assert(member_docs(out@) =~= refusal_doc(code@, reason@)->Record_0);
    Answered::Document(Reply { status, body: record(out) })
}

fn find_approver<'a>(approvers: &'a Vec<Approver>, key: &KeyId) -> (r: Option<&'a Approver>)
    ensures
        match approver_with(permitted(approvers@), key@, 0) {
            Some(p) => r matches Some(a) && a@ == p,
            None => r is None,
        },
{
    let ghost all = permitted(approvers@);
    let mut i: usize = 0;
    while i < approvers.len()
        invariant
            i <= approvers@.len(),
            all == permitted(approvers@),
            approver_with(all, key@, 0) == approver_with(all, key@, i as int),
        decreases approvers@.len() - i,
    {
        if same(approvers[i].key.as_str(), key.as_str()) {
            return Some(&approvers[i]);
        }
        i += 1;
    }
    None
}

/// Checks an answer, and gives the decision that is to be recorded, or how it is refused.
pub fn decide(facts: &DecideFacts, form: bool, now: &str) -> (r: Result<GateDecision, Answered>)
    ensures
        match deciding(*facts, now@) {
            Some(b) => r matches Err(a) && is_refused(a, form, b),
            None => r matches Ok(d) && {
                let (csrf, decision) = facts.submitted->Ok_0;
                is_decision(d, decision@, (facts.signer->Ok_0)@, (facts.hash->Ok_0)@)
            },
        },
{
    let decision = match &facts.submitted {
        Ok((_, d)) => d,
        Err(e) => {
            return Err(decision_refusal(form, 400, e.code(), e.detail()));
        },
    };
    if !facts.csrf_ok {
        return Err(
            decision_refusal(
                form,
                403,
                "console-csrf-invalid",
                "this form was not issued to this caller by this kernel for this request",
            ),
        );
    }
    let request = match &facts.request {
        Ok(Some(q)) => q,
        Ok(None) => {
            return Err(decision_refusal(form, 404, "not-found", "no such parked request"));
        },
        Err(_) => {
            return Err(Answered::Page(unavailable()));
        },
    };
    let made = match request.text_at("requested-at") {
        Some(t) => t,
        None => now,
    };
    let queued = match validate(request, made, &facts.hash) {
        Ok(q) => q,
        Err(_) => {
            return Err(Answered::Page(unavailable()));
        },
    };
    let checked = match check_decision(decision, &facts.signer, &queued) {
        Ok(d) => d,
        Err(e) => {
            return Err(decision_refusal(form, 422, e.code(), e.detail()));
        },
    };
    let approvers = match &facts.approvers {
        Ok(a) => a,
        Err(_) => {
            return Err(Answered::Page(unavailable()));
        },
    };
    let approver = match find_approver(approvers, &checked.decided_by) {
        Some(a) => a,
        None => {
            let reason = join2(checked.decided_by.as_str(), " may not answer this request");
            return Err(
                decision_refusal(form, 403, "gate-approver-not-permitted", reason.as_str()),
            );
        },
    };
    if let Some(subject) = &approver.subject {
        if same(subject.as_str(), queued.subject.as_str()) {
            return Err(
                decision_refusal(
                    form,
                    403,
                    "gate-self-approval",
                    "a subject may not answer its own request",
                ),
            );
        }
    }
    Ok(checked)
}

// -- what follows -----------------------------------------------------------------------------

/// The members of the envelope an answer becomes.
pub fn submit_decision(request_hash: &str, decision: &Json) -> (r: Vec<(String, Json)>)
    ensures
        member_docs(r@) == seq![
            ("decision-of"@, Doc::Text(request_hash@)),
            ("decision"@, decision@),
        ],
{
    let mut out: Vec<(String, Json)> = Vec::new();
    out.push(member("decision-of", text(request_hash)));
    out.push(member("decision", decision.copy()));
    assert(member_docs(out@) =~= seq![
        ("decision-of"@, Doc::Text(request_hash@)),
        ("decision"@, decision@),
    ]);
    out
}

/// What is answered once an answer was recorded, as a document.
pub open spec fn recorded_doc(d: GateDecision, envelope_id: Seq<char>) -> Doc {
    Doc::Record(
        seq![
            ("decided-by"@, Doc::Text(d.decided_by@)),
            ("decision"@, Doc::Text(d.verdict@)),
            ("envelope-id"@, Doc::Text(envelope_id)),
            ("request-hash"@, Doc::Text(d.request_hash@)),
            ("result"@, Doc::Text("recorded"@)),
            ("stozher"@, Doc::Text(VERSION@)),
        ],
    )
}

/// What is answered once an answer was handed to ingest: where it is recorded, a person is sent to
/// a page that names the envelope and the answer, so that a reload repeats nothing.
pub fn decided(
    form: bool,
    d: &GateDecision,
    submitted: &Result<String, (String, String)>,
) -> (r: Answered)
    ensures
        match submitted {
            Ok(id) => if form {
                r matches Answered::Redirect(to) && to@ == "/console/pending?recorded="@ + id@
                    + "&verdict="@ + percent_encoded(d.verdict@)
            } else {
                r matches Answered::Document(p) && p@ == (Replied {
                    status: 201,
                    body: recorded_doc(*d, id@),
                })
            },
            Err((code, detail)) => if code@ == STORE_UNAVAILABLE@ {
                r matches Answered::Page(n) && n@ == outage()
            } else {
                is_refused(r, form, Blocked::Because(422, code@, detail@))
            },
        },
{
    match submitted {
        Ok(id) => {
            if form {
                return Answered::Redirect(
                    join4(
                        "/console/pending?recorded=",
                        id.as_str(),
                        "&verdict=",
                        percent_encode(d.verdict.as_str()).as_str(),
                    ),
                );
            }
            let mut out: Vec<(String, Json)> = Vec::new();
            out.push(member("decided-by", text(d.decided_by.as_str())));
            out.push(member("decision", text(d.verdict.as_str())));
            out.push(member("envelope-id", text(id.as_str())));
            out.push(member("request-hash", text(d.request_hash.as_str())));
            out.push(member("result", text("recorded")));
            out.push(member("stozher", text(VERSION)));
            assert(member_docs(out@) =~= recorded_doc(*d, id@)->Record_0);
            Answered::Document(Reply { status: 201, body: record(out) })
        },
        Err((code, detail)) => {
            if same(code.as_str(), STORE_UNAVAILABLE) {
                return Answered::Page(unavailable());
            }
            decision_refusal(form, 422, code.as_str(), detail.as_str())
        },
    }
}

// -- laws -------------------------------------------------------------------------------------

/// A form that was not issued for this request learns nothing of the queue: what it is answered
/// does not depend on what the store holds.
pub proof fn lemma_forged_forms_learn_nothing(
    facts: DecideFacts,
    others: DecideFacts,
    now: Seq<char>,
)
    requires
        facts.submitted == others.submitted,
        !facts.csrf_ok,
        !others.csrf_ok,
    ensures
        deciding(facts, now) is Some,
        deciding(facts, now) == deciding(others, now),
{
}

/// Nobody answers their own request: an answer that is recorded was signed by another key than the
/// one that asked, which may answer, and whose subject is not the one that asked.
pub proof fn lemma_nobody_answers_themselves(facts: DecideFacts, now: Seq<char>)
    requires
        deciding(facts, now) is None,
    ensures
        ({
            let request = (facts.request->Ok_0->0)@;
            let signer = (facts.signer->Ok_0)@;
            &&& signer != said(request, "key"@)
            &&& approver_with(permitted((facts.approvers->Ok_0)@), signer, 0) matches Some(a)
                && a.subject != Some(said(request, "subject"@))
        }),
{
}

proof fn lemma_approver_with(keys: Seq<Permitted>, key: Seq<char>, from: int)
    requires
        0 <= from <= keys.len(),
    ensures
        match approver_with(keys, key, from) {
            Some(a) => exists|k: int|
                from <= k < keys.len() && #[trigger] keys[k] == a && a.key == key && forall|j: int|
                    from <= j < k ==> (#[trigger] keys[j]).key != key,
            None => forall|j: int| from <= j < keys.len() ==> (#[trigger] keys[j]).key != key,
        },
    decreases keys.len() - from,
{
    if from < keys.len() {
        if keys[from].key == key {
            assert(keys[from] == keys[from]);
        } else {
            lemma_approver_with(keys, key, from + 1);
        }
    }
}

/// A decision is taken on exactly where it was submitted whole, in a form of this kernel's, on a
/// request that is parked and well formed; where it answers that request; and where its signer is
/// among those that may approve, wherever among them, and was not resolved from the subject that
/// asks.
pub proof fn lemma_when_a_decision_is_taken_on(facts: DecideFacts, now: Seq<char>)
    ensures
        deciding(facts, now) is None <==> {
            &&& facts.submitted is Ok
            &&& facts.csrf_ok
            &&& facts.request matches Ok(Some(parked)) && {
                let request = parked@;
                let (_, decision) = facts.submitted->Ok_0;
                let at = match request.at("requested-at"@) {
                    Doc::Text(t) => t,
                    _ => now,
                };
                &&& request_fault(request, at, facts.hash) is None
                &&& decision_fault(
                    decision@,
                    facts.signer,
                    (facts.hash->Ok_0)@,
                    or_empty(request.text_at("key"@)),
                    or_empty(request.text_at("not-after"@)),
                ) is None
                &&& facts.approvers matches Ok(approvers) && exists|k: int|
                    {
                        &&& 0 <= k < approvers@.len()
                        &&& (#[trigger] approvers@[k]).key@ == (facts.signer->Ok_0)@
                        &&& crate::config::opt_string(approvers@[k].subject) != Some(
                            or_empty(request.text_at("subject"@)),
                        )
                        &&& forall|j: int|
                            0 <= j < k ==> (#[trigger] approvers@[j]).key@ != (
                            facts.signer->Ok_0)@
                    }
            }
        },
{
    if facts.signer is Ok && facts.approvers is Ok {
        let approvers = (facts.approvers->Ok_0)@;
        let keys = permitted(approvers);
        let signer = (facts.signer->Ok_0)@;
        lemma_approver_with(keys, signer, 0);
        assert(forall|k: int| 0 <= k < keys.len() ==> keys[k].key == (#[trigger] approvers[k]).key@);
        match approver_with(keys, signer, 0) {
            Some(a) => {
                let k = choose|k: int|
                    0 <= k < keys.len() && #[trigger] keys[k] == a && a.key == signer && forall|
                        j: int,
                    | 0 <= j < k ==> (#[trigger] keys[j]).key != signer;
                assert(approvers[k].key@ == signer);
                assert forall|j: int| 0 <= j < k implies (#[trigger] approvers[j]).key@
                    != signer by {
                    assert(keys[j].key != signer);
                }
                assert forall|i: int|
                    0 <= i < approvers.len() && (#[trigger] approvers[i]).key@ == signer && (
                    forall|j: int|
                        0 <= j < i ==> (#[trigger] approvers[j]).key@ != signer) implies i == k by {
                    if i < k {
                        assert(approvers[i].key@ != signer);
                    } else if k < i {
                        assert(approvers[k].key@ != signer);
                    }
                }
            },
            None => {
                assert forall|i: int| 0 <= i < approvers.len() implies (
                #[trigger] approvers[i]).key@ != signer by {
                    assert(keys[i].key != signer);
                }
            },
        }
    }
}

/// What a refused decision is told: a form that is not whole is a bad request, one that is not this
/// kernel's and a signer that may not answer are forbidden, a request that is not parked is not
/// found, and a decision that answers nothing cannot be processed.
pub proof fn lemma_how_a_decision_is_refused(facts: DecideFacts, now: Seq<char>)
    ensures
        facts.submitted is Err ==> (deciding(facts, now) matches Some(Blocked::Because(s, _, _)) && s
            == 400),
        facts.submitted is Ok && !facts.csrf_ok ==> (deciding(facts, now) matches Some(
            Blocked::Because(s, code, _),
        ) && s == 403 && code == "console-csrf-invalid"@),
        facts.submitted is Ok && facts.csrf_ok && facts.request == Ok::<Option<Json>, Error>(None)
            ==> (deciding(facts, now) matches Some(Blocked::Because(s, code, _)) && s == 404 && code
            == "not-found"@),
        facts.submitted is Ok && facts.csrf_ok && facts.request is Err ==> deciding(facts, now)
            == Some(Blocked::Outage),
        deciding(facts, now) matches Some(Blocked::Because(s, _, _)) ==> s == 400 || s == 403 || s
            == 404 || s == 422,
{
}

/// A form is whole exactly where it can be read and carries a token; what came without a form must
/// carry both in one document, and what came with one is the decision itself.
pub proof fn lemma_what_a_form_carries(form: Option<Seq<char>>, parsed: Json)
    ensures
        ({
            let r = submission_of(form, Ok(parsed));
            match form {
                Some(token) => {
                    &&& r is Ok <==> token.len() > 0
                    &&& r is Ok ==> r->Ok_0 == (token, parsed@)
                },
                None => {
                    &&& r is Ok <==> parsed@.get("decision"@) is Some && (parsed@.at(
                        "csrf"@,
                    ) matches Doc::Text(token) && token.len() > 0)
                    &&& r is Ok ==> parsed@.at("csrf"@) == Doc::Text(r->Ok_0.0) && parsed@.get(
                        "decision"@,
                    ) == Some(r->Ok_0.1)
                },
            }
        }),
{
}

proof fn lemma_field_in(parts: Seq<Seq<char>>, name: Seq<char>, upto: int)
    requires
        0 <= upto <= parts.len(),
    ensures
        forall|k: int|
            0 <= k < upto && field_of(#[trigger] parts[k]).0 == name && (forall|j: int|
                k < j < upto ==> field_of(#[trigger] parts[j]).0 != name) ==> field_in(
                parts,
                name,
                upto,
            ) == lossy_text(form_bytes(vstd::utf8::encode_utf8(field_of(parts[k]).1))),
        (forall|k: int| 0 <= k < upto ==> field_of(#[trigger] parts[k]).0 != name) ==> field_in(
            parts,
            name,
            upto,
        ).len() == 0,
    decreases upto,
{
    if upto > 0 {
        lemma_field_in(parts, name, upto - 1);
        if field_of(parts[upto - 1]).0 == name {
            assert forall|k: int|
                0 <= k < upto && field_of(#[trigger] parts[k]).0 == name && (forall|j: int|
                    k < j < upto ==> field_of(#[trigger] parts[j]).0 != name) implies field_in(
                parts,
                name,
                upto,
            ) == lossy_text(form_bytes(vstd::utf8::encode_utf8(field_of(parts[k]).1))) by {
                if k < upto - 1 {
                    assert(field_of(parts[upto - 1]).0 != name);
                }
            }
        }
    }
}

/// A field of a form is found wherever among its parts it stands, the last of its name says what
/// holds, and it is decoded; one that is not there is empty.
pub proof fn lemma_fields_are_found(body: Seq<char>, name: Seq<char>, k: int)
    ensures
        ({
            let parts = pieces(body, '&');
            &&& 0 <= k < parts.len() && field_of(parts[k]).0 == name && (forall|j: int|
                k < j < parts.len() ==> field_of(#[trigger] parts[j]).0 != name) ==> form_field(
                body,
                name,
            ) == lossy_text(form_bytes(vstd::utf8::encode_utf8(field_of(parts[k]).1)))
            &&& (forall|j: int|
                0 <= j < parts.len() ==> field_of(#[trigger] parts[j]).0 != name) ==> form_field(
                body,
                name,
            ).len() == 0
        }),
{
    lemma_field_in(pieces(body, '&'), name, pieces(body, '&').len() as int);
}

/// A part of a form is a name and a value with the first equals sign between them.
pub proof fn lemma_what_a_field_is(name: Seq<char>, value: Seq<char>)
    requires
        forall|i: int| 0 <= i < name.len() ==> #[trigger] name[i] != '=',
    ensures
        field_of(name + seq!['='] + value) == (name, value),
        field_of(name).0 == name,
{
    let part = name + seq!['='] + value;
    crate::text::lemma_index_of(part, '=');
    crate::text::lemma_index_of(name, '=');
    assert(part[name.len() as int] == '=');
    let i = index_of(part, '=')->0;
    if i < name.len() {
        assert(part[i] == name[i]);
    } else if i > name.len() {
        assert(part[name.len() as int] != '=');
    }
    assert(part.take(i) =~= name);
    assert(part.skip(i + 1) =~= value);
}

/// What was recorded is answered with who decided what, on which request, and where it stands.
pub proof fn lemma_what_a_recorded_decision_says(g: GateDecision, envelope_id: Seq<char>)
    ensures
        ({
            let d = recorded_doc(g, envelope_id);
            &&& d->Record_0.len() == 6
            &&& d.get("decided-by"@) == Some(Doc::Text(g.decided_by@))
            &&& d.get("decision"@) == Some(Doc::Text(g.verdict@))
            &&& d.get("envelope-id"@) == Some(Doc::Text(envelope_id))
            &&& d.get("request-hash"@) == Some(Doc::Text(g.request_hash@))
            &&& d.get("result"@) == Some(Doc::Text("recorded"@))
            &&& d.get("stozher"@) == Some(Doc::Text("stozher/0.1"@))
        }),
{
    reveal_strlit("decided-by");
    reveal_strlit("decision");
    reveal_strlit("envelope-id");
    reveal_strlit("request-hash");
    reveal_strlit("result");
    reveal_strlit("stozher");
    assert("decided-by"@.len() == 10);
    assert("decision"@.len() == 8);
    assert("envelope-id"@.len() == 11);
    assert("request-hash"@.len() == 12);
    assert("result"@.len() == 6);
    assert("stozher"@.len() == 7);
    let members = recorded_doc(g, envelope_id)->Record_0;
    crate::json::lemma_lookup_at(members, "decided-by"@, 0);
    crate::json::lemma_lookup_at(members, "decision"@, 1);
    crate::json::lemma_lookup_at(members, "envelope-id"@, 2);
    crate::json::lemma_lookup_at(members, "request-hash"@, 3);
    crate::json::lemma_lookup_at(members, "result"@, 4);
    crate::json::lemma_lookup_at(members, "stozher"@, 5);
}

/// What was refused is answered with why, and is not to be tried again.
pub proof fn lemma_what_a_refused_decision_says(code: Seq<char>, reason: Seq<char>)
    ensures
        ({
            let d = refusal_doc(code, reason);
            &&& d->Record_0.len() == 5
            &&& d.get("reason"@) == Some(Doc::Text(reason))
            &&& d.get("reason-code"@) == Some(Doc::Text(code))
            &&& d.get("result"@) == Some(Doc::Text("rejected"@))
            &&& d.get("retryable"@) == Some(Doc::Bool(false))
            &&& d.get("stozher"@) == Some(Doc::Text("stozher/0.1"@))
        }),
{
    reveal_strlit("reason");
    reveal_strlit("reason-code");
    reveal_strlit("result");
    reveal_strlit("retryable");
    reveal_strlit("stozher");
    assert("reason"@.len() == 6);
    assert("reason-code"@.len() == 11);
    assert("result"@.len() == 6);
    assert("retryable"@.len() == 9);
    assert("stozher"@.len() == 7);
    assert("result"@[2] == 's');
    assert("reason"@[2] == 'a');
    let members = refusal_doc(code, reason)->Record_0;
    crate::json::lemma_lookup_at(members, "reason"@, 0);
    crate::json::lemma_lookup_at(members, "reason-code"@, 1);
    crate::json::lemma_lookup_at(members, "result"@, 2);
    crate::json::lemma_lookup_at(members, "retryable"@, 3);
    crate::json::lemma_lookup_at(members, "stozher"@, 4);
}

} // verus!
