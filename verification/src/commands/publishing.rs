//! Recording what was approved: reading the decision and the head of the stream, and building the
//! envelope that extends it.

use vstd::prelude::*;

use crate::arguments::{flag, flag_i64, flag_or, number_or, value, value_or};
use crate::clock::{shift, shifted};
use crate::commands::requests::{ENROL_ROOT, PUBLISH_POLICY};
use crate::commands::{failed, failing, held64, refused, refused_with, seconds_in, Answer};
use crate::documents::{
    authorization, authorization_doc, envelope, envelope_doc, evidence, evidence_doc, execution,
    execution_doc, identity, identity_doc, payload, payload_doc,
};
use crate::error::Error;
use crate::json::{docs, entry_named, find_entry, member, member_docs, text, Doc, Json};
use crate::text::{
    contains, decimal, has_part, join2, join3, join4, join5, or_empty, same, text_or_empty, texts,
};

verus! {

/// How long the evidence of what is published is kept, in seconds, where nothing else is said.
pub const EVIDENCE_SECONDS: i64 = 31_536_000;

/// How often a contended position is tried.
pub const PUBLISH_ATTEMPTS: u64 = 4;

// -- what a kernel answers --------------------------------------------------------------------

/// Whether a refusal says that another writer has taken the position.
pub open spec fn is_contended(body: Seq<char>) -> bool {
    has_part(body, "chain-seq-duplicate"@) || has_part(body, "chain-prev-hash-mismatch"@)
}

/// Whether a refusal says that another writer has taken the position.
pub fn contended(body: &str) -> (r: bool)
    ensures
        r == is_contended(body@),
{
    contains(body, "chain-seq-duplicate") || contains(body, "chain-prev-hash-mismatch")
}

/// The approval in what a kernel answers of a parked request, or why there is none to use: a
/// denial is terminal, and no answer is no approval.
pub open spec fn approval_in(
    request_hash: Seq<char>,
    read: Result<Answer, String>,
    parsed: Result<Json, String>,
) -> Result<Doc, Seq<char>> {
    if let Err(m) = read {
        Err("reading the parked request: "@ + m@)
    } else if !(read->Ok_0).is_ok() {
        Err(
            refused_with(
                "the kernel has no answerable request "@ + request_hash,
                (read->Ok_0).status as int,
            ) + ": "@ + (read->Ok_0).body@,
        )
    } else if let Err(m) = parsed {
        Err("the kernel's answer: "@ + m@)
    } else {
        let decision = (parsed->Ok_0)@.at("decision"@);
        let verdict = decision.text_at("decision"@);
        if decision is Null {
            Err(request_hash + " has not been answered yet — a root must approve it first"@)
        } else if verdict == Some("approve"@) {
            Ok(decision)
        } else if verdict == Some("deny"@) {
            Err(
                request_hash + " was denied: "@ + match decision.text_at("reason"@) {
                    Some(reason) => reason,
                    None => "no reason recorded"@,
                },
            )
        } else {
            Err(request_hash + " carries no readable decision"@)
        }
    }
}

/// The approval in what a kernel answers of a parked request, or why there is none to use.
pub fn fetch_decision(
    request_hash: &str,
    read: &Result<Answer, String>,
    parsed: &Result<Json, String>,
) -> (r: Result<Json, String>)
    ensures
        match approval_in(request_hash@, *read, *parsed) {
            Ok(d) => r matches Ok(v) && v@ == d,
            Err(m) => r matches Err(e) && e@ == m,
        },
{
    let answer = match read {
        Ok(a) => a,
        Err(m) => {
            return Err(join2("reading the parked request: ", m.as_str()));
        },
    };
    if !answer.ok() {
        let said = refused(
            join2("the kernel has no answerable request ", request_hash).as_str(),
            answer.status,
        );
        return Err(join3(said.as_str(), ": ", answer.body.as_str()));
    }
    let parked = match parsed {
        Ok(p) => p,
        Err(m) => {
            return Err(join2("the kernel's answer: ", m.as_str()));
        },
    };
    let decision = parked.at("decision");
    if decision.is_null() {
        return Err(
            join2(request_hash, " has not been answered yet — a root must approve it first"),
        );
    }
    let verdict = match decision.text_at("decision") {
        Some(v) => v,
        None => {
            return Err(join2(request_hash, " carries no readable decision"));
        },
    };
    if same(verdict, "approve") {
        return Ok(decision.copy());
    }
    if same(verdict, "deny") {
        let reason = match decision.text_at("reason") {
            Some(reason) => reason,
            None => "no reason recorded",
        };
        return Err(join3(request_hash, " was denied: ", reason));
    }
    Err(join2(request_hash, " carries no readable decision"))
}

/// The position an envelope that extends a stream takes, in what a kernel answers of its streams:
/// behind a head that can be followed. A stream that holds nothing is not a fresh start.
pub open spec fn place_in(
    stream: Seq<char>,
    read: Result<Answer, String>,
    parsed: Result<Json, String>,
) -> Result<(int, Doc), Seq<char>> {
    if let Err(m) = read {
        Err("reading the streams: "@ + m@)
    } else if !(read->Ok_0).is_ok() {
        Err(
            refused_with("the kernel refused /v1/streams"@, (read->Ok_0).status as int),
        )
    } else if let Err(m) = parsed {
        Err("the kernel's answer: "@ + m@)
    } else {
        match entry_named((parsed->Ok_0)@.at("streams"@).items(), "stream"@, stream, 0) {
            Some(row) => match row.at("head-seq"@).as_u64() {
                Some(seq) => if seq < u64::MAX {
                    Ok((seq + 1, row.at("head-hash"@)))
                } else {
                    Err(stream + " has no readable head"@)
                },
                None => Err(stream + " has no readable head"@),
            },
            None => Err(
                stream
                    + " holds nothing — check --stream against the kernel's kernel-core-stream"@,
            ),
        }
    }
}

/// The position an envelope that extends a stream takes.
pub fn head_of(
    stream: &str,
    read: &Result<Answer, String>,
    parsed: &Result<Json, String>,
) -> (r: Result<(u64, Json), String>)
    ensures
        match place_in(stream@, *read, *parsed) {
            Ok((seq, prev)) => r matches Ok((s, p)) && s == seq && p@ == prev,
            Err(m) => r matches Err(e) && e@ == m,
        },
{
    let answer = match read {
        Ok(a) => a,
        Err(m) => {
            return Err(join2("reading the streams: ", m.as_str()));
        },
    };
    if !answer.ok() {
        return Err(refused("the kernel refused /v1/streams", answer.status));
    }
    let listed = match parsed {
        Ok(p) => p,
        Err(m) => {
            return Err(join2("the kernel's answer: ", m.as_str()));
        },
    };
    match find_entry(listed.at("streams"), "stream", stream) {
        Some(row) => match row.at("head-seq").as_u64() {
            Some(seq) => if seq < u64::MAX {
                Ok((seq + 1, row.at("head-hash").copy()))
            } else {
                Err(join2(stream, " has no readable head"))
            },
            None => Err(join2(stream, " has no readable head")),
        },
        None => Err(
            join2(
                stream,
                " holds nothing — check --stream against the kernel's kernel-core-stream",
            ),
        ),
    }
}

// -- what is done with the answer -------------------------------------------------------------

/// What follows a submission.
#[derive(Debug)]
pub enum Published {
    /// It is recorded.
    Recorded,
    /// The position was taken; it is tried again after so many milliseconds.
    Again(u64),
    /// The position was taken every time; nothing was recorded, and it may be tried again.
    Contended(String),
    /// It was refused, or could not be sent.
    Refused(String),
}

/// How long to wait behind an attempt, in milliseconds: twice as long each time.
pub open spec fn pause_behind(attempt: int) -> int
    decreases attempt,
{
    if attempt <= 0 {
        200
    } else {
        2 * pause_behind(attempt - 1)
    }
}

fn pause(attempt: u64) -> (r: u64)
    requires
        attempt < PUBLISH_ATTEMPTS,
    ensures
        r == pause_behind(attempt as int),
{
    reveal_with_fuel(pause_behind, 5);
    if attempt == 0 {
        200
    } else if attempt == 1 {
        400
    } else if attempt == 2 {
        800
    } else {
        1_600
    }
}

/// What follows the submission of a policy, on the attempt with a number: losing the position is
/// ordinary and is tried again while there are attempts left.
pub fn after_publish(command: &str, attempt: u64, sent: &Result<Answer, String>) -> (r: Published)
    requires
        attempt < PUBLISH_ATTEMPTS,
    ensures
        match sent {
            Err(m) => r matches Published::Refused(s) && s@ == command@ + ": "@ + m@,
            Ok(a) => if a.is_ok() {
                r is Recorded
            } else if is_contended(a.body@) && attempt + 1 < PUBLISH_ATTEMPTS {
                r == Published::Again(pause_behind(attempt as int) as u64)
            } else {
                r matches Published::Refused(s) && s@ == refused_with(
                    "the kernel refused it"@,
                    a.status as int,
                )
            },
        },
{
    let answer = match sent {
        Ok(a) => a,
        Err(m) => {
            return Published::Refused(join3(command, ": ", m.as_str()));
        },
    };
    if answer.ok() {
        return Published::Recorded;
    }
    if attempt + 1 < PUBLISH_ATTEMPTS && contended(answer.body.as_str()) {
        let millis: u64 = pause(attempt);
        assert(pause_behind(attempt as int) == millis);
        return Published::Again(millis);
    }
    Published::Refused(refused("the kernel refused it", answer.status))
}

/// What follows the submission of an effect or of a change of the root set, on the attempt with a
/// number. Having lost the position every time is not a refusal, and is not said as one.
pub fn after_effect(
    command: &str,
    stream: &str,
    attempt: u64,
    sent: &Result<Answer, String>,
) -> (r: Published)
    requires
        attempt < PUBLISH_ATTEMPTS,
    ensures
        match sent {
            Err(m) => r matches Published::Refused(s) && s@ == command@ + ": "@ + m@,
            Ok(a) => if a.is_ok() {
                r is Recorded
            } else if !is_contended(a.body@) {
                r matches Published::Refused(s) && s@ == refused_with(
                    "the kernel refused it"@,
                    a.status as int,
                )
            } else if attempt + 1 < PUBLISH_ATTEMPTS {
                r == Published::Again(pause_behind(attempt as int) as u64)
            } else {
                r matches Published::Contended(s) && s@ == stream@ + " stayed contended for "@
                    + decimal(PUBLISH_ATTEMPTS as nat) + " attempts; nothing was recorded"@
            },
        },
{
    if let Ok(answer) = sent {
        if !answer.ok() && attempt + 1 >= PUBLISH_ATTEMPTS && contended(answer.body.as_str()) {
            return Published::Contended(
                join4(
                    stream,
                    " stayed contended for ",
                    crate::text::decimal_text(PUBLISH_ATTEMPTS).as_str(),
                    " attempts; nothing was recorded",
                ),
            );
        }
    }
    after_publish(command, attempt, sent)
}

// -- publishing a policy ----------------------------------------------------------------------

/// What `policy-publish` is asked for.
#[derive(Debug)]
pub struct PublishAsk {
    /// Where the kernel is reached.
    pub url: String,
    /// Where the request lies.
    pub request_path: String,
    /// Where the document lies.
    pub document_path: String,
    /// Where the publisher's seed lies.
    pub key_path: String,
    /// The stream it is recorded on.
    pub stream: String,
}

/// What `policy-publish` is asked for.
pub fn publish_ask(arguments: &[String]) -> (r: Result<PublishAsk, String>)
    ensures
        ({
            let args = texts(arguments@);
            if flag(args, "--url"@) is None || flag(args, "--request"@) is None || flag(
                args,
                "--document"@,
            ) is None || flag(args, "--key"@) is None {
                r matches Err(e) && e@
                    == "policy-publish requires --url <base>, --request <path>, --document <path> and --key <path>"@
            } else {
                r matches Ok(a) && {
                    &&& Some(a.url@) == flag(args, "--url"@)
                    &&& Some(a.request_path@) == flag(args, "--request"@)
                    &&& Some(a.document_path@) == flag(args, "--document"@)
                    &&& Some(a.key_path@) == flag(args, "--key"@)
                    &&& a.stream@ == flag_or(args, "--stream"@, "kernel:core"@)
                }
            }
        }),
{
    match (
        value(arguments, "--url"),
        value(arguments, "--request"),
        value(arguments, "--document"),
        value(arguments, "--key"),
    ) {
        (Some(u), Some(q), Some(d), Some(k)) => Ok(
            PublishAsk {
                url: u.to_owned(),
                request_path: q.to_owned(),
                document_path: d.to_owned(),
                key_path: k.to_owned(),
                stream: value_or(arguments, "--stream", "kernel:core").to_owned(),
            },
        ),
        _ => Err(
            "policy-publish requires --url <base>, --request <path>, --document <path> and --key <path>".to_owned(),
        ),
    }
}

/// What is wrong with publishing a document under a request: they are read, and the document is
/// hashed again rather than trusted.
pub open spec fn document_refusal(
    ask: PublishAsk,
    request: Doc,
    request_hash: Result<String, Error>,
    document_hash: Result<String, Error>,
) -> Option<Seq<char>> {
    if let Err(e) = request_hash {
        Some(failing("hashing the request"@, e@))
    } else if let Err(e) = document_hash {
        Some(failing("hashing the document"@, e@))
    } else {
        let committed = request.text_at("args-hash"@);
        let found = (document_hash->Ok_0)@;
        if committed == Some(found) {
            None
        } else {
            Some(
                ask.document_path@ + " is not the document "@ + ask.request_path@
                    + " asks to publish: the request commits to "@ + match committed {
                    Some(h) => h,
                    None => "nothing"@,
                } + ", this file hashes to "@ + found,
            )
        }
    }
}

/// Checks that a document is the one a request asks to publish.
pub fn check_document(
    ask: &PublishAsk,
    request: &Json,
    request_hash: &Result<String, Error>,
    document_hash: &Result<String, Error>,
) -> (r: Result<(), String>)
    ensures
        match document_refusal(*ask, request@, *request_hash, *document_hash) {
            Some(m) => r matches Err(e) && e@ == m,
            None => r is Ok,
        },
{
    if let Err(e) = request_hash {
        return Err(failed("hashing the request", e));
    }
    let found = match document_hash {
        Ok(h) => h,
        Err(e) => {
            return Err(failed("hashing the document", e));
        },
    };
    let committed = match request.text_at("args-hash") {
        Some(h) => {
            if same(h, found.as_str()) {
                return Ok(());
            }
            h
        },
        None => "nothing",
    };
    let mut out = join5(
        ask.document_path.as_str(),
        " is not the document ",
        ask.request_path.as_str(),
        " asks to publish: the request commits to ",
        committed,
    );
    out.push_str(", this file hashes to ");
    out.push_str(found.as_str());
    Err(out)
}

/// What recording an approved request rests on, each with what went wrong where it could not be
/// had.
#[derive(Debug)]
pub struct PublishFacts {
    /// The approval.
    pub decision: Result<Json, String>,
    /// The key that signs.
    pub key: Result<crate::keys::KeyId, String>,
    /// The instant.
    pub now: Result<String, String>,
    /// The position.
    pub head: Result<(u64, Json), String>,
}

/// The members of a policy change.
pub open spec fn policy_change_members(
    request: Doc,
    decision: Doc,
    hash: Seq<char>,
    now: Seq<char>,
    until: Seq<char>,
) -> Seq<(Seq<char>, Doc)> {
    seq![
        ("authorization"@, authorization_doc(request, decision)),
        ("classification"@, Doc::Text("consequential"@)),
        ("evidence"@, evidence_doc("kernel.publish_policy.v1"@, hash, until)),
        (
            "execution"@,
            execution_doc(
                Doc::Text(PUBLISH_POLICY@),
                request.at("target"@),
                Doc::Text(hash),
                now,
            ),
        ),
        ("mandate-ref"@, request.at("mandate-ref"@)),
        ("policy-version"@, request.at("policy-version"@)),
    ]
}

/// The envelope that publishes an approved document, unsigned: it extends the stream, carries the
/// request and the approval, and commits to the document's hash.
pub open spec fn policy_change(
    ask: PublishAsk,
    request: Doc,
    request_hash: Result<String, Error>,
    document_hash: Result<String, Error>,
    facts: PublishFacts,
) -> Result<Doc, Seq<char>> {
    if let Some(m) = document_refusal(ask, request, request_hash, document_hash) {
        Err(m)
    } else if let Err(m) = facts.decision {
        Err(m@)
    } else if let Err(m) = facts.key {
        Err(m@)
    } else if let Err(m) = facts.now {
        Err(m@)
    } else {
        let now = (facts.now->Ok_0)@;
        let until = shifted(now, EVIDENCE_SECONDS as int);
        if let Err(f) = until {
            Err(failing("clock"@, f))
        } else if let Err(m) = facts.head {
            Err(m@)
        } else {
            let (seq, prev) = facts.head->Ok_0;
            Ok(
                envelope_doc(
                    "policy-change"@,
                    ask.stream@,
                    seq as int,
                    prev@,
                    now,
                    identity_doc(
                        request.at("subject"@),
                        (facts.key->Ok_0)@,
                        Doc::Text("kernel"@),
                    ),
                    policy_change_members(
                        request,
                        (facts.decision->Ok_0)@,
                        (document_hash->Ok_0)@,
                        now,
                        until->Ok_0,
                    ),
                ),
            )
        }
    }
}

/// The envelope that publishes an approved document, unsigned.
pub fn policy_publish(
    ask: &PublishAsk,
    request: &Json,
    request_hash: &Result<String, Error>,
    document_hash: &Result<String, Error>,
    facts: &PublishFacts,
) -> (r: Result<Json, String>)
    ensures
        match policy_change(*ask, request@, *request_hash, *document_hash, *facts) {
            Ok(d) => r matches Ok(v) && v@ == d,
            Err(m) => r matches Err(e) && e@ == m,
        },
{
    check_document(ask, request, request_hash, document_hash)?;
    let hash = match document_hash {
        Ok(h) => h,
        Err(e) => {
            return Err(failed("hashing the document", e));
        },
    };
    let decision = match &facts.decision {
        Ok(d) => d,
        Err(m) => {
            return Err(m.clone());
        },
    };
    let key = match &facts.key {
        Ok(k) => k,
        Err(m) => {
            return Err(m.clone());
        },
    };
    let now = match &facts.now {
        Ok(n) => n,
        Err(m) => {
            return Err(m.clone());
        },
    };
    let until = match shift(now.as_str(), EVIDENCE_SECONDS) {
        Ok(t) => t,
        Err(e) => {
            return Err(failed("clock", &e));
        },
    };
    let (seq, prev) = match &facts.head {
        Ok((s, p)) => (*s, p),
        Err(m) => {
            return Err(m.clone());
        },
    };
    let ghost expected = policy_change_members(request@, decision@, hash@, now@, until@);
    let mut more: Vec<(String, Json)> = Vec::new();
    more.push(member("authorization", authorization(request, decision)));
    more.push(member("classification", text("consequential")));
    more.push(
        member(
            "evidence",
            evidence("kernel.publish_policy.v1", hash.as_str(), until.as_str()),
        ),
    );
    more.push(
        member(
            "execution",
            execution(
                text(PUBLISH_POLICY),
                request.at("target").copy(),
                text(hash.as_str()),
                now.as_str(),
            ),
        ),
    );
    more.push(member("mandate-ref", request.at("mandate-ref").copy()));
    more.push(member("policy-version", request.at("policy-version").copy()));
    assert(member_docs(more@) =~= expected);
    let emitter = identity(request.at("subject").copy(), key.as_str(), text("kernel"));
    Ok(
        envelope(
            "policy-change",
            ask.stream.as_str(),
            seq,
            prev.copy(),
            now.as_str(),
            emitter,
            &more,
        ),
    )
}

// -- publishing anything else -----------------------------------------------------------------

/// What a publication carries besides the envelope: its evidence, where there is one, and the
/// payloads.
#[derive(Debug)]
pub struct Carried {
    /// What the envelope commits to.
    pub evidence: Option<Json>,
    /// What travels with it.
    pub payloads: Vec<Json>,
}

/// Whether what is carried is one document under a schema, kept until an instant.
pub open spec fn carries(
    c: Carried,
    schema: Seq<char>,
    hash: Seq<char>,
    document: Doc,
    until: Seq<char>,
) -> bool {
    &&& crate::gatequeue::opt_json(c.evidence) == Some(evidence_doc(schema, hash, until))
    &&& docs(c.payloads@) == seq![payload_doc(hash, document)]
}

/// Whether nothing is carried.
pub open spec fn carries_nothing(c: Carried) -> bool {
    c.evidence is None && c.payloads@.len() == 0
}

fn carried(schema: &str, hash: &str, document: &Json, until: &str) -> (r: Carried)
    ensures
        carries(r, schema@, hash@, document@, until@),
{
    let mut payloads: Vec<Json> = Vec::new();
    payloads.push(payload(hash, document));
    assert(docs(payloads@) =~= seq![payload_doc(hash@, document@)]);
    Carried { evidence: Some(evidence(schema, hash, until)), payloads }
}

/// A document read again from a file, with its hash.
#[derive(Debug)]
pub struct Reread {
    /// Where it lies.
    pub path: String,
    /// The document.
    pub document: Json,
    /// Its hash.
    pub hash: Result<String, Error>,
}

/// Whether a request asks to enrol a root.
pub fn is_enrolment(request: &Json) -> (r: bool)
    ensures
        r == (request@.text_at("action"@) == Some(ENROL_ROOT@)),
{
    match request.text_at("action") {
        Some(a) => same(a, ENROL_ROOT),
        None => false,
    }
}

/// What is wrong with the evidence of an enrolment: it is read and hashed again rather than
/// trusted, and must be what was approved.
pub open spec fn enrolment_refusal(request: Doc, evidence: Reread) -> Option<Seq<char>> {
    let committed = or_empty(request.text_at("args-hash"@));
    match evidence.hash {
        Err(e) => Some(failing("hashing "@ + evidence.path@, e@)),
        Ok(h) => if h@ == committed {
            None
        } else {
            Some(
                evidence.path@ + " hashes to "@ + h@ + ", the request commits to "@ + committed
                    + ": this is not the evidence that was approved"@,
            )
        },
    }
}

/// What the record of a change of the root set carries: the evidence of an enrolment, which is
/// what was approved, and nothing for a retirement.
pub fn root_publish(
    request: &Json,
    evidence: Option<&Reread>,
    now: &Result<String, String>,
) -> (r: Result<Carried, String>)
    ensures
        match evidence {
            None => r matches Ok(c) && carries_nothing(c),
            Some(e) => match enrolment_refusal(request@, *e) {
                Some(m) => r matches Err(x) && x@ == m,
                None => match now {
                    Err(m) => r matches Err(x) && x@ == m@,
                    Ok(n) => match shifted(n@, EVIDENCE_SECONDS as int) {
                        Err(f) => r matches Err(x) && x@ == failing("clock"@, f),
                        Ok(until) => r matches Ok(c) && carries(
                            c,
                            "kernel.enroll_root.v1"@,
                            (e.hash->Ok_0)@,
                            e.document@,
                            until,
                        ),
                    },
                },
            },
        },
{
    let reread = match evidence {
        None => {
            return Ok(Carried { evidence: None, payloads: Vec::new() });
        },
        Some(e) => e,
    };
    let committed = text_or_empty(request.text_at("args-hash"));
    let hash = match &reread.hash {
        Ok(h) => h,
        Err(e) => {
            return Err(failed(join2("hashing ", reread.path.as_str()).as_str(), e));
        },
    };
    if !same(hash.as_str(), committed) {
        let mut out = join5(
            reread.path.as_str(),
            " hashes to ",
            hash.as_str(),
            ", the request commits to ",
            committed,
        );
        out.push_str(": this is not the evidence that was approved");
        return Err(out);
    }
    let at = match now {
        Ok(n) => n,
        Err(m) => {
            return Err(m.clone());
        },
    };
    match shift(at.as_str(), EVIDENCE_SECONDS) {
        Ok(until) => Ok(
            carried("kernel.enroll_root.v1", hash.as_str(), &reread.document, until.as_str()),
        ),
        Err(e) => Err(failed("clock", &e)),
    }
}

/// How many days evidence is kept, where nothing else is said.
pub const DEFAULT_RETAIN_DAYS: i64 = 365;

/// What the record of an action carries: the evidence that is named, where one is, under the
/// schema that is named or one made of the action's name.
pub fn effect_publish(
    arguments: &[String],
    request: &Json,
    evidence: Option<&Reread>,
    now: &Result<String, String>,
) -> (r: Result<Carried, String>)
    ensures
        match evidence {
            None => r matches Ok(c) && carries_nothing(c),
            Some(e) => match e.hash {
                Err(_) => r matches Err(x) && x@ == "hashing "@ + e.path@,
                Ok(h) => match now {
                    Err(m) => r matches Err(x) && x@ == m@,
                    Ok(n) => match shifted(
                        n@,
                        held64(
                            flag_i64(
                                texts(arguments@),
                                "--retain-days"@,
                                DEFAULT_RETAIN_DAYS as int,
                            ) * 86_400,
                        ),
                    ) {
                        Err(f) => r matches Err(x) && x@ == failing("clock"@, f),
                        Ok(until) => r matches Ok(c) && carries(
                            c,
                            flag_or(
                                texts(arguments@),
                                "--schema"@,
                                or_empty(request@.text_at("action"@)) + ".v1"@,
                            ),
                            h@,
                            e.document@,
                            until,
                        ),
                    },
                },
            },
        },
{
    let reread = match evidence {
        None => {
            return Ok(Carried { evidence: None, payloads: Vec::new() });
        },
        Some(e) => e,
    };
    let hash = match &reread.hash {
        Ok(h) => h,
        Err(_) => {
            return Err(join2("hashing ", reread.path.as_str()));
        },
    };
    let at = match now {
        Ok(n) => n,
        Err(m) => {
            return Err(m.clone());
        },
    };
    let days: i64 = number_or(arguments, "--retain-days", DEFAULT_RETAIN_DAYS);
    let until = match shift(at.as_str(), seconds_in(days, 86_400)) {
        Ok(until) => until,
        Err(e) => {
            return Err(failed("clock", &e));
        },
    };
    let usual = join2(text_or_empty(request.text_at("action")), ".v1");
    let schema = value_or(arguments, "--schema", usual.as_str());
    Ok(carried(schema, hash.as_str(), &reread.document, until.as_str()))
}

/// The members of an effect.
pub open spec fn effect_members(
    request: Doc,
    decision: Doc,
    evidence: Option<Doc>,
    now: Seq<char>,
) -> Seq<(Seq<char>, Doc)> {
    let members = seq![
        ("authorization"@, authorization_doc(request, decision)),
        ("classification"@, request.at("classification"@)),
        (
            "execution"@,
            execution_doc(
                request.at("action"@),
                request.at("target"@),
                request.at("args-hash"@),
                now,
            ),
        ),
        ("mandate-ref"@, request.at("mandate-ref"@)),
        ("policy-version"@, request.at("policy-version"@)),
    ];
    match evidence {
        Some(e) => members.push(("evidence"@, e)),
        None => members,
    }
}

/// The envelope that records the effect an approved request describes, unsigned.
pub open spec fn effect_record(
    stream: Seq<char>,
    request: Doc,
    evidence: Option<Doc>,
    facts: PublishFacts,
) -> Result<Doc, Seq<char>> {
    if let Err(m) = facts.decision {
        Err(m@)
    } else if let Err(m) = facts.key {
        Err(m@)
    } else if let Err(m) = facts.now {
        Err(m@)
    } else if let Err(m) = facts.head {
        Err(m@)
    } else {
        let (seq, prev) = facts.head->Ok_0;
        let now = (facts.now->Ok_0)@;
        Ok(
            envelope_doc(
                "effect"@,
                stream,
                seq as int,
                prev@,
                now,
                identity_doc(
                    request.at("subject"@),
                    (facts.key->Ok_0)@,
                    request.at("component"@),
                ),
                effect_members(request, (facts.decision->Ok_0)@, evidence, now),
            ),
        )
    }
}

/// The envelope that records the effect an approved request describes, unsigned.
pub fn publish_effect(
    stream: &str,
    request: &Json,
    evidence: Option<&Json>,
    facts: &PublishFacts,
) -> (r: Result<Json, String>)
    ensures
        match effect_record(stream@, request@, crate::config::opt_doc(evidence), *facts) {
            Ok(d) => r matches Ok(v) && v@ == d,
            Err(m) => r matches Err(e) && e@ == m,
        },
{
    let decision = match &facts.decision {
        Ok(d) => d,
        Err(m) => {
            return Err(m.clone());
        },
    };
    let key = match &facts.key {
        Ok(k) => k,
        Err(m) => {
            return Err(m.clone());
        },
    };
    let now = match &facts.now {
        Ok(n) => n,
        Err(m) => {
            return Err(m.clone());
        },
    };
    let (seq, prev) = match &facts.head {
        Ok((s, p)) => (*s, p),
        Err(m) => {
            return Err(m.clone());
        },
    };
    let ghost expected = effect_members(
        request@,
        decision@,
        crate::config::opt_doc(evidence),
        now@,
    );
    let mut more: Vec<(String, Json)> = Vec::new();
    more.push(member("authorization", authorization(request, decision)));
    more.push(member("classification", request.at("classification").copy()));
    more.push(
        member(
            "execution",
            execution(
                request.at("action").copy(),
                request.at("target").copy(),
                request.at("args-hash").copy(),
                now.as_str(),
            ),
        ),
    );
    more.push(member("mandate-ref", request.at("mandate-ref").copy()));
    more.push(member("policy-version", request.at("policy-version").copy()));
    if let Some(e) = evidence {
        more.push(member("evidence", e.copy()));
    }
    assert(member_docs(more@) =~= expected);
    let emitter = identity(
        request.at("subject").copy(),
        key.as_str(),
        request.at("component").copy(),
    );
    Ok(envelope("effect", stream, seq, prev.copy(), now.as_str(), emitter, &more))
}

// -- laws -------------------------------------------------------------------------------------

/// Nothing is published that nobody approved: the document of a policy change is the one its
/// request commits to.
pub proof fn lemma_published_policies_are_the_approved(
    ask: PublishAsk,
    request: Doc,
    request_hash: Result<String, Error>,
    document_hash: Result<String, Error>,
    facts: PublishFacts,
)
    requires
        policy_change(ask, request, request_hash, document_hash, facts) is Ok,
    ensures
        document_hash matches Ok(h) && request.text_at("args-hash"@) == Some(h@),
{
}

/// A denial is terminal: what a kernel answers of a request gives something to publish under only
/// where a named human approved it.
pub proof fn lemma_only_approvals_are_published(
    request_hash: Seq<char>,
    read: Result<Answer, String>,
    parsed: Result<Json, String>,
)
    requires
        approval_in(request_hash, read, parsed) is Ok,
    ensures
        (approval_in(request_hash, read, parsed)->Ok_0).text_at("decision"@) == Some("approve"@),
{
}

/// A second chain is never begun beside the real one: an envelope that is published is never the
/// first of its stream.
pub proof fn lemma_publications_extend_a_chain(
    stream: Seq<char>,
    read: Result<Answer, String>,
    parsed: Result<Json, String>,
)
    requires
        place_in(stream, read, parsed) is Ok,
    ensures
        ({
            let (seq, prev) = place_in(stream, read, parsed)->Ok_0;
            seq > 0
        }),
{
}

/// What is approved is exactly what the kernel answered, could be read and says `approve`; a denial,
/// no answer yet and anything else are not.
pub proof fn lemma_what_is_approved(
    request_hash: Seq<char>,
    read: Result<Answer, String>,
    parsed: Result<Json, String>,
)
    ensures
        approval_in(request_hash, read, parsed) is Ok <==> {
            &&& read matches Ok(a) && 200 <= a.status < 300
            &&& parsed matches Ok(d) && d@.at("decision"@).at("decision"@) == Doc::Text("approve"@)
        },
        approval_in(request_hash, read, parsed) matches Ok(decision) ==> (parsed->Ok_0)@.at(
            "decision"@,
        ) == decision,
{
    reveal_strlit("approve");
    reveal_strlit("deny");
    assert("approve"@.len() != "deny"@.len());
}

/// The next place of a stream is the one behind its head, wherever among the streams it is listed,
/// and it is found exactly where the kernel answered and the stream has a head that can be read.
pub proof fn lemma_which_place_is_next(
    stream: Seq<char>,
    read: Result<Answer, String>,
    parsed: Result<Json, String>,
    k: int,
)
    requires
        read matches Ok(a) && 200 <= a.status < 300,
        parsed is Ok,
        0 <= k < (parsed->Ok_0)@.at("streams"@).items().len(),
        (parsed->Ok_0)@.at("streams"@).items()[k].at("stream"@) == Doc::Text(stream),
        forall|j: int|
            0 <= j < k ==> (#[trigger] (parsed->Ok_0)@.at("streams"@).items()[j]).at("stream"@)
                != Doc::Text(stream),
    ensures
        ({
            let row = (parsed->Ok_0)@.at("streams"@).items()[k];
            match row.at("head-seq"@) {
                Doc::Int(n) => if 0 <= n < u64::MAX {
                    place_in(stream, read, parsed) == Ok::<(int, Doc), Seq<char>>(
                        (n + 1, row.at("head-hash"@)),
                    )
                } else {
                    place_in(stream, read, parsed) is Err
                },
                _ => place_in(stream, read, parsed) is Err,
            }
        }),
{
    let rows = (parsed->Ok_0)@.at("streams"@).items();
    crate::json::lemma_the_first_entry_is_found(rows, "stream"@, stream, 0);
    match entry_named(rows, "stream"@, stream, 0) {
        Some(entry) => {
            let i = choose|i: int|
                0 <= i < rows.len() && (#[trigger] rows[i]) == entry && entry.at("stream"@)
                    == Doc::Text(stream) && forall|j: int|
                    0 <= j < i ==> (#[trigger] rows[j]).at("stream"@) != Doc::Text(stream);
            if i < k {
                assert(rows[i].at("stream"@) != Doc::Text(stream));
            } else if k < i {
                assert(rows[k].at("stream"@) != Doc::Text(stream));
            }
        },
        None => {
            assert(rows[k].at("stream"@) != Doc::Text(stream));
        },
    }
}

/// Only a lost race is contended: a place that was taken, or a head that had moved on.
pub proof fn lemma_what_is_contended(body: Seq<char>)
    ensures
        is_contended(body) <==> has_part(body, "chain-seq-duplicate"@) || has_part(
            body,
            "chain-prev-hash-mismatch"@,
        ),
{
}

/// Each pause is twice the one before it, from a fifth of a second on.
pub proof fn lemma_publishing_backs_off(attempt: int)
    requires
        attempt >= 0,
    ensures
        pause_behind(0) == 200,
        pause_behind(attempt + 1) == 2 * pause_behind(attempt),
{
}

/// A document may be published exactly where both could be hashed and it is the one that the request
/// commits to.
pub proof fn lemma_which_document_may_be_published(
    ask: PublishAsk,
    request: Doc,
    request_hash: Result<String, Error>,
    document_hash: Result<String, Error>,
)
    ensures
        document_refusal(ask, request, request_hash, document_hash) is None <==> request_hash is Ok
            && (document_hash matches Ok(h) && request.at("args-hash"@) == Doc::Text(h@)),
{
}

/// Evidence goes with an enrolment exactly where it is what the request commits to.
pub proof fn lemma_which_evidence_goes_along(request: Doc, evidence: Reread)
    ensures
        enrolment_refusal(request, evidence) is None <==> (evidence.hash matches Ok(h) && h@
            == or_empty(request.text_at("args-hash"@))),
{
}

/// What is recorded of an effect is what was asked for and approved: under the same action, target,
/// arguments, class, mandate and policy, with the request and its decision beside it, and evidence
/// where there is any.
pub proof fn lemma_what_an_effect_records(
    request: Doc,
    decision: Doc,
    evidence: Option<Doc>,
    now: Seq<char>,
)
    ensures
        ({
            let d = Doc::Record(effect_members(request, decision, evidence, now));
            &&& d.get("authorization"@) == Some(authorization_doc(request, decision))
            &&& d.get("classification"@) == Some(request.at("classification"@))
            &&& d.get("execution"@) == Some(
                execution_doc(
                    request.at("action"@),
                    request.at("target"@),
                    request.at("args-hash"@),
                    now,
                ),
            )
            &&& d.get("mandate-ref"@) == Some(request.at("mandate-ref"@))
            &&& d.get("policy-version"@) == Some(request.at("policy-version"@))
            &&& d.get("evidence"@) == evidence
        }),
{
    reveal_strlit("authorization");
    reveal_strlit("classification");
    reveal_strlit("execution");
    reveal_strlit("mandate-ref");
    reveal_strlit("policy-version");
    reveal_strlit("evidence");
    assert("authorization"@.len() == 13);
    assert("classification"@.len() == 14);
    assert("execution"@.len() == 9);
    assert("mandate-ref"@.len() == 11);
    assert("policy-version"@.len() == 14);
    assert("evidence"@.len() == 8);
    assert("policy-version"@[0] == 'p');
    assert("classification"@[0] == 'c');
    let members = effect_members(request, decision, evidence, now);
    crate::json::lemma_lookup_at(members, "authorization"@, 0);
    crate::json::lemma_lookup_at(members, "classification"@, 1);
    crate::json::lemma_lookup_at(members, "execution"@, 2);
    crate::json::lemma_lookup_at(members, "mandate-ref"@, 3);
    crate::json::lemma_lookup_at(members, "policy-version"@, 4);
    if evidence is Some {
        crate::json::lemma_lookup_at(members, "evidence"@, 5);
    } else {
        crate::json::lemma_lookup_absent(members, "evidence"@);
    }
}

/// What is recorded of a change of policy is the document that was approved, by its hash, where the
/// request wanted it, as consequential, with the request and its decision beside it.
pub proof fn lemma_what_a_policy_change_records(
    request: Doc,
    decision: Doc,
    hash: Seq<char>,
    now: Seq<char>,
    until: Seq<char>,
)
    ensures
        ({
            let d = Doc::Record(policy_change_members(request, decision, hash, now, until));
            &&& d.get("authorization"@) == Some(authorization_doc(request, decision))
            &&& d.get("classification"@) == Some(Doc::Text("consequential"@))
            &&& d.get("evidence"@) == Some(
                evidence_doc("kernel.publish_policy.v1"@, hash, until),
            )
            &&& d.get("execution"@) == Some(
                execution_doc(
                    Doc::Text("kernel.publish_policy"@),
                    request.at("target"@),
                    Doc::Text(hash),
                    now,
                ),
            )
            &&& d.get("mandate-ref"@) == Some(request.at("mandate-ref"@))
            &&& d.get("policy-version"@) == Some(request.at("policy-version"@))
        }),
{
    reveal_strlit("authorization");
    reveal_strlit("classification");
    reveal_strlit("execution");
    reveal_strlit("mandate-ref");
    reveal_strlit("policy-version");
    reveal_strlit("evidence");
    assert("authorization"@.len() == 13);
    assert("classification"@.len() == 14);
    assert("execution"@.len() == 9);
    assert("mandate-ref"@.len() == 11);
    assert("policy-version"@.len() == 14);
    assert("evidence"@.len() == 8);
    assert("policy-version"@[0] == 'p');
    assert("classification"@[0] == 'c');
    let members = policy_change_members(request, decision, hash, now, until);
    crate::json::lemma_lookup_at(members, "authorization"@, 0);
    crate::json::lemma_lookup_at(members, "classification"@, 1);
    crate::json::lemma_lookup_at(members, "evidence"@, 2);
    crate::json::lemma_lookup_at(members, "execution"@, 3);
    crate::json::lemma_lookup_at(members, "mandate-ref"@, 4);
    crate::json::lemma_lookup_at(members, "policy-version"@, 5);
}

/// A publication is drawn up exactly where the document may be published and the decision, the key,
/// the time and the head are at hand.
pub proof fn lemma_when_a_publication_is_drawn_up(
    ask: PublishAsk,
    request: Doc,
    request_hash: Result<String, Error>,
    document_hash: Result<String, Error>,
    facts: PublishFacts,
)
    ensures
        policy_change(ask, request, request_hash, document_hash, facts) is Ok <==> {
            &&& document_refusal(ask, request, request_hash, document_hash) is None
            &&& facts.decision is Ok && facts.key is Ok && facts.now is Ok && facts.head is Ok
            &&& shifted((facts.now->Ok_0)@, 31_536_000) is Ok
        },
        effect_record(ask.stream@, request, None, facts) is Ok <==> facts.decision is Ok
            && facts.key is Ok && facts.now is Ok && facts.head is Ok,
{
}

/// What goes along with a publication is the document, under its hash, and evidence of the same
/// hash; or nothing.
pub proof fn lemma_what_goes_along(
    c: Carried,
    schema: Seq<char>,
    hash: Seq<char>,
    document: Doc,
    until: Seq<char>,
)
    ensures
        carries(c, schema, hash, document, until) ==> {
            &&& c.payloads@.len() == 1
            &&& c.payloads@[0]@.get("payload"@) == Some(document)
            &&& c.payloads@[0]@.get("payload-hash"@) == Some(Doc::Text(hash))
            &&& c.evidence matches Some(e) && e@.get("payload-hash"@) == Some(Doc::Text(hash))
                && e@.get("schema"@) == Some(Doc::Text(schema)) && e@.get("retain-until"@) == Some(
                Doc::Text(until),
            )
        },
        carries_nothing(c) ==> c.evidence is None && c.payloads@.len() == 0,
{
    crate::documents::lemma_what_a_payload_says(hash, document);
    crate::documents::lemma_what_evidence_says(schema, hash, until);
    if carries(c, schema, hash, document, until) {
        assert(docs(c.payloads@).len() == 1);
        assert(docs(c.payloads@)[0] == payload_doc(hash, document));
    }
}

} // verus!
