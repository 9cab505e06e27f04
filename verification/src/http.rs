//! What the routes answer. There is exactly one route that can cause an envelope to be appended,
//! and that is the one ingest answers; every other reads, or writes nothing the chain holds.

use vstd::prelude::*;

use crate::codes::{CALLER_UNAUTHENTICATED, STORE_UNAVAILABLE};
use crate::config::{caller_with, unresolved, Config};
use crate::crypto::sha256_hex_of;
use crate::error::{Error, Fault};
use crate::ingest::submission::Outcome;
use crate::json::{member, member_docs, record, text, text_or_null, Doc, Json};
use crate::text::{begins, opt_text, strip_prefix, trim, trimmed};
use crate::vocabulary::VERSION;

pub mod gate;
pub mod reads;

verus! {

/// An answer: a status and a document.
#[derive(Debug)]
pub struct Reply {
    /// The status.
    pub status: u16,
    /// The document.
    pub body: Json,
}

/// An answer.
pub struct Replied {
    /// The status.
    pub status: int,
    /// The document.
    pub body: Doc,
}

impl View for Reply {
    type V = Replied;

    open spec fn view(&self) -> Replied {
        Replied { status: self.status as int, body: self.body@ }
    }
}

/// A number, or null where there is none.
pub open spec fn number_or_null(n: Option<u64>) -> Doc {
    match n {
        Some(v) => Doc::Int(v as int),
        None => Doc::Null,
    }
}

/// A number, or null where there is none.
pub fn number_or_nothing(n: Option<u64>) -> (r: Json)
    ensures
        r@ == number_or_null(n),
{
    match n {
        Some(v) => Json::Unsigned(v),
        None => Json::Null,
    }
}

/// A refusal. Only one that says the kernel could not answer invites another try.
pub open spec fn refusal_reply(
    status: int,
    code: Seq<char>,
    reason: Seq<char>,
    seq: Option<u64>,
) -> Replied {
    Replied {
        status,
        body: Doc::Record(
            seq![
                ("failed-at-seq"@, number_or_null(seq)),
                ("reason"@, Doc::Text(reason)),
                ("reason-code"@, Doc::Text(code)),
                ("result"@, Doc::Text("rejected"@)),
                ("retryable"@, Doc::Bool(status == 503)),
                ("stozher"@, Doc::Text(VERSION@)),
            ],
        ),
    }
}

/// A refusal.
pub fn refusal(status: u16, code: &str, reason: &str, seq: Option<u64>) -> (r: Reply)
    ensures
        r@ == refusal_reply(status as int, code@, reason@, seq),
{
    let mut out: Vec<(String, Json)> = Vec::new();
    out.push(member("failed-at-seq", number_or_nothing(seq)));
    out.push(member("reason", text(reason)));
    out.push(member("reason-code", text(code)));
    out.push(member("result", text("rejected")));
    out.push(member("retryable", Json::Bool(status == 503)));
    out.push(member("stozher", text(VERSION)));
    assert(member_docs(out@) =~= refusal_reply(
        status as int,
        code@,
        reason@,
        seq,
    ).body->Record_0);
    Reply { status, body: record(out) }
}

/// What is answered where the store could not.
pub open spec fn unavailable_reply() -> Replied {
    refusal_reply(503, STORE_UNAVAILABLE@, "the kernel could not answer; retry"@, None)
}

/// What is answered where the store could not.
pub fn unavailable() -> (r: Reply)
    ensures
        r@ == unavailable_reply(),
{
    refusal(503, STORE_UNAVAILABLE, "the kernel could not answer; retry", None)
}

/// What is answered where an operation failed: an outage as such, and anything else as a refusal.
pub open spec fn failure_reply(f: Fault) -> Replied {
    if f.code == STORE_UNAVAILABLE@ {
        unavailable_reply()
    } else {
        refusal_reply(422, f.code, f.detail, f.seq)
    }
}

/// What is answered where an operation failed.
pub fn failure(e: &Error) -> (r: Reply)
    ensures
        r@ == failure_reply(e@),
{
    if crate::text::same(e.code(), STORE_UNAVAILABLE) {
        unavailable()
    } else {
        refusal(422, e.code(), e.detail(), e.seq())
    }
}

/// A document that was found, and how it is answered where there is none.
pub open spec fn found_reply(
    found: Result<Option<Json>, Error>,
    code: Seq<char>,
    reason: Seq<char>,
) -> Replied {
    match found {
        Ok(Some(d)) => Replied { status: 200, body: d@ },
        Ok(None) => refusal_reply(404, code, reason, None),
        Err(_) => unavailable_reply(),
    }
}

fn found_or(found: Result<Option<Json>, Error>, code: &str, reason: &str) -> (r: Reply)
    ensures
        r@ == found_reply(found, code@, reason@),
{
    match found {
        Ok(Some(d)) => Reply { status: 200, body: d },
        Ok(None) => refusal(404, code, reason, None),
        Err(_) => unavailable(),
    }
}

/// Liveness only: it says nothing about the store.
pub fn health() -> (r: Reply)
    ensures
        r@.status == 200,
        r@.body == Doc::Record(
            seq![("result"@, Doc::Text("ok"@)), ("stozher"@, Doc::Text(VERSION@))],
        ),
{
    let mut out: Vec<(String, Json)> = Vec::new();
    out.push(member("result", text("ok")));
    out.push(member("stozher", text(VERSION)));
    assert(member_docs(out@) =~= seq![
        ("result"@, Doc::Text("ok"@)),
        ("stozher"@, Doc::Text(VERSION@)),
    ]);
    Reply { status: 200, body: record(out) }
}

// -- callers ----------------------------------------------------------------------------------

/// The token in an authorization header, where it bears one.
pub open spec fn bearer(header: Option<Seq<char>>) -> Option<Seq<char>> {
    match header {
        Some(h) => if begins(h, "Bearer "@) && trimmed(h.skip("Bearer "@.len() as int)).len() > 0 {
            Some(trimmed(h.skip("Bearer "@.len() as int)))
        } else {
            None
        },
        None => None,
    }
}

/// Who a request comes from, or why that is nobody.
pub open spec fn caller_of(config: Config, header: Option<Seq<char>>) -> Result<
    Seq<char>,
    Seq<char>,
> {
    match bearer(header) {
        None => Err("a Bearer credential is required"@),
        Some(token) => match caller_with(
            config.callers@,
            sha256_hex_of(vstd::utf8::encode_utf8(token)),
            config.callers@.len() as int,
        ) {
            Some(subject) => Ok(subject),
            None => Err(unresolved().detail),
        },
    }
}

/// Who a request comes from, or why that is nobody.
pub fn caller_subject(config: &Config, header: Option<&str>) -> (r: Result<String, String>)
    ensures
        match caller_of(*config, opt_text(header)) {
            Ok(s) => r matches Ok(v) && v@ == s,
            Err(m) => r matches Err(e) && e@ == m,
        },
{
    let token = match header {
        Some(h) => match strip_prefix(h, "Bearer ") {
            Some(rest) => trim(rest),
            None => {
                return Err("a Bearer credential is required".to_owned());
            },
        },
        None => {
            return Err("a Bearer credential is required".to_owned());
        },
    };
    if token.unicode_len() == 0 {
        return Err("a Bearer credential is required".to_owned());
    }
    match config.authenticate(token) {
        Ok(subject) => Ok(subject.to_owned()),
        Err(e) => Err(e.detail().to_owned()),
    }
}

/// Who a request comes from, or what it is answered where that is nobody.
pub fn caller(config: &Config, header: Option<&str>) -> (r: Result<String, Reply>)
    ensures
        match caller_of(*config, opt_text(header)) {
            Ok(s) => r matches Ok(v) && v@ == s,
            Err(m) => r matches Err(p) && p@ == refusal_reply(
                401,
                CALLER_UNAUTHENTICATED@,
                m,
                None,
            ),
        },
{
    match caller_subject(config, header) {
        Ok(s) => Ok(s),
        Err(m) => Err(refusal(401, CALLER_UNAUTHENTICATED, m.as_str(), None)),
    }
}

// -- submissions ------------------------------------------------------------------------------

/// What a submission is answered: where it stands in the log, or the reason it was refused, which
/// suggests no other way.
pub open spec fn ingest_reply(outcome: Outcome) -> Replied {
    match outcome {
        Outcome::Accepted(a) => Replied {
            status: if a.idempotent {
                200
            } else {
                201
            },
            body: Doc::Record(
                seq![
                    ("envelope-id"@, Doc::Text(a.id@)),
                    ("idempotent"@, Doc::Bool(a.idempotent)),
                    ("result"@, Doc::Text("accepted"@)),
                    ("seq"@, Doc::Int(a.seq as int)),
                    ("stozher"@, Doc::Text(VERSION@)),
                    ("stream"@, Doc::Text(a.stream@)),
                ],
            ),
        },
        Outcome::Rejected { reason, detail, record } => Replied {
            status: 422,
            body: Doc::Record(
                seq![
                    ("reason"@, Doc::Text(detail@)),
                    ("reason-code"@, Doc::Text(reason@)),
                    (
                        "rejection-id"@,
                        text_or_null(
                            match record {
                                Some(k) => Some(k.id@),
                                None => None,
                            },
                        ),
                    ),
                    (
                        "rejection-seq"@,
                        number_or_null(
                            match record {
                                Some(k) => Some(k.seq),
                                None => None,
                            },
                        ),
                    ),
                    ("result"@, Doc::Text("rejected"@)),
                    ("retryable"@, Doc::Bool(false)),
                    ("stozher"@, Doc::Text(VERSION@)),
                ],
            ),
        },
        Outcome::Unavailable(_) => unavailable_reply(),
    }
}

/// What a submission is answered.
pub fn post_ingest(outcome: &Outcome) -> (r: Reply)
    ensures
        r@ == ingest_reply(*outcome),
{
    let mut out: Vec<(String, Json)> = Vec::new();
    match outcome {
        Outcome::Accepted(a) => {
            out.push(member("envelope-id", text(a.id.as_str())));
            out.push(member("idempotent", Json::Bool(a.idempotent)));
            out.push(member("result", text("accepted")));
            out.push(member("seq", Json::Unsigned(a.seq)));
            out.push(member("stozher", text(VERSION)));
            out.push(member("stream", text(a.stream.as_str())));
            assert(member_docs(out@) =~= ingest_reply(*outcome).body->Record_0);
            let status: u16 = if a.idempotent {
                200
            } else {
                201
            };
            Reply { status, body: record(out) }
        },
        Outcome::Rejected { reason, detail, record: kept } => {
            out.push(member("reason", text(detail.as_str())));
            out.push(member("reason-code", text(reason.as_str())));
            match kept {
                Some(k) => {
                    out.push(member("rejection-id", text(k.id.as_str())));
                    out.push(member("rejection-seq", Json::Unsigned(k.seq)));
                },
                None => {
                    out.push(member("rejection-id", Json::Null));
                    out.push(member("rejection-seq", Json::Null));
                },
            }
            out.push(member("result", text("rejected")));
            out.push(member("retryable", Json::Bool(false)));
            out.push(member("stozher", text(VERSION)));
            assert(member_docs(out@) =~= ingest_reply(*outcome).body->Record_0);
            Reply { status: 422, body: record(out) }
        },
        Outcome::Unavailable(_) => unavailable(),
    }
}

// -- policies and revocations -----------------------------------------------------------------

/// The policy in force, and its version as the tag by which a caller asks whether it changed.
pub fn get_policy_current(found: Result<Option<Json>, Error>) -> (r: (Reply, Option<String>))
    ensures
        r.0@ == found_reply(found, "policy-not-published"@, "no policy version is in force"@),
        match found {
            Ok(Some(d)) => r.1 matches Some(tag) && tag@ == "\""@ + crate::text::or_empty(
                d@.text_at("policy-version"@),
            ) + "\""@,
            _ => r.1 is None,
        },
{
    let tag = match &found {
        Ok(Some(d)) => Some(
            crate::text::join3(
                "\"",
                crate::text::text_or_empty(d.text_at("policy-version")),
                "\"",
            ),
        ),
        _ => None,
    };
    (found_or(found, "policy-not-published", "no policy version is in force"), tag)
}

/// A policy version that was published at some time.
pub fn get_policy_version(found: Result<Option<Json>, Error>) -> (r: Reply)
    ensures
        r@ == found_reply(
            found,
            "policy-not-published"@,
            "that policy version has never been published here"@,
        ),
{
    found_or(found, "policy-not-published", "that policy version has never been published here")
}

/// Whether one of some texts, from a place on, is a tag but for white space around it.
pub open spec fn tagged(parts: Seq<Seq<char>>, tag: Seq<char>, from: int) -> bool
    decreases parts.len() - from,
{
    if from < 0 || from >= parts.len() {
        false
    } else {
        trimmed(parts[from]) == tag || tagged(parts, tag, from + 1)
    }
}

/// Whether a caller already holds what a tag stands for.
pub open spec fn is_unchanged(if_none_match: Option<Seq<char>>, tag: Seq<char>) -> bool {
    match if_none_match {
        Some(h) => tagged(crate::text::pieces(h, ','), tag, 0),
        None => false,
    }
}

/// Whether a caller already holds what a tag stands for.
pub fn unchanged(if_none_match: Option<&str>, tag: &str) -> (r: bool)
    ensures
        r == is_unchanged(opt_text(if_none_match), tag@),
{
    let header = match if_none_match {
        Some(h) => h,
        None => {
            return false;
        },
    };
    let parts = crate::text::split(header, ',');
    let ghost all = crate::text::texts(parts@);
    let mut i: usize = 0;
    while i < parts.len()
        invariant
            i <= parts@.len(),
            all == crate::text::texts(parts@),
            all == crate::text::pieces(header@, ','),
            if_none_match == Some(header),
            tagged(all, tag@, 0) == tagged(all, tag@, i as int),
        decreases parts@.len() - i,
    {
        if crate::text::same(trim(parts[i].as_str()), tag) {
            return true;
        }
        i += 1;
    }
    false
}

/// What the revocation feed is answered with.
#[derive(Debug)]
pub enum Feed {
    /// The caller holds it already.
    Unchanged,
    /// The feed.
    Whole(Reply),
    /// The store could not answer.
    Unavailable(Reply),
}

/// The tag of a revocation feed.
pub open spec fn epoch_tag(epoch: Seq<char>) -> Seq<char> {
    "\""@ + epoch + "\""@
}

/// The revocation feed, and its epoch as its tag.
pub fn get_revocations(
    feed: Result<(String, Vec<Json>), Error>,
    if_none_match: Option<&str>,
) -> (r: (Feed, Option<String>))
    ensures
        match feed {
            Err(_) => r.1 is None && (r.0 matches Feed::Unavailable(p) && p@
                == unavailable_reply()),
            Ok((epoch, revocations)) => {
                &&& r.1 matches Some(t) && t@ == epoch_tag(epoch@)
                &&& if is_unchanged(opt_text(if_none_match), epoch_tag(epoch@)) {
                    r.0 is Unchanged
                } else {
                    r.0 matches Feed::Whole(p) && p@ == (Replied {
                        status: 200,
                        body: Doc::Record(
                            seq![
                                ("count"@, Doc::Int(revocations@.len() as int)),
                                ("revocation-epoch"@, Doc::Text(epoch@)),
                                ("revocations"@, Doc::List(crate::json::docs(revocations@))),
                                ("stozher"@, Doc::Text(VERSION@)),
                            ],
                        ),
                    })
                }
            },
        },
{
    let (epoch, revocations) = match feed {
        Ok((e, v)) => (e, v),
        Err(_) => {
            return (Feed::Unavailable(unavailable()), None);
        },
    };
    let tag = crate::text::join3("\"", epoch.as_str(), "\"");
    if unchanged(if_none_match, tag.as_str()) {
        return (Feed::Unchanged, Some(tag));
    }
    let ghost expected = seq![
        ("count"@, Doc::Int(revocations@.len() as int)),
        ("revocation-epoch"@, Doc::Text(epoch@)),
        ("revocations"@, Doc::List(crate::json::docs(revocations@))),
        ("stozher"@, Doc::Text(VERSION@)),
    ];
    let mut out: Vec<(String, Json)> = Vec::new();
    out.push(member("count", Json::Unsigned(revocations.len() as u64)));
    out.push(member("revocation-epoch", text(epoch.as_str())));
    out.push(member("revocations", crate::json::list(revocations)));
    out.push(member("stozher", text(VERSION)));
    assert(member_docs(out@) =~= expected);
    (Feed::Whole(Reply { status: 200, body: record(out) }), Some(tag))
}

// -- laws -------------------------------------------------------------------------------------

/// Refusals are facts, not negotiations: only where the kernel could not answer is a caller told
/// to try again.
pub proof fn lemma_refusals_are_terminal(outcome: Outcome)
    ensures
        outcome is Rejected ==> ingest_reply(outcome).body.at("retryable"@) == Doc::Bool(false),
        outcome is Unavailable ==> ingest_reply(outcome).body.at("retryable"@) == Doc::Bool(true),
{
    match outcome {
        Outcome::Rejected { .. } => {
            let members = ingest_reply(outcome).body->Record_0;
            lemma_names_of_a_reply();
            crate::json::lemma_lookup_at(members, "retryable"@, 5);
        },
        Outcome::Unavailable(_) => {
            let members = ingest_reply(outcome).body->Record_0;
            lemma_names_of_a_reply();
            crate::json::lemma_lookup_at(members, "retryable"@, 4);
        },
        _ => {},
    }
}

proof fn lemma_names_of_a_reply()
    ensures
        "retryable"@ != "failed-at-seq"@,
        "retryable"@ != "reason"@,
        "retryable"@ != "reason-code"@,
        "retryable"@ != "rejection-id"@,
        "retryable"@ != "rejection-seq"@,
        "retryable"@ != "result"@,
{
    reveal_strlit("retryable");
    reveal_strlit("failed-at-seq");
    reveal_strlit("reason");
    reveal_strlit("reason-code");
    reveal_strlit("rejection-id");
    reveal_strlit("rejection-seq");
    reveal_strlit("result");
    assert("retryable"@.len() == 9);
    assert("failed-at-seq"@.len() == 13);
    assert("reason"@.len() == 6);
    assert("reason-code"@.len() == 11);
    assert("rejection-id"@.len() == 12);
    assert("rejection-seq"@.len() == 13);
    assert("result"@.len() == 6);
}

/// Nothing is read or written without a credential that resolves to a configured caller.
pub proof fn lemma_callers_are_configured(config: Config, header: Option<Seq<char>>)
    requires
        caller_of(config, header) is Ok,
    ensures
        bearer(header) matches Some(token) && caller_with(
            config.callers@,
            sha256_hex_of(vstd::utf8::encode_utf8(token)),
            config.callers@.len() as int,
        ) == Some(caller_of(config, header)->Ok_0),
{
}

/// What a refusal says: its code, its reason and where it failed; and it may be tried again exactly
/// where the kernel could not answer.
pub proof fn lemma_what_a_refusal_says(
    status: int,
    code: Seq<char>,
    reason: Seq<char>,
    seq: Option<u64>,
)
    ensures
        ({
            let r = refusal_reply(status, code, reason, seq);
            &&& r.status == status
            &&& r.body.get("reason-code"@) == Some(Doc::Text(code))
            &&& r.body.get("reason"@) == Some(Doc::Text(reason))
            &&& r.body.get("result"@) == Some(Doc::Text("rejected"@))
            &&& r.body.get("retryable"@) == Some(Doc::Bool(status == 503))
            &&& r.body.get("stozher"@) == Some(Doc::Text("stozher/0.1"@))
            &&& r.body.get("failed-at-seq"@) == Some(
                match seq {
                    Some(n) => Doc::Int(n as int),
                    None => Doc::Null,
                },
            )
        }),
{
    reveal_strlit("failed-at-seq");
    reveal_strlit("reason");
    reveal_strlit("reason-code");
    reveal_strlit("result");
    reveal_strlit("retryable");
    reveal_strlit("stozher");
    assert("failed-at-seq"@[0] == 'f' && "failed-at-seq"@.len() == 13);
    assert("reason"@[0] == 'r' && "reason"@.len() == 6);
    assert("reason-code"@.len() == 11);
    assert("result"@.len() == 6 && "result"@[2] == 's' && "reason"@[2] == 'a');
    assert("retryable"@.len() == 9);
    assert("stozher"@.len() == 7);
    let members = refusal_reply(status, code, reason, seq).body->Record_0;
    crate::json::lemma_lookup_at(members, "failed-at-seq"@, 0);
    crate::json::lemma_lookup_at(members, "reason"@, 1);
    crate::json::lemma_lookup_at(members, "reason-code"@, 2);
    crate::json::lemma_lookup_at(members, "result"@, 3);
    crate::json::lemma_lookup_at(members, "retryable"@, 4);
    crate::json::lemma_lookup_at(members, "stozher"@, 5);
}

/// A failure to reach the store is an outage and hides its detail; any other failure is a refusal
/// that says what it is.
pub proof fn lemma_outages_hide_their_detail(f: Fault, g: Fault)
    ensures
        f.code == "x-store-unavailable"@ ==> failure_reply(f).status == 503,
        f.code == "x-store-unavailable"@ && g.code == "x-store-unavailable"@ ==> failure_reply(f)
            == failure_reply(g),
        f.code != "x-store-unavailable"@ ==> failure_reply(f).status == 422 && failure_reply(
            f,
        ).body.get("reason-code"@) == Some(Doc::Text(f.code)) && failure_reply(f).body.get(
            "reason"@,
        ) == Some(Doc::Text(f.detail)),
{
    lemma_what_a_refusal_says(422, f.code, f.detail, f.seq);
}

/// A credential is what follows the word, without the space around it, and an empty one is none.
pub proof fn lemma_what_a_bearer_is(header: Seq<char>, rest: Seq<char>)
    ensures
        bearer(None) is None,
        header == "Bearer "@ + rest ==> bearer(Some(header)) == if trimmed(rest).len() > 0 {
            Some(trimmed(rest))
        } else {
            None
        },
        bearer(Some(header)) is Some ==> exists|more: Seq<char>|
            header == #[trigger] ("Bearer "@ + more),
{
    let n = "Bearer "@.len() as int;
    let whole = "Bearer "@ + rest;
    assert(whole.take(n) =~= "Bearer "@);
    assert(whole.skip(n) =~= rest);
    if begins(header, "Bearer "@) {
        assert(header =~= "Bearer "@ + header.skip(n));
    }
}

/// A request comes from a caller exactly where its credential hashes to what one of those
/// configured is known by, whichever of them that is.
pub proof fn lemma_who_a_caller_is(config: Config, header: Option<Seq<char>>)
    ensures
        caller_of(config, header) is Ok <==> (bearer(header) matches Some(token) && exists|i: int|
            0 <= i < config.callers@.len() && (#[trigger] config.callers@[i]).token_sha256@
                == sha256_hex_of(vstd::utf8::encode_utf8(token))),
        caller_of(config, header) matches Ok(subject) ==> exists|i: int|
            0 <= i < config.callers@.len() && (#[trigger] config.callers@[i]).subject@ == subject
                && config.callers@[i].token_sha256@ == sha256_hex_of(
                vstd::utf8::encode_utf8(bearer(header)->0),
            ),
{
    if let Some(token) = bearer(header) {
        crate::config::lemma_resolves_exactly_configured_digests(
            config.callers@,
            sha256_hex_of(vstd::utf8::encode_utf8(token)),
            config.callers@.len() as int,
        );
    }
}

/// What was submitted is answered by what became of it: what was appended with where it stands, and
/// whether that was new; what was refused with why and where the refusal is recorded; and an outage
/// with nothing of its own.
pub proof fn lemma_what_a_submission_is_answered(outcome: Outcome)
    ensures
        outcome matches Outcome::Accepted(a) ==> {
            let r = ingest_reply(outcome);
            &&& r.status == if a.idempotent {
                200
            } else {
                201int
            }
            &&& r.body.get("envelope-id"@) == Some(Doc::Text(a.id@))
            &&& r.body.get("idempotent"@) == Some(Doc::Bool(a.idempotent))
            &&& r.body.get("result"@) == Some(Doc::Text("accepted"@))
            &&& r.body.get("seq"@) == Some(Doc::Int(a.seq as int))
            &&& r.body.get("stream"@) == Some(Doc::Text(a.stream@))
        },
        outcome matches Outcome::Rejected { reason, detail, record } ==> {
            let r = ingest_reply(outcome);
            &&& r.status == 422
            &&& r.body.get("reason"@) == Some(Doc::Text(detail@))
            &&& r.body.get("reason-code"@) == Some(Doc::Text(reason@))
            &&& r.body.get("result"@) == Some(Doc::Text("rejected"@))
            &&& r.body.get("retryable"@) == Some(Doc::Bool(false))
            &&& r.body.get("rejection-id"@) == Some(
                match record {
                    Some(k) => Doc::Text(k.id@),
                    None => Doc::Null,
                },
            )
            &&& r.body.get("rejection-seq"@) == Some(
                match record {
                    Some(k) => Doc::Int(k.seq as int),
                    None => Doc::Null,
                },
            )
        },
        outcome is Unavailable ==> ingest_reply(outcome).status == 503,
{
    reveal_strlit("envelope-id");
    reveal_strlit("idempotent");
    reveal_strlit("result");
    reveal_strlit("seq");
    reveal_strlit("stozher");
    reveal_strlit("stream");
    reveal_strlit("reason");
    reveal_strlit("reason-code");
    reveal_strlit("rejection-id");
    reveal_strlit("rejection-seq");
    reveal_strlit("retryable");
    assert("envelope-id"@[0] == 'e');
    assert("idempotent"@[0] == 'i');
    assert("result"@[0] == 'r' && "result"@.len() == 6 && "result"@[2] == 's');
    assert("seq"@[0] == 's' && "seq"@.len() == 3);
    assert("stozher"@[0] == 's' && "stozher"@.len() == 7);
    assert("stream"@[0] == 's' && "stream"@.len() == 6);
    assert("reason"@.len() == 6 && "reason"@[2] == 'a' && "reason"@[0] == 'r');
    assert("reason-code"@.len() == 11);
    assert("rejection-id"@.len() == 12);
    assert("rejection-seq"@.len() == 13);
    assert("retryable"@.len() == 9);
    let members = ingest_reply(outcome).body->Record_0;
    if outcome is Accepted {
        crate::json::lemma_lookup_at(members, "envelope-id"@, 0);
        crate::json::lemma_lookup_at(members, "idempotent"@, 1);
        crate::json::lemma_lookup_at(members, "result"@, 2);
        crate::json::lemma_lookup_at(members, "seq"@, 3);
        crate::json::lemma_lookup_at(members, "stream"@, 5);
    }
    if outcome is Rejected {
        crate::json::lemma_lookup_at(members, "reason"@, 0);
        crate::json::lemma_lookup_at(members, "reason-code"@, 1);
        crate::json::lemma_lookup_at(members, "rejection-id"@, 2);
        crate::json::lemma_lookup_at(members, "rejection-seq"@, 3);
        crate::json::lemma_lookup_at(members, "result"@, 4);
        crate::json::lemma_lookup_at(members, "retryable"@, 5);
    }
}

proof fn lemma_tagged(parts: Seq<Seq<char>>, tag: Seq<char>, from: int)
    requires
        0 <= from <= parts.len(),
    ensures
        tagged(parts, tag, from) <==> exists|i: int|
            from <= i < parts.len() && trimmed(#[trigger] parts[i]) == tag,
    decreases parts.len() - from,
{
    if from < parts.len() {
        lemma_tagged(parts, tag, from + 1);
        if trimmed(parts[from]) == tag {
            assert(tagged(parts, tag, from));
        }
    }
}

/// A feed is unchanged exactly where one of the tags that the caller has, wherever in the list it
/// stands, is its tag; and where the caller has none, it is not.
pub proof fn lemma_when_a_feed_is_unchanged(header: Seq<char>, tag: Seq<char>)
    ensures
        !is_unchanged(None, tag),
        is_unchanged(Some(header), tag) <==> exists|i: int|
            0 <= i < crate::text::pieces(header, ',').len() && trimmed(
                #[trigger] crate::text::pieces(header, ',')[i],
            ) == tag,
{
    lemma_tagged(crate::text::pieces(header, ','), tag, 0);
}

/// What is there is answered with itself, what is not there as not found, and what could not be
/// looked for as an outage.
pub proof fn lemma_how_what_is_found_is_answered(
    found: Result<Option<Json>, Error>,
    code: Seq<char>,
    reason: Seq<char>,
)
    ensures
        found matches Ok(Some(d)) ==> found_reply(found, code, reason) == (Replied {
            status: 200,
            body: d@,
        }),
        found matches Ok(None) ==> found_reply(found, code, reason).status == 404 && found_reply(
            found,
            code,
            reason,
        ).body.get("reason-code"@) == Some(Doc::Text(code)),
        found is Err ==> found_reply(found, code, reason).status == 503,
{
    lemma_what_a_refusal_says(404, code, reason, None);
}

} // verus!
