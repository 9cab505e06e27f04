//! Parking a request: a question a human will answer. What is parked permits nothing.

use vstd::prelude::*;

use crate::clock::{shift, shifted};
use crate::codes::GATE_RATE_LIMITED;
use crate::config::{opt_string, RateLimit};
use crate::error::{is_text_result, Error, Fault};
use crate::gatequeue::{
    arguments_outcome, check_arguments, is_request, request_fault, submission, submitted,
    validate, GateRequest, ARGUMENTS_HASH_MISMATCH,
};
use crate::http::{refusal, refusal_reply, unavailable, unavailable_reply, Replied, Reply};
use crate::json::{member, member_docs, record, text, Doc, Json};
use crate::text::{decimal, decimal_text, join5, same, signed, signed_text};
use crate::vocabulary::VERSION;

verus! {

/// Since when a subject's requests are counted.
pub fn window_start(now: &str, limit: &RateLimit) -> (r: Result<String, Error>)
    requires
        limit.window_seconds > i64::MIN,
    ensures
        is_text_result(r, shifted(now@, -(limit.window_seconds as int))),
{
    shift(now, -limit.window_seconds)
}

/// What parking a request rests on. What the store says is an outage where it could not be had.
#[derive(Debug)]
pub struct ParkFacts {
    /// The body, parsed.
    pub body: Result<Json, Error>,
    /// The hash of the request in it.
    pub hash: Result<String, Error>,
    /// The canonical form of the arguments that came with it, where any did.
    pub canonical: Result<String, Error>,
    /// Whether the request is parked already.
    pub existing: Result<bool, Error>,
    /// How many requests its subject parked in the window.
    pub parked: Result<u64, Error>,
    /// How often its caller was recorded, in the window, for arguments that were not what a request
    /// commits to.
    pub mismatches: Result<u64, Error>,
}

/// A refusal of a request, and whether it earns a record of its own.
#[derive(Debug)]
pub struct Refusal {
    /// What is answered.
    pub reply: Reply,
    /// Whether it is recorded.
    pub durable: bool,
}

/// What is parked: the request, and the arguments to show for it, where they came.
#[derive(Debug)]
pub struct Parking {
    /// The request.
    pub queued: GateRequest,
    /// The arguments, in their canonical form.
    pub arguments: Option<String>,
}

/// Whether a refusal is recorded: arguments that are not what the request commits to are, for as
/// long as the caller is below the cap. Past it the record stops growing.
pub open spec fn earns_record(f: Fault, facts: ParkFacts, limit: RateLimit) -> bool {
    f.code == ARGUMENTS_HASH_MISMATCH@ && (facts.mismatches matches Ok(n) && n < limit.per_subject)
}

/// The refusal of a request that is malformed.
pub open spec fn malformed(f: Fault, facts: ParkFacts, limit: RateLimit) -> (Replied, bool) {
    (refusal_reply(422, f.code, f.detail, None), earns_record(f, facts, limit))
}

/// The arguments to show for a request, in their canonical form: what came, checked.
pub open spec fn arguments_shown(
    arguments: Option<Doc>,
    canonical: Result<String, Error>,
    args_hash: Seq<char>,
) -> Result<Option<Seq<char>>, Fault> {
    if arguments is None {
        Ok(None)
    } else {
        match canonical {
            Err(e) => Err(e@),
            Ok(t) => match arguments_outcome(t@, args_hash) {
                Ok(shown) => Ok(Some(shown)),
                Err(f) => Err(f),
            },
        }
    }
}

/// The refusal of a subject that has parked too much: the action it asked for stays blocked, and
/// what it loses is the ability to grow the queue.
pub open spec fn limited(subject: Seq<char>, parked: int, limit: RateLimit) -> Replied {
    refusal_reply(
        429,
        GATE_RATE_LIMITED@,
        subject + " has parked "@ + decimal(parked as nat) + " requests in the last "@ + signed(
            limit.window_seconds as int,
        ) + " seconds, at or above the configured cap of "@ + decimal(limit.per_subject as nat)
            + ". The console shows this as a spike."@,
        None,
    )
}

/// What parking a request comes to: the first refusal there is, or the arguments to show for it. A
/// request that is parked already is not counted twice.
pub open spec fn parking(facts: ParkFacts, now: Seq<char>, limit: RateLimit) -> Result<
    (Doc, Option<Seq<char>>),
    (Replied, bool),
> {
    if let Err(e) = facts.body {
        Err(malformed(e@, facts, limit))
    } else {
        match submitted((facts.body->Ok_0)@) {
            Err(f) => Err(malformed(f, facts, limit)),
            Ok((request, arguments)) => if let Some(f) = request_fault(request, now, facts.hash) {
                Err(malformed(f, facts, limit))
            } else {
                match arguments_shown(
                    arguments,
                    facts.canonical,
                    crate::text::or_empty(request.text_at("args-hash"@)),
                ) {
                    Err(f) => Err(malformed(f, facts, limit)),
                    Ok(shown) => match facts.existing {
                        Err(_) => Err((unavailable_reply(), false)),
                        Ok(true) => Ok((request, shown)),
                        Ok(false) => if shifted(now, -(limit.window_seconds as int)) is Err {
                            Err((unavailable_reply(), false))
                        } else {
                            match facts.parked {
                                Err(_) => Err((unavailable_reply(), false)),
                                Ok(n) => if n >= limit.per_subject {
                                    Err(
                                        (
                                            limited(
                                                crate::text::or_empty(
                                                    request.text_at("subject"@),
                                                ),
                                                n as int,
                                                limit,
                                            ),
                                            false,
                                        ),
                                    )
                                } else {
                                    Ok((request, shown))
                                },
                            }
                        },
                    },
                }
            },
        }
    }
}

fn bad(e: &Error, facts: &ParkFacts, limit: &RateLimit) -> (r: Refusal)
    ensures
        (r.reply@, r.durable) == malformed(e@, *facts, *limit),
{
    let room = match &facts.mismatches {
        Ok(n) => *n < limit.per_subject as u64,
        Err(_) => false,
    };
    Refusal {
        reply: refusal(422, e.code(), e.detail(), None),
        durable: same(e.code(), ARGUMENTS_HASH_MISMATCH) && room,
    }
}

fn down() -> (r: Refusal)
    ensures
        r.reply@ == unavailable_reply(),
        !r.durable,
{
    Refusal { reply: unavailable(), durable: false }
}

fn shown_arguments(
    arguments: &Option<Json>,
    canonical: &Result<String, Error>,
    args_hash: &str,
) -> (r: Result<Option<String>, Error>)
    ensures
        match arguments_shown(
            crate::gatequeue::opt_json(*arguments),
            *canonical,
            args_hash@,
        ) {
            Ok(s) => r matches Ok(v) && opt_string(v) == s,
            Err(f) => r matches Err(e) && e@ == f,
        },
{
    if arguments.is_none() {
        return Ok(None);
    }
    match check_arguments(canonical, args_hash) {
        Ok(t) => Ok(Some(t)),
        Err(e) => Err(e),
    }
}

/// What parking a request comes to.
pub fn post_gate_request(facts: &ParkFacts, now: &str, limit: &RateLimit) -> (r: Result<
    Parking,
    Refusal,
>)
    requires
        limit.window_seconds > i64::MIN,
    ensures
        match parking(*facts, now@, *limit) {
            Ok((request, shown)) => r matches Ok(p) && facts.hash matches Ok(h) && is_request(
                p.queued,
                request,
                h@,
            ) && opt_string(p.arguments) == shown,
            Err((reply, durable)) => r matches Err(x) && x.reply@ == reply && x.durable == durable,
        },
{
    let body = match &facts.body {
        Ok(b) => b,
        Err(e) => {
            return Err(bad(e, facts, limit));
        },
    };
    let (request, arguments) = match submission(body) {
        Ok(parts) => parts,
        Err(e) => {
            return Err(bad(&e, facts, limit));
        },
    };
    let queued = match validate(&request, now, &facts.hash) {
        Ok(q) => q,
        Err(e) => {
            return Err(bad(&e, facts, limit));
        },
    };
    let shown = match shown_arguments(&arguments, &facts.canonical, queued.args_hash.as_str()) {
        Ok(s) => s,
        Err(e) => {
            return Err(bad(&e, facts, limit));
        },
    };
    let existing = match &facts.existing {
        Ok(b) => *b,
        Err(_) => {
            return Err(down());
        },
    };
    if !existing {
        if window_start(now, limit).is_err() {
            return Err(down());
        }
        let parked: u64 = match &facts.parked {
            Ok(n) => *n,
            Err(_) => {
                return Err(down());
            },
        };
        if parked >= limit.per_subject as u64 {
            let mut reason = join5(
                queued.subject.as_str(),
                " has parked ",
                decimal_text(parked).as_str(),
                " requests in the last ",
                signed_text(limit.window_seconds).as_str(),
            );
            reason.push_str(" seconds, at or above the configured cap of ");
            reason.push_str(decimal_text(limit.per_subject as u64).as_str());
            reason.push_str(". The console shows this as a spike.");
            return Err(
                Refusal {
                    reply: refusal(429, GATE_RATE_LIMITED, reason.as_str(), None),
                    durable: false,
                },
            );
        }
    }
    Ok(Parking { queued, arguments: shown })
}

/// What is answered once a request is parked.
pub open spec fn parked_reply(
    request_hash: Seq<char>,
    not_after: Seq<char>,
    fresh: Result<bool, Error>,
    channels: int,
) -> Replied {
    match fresh {
        Err(_) => unavailable_reply(),
        Ok(f) => Replied {
            status: if f {
                201
            } else {
                200
            },
            body: Doc::Record(
                seq![
                    ("channels"@, Doc::Int(channels)),
                    ("idempotent"@, Doc::Bool(!f)),
                    ("not-after"@, Doc::Text(not_after)),
                    ("request-hash"@, Doc::Text(request_hash)),
                    ("result"@, Doc::Text("queued"@)),
                    ("stozher"@, Doc::Text(VERSION@)),
                ],
            ),
        },
    }
}

/// What is answered once a request is parked.
pub fn parked(queued: &GateRequest, fresh: &Result<bool, Error>, channels: usize) -> (r: Reply)
    ensures
        r@ == parked_reply(
            queued.request_hash@,
            queued.not_after@,
            *fresh,
            channels as int,
        ),
{
    let new = match fresh {
        Ok(f) => *f,
        Err(_) => {
            return unavailable();
        },
    };
    let mut out: Vec<(String, Json)> = Vec::new();
    out.push(member("channels", Json::Unsigned(channels as u64)));
    out.push(member("idempotent", Json::Bool(!new)));
    out.push(member("not-after", text(queued.not_after.as_str())));
    out.push(member("request-hash", text(queued.request_hash.as_str())));
    out.push(member("result", text("queued")));
    out.push(member("stozher", text(VERSION)));
    assert(member_docs(out@) =~= parked_reply(
        queued.request_hash@,
        queued.not_after@,
        *fresh,
        channels as int,
    ).body->Record_0);
    let status: u16 = if new {
        201
    } else {
        200
    };
    Reply { status, body: record(out) }
}

/// What is answered of a parked request: the request, and the signed decision as it was given,
/// where a human has answered it.
pub open spec fn gate_request_reply(
    request_hash: Seq<char>,
    found: Result<Option<(Json, String)>, Error>,
    decision: Result<Option<Json>, Error>,
) -> Replied {
    match found {
        Err(_) => unavailable_reply(),
        Ok(None) => refusal_reply(404, "not-found"@, "no such parked request"@, None),
        Ok(Some((request, by))) => match decision {
            Err(_) => unavailable_reply(),
            Ok(d) => Replied {
                status: 200,
                body: Doc::Record(
                    seq![
                        (
                            "decision"@,
                            match d {
                                Some(v) => v@,
                                None => Doc::Null,
                            },
                        ),
                        ("request"@, request@),
                        ("request-hash"@, Doc::Text(request_hash)),
                        ("stozher"@, Doc::Text(VERSION@)),
                        ("submitted-by"@, Doc::Text(by@)),
                    ],
                ),
            },
        },
    }
}

/// One parked request and, where a human has answered it, the signed decision as it was given.
pub fn get_gate_request(
    request_hash: &str,
    found: &Result<Option<(Json, String)>, Error>,
    decision: &Result<Option<Json>, Error>,
) -> (r: Reply)
    ensures
        r@ == gate_request_reply(request_hash@, *found, *decision),
{
    let (request, by) = match found {
        Ok(Some((q, b))) => (q, b),
        Ok(None) => {
            return refusal(404, "not-found", "no such parked request", None);
        },
        Err(_) => {
            return unavailable();
        },
    };
    let answer = match decision {
        Ok(Some(d)) => d.copy(),
        Ok(None) => Json::Null,
        Err(_) => {
            return unavailable();
        },
    };
    let mut out: Vec<(String, Json)> = Vec::new();
    out.push(member("decision", answer));
    out.push(member("request", request.copy()));
    out.push(member("request-hash", text(request_hash)));
    out.push(member("stozher", text(VERSION)));
    out.push(member("submitted-by", text(by.as_str())));
    assert(member_docs(out@) =~= gate_request_reply(
        request_hash@,
        *found,
        *decision,
    ).body->Record_0);
    Reply { status: 200, body: record(out) }
}

// -- telling an approver ----------------------------------------------------------------------

/// What an approver is told of a parked request.
#[derive(Debug)]
pub struct Ping {
    /// The hash of the request.
    pub request_hash: String,
    /// Who asks.
    pub subject: String,
    /// The component.
    pub component: String,
    /// The action.
    pub action: String,
    /// The thing acted upon.
    pub target: String,
    /// The weight class.
    pub classification: String,
    /// Until when it can be answered.
    pub not_after: String,
    /// Where the console is.
    pub console_url: Option<String>,
}

/// What an approver is told of a parked request.
pub fn ping(queued: &GateRequest, console_url: Option<&str>) -> (r: Ping)
    ensures
        r.request_hash@ == queued.request_hash@,
        r.subject@ == queued.subject@,
        r.component@ == queued.component@,
        r.action@ == queued.action@,
        r.target@ == queued.target@,
        r.classification@ == queued.classification@,
        r.not_after@ == queued.not_after@,
        opt_string(r.console_url) == crate::text::opt_text(console_url),
{
    Ping {
        request_hash: queued.request_hash.clone(),
        subject: queued.subject.clone(),
        component: queued.component.clone(),
        action: queued.action.clone(),
        target: queued.target.clone(),
        classification: queued.classification.clone(),
        not_after: queued.not_after.clone(),
        console_url: match console_url {
            Some(u) => Some(u.to_owned()),
            None => None,
        },
    }
}

// -- laws -------------------------------------------------------------------------------------

/// A retry after a lost answer is never counted against its subject: a request that is parked
/// already is refused for no reason that the same request was not refused for at first.
pub proof fn lemma_retries_are_not_limited(facts: ParkFacts, now: Seq<char>, limit: RateLimit)
    requires
        facts.existing == Ok::<bool, Error>(true),
        parking(facts, now, limit) is Err,
    ensures
        ({
            let (reply, durable) = parking(facts, now, limit)->Err_0;
            reply.status == 422
        }),
{
}

/// No subject grows the queue past its cap: a request that is not parked yet is parked only where
/// its subject is below the cap in the window.
pub proof fn lemma_the_queue_is_bounded(facts: ParkFacts, now: Seq<char>, limit: RateLimit)
    requires
        facts.existing == Ok::<bool, Error>(false),
        parking(facts, now, limit) is Ok,
    ensures
        facts.parked matches Ok(n) && n < limit.per_subject,
{
}

/// What a caller can make the kernel record by sending arguments that no request commits to is
/// bounded by the same cap as the queue, and nothing else that is malformed is recorded at all.
pub proof fn lemma_records_of_mismatches_are_bounded(
    facts: ParkFacts,
    now: Seq<char>,
    limit: RateLimit,
)
    requires
        parking(facts, now, limit) is Err,
        parking(facts, now, limit)->Err_0.1,
    ensures
        facts.mismatches matches Ok(n) && n < limit.per_subject,
        parking(facts, now, limit)->Err_0.0.status == 422,
        parking(facts, now, limit)->Err_0.0.body.at("reason-code"@) == Doc::Text(
            ARGUMENTS_HASH_MISMATCH@,
        ),
{
    let members = parking(facts, now, limit)->Err_0.0.body->Record_0;
    reveal_strlit("failed-at-seq");
    reveal_strlit("reason");
    reveal_strlit("reason-code");
    assert("failed-at-seq"@.len() == 13);
    assert("reason"@.len() == 6);
    assert("reason-code"@.len() == 11);
    crate::json::lemma_lookup_at(members, "reason-code"@, 2);
}

/// A request is parked exactly where what was submitted is one, is well formed now, shows no
/// arguments but those it commits to, and is parked already or leaves its subject below the cap.
pub proof fn lemma_what_is_parked(facts: ParkFacts, now: Seq<char>, limit: RateLimit)
    ensures
        parking(facts, now, limit) is Ok <==> {
            &&& facts.body matches Ok(body) && (submitted(body@) matches Ok((request, arguments))
                && request_fault(request, now, facts.hash) is None && (arguments is None || (
            facts.canonical matches Ok(text) && arguments_outcome(
                text@,
                crate::text::or_empty(request.text_at("args-hash"@)),
            ) is Ok)))
            &&& facts.existing is Ok
            &&& facts.existing == Ok::<bool, Error>(false) ==> shifted(
                now,
                -(limit.window_seconds as int),
            ) is Ok && (facts.parked matches Ok(n) && n < limit.per_subject)
        },
        parking(facts, now, limit) matches Ok((request, shown)) ==> {
            &&& submitted((facts.body->Ok_0)@)->Ok_0.0 == request
            &&& shown is Some <==> submitted((facts.body->Ok_0)@)->Ok_0.1 is Some
            &&& shown matches Some(text) ==> facts.canonical->Ok_0@ == text
        },
{
}

/// A subject that has reached the cap is told so, and told nothing else: a new request that would
/// have been parked is refused as one too many exactly where the subject has as many as the cap.
pub proof fn lemma_who_is_limited(facts: ParkFacts, now: Seq<char>, limit: RateLimit, n: u64)
    requires
        facts.existing == Ok::<bool, Error>(false),
        facts.parked == Ok::<u64, Error>(n),
        shifted(now, -(limit.window_seconds as int)) is Ok,
        facts.body matches Ok(body) && (submitted(body@) matches Ok((request, arguments))
            && request_fault(request, now, facts.hash) is None && arguments is None),
    ensures
        n < limit.per_subject <==> parking(facts, now, limit) is Ok,
        parking(facts, now, limit) matches Err((reply, durable)) ==> reply.status == 429 && !durable,
{
}

/// Parking again is no error and parks nothing new: what was parked anew is answered as created,
/// and what was there already as what it is.
pub proof fn lemma_how_parking_is_answered(
    request_hash: Seq<char>,
    not_after: Seq<char>,
    fresh: Result<bool, Error>,
    channels: int,
)
    ensures
        ({
            let r = parked_reply(request_hash, not_after, fresh, channels);
            match fresh {
                Ok(new) => {
                    &&& r.status == if new {
                        201int
                    } else {
                        200
                    }
                    &&& r.body.get("idempotent"@) == Some(Doc::Bool(!new))
                    &&& r.body.get("request-hash"@) == Some(Doc::Text(request_hash))
                    &&& r.body.get("not-after"@) == Some(Doc::Text(not_after))
                    &&& r.body.get("channels"@) == Some(Doc::Int(channels))
                    &&& r.body.get("result"@) == Some(Doc::Text("queued"@))
                },
                Err(_) => r.status == 503,
            }
        }),
{
    reveal_strlit("channels");
    reveal_strlit("idempotent");
    reveal_strlit("not-after");
    reveal_strlit("request-hash");
    reveal_strlit("result");
    assert("channels"@[0] == 'c');
    assert("idempotent"@[0] == 'i');
    assert("not-after"@[0] == 'n');
    assert("request-hash"@[0] == 'r' && "request-hash"@.len() == 12);
    assert("result"@[0] == 'r' && "result"@.len() == 6);
    if fresh is Ok {
        let members = parked_reply(request_hash, not_after, fresh, channels).body->Record_0;
        crate::json::lemma_lookup_at(members, "channels"@, 0);
        crate::json::lemma_lookup_at(members, "idempotent"@, 1);
        crate::json::lemma_lookup_at(members, "not-after"@, 2);
        crate::json::lemma_lookup_at(members, "request-hash"@, 3);
        crate::json::lemma_lookup_at(members, "result"@, 4);
    }
}

/// What is asked of a parked request is answered with it and with its decision where there is one,
/// and with nothing in its place where there is none.
pub proof fn lemma_how_a_parked_request_is_answered(
    request_hash: Seq<char>,
    found: Result<Option<(Json, String)>, Error>,
    decision: Result<Option<Json>, Error>,
)
    ensures
        ({
            let r = gate_request_reply(request_hash, found, decision);
            match (found, decision) {
                (Ok(Some((request, by))), Ok(d)) => {
                    &&& r.status == 200
                    &&& r.body.get("request"@) == Some(request@)
                    &&& r.body.get("request-hash"@) == Some(Doc::Text(request_hash))
                    &&& r.body.get("submitted-by"@) == Some(Doc::Text(by@))
                    &&& r.body.get("decision"@) == Some(
                        match d {
                            Some(v) => v@,
                            None => Doc::Null,
                        },
                    )
                },
                (Ok(None), _) => r.status == 404,
                _ => r.status == 503,
            }
        }),
{
    reveal_strlit("decision");
    reveal_strlit("request");
    reveal_strlit("request-hash");
    reveal_strlit("stozher");
    reveal_strlit("submitted-by");
    assert("decision"@[0] == 'd');
    assert("request"@[0] == 'r' && "request"@.len() == 7);
    assert("request-hash"@[0] == 'r' && "request-hash"@.len() == 12);
    assert("stozher"@[0] == 's' && "stozher"@.len() == 7);
    assert("submitted-by"@[0] == 's' && "submitted-by"@.len() == 12);
    if found matches Ok(Some(_)) && decision is Ok {
        let members = gate_request_reply(request_hash, found, decision).body->Record_0;
        crate::json::lemma_lookup_at(members, "decision"@, 0);
        crate::json::lemma_lookup_at(members, "request"@, 1);
        crate::json::lemma_lookup_at(members, "request-hash"@, 2);
        crate::json::lemma_lookup_at(members, "submitted-by"@, 4);
    }
}

/// A refusal is recorded exactly where the arguments were not those committed to, and the caller has
/// not filled the records yet.
pub proof fn lemma_which_refusals_are_recorded(f: Fault, facts: ParkFacts, limit: RateLimit)
    ensures
        earns_record(f, facts, limit) <==> f.code == "gate-arguments-hash-mismatch"@ && (
        facts.mismatches matches Ok(n) && n < limit.per_subject),
{
}

} // verus!
