//! What the reading routes answer: envelopes, mandate walks, streams, payloads, refusals.

use vstd::prelude::*;

use crate::checkpoint::DecayReport;
use crate::codes::STORE_UNAVAILABLE;
use crate::documents::{list_of, text_list, text_or_nothing};
use crate::error::Error;
use crate::http::{
    failure, failure_reply, number_or_nothing, number_or_null, refusal, refusal_reply,
    unavailable, unavailable_reply, Replied, Reply,
};
use crate::json::{docs, list, member, member_docs, record, text, text_or_null, Doc, Json};
use crate::text::{is_digest, is_digest_hex, join3, same, texts};
use crate::vocabulary::VERSION;
use crate::walk::{chain, chain_from, link_views};

verus! {

/// An envelope as the store holds it.
#[derive(Debug)]
pub struct Stored {
    /// Its identifier.
    pub id: String,
    /// When it was received.
    pub received_at: String,
    /// The human the mandate walk reached, where it reached one.
    pub human_root: Option<String>,
    /// The weight class policy computed, where it did.
    pub effective_class: Option<String>,
    /// The violation it confesses, where it does.
    pub policy_violation: Option<String>,
    /// The envelope, unless it could not be read.
    pub envelope: Result<Json, Error>,
    /// Its canonical form, as it was signed.
    pub canonical_json: String,
}

fn opt_str(s: &Option<String>) -> (r: Option<&str>)
    ensures
        crate::text::opt_text(r) == crate::config::opt_string(*s),
{
    match s {
        Some(t) => Some(t.as_str()),
        None => None,
    }
}

/// What is answered of an envelope.
pub open spec fn envelope_reply(found: Result<Option<Stored>, Error>) -> Replied {
    match found {
        Err(_) => unavailable_reply(),
        Ok(None) => refusal_reply(404, "not-found"@, "no such envelope"@, None),
        Ok(Some(s)) => match s.envelope {
            Err(_) => unavailable_reply(),
            Ok(e) => Replied {
                status: 200,
                body: Doc::Record(
                    seq![
                        (
                            "effective-class"@,
                            text_or_null(crate::config::opt_string(s.effective_class)),
                        ),
                        ("envelope"@, e@),
                        ("human-root"@, text_or_null(crate::config::opt_string(s.human_root))),
                        ("id"@, Doc::Text(s.id@)),
                        (
                            "policy-violation"@,
                            text_or_null(crate::config::opt_string(s.policy_violation)),
                        ),
                        ("received-at"@, Doc::Text(s.received_at@)),
                    ],
                ),
            },
        },
    }
}

/// What is answered of an envelope.
pub fn get_envelope(found: &Result<Option<Stored>, Error>) -> (r: Reply)
    ensures
        r@ == envelope_reply(*found),
{
    let s = match found {
        Ok(Some(s)) => s,
        Ok(None) => {
            return refusal(404, "not-found", "no such envelope", None);
        },
        Err(_) => {
            return unavailable();
        },
    };
    let e = match &s.envelope {
        Ok(e) => e,
        Err(_) => {
            return unavailable();
        },
    };
    let mut out: Vec<(String, Json)> = Vec::new();
    out.push(member("effective-class", text_or_nothing(opt_str(&s.effective_class))));
    out.push(member("envelope", e.copy()));
    out.push(member("human-root", text_or_nothing(opt_str(&s.human_root))));
    out.push(member("id", text(s.id.as_str())));
    out.push(member("policy-violation", text_or_nothing(opt_str(&s.policy_violation))));
    out.push(member("received-at", text(s.received_at.as_str())));
    assert(member_docs(out@) =~= envelope_reply(*found).body->Record_0);
    Reply { status: 200, body: record(out) }
}

// -- the mandate of an envelope ---------------------------------------------------------------

/// One link of a mandate walk.
pub open spec fn link_doc(id: Seq<char>, mandate: Doc) -> Doc {
    Doc::Record(
        seq![
            ("grantee"@, mandate.at("grantee"@)),
            ("grantor"@, mandate.at("grantor"@)),
            ("mandate-id"@, Doc::Text(id)),
            ("mandate-kind"@, mandate.at("mandate-kind"@)),
            ("not-after"@, mandate.at("not-after"@)),
            ("not-before"@, mandate.at("not-before"@)),
            ("scope"@, mandate.at("scope"@)),
        ],
    )
}

fn link(id: &str, mandate: &Json) -> (r: Json)
    ensures
        r@ == link_doc(id@, mandate@),
{
    let mut out: Vec<(String, Json)> = Vec::new();
    out.push(member("grantee", mandate.at("grantee").copy()));
    out.push(member("grantor", mandate.at("grantor").copy()));
    out.push(member("mandate-id", text(id)));
    out.push(member("mandate-kind", mandate.at("mandate-kind").copy()));
    out.push(member("not-after", mandate.at("not-after").copy()));
    out.push(member("not-before", mandate.at("not-before").copy()));
    out.push(member("scope", mandate.at("scope").copy()));
    assert(member_docs(out@) =~= link_doc(id@, mandate@)->Record_0);
    record(out)
}

/// The links of a mandate walk.
pub open spec fn link_docs(links: Seq<(Seq<char>, Doc)>) -> Seq<Doc> {
    Seq::new(links.len(), |i: int| link_doc(links[i].0, links[i].1))
}

fn links(walked: &Vec<(String, &Json)>) -> (r: Vec<Json>)
    ensures
        docs(r@) == link_docs(link_views(walked@)),
{
    let mut out: Vec<Json> = Vec::new();
    let mut i: usize = 0;
    while i < walked.len()
        invariant
            i <= walked@.len(),
            out@.len() == i,
            forall|j: int|
                0 <= j < i ==> (#[trigger] out@[j])@ == link_doc(walked@[j].0@, walked@[j].1@),
        decreases walked@.len() - i,
    {
        out.push(link(walked[i].0.as_str(), walked[i].1));
        i += 1;
    }
    assert(docs(out@) =~= link_docs(link_views(walked@)));
    out
}

/// What is answered of the mandate an envelope acts under: the walk from it up to the human.
pub open spec fn mandate_reply(
    id: Seq<char>,
    found: Result<Option<Stored>, Error>,
    ancestry: Result<Vec<(String, Json)>, Error>,
) -> Replied {
    match found {
        Err(_) => unavailable_reply(),
        Ok(None) => refusal_reply(404, "not-found"@, "no such envelope"@, None),
        Ok(Some(s)) => match s.envelope {
            Err(_) => unavailable_reply(),
            Ok(e) => match e@.text_at("mandate-ref"@) {
                None => Replied {
                    status: 200,
                    body: Doc::Record(
                        seq![
                            ("chain"@, Doc::List(Seq::empty())),
                            ("id"@, Doc::Text(id)),
                            ("mandate-ref"@, Doc::Null),
                        ],
                    ),
                },
                Some(m) => match ancestry {
                    Err(_) => unavailable_reply(),
                    Ok(a) => Replied {
                        status: 200,
                        body: Doc::Record(
                            seq![
                                (
                                    "chain"@,
                                    Doc::List(
                                        link_docs(chain_from(a@, Some(m), a@.len())),
                                    ),
                                ),
                                (
                                    "human-root"@,
                                    text_or_null(crate::config::opt_string(s.human_root)),
                                ),
                                ("id"@, Doc::Text(id)),
                                ("mandate-ref"@, Doc::Text(m)),
                            ],
                        ),
                    },
                },
            },
        },
    }
}

/// What is answered of the mandate an envelope acts under.
pub fn get_envelope_mandate(
    id: &str,
    found: &Result<Option<Stored>, Error>,
    ancestry: &Result<Vec<(String, Json)>, Error>,
) -> (r: Reply)
    ensures
        r@ == mandate_reply(id@, *found, *ancestry),
{
    let s = match found {
        Ok(Some(s)) => s,
        Ok(None) => {
            return refusal(404, "not-found", "no such envelope", None);
        },
        Err(_) => {
            return unavailable();
        },
    };
    let e = match &s.envelope {
        Ok(e) => e,
        Err(_) => {
            return unavailable();
        },
    };
    let mut out: Vec<(String, Json)> = Vec::new();
    let mandate_ref = match e.text_at("mandate-ref") {
        Some(m) => m,
        None => {
            let none: Vec<Json> = Vec::new();
            assert(docs(none@) =~= Seq::empty());
            out.push(member("chain", list(none)));
            out.push(member("id", text(id)));
            out.push(member("mandate-ref", Json::Null));
            assert(member_docs(out@) =~= mandate_reply(id@, *found, *ancestry).body->Record_0);
            return Reply { status: 200, body: record(out) };
        },
    };
    let known = match ancestry {
        Ok(a) => a,
        Err(_) => {
            return unavailable();
        },
    };
    let walked = chain(known, mandate_ref);
    out.push(member("chain", list(links(&walked))));
    out.push(member("human-root", text_or_nothing(opt_str(&s.human_root))));
    out.push(member("id", text(id)));
    out.push(member("mandate-ref", text(mandate_ref)));
    assert(member_docs(out@) =~= mandate_reply(id@, *found, *ancestry).body->Record_0);
    Reply { status: 200, body: record(out) }
}

// -- lists ------------------------------------------------------------------------------------

/// Some documents under a name, with their number.
pub open spec fn listed_reply(name: Seq<char>, items: Result<Vec<Json>, Error>) -> Replied {
    match items {
        Err(_) => unavailable_reply(),
        Ok(v) => Replied {
            status: 200,
            body: Doc::Record(
                seq![("count"@, Doc::Int(v@.len() as int)), (name, Doc::List(docs(v@)))],
            ),
        },
    }
}

/// Some documents under a name, with their number: envelopes as `records`, streams, refusals, and
/// parked requests.
pub fn listed(name: &str, items: Result<Vec<Json>, Error>) -> (r: Reply)
    ensures
        r@ == listed_reply(name@, items),
{
    let v = match items {
        Ok(v) => v,
        Err(_) => {
            return unavailable();
        },
    };
    let ghost expected = seq![("count"@, Doc::Int(v@.len() as int)), (name@, Doc::List(docs(v@)))];
    let mut out: Vec<(String, Json)> = Vec::new();
    out.push(member("count", Json::Unsigned(v.len() as u64)));
    out.push(member(name, list(v)));
    assert(member_docs(out@) =~= expected);
    Reply { status: 200, body: record(out) }
}

// -- verifying --------------------------------------------------------------------------------

/// What is answered of a stream that was verified: the report, an outage as such, and what is
/// wrong with the chain as an answer like any other.
pub open spec fn stream_verify_reply(stream: Seq<char>, report: Result<Json, Error>) -> Replied {
    match report {
        Ok(d) => Replied { status: 200, body: d@ },
        Err(e) => if e@.code == STORE_UNAVAILABLE@ {
            unavailable_reply()
        } else {
            Replied {
                status: 200,
                body: Doc::Record(
                    seq![
                        ("failed-at-seq"@, number_or_null(e@.seq)),
                        ("reason"@, Doc::Text(e@.detail)),
                        ("reason-code"@, Doc::Text(e@.code)),
                        ("stream"@, Doc::Text(stream)),
                        ("valid"@, Doc::Bool(false)),
                    ],
                ),
            }
        },
    }
}

/// What is answered of a stream that was verified.
pub fn get_stream_verify(stream: &str, report: &Result<Json, Error>) -> (r: Reply)
    ensures
        r@ == stream_verify_reply(stream@, *report),
{
    let e = match report {
        Ok(d) => {
            return Reply { status: 200, body: d.copy() };
        },
        Err(e) => e,
    };
    if same(e.code(), STORE_UNAVAILABLE) {
        return unavailable();
    }
    let mut out: Vec<(String, Json)> = Vec::new();
    out.push(member("failed-at-seq", number_or_nothing(e.seq())));
    out.push(member("reason", text(e.detail())));
    out.push(member("reason-code", text(e.code())));
    out.push(member("stream", text(stream)));
    out.push(member("valid", Json::Bool(false)));
    assert(member_docs(out@) =~= stream_verify_reply(stream@, *report).body->Record_0);
    Reply { status: 200, body: record(out) }
}

/// What is answered of the stream of refusals, given what verifying it came to and how often each
/// reason occurs in it.
pub open spec fn rejections_verify_reply(
    stream: Seq<char>,
    count: int,
    head: Result<Option<String>, Error>,
    reasons: Doc,
) -> Replied {
    match head {
        Ok(h) => Replied {
            status: 200,
            body: Doc::Record(
                seq![
                    ("count"@, Doc::Int(count)),
                    ("head-hash"@, text_or_null(crate::config::opt_string(h))),
                    ("reasons"@, reasons),
                    ("stream"@, Doc::Text(stream)),
                    ("valid"@, Doc::Bool(true)),
                ],
            ),
        },
        Err(e) => Replied {
            status: 200,
            body: Doc::Record(
                seq![
                    ("count"@, Doc::Int(count)),
                    ("reason"@, Doc::Text(e@.detail)),
                    ("reason-code"@, Doc::Text(e@.code)),
                    ("stream"@, Doc::Text(stream)),
                    ("valid"@, Doc::Bool(false)),
                ],
            ),
        },
    }
}

/// What is answered of the stream of refusals.
pub fn get_rejections_verify(
    stream: &str,
    count: usize,
    head: &Result<Option<String>, Error>,
    reasons: &Json,
) -> (r: Reply)
    ensures
        r@ == rejections_verify_reply(stream@, count as int, *head, reasons@),
{
    let mut out: Vec<(String, Json)> = Vec::new();
    out.push(member("count", Json::Unsigned(count as u64)));
    match head {
        Ok(h) => {
            out.push(member("head-hash", text_or_nothing(opt_str(h))));
            out.push(member("reasons", reasons.copy()));
            out.push(member("stream", text(stream)));
            out.push(member("valid", Json::Bool(true)));
        },
        Err(e) => {
            out.push(member("reason", text(e.detail())));
            out.push(member("reason-code", text(e.code())));
            out.push(member("stream", text(stream)));
            out.push(member("valid", Json::Bool(false)));
        },
    }
    assert(member_docs(out@) =~= rejections_verify_reply(
        stream@,
        count as int,
        *head,
        reasons@,
    ).body->Record_0);
    Reply { status: 200, body: record(out) }
}

// -- payloads ---------------------------------------------------------------------------------

/// How a payload is handed out: as an attachment, whose name is a digest or is not given.
pub open spec fn payload_disposition(hash: Seq<char>) -> Seq<char> {
    if is_digest(hash) {
        "attachment; filename=\""@ + hash + ".bin\""@
    } else {
        "attachment"@
    }
}

/// How a payload is handed out.
pub fn disposition(hash: &str) -> (r: String)
    ensures
        r@ == payload_disposition(hash@),
{
    if is_digest_hex(hash) {
        join3("attachment; filename=\"", hash, ".bin\"")
    } else {
        "attachment".to_owned()
    }
}

/// The media type every payload is handed out under, whatever its emitter declared.
pub const PAYLOAD_MEDIA_TYPE: &'static str = "application/octet-stream";

/// What is answered of a payload that has decayed.
pub open spec fn decayed_reply(hash: Seq<char>) -> Replied {
    Replied {
        status: 410,
        body: Doc::Record(
            seq![
                ("payload-hash"@, Doc::Text(hash)),
                (
                    "reason"@,
                    Doc::Text("the payload has decayed; the hash remains the commitment"@),
                ),
                ("result"@, Doc::Text("decayed"@)),
                ("stozher"@, Doc::Text(VERSION@)),
            ],
        ),
    }
}

/// What is handed out of a payload.
#[derive(Debug)]
pub enum Payload {
    /// Its bytes, under [`PAYLOAD_MEDIA_TYPE`] and a disposition.
    Bytes(Vec<u8>, String),
    /// An answer.
    Answer(Reply),
}

/// What is handed out of a payload: its bytes where they are still held, and otherwise that they
/// have decayed.
pub fn get_payload(hash: &str, found: Result<Option<Vec<u8>>, Error>) -> (r: Payload)
    ensures
        match found {
            Ok(Some(bytes)) => r matches Payload::Bytes(b, d) && b == bytes && d@
                == payload_disposition(hash@),
            Ok(None) => r matches Payload::Answer(p) && p@ == decayed_reply(hash@),
            Err(_) => r matches Payload::Answer(p) && p@ == unavailable_reply(),
        },
{
    match found {
        Ok(Some(bytes)) => Payload::Bytes(bytes, disposition(hash)),
        Ok(None) => {
            let mut out: Vec<(String, Json)> = Vec::new();
            out.push(member("payload-hash", text(hash)));
            out.push(
                member("reason", text("the payload has decayed; the hash remains the commitment")),
            );
            out.push(member("result", text("decayed")));
            out.push(member("stozher", text(VERSION)));
            assert(member_docs(out@) =~= decayed_reply(hash@).body->Record_0);
            Payload::Answer(Reply { status: 410, body: record(out) })
        },
        Err(_) => Payload::Answer(unavailable()),
    }
}

// -- checkpoints and decay --------------------------------------------------------------------

/// What checkpointing one stream came to.
pub open spec fn checkpointed_doc(stream: Seq<char>, outcome: Result<Option<u64>, String>) -> Doc {
    match outcome {
        Ok(seq) => Doc::Record(seq![("seq"@, number_or_null(seq)), ("stream"@, Doc::Text(stream))]),
        Err(reason) => Doc::Record(
            seq![("error"@, Doc::Text(reason@)), ("stream"@, Doc::Text(stream))],
        ),
    }
}

fn checkpointed(stream: &str, outcome: &Result<Option<u64>, String>) -> (r: Json)
    ensures
        r@ == checkpointed_doc(stream@, *outcome),
{
    let mut out: Vec<(String, Json)> = Vec::new();
    match outcome {
        Ok(seq) => {
            out.push(member("seq", number_or_nothing(*seq)));
        },
        Err(reason) => {
            out.push(member("error", text(reason.as_str())));
        },
    }
    out.push(member("stream", text(stream)));
    assert(member_docs(out@) =~= checkpointed_doc(stream@, *outcome)->Record_0);
    record(out)
}

/// What checkpointing some streams came to.
pub open spec fn checkpointed_docs(
    outcomes: Seq<(String, Result<Option<u64>, String>)>,
) -> Seq<Doc> {
    Seq::new(outcomes.len(), |i: int| checkpointed_doc(outcomes[i].0@, outcomes[i].1))
}

/// What is answered once streams were checkpointed.
pub open spec fn checkpoints_reply(
    outcomes: Result<Vec<(String, Result<Option<u64>, String>)>, Error>,
) -> Replied {
    match outcomes {
        Ok(v) => Replied {
            status: 200,
            body: Doc::Record(seq![("checkpointed"@, Doc::List(checkpointed_docs(v@)))]),
        },
        Err(e) => failure_reply(e@),
    }
}

/// What is answered once streams were checkpointed.
pub fn post_checkpoints(
    outcomes: &Result<Vec<(String, Result<Option<u64>, String>)>, Error>,
) -> (r: Reply)
    ensures
        r@ == checkpoints_reply(*outcomes),
{
    let done = match outcomes {
        Ok(v) => v,
        Err(e) => {
            return failure(e);
        },
    };
    let mut rendered: Vec<Json> = Vec::new();
    let mut i: usize = 0;
    while i < done.len()
        invariant
            i <= done@.len(),
            rendered@.len() == i,
            forall|j: int|
                0 <= j < i ==> (#[trigger] rendered@[j])@ == checkpointed_doc(
                    done@[j].0@,
                    done@[j].1,
                ),
        decreases done@.len() - i,
    {
        rendered.push(checkpointed(done[i].0.as_str(), &done[i].1));
        i += 1;
    }
    assert(docs(rendered@) =~= checkpointed_docs(done@));
    let mut out: Vec<(String, Json)> = Vec::new();
    out.push(member("checkpointed", list(rendered)));
    assert(member_docs(out@) =~= checkpoints_reply(*outcomes).body->Record_0);
    Reply { status: 200, body: record(out) }
}

/// What is answered once payloads decayed.
pub open spec fn decay_reply(report: Result<DecayReport, Error>) -> Replied {
    match report {
        Ok(d) => Replied {
            status: 200,
            body: Doc::Record(
                seq![
                    ("at"@, Doc::Text(d.at@)),
                    ("decayed-hashes"@, text_list(texts(d.deleted_hashes@))),
                    ("payloads-deleted"@, Doc::Int(d.payloads_deleted as int)),
                    ("streams-checkpointed"@, text_list(texts(d.streams_checkpointed@))),
                ],
            ),
        },
        Err(e) => failure_reply(e@),
    }
}

/// What is answered once payloads decayed.
pub fn post_decay(report: &Result<DecayReport, Error>) -> (r: Reply)
    ensures
        r@ == decay_reply(*report),
{
    let d = match report {
        Ok(d) => d,
        Err(e) => {
            return failure(e);
        },
    };
    let mut out: Vec<(String, Json)> = Vec::new();
    out.push(member("at", text(d.at.as_str())));
    out.push(member("decayed-hashes", list_of(&d.deleted_hashes)));
    out.push(member("payloads-deleted", Json::Unsigned(d.payloads_deleted as u64)));
    out.push(member("streams-checkpointed", list_of(&d.streams_checkpointed)));
    assert(member_docs(out@) =~= decay_reply(*report).body->Record_0);
    Reply { status: 200, body: record(out) }
}

// -- laws -------------------------------------------------------------------------------------

/// A payload never names itself with anything but a digest: what stands between the quotes cannot
/// end them.
pub proof fn lemma_attachments_are_named_by_digests(hash: Seq<char>)
    requires
        payload_disposition(hash) != "attachment"@,
    ensures
        is_digest(hash),
        forall|i: int| 0 <= i < hash.len() ==> #[trigger] hash[i] != '"',
{
    assert forall|i: int| 0 <= i < hash.len() implies #[trigger] hash[i] != '"' by {
        assert(crate::text::is_lower_hex(hash[i]));
    }
}

/// An envelope is answered with itself and with what the kernel concluded of it; one that is not
/// there is not found, and one that could not be read is an outage.
pub proof fn lemma_how_an_envelope_is_answered(s: Stored, found: Result<Option<Stored>, Error>)
    ensures
        found is Err ==> envelope_reply(found).status == 503,
        found == Ok::<Option<Stored>, Error>(None) ==> envelope_reply(found).status == 404,
        envelope_reply(Ok(Some(s))).status == if s.envelope is Ok {
            200int
        } else {
            503
        },
        s.envelope matches Ok(e) ==> {
            let d = envelope_reply(Ok(Some(s))).body;
            &&& d.get("envelope"@) == Some(e@)
            &&& d.get("id"@) == Some(Doc::Text(s.id@))
            &&& d.get("received-at"@) == Some(Doc::Text(s.received_at@))
            &&& d.get("effective-class"@) == Some(match s.effective_class { Some(t) => Doc::Text(t@), None => Doc::Null })
            &&& d.get("human-root"@) == Some(match s.human_root { Some(t) => Doc::Text(t@), None => Doc::Null })
            &&& d.get("policy-violation"@) == Some(match s.policy_violation { Some(t) => Doc::Text(t@), None => Doc::Null })
        },
{
    reveal_strlit("effective-class");
    reveal_strlit("envelope");
    reveal_strlit("human-root");
    reveal_strlit("id");
    reveal_strlit("policy-violation");
    reveal_strlit("received-at");
    assert("effective-class"@.len() == 15);
    assert("envelope"@.len() == 8);
    assert("human-root"@.len() == 10);
    assert("id"@.len() == 2);
    assert("policy-violation"@.len() == 16);
    assert("received-at"@.len() == 11);
    if s.envelope is Ok {
        let members = envelope_reply(Ok(Some(s))).body->Record_0;
        crate::json::lemma_lookup_at(members, "effective-class"@, 0);
        crate::json::lemma_lookup_at(members, "envelope"@, 1);
        crate::json::lemma_lookup_at(members, "human-root"@, 2);
        crate::json::lemma_lookup_at(members, "id"@, 3);
        crate::json::lemma_lookup_at(members, "policy-violation"@, 4);
        crate::json::lemma_lookup_at(members, "received-at"@, 5);
    }
}

/// A walk is answered with every mandate on it, from the one the envelope names up, and with the
/// human it ends at; without a mandate there is no walk.
pub proof fn lemma_how_a_walk_is_answered(
    id: Seq<char>,
    s: Stored,
    envelope: Json,
    ancestry: Vec<(String, Json)>,
)
    requires
        s.envelope == Ok::<Json, Error>(envelope),
    ensures
        ({
            let r = mandate_reply(id, Ok(Some(s)), Ok(ancestry));
            &&& r.status == 200
            &&& match envelope@.at("mandate-ref"@) {
                Doc::Text(m) => {
                    let walk = chain_from(ancestry@, Some(m), ancestry@.len());
                    &&& r.body.get("mandate-ref"@) == Some(Doc::Text(m))
                    &&& r.body.get("human-root"@) == Some(match s.human_root { Some(t) => Doc::Text(t@), None => Doc::Null })
                    &&& r.body.at("chain"@) is List
                    &&& r.body.at("chain"@).items().len() == walk.len()
                    &&& forall|i: int|
                        0 <= i < walk.len() ==> #[trigger] r.body.at("chain"@).items()[i]
                            == link_doc(walk[i].0, walk[i].1)
                },
                _ => r.body.get("mandate-ref"@) == Some(Doc::Null) && r.body.get("chain"@) == Some(
                    Doc::List(Seq::empty()),
                ),
            }
        }),
{
    reveal_strlit("chain");
    reveal_strlit("human-root");
    reveal_strlit("id");
    reveal_strlit("mandate-ref");
    assert("chain"@.len() == 5);
    assert("human-root"@.len() == 10);
    assert("id"@.len() == 2);
    assert("mandate-ref"@.len() == 11);
    let members = mandate_reply(id, Ok(Some(s)), Ok(ancestry)).body->Record_0;
    crate::json::lemma_lookup_at(members, "chain"@, 0);
    if envelope@.at("mandate-ref"@) is Text {
        crate::json::lemma_lookup_at(members, "human-root"@, 1);
        crate::json::lemma_lookup_at(members, "mandate-ref"@, 3);
    } else {
        crate::json::lemma_lookup_at(members, "mandate-ref"@, 2);
    }
}

/// A link of a walk says who granted what to whom, and for how long.
pub proof fn lemma_what_a_link_says(id: Seq<char>, mandate: Doc)
    ensures
        ({
            let d = link_doc(id, mandate);
            &&& d->Record_0.len() == 7
            &&& d.get("grantee"@) == Some(mandate.at("grantee"@))
            &&& d.get("grantor"@) == Some(mandate.at("grantor"@))
            &&& d.get("mandate-id"@) == Some(Doc::Text(id))
            &&& d.get("mandate-kind"@) == Some(mandate.at("mandate-kind"@))
            &&& d.get("not-after"@) == Some(mandate.at("not-after"@))
            &&& d.get("not-before"@) == Some(mandate.at("not-before"@))
            &&& d.get("scope"@) == Some(mandate.at("scope"@))
        }),
{
    reveal_strlit("grantee");
    reveal_strlit("grantor");
    reveal_strlit("mandate-id");
    reveal_strlit("mandate-kind");
    reveal_strlit("not-after");
    reveal_strlit("not-before");
    reveal_strlit("scope");
    assert("grantee"@.len() == 7);
    assert("grantor"@.len() == 7);
    assert("mandate-id"@.len() == 10);
    assert("mandate-kind"@.len() == 12);
    assert("not-after"@.len() == 9);
    assert("not-before"@.len() == 10);
    assert("scope"@.len() == 5);
    assert("grantor"@[5] == 'o');
    assert("grantee"@[5] == 'e');
    assert("not-before"@[0] == 'n');
    assert("mandate-id"@[0] == 'm');
    let members = link_doc(id, mandate)->Record_0;
    crate::json::lemma_lookup_at(members, "grantee"@, 0);
    crate::json::lemma_lookup_at(members, "grantor"@, 1);
    crate::json::lemma_lookup_at(members, "mandate-id"@, 2);
    crate::json::lemma_lookup_at(members, "mandate-kind"@, 3);
    crate::json::lemma_lookup_at(members, "not-after"@, 4);
    crate::json::lemma_lookup_at(members, "not-before"@, 5);
    crate::json::lemma_lookup_at(members, "scope"@, 6);
}

/// A stream that does not verify is answered with why and where, as what was asked and no failure of
/// the answer; one that could not be looked at is an outage.
pub proof fn lemma_how_a_verification_is_answered(stream: Seq<char>, report: Result<Json, Error>)
    ensures
        ({
            let r = stream_verify_reply(stream, report);
            match report {
                Ok(d) => r.status == 200 && r.body == d@,
                Err(e) => if e@.code == "x-store-unavailable"@ {
                    r.status == 503
                } else {
                    &&& r.status == 200
                    &&& r.body.get("valid"@) == Some(Doc::Bool(false))
                    &&& r.body.get("stream"@) == Some(Doc::Text(stream))
                    &&& r.body.get("reason-code"@) == Some(Doc::Text(e@.code))
                    &&& r.body.get("reason"@) == Some(Doc::Text(e@.detail))
                    &&& r.body.get("failed-at-seq"@) == Some(
                        match e@.seq {
                            Some(n) => Doc::Int(n as int),
                            None => Doc::Null,
                        },
                    )
                },
            }
        }),
{
    reveal_strlit("failed-at-seq");
    reveal_strlit("reason");
    reveal_strlit("reason-code");
    reveal_strlit("stream");
    reveal_strlit("valid");
    assert("failed-at-seq"@.len() == 13);
    assert("reason"@.len() == 6);
    assert("reason-code"@.len() == 11);
    assert("stream"@.len() == 6);
    assert("valid"@.len() == 5);
    assert("stream"@[0] == 's');
    assert("reason"@[0] == 'r');
    if let Err(e) = report {
        if e@.code != STORE_UNAVAILABLE@ {
            let members = stream_verify_reply(stream, report).body->Record_0;
            crate::json::lemma_lookup_at(members, "failed-at-seq"@, 0);
            crate::json::lemma_lookup_at(members, "reason"@, 1);
            crate::json::lemma_lookup_at(members, "reason-code"@, 2);
            crate::json::lemma_lookup_at(members, "stream"@, 3);
            crate::json::lemma_lookup_at(members, "valid"@, 4);
        }
    }
}

/// A payload that has decayed is gone and says so; its hash remains.
pub proof fn lemma_what_a_decayed_payload_leaves(hash: Seq<char>)
    ensures
        decayed_reply(hash).status == 410,
        decayed_reply(hash).body.get("payload-hash"@) == Some(Doc::Text(hash)),
        decayed_reply(hash).body.get("result"@) == Some(Doc::Text("decayed"@)),
{
    reveal_strlit("payload-hash");
    reveal_strlit("reason");
    reveal_strlit("result");
    reveal_strlit("stozher");
    assert("payload-hash"@.len() == 12);
    assert("reason"@.len() == 6);
    assert("result"@.len() == 6);
    assert("stozher"@.len() == 7);
    assert("result"@[2] == 's');
    assert("reason"@[2] == 'a');
    let members = decayed_reply(hash).body->Record_0;
    crate::json::lemma_lookup_at(members, "payload-hash"@, 0);
    crate::json::lemma_lookup_at(members, "result"@, 2);
}

/// A list is answered whole, each item in its place, with how many there are.
pub proof fn lemma_how_a_list_is_answered(name: Seq<char>, items: Vec<Json>)
    requires
        name != "count"@,
    ensures
        listed_reply(name, Ok(items)).status == 200,
        listed_reply(name, Ok(items)).body.get("count"@) == Some(Doc::Int(items@.len() as int)),
        listed_reply(name, Ok(items)).body.get(name) == Some(Doc::List(docs(items@))),
{
    let members = listed_reply(name, Ok(items)).body->Record_0;
    crate::json::lemma_lookup_at(members, "count"@, 0);
    crate::json::lemma_lookup_at(members, name, 1);
}

/// Every stream of a round is answered, in its place: with where its checkpoint stands, or why there
/// is none.
pub proof fn lemma_every_round_is_answered(
    outcomes: Seq<(String, Result<Option<u64>, String>)>,
    i: int,
)
    requires
        0 <= i < outcomes.len(),
    ensures
        checkpointed_docs(outcomes).len() == outcomes.len(),
        ({
            let d = checkpointed_docs(outcomes)[i];
            &&& d.get("stream"@) == Some(Doc::Text(outcomes[i].0@))
            &&& outcomes[i].1 matches Ok(seq) ==> d.get("seq"@) == Some(
                match seq {
                    Some(n) => Doc::Int(n as int),
                    None => Doc::Null,
                },
            )
            &&& outcomes[i].1 matches Err(why) ==> d.get("error"@) == Some(Doc::Text(why@))
        }),
{
    reveal_strlit("seq");
    reveal_strlit("stream");
    reveal_strlit("error");
    assert("seq"@.len() == 3);
    assert("stream"@.len() == 6);
    assert("error"@.len() == 5);
    let members = checkpointed_docs(outcomes)[i]->Record_0;
    crate::json::lemma_lookup_at(members, "stream"@, 1);
    if outcomes[i].1 is Ok {
        crate::json::lemma_lookup_at(members, "seq"@, 0);
    } else {
        crate::json::lemma_lookup_at(members, "error"@, 0);
    }
}

/// A payload is offered under its own hash, and under no name where that is no digest.
pub proof fn lemma_what_a_payload_is_offered_as(hash: Seq<char>)
    ensures
        is_digest(hash) ==> payload_disposition(hash) == "attachment; filename=\""@ + hash
            + ".bin\""@,
        !is_digest(hash) ==> payload_disposition(hash) == "attachment"@,
{
}

} // verus!
