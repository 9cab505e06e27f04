//! Checkpoints: what of a stream is attested next, payload decay and the checkpoints that must
//! precede it, and the report on a stream.
//!
//! A checkpoint is submitted like everything else. That it is the kernel's own record is no reason
//! to trust it more.

use vstd::prelude::*;

use crate::clock::is_timestamp;
use crate::codes::{CHECKPOINT_STREAM_UNKNOWN, STORE_UNAVAILABLE};
use crate::documents::{header_members, identity_doc, lemma_extended_gives};
use crate::error::{fault, settles, Error, Fault};
use crate::ingest::admission::{Appended, Placed};
use crate::ingest::records::{checkpoint_fault, CHECKPOINT_MEMBERS};
use crate::ingest::submission::{kernel_body, kernel_envelope, next_place, Head, Outcome};
use crate::json::{
    docs, lemma_lookup_at, lemma_put_then_get, member, member_docs, named, record, stranger, text,
    Doc, Json,
};
use crate::keys::KeyId;
use crate::text::{decimal, decimal_text, join2, join3, join5, same, texts};

verus! {

// -- emission ---------------------------------------------------------------------------------

/// What of a stream no checkpoint covers yet: from where and to where, if anything.
pub open spec fn uncovered(head: Option<Head>, covered_to: Option<u64>) -> Option<(int, int)> {
    match head {
        None => None,
        Some(h) => match covered_to {
            Some(to) => if to >= h.seq {
                None
            } else {
                Some((to + 1, h.seq as int))
            },
            None => Some((0, h.seq as int)),
        },
    }
}

/// The attestation of part of a stream.
pub open spec fn attestation(
    stream: Seq<char>,
    from: int,
    to: int,
    head_hash: Seq<char>,
    now: Seq<char>,
) -> Doc {
    Doc::Record(
        seq![
            ("count"@, Doc::Int(to - from + 1)),
            ("from-seq"@, Doc::Int(from)),
            ("head-hash"@, Doc::Text(head_hash)),
            ("observed-at"@, Doc::Text(now)),
            ("stream"@, Doc::Text(stream)),
            ("to-seq"@, Doc::Int(to)),
        ],
    )
}

/// The checkpoint of a stream, unsigned, where there is anything new to attest.
pub open spec fn checkpoint_body(
    stream: Seq<char>,
    head: Option<Head>,
    covered_to: Option<u64>,
    checkpoint_stream: Seq<char>,
    checkpoint_head: Option<Head>,
    now: Seq<char>,
    key: Seq<char>,
) -> Option<Doc> {
    match uncovered(head, covered_to) {
        None => None,
        Some((from, to)) => Some(
            kernel_body(
                "checkpoint"@,
                checkpoint_stream,
                checkpoint_head,
                now,
                key,
                seq![("checkpoint"@, attestation(stream, from, to, head->0.id@, now))],
            ),
        ),
    }
}

/// The checkpoint of a stream, unsigned, covering everything that no checkpoint covers yet. No
/// stream is at the last place there is.
pub fn emit(
    stream: &str,
    head: &Option<Head>,
    covered_to: Option<u64>,
    checkpoint_stream: &str,
    checkpoint_head: &Option<Head>,
    now: &str,
    key: &KeyId,
) -> (r: Option<Json>)
    requires
        head matches Some(h) ==> h.seq < u64::MAX,
        checkpoint_head matches Some(h) ==> h.seq < u64::MAX,
    ensures
        match checkpoint_body(
            stream@,
            *head,
            covered_to,
            checkpoint_stream@,
            *checkpoint_head,
            now@,
            key@,
        ) {
            Some(d) => r matches Some(v) && v@ == d,
            None => r is None,
        },
{
    let h = match head {
        None => {
            return None;
        },
        Some(h) => h,
    };
    let from: u64 = match covered_to {
        Some(to) => {
            if to >= h.seq {
                return None;
            }
            to + 1
        },
        None => 0,
    };
    let mut body: Vec<(String, Json)> = Vec::new();
    body.push(member("count", Json::Unsigned(h.seq - from + 1)));
    body.push(member("from-seq", Json::Unsigned(from)));
    body.push(member("head-hash", text(h.id.as_str())));
    body.push(member("observed-at", text(now)));
    body.push(member("stream", text(stream)));
    body.push(member("to-seq", Json::Unsigned(h.seq)));
    assert(member_docs(body@) =~= attestation(
        stream@,
        from as int,
        h.seq as int,
        h.id@,
        now@,
    )->Record_0);
    let mut more: Vec<(String, Json)> = Vec::new();
    more.push(member("checkpoint", record(body)));
    assert(member_docs(more@) =~= seq![
        ("checkpoint"@, attestation(stream@, from as int, h.seq as int, h.id@, now@)),
    ]);
    Some(kernel_envelope("checkpoint", checkpoint_stream, checkpoint_head, now, key, &more))
}

/// The codes a checkpoint of the kernel's own can be refused with.
pub const CHECKPOINT_CODES: [&'static str; 8] = [
    "checkpoint-count-mismatch",
    "checkpoint-head-mismatch",
    "checkpoint-range-discontinuous",
    "checkpoint-signer-not-kernel",
    "chain-seq-duplicate",
    "chain-seq-gap",
    "chain-prev-hash-mismatch",
    "policy-not-published",
];

/// The code a refusal is reported under: its own where it is one of those a checkpoint can meet.
pub open spec fn reported_code(reason: Seq<char>) -> Seq<char> {
    if named(CHECKPOINT_CODES@, reason) {
        reason
    } else {
        CHECKPOINT_STREAM_UNKNOWN@
    }
}

/// The code a refusal is reported under.
pub fn leak_code(reason: &str) -> (r: &'static str)
    ensures
        r@ == reported_code(reason@),
{
    let mut i: usize = 0;
    while i < CHECKPOINT_CODES.len()
        invariant
            i <= CHECKPOINT_CODES@.len(),
            forall|j: int| 0 <= j < i ==> (#[trigger] CHECKPOINT_CODES@[j])@ != reason@,
        decreases CHECKPOINT_CODES@.len() - i,
    {
        let code = CHECKPOINT_CODES[i];
        if same(code, reason) {
            assert(CHECKPOINT_CODES@[i as int]@ == reason@);
            return code;
        }
        i += 1;
    }
    CHECKPOINT_STREAM_UNKNOWN
}

/// What submitting a checkpoint comes to.
pub open spec fn emitted(outcome: Outcome) -> Result<Placed, Fault> {
    match outcome {
        Outcome::Accepted(appended) => Ok(appended@),
        Outcome::Rejected { reason, detail, .. } => Err(
            fault(
                reported_code(reason@),
                "the kernel's own checkpoint was rejected: "@ + detail@,
            ),
        ),
        Outcome::Unavailable(detail) => Err(fault(STORE_UNAVAILABLE@, detail@)),
    }
}

/// What submitting a checkpoint came to.
pub fn emission_result(outcome: &Outcome) -> (r: Result<Appended, Error>)
    ensures
        match emitted(*outcome) {
            Ok(p) => r matches Ok(v) && v@ == p,
            Err(f) => r matches Err(e) && e@ == f,
        },
{
    match outcome {
        Outcome::Accepted(appended) => Ok(appended.copy()),
        Outcome::Rejected { reason, detail, .. } => Err(
            Error::new(
                leak_code(reason.as_str()),
                join2("the kernel's own checkpoint was rejected: ", detail.as_str()),
            ),
        ),
        Outcome::Unavailable(detail) => Err(Error::new(STORE_UNAVAILABLE, detail.clone())),
    }
}

/// The streams listed before a place, but for the one checkpoints are written to.
pub open spec fn attested_streams(
    streams: Seq<Doc>,
    checkpoint_stream: Seq<char>,
    upto: int,
) -> Seq<Seq<char>>
    decreases upto,
{
    if upto <= 0 {
        Seq::empty()
    } else {
        let before = attested_streams(streams, checkpoint_stream, upto - 1);
        match streams[upto - 1].text_at("stream"@) {
            Some(name) => if name == checkpoint_stream {
                before
            } else {
                before.push(name)
            },
            None => before,
        }
    }
}

/// The streams to checkpoint, in order: the one checkpoints are written to comes last, so that a
/// run does not chase its own tail.
pub fn emit_all(streams: &Vec<Json>, checkpoint_stream: &str) -> (r: Vec<String>)
    ensures
        texts(r@) == attested_streams(
            docs(streams@),
            checkpoint_stream@,
            streams@.len() as int,
        ).push(checkpoint_stream@),
{
    let mut out: Vec<String> = Vec::new();
    assert(texts(out@) =~= Seq::empty());
    let mut i: usize = 0;
    while i < streams.len()
        invariant
            i <= streams@.len(),
            texts(out@) == attested_streams(docs(streams@), checkpoint_stream@, i as int),
        decreases streams@.len() - i,
    {
        let ghost before = texts(out@);
        if let Some(name) = streams[i].text_at("stream") {
            if !same(name, checkpoint_stream) {
                out.push(name.to_owned());
                assert(texts(out@) =~= before.push(name@));
            }
        }
        i += 1;
    }
    let ghost before = texts(out@);
    out.push(checkpoint_stream.to_owned());
    assert(texts(out@) =~= before.push(checkpoint_stream@));
    out
}

/// How many seconds pass before the next run, given what policy says of the interval: nothing is
/// there to checkpoint before a policy is in force, so the kernel looks again soon; and a policy
/// that cannot be read is no reason to stop.
pub open spec fn next_run(policy: Result<Option<Result<i64, Error>>, Error>) -> int {
    let seconds = match policy {
        Ok(Some(Ok(s))) => s as int,
        Ok(Some(Err(_))) => 3_600,
        Ok(None) => 60,
        Err(_) => 60,
    };
    if seconds < 0 {
        3_600
    } else if seconds == 0 {
        1
    } else {
        seconds
    }
}

/// How many seconds pass before the next run.
pub fn run_interval(policy: &Result<Option<Result<i64, Error>>, Error>) -> (r: u64)
    ensures
        r == next_run(*policy),
{
    let seconds: i64 = match policy {
        Ok(Some(Ok(s))) => *s,
        Ok(Some(Err(_))) => 3_600,
        Ok(None) => 60,
        Err(_) => 60,
    };
    if seconds < 0 {
        3_600
    } else if seconds == 0 {
        1
    } else {
        seconds as u64
    }
}

// -- decay ------------------------------------------------------------------------------------

/// What a decay run did.
#[derive(Debug)]
pub struct DecayReport {
    /// When.
    pub at: String,
    /// The streams whose head was fixed before anything was deleted.
    pub streams_checkpointed: Vec<String>,
    /// How many payloads were erased.
    pub payloads_deleted: usize,
    /// Their hashes, which every envelope that committed to them still holds.
    pub deleted_hashes: Vec<String>,
}

/// What a decay run does next.
#[derive(Debug)]
pub enum DecayStep {
    /// Checkpoint the affected stream at this place.
    Checkpoint(usize),
    /// Delete what has expired.
    Delete,
    /// Stop: a checkpoint that must come first failed.
    Stop(Error),
}

/// The first checkpoint, from a place on, that failed.
pub open spec fn failed_checkpoint(
    done: Seq<Result<Option<u64>, Error>>,
    from: int,
) -> Option<Fault>
    decreases done.len() - from,
{
    if from >= done.len() {
        None
    } else {
        match done[from] {
            Err(e) => Some(e@),
            Ok(_) => failed_checkpoint(done, from + 1),
        }
    }
}

/// Whether a decay run does next what it must: every affected stream is checkpointed before
/// anything is deleted, and nothing is where a checkpoint failed.
pub open spec fn decays(r: DecayStep, affected: int, done: Seq<Result<Option<u64>, Error>>) -> bool {
    match failed_checkpoint(done, 0) {
        Some(f) => r matches DecayStep::Stop(e) && e@ == f,
        None => if done.len() < affected {
            r matches DecayStep::Checkpoint(i) && i == done.len()
        } else {
            r is Delete
        },
    }
}

/// What a decay run does next, given how many streams are affected and what checkpointing each so
/// far came to.
pub fn decay_next(affected: usize, done: &Vec<Result<Option<u64>, Error>>) -> (r: DecayStep)
    ensures
        decays(r, affected as int, done@),
{
    let mut i: usize = 0;
    while i < done.len()
        invariant
            i <= done@.len(),
            failed_checkpoint(done@, 0) == failed_checkpoint(done@, i as int),
        decreases done@.len() - i,
    {
        if let Err(e) = &done[i] {
            return DecayStep::Stop(e.copy());
        }
        i += 1;
    }
    if done.len() < affected {
        DecayStep::Checkpoint(done.len())
    } else {
        DecayStep::Delete
    }
}

/// The streams before a place whose checkpoint was appended, each with where.
pub open spec fn fixed_heads(
    affected: Seq<Seq<char>>,
    done: Seq<Result<Option<u64>, Error>>,
    upto: int,
) -> Seq<Seq<char>>
    decreases upto,
{
    if upto <= 0 {
        Seq::empty()
    } else {
        let before = fixed_heads(affected, done, upto - 1);
        match done[upto - 1] {
            Ok(Some(seq)) => before.push(affected[upto - 1] + "@"@ + decimal(seq as nat)),
            _ => before,
        }
    }
}

/// What a decay run did.
pub fn decay_with_checkpoints(
    at: &str,
    affected: &Vec<String>,
    done: &Vec<Result<Option<u64>, Error>>,
    deleted: Vec<String>,
) -> (r: DecayReport)
    requires
        done@.len() == affected@.len(),
        failed_checkpoint(done@, 0) is None,
    ensures
        r.at@ == at@,
        texts(r.streams_checkpointed@) == fixed_heads(
            texts(affected@),
            done@,
            affected@.len() as int,
        ),
        r.payloads_deleted == deleted@.len(),
        r.deleted_hashes == deleted,
{
    let mut fixed: Vec<String> = Vec::new();
    assert(texts(fixed@) =~= Seq::empty());
    let mut i: usize = 0;
    while i < affected.len()
        invariant
            i <= affected@.len() == done@.len(),
            texts(fixed@) == fixed_heads(texts(affected@), done@, i as int),
        decreases affected@.len() - i,
    {
        let ghost before = texts(fixed@);
        if let Ok(Some(seq)) = &done[i] {
            let entry = join3(affected[i].as_str(), "@", decimal_text(*seq).as_str());
            let ghost entry_text = entry@;
            fixed.push(entry);
            assert(texts(fixed@) =~= before.push(entry_text));
        }
        i += 1;
    }
    DecayReport {
        at: at.to_owned(),
        streams_checkpointed: fixed,
        payloads_deleted: deleted.len(),
        deleted_hashes: deleted,
    }
}

// -- the report on a stream -------------------------------------------------------------------

/// What verifying a range of a chain yields.
#[derive(Debug)]
pub struct ChainResult {
    /// How many envelopes.
    pub count: u64,
    /// The hash at the last of them.
    pub head_hash: String,
    /// Whether the range is anchored at the beginning of its stream.
    pub anchored: bool,
}

/// A checkpoint recorded for a stream, and what verifying the range it covers came to.
#[derive(Debug)]
pub struct RecordedCheckpoint {
    /// The first attested position.
    pub from_seq: u64,
    /// The last attested position.
    pub to_seq: u64,
    /// The attested hash.
    pub head_hash: String,
    /// What verifying the stream up to there came to.
    pub observed: Result<ChainResult, Error>,
}

/// Why a checkpoint is not what the chain reproduces: the chain does not verify up to there, or
/// ends there with another hash.
pub open spec fn attestation_fault(stream: Seq<char>, c: RecordedCheckpoint) -> Option<Fault> {
    match c.observed {
        Err(e) => Some(e@),
        Ok(seen) => if seen.head_hash@ != c.head_hash@ {
            Some(
                fault(
                    "checkpoint-head-mismatch"@,
                    "the checkpoint of "@ + stream + "["@ + decimal(c.from_seq as nat) + ", "@
                        + decimal(c.to_seq as nat) + "] attests "@ + c.head_hash@
                        + ", the chain reproduces "@ + seen.head_hash@,
                ),
            )
        } else {
            None
        },
    }
}

/// The first fault of the checkpoints from a place on.
pub open spec fn first_attestation_fault(
    stream: Seq<char>,
    recorded: Seq<RecordedCheckpoint>,
    from: int,
) -> Option<Fault>
    decreases recorded.len() - from,
{
    if from >= recorded.len() {
        None
    } else {
        match attestation_fault(stream, recorded[from]) {
            Some(f) => Some(f),
            None => first_attestation_fault(stream, recorded, from + 1),
        }
    }
}

/// What the last of some checkpoints says.
pub open spec fn last_attested(recorded: Seq<RecordedCheckpoint>) -> Doc {
    if recorded.len() == 0 {
        Doc::Null
    } else {
        let c = recorded.last();
        Doc::Record(
            seq![
                ("from-seq"@, Doc::Int(c.from_seq as int)),
                ("head-hash"@, Doc::Text(c.head_hash@)),
                ("to-seq"@, Doc::Int(c.to_seq as int)),
            ],
        )
    }
}

/// The report on a stream: it holds something, its chain verifies, and every checkpoint recorded
/// for it attests what the chain reproduces. No payload is consulted.
pub open spec fn stream_report(
    stream: Seq<char>,
    head: Option<Head>,
    chain: Result<ChainResult, Error>,
    recorded: Seq<RecordedCheckpoint>,
) -> Result<Doc, Fault> {
    if head is None {
        Err(fault("chain-empty-range"@, "stream "@ + stream + " holds no envelopes"@))
    } else {
        match chain {
            Err(e) => Err(e@),
            Ok(c) => match first_attestation_fault(stream, recorded, 0) {
                Some(f) => Err(f),
                None => Ok(
                    Doc::Record(
                        seq![
                            ("anchored"@, Doc::Bool(c.anchored)),
                            ("count"@, Doc::Int(c.count as int)),
                            ("head-hash"@, Doc::Text(c.head_hash@)),
                            ("last-checkpoint"@, last_attested(recorded)),
                            ("payloads-consulted"@, Doc::Int(0)),
                            ("stream"@, Doc::Text(stream)),
                        ],
                    ),
                ),
            },
        }
    }
}

fn check_attestation(stream: &str, c: &RecordedCheckpoint) -> (r: Result<(), Error>)
    ensures
        settles(r, attestation_fault(stream@, *c)),
{
    let seen = match &c.observed {
        Ok(seen) => seen,
        Err(e) => {
            return Err(e.copy());
        },
    };
    if !same(seen.head_hash.as_str(), c.head_hash.as_str()) {
        let mut detail = join5(
            "the checkpoint of ",
            stream,
            "[",
            decimal_text(c.from_seq).as_str(),
            ", ",
        );
        detail.push_str(decimal_text(c.to_seq).as_str());
        detail.push_str("] attests ");
        detail.push_str(c.head_hash.as_str());
        detail.push_str(", the chain reproduces ");
        detail.push_str(seen.head_hash.as_str());
        return Err(Error::new("checkpoint-head-mismatch", detail));
    }
    Ok(())
}

fn report_last(recorded: &Vec<RecordedCheckpoint>) -> (r: Json)
    ensures
        r@ == last_attested(recorded@),
{
    if recorded.len() == 0 {
        return Json::Null;
    }
    let c = &recorded[recorded.len() - 1];
    let mut out: Vec<(String, Json)> = Vec::new();
    out.push(member("from-seq", Json::Unsigned(c.from_seq)));
    out.push(member("head-hash", text(c.head_hash.as_str())));
    out.push(member("to-seq", Json::Unsigned(c.to_seq)));
    assert(member_docs(out@) =~= seq![
        ("from-seq"@, Doc::Int(c.from_seq as int)),
        ("head-hash"@, Doc::Text(c.head_hash@)),
        ("to-seq"@, Doc::Int(c.to_seq as int)),
    ]);
    record(out)
}

/// The report on a stream, given its head, what verifying its chain came to, and every checkpoint
/// recorded for it, in order.
pub fn verify_stream(
    stream: &str,
    head: &Option<Head>,
    chain: &Result<ChainResult, Error>,
    recorded: &Vec<RecordedCheckpoint>,
) -> (r: Result<Json, Error>)
    ensures
        match stream_report(stream@, *head, *chain, recorded@) {
            Ok(d) => r matches Ok(v) && v@ == d,
            Err(f) => r matches Err(e) && e@ == f,
        },
{
    if head.is_none() {
        return Err(
            Error::new("chain-empty-range", join3("stream ", stream, " holds no envelopes")),
        );
    }
    let c = match chain {
        Ok(c) => c,
        Err(e) => {
            return Err(e.copy());
        },
    };
    let mut i: usize = 0;
    while i < recorded.len()
        invariant
            i <= recorded@.len(),
            head is Some,
            chain is Ok,
            first_attestation_fault(stream@, recorded@, 0) == first_attestation_fault(
                stream@,
                recorded@,
                i as int,
            ),
        decreases recorded@.len() - i,
    {
        check_attestation(stream, &recorded[i])?;
        i += 1;
    }
    let attested = report_last(recorded);
    let mut out: Vec<(String, Json)> = Vec::new();
    out.push(member("anchored", Json::Bool(c.anchored)));
    out.push(member("count", Json::Unsigned(c.count)));
    out.push(member("head-hash", text(c.head_hash.as_str())));
    out.push(member("last-checkpoint", attested));
    out.push(member("payloads-consulted", Json::Unsigned(0)));
    out.push(member("stream", text(stream)));
    assert(member_docs(out@) =~= seq![
        ("anchored"@, Doc::Bool(c.anchored)),
        ("count"@, Doc::Int(c.count as int)),
        ("head-hash"@, Doc::Text(c.head_hash@)),
        ("last-checkpoint"@, last_attested(recorded@)),
        ("payloads-consulted"@, Doc::Int(0)),
        ("stream"@, Doc::Text(stream@)),
    ]);
    Ok(record(out))
}

// -- laws -------------------------------------------------------------------------------------

/// Consecutive checkpoints leave no gap: what is attested next begins right after what was attested
/// last, ends at the head, and counts what lies between.
pub proof fn lemma_checkpoints_are_contiguous(head: Head, covered_to: Option<u64>)
    ensures
        match uncovered(Some(head), covered_to) {
            None => covered_to matches Some(to) && to >= head.seq,
            Some((from, to)) => {
                &&& to == head.seq
                &&& from <= to
                &&& from == (match covered_to {
                    Some(c) => c + 1,
                    None => 0,
                })
            },
        },
{
}

/// A stream is reported well only where every checkpoint recorded for it attests the hash that the
/// chain reproduces there.
pub proof fn lemma_every_checkpoint_is_reproduced(
    stream: Seq<char>,
    head: Option<Head>,
    chain: Result<ChainResult, Error>,
    recorded: Seq<RecordedCheckpoint>,
    i: int,
)
    requires
        stream_report(stream, head, chain, recorded) is Ok,
        0 <= i < recorded.len(),
    ensures
        recorded[i].observed matches Ok(seen) && seen.head_hash@ == recorded[i].head_hash@,
{
    lemma_no_attestation_fault(stream, recorded, 0, i);
}

proof fn lemma_no_attestation_fault(
    stream: Seq<char>,
    recorded: Seq<RecordedCheckpoint>,
    from: int,
    i: int,
)
    requires
        0 <= from <= i < recorded.len(),
        first_attestation_fault(stream, recorded, from) is None,
    ensures
        attestation_fault(stream, recorded[i]) is None,
    decreases i - from,
{
    if from < i {
        lemma_no_attestation_fault(stream, recorded, from + 1, i);
    }
}

/// Nothing is deleted before every affected stream was checkpointed.
pub proof fn lemma_deletion_is_preceded_by_checkpoints(
    r: DecayStep,
    affected: int,
    done: Seq<Result<Option<u64>, Error>>,
    i: int,
)
    requires
        decays(r, affected, done),
        r is Delete,
        0 <= i < done.len(),
    ensures
        done.len() >= affected,
        done[i] is Ok,
{
    lemma_no_failure(done, 0, i);
}

proof fn lemma_no_failure(done: Seq<Result<Option<u64>, Error>>, from: int, i: int)
    requires
        0 <= from <= i < done.len(),
        failed_checkpoint(done, from) is None,
    ensures
        done[i] is Ok,
    decreases i - from,
{
    if from < i {
        lemma_no_failure(done, from + 1, i);
    }
}

/// The kernel accepts what it draws up: its own checkpoint, once signed with its own key, is in no
/// way malformed.
pub proof fn lemma_own_checkpoints_are_well_formed(
    stream: Seq<char>,
    head: Head,
    covered_to: Option<u64>,
    checkpoint_stream: Seq<char>,
    checkpoint_head: Option<Head>,
    now: Seq<char>,
    key: Seq<char>,
    sig: Doc,
)
    requires
        uncovered(Some(head), covered_to) is Some,
        head.seq < u64::MAX,
        is_timestamp(now),
        sig.text_at("key"@) == Some(key),
    ensures
        checkpoint_fault(
            checkpoint_body(
                stream,
                Some(head),
                covered_to,
                checkpoint_stream,
                checkpoint_head,
                now,
                key,
            )->0.with("sig"@, sig),
            key,
        ) is None,
{
    let (from, to) = uncovered(Some(head), covered_to)->0;
    let body = checkpoint_body(
        stream,
        Some(head),
        covered_to,
        checkpoint_stream,
        checkpoint_head,
        now,
        key,
    )->0;
    let env = body.with("sig"@, sig);
    let d = attestation(stream, from, to, head.id@, now);
    let more = seq![("checkpoint"@, d)];
    let (seq, prev) = next_place(checkpoint_head);
    let start = Doc::Record(
        header_members(
            "checkpoint"@,
            checkpoint_stream,
            seq,
            prev,
            now,
            identity_doc(Doc::Text("agent:kernel"@), key, Doc::Text("kernel"@)),
        ),
    );
    lemma_extended_gives(start, more, 1, 0);
    assert("checkpoint"@ != "sig"@) by {
        reveal_strlit("checkpoint");
        reveal_strlit("sig");
        assert("checkpoint"@.len() == 10 && "sig"@.len() == 3);
    }
    lemma_put_then_get(body->Record_0, "sig"@, sig, "checkpoint"@);
    assert(env.at("checkpoint"@) == d);
    assert(env.at("sig"@) == sig);
    let m = d->Record_0;
    assert("count"@.len() == 5 && "from-seq"@.len() == 8 && "head-hash"@.len() == 9
        && "observed-at"@.len() == 11 && "stream"@.len() == 6 && "to-seq"@.len() == 6
        && "to-seq"@[0] == 't' && "stream"@[0] == 's') by {
        reveal_strlit("count");
        reveal_strlit("from-seq");
        reveal_strlit("head-hash");
        reveal_strlit("observed-at");
        reveal_strlit("stream");
        reveal_strlit("to-seq");
    }
    lemma_lookup_at(m, "count"@, 0);
    lemma_lookup_at(m, "from-seq"@, 1);
    lemma_lookup_at(m, "head-hash"@, 2);
    lemma_lookup_at(m, "observed-at"@, 3);
    lemma_lookup_at(m, "stream"@, 4);
    lemma_lookup_at(m, "to-seq"@, 5);
    assert(named(CHECKPOINT_MEMBERS@, "count"@)) by {
        assert(CHECKPOINT_MEMBERS@[4]@ == "count"@);
    }
    assert(named(CHECKPOINT_MEMBERS@, "from-seq"@)) by {
        assert(CHECKPOINT_MEMBERS@[1]@ == "from-seq"@);
    }
    assert(named(CHECKPOINT_MEMBERS@, "head-hash"@)) by {
        assert(CHECKPOINT_MEMBERS@[3]@ == "head-hash"@);
    }
    assert(named(CHECKPOINT_MEMBERS@, "observed-at"@)) by {
        assert(CHECKPOINT_MEMBERS@[5]@ == "observed-at"@);
    }
    assert(named(CHECKPOINT_MEMBERS@, "stream"@)) by {
        assert(CHECKPOINT_MEMBERS@[0]@ == "stream"@);
    }
    assert(named(CHECKPOINT_MEMBERS@, "to-seq"@)) by {
        assert(CHECKPOINT_MEMBERS@[2]@ == "to-seq"@);
    }
    reveal_with_fuel(stranger, 7);
    assert(stranger(m, CHECKPOINT_MEMBERS@, 0) is None);
}

/// A named stream other than the stream of checkpoints is attested.
proof fn lemma_named_stream(
    streams: Seq<Doc>,
    checkpoint_stream: Seq<char>,
    upto: int,
    i: int,
    name: Seq<char>,
)
    requires
        0 <= i < upto <= streams.len(),
        streams[i].at("stream"@) == Doc::Text(name),
        name != checkpoint_stream,
    ensures
        attested_streams(streams, checkpoint_stream, upto).contains(name),
    decreases upto,
{
    let before = attested_streams(streams, checkpoint_stream, upto - 1);
    let out = attested_streams(streams, checkpoint_stream, upto);
    if i < upto - 1 {
        lemma_named_stream(streams, checkpoint_stream, upto - 1, i, name);
        let k = choose|k: int| 0 <= k < before.len() && before[k] == name;
        assert(out[k] == name);
    } else {
        assert(out[before.len() as int] == name);
    }
}

/// What is attested is a named stream other than the stream of checkpoints.
proof fn lemma_attested_stream(
    streams: Seq<Doc>,
    checkpoint_stream: Seq<char>,
    upto: int,
    k: int,
) -> (r: int)
    requires
        0 <= upto <= streams.len(),
        0 <= k < attested_streams(streams, checkpoint_stream, upto).len(),
    ensures
        0 <= r < upto,
        streams[r].at("stream"@) == Doc::Text(
            attested_streams(streams, checkpoint_stream, upto)[k],
        ),
        attested_streams(streams, checkpoint_stream, upto)[k] != checkpoint_stream,
    decreases upto,
{
    let before = attested_streams(streams, checkpoint_stream, upto - 1);
    if k < before.len() {
        lemma_attested_stream(streams, checkpoint_stream, upto - 1, k)
    } else {
        upto - 1
    }
}

/// A round of checkpoints attests every stream there is. The stream of checkpoints itself comes
/// last and once, so that it covers those that the round has written.
pub proof fn lemma_a_round_attests_every_stream(
    streams: Seq<Doc>,
    checkpoint_stream: Seq<char>,
    name: Seq<char>,
)
    requires
        name != checkpoint_stream,
    ensures
        ({
            let others = attested_streams(streams, checkpoint_stream, streams.len() as int);
            &&& others.contains(name) <==> exists|i: int|
                0 <= i < streams.len() && (#[trigger] streams[i]).at("stream"@) == Doc::Text(name)
            &&& !others.contains(checkpoint_stream)
        }),
{
    let n = streams.len() as int;
    let others = attested_streams(streams, checkpoint_stream, n);
    if others.contains(name) {
        let k = choose|k: int| 0 <= k < others.len() && others[k] == name;
        let i = lemma_attested_stream(streams, checkpoint_stream, n, k);
        assert(streams[i].at("stream"@) == Doc::Text(name));
    }
    assert forall|i: int|
        0 <= i < streams.len() && (#[trigger] streams[i]).at("stream"@) == Doc::Text(
            name,
        ) implies others.contains(name) by {
        lemma_named_stream(streams, checkpoint_stream, n, i, name);
    }
    if others.contains(checkpoint_stream) {
        let k = choose|k: int| 0 <= k < others.len() && others[k] == checkpoint_stream;
        let i = lemma_attested_stream(streams, checkpoint_stream, n, k);
    }
}

/// Rounds follow one another at the interval that policy gives, of a second at least. Where policy
/// gives none that can be used they are an hour apart, and while there is no policy a minute.
pub proof fn lemma_when_the_next_round_is(policy: Result<Option<Result<i64, Error>>, Error>)
    ensures
        next_run(policy) >= 1,
        policy matches Ok(Some(Ok(s))) ==> next_run(policy) == if s > 0 {
            s as int
        } else if s == 0 {
            1
        } else {
            3_600
        },
        policy matches Ok(Some(Err(_))) ==> next_run(policy) == 3_600,
        policy matches Ok(None) ==> next_run(policy) == 60,
        policy is Err ==> next_run(policy) == 60,
{
}

/// The refusals that the kernel's own checkpoints can meet are reported by their codes, and any
/// other as that of an unknown stream.
pub proof fn lemma_which_codes_are_reported(reason: Seq<char>)
    ensures
        reported_code(reason) == {
            if reason == "checkpoint-count-mismatch"@ || reason == "checkpoint-head-mismatch"@
                || reason == "checkpoint-range-discontinuous"@ || reason
                == "checkpoint-signer-not-kernel"@ || reason == "chain-seq-duplicate"@ || reason
                == "chain-seq-gap"@ || reason == "chain-prev-hash-mismatch"@ || reason
                == "policy-not-published"@ {
                reason
            } else {
                CHECKPOINT_STREAM_UNKNOWN@
            }
        },
{
    let codes = CHECKPOINT_CODES@;
    assert(codes[0]@ == "checkpoint-count-mismatch"@);
    assert(codes[1]@ == "checkpoint-head-mismatch"@);
    assert(codes[2]@ == "checkpoint-range-discontinuous"@);
    assert(codes[3]@ == "checkpoint-signer-not-kernel"@);
    assert(codes[4]@ == "chain-seq-duplicate"@);
    assert(codes[5]@ == "chain-seq-gap"@);
    assert(codes[6]@ == "chain-prev-hash-mismatch"@);
    assert(codes[7]@ == "policy-not-published"@);
}

/// A checkpoint that failed stops a decay, wherever among those done it stands.
proof fn lemma_failed_checkpoint(done: Seq<Result<Option<u64>, Error>>, from: int)
    requires
        0 <= from <= done.len(),
    ensures
        failed_checkpoint(done, from) is None <==> forall|i: int|
            from <= i < done.len() ==> (#[trigger] done[i]) is Ok,
    decreases done.len() - from,
{
    if from < done.len() {
        lemma_failed_checkpoint(done, from + 1);
    }
}

/// Payloads are deleted exactly when every affected stream has been checkpointed and none of the
/// checkpoints failed. Until then the next stream is checkpointed, and the first failure stops it
/// all.
pub proof fn lemma_when_a_decay_deletes(
    r: DecayStep,
    affected: int,
    done: Seq<Result<Option<u64>, Error>>,
)
    requires
        decays(r, affected, done),
    ensures
        r is Stop <==> exists|i: int| 0 <= i < done.len() && (#[trigger] done[i]) is Err,
        r is Delete <==> done.len() >= affected && forall|i: int|
            0 <= i < done.len() ==> (#[trigger] done[i]) is Ok,
        r matches DecayStep::Checkpoint(i) ==> i == done.len() && done.len() < affected,
{
    lemma_failed_checkpoint(done, 0);
}

/// The heads a decay reports to have fixed are those of all the streams for which a checkpoint was
/// written, and of no other.
pub proof fn lemma_every_fixed_head_is_reported(
    affected: Seq<Seq<char>>,
    done: Seq<Result<Option<u64>, Error>>,
    upto: int,
    i: int,
    seq: u64,
)
    requires
        0 <= i < upto <= affected.len() == done.len(),
    ensures
        done[i] == Ok::<Option<u64>, Error>(Some(seq)) ==> fixed_heads(
            affected,
            done,
            upto,
        ).contains(affected[i] + "@"@ + decimal(seq as nat)),
        fixed_heads(affected, done, upto).len() <= upto,
        (forall|j: int|
            0 <= j < upto ==> !((#[trigger] done[j]) matches Ok(Some(_)))) ==> fixed_heads(
            affected,
            done,
            upto,
        ).len() == 0,
        (forall|j: int|
            0 <= j < upto ==> ((#[trigger] done[j]) matches Ok(Some(_)))) ==> fixed_heads(
            affected,
            done,
            upto,
        ).len() == upto,
    decreases upto,
{
    let before = fixed_heads(affected, done, upto - 1);
    let out = fixed_heads(affected, done, upto);
    if upto > 1 {
        lemma_every_fixed_head_is_reported(
            affected,
            done,
            upto - 1,
            if i < upto - 1 {
                i
            } else {
                0
            },
            seq,
        );
    } else {
        assert(before.len() == 0);
    }
    assert(done[upto - 1] == done[upto - 1]);
    if done[i] == Ok::<Option<u64>, Error>(Some(seq)) {
        let head = affected[i] + "@"@ + decimal(seq as nat);
        if i < upto - 1 {
            let k = choose|k: int| 0 <= k < before.len() && before[k] == head;
            assert(out[k] == head);
        } else {
            assert(out[before.len() as int] == head);
        }
    }
}

/// A stream verifies exactly where it holds something, its chain does, and the chain reproduces the
/// head that each of its checkpoints attests, the earliest as well as the last. The report says
/// what was found and that no payload was consulted.
pub proof fn lemma_when_a_stream_verifies(
    stream: Seq<char>,
    head: Option<Head>,
    chain: Result<ChainResult, Error>,
    recorded: Seq<RecordedCheckpoint>,
)
    ensures
        stream_report(stream, head, chain, recorded) is Ok <==> head is Some && chain is Ok
            && forall|i: int|
            0 <= i < recorded.len() ==> ((#[trigger] recorded[i]).observed matches Ok(seen)
                && seen.head_hash@ == recorded[i].head_hash@),
        stream_report(stream, head, chain, recorded) matches Ok(report) ==> {
            &&& report.get("stream"@) == Some(Doc::Text(stream))
            &&& report.get("count"@) == Some(Doc::Int(chain->Ok_0.count as int))
            &&& report.get("head-hash"@) == Some(Doc::Text(chain->Ok_0.head_hash@))
            &&& report.get("anchored"@) == Some(Doc::Bool(chain->Ok_0.anchored))
            &&& report.get("payloads-consulted"@) == Some(Doc::Int(0))
            &&& report.get("last-checkpoint"@) == Some(last_attested(recorded))
        },
        recorded.len() == 0 ==> last_attested(recorded) == Doc::Null,
        recorded.len() > 0 ==> {
            let last = recorded[recorded.len() - 1];
            &&& last_attested(recorded).get("from-seq"@) == Some(Doc::Int(last.from_seq as int))
            &&& last_attested(recorded).get("to-seq"@) == Some(Doc::Int(last.to_seq as int))
            &&& last_attested(recorded).get("head-hash"@) == Some(Doc::Text(last.head_hash@))
        },
{
    lemma_first_attestation_fault(stream, recorded, 0);
    reveal_strlit("anchored");
    reveal_strlit("count");
    reveal_strlit("head-hash");
    reveal_strlit("last-checkpoint");
    reveal_strlit("payloads-consulted");
    reveal_strlit("stream");
    reveal_strlit("from-seq");
    reveal_strlit("to-seq");
    assert("anchored"@[0] == 'a');
    assert("count"@[0] == 'c');
    assert("head-hash"@[0] == 'h');
    assert("last-checkpoint"@[0] == 'l');
    assert("payloads-consulted"@[0] == 'p');
    assert("stream"@[0] == 's');
    assert("from-seq"@[0] == 'f');
    assert("to-seq"@[0] == 't');
    if let Ok(Doc::Record(members)) = stream_report(stream, head, chain, recorded) {
        lemma_lookup_at(members, "anchored"@, 0);
        lemma_lookup_at(members, "count"@, 1);
        lemma_lookup_at(members, "head-hash"@, 2);
        lemma_lookup_at(members, "last-checkpoint"@, 3);
        lemma_lookup_at(members, "payloads-consulted"@, 4);
        lemma_lookup_at(members, "stream"@, 5);
    }
    if let Doc::Record(members) = last_attested(recorded) {
        lemma_lookup_at(members, "from-seq"@, 0);
        lemma_lookup_at(members, "head-hash"@, 1);
        lemma_lookup_at(members, "to-seq"@, 2);
    }
}

proof fn lemma_first_attestation_fault(
    stream: Seq<char>,
    recorded: Seq<RecordedCheckpoint>,
    from: int,
)
    requires
        0 <= from <= recorded.len(),
    ensures
        first_attestation_fault(stream, recorded, from) is None <==> forall|i: int|
            from <= i < recorded.len() ==> ((#[trigger] recorded[i]).observed matches Ok(seen)
                && seen.head_hash@ == recorded[i].head_hash@),
    decreases recorded.len() - from,
{
    if from < recorded.len() {
        lemma_first_attestation_fault(stream, recorded, from + 1);
        assert(recorded[from].observed == recorded[from].observed);
    }
}

/// An attestation says which stream it covers, from where to where, how much that is and what the
/// head was when it was looked at.
pub proof fn lemma_what_an_attestation_says(stream: Seq<char>, from: int, to: int, head_hash: Seq<char>, now: Seq<char>)
    ensures
        ({
            let d = attestation(stream, from, to, head_hash, now);
            &&& d->Record_0.len() == 6
            &&& d.get("count"@) == Some(Doc::Int(to - from + 1))
            &&& d.get("from-seq"@) == Some(Doc::Int(from))
            &&& d.get("head-hash"@) == Some(Doc::Text(head_hash))
            &&& d.get("observed-at"@) == Some(Doc::Text(now))
            &&& d.get("stream"@) == Some(Doc::Text(stream))
            &&& d.get("to-seq"@) == Some(Doc::Int(to))
        }),
{
    reveal_strlit("count");
    reveal_strlit("from-seq");
    reveal_strlit("head-hash");
    reveal_strlit("observed-at");
    reveal_strlit("stream");
    reveal_strlit("to-seq");
    assert("count"@.len() == 5);
    assert("from-seq"@.len() == 8);
    assert("head-hash"@.len() == 9);
    assert("observed-at"@.len() == 11);
    assert("stream"@.len() == 6);
    assert("to-seq"@.len() == 6);
    assert("to-seq"@[0] == 't');
    assert("stream"@[0] == 's');
    let members = attestation(stream, from, to, head_hash, now)->Record_0;
    crate::json::lemma_lookup_at(members, "count"@, 0);
    crate::json::lemma_lookup_at(members, "from-seq"@, 1);
    crate::json::lemma_lookup_at(members, "head-hash"@, 2);
    crate::json::lemma_lookup_at(members, "observed-at"@, 3);
    crate::json::lemma_lookup_at(members, "stream"@, 4);
    crate::json::lemma_lookup_at(members, "to-seq"@, 5);
}

/// A checkpoint is written exactly where something is not covered yet: of a stream that holds
/// anything, from behind what is covered, or from the first place, to the head.
pub proof fn lemma_when_a_checkpoint_is_written(
    stream: Seq<char>,
    head: Option<Head>,
    covered_to: Option<u64>,
    checkpoint_stream: Seq<char>,
    checkpoint_head: Option<Head>,
    now: Seq<char>,
    key: Seq<char>,
)
    ensures
        checkpoint_body(
            stream,
            head,
            covered_to,
            checkpoint_stream,
            checkpoint_head,
            now,
            key,
        ) is Some <==> (head matches Some(h) && (covered_to is None || covered_to->0 < h.seq)),
        uncovered(head, covered_to) matches Some((from, to)) ==> head is Some && to == head->0.seq
            && from == match covered_to {
            Some(c) => c + 1,
            None => 0,
        },
{
}

} // verus!
