//! Submission: what a submission is answered, what is recorded of one that was refused, and what
//! the kernel itself submits.

use vstd::prelude::*;
use vstd::string::*;

use crate::codes::STORE_UNAVAILABLE;
use crate::config::opt_string;
use crate::crypto::{sha256_hex, sha256_hex_of};
use crate::documents::{envelope, envelope_doc, identity, identity_doc, lemma_envelope_stands};
use crate::error::Error;
use crate::ingest::admission::Appended;
use crate::json::{member_docs, text, Doc, Json};
use crate::keys::KeyId;
use crate::text::{chars_of, decimal, decimal_text, join2, join5, opt_text, same, text_of};

verus! {

// -- answers ----------------------------------------------------------------------------------

/// The record of a refusal.
#[derive(Debug)]
pub struct RejectionRecord {
    /// Its identifier.
    pub id: String,
    /// Its place among the refusals.
    pub seq: u64,
}

/// What a submission is answered.
#[derive(Debug)]
pub enum Outcome {
    /// The envelope is in the log, or was already.
    Accepted(Appended),
    /// The envelope was refused, and the refusal is itself a record.
    Rejected {
        /// The reason code.
        reason: String,
        /// The detail.
        detail: String,
        /// The record, unless recording it failed too.
        record: Option<RejectionRecord>,
    },
    /// The kernel could not answer. Not a refusal, and not recorded as one.
    Unavailable(String),
}

/// What is to be done with what validating or appending came to.
#[derive(Debug)]
pub enum Settled {
    /// Answer this.
    Answer(Outcome),
    /// Record this refusal, and answer it.
    Refuse(Error),
}

/// Whether what is to be done follows from what validating or appending came to: what is in the
/// log is accepted, an outage is no refusal, and everything else is refused.
pub open spec fn settled(r: Settled, result: Result<Appended, Error>) -> bool {
    match result {
        Ok(appended) => r matches Settled::Answer(Outcome::Accepted(a)) && a@ == appended@,
        Err(e) => if e@.code == STORE_UNAVAILABLE@ {
            r matches Settled::Answer(Outcome::Unavailable(detail)) && detail@ == e@.detail
        } else {
            r matches Settled::Refuse(f) && f@ == e@
        },
    }
}

/// What is to be done with what validating or appending came to.
pub fn settle(result: &Result<Appended, Error>) -> (r: Settled)
    ensures
        settled(r, *result),
{
    match result {
        Ok(appended) => Settled::Answer(Outcome::Accepted(appended.copy())),
        Err(e) => {
            if same(e.code(), STORE_UNAVAILABLE) {
                Settled::Answer(Outcome::Unavailable(e.detail().to_owned()))
            } else {
                Settled::Refuse(e.copy())
            }
        },
    }
}

/// What a refused submission is answered, with the record of it where there is one.
pub fn rejected(error: &Error, record: Option<RejectionRecord>) -> (r: Outcome)
    ensures
        r matches Outcome::Rejected { reason, detail, record: kept } && reason@ == error@.code
            && detail@ == error@.detail && kept == record,
{
    Outcome::Rejected {
        reason: error.code().to_owned(),
        detail: error.detail().to_owned(),
        record,
    }
}

// -- what is recorded of a refusal ------------------------------------------------------------

/// What a submission says of itself. Nothing of it is trusted.
#[derive(Debug)]
pub struct Claims {
    /// The stream.
    pub stream: Option<String>,
    /// The place in it.
    pub seq: Option<u64>,
    /// The kind.
    pub kind: Option<String>,
}

/// What a submission says of itself.
pub struct Claimed {
    /// The stream.
    pub stream: Option<Seq<char>>,
    /// The place in it.
    pub seq: Option<int>,
    /// The kind.
    pub kind: Option<Seq<char>>,
}

impl View for Claims {
    type V = Claimed;

    open spec fn view(&self) -> Claimed {
        Claimed {
            stream: opt_string(self.stream),
            seq: match self.seq {
                Some(n) => Some(n as int),
                None => None,
            },
            kind: opt_string(self.kind),
        }
    }
}

/// What a submission that may be any document, or none, says of itself: in its envelope, or in
/// itself where it has none.
pub open spec fn claimed(body: Option<Doc>) -> Claimed {
    match body {
        None => Claimed { stream: None, seq: None, kind: None },
        Some(d) => {
            let env = match d.get("envelope"@) {
                Some(env) => env,
                None => d,
            };
            Claimed {
                stream: env.text_at("stream"@),
                seq: env.at("seq"@).as_u64(),
                kind: env.text_at("kind"@),
            }
        },
    }
}

fn owned(s: Option<&str>) -> (r: Option<String>)
    ensures
        opt_string(r) == opt_text(s),
{
    match s {
        Some(t) => Some(t.to_owned()),
        None => None,
    }
}

/// What a submission says of itself.
pub fn claims(body: Option<&Json>) -> (r: Claims)
    ensures
        r@ == claimed(crate::config::opt_doc(body)),
{
    match body {
        None => Claims { stream: None, seq: None, kind: None },
        Some(d) => {
            let env = match d.get("envelope") {
                Some(env) => env,
                None => d,
            };
            Claims {
                stream: owned(env.text_at("stream")),
                seq: env.at("seq").as_u64(),
                kind: owned(env.text_at("kind")),
            }
        },
    }
}

/// What a refused submission is known by: the hash of it as an object, or of its bytes where it is
/// none.
pub open spec fn refused_hash(raw: Seq<u8>, object_hash: Option<Seq<char>>) -> Seq<char> {
    match object_hash {
        Some(h) => h,
        None => sha256_hex_of(raw),
    }
}

/// What a refused submission is known by.
pub fn rejected_bytes_hash(raw: &[u8], object_hash: Option<String>) -> (r: String)
    ensures
        r@ == refused_hash(raw@, opt_string(object_hash)),
{
    match object_hash {
        Some(h) => h,
        None => sha256_hex(raw),
    }
}

/// The longest beginning of a text that takes no more than some bytes.
pub open spec fn fitting(s: Seq<char>, room: int) -> Seq<char>
    decreases s.len(),
{
    if s.len() == 0 {
        s
    } else {
        let width = vstd::utf8::encode_scalar(s[0] as u32).len() as int;
        if width > room {
            Seq::empty()
        } else {
            seq![s[0]] + fitting(s.drop_first(), room - width)
        }
    }
}

/// A text cut to some bytes, with an ellipsis where anything was cut off.
pub open spec fn cut(s: Seq<char>, limit: int) -> Seq<char> {
    if vstd::utf8::encode_utf8(s).len() <= limit {
        s
    } else {
        fitting(s, limit) + "…"@
    }
}

/// How many bytes a character takes.
fn width_of(c: char) -> (r: usize)
    ensures
        r == vstd::utf8::encode_scalar(c as u32).len(),
        1 <= r <= 4,
{
    let n: u32 = c as u32;
    if n <= 0x7f {
        1
    } else if n <= 0x7ff {
        2
    } else if n <= 0xffff {
        3
    } else {
        4
    }
}

/// The longest beginning of a text that takes no more than some bytes.
pub fn beginning(text: &str, limit: usize) -> (r: String)
    ensures
        r@ == fitting(text@, limit as int),
{
    let chars = chars_of(text);
    let mut i: usize = 0;
    let mut room: usize = limit;
    assert(text@.skip(0) =~= text@);
    assert(text@.take(0) + fitting(text@, limit as int) =~= fitting(text@, limit as int));
    while i < chars.len() && width_of(chars[i]) <= room
        invariant
            i <= chars@.len(),
            chars@ == text@,
            fitting(text@, limit as int) == text@.take(i as int) + fitting(
                text@.skip(i as int),
                room as int,
            ),
        decreases chars@.len() - i,
    {
        let ghost rest = text@.skip(i as int);
        assert(rest.drop_first() =~= text@.skip(i + 1));
        room -= width_of(chars[i]);
        assert(text@.take(i as int) + (seq![rest[0]] + fitting(rest.drop_first(), room as int))
            =~= text@.take(i + 1) + fitting(rest.drop_first(), room as int));
        i += 1;
    }
    assert(fitting(text@.skip(i as int), room as int) =~= Seq::empty());
    assert(text@.take(i as int) + Seq::<char>::empty() =~= text@.take(i as int));
    text_of(vstd::slice::slice_subrange(chars.as_slice(), 0, i))
}

/// Cuts a text to some bytes, never within a character, with an ellipsis where anything was cut
/// off.
pub fn truncate(text: &str, limit: usize) -> (r: String)
    ensures
        r@ == cut(text@, limit as int),
{
    if text.as_bytes().len() <= limit {
        return text.to_owned();
    }
    join2(beginning(text, limit).as_str(), "…")
}

/// What is recorded of a refusal.
#[derive(Debug)]
pub struct RejectionInput {
    /// The reason code.
    pub reason: String,
    /// The detail, cut to a bound.
    pub detail: String,
    /// What the submission is known by. Its bytes are not kept.
    pub object_hash: String,
    /// Who submitted it.
    pub submitted_by: Option<String>,
    /// When it was received.
    pub received_at: String,
    /// What it says of itself.
    pub claims: Claims,
}

/// How many bytes of a detail are recorded.
pub const DETAIL_LIMIT: usize = 1024;

/// What is recorded of a refusal.
pub fn rejection_input(
    error: &Error,
    object_hash: String,
    submitted_by: Option<&str>,
    received_at: &str,
    claims: Claims,
) -> (r: RejectionInput)
    ensures
        r.reason@ == error@.code,
        r.detail@ == cut(error@.detail, DETAIL_LIMIT as int),
        r.object_hash == object_hash,
        opt_string(r.submitted_by) == opt_text(submitted_by),
        r.received_at@ == received_at@,
        r.claims == claims,
{
    RejectionInput {
        reason: error.code().to_owned(),
        detail: truncate(error.detail(), DETAIL_LIMIT),
        object_hash,
        submitted_by: owned(submitted_by),
        received_at: received_at.to_owned(),
        claims,
    }
}

// -- what the kernel submits ------------------------------------------------------------------

/// The last envelope of a stream.
#[derive(Debug)]
pub struct Head {
    /// Its place.
    pub seq: u64,
    /// Its identifier.
    pub id: String,
}

/// The place after the head of a stream, and the hash that links to it.
pub open spec fn next_place(head: Option<Head>) -> (int, Doc) {
    match head {
        Some(h) => (h.seq + 1, Doc::Text(h.id@)),
        None => (0, Doc::Null),
    }
}

/// An envelope that the kernel emits, unsigned: at the place after the head of its stream, with
/// the members of its kind.
pub open spec fn kernel_body(
    kind: Seq<char>,
    stream: Seq<char>,
    head: Option<Head>,
    now: Seq<char>,
    key: Seq<char>,
    more: Seq<(Seq<char>, Doc)>,
) -> Doc {
    let (seq, prev) = next_place(head);
    envelope_doc(
        kind,
        stream,
        seq,
        prev,
        now,
        identity_doc(Doc::Text("agent:kernel"@), key, Doc::Text("kernel"@)),
        more,
    )
}

/// An envelope that the kernel emits, unsigned. The head of its stream is not at the last place
/// there is.
pub fn kernel_envelope(
    kind: &str,
    stream: &str,
    head: &Option<Head>,
    now: &str,
    key: &KeyId,
    more: &Vec<(String, Json)>,
) -> (r: Json)
    requires
        head matches Some(h) ==> h.seq < u64::MAX,
    ensures
        r@ == kernel_body(kind@, stream@, *head, now@, key@, member_docs(more@)),
{
    let (seq, prev): (u64, Json) = match head {
        Some(h) => (h.seq + 1, text(h.id.as_str())),
        None => (0, Json::Null),
    };
    let emitter = identity(text("agent:kernel"), key.as_str(), text("kernel"));
    envelope(kind, stream, seq, prev, now, emitter, more)
}

/// How often the kernel tries to take a place in its own stream.
pub const ATTEMPTS: u64 = 8;

/// How long the kernel waits before a try, in milliseconds: not at all before the first, and twice
/// as long each time up to a bound.
pub open spec fn pause_before(attempt: int) -> int {
    if attempt <= 0 {
        0
    } else if attempt == 1 {
        4
    } else if attempt == 2 {
        8
    } else if attempt == 3 {
        16
    } else if attempt == 4 {
        32
    } else if attempt == 5 {
        64
    } else {
        128
    }
}

/// How long the kernel waits before a try, in milliseconds.
pub fn pause_millis(attempt: u64) -> (r: u64)
    ensures
        r == pause_before(attempt as int),
{
    let mut pause: u64 = 2;
    if attempt == 0 {
        return 0;
    }
    let mut i: u64 = 0;
    while i < attempt && i < 6
        invariant
            i <= 6,
            i <= attempt,
            attempt > 0,
            pause == if i == 0 {
                2
            } else {
                pause_before(i as int)
            },
        decreases 6 - i,
    {
        pause = pause * 2;
        i += 1;
    }
    pause
}

/// What follows a try of the kernel to take a place in its own stream.
#[derive(Debug)]
pub enum Attempt {
    /// It was taken, by the envelope with this identifier.
    Recorded(String),
    /// Another took it first; try again.
    Again,
    /// It will not be taken: the reason code and the detail.
    Failed(String, String),
}

/// Whether a refusal says that another envelope took the place first.
pub open spec fn lost_the_race(reason: Seq<char>) -> bool {
    reason == "chain-seq-duplicate"@ || reason == "chain-prev-hash-mismatch"@
}

/// What is said when every try lost the race.
pub open spec fn too_contended(what: Seq<char>, reason: Seq<char>, detail: Seq<char>) -> Seq<char> {
    "the kernel's core stream is too contended to record "@ + what + ": "@ + decimal(
        ATTEMPTS as nat,
    ) + " attempts, last "@ + reason + " ("@ + detail + ")"@
}

/// Whether what follows a try, counted from nought, follows from its outcome: what was accepted is
/// recorded; what lost the race is tried again until the tries are used up, and is then reported
/// as an outage, because nothing was recorded and to ask again is exactly right; everything else
/// is final.
pub open spec fn follows(r: Attempt, outcome: Outcome, attempt: int, what: Seq<char>) -> bool {
    match outcome {
        Outcome::Accepted(appended) => r matches Attempt::Recorded(id) && id@ == appended.id@,
        Outcome::Rejected { reason, detail, .. } => if !lost_the_race(reason@) {
            r matches Attempt::Failed(code, why) && code@ == reason@ && why@ == detail@
        } else if attempt + 1 < ATTEMPTS {
            r is Again
        } else {
            r matches Attempt::Failed(code, why) && code@ == STORE_UNAVAILABLE@ && why@
                == too_contended(what, reason@, detail@)
        },
        Outcome::Unavailable(detail) => r matches Attempt::Failed(code, why) && code@
            == STORE_UNAVAILABLE@ && why@ == detail@,
    }
}

/// What follows a try of the kernel to take a place in its own stream.
pub fn after_attempt(outcome: &Outcome, attempt: u64, what: &str) -> (r: Attempt)
    ensures
        follows(r, *outcome, attempt as int, what@),
{
    match outcome {
        Outcome::Accepted(appended) => Attempt::Recorded(appended.id.clone()),
        Outcome::Rejected { reason, detail, .. } => {
            if !same(reason.as_str(), "chain-seq-duplicate") && !same(
                reason.as_str(),
                "chain-prev-hash-mismatch",
            ) {
                return Attempt::Failed(reason.clone(), detail.clone());
            }
            if attempt < ATTEMPTS - 1 {
                return Attempt::Again;
            }
            let mut why = join5(
                "the kernel's core stream is too contended to record ",
                what,
                ": ",
                decimal_text(ATTEMPTS).as_str(),
                " attempts, last ",
            );
            why.push_str(reason.as_str());
            why.push_str(" (");
            why.push_str(detail.as_str());
            why.push_str(")");
            Attempt::Failed(STORE_UNAVAILABLE.to_owned(), why)
        },
        Outcome::Unavailable(detail) => Attempt::Failed(
            STORE_UNAVAILABLE.to_owned(),
            detail.clone(),
        ),
    }
}

// -- laws -------------------------------------------------------------------------------------

/// A recorded detail is a beginning of the detail, and takes no more than the bound and an
/// ellipsis.
pub proof fn lemma_cut_is_bounded(s: Seq<char>, limit: int)
    requires
        limit >= 0,
    ensures
        vstd::utf8::encode_utf8(fitting(s, limit)).len() <= limit,
        fitting(s, limit).len() <= s.len(),
        fitting(s, limit) == s.take(fitting(s, limit).len() as int),
        vstd::utf8::encode_utf8(s).len() <= limit ==> cut(s, limit) == s,
    decreases s.len(),
{
    if s.len() == 0 {
        assert(fitting(s, limit) =~= s.take(0));
    } else {
        let width = vstd::utf8::encode_scalar(s[0] as u32).len() as int;
        if width > limit {
            assert(fitting(s, limit) =~= s.take(0));
            assert(vstd::utf8::encode_utf8(Seq::<char>::empty()).len() == 0);
        } else {
            let rest = fitting(s.drop_first(), limit - width);
            lemma_cut_is_bounded(s.drop_first(), limit - width);
            let whole = fitting(s, limit);
            assert(whole.drop_first() =~= rest);
            assert(whole =~= s.take(whole.len() as int));
        }
    }
}

/// An outage is never recorded as a refusal.
pub proof fn lemma_outages_are_not_refusals(r: Settled, result: Result<Appended, Error>)
    requires
        settled(r, result),
        r is Refuse,
    ensures
        result matches Err(e) && e@.code != STORE_UNAVAILABLE@,
{
}

/// The kernel's own envelope links to the head of its stream: it stands at the next place and
/// names the head's identifier.
pub proof fn lemma_kernel_envelopes_link(
    kind: Seq<char>,
    stream: Seq<char>,
    head: Head,
    now: Seq<char>,
    key: Seq<char>,
)
    ensures
        ({
            let d = kernel_body(kind, stream, Some(head), now, key, Seq::empty());
            &&& d.text_at("prev-hash"@) == Some(head.id@)
            &&& d.at("seq"@) == Doc::Int(head.seq + 1)
            &&& d.text_at("stream"@) == Some(stream)
            &&& d.text_at("kind"@) == Some(kind)
        }),
{
    lemma_envelope_stands(
        kind,
        stream,
        head.seq + 1,
        Doc::Text(head.id@),
        now,
        identity_doc(Doc::Text("agent:kernel"@), key, Doc::Text("kernel"@)),
        Seq::empty(),
    );
}

/// A text is cut only as far as it must be: what fits is kept whole, and where something is left
/// out, what stands next would not have fitted.
pub proof fn lemma_cut_keeps_what_fits(s: Seq<char>, limit: int)
    requires
        limit >= 0,
    ensures
        ({
            let kept = fitting(s, limit);
            &&& kept.len() <= s.len()
            &&& kept == s.take(kept.len() as int)
            &&& vstd::utf8::encode_utf8(kept).len() <= limit
            &&& kept.len() < s.len() ==> vstd::utf8::encode_utf8(kept).len()
                + vstd::utf8::encode_scalar(s[kept.len() as int] as u32).len() > limit
        }),
        vstd::utf8::encode_utf8(s).len() <= limit ==> cut(s, limit) == s,
        vstd::utf8::encode_utf8(s).len() > limit ==> cut(s, limit) == fitting(s, limit) + "…"@,
    decreases s.len(),
{
    lemma_cut_is_bounded(s, limit);
    if s.len() > 0 {
        let width = vstd::utf8::encode_scalar(s[0] as u32).len() as int;
        if width <= limit {
            let rest = fitting(s.drop_first(), limit - width);
            let kept = fitting(s, limit);
            lemma_cut_keeps_what_fits(s.drop_first(), limit - width);
            assert(kept == seq![s[0]] + rest);
            assert(kept.drop_first() =~= rest);
            assert(kept[0] == s[0]);
            if kept.len() < s.len() {
                assert(s[kept.len() as int] == s.drop_first()[rest.len() as int]);
            }
        }
    }
}

/// Every attempt but the first waits, each up to the seventh twice as long as the one before it,
/// and never longer than the longest.
pub proof fn lemma_pauses_double(attempt: int)
    ensures
        pause_before(0) == 0,
        pause_before(1) == 4,
        1 <= attempt < 6 ==> pause_before(attempt + 1) == 2 * pause_before(attempt),
        attempt >= 6 ==> pause_before(attempt) == pause_before(6),
        pause_before(attempt) <= 128,
{
}

/// Only a lost race is run again, and so often at most: a place that was taken, or a head that had
/// moved on. Any other refusal is final, an outage is reported as one, and so is a race that was
/// lost every time.
pub proof fn lemma_what_is_tried_again(
    r: Attempt,
    outcome: Outcome,
    attempt: int,
    what: Seq<char>,
)
    requires
        follows(r, outcome, attempt, what),
    ensures
        r is Again <==> attempt < 7 && (outcome matches Outcome::Rejected { reason, .. } && (
        reason@ == "chain-seq-duplicate"@ || reason@ == "chain-prev-hash-mismatch"@)),
        r is Recorded <==> outcome is Accepted,
        outcome matches Outcome::Accepted(a) ==> r matches Attempt::Recorded(id) && id@ == a.id@,
        outcome is Unavailable ==> (r matches Attempt::Failed(code, _) && code@
            == STORE_UNAVAILABLE@),
        (outcome matches Outcome::Rejected { reason, .. } && reason@ != "chain-seq-duplicate"@
            && reason@ != "chain-prev-hash-mismatch"@) ==> (r matches Attempt::Failed(code, why)
            && (outcome matches Outcome::Rejected { reason, detail, .. } && code@ == reason@
            && why@ == detail@)),
{
}

/// What the kernel writes next stands right behind the head: one place on, naming the head's
/// identifier; and on an empty stream at the first place, naming none.
pub proof fn lemma_the_next_place_follows_the_head(head: Option<Head>)
    ensures
        match head {
            Some(h) => next_place(head).0 == h.seq + 1 && next_place(head).1 == Doc::Text(h.id@),
            None => next_place(head).0 == 0 && next_place(head).1 == Doc::Null,
        },
{
}

/// What a refused submission claimed is read from the envelope in it, or from the submission itself
/// where it holds none; and of bytes that are no object nothing is claimed.
pub proof fn lemma_what_is_claimed(d: Doc)
    ensures
        ({
            let env = if d.get("envelope"@) is Some {
                d.at("envelope"@)
            } else {
                d
            };
            let c = claimed(Some(d));
            &&& c.stream matches Some(s) ==> env.at("stream"@) == Doc::Text(s)
            &&& c.stream is None ==> !(env.at("stream"@) is Text)
            &&& c.kind matches Some(k) ==> env.at("kind"@) == Doc::Text(k)
            &&& c.kind is None ==> !(env.at("kind"@) is Text)
            &&& c.seq matches Some(n) ==> env.at("seq"@) == Doc::Int(n) && 0 <= n <= u64::MAX
            &&& c.seq is None ==> !(env.at("seq"@) matches Doc::Int(n) && 0 <= n <= u64::MAX)
        }),
        claimed(None).stream is None && claimed(None).seq is None && claimed(None).kind is None,
{
}

/// What was refused is known by the hash of the object it was, and where it was none by that of its
/// bytes.
pub proof fn lemma_what_a_refusal_is_known_by(raw: Seq<u8>, object_hash: Seq<char>)
    ensures
        refused_hash(raw, Some(object_hash)) == object_hash,
        refused_hash(raw, None) == sha256_hex_of(raw),
{
}

/// What the kernel writes it writes as itself, behind the head, as of now.
pub proof fn lemma_how_the_kernel_writes(
    kind: Seq<char>,
    stream: Seq<char>,
    head: Option<Head>,
    now: Seq<char>,
    key: Seq<char>,
)
    ensures
        ({
            let d = kernel_body(kind, stream, head, now, key, Seq::empty());
            &&& d.get("kind"@) == Some(Doc::Text(kind))
            &&& d.get("stream"@) == Some(Doc::Text(stream))
            &&& d.get("emitted-at"@) == Some(Doc::Text(now))
            &&& d.get("identity"@) == Some(
                identity_doc(Doc::Text("agent:kernel"@), key, Doc::Text("kernel"@)),
            )
            &&& head matches Some(h) ==> d.get("seq"@) == Some(Doc::Int(h.seq + 1)) && d.get(
                "prev-hash"@,
            ) == Some(Doc::Text(h.id@))
            &&& head is None ==> d.get("seq"@) == Some(Doc::Int(0)) && d.get("prev-hash"@) == Some(
                Doc::Null,
            )
        }),
{
    let (seq, prev) = next_place(head);
    crate::documents::lemma_what_a_header_says(
        kind,
        stream,
        seq,
        prev,
        now,
        identity_doc(Doc::Text("agent:kernel"@), key, Doc::Text("kernel"@)),
    );
}

} // verus!
