//! The rows of the console: one record each, every member as it is shown.

use vstd::prelude::*;

use crate::console::shaping::{
    age_of, age_seconds, countdown, humanize, patterns, patterns_shown, short,
    short_key, short_key_of, shortened, shown, span_shown, text, NOTHING,
};
use crate::json::{Doc, Json};
use crate::text::{is_before, join2, join3, or_empty, precedes, text_or_empty};
use crate::walk::{chain, chain_from, link_views, mandate_from, mandate_in, MANDATE_CHAIN_LINKS};

verus! {

/// The text of a member, and the empty text where it is none.
pub open spec fn plain(d: Doc, name: Seq<char>) -> Seq<char> {
    or_empty(d.text_at(name))
}

fn plain_at(d: &Json, name: &str) -> (r: String)
    ensures
        r@ == plain(d@, name@),
{
    text_or_empty(d.text_at(name)).to_owned()
}

fn text_at(d: &Json, name: &str) -> (r: String)
    ensures
        r@ == shown(d@.at(name@)),
{
    text(d.at(name))
}

// -- envelopes --------------------------------------------------------------------------------

/// One envelope, as a row or a page.
#[derive(Debug)]
pub struct Row {
    /// Its identifier.
    pub id: String,
    /// The identifier at the width of a cell.
    pub short: String,
    /// Its stream.
    pub stream: String,
    /// Its place.
    pub seq: String,
    /// Its kind.
    pub kind: String,
    /// When it was emitted.
    pub emitted_at: String,
    /// The acting subject.
    pub subject: String,
    /// The emitting component.
    pub component: String,
    /// The action.
    pub action: String,
    /// The thing acted upon.
    pub target: String,
    /// How the execution ended.
    pub outcome: String,
    /// The weight class policy computed.
    pub class: String,
    /// The human the mandate walk reached.
    pub human_root: String,
    /// The mandate it cites, empty where it cites none.
    pub mandate_ref: String,
    /// The policy version it was judged by.
    pub policy_version: String,
    /// The violation it confesses, empty where it confesses none.
    pub violation: String,
    /// What it commits to, on a line.
    pub evidence: String,
    /// The hash of its payload in full, empty where it commits to none.
    pub payload_hash: String,
    /// The key that decided, where it carries a decision.
    pub decided_by: String,
    /// The decision it carries, empty where it carries none.
    pub decision: String,
    /// The reason the decision gives, empty where it gives none.
    pub decision_reason: String,
}

/// What an envelope commits to, on a line.
pub open spec fn evidence_line(evidence: Doc) -> Seq<char> {
    match evidence.text_at("schema"@) {
        Some(schema) => schema + " · "@ + shortened(shown(evidence.at("payload-hash"@))),
        None => NOTHING@,
    }
}

/// The decision an envelope carries: the one that authorizes it, or, in the record of a human's
/// answer, the answer itself.
pub open spec fn carried_decision(envelope: Doc) -> Doc {
    let authorizing = envelope.at("authorization"@).at("decision"@);
    if authorizing is Null {
        envelope.at("decision"@)
    } else {
        authorizing
    }
}

/// The decision an envelope carries.
pub fn decision_in(envelope: &Json) -> (r: &Json)
    ensures
        r@ == carried_decision(envelope@),
{
    let authorizing = envelope.at("authorization").at("decision");
    if authorizing.is_null() {
        envelope.at("decision")
    } else {
        authorizing
    }
}

/// Whether a row shows a record.
pub open spec fn is_row(r: Row, d: Doc) -> bool {
    let envelope = d.at("envelope"@);
    let execution = envelope.at("execution"@);
    let evidence = envelope.at("evidence"@);
    let decision = carried_decision(envelope);
    &&& r.id@ == shown(d.at("id"@))
    &&& r.short@ == shortened(shown(d.at("id"@)))
    &&& r.stream@ == shown(envelope.at("stream"@))
    &&& r.seq@ == shown(envelope.at("seq"@))
    &&& r.kind@ == shown(envelope.at("kind"@))
    &&& r.emitted_at@ == shown(envelope.at("emitted-at"@))
    &&& r.subject@ == shown(envelope.at("identity"@).at("subject"@))
    &&& r.component@ == shown(envelope.at("identity"@).at("component"@))
    &&& r.action@ == shown(execution.at("action"@))
    &&& r.target@ == shown(execution.at("target"@))
    &&& r.outcome@ == shown(execution.at("outcome"@))
    &&& r.class@ == shown(d.at("effective-class"@))
    &&& r.human_root@ == shown(d.at("human-root"@))
    &&& r.mandate_ref@ == plain(envelope, "mandate-ref"@)
    &&& r.policy_version@ == shown(envelope.at("policy-version"@))
    &&& r.violation@ == plain(d, "policy-violation"@)
    &&& r.evidence@ == evidence_line(evidence)
    &&& r.payload_hash@ == plain(evidence, "payload-hash"@)
    &&& r.decided_by@ == short_key_of(shown(decision.at("sig"@).at("key"@)))
    &&& r.decision@ == plain(decision, "decision"@)
    &&& r.decision_reason@ == plain(decision, "reason"@)
}

/// A record as a row.
pub fn row(record: &Json) -> (r: Row)
    ensures
        is_row(r, record@),
{
    let envelope = record.at("envelope");
    let execution = envelope.at("execution");
    let evidence = envelope.at("evidence");
    let decision = decision_in(envelope);
    let identity = envelope.at("identity");
    let id = text_at(record, "id");
    let line = match evidence.text_at("schema") {
        Some(schema) => join3(
            schema,
            " · ",
            short(text_at(evidence, "payload-hash").as_str()).as_str(),
        ),
        None => NOTHING.to_owned(),
    };
    Row {
        short: short(id.as_str()),
        id,
        stream: text_at(envelope, "stream"),
        seq: text_at(envelope, "seq"),
        kind: text_at(envelope, "kind"),
        emitted_at: text_at(envelope, "emitted-at"),
        subject: text_at(identity, "subject"),
        component: text_at(identity, "component"),
        action: text_at(execution, "action"),
        target: text_at(execution, "target"),
        outcome: text_at(execution, "outcome"),
        class: text_at(record, "effective-class"),
        human_root: text_at(record, "human-root"),
        mandate_ref: plain_at(envelope, "mandate-ref"),
        policy_version: text_at(envelope, "policy-version"),
        violation: plain_at(record, "policy-violation"),
        evidence: line,
        payload_hash: plain_at(evidence, "payload-hash"),
        decided_by: short_key(text_at(decision.at("sig"), "key").as_str()),
        decision: plain_at(decision, "decision"),
        decision_reason: plain_at(decision, "reason"),
    }
}

/// Whether some rows show some records.
pub open spec fn are_rows(rows: Seq<Row>, records: Seq<Json>) -> bool {
    &&& rows.len() == records.len()
    &&& forall|i: int| 0 <= i < rows.len() ==> is_row(#[trigger] rows[i], records[i]@)
}

/// Some records as rows.
pub fn rows(records: &Vec<Json>) -> (r: Vec<Row>)
    ensures
        are_rows(r@, records@),
{
    let mut out: Vec<Row> = Vec::new();
    let mut i: usize = 0;
    while i < records.len()
        invariant
            i <= records@.len(),
            out@.len() == i,
            forall|j: int| 0 <= j < i ==> is_row(#[trigger] out@[j], records@[j]@),
        decreases records@.len() - i,
    {
        out.push(row(&records[i]));
        i += 1;
    }
    out
}

// -- streams ----------------------------------------------------------------------------------

/// How a stream stands.
#[derive(Debug, Clone, Copy, PartialEq, Eq, Structural)]
pub enum StreamStatus {
    /// It is written to.
    Healthy,
    /// It has been silent for too long.
    Quiet,
    /// Its last submission was refused.
    Refused,
}

/// The name of a status.
pub open spec fn status_name(s: StreamStatus) -> Seq<char> {
    match s {
        StreamStatus::Healthy => "healthy"@,
        StreamStatus::Quiet => "quiet"@,
        StreamStatus::Refused => "refused"@,
    }
}

/// One stream.
#[derive(Debug)]
pub struct StreamRow {
    /// Its name.
    pub stream: String,
    /// What it holds.
    pub stream_kind: String,
    /// The place of its head.
    pub head_seq: String,
    /// The identifier of its head at the width of a cell.
    pub head_short: String,
    /// When it was first written to.
    pub first_seen_at: String,
    /// When it was last written to.
    pub last_appended_at: String,
    /// How long it has been silent.
    pub silent_for: String,
    /// Whether that is a finding.
    pub quiet: bool,
    /// How it stands.
    pub status: String,
    /// Whether its last submission was refused, which is another finding.
    pub refused: bool,
    /// Why it was refused.
    pub refusal_reason: String,
}

/// How long a stream has been silent.
pub open spec fn silence(d: Doc, now: Seq<char>) -> Option<int> {
    age_of(shown(d.at("last-appended-at"@)), now)
}

/// Whether a row shows a stream.
pub open spec fn is_stream_row(r: StreamRow, d: Doc, now: Seq<char>, status: StreamStatus) -> bool {
    &&& r.stream@ == shown(d.at("stream"@))
    &&& r.stream_kind@ == shown(d.at("stream-kind"@))
    &&& r.head_seq@ == shown(d.at("head-seq"@))
    &&& r.head_short@ == shortened(shown(d.at("head-hash"@)))
    &&& r.first_seen_at@ == shown(d.at("first-seen-at"@))
    &&& r.last_appended_at@ == shown(d.at("last-appended-at"@))
    &&& r.silent_for@ == span_shown(silence(d, now))
    &&& r.quiet == (status is Quiet)
    &&& r.status@ == status_name(status)
    &&& r.refused == (status is Refused)
    &&& r.refusal_reason@ == shown(d.at("last-refusal-reason"@))
}

/// How long a stream has been silent, in seconds.
pub fn silent_seconds(record: &Json, now: &str) -> (r: Option<i64>)
    ensures
        match silence(record@, now@) {
            Some(n) => r == Some(n as i64) && i64::MIN < n <= i64::MAX,
            None => r is None,
        },
{
    age_seconds(text_at(record, "last-appended-at").as_str(), now)
}

/// A stream as a row, given how it stands.
pub fn stream_row(record: &Json, now: &str, status: StreamStatus) -> (r: StreamRow)
    ensures
        is_stream_row(r, record@, now@, status),
{
    let silent_for = match silent_seconds(record, now) {
        Some(n) => humanize(n),
        None => NOTHING.to_owned(),
    };
    let name = match status {
        StreamStatus::Healthy => "healthy",
        StreamStatus::Quiet => "quiet",
        StreamStatus::Refused => "refused",
    };
    StreamRow {
        stream: text_at(record, "stream"),
        stream_kind: text_at(record, "stream-kind"),
        head_seq: text_at(record, "head-seq"),
        head_short: short(text_at(record, "head-hash").as_str()),
        first_seen_at: text_at(record, "first-seen-at"),
        last_appended_at: text_at(record, "last-appended-at"),
        silent_for,
        quiet: matches!(status, StreamStatus::Quiet),
        status: name.to_owned(),
        refused: matches!(status, StreamStatus::Refused),
        refusal_reason: text_at(record, "last-refusal-reason"),
    }
}

/// How long a stream may be silent: the checkpoint interval of the policy in force, which is the
/// longest a live stream can be, or an hour where there is none.
pub fn quiet_after_seconds(interval: Option<i64>) -> (r: i64)
    ensures
        r == match interval {
            Some(n) => n,
            None => 3_600,
        },
{
    match interval {
        Some(n) => n,
        None => 3_600,
    }
}

// -- mandates ---------------------------------------------------------------------------------

/// How far ahead of its end a mandate is worth showing, in seconds.
pub const EXPIRING_SOON_SECONDS: i64 = 604_800;

/// One mandate of the registry.
#[derive(Debug)]
pub struct MandateRow {
    /// Its identifier.
    pub id: String,
    /// The identifier at the width of a cell.
    pub short: String,
    /// Its parent, empty where it has none.
    pub parent: String,
    /// The parent at the width of a cell.
    pub parent_short: String,
    /// Its kind.
    pub kind: String,
    /// Who granted it.
    pub grantor_subject: String,
    /// Who holds it.
    pub grantee_subject: String,
    /// When it ends.
    pub not_after: String,
    /// How long until then, or since.
    pub expires_in: String,
    /// How it stands.
    pub state: String,
    /// The class of that state.
    pub state_class: String,
    /// The components it reaches.
    pub components: String,
    /// The actions it reaches.
    pub actions: String,
    /// The weight classes it reaches.
    pub classes: String,
    /// The resources it reaches.
    pub resources: String,
}

/// How a mandate stands: revoked before expired, because that is what somebody did.
pub open spec fn mandate_state(d: Doc, now: Seq<char>) -> Seq<char> {
    let not_after = shown(d.at("not-after"@));
    let left = age_of(now, not_after);
    if d.text_at("revoked-at"@) is Some {
        "revoked"@
    } else if precedes(not_after, now) {
        "expired"@
    } else if left is Some && left->0 < EXPIRING_SOON_SECONDS {
        "expiring"@
    } else {
        "active"@
    }
}

/// The class of a mandate's state.
pub open spec fn mandate_class(d: Doc, now: Seq<char>) -> Seq<char> {
    let not_after = shown(d.at("not-after"@));
    let left = age_of(now, not_after);
    if d.text_at("revoked-at"@) is Some || precedes(not_after, now) {
        "prohibited"@
    } else if left is Some && left->0 < EXPIRING_SOON_SECONDS {
        "quiet"@
    } else {
        "ok"@
    }
}

/// Whether a row shows a mandate.
pub open spec fn is_mandate_row(r: MandateRow, d: Doc, now: Seq<char>) -> bool {
    let scope = d.at("scope"@);
    &&& r.id@ == shown(d.at("mandate-id"@))
    &&& r.short@ == shortened(shown(d.at("mandate-id"@)))
    &&& r.parent@ == plain(d, "parent"@)
    &&& r.parent_short@ == shortened(plain(d, "parent"@))
    &&& r.kind@ == shown(d.at("mandate-kind"@))
    &&& r.grantor_subject@ == shown(d.at("grantor"@).at("subject"@))
    &&& r.grantee_subject@ == shown(d.at("grantee-subject"@))
    &&& r.not_after@ == shown(d.at("not-after"@))
    &&& r.expires_in@ == countdown(age_of(now, shown(d.at("not-after"@))))
    &&& r.state@ == mandate_state(d, now)
    &&& r.state_class@ == mandate_class(d, now)
    &&& r.components@ == patterns_shown(scope.at("components"@))
    &&& r.actions@ == patterns_shown(scope.at("actions"@))
    &&& r.classes@ == patterns_shown(scope.at("classes"@))
    &&& r.resources@ == patterns_shown(scope.at("resources"@))
}

fn counted_down(left: Option<i64>) -> (r: String)
    requires
        left matches Some(n) ==> n > i64::MIN,
    ensures
        r@ == countdown(
            match left {
                Some(n) => Some(n as int),
                None => None,
            },
        ),
{
    match left {
        Some(n) => if n < 0 {
            join2(humanize(-n).as_str(), " ago")
        } else {
            join2("in ", humanize(n).as_str())
        },
        None => NOTHING.to_owned(),
    }
}

/// A mandate as a row.
pub fn mandate_row(record: &Json, now: &str) -> (r: MandateRow)
    ensures
        is_mandate_row(r, record@, now@),
{
    let id = text_at(record, "mandate-id");
    let parent = plain_at(record, "parent");
    let not_after = text_at(record, "not-after");
    let scope = record.at("scope");
    let left: Option<i64> = age_seconds(now, not_after.as_str());
    let (state, class) = if record.text_at("revoked-at").is_some() {
        ("revoked", "prohibited")
    } else if is_before(not_after.as_str(), now) {
        ("expired", "prohibited")
    } else {
        match left {
            Some(n) => if n < EXPIRING_SOON_SECONDS {
                ("expiring", "quiet")
            } else {
                ("active", "ok")
            },
            None => ("active", "ok"),
        }
    };
    MandateRow {
        short: short(id.as_str()),
        id,
        parent_short: short(parent.as_str()),
        parent,
        kind: text_at(record, "mandate-kind"),
        grantor_subject: text_at(record.at("grantor"), "subject"),
        grantee_subject: text_at(record, "grantee-subject"),
        expires_in: counted_down(left),
        not_after,
        state: state.to_owned(),
        state_class: class.to_owned(),
        components: patterns(scope.at("components")),
        actions: patterns(scope.at("actions")),
        classes: patterns(scope.at("classes")),
        resources: patterns(scope.at("resources")),
    }
}

// -- revocations and refusals -----------------------------------------------------------------

/// One revocation.
#[derive(Debug)]
pub struct RevocationRow {
    /// When it took effect.
    pub revoked_at: String,
    /// The mandate it revokes.
    pub revokes: String,
    /// The mandate at the width of a cell.
    pub revokes_short: String,
    /// The reason, where it gives one.
    pub reason: String,
    /// The key that signed it.
    pub signer: String,
}

/// A revocation as a row.
pub fn revocation_row(record: &Json) -> (r: RevocationRow)
    ensures
        r.revoked_at@ == shown(record@.at("revoked-at"@)),
        r.revokes@ == shown(record@.at("revokes"@)),
        r.revokes_short@ == shortened(shown(record@.at("revokes"@))),
        r.reason@ == shown(record@.at("reason"@)),
        r.signer@ == short_key_of(shown(record@.at("sig"@).at("key"@))),
{
    let revokes = text_at(record, "revokes");
    RevocationRow {
        revoked_at: text_at(record, "revoked-at"),
        revokes_short: short(revokes.as_str()),
        revokes,
        reason: text_at(record, "reason"),
        signer: short_key(text_at(record.at("sig"), "key").as_str()),
    }
}

/// One refusal.
#[derive(Debug)]
pub struct RejectionRow {
    /// Its place among the refusals.
    pub seq: String,
    /// When what was refused was received.
    pub received_at: String,
    /// The reason code.
    pub reason: String,
    /// The detail.
    pub detail: String,
    /// Who submitted it.
    pub submitted_by: String,
    /// The stream it claimed.
    pub claimed_stream: String,
    /// The place it claimed.
    pub claimed_seq: String,
    /// The kind it claimed.
    pub claimed_kind: String,
}

/// A refusal as a row.
pub fn rejection_row(record: &Json) -> (r: RejectionRow)
    ensures
        r.seq@ == shown(record@.at("seq"@)),
        r.received_at@ == shown(record@.at("received-at"@)),
        r.reason@ == shown(record@.at("reason"@)),
        r.detail@ == shown(record@.at("detail"@)),
        r.submitted_by@ == shown(record@.at("submitted-by"@)),
        r.claimed_stream@ == shown(record@.at("claimed-stream"@)),
        r.claimed_seq@ == shown(record@.at("claimed-seq"@)),
        r.claimed_kind@ == shown(record@.at("claimed-kind"@)),
{
    RejectionRow {
        seq: text_at(record, "seq"),
        received_at: text_at(record, "received-at"),
        reason: text_at(record, "reason"),
        detail: text_at(record, "detail"),
        submitted_by: text_at(record, "submitted-by"),
        claimed_stream: text_at(record, "claimed-stream"),
        claimed_seq: text_at(record, "claimed-seq"),
        claimed_kind: text_at(record, "claimed-kind"),
    }
}

// -- walks ------------------------------------------------------------------------------------

/// One link of a mandate walk.
#[derive(Debug)]
pub struct ChainLink {
    /// How many hops it is from the first.
    pub depth: String,
    /// Its identifier.
    pub id: String,
    /// The identifier at the width of a cell.
    pub short: String,
    /// Its kind.
    pub kind: String,
    /// Who granted it.
    pub grantor: String,
    /// Who received it.
    pub grantee: String,
    /// When it begins.
    pub not_before: String,
    /// When it ends.
    pub not_after: String,
}

/// Whether a link shows a mandate of a walk.
pub open spec fn is_link(l: ChainLink, depth: int, id: Seq<char>, mandate: Doc) -> bool {
    &&& l.depth@ == crate::text::decimal(depth as nat)
    &&& l.id@ == id
    &&& l.short@ == shortened(id)
    &&& l.kind@ == shown(mandate.at("mandate-kind"@))
    &&& l.grantor@ == shown(mandate.at("grantor"@).at("subject"@))
    &&& l.grantee@ == shown(mandate.at("grantee"@).at("subject"@))
    &&& l.not_before@ == shown(mandate.at("not-before"@))
    &&& l.not_after@ == shown(mandate.at("not-after"@))
}

/// Whether some links show a walk.
pub open spec fn are_links(links: Seq<ChainLink>, walk: Seq<(Seq<char>, Doc)>) -> bool {
    &&& links.len() == walk.len()
    &&& forall|i: int| 0 <= i < links.len() ==> is_link(#[trigger] links[i], i, walk[i].0, walk[i].1)
}

/// The walk from a mandate up, as links.
pub fn chain_links(ancestry: &Vec<(String, Json)>, mandate_ref: &str) -> (r: Vec<ChainLink>)
    ensures
        are_links(r@, chain_from(ancestry@, Some(mandate_ref@), ancestry@.len())),
{
    let walked = chain(ancestry, mandate_ref);
    let ghost walk = link_views(walked@);
    let mut out: Vec<ChainLink> = Vec::new();
    let mut i: usize = 0;
    while i < walked.len()
        invariant
            i <= walked@.len(),
            walk == link_views(walked@),
            out@.len() == i,
            forall|j: int| 0 <= j < i ==> is_link(#[trigger] out@[j], j, walk[j].0, walk[j].1),
        decreases walked@.len() - i,
    {
        let id = walked[i].0.as_str();
        let mandate = walked[i].1;
        out.push(
            ChainLink {
                depth: crate::text::decimal_text(i as u64),
                id: id.to_owned(),
                short: short(id),
                kind: text_at(mandate, "mandate-kind"),
                grantor: text_at(mandate.at("grantor"), "subject"),
                grantee: text_at(mandate.at("grantee"), "subject"),
                not_before: text_at(mandate, "not-before"),
                not_after: text_at(mandate, "not-after"),
            },
        );
        i += 1;
    }
    out
}

/// The human a mandate ends at, in so many steps at most, and nothing where it ends at none that
/// is known.
pub open spec fn root_in(ancestry: Seq<(String, Json)>, id: Seq<char>, steps: nat) -> Seq<char>
    decreases steps,
{
    if steps == 0 {
        NOTHING@
    } else {
        match mandate_from(ancestry, id, 0) {
            None => NOTHING@,
            Some(m) => if plain(m, "parent"@).len() == 0 {
                shown(m.at("grantor"@).at("subject"@))
            } else {
                root_in(ancestry, plain(m, "parent"@), (steps - 1) as nat)
            },
        }
    }
}

/// The human a mandate ends at, on whose authority something is asked. A walk that does not
/// resolve is shown as such, never as a plausible name.
pub open spec fn authority(
    ancestry: Result<Vec<(String, Json)>, crate::error::Error>,
    mandate_ref: Seq<char>,
) -> Seq<char> {
    if mandate_ref.len() == 0 || mandate_ref == NOTHING@ || ancestry is Err {
        NOTHING@
    } else {
        root_in((ancestry->Ok_0)@, mandate_ref, (MANDATE_CHAIN_LINKS + 1) as nat)
    }
}

/// The human a mandate ends at.
pub fn human_root_of(
    ancestry: &Result<Vec<(String, Json)>, crate::error::Error>,
    mandate_ref: &str,
) -> (r: String)
    ensures
        r@ == authority(*ancestry, mandate_ref@),
{
    if mandate_ref.unicode_len() == 0 || crate::text::same(mandate_ref, NOTHING) {
        return NOTHING.to_owned();
    }
    let known = match ancestry {
        Ok(a) => a,
        Err(_) => {
            return NOTHING.to_owned();
        },
    };
    let mut cursor = mandate_ref.to_owned();
    let mut left: u32 = MANDATE_CHAIN_LINKS + 1;
    while left > 0
        invariant
            root_in(known@, cursor@, left as nat) == root_in(
                known@,
                mandate_ref@,
                (MANDATE_CHAIN_LINKS + 1) as nat,
            ),
            *ancestry == Ok::<Vec<(String, Json)>, crate::error::Error>(*known),
            mandate_ref@.len() != 0,
            mandate_ref@ != NOTHING@,
        decreases left,
    {
        let mandate = match mandate_in(known, cursor.as_str()) {
            Some(m) => m,
            None => {
                return NOTHING.to_owned();
            },
        };
        let parent = text_or_empty(mandate.text_at("parent"));
        if parent.unicode_len() == 0 {
            return text_at(mandate.at("grantor"), "subject");
        }
        cursor = parent.to_owned();
        left -= 1;
    }
    NOTHING.to_owned()
}

// -- parked requests --------------------------------------------------------------------------

/// One parked request.
#[derive(Debug)]
pub struct PendingRow {
    /// The hash of the request, which a signature covers.
    pub request_hash: String,
    /// The hash at the width of a cell.
    pub short: String,
    /// Who asks.
    pub subject: String,
    /// The key that will sign the effect.
    pub subject_key: String,
    /// The caller that submitted it.
    pub submitted_by: String,
    /// The emitting component.
    pub component: String,
    /// The weight class.
    pub class: String,
    /// The action.
    pub action: String,
    /// The thing acted upon.
    pub target: String,
    /// The hash of the arguments in full, which an approver can compute again.
    pub args_hash: String,
    /// The arguments in their canonical form, empty where none are shown.
    pub arguments: String,
    /// Whether there are arguments to show.
    pub arguments_supplied: bool,
    /// The mandate the effect will cite.
    pub mandate_ref: String,
    /// The mandate at the width of a cell.
    pub mandate_short: String,
    /// The human the mandate ends at.
    pub human_root: String,
    /// The policy version it was classified by.
    pub policy_version: String,
    /// When it was made.
    pub requested_at: String,
    /// Until when it can be answered.
    pub not_after: String,
    /// How long until then.
    pub expires_in: String,
    /// Whether that has passed.
    pub expired: bool,
    /// How many channels told an approver.
    pub notified: String,
    /// How many failed to.
    pub notify_failures: String,
    /// Why the last one failed, empty where none did.
    pub notify_failure: String,
    /// The request in its canonical form.
    pub request_json: String,
    /// What a form must hold to answer it.
    pub csrf: String,
    /// The answer, empty where there is none.
    pub verdict: String,
    /// The reason of the answer.
    pub reason: String,
    /// The key that signed the answer.
    pub decided_by: String,
    /// When it was answered.
    pub decided_at: String,
    /// The envelope the answer became, empty where there is none.
    pub decision_envelope: String,
    /// That envelope at the width of a cell.
    pub decision_short: String,
}

/// What a parked request is shown with beside its record: the canonical forms of the request and
/// of its arguments, what a form must hold, and the mandates above the one it cites.
#[derive(Debug)]
pub struct PendingFacts {
    /// The request in its canonical form, unless it has none.
    pub request_json: Result<String, crate::error::Error>,
    /// The arguments in their canonical form, unless they have none.
    pub arguments: Result<String, crate::error::Error>,
    /// What a form must hold.
    pub csrf: String,
    /// The mandates above the one it cites.
    pub ancestry: Result<Vec<(String, Json)>, crate::error::Error>,
}

/// Whether a member is the boolean true.
pub open spec fn is_set(d: Doc, name: Seq<char>) -> bool {
    d.at(name).as_bool() == Some(true)
}

fn set_at(d: &Json, name: &str) -> (r: bool)
    ensures
        r == is_set(d@, name@),
{
    match d.at(name).as_bool() {
        Some(b) => b,
        None => false,
    }
}

/// The arguments of a parked request as they are shown: their canonical form, and nothing at all
/// where none were supplied.
pub open spec fn arguments_shown(d: Doc, facts: PendingFacts) -> Seq<char> {
    match facts.arguments {
        Ok(t) => if is_set(d, "arguments-supplied"@) {
            t@
        } else {
            Seq::empty()
        },
        Err(_) => Seq::empty(),
    }
}

/// Whether a row shows a parked request.
pub open spec fn is_pending_row(r: PendingRow, d: Doc, facts: PendingFacts, now: Seq<char>) -> bool {
    let hash = shown(d.at("request-hash"@));
    let mandate_ref = shown(d.at("mandate-ref"@));
    let not_after = shown(d.at("not-after"@));
    &&& r.request_hash@ == hash
    &&& r.short@ == shortened(hash)
    &&& r.subject@ == shown(d.at("subject"@))
    &&& r.subject_key@ == shown(d.at("subject-key"@))
    &&& r.submitted_by@ == shown(d.at("submitted-by"@))
    &&& r.component@ == shown(d.at("component"@))
    &&& r.class@ == shown(d.at("classification"@))
    &&& r.action@ == shown(d.at("action"@))
    &&& r.target@ == shown(d.at("target"@))
    &&& r.args_hash@ == shown(d.at("args-hash"@))
    &&& r.arguments@ == arguments_shown(d, facts)
    &&& r.arguments_supplied == is_set(d, "arguments-supplied"@)
    &&& r.mandate_ref@ == mandate_ref
    &&& r.mandate_short@ == shortened(mandate_ref)
    &&& r.human_root@ == authority(facts.ancestry, mandate_ref)
    &&& r.policy_version@ == shown(d.at("policy-version"@))
    &&& r.requested_at@ == shown(d.at("requested-at"@))
    &&& r.not_after@ == not_after
    &&& r.expires_in@ == span_shown(age_of(now, not_after))
    &&& r.expired == is_set(d, "expired"@)
    &&& r.notified@ == shown(d.at("notified"@))
    &&& r.notify_failures@ == shown(d.at("notify-failures"@))
    &&& r.notify_failure@ == plain(d, "last-notify-failure"@)
    &&& r.request_json@ == match facts.request_json {
        Ok(t) => t@,
        Err(_) => NOTHING@,
    }
    &&& r.csrf@ == facts.csrf@
    &&& r.verdict@ == plain(d, "verdict"@)
    &&& r.reason@ == shown(d.at("reason"@))
    &&& r.decided_by@ == short_key_of(shown(d.at("decided-by"@)))
    &&& r.decided_at@ == shown(d.at("decided-at"@))
    &&& r.decision_envelope@ == plain(d, "decision-envelope-id"@)
    &&& r.decision_short@ == shortened(plain(d, "decision-envelope-id"@))
}

/// A parked request as a row.
pub fn pending_row(record: &Json, facts: &PendingFacts, now: &str) -> (r: PendingRow)
    ensures
        is_pending_row(r, record@, *facts, now@),
{
    let request_hash = text_at(record, "request-hash");
    let mandate_ref = text_at(record, "mandate-ref");
    let decision_envelope = plain_at(record, "decision-envelope-id");
    let not_after = text_at(record, "not-after");
    let expires_in = match age_seconds(now, not_after.as_str()) {
        Some(n) => humanize(n),
        None => NOTHING.to_owned(),
    };
    PendingRow {
        short: short(request_hash.as_str()),
        request_json: match &facts.request_json {
            Ok(t) => t.clone(),
            Err(_) => NOTHING.to_owned(),
        },
        csrf: facts.csrf.clone(),
        request_hash,
        subject: text_at(record, "subject"),
        subject_key: text_at(record, "subject-key"),
        submitted_by: text_at(record, "submitted-by"),
        component: text_at(record, "component"),
        class: text_at(record, "classification"),
        action: text_at(record, "action"),
        target: text_at(record, "target"),
        args_hash: text_at(record, "args-hash"),
        arguments: match &facts.arguments {
            Ok(t) => if set_at(record, "arguments-supplied") {
                t.clone()
            } else {
                String::new()
            },
            Err(_) => String::new(),
        },
        arguments_supplied: set_at(record, "arguments-supplied"),
        mandate_short: short(mandate_ref.as_str()),
        human_root: human_root_of(&facts.ancestry, mandate_ref.as_str()),
        mandate_ref,
        policy_version: text_at(record, "policy-version"),
        requested_at: text_at(record, "requested-at"),
        expires_in,
        not_after,
        expired: set_at(record, "expired"),
        notified: text_at(record, "notified"),
        notify_failures: text_at(record, "notify-failures"),
        notify_failure: plain_at(record, "last-notify-failure"),
        verdict: plain_at(record, "verdict"),
        reason: text_at(record, "reason"),
        decided_by: short_key(text_at(record, "decided-by").as_str()),
        decided_at: text_at(record, "decided-at"),
        decision_short: short(decision_envelope.as_str()),
        decision_envelope,
    }
}

// -- laws -------------------------------------------------------------------------------------

/// A revoked mandate is shown as revoked, whatever the time: that is what somebody did.
pub proof fn lemma_revocations_are_shown(d: Doc, now: Seq<char>)
    requires
        d.text_at("revoked-at"@) is Some,
    ensures
        mandate_state(d, now) == "revoked"@,
        mandate_class(d, now) == "prohibited"@,
{
}

/// The human shown is the one that granted a mandate without a parent at the end of the walk.
pub proof fn lemma_authority_is_a_grantor(
    ancestry: Seq<(String, Json)>,
    id: Seq<char>,
    steps: nat,
)
    requires
        root_in(ancestry, id, steps) != NOTHING@,
    ensures
        exists|top: Seq<char>|
            #![trigger mandate_from(ancestry, top, 0)]
            mandate_from(ancestry, top, 0) matches Some(m) && plain(m, "parent"@).len() == 0
                && root_in(ancestry, id, steps) == shown(m.at("grantor"@).at("subject"@)),
    decreases steps,
{
    let m = mandate_from(ancestry, id, 0)->0;
    if plain(m, "parent"@).len() > 0 {
        lemma_authority_is_a_grantor(ancestry, plain(m, "parent"@), (steps - 1) as nat);
    }
}

/// A mandate is shown as what it is now: revoked whenever it was revoked, and otherwise expired once
/// its time has passed, expiring in its last week, and active before that.
pub proof fn lemma_what_state_a_mandate_is_in(d: Doc, now: Seq<char>)
    ensures
        ({
            let until = shown(d.at("not-after"@));
            let soon = age_of(now, until) matches Some(left) && left < 7 * 86_400;
            let state = mandate_state(d, now);
            let class = mandate_class(d, now);
            &&& d.at("revoked-at"@) is Text ==> state == "revoked"@ && class == "prohibited"@
            &&& !(d.at("revoked-at"@) is Text) && precedes(until, now) ==> state == "expired"@
                && class == "prohibited"@
            &&& !(d.at("revoked-at"@) is Text) && !precedes(until, now) && soon ==> state
                == "expiring"@ && class == "quiet"@
            &&& !(d.at("revoked-at"@) is Text) && !precedes(until, now) && !soon ==> state
                == "active"@ && class == "ok"@
        }),
{
}

/// Authority is traced parent by parent: to whoever granted a mandate that has no parent, to
/// wherever the parent's leads where it has one, and nowhere where a mandate is not known.
pub proof fn lemma_how_authority_is_traced(
    ancestry: Seq<(String, Json)>,
    id: Seq<char>,
    steps: nat,
)
    ensures
        root_in(ancestry, id, 0) == "—"@,
        match mandate_from(ancestry, id, 0) {
            None => root_in(ancestry, id, steps + 1) == "—"@,
            Some(m) => match m.at("parent"@) {
                Doc::Text(parent) => parent.len() > 0 ==> root_in(ancestry, id, steps + 1)
                    == root_in(ancestry, parent, steps),
                _ => root_in(ancestry, id, steps + 1) == shown(m.at("grantor"@).at("subject"@)),
            },
        },
{
}

/// A mandate that is named and known is traced up to sixteen parents, and one that is not named, or
/// of which nothing could be learned, leads nowhere.
pub proof fn lemma_how_far_authority_is_traced(ancestry: Vec<(String, Json)>, id: Seq<char>)
    ensures
        id.len() > 0 && id != "—"@ ==> authority(Ok(ancestry), id) == root_in(ancestry@, id, 17),
        id.len() == 0 || id == "—"@ ==> authority(Ok(ancestry), id) == "—"@,
{
}

/// The decision that a row shows is the one that authorizes the envelope, and where none does, the
/// one that the envelope records.
pub proof fn lemma_which_decision_is_shown(envelope: Doc)
    ensures
        envelope.at("authorization"@).at("decision"@) != Doc::Null ==> carried_decision(envelope)
            == envelope.at("authorization"@).at("decision"@),
        envelope.at("authorization"@).at("decision"@) == Doc::Null ==> carried_decision(envelope)
            == envelope.at("decision"@),
{
}

/// A row shows each member of its envelope in its own place, and what the kernel concluded of it.
pub proof fn lemma_what_a_row_shows(r: Row, d: Doc)
    requires
        is_row(r, d),
    ensures
        r.id@ == shown(d.at("id"@)),
        r.stream@ == shown(d.at("envelope"@).at("stream"@)),
        r.seq@ == shown(d.at("envelope"@).at("seq"@)),
        r.kind@ == shown(d.at("envelope"@).at("kind"@)),
        r.emitted_at@ == shown(d.at("envelope"@).at("emitted-at"@)),
        r.subject@ == shown(d.at("envelope"@).at("identity"@).at("subject"@)),
        r.component@ == shown(d.at("envelope"@).at("identity"@).at("component"@)),
        r.action@ == shown(d.at("envelope"@).at("execution"@).at("action"@)),
        r.target@ == shown(d.at("envelope"@).at("execution"@).at("target"@)),
        r.outcome@ == shown(d.at("envelope"@).at("execution"@).at("outcome"@)),
        r.class@ == shown(d.at("effective-class"@)),
        r.human_root@ == shown(d.at("human-root"@)),
        r.policy_version@ == shown(d.at("envelope"@).at("policy-version"@)),
        r.violation@ == or_empty(d.text_at("policy-violation"@)),
        r.mandate_ref@ == or_empty(d.at("envelope"@).text_at("mandate-ref"@)),
        r.payload_hash@ == or_empty(d.at("envelope"@).at("evidence"@).text_at("payload-hash"@)),
        r.decision@ == or_empty(carried_decision(d.at("envelope"@)).text_at("decision"@)),
        r.decision_reason@ == or_empty(carried_decision(d.at("envelope"@)).text_at("reason"@)),
{
}

/// Every record has its row, in its place.
pub proof fn lemma_every_record_has_its_row(shown_rows: Seq<Row>, records: Seq<Json>)
    requires
        are_rows(shown_rows, records),
    ensures
        shown_rows.len() == records.len(),
        forall|i: int|
            0 <= i < records.len() ==> is_row(shown_rows[i], (#[trigger] records[i])@),
{
}

/// Every link of a walk is shown, in its place and at its depth.
pub proof fn lemma_every_link_is_shown(links: Seq<ChainLink>, walk: Seq<(Seq<char>, Doc)>)
    requires
        are_links(links, walk),
    ensures
        links.len() == walk.len(),
        forall|i: int|
            0 <= i < walk.len() ==> links[i].id@ == (#[trigger] walk[i]).0 && links[i].depth@
                == crate::text::decimal(i as nat) && links[i].kind@ == shown(
                walk[i].1.at("mandate-kind"@),
            ) && links[i].grantor@ == shown(walk[i].1.at("grantor"@).at("subject"@))
                && links[i].grantee@ == shown(walk[i].1.at("grantee"@).at("subject"@))
                && links[i].not_before@ == shown(walk[i].1.at("not-before"@))
                && links[i].not_after@ == shown(walk[i].1.at("not-after"@)),
{
    assert forall|i: int| 0 <= i < walk.len() implies links[i].id@ == (#[trigger] walk[i]).0
        && links[i].depth@ == crate::text::decimal(i as nat) && links[i].kind@ == shown(
        walk[i].1.at("mandate-kind"@),
    ) && links[i].grantor@ == shown(walk[i].1.at("grantor"@).at("subject"@)) && links[i].grantee@
        == shown(walk[i].1.at("grantee"@).at("subject"@)) && links[i].not_before@ == shown(
        walk[i].1.at("not-before"@),
    ) && links[i].not_after@ == shown(walk[i].1.at("not-after"@)) by {
        assert(is_link(links[i], i, walk[i].0, walk[i].1));
    }
}

/// A parked request is shown by what it says, under the authority it acts on, and its arguments only
/// where they were supplied.
pub proof fn lemma_what_a_pending_row_shows(
    r: PendingRow,
    d: Doc,
    facts: PendingFacts,
    now: Seq<char>,
)
    requires
        is_pending_row(r, d, facts, now),
    ensures
        r.request_hash@ == shown(d.at("request-hash"@)),
        r.subject@ == shown(d.at("subject"@)),
        r.subject_key@ == shown(d.at("subject-key"@)),
        r.submitted_by@ == shown(d.at("submitted-by"@)),
        r.component@ == shown(d.at("component"@)),
        r.class@ == shown(d.at("classification"@)),
        r.action@ == shown(d.at("action"@)),
        r.target@ == shown(d.at("target"@)),
        r.args_hash@ == shown(d.at("args-hash"@)),
        r.mandate_ref@ == shown(d.at("mandate-ref"@)),
        r.human_root@ == authority(facts.ancestry, shown(d.at("mandate-ref"@))),
        r.requested_at@ == shown(d.at("requested-at"@)),
        r.not_after@ == shown(d.at("not-after"@)),
        r.csrf@ == facts.csrf@,
        r.expired <==> d.at("expired"@) == Doc::Bool(true),
        r.arguments_supplied <==> d.at("arguments-supplied"@) == Doc::Bool(true),
        !r.arguments_supplied ==> r.arguments@.len() == 0,
        r.arguments_supplied && facts.arguments is Ok ==> r.arguments@ == facts.arguments->Ok_0@,
        r.verdict@ == or_empty(d.text_at("verdict"@)),
{
}

/// A stream is shown by what it holds, how long it has been silent and how it stands.
pub proof fn lemma_what_a_stream_row_shows(
    r: StreamRow,
    d: Doc,
    now: Seq<char>,
    status: StreamStatus,
)
    requires
        is_stream_row(r, d, now, status),
    ensures
        r.stream@ == shown(d.at("stream"@)),
        r.head_seq@ == shown(d.at("head-seq"@)),
        r.last_appended_at@ == shown(d.at("last-appended-at"@)),
        r.quiet <==> status is Quiet,
        r.refused <==> status is Refused,
        status is Healthy ==> r.status@ == "healthy"@,
        status is Quiet ==> r.status@ == "quiet"@,
        status is Refused ==> r.status@ == "refused"@,
        age_of(shown(d.at("last-appended-at"@)), now) matches Some(n) ==> r.silent_for@
            == crate::console::shaping::humanized(n),
        age_of(shown(d.at("last-appended-at"@)), now) is None ==> r.silent_for@ == "—"@,
{
}

/// A mandate is shown by who granted what to whom, until when, and the state it is in.
pub proof fn lemma_what_a_mandate_row_shows(r: MandateRow, d: Doc, now: Seq<char>)
    requires
        is_mandate_row(r, d, now),
    ensures
        r.id@ == shown(d.at("mandate-id"@)),
        r.parent@ == or_empty(d.text_at("parent"@)),
        r.kind@ == shown(d.at("mandate-kind"@)),
        r.grantor_subject@ == shown(d.at("grantor"@).at("subject"@)),
        r.grantee_subject@ == shown(d.at("grantee-subject"@)),
        r.not_after@ == shown(d.at("not-after"@)),
        r.state@ == mandate_state(d, now),
        r.state_class@ == mandate_class(d, now),
        r.components@ == patterns_shown(d.at("scope"@).at("components"@)),
        r.actions@ == patterns_shown(d.at("scope"@).at("actions"@)),
        r.classes@ == patterns_shown(d.at("scope"@).at("classes"@)),
        r.resources@ == patterns_shown(d.at("scope"@).at("resources"@)),
{
}

/// Evidence is shown by its schema and its hash, and what has no schema is none.
pub proof fn lemma_how_evidence_is_shown(evidence: Doc)
    ensures
        match evidence.at("schema"@) {
            Doc::Text(schema) => evidence_line(evidence) == schema + " · "@ + shortened(
                shown(evidence.at("payload-hash"@)),
            ),
            _ => evidence_line(evidence) == "—"@,
        },
{
}

} // verus!
