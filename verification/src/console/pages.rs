//! The pages of the console, before they are rendered.

use vstd::prelude::*;

use crate::codes::STORE_UNAVAILABLE;
use crate::config::{opt_doc, opt_string, RateLimit};
use crate::console::encoding::{percent_encode, percent_encoded};
use crate::console::filters::{export_parts, page_parts, Filters};
use crate::console::rows::{
    are_links, are_rows, carried_decision, chain_links, decision_in, is_mandate_row, is_row,
    is_stream_row, mandate_row, row, rows, stream_row, ChainLink, MandateRow, PendingRow, Row,
    StreamRow, StreamStatus,
};
use crate::console::shaping::{
    humanize, humanized, preview, preview_shown, short, shortened, shown, spread, text, NOTHING,
};
use crate::error::Error;
use crate::http::reads::Stored;
use crate::json::{compact, member, member_docs, one_of, record, text_or_null, Doc, Json};
use crate::query::{clamp, held, number_of, param, param_of, EnvelopeQuery};
use crate::text::{
    decimal, decimal_text, is_before, is_digest, is_digest_hex, join, join2, join3, join4, join5,
    joined, lemma_precedes_is_total, lemma_precedes_is_transitive, lossy_text, opt_text, or_empty,
    precedes, same, signed, signed_text, text_or_empty, texts,
};
use crate::walk::chain_from;

verus! {

/// Rows shown on a summary before the full view is needed.
pub const PREVIEW_ROWS: usize = 10;

/// A page that says one thing.
#[derive(Debug)]
pub struct Notice {
    /// The status.
    pub status: u16,
    /// What it says.
    pub title: String,
    /// The rest.
    pub detail: String,
}

/// A page that says one thing.
pub struct Said {
    /// The status.
    pub status: int,
    /// What it says.
    pub title: Seq<char>,
    /// The rest.
    pub detail: Seq<char>,
}

impl View for Notice {
    type V = Said;

    open spec fn view(&self) -> Said {
        Said { status: self.status as int, title: self.title@, detail: self.detail@ }
    }
}

/// What is said where the store could not answer.
pub const NO_ANSWER: &'static str = "The kernel could not answer";

/// What is said where the store could not answer.
pub const NOTHING_CHANGED: &'static str = "The store did not respond. Nothing was changed by this request — the console cannot change anything — so it is safe to retry.";

/// What is said where the store could not answer.
pub open spec fn outage() -> Said {
    Said { status: 503, title: NO_ANSWER@, detail: NOTHING_CHANGED@ }
}

/// What is said where the store could not answer.
pub fn unavailable() -> (r: Notice)
    ensures
        r@ == outage(),
{
    Notice { status: 503, title: NO_ANSWER.to_owned(), detail: NOTHING_CHANGED.to_owned() }
}

/// What is said behind the reason a caller is not known.
pub const CREDENTIAL_ADVICE: &'static str = ". Every console page reads the audit trail, so every console page requires the same Bearer credential as the API — one readable by anyone who could reach the port would be a different product. Send `Authorization: Bearer <token>`; the tokens a deployment accepts are the `callers` entries of its configuration.";

/// What is said to a caller that is not known.
pub fn unauthenticated(detail: &str) -> (r: Notice)
    ensures
        r@ == (Said {
            status: 401,
            title: "This console needs a credential"@,
            detail: detail@ + CREDENTIAL_ADVICE@,
        }),
{
    Notice {
        status: 401,
        title: "This console needs a credential".to_owned(),
        detail: join2(detail, CREDENTIAL_ADVICE),
    }
}

// -- the overview -----------------------------------------------------------------------------

/// The headline numbers.
#[derive(Debug)]
pub struct Counts {
    /// Envelopes in the log.
    pub envelopes: u64,
    /// Attempts.
    pub attempts: u64,
    /// Violations.
    pub violations: u64,
    /// What waits for a human: parked requests without an answer, and effects that were blocked.
    pub pending: u64,
    /// Refusals.
    pub rejections: u64,
}

impl Counts {
    /// The headline numbers.
    pub fn gather(
        envelopes: u64,
        attempts: usize,
        violations: usize,
        parked: usize,
        blocked: usize,
        rejections: usize,
    ) -> (r: Counts)
        requires
            parked + blocked <= usize::MAX,
        ensures
            r.envelopes == envelopes,
            r.attempts == attempts,
            r.violations == violations,
            r.pending == parked + blocked,
            r.rejections == rejections,
    {
        Counts {
            envelopes,
            attempts: attempts as u64,
            violations: violations as u64,
            pending: (parked + blocked) as u64,
            rejections: rejections as u64,
        }
    }
}

/// The records of the streams before a place that stand in a way.
pub open spec fn standing(
    streams: Seq<(Json, StreamStatus)>,
    status: StreamStatus,
    upto: int,
) -> Seq<Doc>
    decreases upto,
{
    if upto <= 0 {
        Seq::empty()
    } else if streams[upto - 1].1 == status {
        standing(streams, status, upto - 1).push(streams[upto - 1].0@)
    } else {
        standing(streams, status, upto - 1)
    }
}

/// Whether some rows show some streams that all stand in a way.
pub open spec fn are_stream_rows(
    rows: Seq<StreamRow>,
    records: Seq<Doc>,
    now: Seq<char>,
    status: StreamStatus,
) -> bool {
    &&& rows.len() == records.len()
    &&& forall|i: int|
        0 <= i < rows.len() ==> is_stream_row(#[trigger] rows[i], records[i], now, status)
}

/// The streams that stand in a way, as rows.
pub fn streams_standing(
    streams: &Vec<(Json, StreamStatus)>,
    status: StreamStatus,
    now: &str,
) -> (r: Vec<StreamRow>)
    ensures
        are_stream_rows(
            r@,
            standing(streams@, status, streams@.len() as int),
            now@,
            status,
        ),
{
    let mut out: Vec<StreamRow> = Vec::new();
    let mut i: usize = 0;
    while i < streams.len()
        invariant
            i <= streams@.len(),
            are_stream_rows(out@, standing(streams@, status, i as int), now@, status),
        decreases streams@.len() - i,
    {
        let entry = &streams[i];
        if entry.1 == status {
            out.push(stream_row(&entry.0, now, status));
        }
        i += 1;
    }
    out
}

/// Whether some rows show some mandates.
pub open spec fn are_mandate_rows(
    rows: Seq<MandateRow>,
    records: Seq<Json>,
    now: Seq<char>,
) -> bool {
    &&& rows.len() == records.len()
    &&& forall|i: int|
        0 <= i < rows.len() ==> is_mandate_row(#[trigger] rows[i], records[i]@, now)
}

fn mandate_rows(records: &Vec<Json>, most: usize, now: &str) -> (r: Vec<MandateRow>)
    ensures
        are_mandate_rows(
            r@,
            records@.take(
                if records@.len() <= most {
                    records@.len() as int
                } else {
                    most as int
                },
            ),
            now@,
        ),
{
    let mut out: Vec<MandateRow> = Vec::new();
    let mut i: usize = 0;
    while i < records.len() && i < most
        invariant
            i <= records@.len(),
            i <= most,
            out@.len() == i,
            forall|j: int| 0 <= j < i ==> is_mandate_row(#[trigger] out@[j], records@[j]@, now@),
        decreases records@.len() - i,
    {
        out.push(mandate_row(&records[i], now));
        i += 1;
    }
    out
}

/// The overview.
#[derive(Debug)]
pub struct OverviewPage {
    /// The policy in force.
    pub policy_version: String,
    /// The headline numbers.
    pub counts: Counts,
    /// How long a stream may be silent.
    pub quiet_after: String,
    /// The latest attempts.
    pub rows: Vec<Row>,
    /// The mandates that end first.
    pub expiring: Vec<MandateRow>,
    /// The streams that are silent.
    pub quiet: Vec<StreamRow>,
    /// The streams whose last submission was refused: another finding than silence.
    pub refused: Vec<StreamRow>,
}

/// The overview.
pub fn overview(
    attempts: &Vec<Json>,
    counts: Counts,
    registry: &Vec<Json>,
    streams: &Vec<(Json, StreamStatus)>,
    policy: Option<&Json>,
    now: &str,
    quiet_after: i64,
) -> (r: OverviewPage)
    ensures
        r.policy_version@ == match opt_doc(policy) {
            Some(d) => shown(d.at("policy-version"@)),
            None => "none published"@,
        },
        r.counts == counts,
        r.quiet_after@ == humanized(quiet_after as int),
        are_rows(r.rows@, attempts@),
        are_mandate_rows(
            r.expiring@,
            registry@.take(
                if registry@.len() <= PREVIEW_ROWS {
                    registry@.len() as int
                } else {
                    PREVIEW_ROWS as int
                },
            ),
            now@,
        ),
        are_stream_rows(
            r.quiet@,
            standing(streams@, StreamStatus::Quiet, streams@.len() as int),
            now@,
            StreamStatus::Quiet,
        ),
        are_stream_rows(
            r.refused@,
            standing(streams@, StreamStatus::Refused, streams@.len() as int),
            now@,
            StreamStatus::Refused,
        ),
{
    OverviewPage {
        policy_version: match policy {
            Some(d) => text(d.at("policy-version")),
            None => "none published".to_owned(),
        },
        counts,
        quiet_after: humanize(quiet_after),
        rows: rows(attempts),
        expiring: mandate_rows(registry, PREVIEW_ROWS, now),
        quiet: streams_standing(streams, StreamStatus::Quiet, now),
        refused: streams_standing(streams, StreamStatus::Refused, now),
    }
}

// -- the audit explorer and the export --------------------------------------------------------

/// Every filter there is. The position of a page is among them, and an export ignores it: it holds
/// everything the filters match, whichever page it is asked from.
pub const EXPORT_FILTERS: [&'static str; 17] = [
    "subject",
    "mandate-ref",
    "mandate-subtree-of",
    "classification",
    "kind",
    "action",
    "component",
    "stream",
    "outcome",
    "human-root",
    "commitment-id",
    "correlation-ref",
    "emitted-from",
    "emitted-to",
    "limit",
    "violations-only",
    "after",
];

/// The renderings an export has: the record itself, and a reading of it.
pub const EXPORT_FORMATS: [&'static str; 2] = ["ndjson", "html"];

/// Where what an envelope commits to is served.
pub const PAYLOAD_ROUTE: &'static str = "/v1/payloads/{payload-hash}";

/// How many rows an export reads at once.
pub const EXPORT_PAGE_ROWS: usize = 10_000;

/// Some names with one more, in dictionary order, each once.
pub open spec fn placed(names: Seq<Seq<char>>, name: Seq<char>) -> Seq<Seq<char>>
    decreases names.len(),
{
    if names.len() == 0 {
        seq![name]
    } else if names[0] == name {
        names
    } else if precedes(name, names[0]) {
        seq![name] + names
    } else {
        seq![names[0]] + placed(names.drop_first(), name)
    }
}

/// Whether a name is that of a filter, or of the rendering where that counts.
pub open spec fn is_filter(name: Seq<char>, format_too: bool) -> bool {
    crate::json::named(EXPORT_FILTERS@, name) || (format_too && name == "format"@)
}

/// The names before a place that are those of no filter, in dictionary order, each once.
pub open spec fn strangers(params: Seq<(String, String)>, format_too: bool, upto: int) -> Seq<
    Seq<char>,
>
    decreases upto,
{
    if upto <= 0 {
        Seq::empty()
    } else if is_filter(params[upto - 1].0@, format_too) {
        strangers(params, format_too, upto - 1)
    } else {
        placed(strangers(params, format_too, upto - 1), params[upto - 1].0@)
    }
}

fn place(names: &Vec<String>, name: &str) -> (r: Vec<String>)
    ensures
        texts(r@) == placed(texts(names@), name@),
{
    let mut out: Vec<String> = Vec::new();
    let mut i: usize = 0;
    let ghost all = texts(names@);
    assert(all.skip(0) == all);
    assert(texts(out@) + placed(all, name@) =~= placed(all, name@));
    while i < names.len() && !is_before(name, names[i].as_str()) && !same(names[i].as_str(), name)
        invariant
            i <= names@.len(),
            all == texts(names@),
            texts(out@) + placed(all.skip(i as int), name@) == placed(all, name@),
        decreases names@.len() - i,
    {
        let ghost before = texts(out@);
        let ghost rest = placed(all.skip(i + 1), name@);
        assert(all.skip(i as int).drop_first() == all.skip(i + 1));
        out.push(names[i].clone());
        assert(texts(out@) =~= before + seq![all[i as int]]);
        assert(before + (seq![all[i as int]] + rest) =~= texts(out@) + rest);
        i += 1;
    }
    let ghost head = texts(out@);
    let ghost tail = all.skip(i as int);
    if i < names.len() && same(names[i].as_str(), name) {
        assert(placed(tail, name@) == tail);
    } else {
        out.push(name.to_owned());
        assert(texts(out@) =~= head + seq![name@]);
        assert(placed(tail, name@) =~= seq![name@] + tail);
    }
    assert(texts(out@) + tail =~= placed(all, name@));
    while i < names.len()
        invariant
            i <= names@.len(),
            all == texts(names@),
            texts(out@) + all.skip(i as int) == placed(all, name@),
        decreases names@.len() - i,
    {
        let ghost before = texts(out@);
        assert(all.skip(i as int) =~= seq![all[i as int]] + all.skip(i + 1));
        out.push(names[i].clone());
        assert(texts(out@) =~= before + seq![all[i as int]]);
        assert(before + (seq![all[i as int]] + all.skip(i + 1)) =~= texts(out@) + all.skip(i + 1));
        i += 1;
    }
    assert(texts(out@) + all.skip(i as int) =~= texts(out@));
    out
}

/// The names of parameters that are those of no filter, in dictionary order, each once.
pub fn ignored(params: &Vec<(String, String)>, format_too: bool) -> (r: Vec<String>)
    ensures
        texts(r@) == strangers(params@, format_too, params@.len() as int),
{
    let mut out: Vec<String> = Vec::new();
    let mut i: usize = 0;
    assert(texts(out@) =~= Seq::empty());
    while i < params.len()
        invariant
            i <= params@.len(),
            texts(out@) == strangers(params@, format_too, i as int),
        decreases params@.len() - i,
    {
        let name = params[i].0.as_str();
        if !(one_of(name, &EXPORT_FILTERS) || (format_too && same(name, "format"))) {
            out = place(&out, name);
        }
        i += 1;
    }
    out
}

/// What is said of a position that no page gave out.
pub const BAD_CURSOR: &'static str = "`after` must name a row this console handed out. Follow the paging links rather than editing the parameter, or drop it to start from the newest record.";

/// What is said of a position that no page gave out.
pub fn bad_cursor() -> (r: Notice)
    ensures
        r@ == (Said {
            status: 400,
            title: "That page cursor is not one this console wrote"@,
            detail: BAD_CURSOR@,
        }),
{
    Notice {
        status: 400,
        title: "That page cursor is not one this console wrote".to_owned(),
        detail: BAD_CURSOR.to_owned(),
    }
}

/// The link to the page behind a row.
pub open spec fn next_link(f: Filters, after: Seq<char>) -> Seq<char> {
    let query = joined(page_parts(f), "&"@);
    if query.len() == 0 {
        "/console/audit?after="@ + percent_encoded(after)
    } else {
        "/console/audit?"@ + query + "&after="@ + percent_encoded(after)
    }
}

/// The audit explorer.
#[derive(Debug)]
pub struct AuditPage {
    /// The query string of the export.
    pub query: String,
    /// How many rows are shown.
    pub shown: usize,
    /// How many records the filters match.
    pub matched: u64,
    /// The parameters that name no filter.
    pub ignored: Vec<String>,
    /// Whether more match than are shown.
    pub truncated: bool,
    /// Whether this is a later page.
    pub paged: bool,
    /// The link to the next page, where there may be one.
    pub next: Option<String>,
    /// The rows.
    pub rows: Vec<Row>,
}

/// The link to the next page: a page that is full may have one behind it.
pub open spec fn next_page(f: Filters, shown: int, last: Option<Seq<char>>) -> Option<Seq<char>> {
    if shown == held(number_of(Some(f.limit@), 200), 1, 10_000) {
        match last {
            Some(after) => Some(next_link(f, after)),
            None => None,
        }
    } else {
        None
    }
}

fn next_of(filters: &Filters, shown: usize, last: Option<&str>) -> (r: Option<String>)
    ensures
        opt_string(r) == next_page(*filters, shown as int, opt_text(last)),
{
    let limit: i64 = clamp(
        crate::query::number_in(Some(filters.limit.as_str()), 200),
        1,
        10_000,
    );
    if shown != limit as usize {
        return None;
    }
    let after = match last {
        Some(a) => percent_encode(a),
        None => {
            return None;
        },
    };
    let query = filters.to_query_string();
    if query.as_str().unicode_len() == 0 {
        Some(join2("/console/audit?after=", after.as_str()))
    } else {
        Some(join4("/console/audit?", query.as_str(), "&after=", after.as_str()))
    }
}

/// The audit explorer: what the filters match and what is shown of it are different numbers, and
/// both are given. `last` is the row the page ends with.
pub fn audit(
    filters: &Filters,
    params: &Vec<(String, String)>,
    records: &Vec<Json>,
    matched: u64,
    resumed: bool,
    last: Option<&str>,
) -> (r: AuditPage)
    ensures
        r.query@ == joined(export_parts(*filters), "&"@),
        r.shown == records@.len(),
        r.matched == matched,
        texts(r.ignored@) == strangers(params@, false, params@.len() as int),
        r.truncated == (matched > records@.len()),
        r.paged == resumed,
        opt_string(r.next) == next_page(*filters, records@.len() as int, opt_text(last)),
        are_rows(r.rows@, records@),
{
    AuditPage {
        query: filters.to_export_query_string(),
        shown: records.len(),
        matched,
        ignored: ignored(params, false),
        truncated: matched > records.len() as u64,
        paged: resumed,
        next: next_of(filters, records.len(), last),
        rows: rows(records),
    }
}

/// The words of a list of names.
pub open spec fn comma_list(names: Seq<&str>) -> Seq<char> {
    joined(crate::documents::names_of(names), ", "@)
}

/// The rendering an export is asked for.
pub open spec fn format_asked(params: Seq<(String, String)>) -> Seq<char> {
    match param_of(params, "format"@) {
        Some(f) => f,
        None => "ndjson"@,
    }
}

/// What an export refuses: a filter that does not exist would be ignored, and a file that looks
/// like the answer to another question is worse than none.
pub open spec fn export_refusal(params: Seq<(String, String)>) -> Option<Said> {
    let unknown = strangers(params, true, params.len() as int);
    let format = format_asked(params);
    if unknown.len() > 0 {
        Some(
            Said {
                status: 400,
                title: "That filter does not exist, so the export was refused"@,
                detail: "No such filter: "@ + joined(unknown, ", "@)
                    + ". Nothing was exported. An unrecognised filter would otherwise be ignored and you would receive every record — a file that looks like the answer to the question you asked. The filters this export accepts are: "@
                    + comma_list(EXPORT_FILTERS@) + "."@,
            },
        )
    } else if !crate::json::named(EXPORT_FORMATS@, format) {
        Some(
            Said {
                status: 400,
                title: "That export format does not exist, so the export was refused"@,
                detail: "No such format: "@ + format
                    + ". Nothing was exported. The formats this export accepts are: "@
                    + comma_list(EXPORT_FORMATS@)
                    + ". `ndjson` is the record — canonical envelopes exactly as signed; `html` is a reading of that record and says so in its own text."@,
            },
        )
    } else {
        None
    }
}

fn listed(names: &[&str]) -> (r: String)
    ensures
        r@ == comma_list(names@),
{
    join(&crate::documents::owned_names(names), ", ")
}

/// What an export is asked for: whether it is the reading, and otherwise the record itself; or why
/// it is refused.
pub fn export(params: &Vec<(String, String)>) -> (r: Result<bool, Notice>)
    ensures
        match export_refusal(params@) {
            Some(n) => r matches Err(e) && e@ == n,
            None => r matches Ok(html) && html == (format_asked(params@) == "html"@),
        },
{
    let unknown = ignored(params, true);
    let ghost names = strangers(params@, true, params@.len() as int);
    assert(texts(unknown@).len() == unknown@.len());
    if unknown.len() > 0 {
        let mut detail = join2("No such filter: ", join(&unknown, ", ").as_str());
        detail.push_str(
            ". Nothing was exported. An unrecognised filter would otherwise be ignored and you would receive every record — a file that looks like the answer to the question you asked. The filters this export accepts are: ",
        );
        detail.push_str(listed(&EXPORT_FILTERS).as_str());
        detail.push_str(".");
        return Err(
            Notice {
                status: 400,
                title: "That filter does not exist, so the export was refused".to_owned(),
                detail,
            },
        );
    }
    let format = match param(params, "format") {
        Some(f) => f,
        None => "ndjson",
    };
    if !one_of(format, &EXPORT_FORMATS) {
        let mut detail = join3(
            "No such format: ",
            format,
            ". Nothing was exported. The formats this export accepts are: ",
        );
        detail.push_str(listed(&EXPORT_FORMATS).as_str());
        detail.push_str(
            ". `ndjson` is the record — canonical envelopes exactly as signed; `html` is a reading of that record and says so in its own text.",
        );
        return Err(
            Notice {
                status: 400,
                title: "That export format does not exist, so the export was refused".to_owned(),
                detail,
            },
        );
    }
    Ok(same(format, "html"))
}

/// The query of one batch of an export: what the filters say, with the export's own size.
pub fn export_query<'a>(filters: &'a Filters, after: Option<&'a str>) -> (r: EnvelopeQuery<'a>)
    ensures
        r.limit == EXPORT_PAGE_ROWS,
        crate::console::filters::asks(
            (EnvelopeQuery { limit: number_of(Some(filters.limit@), 200) as i64, ..r }),
            *filters,
            opt_text(after),
        ),
{
    let mut query = filters.query_from(after);
    query.limit = EXPORT_PAGE_ROWS as i64;
    query
}

/// Some lines, each ended.
pub open spec fn body_of(lines: Seq<Seq<char>>) -> Seq<char>
    decreases lines.len(),
{
    if lines.len() == 0 {
        Seq::empty()
    } else {
        body_of(lines.drop_last()) + lines.last() + "\n"@
    }
}

/// What an export has gathered.
#[derive(Debug)]
pub struct Exported {
    /// The body.
    pub body: String,
    /// How many records it holds.
    pub records: u64,
    /// Whether there may be more.
    pub more: bool,
}

/// What an export holds of a record: the envelope as it was signed, whose canonical form is the
/// line, and nothing that was added to it in the store.
pub fn exported(record: &Json) -> (r: &Json)
    ensures
        r@ == record@.at("envelope"@),
{
    record.at("envelope")
}

/// Adds one batch to an export, each line the canonical form of an envelope. A batch that is not
/// full is the last.
pub fn export_batch(body: String, records: u64, lines: &Vec<String>) -> (r: Exported)
    requires
        records + lines@.len() <= u64::MAX,
    ensures
        r.body@ == body@ + body_of(texts(lines@)),
        r.records == records + lines@.len(),
        r.more == (lines@.len() >= EXPORT_PAGE_ROWS),
{
    let ghost start = body@;
    let mut out = body;
    let mut i: usize = 0;
    let ghost all = texts(lines@);
    assert(all.take(0) =~= Seq::empty());
    assert(out@ =~= start + body_of(all.take(0)));
    while i < lines.len()
        invariant
            i <= lines@.len(),
            all == texts(lines@),
            out@ == start + body_of(all.take(i as int)),
        decreases lines@.len() - i,
    {
        assert(all.take(i + 1).drop_last() == all.take(i as int));
        assert(all.take(i + 1).last() == lines@[i as int]@);
        out.push_str(lines[i].as_str());
        out.push_str("\n");
        i += 1;
        assert(out@ =~= start + body_of(all.take(i as int)));
    }
    assert(all.take(i as int) == all);
    Exported {
        body: out,
        records: records + lines.len() as u64,
        more: lines.len() >= EXPORT_PAGE_ROWS,
    }
}

// -- what waits for a human -------------------------------------------------------------------

/// One subject that parks requests fast enough to be named.
#[derive(Debug)]
pub struct SpikeRow {
    /// The subject.
    pub subject: String,
    /// How many it parked.
    pub parked: String,
    /// When it last did.
    pub latest: String,
    /// Whether it is at the cap, and so refused.
    pub refused: bool,
}

/// A count at which something is worth naming: half the cap, so that it is named before it is
/// refused.
pub fn watch_threshold(limit: &RateLimit) -> (r: u32)
    ensures
        r == if limit.per_subject / 2 == 0 {
            1
        } else {
            limit.per_subject / 2
        },
        limit.per_subject >= 1 ==> 1 <= r <= limit.per_subject,
{
    let half: u32 = limit.per_subject / 2;
    if half == 0 {
        1
    } else {
        half
    }
}

/// Whether a count is at or over a cap.
pub open spec fn at_cap(count: Doc, cap: int) -> bool {
    match count.as_u64() {
        Some(n) => n >= cap,
        None => 0 >= cap,
    }
}

fn is_at_cap(count: &Json, cap: u32) -> (r: bool)
    ensures
        r == at_cap(count@, cap as int),
{
    match count.as_u64() {
        Some(n) => n >= cap as u64,
        None => cap == 0,
    }
}

fn or_dash(s: Option<&str>) -> (r: String)
    ensures
        r@ == match s {
            Some(t) => t@,
            None => "-"@,
        },
{
    match s {
        Some(t) => t.to_owned(),
        None => "-".to_owned(),
    }
}

/// The text of a member, and a dash where it is none.
pub open spec fn dashed(d: Doc, name: Seq<char>) -> Seq<char> {
    match d.text_at(name) {
        Some(t) => t,
        None => "-"@,
    }
}

/// Whether a row shows a spike.
pub open spec fn is_spike_row(r: SpikeRow, d: Doc, cap: int) -> bool {
    &&& r.subject@ == or_empty(d.text_at("subject"@))
    &&& r.parked@ == compact(d.at("parked"@))
    &&& r.latest@ == dashed(d, "latest"@)
    &&& r.refused == at_cap(d.at("parked"@), cap)
}

/// A spike as a row.
pub fn spike_row(record: &Json, limit: &RateLimit) -> (r: SpikeRow)
    ensures
        is_spike_row(r, record@, limit.per_subject as int),
{
    SpikeRow {
        subject: text_or_empty(record.text_at("subject")).to_owned(),
        parked: record.at("parked").to_text(),
        latest: or_dash(record.text_at("latest")),
        refused: is_at_cap(record.at("parked"), limit.per_subject),
    }
}

/// What a caller that has just answered is told: the envelope the answer became, and which answer
/// it was. Both are held to what they can be.
#[derive(Debug)]
pub struct Recorded {
    /// The envelope.
    pub envelope: String,
    /// The envelope at the width of a cell.
    pub short: String,
    /// The answer.
    pub verdict: String,
}

/// The answer a caller says it recorded.
pub open spec fn verdict_said(params: Seq<(String, String)>) -> Seq<char> {
    match param_of(params, "verdict"@) {
        Some(v) => if v == "approve"@ || v == "deny"@ {
            v
        } else {
            Seq::empty()
        },
        None => Seq::empty(),
    }
}

/// The envelope a caller says its answer became.
pub open spec fn envelope_said(params: Seq<(String, String)>) -> Seq<char> {
    match param_of(params, "recorded"@) {
        Some(id) => if is_digest(id) {
            id
        } else {
            Seq::empty()
        },
        None => Seq::empty(),
    }
}

/// What a caller that has just answered is told.
pub fn recorded(params: &Vec<(String, String)>) -> (r: Recorded)
    ensures
        r.verdict@ == verdict_said(params@),
        r.short@ == shortened(envelope_said(params@)),
        r.envelope@ == if verdict_said(params@).len() == 0 {
            Seq::empty()
        } else {
            envelope_said(params@)
        },
{
    let id = match param(params, "recorded") {
        Some(id) => if is_digest_hex(id) {
            id.to_owned()
        } else {
            String::new()
        },
        None => String::new(),
    };
    let verdict = match param(params, "verdict") {
        Some(v) => if same(v, "approve") || same(v, "deny") {
            v.to_owned()
        } else {
            String::new()
        },
        None => String::new(),
    };
    let cell = short(id.as_str());
    let envelope = if verdict.as_str().unicode_len() == 0 {
        String::new()
    } else {
        id
    };
    Recorded { envelope, short: cell, verdict }
}

/// What waits for a human.
#[derive(Debug)]
pub struct PendingPage {
    /// How many channels tell an approver.
    pub channels: usize,
    /// The questions nobody has answered.
    pub parked: Vec<PendingRow>,
    /// The questions that were answered, denials among them.
    pub answered: Vec<PendingRow>,
    /// The effects that were blocked.
    pub rows: Vec<Row>,
    /// The effects that were denied.
    pub denied: Vec<Row>,
    /// The subjects that park fast.
    pub spikes: Vec<SpikeRow>,
    /// The window they are counted in, in seconds.
    pub spike_window: String,
    /// The cap.
    pub spike_cap: String,
    /// What a caller that has just answered is told.
    pub recorded: Recorded,
}

/// What waits for a human, given the rows of the queue.
pub fn pending(
    parked: Vec<PendingRow>,
    answered: Vec<PendingRow>,
    blocked: &Vec<Json>,
    denied: &Vec<Json>,
    spikes: &Vec<Json>,
    limit: &RateLimit,
    params: &Vec<(String, String)>,
    channels: usize,
) -> (r: PendingPage)
    ensures
        r.channels == channels,
        r.parked == parked,
        r.answered == answered,
        are_rows(r.rows@, blocked@),
        are_rows(r.denied@, denied@),
        r.spikes@.len() == spikes@.len(),
        forall|i: int|
            0 <= i < spikes@.len() ==> is_spike_row(
                #[trigger] r.spikes@[i],
                spikes@[i]@,
                limit.per_subject as int,
            ),
        r.spike_window@ == signed(limit.window_seconds as int),
        r.spike_cap@ == decimal(limit.per_subject as nat),
        r.recorded.verdict@ == verdict_said(params@),
        r.recorded.short@ == shortened(envelope_said(params@)),
        r.recorded.envelope@ == if verdict_said(params@).len() == 0 {
            Seq::empty()
        } else {
            envelope_said(params@)
        },
{
    let mut named: Vec<SpikeRow> = Vec::new();
    let mut i: usize = 0;
    while i < spikes.len()
        invariant
            i <= spikes@.len(),
            named@.len() == i,
            forall|j: int|
                0 <= j < i ==> is_spike_row(
                    #[trigger] named@[j],
                    spikes@[j]@,
                    limit.per_subject as int,
                ),
        decreases spikes@.len() - i,
    {
        named.push(spike_row(&spikes[i], limit));
        i += 1;
    }
    PendingPage {
        channels,
        parked,
        answered,
        rows: rows(blocked),
        denied: rows(denied),
        spikes: named,
        spike_window: signed_text(limit.window_seconds),
        spike_cap: decimal_text(limit.per_subject as u64),
        recorded: recorded(params),
    }
}

// -- mandates ---------------------------------------------------------------------------------

/// How many rows before a place are in a state.
pub open spec fn in_state(rows: Seq<MandateRow>, state: Seq<char>, upto: int) -> int
    decreases upto,
{
    if upto <= 0 {
        0
    } else {
        in_state(rows, state, upto - 1) + if rows[upto - 1].state@ == state {
            1int
        } else {
            0int
        }
    }
}

fn count_state(rows: &Vec<MandateRow>, state: &str) -> (r: usize)
    ensures
        r == in_state(rows@, state@, rows@.len() as int),
{
    let total: usize = rows.len();
    let mut n: usize = 0;
    let mut i: usize = 0;
    while i < rows.len()
        invariant
            total == rows@.len(),
            i <= rows@.len(),
            n <= i,
            n == in_state(rows@, state@, i as int),
        decreases rows@.len() - i,
    {
        if same(rows[i].state.as_str(), state) {
            n += 1;
        }
        i += 1;
    }
    n
}

/// The mandate registry.
#[derive(Debug)]
pub struct MandatesPage {
    /// How many there are.
    pub total: usize,
    /// How many end soon.
    pub expiring_count: usize,
    /// How many were revoked.
    pub revoked_count: usize,
    /// The mandates.
    pub rows: Vec<MandateRow>,
}

/// The mandate registry.
pub fn mandates(registry: &Vec<Json>, now: &str) -> (r: MandatesPage)
    ensures
        are_mandate_rows(r.rows@, registry@, now@),
        r.total == registry@.len(),
        r.expiring_count == in_state(r.rows@, "expiring"@, r.rows@.len() as int),
        r.revoked_count == in_state(r.rows@, "revoked"@, r.rows@.len() as int),
{
    let rows = mandate_rows(registry, registry.len(), now);
    assert(registry@.take(registry@.len() as int) =~= registry@);
    MandatesPage {
        total: registry.len(),
        expiring_count: count_state(&rows, "expiring"),
        revoked_count: count_state(&rows, "revoked"),
        rows,
    }
}

// -- verifying a stream -----------------------------------------------------------------------

/// A verified stream. Whether it was verified from its origin and whether a signed checkpoint
/// attests its head are different questions, and their answers can differ.
#[derive(Debug)]
pub struct VerifyPage {
    /// The stream.
    pub stream: String,
    /// Whether its chain holds.
    pub valid: bool,
    /// How many envelopes it has.
    pub count: String,
    /// Its head.
    pub head_hash: String,
    /// Whether it was verified from its origin.
    pub rooted: bool,
    /// Whether a signed checkpoint attests its head.
    pub attested: bool,
    /// The last checkpoint.
    pub checkpoint: String,
    /// Why it does not hold, empty where it does.
    pub reason_code: String,
    /// The detail, empty where it holds.
    pub reason: String,
    /// The place where it fails, empty where there is none.
    pub failed_at_seq: String,
}

/// A checkpoint on a line.
pub open spec fn checkpoint_line(d: Doc) -> Seq<char> {
    if d is Null {
        NOTHING@
    } else {
        "seq "@ + shown(d.at("from-seq"@)) + "…"@ + shown(d.at("to-seq"@)) + " attesting "@
            + shown(d.at("head-hash"@))
    }
}

/// Whether the checkpoint that a report names attests the head that it reports.
pub open spec fn attests_head(report: Doc) -> bool {
    &&& report.text_at("head-hash"@) is Some
    &&& report.at("last-checkpoint"@).text_at("head-hash"@) == report.text_at("head-hash"@)
}

fn is_attested(report: &Json) -> (r: bool)
    ensures
        r == attests_head(report@),
{
    match (report.at("last-checkpoint").text_at("head-hash"), report.text_at("head-hash")) {
        (Some(attested), Some(head)) => same(attested, head),
        _ => false,
    }
}

/// Whether a page shows what verifying a stream came to.
pub open spec fn is_verify_page(p: VerifyPage, stream: Seq<char>, report: Result<Json, Error>) -> bool {
    &&& p.stream@ == stream
    &&& p.valid == (report is Ok)
    &&& match report {
        Ok(d) => {
            &&& p.count@ == shown(d@.at("count"@))
            &&& p.head_hash@ == shown(d@.at("head-hash"@))
            &&& p.rooted == (d@.at("anchored"@).as_bool() == Some(true))
            &&& p.attested == attests_head(d@)
            &&& p.checkpoint@ == checkpoint_line(d@.at("last-checkpoint"@))
            &&& p.reason_code@.len() == 0
            &&& p.reason@.len() == 0
            &&& p.failed_at_seq@.len() == 0
        },
        Err(e) => {
            &&& p.count@ == "0"@
            &&& p.head_hash@ == NOTHING@
            &&& !p.rooted
            &&& !p.attested
            &&& p.checkpoint@ == NOTHING@
            &&& p.reason_code@ == e@.code
            &&& p.reason@ == e@.detail
            &&& p.failed_at_seq@ == match e@.seq {
                Some(n) => decimal(n as nat),
                None => Seq::empty(),
            }
        },
    }
}

/// What verifying a stream came to, as a page; an outage is said as such.
pub fn verify(stream: &str, report: &Result<Json, Error>) -> (r: Result<VerifyPage, Notice>)
    ensures
        if report matches Err(e) && e@.code == STORE_UNAVAILABLE@ {
            r matches Err(n) && n@ == outage()
        } else {
            r matches Ok(p) && is_verify_page(p, stream@, *report)
        },
{
    match report {
        Ok(d) => {
            let last = d.at("last-checkpoint");
            let checkpoint = if last.is_null() {
                NOTHING.to_owned()
            } else {
                let mut line = join4(
                    "seq ",
                    text(last.at("from-seq")).as_str(),
                    "…",
                    text(last.at("to-seq")).as_str(),
                );
                line.push_str(" attesting ");
                line.push_str(text(last.at("head-hash")).as_str());
                line
            };
            let rooted = match d.at("anchored").as_bool() {
                Some(b) => b,
                None => false,
            };
            Ok(
                VerifyPage {
                    stream: stream.to_owned(),
                    valid: true,
                    count: text(d.at("count")),
                    head_hash: text(d.at("head-hash")),
                    rooted,
                    attested: is_attested(d),
                    checkpoint,
                    reason_code: String::new(),
                    reason: String::new(),
                    failed_at_seq: String::new(),
                },
            )
        },
        Err(e) => {
            if same(e.code(), STORE_UNAVAILABLE) {
                return Err(unavailable());
            }
            let failed_at_seq = match e.seq() {
                Some(n) => decimal_text(n),
                None => String::new(),
            };
            Ok(
                VerifyPage {
                    stream: stream.to_owned(),
                    valid: false,
                    count: "0".to_owned(),
                    head_hash: NOTHING.to_owned(),
                    rooted: false,
                    attested: false,
                    checkpoint: NOTHING.to_owned(),
                    reason_code: e.code().to_owned(),
                    reason: e.detail().to_owned(),
                    failed_at_seq,
                },
            )
        },
    }
}

// -- refusals ---------------------------------------------------------------------------------

/// A caller that submits arguments its own requests do not commit to, often enough to be named.
#[derive(Debug)]
pub struct MismatchRow {
    /// The caller.
    pub submitted_by: String,
    /// How often it was recorded.
    pub recorded: String,
    /// When it last was.
    pub latest: String,
    /// Whether it is at the cap, past which it is refused without a record.
    pub capped: bool,
}

/// A mismatch as a row.
pub fn mismatch_row(record: &Json, limit: &RateLimit) -> (r: MismatchRow)
    ensures
        r.submitted_by@ == or_empty(record@.text_at("submitted-by"@)),
        r.recorded@ == compact(record@.at("recorded"@)),
        r.latest@ == dashed(record@, "latest"@),
        r.capped == at_cap(record@.at("recorded"@), limit.per_subject as int),
{
    MismatchRow {
        submitted_by: text_or_empty(record.text_at("submitted-by")).to_owned(),
        recorded: record.at("recorded").to_text(),
        latest: or_dash(record.text_at("latest")),
        capped: is_at_cap(record.at("recorded"), limit.per_subject),
    }
}

/// How the stream of refusals stands: whether its chain holds, and its head.
pub fn rejections(verified: &Result<Option<String>, Error>) -> (r: (bool, String))
    ensures
        r.0 == (verified is Ok),
        r.1@ == match verified {
            Ok(Some(h)) => h@,
            _ => NOTHING@,
        },
{
    match verified {
        Ok(Some(h)) => (true, h.clone()),
        Ok(None) => (true, NOTHING.to_owned()),
        Err(_) => (false, NOTHING.to_owned()),
    }
}

// -- one envelope -----------------------------------------------------------------------------

/// One envelope.
#[derive(Debug)]
pub struct EnvelopePage {
    /// Its row.
    pub r: Row,
    /// When it was received.
    pub received_at: String,
    /// The head it was appended to.
    pub prev_hash: String,
    /// The key that signed it.
    pub subject_key: String,
    /// The weight class it proposed.
    pub proposed_class: String,
    /// The decision it carries.
    pub authorization: String,
    /// The walk from its mandate up.
    pub chain: Vec<ChainLink>,
    /// The schema of its evidence.
    pub evidence_schema: String,
    /// The media type of its evidence.
    pub evidence_media_type: String,
    /// The hash of its evidence.
    pub evidence_hash: String,
    /// Until when its evidence is kept.
    pub evidence_retain_until: String,
    /// What is left of its evidence.
    pub payload_state: String,
    /// Its evidence.
    pub payload_preview: String,
    /// Its canonical form.
    pub canonical_json: String,
}

/// The record a row is made of.
pub open spec fn record_of(s: Stored, envelope: Doc) -> Doc {
    Doc::Record(
        seq![
            ("effective-class"@, text_or_null(opt_string(s.effective_class))),
            ("envelope"@, envelope),
            ("human-root"@, text_or_null(opt_string(s.human_root))),
            ("id"@, Doc::Text(s.id@)),
            ("policy-violation"@, text_or_null(opt_string(s.policy_violation))),
        ],
    )
}

/// The decision an envelope carries, on a line.
pub open spec fn authorization_line(envelope: Doc) -> Seq<char> {
    let decision = carried_decision(envelope);
    if envelope.at("authorization"@) is Null && decision is Null {
        "none — this envelope carries no gate decision"@
    } else {
        shown(decision.at("decision"@)) + " by "@ + shown(decision.at("sig"@).at("key"@))
            + " at "@ + shown(decision.at("decided-at"@))
    }
}

fn authorization_of(envelope: &Json) -> (r: String)
    ensures
        r@ == authorization_line(envelope@),
{
    let decision = decision_in(envelope);
    if envelope.at("authorization").is_null() && decision.is_null() {
        return "none — this envelope carries no gate decision".to_owned();
    }
    join5(
        text(decision.at("decision")).as_str(),
        " by ",
        text(decision.at("sig").at("key")).as_str(),
        " at ",
        text(decision.at("decided-at")).as_str(),
    )
}

/// What is left of the evidence of an envelope: nothing it commits to, its bytes, or the hash
/// alone, which remains the commitment.
pub open spec fn payload_line(hash: Option<Seq<char>>, found: Option<(String, Vec<u8>)>) -> Seq<char> {
    match hash {
        None => NOTHING@,
        Some(_) => match found {
            Some((media_type, bytes)) => decimal(bytes@.len()) + " bytes, "@ + media_type@,
            None => "decayed — the payload has been deleted; the hash remains the commitment"@,
        },
    }
}

fn record_for(s: &Stored, envelope: &Json) -> (r: Json)
    ensures
        r@ == record_of(*s, envelope@),
{
    let effective = match &s.effective_class {
        Some(t) => crate::json::text(t.as_str()),
        None => Json::Null,
    };
    let human = match &s.human_root {
        Some(t) => crate::json::text(t.as_str()),
        None => Json::Null,
    };
    let violation = match &s.policy_violation {
        Some(t) => crate::json::text(t.as_str()),
        None => Json::Null,
    };
    let mut out: Vec<(String, Json)> = Vec::new();
    out.push(member("effective-class", effective));
    out.push(member("envelope", envelope.copy()));
    out.push(member("human-root", human));
    out.push(member("id", crate::json::text(s.id.as_str())));
    out.push(member("policy-violation", violation));
    assert(member_docs(out@) =~= record_of(*s, envelope@)->Record_0);
    record(out)
}

/// What is said of an identifier that nothing has.
pub const NO_ENVELOPE: &'static str = "Nothing in this store has that id. An audit citation that does not resolve is itself worth investigating.";

/// Whether a page shows an envelope, given the walk from its mandate up and what is left of its
/// evidence.
pub open spec fn is_envelope_page(
    p: EnvelopePage,
    s: Stored,
    envelope: Doc,
    ancestry: Seq<(String, Json)>,
    payload: Option<(String, Vec<u8>)>,
) -> bool {
    let evidence = envelope.at("evidence"@);
    &&& is_row(p.r, record_of(s, envelope))
    &&& p.received_at@ == s.received_at@
    &&& p.prev_hash@ == shown(envelope.at("prev-hash"@))
    &&& p.subject_key@ == shown(envelope.at("identity"@).at("key"@))
    &&& p.proposed_class@ == shown(envelope.at("classification"@))
    &&& p.authorization@ == authorization_line(envelope)
    &&& match envelope.text_at("mandate-ref"@) {
        Some(m) => are_links(p.chain@, chain_from(ancestry, Some(m), ancestry.len())),
        None => p.chain@.len() == 0,
    }
    &&& p.evidence_schema@ == shown(evidence.at("schema"@))
    &&& p.evidence_media_type@ == shown(evidence.at("media-type"@))
    &&& p.evidence_hash@ == shown(evidence.at("payload-hash"@))
    &&& p.evidence_retain_until@ == shown(evidence.at("retain-until"@))
    &&& p.payload_state@ == payload_line(evidence.text_at("payload-hash"@), payload)
    &&& p.payload_preview@ == match payload {
        Some((_, bytes)) => if evidence.text_at("payload-hash"@) is Some {
            preview_shown(lossy_text(bytes@), spread(lossy_text(bytes@)))
        } else {
            Seq::empty()
        },
        None => Seq::empty(),
    }
    &&& p.canonical_json@ == s.canonical_json@
}

/// One envelope, as a page. The mandates above its own and its payload are asked of the store only
/// where it cites a mandate and commits to a payload.
pub fn envelope(
    found: &Result<Option<Stored>, Error>,
    ancestry: &Result<Vec<(String, Json)>, Error>,
    payload: &Result<Option<(String, Vec<u8>)>, Error>,
) -> (r: Result<EnvelopePage, Notice>)
    ensures
        match found {
            Err(_) => r matches Err(n) && n@ == outage(),
            Ok(None) => r matches Err(n) && n@ == (Said {
                status: 404,
                title: "No such envelope"@,
                detail: NO_ENVELOPE@,
            }),
            Ok(Some(s)) => match s.envelope {
                Err(_) => r matches Err(n) && n@ == outage(),
                Ok(e) => if e@.text_at("mandate-ref"@) is Some && ancestry is Err {
                    r matches Err(n) && n@ == outage()
                } else if e@.at("evidence"@).text_at("payload-hash"@) is Some && payload is Err {
                    r matches Err(n) && n@ == outage()
                } else {
                    r matches Ok(p) && is_envelope_page(
                        p,
                        *s,
                        e@,
                        match ancestry {
                            Ok(a) => a@,
                            Err(_) => Seq::empty(),
                        },
                        match payload {
                            Ok(b) => *b,
                            Err(_) => None,
                        },
                    )
                },
            },
        },
{
    let s = match found {
        Ok(Some(s)) => s,
        Ok(None) => {
            return Err(
                Notice {
                    status: 404,
                    title: "No such envelope".to_owned(),
                    detail: NO_ENVELOPE.to_owned(),
                },
            );
        },
        Err(_) => {
            return Err(unavailable());
        },
    };
    let document = match &s.envelope {
        Ok(e) => e,
        Err(_) => {
            return Err(unavailable());
        },
    };
    let chain: Vec<ChainLink> = match document.text_at("mandate-ref") {
        Some(m) => match ancestry {
            Ok(a) => chain_links(a, m),
            Err(_) => {
                return Err(unavailable());
            },
        },
        None => Vec::new(),
    };
    let evidence = document.at("evidence");
    let (payload_state, payload_preview) = match evidence.text_at("payload-hash") {
        None => (NOTHING.to_owned(), String::new()),
        Some(_) => match payload {
            Err(_) => {
                return Err(unavailable());
            },
            Ok(Some((media_type, bytes))) => (
                join3(
                    decimal_text(bytes.len() as u64).as_str(),
                    " bytes, ",
                    media_type.as_str(),
                ),
                preview(bytes.as_slice()),
            ),
            Ok(None) => (
                "decayed — the payload has been deleted; the hash remains the commitment".to_owned(),
                String::new(),
            ),
        },
    };
    Ok(
        EnvelopePage {
            received_at: s.received_at.clone(),
            prev_hash: text(document.at("prev-hash")),
            subject_key: text(document.at("identity").at("key")),
            proposed_class: text(document.at("classification")),
            authorization: authorization_of(document),
            chain,
            evidence_schema: text(evidence.at("schema")),
            evidence_media_type: text(evidence.at("media-type")),
            evidence_hash: text(evidence.at("payload-hash")),
            evidence_retain_until: text(evidence.at("retain-until")),
            payload_state,
            payload_preview,
            canonical_json: s.canonical_json.clone(),
            r: row(&record_for(s, document)),
        },
    )
}

// -- laws -------------------------------------------------------------------------------------

/// Whether some names are in dictionary order, each once.
pub open spec fn ordered(names: Seq<Seq<char>>) -> bool {
    forall|i: int, j: int|
        0 <= i < j < names.len() ==> precedes(#[trigger] names[i], #[trigger] names[j])
}

/// A name is put where it belongs: what was in order stays in order, and nothing else comes in.
proof fn lemma_placed_is_ordered(names: Seq<Seq<char>>, name: Seq<char>)
    requires
        ordered(names),
    ensures
        ordered(placed(names, name)),
        forall|i: int|
            0 <= i < placed(names, name).len() ==> #[trigger] placed(names, name)[i] == name
                || names.contains(placed(names, name)[i]),
    decreases names.len(),
{
    let after = placed(names, name);
    if names.len() == 0 || names[0] == name {
        assert forall|i: int| 0 <= i < after.len() implies #[trigger] after[i] == name
            || names.contains(after[i]) by {}
    } else if precedes(name, names[0]) {
        assert forall|i: int, j: int| 0 <= i < j < after.len() implies precedes(
            #[trigger] after[i],
            #[trigger] after[j],
        ) by {
            assert(after[j] == names[j - 1]);
            if i > 0 {
                assert(after[i] == names[i - 1]);
            } else if j > 1 {
                lemma_precedes_is_transitive(name, names[0], names[j - 1]);
            }
        }
        assert forall|i: int| 0 <= i < after.len() implies #[trigger] after[i] == name
            || names.contains(after[i]) by {
            if i > 0 {
                assert(after[i] == names[i - 1]);
            }
        }
    } else {
        let rest = names.drop_first();
        let tail = placed(rest, name);
        assert forall|i: int, j: int| 0 <= i < j < rest.len() implies precedes(
            #[trigger] rest[i],
            #[trigger] rest[j],
        ) by {
            assert(rest[i] == names[i + 1] && rest[j] == names[j + 1]);
        }
        lemma_placed_is_ordered(rest, name);
        lemma_precedes_is_total(name, names[0]);
        assert forall|i: int| 0 <= i < tail.len() implies precedes(names[0], #[trigger] tail[i])
            && (tail[i] == name || names.contains(tail[i])) by {
            if tail[i] != name {
                let k = choose|k: int| 0 <= k < rest.len() && rest[k] == tail[i];
                assert(rest[k] == names[k + 1]);
            }
        }
        assert forall|i: int, j: int| 0 <= i < j < after.len() implies precedes(
            #[trigger] after[i],
            #[trigger] after[j],
        ) by {
            assert(after[j] == tail[j - 1]);
            if i > 0 {
                assert(after[i] == tail[i - 1]);
            }
        }
        assert forall|i: int| 0 <= i < after.len() implies #[trigger] after[i] == name
            || names.contains(after[i]) by {
            if i > 0 {
                assert(after[i] == tail[i - 1]);
            }
        }
    }
}

/// Names that are ignored are listed in dictionary order, each once however often it was given.
pub proof fn lemma_strangers_are_ordered(
    params: Seq<(String, String)>,
    format_too: bool,
    upto: int,
)
    requires
        0 <= upto <= params.len(),
    ensures
        ordered(strangers(params, format_too, upto)),
    decreases upto,
{
    if upto > 0 {
        lemma_strangers_are_ordered(params, format_too, upto - 1);
        lemma_placed_is_ordered(
            strangers(params, format_too, upto - 1),
            params[upto - 1].0@,
        );
    }
}

/// An export never silently widens: where a parameter names no filter, nothing is exported.
pub proof fn lemma_exports_do_not_widen(params: Seq<(String, String)>, i: int)
    requires
        0 <= i < params.len(),
        !is_filter(params[i].0@, true),
    ensures
        export_refusal(params) is Some,
{
    lemma_a_stranger_is_listed(params, i, params.len() as int);
}

proof fn lemma_a_stranger_is_listed(params: Seq<(String, String)>, i: int, upto: int)
    requires
        0 <= i < upto <= params.len(),
        !is_filter(params[i].0@, true),
    ensures
        strangers(params, true, upto).len() > 0,
    decreases upto,
{
    if i < upto - 1 {
        lemma_a_stranger_is_listed(params, i, upto - 1);
    }
}

/// The lines of an export stand in the body in their order, whatever batches they came in.
pub proof fn lemma_batches_join(a: Seq<Seq<char>>, b: Seq<Seq<char>>)
    ensures
        body_of(a + b) == body_of(a) + body_of(b),
    decreases b.len(),
{
    if b.len() == 0 {
        assert(a + b =~= a);
        assert(body_of(a) + Seq::<char>::empty() =~= body_of(a));
    } else {
        lemma_batches_join(a, b.drop_last());
        assert((a + b).drop_last() =~= a + b.drop_last());
        assert((a + b).last() == b.last());
        assert(body_of(a + b) =~= body_of(a) + body_of(b));
    }
}

proof fn lemma_standing_stream(
    streams: Seq<(Json, StreamStatus)>,
    status: StreamStatus,
    upto: int,
    i: int,
)
    requires
        0 <= i < upto <= streams.len(),
        streams[i].1 == status,
    ensures
        standing(streams, status, upto).contains(streams[i].0@),
    decreases upto,
{
    let before = standing(streams, status, upto - 1);
    let out = standing(streams, status, upto);
    if i < upto - 1 {
        lemma_standing_stream(streams, status, upto - 1, i);
        let k = choose|k: int| 0 <= k < before.len() && before[k] == streams[i].0@;
        assert(out[k] == streams[i].0@);
    } else {
        assert(out[before.len() as int] == streams[i].0@);
    }
}

proof fn lemma_stream_stands(
    streams: Seq<(Json, StreamStatus)>,
    status: StreamStatus,
    upto: int,
    k: int,
) -> (r: int)
    requires
        0 <= upto <= streams.len(),
        0 <= k < standing(streams, status, upto).len(),
    ensures
        0 <= r < upto,
        streams[r].1 == status,
        streams[r].0@ == standing(streams, status, upto)[k],
    decreases upto,
{
    let before = standing(streams, status, upto - 1);
    if k < before.len() {
        lemma_stream_stands(streams, status, upto - 1, k)
    } else {
        upto - 1
    }
}

/// The streams shown under a status are all those that have it, wherever they stand, and no others.
pub proof fn lemma_which_streams_stand(
    streams: Seq<(Json, StreamStatus)>,
    status: StreamStatus,
    d: Doc,
)
    ensures
        standing(streams, status, streams.len() as int).contains(d) <==> exists|i: int|
            0 <= i < streams.len() && (#[trigger] streams[i]).1 == status && streams[i].0@ == d,
{
    let n = streams.len() as int;
    let out = standing(streams, status, n);
    if out.contains(d) {
        let k = choose|k: int| 0 <= k < out.len() && out[k] == d;
        let i = lemma_stream_stands(streams, status, n, k);
        assert(streams[i].1 == status);
    }
    assert forall|i: int|
        0 <= i < streams.len() && (#[trigger] streams[i]).1 == status && streams[i].0@
            == d implies out.contains(d) by {
        lemma_standing_stream(streams, status, n, i);
    }
}

/// The filters there are, and the format where an export is asked for.
pub proof fn lemma_which_filters_there_are(name: Seq<char>, format_too: bool)
    ensures
        is_filter(name, format_too) <==> {
            ||| name == "subject"@
            ||| name == "mandate-ref"@
            ||| name == "mandate-subtree-of"@
            ||| name == "classification"@
            ||| name == "kind"@
            ||| name == "action"@
            ||| name == "component"@
            ||| name == "stream"@
            ||| name == "outcome"@
            ||| name == "human-root"@
            ||| name == "commitment-id"@
            ||| name == "correlation-ref"@
            ||| name == "emitted-from"@
            ||| name == "emitted-to"@
            ||| name == "limit"@
            ||| name == "violations-only"@
            ||| name == "after"@
            ||| format_too && name == "format"@
        },
{
    let names = EXPORT_FILTERS@;
    assert(names[0]@ == "subject"@);
    assert(names[1]@ == "mandate-ref"@);
    assert(names[2]@ == "mandate-subtree-of"@);
    assert(names[3]@ == "classification"@);
    assert(names[4]@ == "kind"@);
    assert(names[5]@ == "action"@);
    assert(names[6]@ == "component"@);
    assert(names[7]@ == "stream"@);
    assert(names[8]@ == "outcome"@);
    assert(names[9]@ == "human-root"@);
    assert(names[10]@ == "commitment-id"@);
    assert(names[11]@ == "correlation-ref"@);
    assert(names[12]@ == "emitted-from"@);
    assert(names[13]@ == "emitted-to"@);
    assert(names[14]@ == "limit"@);
    assert(names[15]@ == "violations-only"@);
    assert(names[16]@ == "after"@);
}

proof fn lemma_placed(names: Seq<Seq<char>>, name: Seq<char>, other: Seq<char>)
    ensures
        placed(names, name).contains(other) <==> other == name || names.contains(other),
    decreases names.len(),
{
    let out = placed(names, name);
    if names.len() == 0 {
        assert(out[0] == name);
    } else if names[0] == name {
        assert(names.contains(names[0]));
    } else if precedes(name, names[0]) {
        assert(out[0] == name);
        if names.contains(other) {
            let k = choose|k: int| 0 <= k < names.len() && names[k] == other;
            assert(out[k + 1] == other);
        }
        if out.contains(other) {
            let k = choose|k: int| 0 <= k < out.len() && out[k] == other;
            if k > 0 {
                assert(names[k - 1] == other);
            }
        }
    } else {
        let rest = names.drop_first();
        let after = placed(rest, name);
        lemma_placed(rest, name, other);
        assert(out == seq![names[0]] + after);
        assert(out[0] == names[0]);
        if after.contains(other) {
            let k = choose|k: int| 0 <= k < after.len() && after[k] == other;
            assert(out[k + 1] == other);
        }
        if names.contains(other) {
            let k = choose|k: int| 0 <= k < names.len() && names[k] == other;
            if k > 0 {
                assert(rest[k - 1] == other);
            }
        }
        if rest.contains(other) {
            let k = choose|k: int| 0 <= k < rest.len() && rest[k] == other;
            assert(names[k + 1] == other);
        }
        if out.contains(other) {
            let k = choose|k: int| 0 <= k < out.len() && out[k] == other;
            if k > 0 {
                assert(after[k - 1] == other);
            }
        }
    }
}

/// What is reported as unknown is every parameter, wherever it stands, that is no filter, and nothing
/// else.
pub proof fn lemma_which_parameters_are_strange(
    params: Seq<(String, String)>,
    format_too: bool,
    upto: int,
    name: Seq<char>,
)
    requires
        0 <= upto <= params.len(),
    ensures
        strangers(params, format_too, upto).contains(name) <==> !is_filter(name, format_too)
            && exists|i: int| 0 <= i < upto && (#[trigger] params[i]).0@ == name,
    decreases upto,
{
    if upto > 0 {
        let here = params[upto - 1].0@;
        lemma_which_parameters_are_strange(params, format_too, upto - 1, name);
        if !is_filter(here, format_too) {
            lemma_placed(strangers(params, format_too, upto - 1), here, name);
        }
        if here == name {
            assert(params[upto - 1].0@ == name);
        }
    }
}

/// An export is made exactly where every parameter is a filter or the format, and the format is one
/// of two; without one it is lines of JSON.
pub proof fn lemma_which_exports_are_made(params: Seq<(String, String)>)
    ensures
        export_refusal(params) is None <==> {
            &&& forall|i: int| 0 <= i < params.len() ==> is_filter((#[trigger] params[i]).0@, true)
            &&& {
                ||| param_of(params, "format"@) is None
                ||| param_of(params, "format"@) == Some("ndjson"@)
                ||| param_of(params, "format"@) == Some("html"@)
            }
        },
        export_refusal(params) matches Some(said) ==> said.status == 400,
{
    let formats = EXPORT_FORMATS@;
    assert(formats[0]@ == "ndjson"@);
    assert(formats[1]@ == "html"@);
    let n = params.len() as int;
    let unknown = strangers(params, true, n);
    if unknown.len() > 0 {
        assert(unknown.contains(unknown[0]));
        lemma_which_parameters_are_strange(params, true, n, unknown[0]);
    }
    assert forall|i: int|
        0 <= i < params.len() && !is_filter((#[trigger] params[i]).0@, true) implies unknown.len()
        > 0 by {
        lemma_which_parameters_are_strange(params, true, n, params[i].0@);
        let k = choose|k: int| 0 <= k < unknown.len() && unknown[k] == params[i].0@;
        assert(0 <= k < unknown.len());
    }
}

/// There is a next page exactly where this one is full and has a last row to go on from.
pub proof fn lemma_when_there_is_a_next_page(f: Filters, shown_rows: int, last: Option<Seq<char>>)
    ensures
        next_page(f, shown_rows, last) is Some <==> last is Some && shown_rows == held(
            number_of(Some(f.limit@), 200),
            1,
            10_000,
        ),
        next_page(f, shown_rows, last) matches Some(link) ==> link == next_link(f, last->0),
{
}

/// A link to the next page carries the filters of this one and goes on behind its last row.
pub proof fn lemma_where_the_next_page_goes_on(f: Filters, after: Seq<char>)
    ensures
        ({
            let query = joined(page_parts(f), "&"@);
            &&& query.len() == 0 ==> next_link(f, after) == "/console/audit?after="@
                + percent_encoded(after)
            &&& query.len() > 0 ==> next_link(f, after) == "/console/audit?"@ + query + "&after="@
                + percent_encoded(after)
        }),
{
}

/// An export is its lines, one after the other, each ended.
pub proof fn lemma_what_an_export_holds(lines: Seq<Seq<char>>, line: Seq<char>)
    ensures
        body_of(Seq::empty()) == Seq::<char>::empty(),
        body_of(lines.push(line)) == body_of(lines) + line + "\n"@,
{
    assert(lines.push(line).drop_last() =~= lines);
}

/// Mandates are counted by their state one by one.
pub proof fn lemma_every_mandate_counts(rows: Seq<MandateRow>, state: Seq<char>, upto: int)
    requires
        0 <= upto <= rows.len(),
    ensures
        in_state(rows, state, upto) == 0 <==> forall|i: int|
            0 <= i < upto ==> (#[trigger] rows[i]).state@ != state,
        0 <= in_state(rows, state, upto) <= upto,
        in_state(rows, state, upto) == upto <==> forall|i: int|
            0 <= i < upto ==> (#[trigger] rows[i]).state@ == state,
    decreases upto,
{
    if upto > 0 {
        lemma_every_mandate_counts(rows, state, upto - 1);
        assert(rows[upto - 1].state@ == rows[upto - 1].state@);
    }
}

/// A stream is attested exactly where its last checkpoint names the head that it has.
pub proof fn lemma_when_a_head_is_attested(report: Doc)
    ensures
        attests_head(report) <==> report.at("head-hash"@) is Text && report.at(
            "last-checkpoint"@,
        ).at("head-hash"@) == report.at("head-hash"@),
{
}

/// A subject is at its cap once it has parked as many as the cap, and one of which nothing is known
/// has parked none.
pub proof fn lemma_when_a_cap_is_reached(n: int, cap: int)
    requires
        0 <= n <= u64::MAX,
    ensures
        at_cap(Doc::Int(n), cap) <==> n >= cap,
        cap > 0 ==> !at_cap(Doc::Null, cap),
{
}

/// Only what the console itself writes is said back: one of two verdicts, and the digest of an
/// envelope.
pub proof fn lemma_what_is_said_back(params: Seq<(String, String)>)
    ensures
        verdict_said(params).len() > 0 ==> verdict_said(params) == "approve"@ || verdict_said(params)
            == "deny"@,
        param_of(params, "verdict"@) == Some("approve"@) ==> verdict_said(params) == "approve"@,
        param_of(params, "verdict"@) == Some("deny"@) ==> verdict_said(params) == "deny"@,
        envelope_said(params).len() > 0 ==> is_digest(envelope_said(params)),
        param_of(params, "recorded"@) matches Some(id) ==> is_digest(id) ==> envelope_said(params)
            == id,
{
}

/// A page of a verification says that the stream is valid exactly where it verified, and then with
/// nothing wrong, or else with what is.
pub proof fn lemma_what_a_verification_page_says(
    p: VerifyPage,
    stream: Seq<char>,
    report: Result<Json, Error>,
)
    requires
        is_verify_page(p, stream, report),
    ensures
        p.stream@ == stream,
        p.valid <==> report is Ok,
        report is Ok ==> p.reason_code@.len() == 0 && p.count@ == shown(
            (report->Ok_0)@.at("count"@),
        ) && p.head_hash@ == shown((report->Ok_0)@.at("head-hash"@)) && (p.rooted <==> (
        report->Ok_0)@.at("anchored"@) == Doc::Bool(true)) && (p.attested <==> attests_head(
            (report->Ok_0)@,
        )),
        report is Err ==> p.reason_code@ == (report->Err_0)@.code && p.reason@ == (
        report->Err_0)@.detail && !p.rooted && !p.attested,
{
}

/// What is said of a payload: how large it is and of which type where it is still there, that it has
/// decayed where it is not, and nothing where there never was one.
pub proof fn lemma_what_is_said_of_a_payload(
    hash: Seq<char>,
    media_type: String,
    bytes: Vec<u8>,
)
    ensures
        payload_line(None, Some((media_type, bytes))) == "—"@,
        payload_line(None, None) == "—"@,
        payload_line(Some(hash), Some((media_type, bytes))) == decimal(bytes@.len())
            + " bytes, "@ + media_type@,
        payload_line(Some(hash), None)
            == "decayed — the payload has been deleted; the hash remains the commitment"@,
{
}

/// A record that is shown holds the envelope and what the kernel concluded of it.
pub proof fn lemma_what_a_shown_record_holds(s: Stored, envelope: Doc)
    ensures
        ({
            let d = record_of(s, envelope);
            &&& d->Record_0.len() == 5
            &&& d.get("effective-class"@) == Some(match s.effective_class { Some(t) => Doc::Text(t@), None => Doc::Null })
            &&& d.get("envelope"@) == Some(envelope)
            &&& d.get("human-root"@) == Some(match s.human_root { Some(t) => Doc::Text(t@), None => Doc::Null })
            &&& d.get("id"@) == Some(Doc::Text(s.id@))
            &&& d.get("policy-violation"@) == Some(match s.policy_violation { Some(t) => Doc::Text(t@), None => Doc::Null })
        }),
{
    reveal_strlit("effective-class");
    reveal_strlit("envelope");
    reveal_strlit("human-root");
    reveal_strlit("id");
    reveal_strlit("policy-violation");
    assert("effective-class"@.len() == 15);
    assert("envelope"@.len() == 8);
    assert("human-root"@.len() == 10);
    assert("id"@.len() == 2);
    assert("policy-violation"@.len() == 16);
    let members = record_of(s, envelope)->Record_0;
    crate::json::lemma_lookup_at(members, "effective-class"@, 0);
    crate::json::lemma_lookup_at(members, "envelope"@, 1);
    crate::json::lemma_lookup_at(members, "human-root"@, 2);
    crate::json::lemma_lookup_at(members, "id"@, 3);
    crate::json::lemma_lookup_at(members, "policy-violation"@, 4);
}

/// What is said of an authorization: that there is none where there is none, and otherwise what was
/// decided, by whom and when.
pub proof fn lemma_what_is_said_of_an_authorization(envelope: Doc)
    ensures
        ({
            let decision = carried_decision(envelope);
            if envelope.at("authorization"@) == Doc::Null && decision == Doc::Null {
                authorization_line(envelope) == "none — this envelope carries no gate decision"@
            } else {
                authorization_line(envelope) == shown(decision.at("decision"@)) + " by "@ + shown(
                    decision.at("sig"@).at("key"@),
                ) + " at "@ + shown(decision.at("decided-at"@))
            }
        }),
{
}

/// A page of an envelope shows it whole: its row, its walk from the mandate it names, its evidence
/// and what is left of its payload.
pub proof fn lemma_what_an_envelope_page_shows(
    p: EnvelopePage,
    s: Stored,
    envelope: Doc,
    ancestry: Seq<(String, Json)>,
    payload: Option<(String, Vec<u8>)>,
)
    requires
        is_envelope_page(p, s, envelope, ancestry, payload),
    ensures
        is_row(p.r, record_of(s, envelope)),
        p.received_at@ == s.received_at@,
        p.canonical_json@ == s.canonical_json@,
        p.prev_hash@ == shown(envelope.at("prev-hash"@)),
        p.subject_key@ == shown(envelope.at("identity"@).at("key"@)),
        p.proposed_class@ == shown(envelope.at("classification"@)),
        p.evidence_hash@ == shown(envelope.at("evidence"@).at("payload-hash"@)),
        envelope.at("mandate-ref"@) matches Doc::Text(m) ==> p.chain@.len() == chain_from(
            ancestry,
            Some(m),
            ancestry.len(),
        ).len(),
        !(envelope.at("mandate-ref"@) is Text) ==> p.chain@.len() == 0,
{
}

/// A subject that parks much is shown with how much, and as refused once it is at its cap.
pub proof fn lemma_what_a_spike_row_shows(r: SpikeRow, d: Doc, cap: int)
    requires
        is_spike_row(r, d, cap),
    ensures
        r.subject@ == or_empty(d.text_at("subject"@)),
        r.parked@ == compact(d.at("parked"@)),
        d.at("parked"@) matches Doc::Int(n) ==> 0 <= n <= u64::MAX ==> (r.refused <==> n >= cap),
{
}

} // verus!
