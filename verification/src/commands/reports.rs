//! What `verify`, `conformance` and `await-health` decide.

use vstd::prelude::*;

use crate::arguments::{flag, flag_or, flag_unsigned, parse_u64, value, value_or, words, words_from};
use crate::config::opt_string;
use crate::error::Error;
use crate::json::{compact, Json};
use crate::text::{decimal, decimal_text, join2, join3, join5, texts};

verus! {

// -- verifying a store ------------------------------------------------------------------------

/// What is said of a store that holds no stream: that is no verified chain, but an empty one.
pub const NO_STREAMS: &'static str = "no streams: this store holds no audit trail at all. That is not a verified chain — it is an empty one. If this box has ever run, the records are missing; if it has not, it has not been bootstrapped yet.";

/// The line of one stream.
pub open spec fn stream_line(name: Seq<char>, report: Result<Json, Error>) -> Seq<char> {
    match report {
        Ok(d) => name + ": "@ + compact(d@.at("count"@)) + " envelopes, head "@ + compact(
            d@.at("head-hash"@),
        ) + ", anchored "@ + compact(d@.at("anchored"@)),
        Err(e) => name + ": FAILED "@ + e@.line(),
    }
}

/// The line of the stream of refusals.
pub open spec fn rejections_line(
    name: Seq<char>,
    count: int,
    head: Result<Option<String>, Error>,
) -> Seq<char> {
    match head {
        Ok(h) => name + ": "@ + decimal(count as nat) + " rejection records, head "@
            + match opt_string(h) {
            Some(t) => t,
            None => "-"@,
        },
        Err(e) => "rejection stream: FAILED "@ + e@.line(),
    }
}

/// The lines of some streams, those before a place.
pub open spec fn stream_lines(reports: Seq<(String, Result<Json, Error>)>) -> Seq<Seq<char>> {
    Seq::new(reports.len(), |i: int| stream_line(reports[i].0@, reports[i].1))
}

/// How many streams before a place failed.
pub open spec fn failures(reports: Seq<(String, Result<Json, Error>)>, upto: int) -> int
    decreases upto,
{
    if upto <= 0 {
        0
    } else {
        failures(reports, upto - 1) + if reports[upto - 1].1 is Err {
            1int
        } else {
            0int
        }
    }
}

/// What a verification prints, and what it comes to: what is said at the end, as a success or not.
#[derive(Debug)]
pub struct Verification {
    /// The lines.
    pub lines: Vec<String>,
    /// The last word.
    pub verdict: Result<String, String>,
}

fn line_of(name: &str, report: &Result<Json, Error>) -> (r: String)
    ensures
        r@ == stream_line(name@, *report),
{
    match report {
        Ok(d) => {
            let mut out = join5(
                name,
                ": ",
                d.at("count").to_text().as_str(),
                " envelopes, head ",
                d.at("head-hash").to_text().as_str(),
            );
            out.push_str(", anchored ");
            out.push_str(d.at("anchored").to_text().as_str());
            out
        },
        Err(e) => join3(name, ": FAILED ", e.to_line().as_str()),
    }
}

/// What a verification comes to: every stream that holds envelopes and the stream of refusals are
/// reported, and it succeeds where there is a stream at all and none failed.
pub fn verify(
    reports: &Vec<(String, Result<Json, Error>)>,
    rejection_stream: &str,
    rejections: usize,
    rejection_head: &Result<Option<String>, Error>,
) -> (r: Verification)
    requires
        reports@.len() < usize::MAX,
    ensures
        ({
            let failed = failures(reports@, reports@.len() as int) + if rejection_head is Err {
                1int
            } else {
                0int
            };
            if reports@.len() == 0 {
                &&& r.lines@.len() == 0
                &&& r.verdict matches Err(m) && m@ == NO_STREAMS@
            } else {
                &&& texts(r.lines@) == stream_lines(reports@).push(
                    rejections_line(rejection_stream@, rejections as int, *rejection_head),
                )
                &&& if failed == 0 {
                    r.verdict matches Ok(m) && m@ == "all "@ + decimal(reports@.len())
                        + " streams verify"@
                } else {
                    r.verdict matches Err(m) && m@ == decimal(failed as nat)
                        + " stream(s) failed verification"@
                }
            }
        }),
{
    let mut lines: Vec<String> = Vec::new();
    if reports.len() == 0 {
        return Verification { lines, verdict: Err(NO_STREAMS.to_owned()) };
    }
    let count: usize = reports.len();
    let mut failed: u64 = 0;
    let mut i: usize = 0;
    while i < reports.len()
        invariant
            count == reports@.len(),
            count < usize::MAX,
            i <= reports@.len(),
            lines@.len() == i,
            forall|j: int|
                0 <= j < i ==> (#[trigger] lines@[j])@ == stream_line(
                    reports@[j].0@,
                    reports@[j].1,
                ),
            failed == failures(reports@, i as int),
            failed <= i,
        decreases reports@.len() - i,
    {
        let entry = &reports[i];
        lines.push(line_of(entry.0.as_str(), &entry.1));
        if entry.1.is_err() {
            failed += 1;
        }
        i += 1;
    }
    match rejection_head {
        Ok(head) => {
            let shown = match head {
                Some(h) => h.as_str(),
                None => "-",
            };
            lines.push(
                join5(
                    rejection_stream,
                    ": ",
                    decimal_text(rejections as u64).as_str(),
                    " rejection records, head ",
                    shown,
                ),
            );
        },
        Err(e) => {
            failed += 1;
            lines.push(join2("rejection stream: FAILED ", e.to_line().as_str()));
        },
    }
    assert(texts(lines@) =~= stream_lines(reports@).push(
        rejections_line(rejection_stream@, rejections as int, *rejection_head),
    ));
    let verdict = if failed == 0 {
        Ok(join3("all ", decimal_text(reports.len() as u64).as_str(), " streams verify"))
    } else {
        Err(join2(decimal_text(failed).as_str(), " stream(s) failed verification"))
    };
    Verification { lines, verdict }
}

// -- certifying a component -------------------------------------------------------------------

/// What `conformance` is asked to run.
#[derive(Debug)]
pub struct ConformanceAsk {
    /// Where the manifest lies.
    pub manifest_path: String,
    /// The program of the component, and what it is given.
    pub command: Vec<String>,
    /// Where the corpus lies.
    pub vectors: String,
    /// The instant it runs at; the host's where none is named.
    pub at: Option<String>,
}

/// What `conformance` is asked to run.
pub fn conformance(arguments: &[String]) -> (r: Result<ConformanceAsk, String>)
    ensures
        ({
            let args = texts(arguments@);
            let command = flag(args, "--component"@);
            if flag(args, "--manifest"@) is None || command is None {
                r matches Err(e) && e@
                    == "conformance requires --manifest <path> and --component <command>"@
            } else if words_from(command->0, 0, Seq::empty()).len() == 0 {
                r matches Err(e) && e@ == "--component names no program"@
            } else {
                r matches Ok(a) && {
                    &&& Some(a.manifest_path@) == flag(args, "--manifest"@)
                    &&& texts(a.command@) == words_from(command->0, 0, Seq::empty())
                    &&& a.vectors@ == flag_or(args, "--vectors"@, "spec/vectors"@)
                    &&& opt_string(a.at) == flag(args, "--at"@)
                }
            }
        }),
{
    let (manifest_path, command) = match (
        value(arguments, "--manifest"),
        value(arguments, "--component"),
    ) {
        (Some(m), Some(c)) => (m, c),
        _ => {
            return Err(
                "conformance requires --manifest <path> and --component <command>".to_owned(),
            );
        },
    };
    let parts = words(command);
    if parts.len() == 0 {
        assert(texts(parts@).len() == 0);
        return Err("--component names no program".to_owned());
    }
    assert(texts(parts@).len() != 0);
    Ok(
        ConformanceAsk {
            manifest_path: manifest_path.to_owned(),
            command: parts,
            vectors: value_or(arguments, "--vectors", "spec/vectors").to_owned(),
            at: crate::commands::offline::owned(value(arguments, "--at")),
        },
    )
}

/// Whether a document belongs to a corpus: it declares a kind.
pub fn is_corpus_document(document: &Json) -> (r: bool)
    ensures
        r == (document@.get("kind"@) is Some),
{
    document.get("kind").is_some()
}

// -- waiting for a kernel ---------------------------------------------------------------------

/// How many seconds `await-health` waits.
pub fn health_seconds(arguments: &[String]) -> (r: u64)
    ensures
        r == flag_unsigned(texts(arguments@), "--timeout"@, 60, u64::MAX as int),
{
    match value(arguments, "--timeout") {
        Some(t) => match parse_u64(t) {
            Some(n) => n,
            None => 60,
        },
        None => 60,
    }
}

/// What follows a look at a kernel that is awaited.
#[derive(Debug)]
pub enum Waited {
    /// It is up.
    Up(String),
    /// It is looked at again.
    Again,
    /// It did not come up in time.
    GaveUp(String),
}

/// What follows a look at a kernel that is awaited: it is up where it answers well, and it is
/// looked at once more until the time is over.
pub fn after_look(url: &str, answered: bool, over: bool, seconds: u64) -> (r: Waited)
    ensures
        if answered {
            r matches Waited::Up(s) && s@ == url@ + " is up"@
        } else if over {
            r matches Waited::GaveUp(s) && s@ == url@ + " did not answer /health within "@
                + decimal(seconds as nat) + "s"@
        } else {
            r is Again
        },
{
    if answered {
        return Waited::Up(join2(url, " is up"));
    }
    if over {
        return Waited::GaveUp(
            crate::text::join4(
                url,
                " did not answer /health within ",
                decimal_text(seconds).as_str(),
                "s",
            ),
        );
    }
    Waited::Again
}

// -- laws -------------------------------------------------------------------------------------

/// A failed stream is never reported as a verified store, wherever it stands.
pub proof fn lemma_failures_are_counted(
    reports: Seq<(String, Result<Json, Error>)>,
    upto: int,
    i: int,
)
    requires
        0 <= i < upto <= reports.len(),
        reports[i].1 is Err,
    ensures
        failures(reports, upto) > 0,
    decreases upto,
{
    lemma_failures_are_natural(reports, upto - 1);
    if i < upto - 1 {
        lemma_failures_are_counted(reports, upto - 1, i);
    }
}

proof fn lemma_failures_are_natural(reports: Seq<(String, Result<Json, Error>)>, upto: int)
    ensures
        failures(reports, upto) >= 0,
    decreases upto,
{
    if upto > 0 {
        lemma_failures_are_natural(reports, upto - 1);
    }
}

/// Failures are counted one by one: none exactly where every stream verifies, and one more with each
/// that does not.
pub proof fn lemma_every_failure_counts(reports: Seq<(String, Result<Json, Error>)>, upto: int)
    requires
        0 <= upto <= reports.len(),
    ensures
        failures(reports, upto) == 0 <==> forall|i: int|
            0 <= i < upto ==> (#[trigger] reports[i]).1 is Ok,
        0 <= failures(reports, upto) <= upto,
        upto < reports.len() ==> failures(reports, upto + 1) == failures(reports, upto) + if (
        reports[upto].1 is Err) {
            1int
        } else {
            0
        },
    decreases upto,
{
    if upto > 0 {
        lemma_every_failure_counts(reports, upto - 1);
        assert(reports[upto - 1].1 == reports[upto - 1].1);
    }
}

} // verus!
