//! The groups that need the component to act: aggregation, refusals and work done offline.
//!
//! Each is a function from what has come back so far to the next move: what to ask the component,
//! what to submit, where to look, or what to conclude.

use vstd::prelude::*;

use crate::codes::STORE_UNAVAILABLE;
use crate::conformance::declared::{capped, texts_among, texts_of};
use crate::conformance::vectors::{answer_error, complaint};
use crate::conformance::{failed, Grade, GroupResult};
use crate::error::{fault, Error, Fault};
use crate::documents::{extend, extended};
use crate::ingest::submission::{Head, Outcome};
use crate::json::{
    compact, docs, is_text, list, member, member_docs, record, text, Doc, Json,
};
use crate::manifest::Manifest;
use crate::text::{
    debug_list, debug_text, decimal, decimal_text, join2, join3, join4, join5, quoted, quoted_list,
    same, texts,
};

verus! {

// -- moves ------------------------------------------------------------------------------------

/// What the kernel did with one submission. An outage is no verdict on a component.
#[derive(Debug)]
pub enum Verdict {
    /// It was accepted.
    Accepted,
    /// It was refused.
    Rejected {
        /// The reason code.
        reason: String,
        /// The detail.
        detail: String,
    },
}

/// What the kernel did with one submission, or that it could not answer.
pub fn verdict_of(outcome: &Outcome) -> (r: Result<Verdict, Error>)
    ensures
        match *outcome {
            Outcome::Accepted(_) => r matches Ok(Verdict::Accepted),
            Outcome::Rejected { reason, detail, .. } => r matches Ok(
                Verdict::Rejected { reason: a, detail: b },
            ) && a@ == reason@ && b@ == detail@,
            Outcome::Unavailable(detail) => r matches Err(e) && e@ == fault(
                STORE_UNAVAILABLE@,
                detail@,
            ),
        },
{
    match outcome {
        Outcome::Accepted(_) => Ok(Verdict::Accepted),
        Outcome::Rejected { reason, detail, .. } => Ok(
            Verdict::Rejected { reason: reason.clone(), detail: detail.clone() },
        ),
        Outcome::Unavailable(detail) => Err(Error::new(STORE_UNAVAILABLE, detail.clone())),
    }
}

/// The next move of a group.
#[derive(Debug)]
pub enum Move {
    /// Ask the component this.
    Ask(Json),
    /// Submit this, as this caller.
    Submit(Json, String),
    /// Look at the head of this stream.
    Look(String),
    /// The group concludes.
    Conclude(GroupResult),
    /// The kernel could not answer: nothing is concluded of the component.
    Fail(Error),
}

/// The next move of a group.
pub enum Motion {
    /// Ask the component this.
    Ask(Doc),
    /// Submit this, as this caller.
    Submit(Doc, Seq<char>),
    /// Look at the head of this stream.
    Look(Seq<char>),
    /// The group concludes.
    Conclude(Grade),
    /// The kernel could not answer.
    Fail(Fault),
}

impl View for Move {
    type V = Motion;

    open spec fn view(&self) -> Motion {
        match *self {
            Move::Ask(d) => Motion::Ask(d@),
            Move::Submit(d, caller) => Motion::Submit(d@, caller@),
            Move::Look(stream) => Motion::Look(stream@),
            Move::Conclude(g) => Motion::Conclude(g@),
            Move::Fail(e) => Motion::Fail(e@),
        }
    }
}

fn conclude_failed(detail: String) -> (r: Move)
    ensures
        r@ == Motion::Conclude(Grade::Failed(detail@)),
{
    Move::Conclude(failed(detail))
}

/// The caller as whom a component's submissions are made.
pub const CONFORMANCE_CALLER: &'static str = "agent:conformance";

/// What came of a part of a group.
pub enum Stage {
    /// It held, with so many checks in all.
    Held(int),
    /// The component failed it.
    Broke(Seq<char>),
    /// The submission at this place is to be made next.
    Next(int),
    /// The kernel could not answer.
    Outage(Fault),
}

/// What came of a part of a group.
enum Part {
    Held(u32),
    Broke(String),
    Next(usize),
    Outage(Error),
}

/// Whether a part came out as a stage, with a count as far as it can be reported.
spec fn comes_to(p: Part, stage: Stage) -> bool {
    match stage {
        Stage::Held(n) => p matches Part::Held(v) && v == capped(n) && n >= 0,
        Stage::Broke(why) => p matches Part::Broke(s) && s@ == why,
        Stage::Next(i) => p matches Part::Next(v) && v == i,
        Stage::Outage(f) => p matches Part::Outage(e) && e@ == f,
    }
}

// -- aggregation ------------------------------------------------------------------------------

/// The read actions some declarations, up to a place, say how to fold: each with how many samples
/// it keeps at most.
pub open spec fn folded_reads(declarations: Seq<Doc>, upto: int) -> Seq<(Seq<char>, int)>
    decreases upto,
{
    if upto <= 0 {
        Seq::empty()
    } else {
        let before = folded_reads(declarations, upto - 1);
        let d = declarations[upto - 1];
        let action = d.text_at("action"@);
        let most = d.at("aggregate"@).at("max-samples"@).as_u64();
        if d.text_at("class"@) == Some("read"@) && action is Some && most is Some {
            before.push((action->0, most->0))
        } else {
            before
        }
    }
}

/// What some read actions stand for.
pub open spec fn reads_of(reads: Seq<(String, u64)>) -> Seq<(Seq<char>, int)> {
    Seq::new(reads.len(), |i: int| (reads[i].0@, reads[i].1 as int))
}

/// The read actions a manifest says how to fold.
pub fn read_actions(manifest: &Manifest) -> (r: Vec<(String, u64)>)
    ensures
        reads_of(r@) == folded_reads(
            manifest.doc().at("actions"@).items(),
            manifest.doc().at("actions"@).items().len() as int,
        ),
{
    let mut out: Vec<(String, u64)> = Vec::new();
    assert(reads_of(out@) =~= Seq::empty());
    match manifest.document().at("actions").as_list() {
        None => {},
        Some(declarations) => {
            let mut i: usize = 0;
            while i < declarations.len()
                invariant
                    i <= declarations@.len(),
                    reads_of(out@) == folded_reads(docs(declarations@), i as int),
                decreases declarations@.len() - i,
            {
                let d = &declarations[i];
                let ghost before = reads_of(out@);
                if is_text(d.at("class"), "read") {
                    if let Some(action) = d.text_at("action") {
                        if let Some(most) = d.at("aggregate").at("max-samples").as_u64() {
                            out.push((action.to_owned(), most));
                            assert(reads_of(out@) =~= before.push((action@, most as int)));
                        }
                    }
                }
                i += 1;
            }
        },
    }
    out
}

/// How many calls are driven: one more than the samples kept at most.
pub open spec fn calls_for(most: int) -> int {
    if most >= u64::MAX {
        u64::MAX as int
    } else {
        most + 1
    }
}

/// What a component is asked to do for a read action.
pub open spec fn emit_request(context: Doc, action: Seq<char>, calls: int) -> Doc {
    Doc::Record(
        seq![
            ("action"@, Doc::Text(action)),
            ("case"@, Doc::Text("emit"@)),
            ("context"@, context),
            ("count"@, Doc::Int(calls)),
        ],
    )
}

/// What is folded so far: how many aggregation records, how many calls they account for, and how
/// many checks passed in all.
pub struct Folding {
    /// The aggregation records.
    pub records: int,
    /// The calls they account for.
    pub calls: int,
    /// The checks.
    pub checks: int,
}

/// What is wrong with an aggregation record: it samples nothing or more than was declared, or it
/// cites what the run did not grant.
pub open spec fn record_fault(env: Doc, action: Seq<char>, most: int, context: Doc) -> Option<
    Seq<char>,
> {
    let samples = env.at("sample-hashes"@).items().len() as int;
    if samples == 0 || samples > most {
        Some(
            action + " sampled "@ + decimal(samples as nat)
                + " calls against its declared max-samples of "@ + decimal(most as nat),
        )
    } else if env.at("mandate-ref"@) != context.at("mandate-ref"@) || env.at("policy-version"@)
        != context.at("policy-version"@) {
        Some(
            "the aggregation record for "@ + action
                + " cites a mandate or policy version the run did not grant"@,
        )
    } else {
        None
    }
}

/// What came of submitting what a component emitted for a read action, from a place on, with the
/// verdicts from another place on.
pub open spec fn folding_stage(
    submissions: Seq<Doc>,
    read: (Seq<char>, int),
    context: Doc,
    verdicts: Seq<Result<Verdict, Error>>,
    from: int,
    first: int,
    so_far: Folding,
) -> Stage
    decreases submissions.len() - from,
{
    let (action, most) = read;
    if from >= submissions.len() {
        if so_far.records == 0 {
            Stage::Broke(
                decimal(calls_for(most) as nat) + " calls to "@ + action
                    + " produced no aggregation record: the component itemized a window it declared it would fold"@,
            )
        } else if so_far.calls != calls_for(most) {
            Stage::Broke(
                "the aggregation records for "@ + action + " account for "@ + decimal(
                    so_far.calls as nat,
                ) + " calls where the harness drove "@ + decimal(calls_for(most) as nat),
            )
        } else {
            Stage::Held(so_far.checks + 1)
        }
    } else if first + from >= verdicts.len() {
        Stage::Next(from)
    } else {
        let env = submissions[from].at("envelope"@);
        match verdicts[first + from] {
            Err(e) => Stage::Outage(e@),
            Ok(Verdict::Rejected { reason, detail }) => Stage::Broke(
                "an aggregation submission for "@ + action + " was rejected "@ + reason@ + ": "@
                    + detail@,
            ),
            Ok(Verdict::Accepted) => if env.text_at("kind"@) != Some("aggregate"@) {
                folding_stage(submissions, read, context, verdicts, from + 1, first, so_far)
            } else if let Some(why) = record_fault(env, action, most, context) {
                Stage::Broke(why)
            } else {
                folding_stage(
                    submissions,
                    read,
                    context,
                    verdicts,
                    from + 1,
                    first,
                    Folding {
                        records: so_far.records + 1,
                        calls: so_far.calls + folded_calls(env, action),
                        checks: so_far.checks + 2,
                    },
                )
            },
        }
    }
}

/// How many calls of an action an aggregation record accounts for.
pub open spec fn folded_calls(env: Doc, action: Seq<char>) -> int {
    match env.at("counts"@).at("by-action"@).at(action).as_u64() {
        Some(n) => n,
        None => 0,
    }
}

/// The next move for the read actions from a place on, with the verdicts from another place on and
/// so many checks passed.
pub open spec fn aggregation_motion(
    reads: Seq<(Seq<char>, int)>,
    context: Doc,
    answers: Seq<Result<Json, String>>,
    verdicts: Seq<Result<Verdict, Error>>,
    from: int,
    first: int,
    checks: int,
) -> Motion
    decreases reads.len() - from,
{
    if from >= reads.len() {
        Motion::Conclude(Grade::Passed(capped(checks)))
    } else {
        let (action, most) = reads[from];
        let calls = calls_for(most);
        if from >= answers.len() {
            Motion::Ask(emit_request(context, action, calls))
        } else {
            match answers[from] {
                Err(e) => Motion::Conclude(
                    Grade::Failed("the component could not be driven for "@ + action + ": "@ + e@),
                ),
                Ok(answer) => {
                    let submissions = answer@.at("submissions"@).items();
                    if let Some(why) = complaint(answer@) {
                        Motion::Conclude(Grade::Failed(why))
                    } else if submissions.len() == 0 {
                        Motion::Conclude(
                            Grade::Failed(
                                "the component emitted nothing for "@ + decimal(calls as nat)
                                    + " calls to "@ + action,
                            ),
                        )
                    } else {
                        match folding_stage(
                            submissions,
                            reads[from],
                            context,
                            verdicts,
                            0,
                            first,
                            Folding { records: 0, calls: 0, checks },
                        ) {
                            Stage::Next(i) => Motion::Submit(submissions[i], CONFORMANCE_CALLER@),
                            Stage::Broke(why) => Motion::Conclude(Grade::Failed(why)),
                            Stage::Outage(f) => Motion::Fail(f),
                            Stage::Held(n) => aggregation_motion(
                                reads,
                                context,
                                answers,
                                verdicts,
                                from + 1,
                                first + submissions.len(),
                                n,
                            ),
                        }
                    }
                },
            }
        }
    }
}

/// The next move of the aggregation group. A component with no read action satisfies it by having
/// none.
pub open spec fn aggregation_next(
    d: Doc,
    context: Doc,
    answers: Seq<Result<Json, String>>,
    verdicts: Seq<Result<Verdict, Error>>,
) -> Motion {
    let declarations = d.at("actions"@).items();
    let reads = folded_reads(declarations, declarations.len() as int);
    if reads.len() == 0 {
        Motion::Conclude(Grade::Passed(1))
    } else {
        aggregation_motion(reads, context, answers, verdicts, 0, 0, 0)
    }
}

fn request_emission(context: &Json, action: &str, calls: u64) -> (r: Json)
    ensures
        r@ == emit_request(context@, action@, calls as int),
{
    let mut members: Vec<(String, Json)> = Vec::new();
    members.push(member("action", text(action)));
    members.push(member("case", text("emit")));
    members.push(member("context", context.copy()));
    members.push(member("count", Json::Unsigned(calls)));
    assert(member_docs(members@) =~= emit_request(context@, action@, calls as int)->Record_0);
    record(members)
}

fn check_record(env: &Json, action: &str, most: u64, context: &Json) -> (r: Option<String>)
    ensures
        crate::config::opt_string(r) == record_fault(env@, action@, most as int, context@),
{
    let samples: usize = match env.at("sample-hashes").as_list() {
        Some(samples) => samples.len(),
        None => 0,
    };
    if samples == 0 || samples as u64 > most {
        return Some(
            join5(
                action,
                " sampled ",
                decimal_text(samples as u64).as_str(),
                " calls against its declared max-samples of ",
                decimal_text(most).as_str(),
            ),
        );
    }
    if !env.at("mandate-ref").is_same(context.at("mandate-ref")) || !env.at(
        "policy-version",
    ).is_same(context.at("policy-version")) {
        return Some(
            join3(
                "the aggregation record for ",
                action,
                " cites a mandate or policy version the run did not grant",
            ),
        );
    }
    None
}

/// A number in decimal digits.
fn wide_text(n: u128) -> (r: String)
    ensures
        r@ == decimal(n as nat),
    decreases n,
{
    if n < 10 {
        decimal_text(n as u64)
    } else {
        let mut out = wide_text(n / 10);
        let last = decimal_text((n % 10) as u64);
        out.push_str(last.as_str());
        proof {
            reveal_with_fuel(decimal, 2);
            assert(decimal((n % 10) as nat) =~= seq![crate::text::digit((n % 10) as int)]);
        }
        out
    }
}

fn fold_submissions(
    submissions: &Vec<Json>,
    action: &str,
    most: u64,
    context: &Json,
    verdicts: &Vec<Result<Verdict, Error>>,
    first: usize,
    checks: u32,
    Ghost(passed): Ghost<int>,
) -> (r: Part)
    requires
        passed >= 0,
        checks == capped(passed),
        first <= verdicts@.len(),
    ensures
        r is Held ==> first + submissions@.len() <= verdicts@.len(),
        r matches Part::Next(i) ==> i < submissions@.len(),
        comes_to(
            r,
            folding_stage(
                docs(submissions@),
                (action@, most as int),
                context@,
                verdicts@,
                0,
                first as int,
                (Folding { records: 0, calls: 0, checks: passed }),
            ),
        ),
{
    let calls: u64 = if most == u64::MAX {
        most
    } else {
        most + 1
    };
    let mut records: usize = 0;
    let mut folded: u128 = 0;
    let mut so_far: u32 = checks;
    let ghost mut total: int = passed;
    let mut i: usize = 0;
    while i < submissions.len()
        invariant
            i <= submissions@.len(),
            first + i <= verdicts@.len(),
            records <= i,
            folded <= i * u64::MAX,
            total >= 0,
            so_far == capped(total),
            folding_stage(
                docs(submissions@),
                (action@, most as int),
                context@,
                verdicts@,
                0,
                first as int,
                (Folding { records: 0, calls: 0, checks: passed }),
            ) == folding_stage(
                docs(submissions@),
                (action@, most as int),
                context@,
                verdicts@,
                i as int,
                first as int,
                (Folding { records: records as int, calls: folded as int, checks: total }),
            ),
        decreases submissions@.len() - i,
    {
        if verdicts.len() - first <= i {
            return Part::Next(i);
        }
        match &verdicts[first + i] {
            Err(e) => {
                return Part::Outage(e.copy());
            },
            Ok(Verdict::Rejected { reason, detail }) => {
                let mut why = join4(
                    "an aggregation submission for ",
                    action,
                    " was rejected ",
                    reason.as_str(),
                );
                why.push_str(": ");
                why.push_str(detail.as_str());
                return Part::Broke(why);
            },
            Ok(Verdict::Accepted) => {},
        }
        let env = submissions[i].at("envelope");
        proof {
            assert(i * u64::MAX + u64::MAX == (i + 1) * u64::MAX) by (nonlinear_arith);
            assert((i + 1) * u64::MAX <= usize::MAX * u64::MAX) by (nonlinear_arith)
                requires
                    i + 1 <= usize::MAX,
            ;
            assert(usize::MAX * u64::MAX <= u128::MAX) by (nonlinear_arith)
                requires
                    usize::MAX <= u64::MAX,
            ;
        }
        if is_text(env.at("kind"), "aggregate") {
            if let Some(why) = check_record(env, action, most, context) {
                return Part::Broke(why);
            }
            let n: u64 = match env.at("counts").at("by-action").at(action).as_u64() {
                Some(n) => n,
                None => 0,
            };
            records += 1;
            folded = folded + n as u128;
            so_far = so_far.saturating_add(2);
            proof {
                total = total + 2;
            }
        }
        i += 1;
    }
    if records == 0 {
        return Part::Broke(
            join4(
                decimal_text(calls).as_str(),
                " calls to ",
                action,
                " produced no aggregation record: the component itemized a window it declared it would fold",
            ),
        );
    }
    if folded != calls as u128 {
        let mut why = join4(
            "the aggregation records for ",
            action,
            " account for ",
            wide_text(folded).as_str(),
        );
        why.push_str(" calls where the harness drove ");
        why.push_str(decimal_text(calls).as_str());
        return Part::Broke(why);
    }
    Part::Held(so_far.saturating_add(1))
}

/// The next move of the aggregation group, given what has come back so far.
pub fn check_aggregation(
    manifest: &Manifest,
    context: &Json,
    answers: &Vec<Result<Json, String>>,
    verdicts: &Vec<Result<Verdict, Error>>,
) -> (r: Move)
    ensures
        r@ == aggregation_next(manifest.doc(), context@, answers@, verdicts@),
{
    let reads = read_actions(manifest);
    if reads.len() == 0 {
        return Move::Conclude(GroupResult::Passed { checks: 1 });
    }
    let ghost all = reads_of(reads@);
    let count: usize = verdicts.len();
    let mut first: usize = 0;
    let mut checks: u32 = 0;
    let ghost mut total: int = 0;
    let mut i: usize = 0;
    while i < reads.len()
        invariant
            i <= reads@.len(),
            all == reads_of(reads@),
            first <= count == verdicts@.len(),
            total >= 0,
            checks == capped(total),
            aggregation_next(manifest.doc(), context@, answers@, verdicts@) == aggregation_motion(
                all,
                context@,
                answers@,
                verdicts@,
                i as int,
                first as int,
                total,
            ),
        decreases reads@.len() - i,
    {
        let action = reads[i].0.as_str();
        let most: u64 = reads[i].1;
        let calls: u64 = if most == u64::MAX {
            most
        } else {
            most + 1
        };
        if i >= answers.len() {
            return Move::Ask(request_emission(context, action, calls));
        }
        let answer = match &answers[i] {
            Ok(answer) => answer,
            Err(e) => {
                return conclude_failed(
                    join4("the component could not be driven for ", action, ": ", e.as_str()),
                );
            },
        };
        if let Some(why) = answer_error(answer) {
            return conclude_failed(why);
        }
        let submissions = match answer.at("submissions").as_list() {
            Some(submissions) => submissions,
            None => {
                return conclude_failed(
                    join4(
                        "the component emitted nothing for ",
                        decimal_text(calls).as_str(),
                        " calls to ",
                        action,
                    ),
                );
            },
        };
        if submissions.len() == 0 {
            return conclude_failed(
                join4(
                    "the component emitted nothing for ",
                    decimal_text(calls).as_str(),
                    " calls to ",
                    action,
                ),
            );
        }
        let ghost passed = total;
        match fold_submissions(
            submissions,
            action,
            most,
            context,
            verdicts,
            first,
            checks,
            Ghost(passed),
        ) {
            Part::Next(item) => {
                return Move::Submit(submissions[item].copy(), CONFORMANCE_CALLER.to_owned());
            },
            Part::Broke(why) => {
                return conclude_failed(why);
            },
            Part::Outage(e) => {
                return Move::Fail(e);
            },
            Part::Held(n) => {
                proof {
                    total = folding_stage(
                        docs(submissions@),
                        (action@, most as int),
                        context@,
                        verdicts@,
                        0,
                        first as int,
                        Folding { records: 0, calls: 0, checks: passed },
                    )->Held_0;
                }
                checks = n;
                first = first + submissions.len();
            },
        }
        i += 1;
    }
    Move::Conclude(GroupResult::Passed { checks })
}

// -- refusals ---------------------------------------------------------------------------------

/// The attempts that must be answered as required, by name.
pub const NEGATIVE_CASES: [&'static str; 8] = [
    "gate-authorization-missing",
    "gate-authorization-action-mismatch",
    "gate-authorization-replayed",
    "mandate-expired",
    "mandate-root-not-human",
    "prohibited-attempted",
    "cognition-with-evidence",
    "administrative-path",
];

/// What the kernel must do with the last submission of a case.
#[derive(Debug)]
pub enum Expected {
    /// Refuse it, with one of these reason codes.
    Refused(Vec<String>),
    /// Accept it, as the record of an attempt.
    AttemptRecorded,
}

/// The reason codes one of which the last submission of a case must be refused with, or nothing
/// where it must be accepted as the record of an attempt.
pub open spec fn required_codes(case: Seq<char>) -> Option<Seq<Seq<char>>> {
    if case == "gate-authorization-missing"@ || case == "administrative-path"@ {
        Some(seq!["gate-authorization-missing"@])
    } else if case == "gate-authorization-action-mismatch"@ {
        Some(seq!["gate-authorization-action-mismatch"@])
    } else if case == "gate-authorization-replayed"@ {
        Some(seq!["gate-authorization-replayed"@])
    } else if case == "mandate-expired"@ {
        Some(seq!["mandate-expired"@])
    } else if case == "mandate-root-not-human"@ {
        Some(seq!["mandate-root-grantor-not-human"@, "mandate-delegation-depth-exceeded"@])
    } else if case == "cognition-with-evidence"@ {
        Some(seq!["cognition-envelope-has-effect-fields"@])
    } else {
        None
    }
}

fn only(code: &str) -> (r: Expected)
    ensures
        r matches Expected::Refused(codes) && texts(codes@) == seq![code@],
{
    let mut codes: Vec<String> = Vec::new();
    codes.push(code.to_owned());
    assert(texts(codes@) =~= seq![code@]);
    Expected::Refused(codes)
}

/// What the kernel must do with the last submission of a case.
pub fn expected_of(case: &str) -> (r: Expected)
    ensures
        match required_codes(case@) {
            Some(codes) => r matches Expected::Refused(v) && texts(v@) == codes,
            None => r is AttemptRecorded,
        },
{
    if same(case, "gate-authorization-missing") || same(case, "administrative-path") {
        only("gate-authorization-missing")
    } else if same(case, "gate-authorization-action-mismatch") {
        only("gate-authorization-action-mismatch")
    } else if same(case, "gate-authorization-replayed") {
        only("gate-authorization-replayed")
    } else if same(case, "mandate-expired") {
        only("mandate-expired")
    } else if same(case, "mandate-root-not-human") {
        let mut codes: Vec<String> = Vec::new();
        codes.push("mandate-root-grantor-not-human".to_owned());
        codes.push("mandate-delegation-depth-exceeded".to_owned());
        assert(texts(codes@) =~= seq![
            "mandate-root-grantor-not-human"@,
            "mandate-delegation-depth-exceeded"@,
        ]);
        Expected::Refused(codes)
    } else if same(case, "cognition-with-evidence") {
        only("cognition-envelope-has-effect-fields")
    } else {
        Expected::AttemptRecorded
    }
}

/// Puts the members of a prepared case into a request, each whole.
pub open spec fn merged(request: Doc, extras: Doc) -> Doc {
    match extras {
        Doc::Record(members) => extended(request, members, members.len() as int),
        _ => request,
    }
}

/// Puts the members of a prepared case into a request, each whole.
pub fn merge_request(request: Json, extras: &Json) -> (r: Json)
    ensures
        r@ == merged(request@, extras@),
{
    match extras.as_record() {
        Some(members) => extend(request, members),
        None => request,
    }
}

/// What a component is asked to attempt.
pub open spec fn attempt_request(case: Seq<char>, context: Doc, prepared: Doc) -> Doc {
    merged(
        Doc::Record(
            seq![
                ("case"@, Doc::Text("negative"@)),
                ("context"@, context),
                (
                    "expect"@,
                    Doc::Text(
                        if required_codes(case) is Some {
                            "refused"@
                        } else {
                            "accepted"@
                        },
                    ),
                ),
                ("negative"@, Doc::Text(case)),
            ],
        ),
        prepared.at(case),
    )
}

fn request_attempt(case: &str, context: &Json, prepared: &Json) -> (r: Json)
    ensures
        r@ == attempt_request(case@, context@, prepared@),
{
    let expect = match expected_of(case) {
        Expected::Refused(_) => "refused",
        Expected::AttemptRecorded => "accepted",
    };
    let mut members: Vec<(String, Json)> = Vec::new();
    members.push(member("case", text("negative")));
    members.push(member("context", context.copy()));
    members.push(member("expect", text(expect)));
    members.push(member("negative", text(case)));
    assert(member_docs(members@) =~= seq![
        ("case"@, Doc::Text("negative"@)),
        ("context"@, context@),
        (
            "expect"@,
            Doc::Text(
                if required_codes(case@) is Some {
                    "refused"@
                } else {
                    "accepted"@
                },
            ),
        ),
        ("negative"@, Doc::Text(case@)),
    ]);
    merge_request(record(members), prepared.at(case))
}

/// The caller as whom the last submission of a case is made: an administrative identity where the
/// case is whether that changes the answer.
pub open spec fn attempt_caller(case: Seq<char>) -> Seq<char> {
    if case == "administrative-path"@ {
        "operator:kernel-admin"@
    } else {
        CONFORMANCE_CALLER@
    }
}

/// What is wrong with the answer to the last submission of a case.
pub open spec fn attempt_fault(case: Seq<char>, last: Doc, verdict: Verdict) -> Option<Seq<char>> {
    let outcome = last.at("envelope"@).at("execution"@).text_at("outcome"@);
    match (required_codes(case), verdict) {
        (Some(codes), Verdict::Rejected { reason, detail }) => if codes.contains(reason@) {
            None
        } else {
            Some(
                case + " was refused "@ + reason@ + " ("@ + detail@
                    + ") where conformance requires one of "@ + quoted_list(codes),
            )
        },
        (Some(codes), Verdict::Accepted) => Some(
            case + " was accepted; conformance requires "@ + quoted_list(codes),
        ),
        (None, Verdict::Accepted) => if outcome == Some("attempted"@) {
            None
        } else {
            Some(
                "a prohibited action was recorded with outcome "@
                    + crate::ingest::records::shown_option(outcome)
                    + "; conformance requires \"attempted\""@,
            )
        },
        (None, Verdict::Rejected { reason, detail }) => Some(
            "the record of a prohibited attempt was refused "@ + reason@ + ": "@ + detail@
                + "; the attempt happened and must stay in the audit"@,
        ),
    }
}

/// What came of submitting what a component emitted for a case, from a place on, with the verdicts
/// from another place on: everything before the last sets the case up and must be accepted.
pub open spec fn attempt_stage(
    submissions: Seq<Doc>,
    case: Seq<char>,
    verdicts: Seq<Result<Verdict, Error>>,
    from: int,
    first: int,
    checks: int,
) -> Stage
    decreases submissions.len() - from,
{
    if from >= submissions.len() {
        Stage::Held(checks)
    } else if first + from >= verdicts.len() {
        Stage::Next(from)
    } else {
        match verdicts[first + from] {
            Err(e) => Stage::Outage(e@),
            Ok(verdict) => if from == submissions.len() - 1 {
                match attempt_fault(case, submissions[from], verdict) {
                    Some(why) => Stage::Broke(why),
                    None => Stage::Held(checks + 1),
                }
            } else {
                match verdict {
                    Verdict::Rejected { reason, detail } => Stage::Broke(
                        case + ": a setup submission was rejected "@ + reason@ + ": "@ + detail@,
                    ),
                    Verdict::Accepted => attempt_stage(
                        submissions,
                        case,
                        verdicts,
                        from + 1,
                        first,
                        checks,
                    ),
                }
            },
        }
    }
}

/// What the component emitted for a case, or why there is nothing: the administrative case retries
/// what was submitted for the first.
pub open spec fn attempt_submissions(
    case: Seq<char>,
    answer: Option<Result<Json, String>>,
    gated: Option<Doc>,
) -> Result<Seq<Doc>, Seq<char>> {
    if case == "administrative-path"@ {
        match gated {
            Some(d) => Ok(seq![d]),
            None => Err(
                "no gated submission was available to retry under an administrative identity"@,
            ),
        }
    } else {
        match answer->0 {
            Err(e) => Err("the component could not be driven for "@ + case + ": "@ + e@),
            Ok(a) => if let Some(why) = complaint(a@) {
                Err(case + ": "@ + why)
            } else if a@.at("submissions"@).items().len() == 0 {
                Err("the component refused to attempt "@ + case + "; conformance requires it to"@)
            } else {
                Ok(a@.at("submissions"@).items())
            },
        }
    }
}

/// The next move for the cases from a place on, with the verdicts from another place on, so many
/// checks passed, and what was submitted for the first case.
pub open spec fn refusals_motion(
    context: Doc,
    prepared: Doc,
    answers: Seq<Result<Json, String>>,
    verdicts: Seq<Result<Verdict, Error>>,
    from: int,
    first: int,
    checks: int,
    gated: Option<Doc>,
) -> Motion
    decreases NEGATIVE_CASES@.len() - from,
{
    if from >= NEGATIVE_CASES@.len() {
        Motion::Conclude(Grade::Passed(capped(checks)))
    } else {
        let case = NEGATIVE_CASES@[from]@;
        if case != "administrative-path"@ && from >= answers.len() {
            Motion::Ask(attempt_request(case, context, prepared))
        } else {
            let answer = if from < answers.len() {
                Some(answers[from])
            } else {
                None
            };
            match attempt_submissions(case, answer, gated) {
                Err(why) => Motion::Conclude(Grade::Failed(why)),
                Ok(submissions) => match attempt_stage(
                    submissions,
                    case,
                    verdicts,
                    0,
                    first,
                    checks,
                ) {
                    Stage::Next(i) => Motion::Submit(
                        submissions[i],
                        if i == submissions.len() - 1 {
                            attempt_caller(case)
                        } else {
                            CONFORMANCE_CALLER@
                        },
                    ),
                    Stage::Broke(why) => Motion::Conclude(Grade::Failed(why)),
                    Stage::Outage(f) => Motion::Fail(f),
                    Stage::Held(n) => refusals_motion(
                        context,
                        prepared,
                        answers,
                        verdicts,
                        from + 1,
                        first + submissions.len(),
                        n,
                        if case == "gate-authorization-missing"@ {
                            Some(submissions.last())
                        } else {
                            gated
                        },
                    ),
                },
            }
        }
    }
}

fn contains_text(items: &Vec<String>, value: &str) -> (r: bool)
    ensures
        r == texts(items@).contains(value@),
{
    crate::ingest::approvers::holds_text(items, value)
}

fn check_attempt(case: &str, last: &Json, verdict: &Verdict) -> (r: Option<String>)
    ensures
        crate::config::opt_string(r) == attempt_fault(case@, last@, *verdict),
{
    match expected_of(case) {
        Expected::Refused(codes) => match verdict {
            Verdict::Rejected { reason, detail } => {
                if contains_text(&codes, reason.as_str()) {
                    return None;
                }
                let mut why = join5(
                    case,
                    " was refused ",
                    reason.as_str(),
                    " (",
                    detail.as_str(),
                );
                why.push_str(") where conformance requires one of ");
                why.push_str(debug_list(&codes).as_str());
                Some(why)
            },
            Verdict::Accepted => Some(
                join3(
                    case,
                    " was accepted; conformance requires ",
                    debug_list(&codes).as_str(),
                ),
            ),
        },
        Expected::AttemptRecorded => match verdict {
            Verdict::Accepted => {
                let outcome = last.at("envelope").at("execution").text_at("outcome");
                let shown = match outcome {
                    Some(o) => {
                        if same(o, "attempted") {
                            return None;
                        }
                        join3("Some(", debug_text(o).as_str(), ")")
                    },
                    None => "None".to_owned(),
                };
                Some(
                    join3(
                        "a prohibited action was recorded with outcome ",
                        shown.as_str(),
                        "; conformance requires \"attempted\"",
                    ),
                )
            },
            Verdict::Rejected { reason, detail } => Some(
                join5(
                    "the record of a prohibited attempt was refused ",
                    reason.as_str(),
                    ": ",
                    detail.as_str(),
                    "; the attempt happened and must stay in the audit",
                ),
            ),
        },
    }
}

fn attempt_part(
    submissions: &Vec<Json>,
    case: &str,
    verdicts: &Vec<Result<Verdict, Error>>,
    first: usize,
    checks: u32,
    Ghost(passed): Ghost<int>,
) -> (r: Part)
    requires
        passed >= 0,
        checks == capped(passed),
        first <= verdicts@.len(),
    ensures
        r is Held ==> first + submissions@.len() <= verdicts@.len(),
        r matches Part::Next(i) ==> i < submissions@.len(),
        comes_to(r, attempt_stage(docs(submissions@), case@, verdicts@, 0, first as int, passed)),
{
    let n: usize = submissions.len();
    let mut i: usize = 0;
    while i < n
        invariant
            i <= n == submissions@.len(),
            passed >= 0,
            checks == capped(passed),
            first + i <= verdicts@.len(),
            attempt_stage(docs(submissions@), case@, verdicts@, 0, first as int, passed)
                == attempt_stage(
                docs(submissions@),
                case@,
                verdicts@,
                i as int,
                first as int,
                passed,
            ),
        decreases n - i,
    {
        if verdicts.len() - first <= i {
            return Part::Next(i);
        }
        let verdict = match &verdicts[first + i] {
            Ok(verdict) => verdict,
            Err(e) => {
                return Part::Outage(e.copy());
            },
        };
        if i == n - 1 {
            return match check_attempt(case, &submissions[i], verdict) {
                Some(why) => Part::Broke(why),
                None => Part::Held(checks.saturating_add(1)),
            };
        }
        if let Verdict::Rejected { reason, detail } = verdict {
            return Part::Broke(
                join5(
                    case,
                    ": a setup submission was rejected ",
                    reason.as_str(),
                    ": ",
                    detail.as_str(),
                ),
            );
        }
        i += 1;
    }
    Part::Held(checks)
}

fn read_submissions(case: &str, answer: &Result<Json, String>) -> (r: Result<Vec<Json>, String>)
    requires
        case@ != "administrative-path"@,
    ensures
        match attempt_submissions(case@, Some(*answer), None) {
            Ok(submissions) => r matches Ok(v) && docs(v@) == submissions && v@.len() > 0,
            Err(why) => r matches Err(e) && e@ == why,
        },
{
    let answer = match answer {
        Ok(answer) => answer,
        Err(e) => {
            return Err(
                join4("the component could not be driven for ", case, ": ", e.as_str()),
            );
        },
    };
    if let Some(why) = answer_error(answer) {
        return Err(join3(case, ": ", why.as_str()));
    }
    let none: Vec<Json> = Vec::new();
    assert(docs(none@) =~= Seq::empty());
    let submissions = match answer.at("submissions").as_list() {
        Some(submissions) => submissions,
        None => &none,
    };
    if submissions.len() == 0 {
        return Err(
            join3("the component refused to attempt ", case, "; conformance requires it to"),
        );
    }
    Ok(copies(submissions))
}

fn copies(items: &Vec<Json>) -> (r: Vec<Json>)
    ensures
        docs(r@) == docs(items@),
        r@.len() == items@.len(),
{
    let mut out: Vec<Json> = Vec::new();
    let mut i: usize = 0;
    while i < items.len()
        invariant
            i <= items@.len(),
            out@.len() == i,
            forall|j: int| 0 <= j < i ==> (#[trigger] out@[j])@ == items@[j]@,
        decreases items@.len() - i,
    {
        out.push(items[i].copy());
        i += 1;
    }
    assert(docs(out@) =~= docs(items@));
    out
}

/// The next move of the group of refusals, given what has come back so far.
pub fn check_negative_cases(
    context: &Json,
    prepared: &Json,
    answers: &Vec<Result<Json, String>>,
    verdicts: &Vec<Result<Verdict, Error>>,
) -> (r: Move)
    ensures
        r@ == refusals_motion(context@, prepared@, answers@, verdicts@, 0, 0, 0, None),
{
    let count: usize = verdicts.len();
    let mut first: usize = 0;
    let mut checks: u32 = 0;
    let ghost mut total: int = 0;
    let mut gated: Option<Json> = None;
    let mut i: usize = 0;
    while i < NEGATIVE_CASES.len()
        invariant
            i <= NEGATIVE_CASES@.len(),
            first <= count == verdicts@.len(),
            total >= 0,
            checks == capped(total),
            refusals_motion(context@, prepared@, answers@, verdicts@, 0, 0, 0, None)
                == refusals_motion(
                context@,
                prepared@,
                answers@,
                verdicts@,
                i as int,
                first as int,
                total,
                crate::gatequeue::opt_json(gated),
            ),
        decreases NEGATIVE_CASES@.len() - i,
    {
        let case = NEGATIVE_CASES[i];
        let administrative = same(case, "administrative-path");
        let submissions: Vec<Json>;
        if administrative {
            match &gated {
                Some(d) => {
                    let mut one: Vec<Json> = Vec::new();
                    one.push(d.copy());
                    assert(docs(one@) =~= seq![d@]);
                    submissions = one;
                },
                None => {
                    return conclude_failed(
                        "no gated submission was available to retry under an administrative identity".to_owned(),
                    );
                },
            }
        } else {
            if i >= answers.len() {
                return Move::Ask(request_attempt(case, context, prepared));
            }
            match read_submissions(case, &answers[i]) {
                Ok(found) => {
                    submissions = found;
                },
                Err(why) => {
                    return conclude_failed(why);
                },
            }
        }
        let ghost passed = total;
        let ghost answer = if i < answers@.len() {
            Some(answers@[i as int])
        } else {
            None
        };
        assert(attempt_submissions(case@, answer, crate::gatequeue::opt_json(gated)) == Ok::<
            Seq<Doc>,
            Seq<char>,
        >(docs(submissions@)));
        match attempt_part(&submissions, case, verdicts, first, checks, Ghost(passed)) {
            Part::Next(item) => {
                let caller = if item == submissions.len() - 1 && administrative {
                    "operator:kernel-admin"
                } else {
                    CONFORMANCE_CALLER
                };
                return Move::Submit(submissions[item].copy(), caller.to_owned());
            },
            Part::Broke(why) => {
                return conclude_failed(why);
            },
            Part::Outage(e) => {
                return Move::Fail(e);
            },
            Part::Held(n) => {
                proof {
                    total = attempt_stage(
                        docs(submissions@),
                        case@,
                        verdicts@,
                        0,
                        first as int,
                        passed,
                    )->Held_0;
                }
                checks = n;
                first = first + submissions.len();
                if same(case, "gate-authorization-missing") {
                    gated = Some(submissions[submissions.len() - 1].copy());
                }
            },
        }
        i += 1;
    }
    Move::Conclude(GroupResult::Passed { checks })
}

// -- work done offline ------------------------------------------------------------------------

/// What a component is asked to do while the kernel is out of reach.
pub open spec fn offline_request(context: Doc, actions: Seq<Seq<char>>, gated: Seq<char>) -> Doc {
    Doc::Record(
        seq![
            ("actions"@, Doc::List(crate::conformance::text_docs(actions))),
            ("case"@, Doc::Text("offline"@)),
            ("context"@, context),
            ("gated"@, Doc::Text(gated)),
        ],
    )
}

/// What the queue holds so far: its last envelope, and how many checks passed.
pub struct Queue {
    /// The place and the identifier of the last envelope.
    pub last: Option<(int, Seq<char>)>,
    /// The checks.
    pub checks: int,
}

/// What is wrong with a queued envelope after another: it does not stand at the next place, or does
/// not link to it.
pub open spec fn link_fault(env: Doc, last: Option<(int, Seq<char>)>) -> Option<Seq<char>> {
    let seq = env.at("seq"@).as_u64()->0;
    match last {
        None => None,
        Some((before, id)) => if seq != before + 1 {
            Some(
                "the queued chain jumps from seq "@ + decimal(before as nat) + " to "@ + decimal(
                    seq as nat,
                ),
            )
        } else if env.text_at("prev-hash"@) != Some(id) {
            Some(
                "the envelope at seq "@ + decimal(seq as nat)
                    + " does not link to the one before it"@,
            )
        } else {
            None
        },
    }
}

/// What the queue comes to, from a place on: a chain, with no gated action applied.
pub open spec fn queued(
    submissions: Seq<Doc>,
    ids: Seq<Result<String, Error>>,
    gated: Seq<char>,
    from: int,
    so_far: Queue,
) -> Result<Result<Queue, Seq<char>>, Fault>
    decreases submissions.len() - from,
{
    if from >= submissions.len() {
        Ok(Ok(so_far))
    } else {
        let env = submissions[from].at("envelope"@);
        let seq = env.at("seq"@).as_u64();
        if seq is None {
            Ok(Err("a queued envelope carries no seq"@))
        } else if let Some(why) = link_fault(env, so_far.last) {
            Ok(Err(why))
        } else if env.at("execution"@).text_at("action"@) == Some(gated) && env.at(
            "execution"@,
        ).text_at("outcome"@) == Some("applied"@) {
            Ok(Err(gated + " was applied offline, with no approval it could have had"@))
        } else {
            match ids[from] {
                Err(e) => Err(e@),
                Ok(id) => queued(
                    submissions,
                    ids,
                    gated,
                    from + 1,
                    Queue {
                        last: Some((seq->0, id@)),
                        checks: so_far.checks + if so_far.last is Some {
                            1int
                        } else {
                            0int
                        },
                    },
                ),
            }
        }
    }
}

/// What came of submitting the queue, from a place on.
pub open spec fn reconnected(
    count: int,
    verdicts: Seq<Result<Verdict, Error>>,
    from: int,
    checks: int,
) -> Stage
    decreases count - from,
{
    if from >= count {
        Stage::Held(checks)
    } else if from >= verdicts.len() {
        Stage::Next(from)
    } else {
        match verdicts[from] {
            Err(e) => Stage::Outage(e@),
            Ok(Verdict::Rejected { reason, detail }) => Stage::Broke(
                "a queued envelope was refused on reconnect "@ + reason@ + ": "@ + detail@,
            ),
            Ok(Verdict::Accepted) => reconnected(count, verdicts, from + 1, checks + 1),
        }
    }
}

/// The head of a stream as it is named in a report.
pub open spec fn shown_head(head: Option<Head>) -> Seq<char> {
    match head {
        None => "None"@,
        Some(h) => "Some(("@ + decimal(h.seq as nat) + ", "@ + quoted(h.id@) + "))"@,
    }
}

/// The place a stream continues at.
pub open spec fn continues_at(head: Option<Head>) -> int {
    match head {
        None => 0,
        Some(h) => h.seq + 1,
    }
}

/// The next move once the queue is known to be a chain: it must start where the stream continues,
/// be accepted, and end as the component recorded it.
pub open spec fn landing_motion(
    submissions: Seq<Doc>,
    queue: Queue,
    heads: Seq<Result<Option<Head>, Error>>,
    verdicts: Seq<Result<Verdict, Error>>,
) -> Motion {
    let start = submissions[0].at("envelope"@);
    let stream = start.text_at("stream"@);
    if stream is None {
        Motion::Conclude(Grade::Failed("a queued envelope carries no stream"@))
    } else if heads.len() == 0 {
        Motion::Look(stream->0)
    } else {
        match heads[0] {
            Err(e) => Motion::Fail(e@),
            Ok(head) => if start.at("seq"@).as_u64() != Some(continues_at(head)) {
                Motion::Conclude(
                    Grade::Failed(
                        "the queued chain starts at seq "@ + compact(start.at("seq"@)) + " where "@
                            + stream->0 + " continues at "@ + decimal(continues_at(head) as nat),
                    ),
                )
            } else {
                match reconnected(submissions.len() as int, verdicts, 0, queue.checks + 1) {
                    Stage::Next(i) => Motion::Submit(submissions[i], CONFORMANCE_CALLER@),
                    Stage::Broke(why) => Motion::Conclude(Grade::Failed(why)),
                    Stage::Outage(f) => Motion::Fail(f),
                    Stage::Held(n) => if heads.len() < 2 {
                        Motion::Look(stream->0)
                    } else {
                        landed_motion(stream->0, queue, heads[1], n)
                    },
                }
            },
        }
    }
}

/// What the head of the stream, after the queue was accepted, concludes.
pub open spec fn landed_motion(
    stream: Seq<char>,
    queue: Queue,
    head: Result<Option<Head>, Error>,
    checks: int,
) -> Motion {
    let (last_seq, last_id) = queue.last->0;
    match head {
        Err(e) => Motion::Fail(e@),
        Ok(landed) => if landed matches Some(h) && h.seq == last_seq && h.id@ == last_id {
            Motion::Conclude(Grade::Passed(capped(checks + 1)))
        } else {
            Motion::Conclude(
                Grade::Failed(
                    "the queue was accepted but "@ + stream + " now heads at "@ + shown_head(landed)
                        + " rather than the ("@ + decimal(last_seq as nat) + ", "@ + last_id
                        + ") the component recorded offline"@,
                ),
            )
        },
    }
}

/// The next move of the offline group.
pub open spec fn offline_motion(
    context: Doc,
    actions: Seq<Seq<char>>,
    gated: Seq<char>,
    answer: Option<Result<Json, String>>,
    ids: Seq<Result<String, Error>>,
    heads: Seq<Result<Option<Head>, Error>>,
    verdicts: Seq<Result<Verdict, Error>>,
) -> Motion {
    match answer {
        None => Motion::Ask(offline_request(context, actions, gated)),
        Some(Err(e)) => Motion::Conclude(
            Grade::Failed("the component could not be driven offline: "@ + e@),
        ),
        Some(Ok(a)) => {
            let submissions = a@.at("submissions"@).items();
            let blocked = a@.at("blocked"@).items();
            if let Some(why) = complaint(a@) {
                Motion::Conclude(Grade::Failed(why))
            } else if submissions.len() == 0 {
                Motion::Conclude(
                    Grade::Failed(
                        "the component queued nothing while the kernel was unreachable"@,
                    ),
                )
            } else if !texts_among(blocked, blocked.len() as int).contains(gated) {
                Motion::Conclude(
                    Grade::Failed(
                        gated
                            + " is consequential under a gate rule and the component did not report blocking it offline"@,
                    ),
                )
            } else {
                match queued(submissions, ids, gated, 0, Queue { last: None, checks: 1 }) {
                    Err(f) => Motion::Fail(f),
                    Ok(Err(why)) => Motion::Conclude(Grade::Failed(why)),
                    Ok(Ok(queue)) => landing_motion(submissions, queue, heads, verdicts),
                }
            }
        },
    }
}

fn request_offline(context: &Json, actions: &Vec<String>, gated: &str) -> (r: Json)
    ensures
        r@ == offline_request(context@, texts(actions@), gated@),
{
    let mut names: Vec<Json> = Vec::new();
    let mut i: usize = 0;
    while i < actions.len()
        invariant
            i <= actions@.len(),
            names@.len() == i,
            forall|j: int| 0 <= j < i ==> (#[trigger] names@[j])@ == Doc::Text(actions@[j]@),
        decreases actions@.len() - i,
    {
        names.push(text(actions[i].as_str()));
        i += 1;
    }
    assert(docs(names@) =~= crate::conformance::text_docs(texts(actions@)));
    let mut members: Vec<(String, Json)> = Vec::new();
    members.push(member("actions", list(names)));
    members.push(member("case", text("offline")));
    members.push(member("context", context.copy()));
    members.push(member("gated", text(gated)));
    assert(member_docs(members@) =~= offline_request(
        context@,
        texts(actions@),
        gated@,
    )->Record_0);
    record(members)
}

fn check_link(env: &Json, seq: u64, last: &Option<(u64, String)>) -> (r: Option<String>)
    requires
        env@.at("seq"@).as_u64() == Some(seq as int),
    ensures
        crate::config::opt_string(r) == link_fault(env@, last_of(*last)),
{
    match last {
        None => None,
        Some((before, id)) => {
            if *before == u64::MAX || seq != *before + 1 {
                return Some(
                    join4(
                        "the queued chain jumps from seq ",
                        decimal_text(*before).as_str(),
                        " to ",
                        decimal_text(seq).as_str(),
                    ),
                );
            }
            if !is_text(env.at("prev-hash"), id.as_str()) {
                return Some(
                    join3(
                        "the envelope at seq ",
                        decimal_text(seq).as_str(),
                        " does not link to the one before it",
                    ),
                );
            }
            None
        },
    }
}

/// What the last envelope of a queue stands for.
spec fn last_of(last: Option<(u64, String)>) -> Option<(int, Seq<char>)> {
    match last {
        Some((seq, id)) => Some((seq as int, id@)),
        None => None,
    }
}

fn check_queue(submissions: &Vec<Json>, ids: &Vec<Result<String, Error>>, gated: &str) -> (r: Result<
    Result<(Option<(u64, String)>, u32), String>,
    Error,
>)
    requires
        ids@.len() == submissions@.len(),
    ensures
        match queued(docs(submissions@), ids@, gated@, 0, (Queue { last: None, checks: 1 })) {
            Err(f) => r matches Err(e) && e@ == f,
            Ok(Err(why)) => r matches Ok(Err(s)) && s@ == why,
            Ok(Ok(queue)) => r matches Ok(Ok(v)) && last_of(v.0) == queue.last && v.1 == capped(
                queue.checks,
            ) && queue.checks >= 1 && (submissions@.len() > 0 ==> v.0 is Some),
        },
{
    let mut last: Option<(u64, String)> = None;
    let mut checks: u32 = 1;
    let ghost mut total: int = 1;
    let mut i: usize = 0;
    while i < submissions.len()
        invariant
            i <= submissions@.len(),
            ids@.len() == submissions@.len(),
            total >= 1,
            checks == capped(total),
            i > 0 ==> last is Some,
            queued(docs(submissions@), ids@, gated@, 0, (Queue { last: None, checks: 1 }))
                == queued(
                docs(submissions@),
                ids@,
                gated@,
                i as int,
                (Queue { last: last_of(last), checks: total }),
            ),
        decreases submissions@.len() - i,
    {
        let env = submissions[i].at("envelope");
        let seq: u64 = match env.at("seq").as_u64() {
            Some(seq) => seq,
            None => {
                return Ok(Err("a queued envelope carries no seq".to_owned()));
            },
        };
        if let Some(why) = check_link(env, seq, &last) {
            return Ok(Err(why));
        }
        if is_text(env.at("execution").at("action"), gated) && is_text(
            env.at("execution").at("outcome"),
            "applied",
        ) {
            return Ok(
                Err(join2(gated, " was applied offline, with no approval it could have had")),
            );
        }
        if last.is_some() {
            checks = checks.saturating_add(1);
            proof {
                total = total + 1;
            }
        }
        match &ids[i] {
            Err(e) => {
                return Err(e.copy());
            },
            Ok(id) => {
                last = Some((seq, id.clone()));
            },
        }
        i += 1;
    }
    Ok(Ok((last, checks)))
}

fn reconnect(count: usize, verdicts: &Vec<Result<Verdict, Error>>, checks: u32, Ghost(passed): Ghost<
    int,
>) -> (r: Part)
    requires
        passed >= 0,
        checks == capped(passed),
    ensures
        r matches Part::Next(i) ==> i < count,
        comes_to(r, reconnected(count as int, verdicts@, 0, passed)),
{
    let mut so_far: u32 = checks;
    let ghost mut total: int = passed;
    let mut i: usize = 0;
    while i < count
        invariant
            i <= count,
            total >= 0,
            so_far == capped(total),
            reconnected(count as int, verdicts@, 0, passed) == reconnected(
                count as int,
                verdicts@,
                i as int,
                total,
            ),
        decreases count - i,
    {
        if i >= verdicts.len() {
            return Part::Next(i);
        }
        match &verdicts[i] {
            Err(e) => {
                return Part::Outage(e.copy());
            },
            Ok(Verdict::Rejected { reason, detail }) => {
                return Part::Broke(
                    join4(
                        "a queued envelope was refused on reconnect ",
                        reason.as_str(),
                        ": ",
                        detail.as_str(),
                    ),
                );
            },
            Ok(Verdict::Accepted) => {},
        }
        so_far = so_far.saturating_add(1);
        proof {
            total = total + 1;
        }
        i += 1;
    }
    Part::Held(so_far)
}

fn show_head(head: &Option<Head>) -> (r: String)
    ensures
        r@ == shown_head(*head),
{
    match head {
        None => "None".to_owned(),
        Some(h) => join5(
            "Some((",
            decimal_text(h.seq).as_str(),
            ", ",
            debug_text(h.id.as_str()).as_str(),
            "))",
        ),
    }
}

fn land(
    stream: &str,
    last: &(u64, String),
    head: &Result<Option<Head>, Error>,
    checks: u32,
    Ghost(queue): Ghost<Queue>,
    Ghost(passed): Ghost<int>,
) -> (r: Move)
    requires
        queue.last == Some((last.0 as int, last.1@)),
        passed >= 0,
        checks == capped(passed),
    ensures
        r@ == landed_motion(stream@, queue, *head, passed),
{
    let landed = match head {
        Ok(landed) => landed,
        Err(e) => {
            return Move::Fail(e.copy());
        },
    };
    if let Some(h) = landed {
        if h.seq == last.0 && same(h.id.as_str(), last.1.as_str()) {
            return Move::Conclude(GroupResult::Passed { checks: checks.saturating_add(1) });
        }
    }
    let mut why = join5(
        "the queue was accepted but ",
        stream,
        " now heads at ",
        show_head(landed).as_str(),
        " rather than the (",
    );
    why.push_str(decimal_text(last.0).as_str());
    why.push_str(", ");
    why.push_str(last.1.as_str());
    why.push_str(") the component recorded offline");
    conclude_failed(why)
}

/// The next move of the offline group, given what has come back so far: the component's answer,
/// the identifier of each envelope it queued, the head of their stream before and after, and the
/// verdicts. No stream is at the last place there is.
pub fn check_offline_behaviour(
    context: &Json,
    actions: &Vec<String>,
    gated: &str,
    answer: &Option<Result<Json, String>>,
    ids: &Vec<Result<String, Error>>,
    heads: &Vec<Result<Option<Head>, Error>>,
    verdicts: &Vec<Result<Verdict, Error>>,
) -> (r: Move)
    requires
        answer matches Some(Ok(a)) ==> ids@.len() == a@.at("submissions"@).items().len(),
        heads@.len() > 0 ==> (heads@[0] matches Ok(Some(h)) ==> h.seq < u64::MAX),
    ensures
        r@ == offline_motion(
            context@,
            texts(actions@),
            gated@,
            *answer,
            ids@,
            heads@,
            verdicts@,
        ),
{
    let answer = match answer {
        None => {
            return Move::Ask(request_offline(context, actions, gated));
        },
        Some(Err(e)) => {
            return conclude_failed(
                join2("the component could not be driven offline: ", e.as_str()),
            );
        },
        Some(Ok(answer)) => answer,
    };
    if let Some(why) = answer_error(answer) {
        return conclude_failed(why);
    }
    let none: Vec<Json> = Vec::new();
    assert(docs(none@) =~= Seq::empty());
    let submissions = match answer.at("submissions").as_list() {
        Some(submissions) => submissions,
        None => &none,
    };
    if submissions.len() == 0 {
        return conclude_failed(
            "the component queued nothing while the kernel was unreachable".to_owned(),
        );
    }
    let blocked = texts_of(answer.at("blocked"));
    if !contains_text(&blocked, gated) {
        return conclude_failed(
            join2(
                gated,
                " is consequential under a gate rule and the component did not report blocking it offline",
            ),
        );
    }
    let ghost start = Queue { last: None, checks: 1 };
    let (last, checks) = match check_queue(submissions, ids, gated) {
        Err(e) => {
            return Move::Fail(e);
        },
        Ok(Err(why)) => {
            return conclude_failed(why);
        },
        Ok(Ok(found)) => found,
    };
    let ghost queue = queued(docs(submissions@), ids@, gated@, 0, start)->Ok_0->Ok_0;
    let first = submissions[0].at("envelope");
    let stream = match first.text_at("stream") {
        Some(stream) => stream,
        None => {
            return conclude_failed("a queued envelope carries no stream".to_owned());
        },
    };
    if heads.len() == 0 {
        return Move::Look(stream.to_owned());
    }
    let next: u64 = match &heads[0] {
        Err(e) => {
            return Move::Fail(e.copy());
        },
        Ok(None) => 0,
        Ok(Some(h)) => h.seq + 1,
    };
    let starts_there = match first.at("seq").as_u64() {
        Some(seq) => seq == next,
        None => false,
    };
    if !starts_there {
        let mut why = join4(
            "the queued chain starts at seq ",
            first.at("seq").to_text().as_str(),
            " where ",
            stream,
        );
        why.push_str(" continues at ");
        why.push_str(decimal_text(next).as_str());
        return conclude_failed(why);
    }
    let ghost passed = queue.checks + 1;
    match reconnect(submissions.len(), verdicts, checks.saturating_add(1), Ghost(passed)) {
        Part::Next(item) => Move::Submit(
            submissions[item].copy(),
            CONFORMANCE_CALLER.to_owned(),
        ),
        Part::Broke(why) => conclude_failed(why),
        Part::Outage(e) => Move::Fail(e),
        Part::Held(n) => {
            if heads.len() < 2 {
                return Move::Look(stream.to_owned());
            }
            let ghost held = reconnected(submissions@.len() as int, verdicts@, 0, passed)->Held_0;
            match &last {
                Some(end) => land(stream, end, &heads[1], n, Ghost(queue), Ghost(held)),
                None => {
                    assert(false);
                    Move::Look(stream.to_owned())
                },
            }
        },
    }
}

// -- laws -------------------------------------------------------------------------------------

/// An attempt that must be refused and is accepted fails the component, whatever else held.
pub proof fn lemma_accepted_attempts_fail(case: Seq<char>, last: Doc)
    requires
        required_codes(case) is Some,
    ensures
        attempt_fault(case, last, Verdict::Accepted) is Some,
{
}

/// No caller's identity stands in for an approval: what an administrative caller submits must be
/// refused with the very code that the same submission is refused with from the component.
pub proof fn lemma_identity_is_no_approval()
    ensures
        required_codes("administrative-path"@) == required_codes("gate-authorization-missing"@),
        required_codes("administrative-path"@) == Some(seq!["gate-authorization-missing"@]),
{
}

/// The offline group passes only where the stream ends as the component recorded it alone: with
/// the same place and the same identifier.
pub proof fn lemma_offline_work_is_not_renumbered(
    stream: Seq<char>,
    queue: Queue,
    head: Result<Option<Head>, Error>,
    checks: int,
)
    requires
        queue.last is Some,
        landed_motion(stream, queue, head, checks) matches Motion::Conclude(Grade::Passed(_)),
    ensures
        head matches Ok(Some(h)) && queue.last == Some((h.seq as int, h.id@)),
{
}

/// An aggregation passes only with records that account for exactly the calls that were driven.
pub proof fn lemma_aggregation_accounts_for_every_call(
    submissions: Seq<Doc>,
    read: (Seq<char>, int),
    context: Doc,
    verdicts: Seq<Result<Verdict, Error>>,
    first: int,
    so_far: Folding,
)
    requires
        folding_stage(
            submissions,
            read,
            context,
            verdicts,
            submissions.len() as int,
            first,
            so_far,
        ) is Held,
    ensures
        so_far.records != 0,
        so_far.calls == calls_for(read.1),
{
}

proof fn lemma_folded_read(declarations: Seq<Doc>, upto: int, i: int)
    requires
        0 <= i < upto <= declarations.len(),
        declarations[i].text_at("class"@) == Some("read"@),
        declarations[i].text_at("action"@) is Some,
        declarations[i].at("aggregate"@).at("max-samples"@).as_u64() is Some,
    ensures
        folded_reads(declarations, upto).contains(
            (
                declarations[i].text_at("action"@)->0,
                declarations[i].at("aggregate"@).at("max-samples"@).as_u64()->0,
            ),
        ),
    decreases upto,
{
    let before = folded_reads(declarations, upto - 1);
    let out = folded_reads(declarations, upto);
    let wanted = (
        declarations[i].text_at("action"@)->0,
        declarations[i].at("aggregate"@).at("max-samples"@).as_u64()->0,
    );
    if i < upto - 1 {
        lemma_folded_read(declarations, upto - 1, i);
        let k = choose|k: int| 0 <= k < before.len() && before[k] == wanted;
        assert(out[k] == wanted);
    } else {
        assert(out[before.len() as int] == wanted);
    }
}

proof fn lemma_read_is_folded(declarations: Seq<Doc>, upto: int, k: int) -> (r: int)
    requires
        0 <= upto <= declarations.len(),
        0 <= k < folded_reads(declarations, upto).len(),
    ensures
        0 <= r < upto,
        declarations[r].at("class"@) == Doc::Text("read"@),
        declarations[r].at("action"@) == Doc::Text(folded_reads(declarations, upto)[k].0),
        declarations[r].at("aggregate"@).at("max-samples"@) == Doc::Int(
            folded_reads(declarations, upto)[k].1,
        ),
    decreases upto,
{
    let before = folded_reads(declarations, upto - 1);
    if k < before.len() {
        lemma_read_is_folded(declarations, upto - 1, k)
    } else {
        upto - 1
    }
}

/// The reads that a run has folded are all the actions declared as reads with a bound on samples,
/// wherever they stand, and no others.
pub proof fn lemma_which_reads_are_folded(declarations: Seq<Doc>, action: Seq<char>, most: int)
    requires
        0 <= most <= u64::MAX,
    ensures
        folded_reads(declarations, declarations.len() as int).contains((action, most)) <==> exists|
            i: int,
        |
            0 <= i < declarations.len() && (#[trigger] declarations[i]).at("class"@) == Doc::Text(
                "read"@,
            ) && declarations[i].at("action"@) == Doc::Text(action) && declarations[i].at(
                "aggregate"@,
            ).at("max-samples"@) == Doc::Int(most),
{
    let n = declarations.len() as int;
    let out = folded_reads(declarations, n);
    if out.contains((action, most)) {
        let k = choose|k: int| 0 <= k < out.len() && out[k] == (action, most);
        let i = lemma_read_is_folded(declarations, n, k);
        assert(declarations[i].at("class"@) == Doc::Text("read"@));
    }
    assert forall|i: int|
        0 <= i < declarations.len() && (#[trigger] declarations[i]).at("class"@) == Doc::Text(
            "read"@,
        ) && declarations[i].at("action"@) == Doc::Text(action) && declarations[i].at(
            "aggregate"@,
        ).at("max-samples"@) == Doc::Int(most) implies out.contains((action, most)) by {
        lemma_folded_read(declarations, n, i);
    }
}

/// An aggregation record is right exactly where it samples something and no more than was declared,
/// under the mandate and the policy that the run granted.
pub proof fn lemma_which_records_are_right(
    env: Doc,
    action: Seq<char>,
    most: int,
    context: Doc,
)
    ensures
        record_fault(env, action, most, context) is None <==> {
            &&& 1 <= env.at("sample-hashes"@).items().len() <= most
            &&& env.at("mandate-ref"@) == context.at("mandate-ref"@)
            &&& env.at("policy-version"@) == context.at("policy-version"@)
        },
{
}

/// How many calls the aggregation records among some submissions, from a place on, account for.
pub open spec fn accounted(submissions: Seq<Doc>, action: Seq<char>, from: int) -> int
    decreases submissions.len() - from,
{
    if from < 0 || from >= submissions.len() {
        0
    } else {
        accounted(submissions, action, from + 1) + if submissions[from].at("envelope"@).text_at(
            "kind"@,
        ) == Some("aggregate"@) {
            folded_calls(submissions[from].at("envelope"@), action)
        } else {
            0
        }
    }
}

/// Folding holds only where everything that was submitted was accepted, every aggregation record is
/// right, and together they account for one call more than may be sampled, none left out.
pub proof fn lemma_what_folding_takes(
    submissions: Seq<Doc>,
    read: (Seq<char>, int),
    context: Doc,
    verdicts: Seq<Result<Verdict, Error>>,
    from: int,
    first: int,
    so_far: Folding,
)
    requires
        0 <= from <= submissions.len(),
        folding_stage(submissions, read, context, verdicts, from, first, so_far) is Held,
    ensures
        forall|i: int|
            from <= i < submissions.len() ==> {
                let env = (#[trigger] submissions[i]).at("envelope"@);
                &&& first + i < verdicts.len()
                &&& verdicts[first + i] matches Ok(Verdict::Accepted)
                &&& env.at("kind"@) == Doc::Text("aggregate"@) ==> record_fault(
                    env,
                    read.0,
                    read.1,
                    context,
                ) is None
            },
        so_far.calls + accounted(submissions, read.0, from) == calls_for(read.1),
        so_far.records != 0 || exists|i: int|
            from <= i < submissions.len() && (#[trigger] submissions[i]).at("envelope"@).at(
                "kind"@,
            ) == Doc::Text("aggregate"@),
    decreases submissions.len() - from,
{
    if from < submissions.len() {
        let env = submissions[from].at("envelope"@);
        if env.text_at("kind"@) == Some("aggregate"@) {
            assert(submissions[from].at("envelope"@).at("kind"@) == Doc::Text("aggregate"@));
            lemma_what_folding_takes(
                submissions,
                read,
                context,
                verdicts,
                from + 1,
                first,
                Folding {
                    records: so_far.records + 1,
                    calls: so_far.calls + folded_calls(env, read.0),
                    checks: so_far.checks + 2,
                },
            );
        } else {
            lemma_what_folding_takes(
                submissions,
                read,
                context,
                verdicts,
                from + 1,
                first,
                so_far,
            );
        }
    }
}

/// How many calls are driven: one more than may be sampled.
pub proof fn lemma_how_many_calls_are_driven(most: int)
    requires
        0 <= most < u64::MAX,
    ensures
        calls_for(most) == most + 1,
{
}

/// A run of aggregation passes only where the component answered for every read it folds.
pub proof fn lemma_every_read_is_driven(
    reads: Seq<(Seq<char>, int)>,
    context: Doc,
    answers: Seq<Result<Json, String>>,
    verdicts: Seq<Result<Verdict, Error>>,
    from: int,
    first: int,
    checks: int,
)
    requires
        0 <= from <= reads.len(),
        aggregation_motion(reads, context, answers, verdicts, from, first, checks) matches Motion::Conclude(
            Grade::Passed(_),
        ),
    ensures
        reads.len() <= answers.len() || from == reads.len(),
        forall|i: int|
            from <= i < reads.len() ==> ((#[trigger] answers[i]) matches Ok(a) && a@.at(
                "submissions"@,
            ).items().len() > 0 && !(a@.at("error"@) is Text)),
    decreases reads.len() - from,
{
    if from < reads.len() {
        let answer = answers[from]->Ok_0;
        let submissions = answer@.at("submissions"@).items();
        let stage = folding_stage(
            submissions,
            reads[from],
            context,
            verdicts,
            0,
            first,
            Folding { records: 0, calls: 0, checks },
        );
        lemma_every_read_is_driven(
            reads,
            context,
            answers,
            verdicts,
            from + 1,
            first + submissions.len(),
            stage->Held_0,
        );
    }
}

/// What each attempt must be refused with: each with the code of its name, an administrative path as
/// what it is, an effect without approval, one whose root is no human in either of two ways,
/// cognition with evidence as cognition that claims an effect; and a prohibited attempt not at all.
pub proof fn lemma_which_codes_are_required(case: Seq<char>, code: Seq<char>)
    requires
        crate::json::named(NEGATIVE_CASES@, case),
    ensures
        required_codes(case) is None <==> case == "prohibited-attempted"@,
        (required_codes(case) matches Some(codes) && codes.contains(code)) <==> {
            ||| (case == "gate-authorization-missing"@ || case == "administrative-path"@) && code
                == "gate-authorization-missing"@
            ||| case == "gate-authorization-action-mismatch"@ && code
                == "gate-authorization-action-mismatch"@
            ||| case == "gate-authorization-replayed"@ && code == "gate-authorization-replayed"@
            ||| case == "mandate-expired"@ && code == "mandate-expired"@
            ||| case == "mandate-root-not-human"@ && (code == "mandate-root-grantor-not-human"@
                || code == "mandate-delegation-depth-exceeded"@)
            ||| case == "cognition-with-evidence"@ && code
                == "cognition-envelope-has-effect-fields"@
        },
{
    reveal_strlit("gate-authorization-missing");
    reveal_strlit("gate-authorization-action-mismatch");
    reveal_strlit("gate-authorization-replayed");
    reveal_strlit("mandate-expired");
    reveal_strlit("mandate-root-not-human");
    reveal_strlit("prohibited-attempted");
    reveal_strlit("cognition-with-evidence");
    reveal_strlit("administrative-path");
    assert("gate-authorization-missing"@.len() == 26);
    assert("gate-authorization-action-mismatch"@.len() == 34);
    assert("gate-authorization-replayed"@.len() == 27);
    assert("mandate-expired"@.len() == 15);
    assert("mandate-root-not-human"@.len() == 22);
    assert("prohibited-attempted"@.len() == 20);
    assert("cognition-with-evidence"@.len() == 23);
    assert("administrative-path"@.len() == 19);
    let cases = NEGATIVE_CASES@;
    assert(cases[0]@ == "gate-authorization-missing"@);
    assert(cases[1]@ == "gate-authorization-action-mismatch"@);
    assert(cases[2]@ == "gate-authorization-replayed"@);
    assert(cases[3]@ == "mandate-expired"@);
    assert(cases[4]@ == "mandate-root-not-human"@);
    assert(cases[5]@ == "prohibited-attempted"@);
    assert(cases[6]@ == "cognition-with-evidence"@);
    assert(cases[7]@ == "administrative-path"@);
    let k = choose|k: int| 0 <= k < cases.len() && #[trigger] cases[k]@ == case;
    assert(k == 0 || k == 1 || k == 2 || k == 3 || k == 4 || k == 5 || k == 6 || k == 7);
    if let Some(codes) = required_codes(case) {
        if codes.len() == 1 {
            assert(codes.contains(codes[0]));
        } else {
            assert(codes.contains(codes[0]));
            assert(codes.contains(codes[1]));
        }
    }
}

/// An attempt is answered rightly exactly where it is refused with a code that it must be refused
/// with, or, where it must not be refused, recorded as attempted.
pub proof fn lemma_how_attempts_must_be_answered(case: Seq<char>, last: Doc, verdict: Verdict)
    ensures
        attempt_fault(case, last, verdict) is None <==> match required_codes(case) {
            Some(codes) => verdict matches Verdict::Rejected { reason, .. } && exists|i: int|
                0 <= i < codes.len() && #[trigger] codes[i] == reason@,
            None => verdict is Accepted && last.at("envelope"@).at("execution"@).at("outcome"@)
                == Doc::Text("attempted"@),
        },
{
}

/// An attempt holds only where everything that sets it up was accepted and the attempt itself was
/// answered rightly.
pub proof fn lemma_what_an_attempt_takes(
    submissions: Seq<Doc>,
    case: Seq<char>,
    verdicts: Seq<Result<Verdict, Error>>,
    from: int,
    first: int,
    checks: int,
)
    requires
        0 <= from < submissions.len(),
        attempt_stage(submissions, case, verdicts, from, first, checks) is Held,
    ensures
        first + submissions.len() <= verdicts.len(),
        forall|i: int|
            from <= i < submissions.len() - 1 ==> ((#[trigger] verdicts[first + i]) matches Ok(
                Verdict::Accepted,
            )),
        verdicts[first + submissions.len() - 1] matches Ok(verdict) && attempt_fault(
            case,
            submissions[submissions.len() - 1],
            verdict,
        ) is None,
        attempt_stage(submissions, case, verdicts, from, first, checks) == Stage::Held(checks + 1),
    decreases submissions.len() - from,
{
    if from < submissions.len() - 1 {
        lemma_what_an_attempt_takes(submissions, case, verdicts, from + 1, first, checks);
    }
}

/// The negative cases pass only where every one of them was tried: the component answered each that
/// it is asked for with something to submit.
pub proof fn lemma_every_case_is_tried(
    context: Doc,
    prepared: Doc,
    answers: Seq<Result<Json, String>>,
    verdicts: Seq<Result<Verdict, Error>>,
    from: int,
    first: int,
    checks: int,
    gated: Option<Doc>,
)
    requires
        0 <= from <= NEGATIVE_CASES@.len(),
        refusals_motion(context, prepared, answers, verdicts, from, first, checks, gated) matches Motion::Conclude(
            Grade::Passed(_),
        ),
    ensures
        forall|i: int|
            from <= i < NEGATIVE_CASES@.len() && #[trigger] NEGATIVE_CASES@[i]@
                != "administrative-path"@ ==> i < answers.len() && (answers[i] matches Ok(a)
                && a@.at("submissions"@).items().len() > 0),
    decreases NEGATIVE_CASES@.len() - from,
{
    if from < NEGATIVE_CASES@.len() {
        let case = NEGATIVE_CASES@[from]@;
        let answer = if from < answers.len() {
            Some(answers[from])
        } else {
            None
        };
        let submissions = attempt_submissions(case, answer, gated)->Ok_0;
        let stage = attempt_stage(submissions, case, verdicts, 0, first, checks);
        lemma_every_case_is_tried(
            context,
            prepared,
            answers,
            verdicts,
            from + 1,
            first + submissions.len(),
            stage->Held_0,
            if case == "gate-authorization-missing"@ {
                Some(submissions.last())
            } else {
                gated
            },
        );
    }
}

/// A queued envelope links where it is the first, or stands one place behind the one before it and
/// names it.
pub proof fn lemma_when_a_queue_links(env: Doc, last: Option<(int, Seq<char>)>)
    requires
        env.at("seq"@).as_u64() is Some,
    ensures
        link_fault(env, last) is None <==> match last {
            None => true,
            Some((before, id)) => env.at("seq"@) == Doc::Int(before + 1) && env.at("prev-hash"@)
                == Doc::Text(id),
        },
{
}

/// A queue holds only where every envelope in it links to the one before it, and none of them
/// applied what needed an approval that could not be had.
pub proof fn lemma_what_a_queue_takes(
    submissions: Seq<Doc>,
    ids: Seq<Result<String, Error>>,
    gated: Seq<char>,
    from: int,
    so_far: Queue,
)
    requires
        0 <= from <= submissions.len(),
        queued(submissions, ids, gated, from, so_far) matches Ok(Ok(_)),
    ensures
        forall|i: int|
            from <= i < submissions.len() ==> {
                let env = (#[trigger] submissions[i]).at("envelope"@);
                &&& env.at("seq"@).as_u64() is Some
                &&& ids[i] is Ok
                &&& !(env.at("execution"@).at("action"@) == Doc::Text(gated) && env.at(
                    "execution"@,
                ).at("outcome"@) == Doc::Text("applied"@))
            },
        forall|i: int|
            from < i < submissions.len() ==> {
                let env = (#[trigger] submissions[i]).at("envelope"@);
                let before = submissions[i - 1].at("envelope"@);
                &&& env.at("seq"@)->Int_0 == before.at("seq"@)->Int_0 + 1
                &&& env.at("prev-hash"@) == Doc::Text(ids[i - 1]->Ok_0@)
            },
        from < submissions.len() ==> link_fault(
            submissions[from].at("envelope"@),
            so_far.last,
        ) is None,
        from < submissions.len() ==> queued(submissions, ids, gated, from, so_far)->Ok_0->Ok_0.last
            == Some(
            (
                submissions.last().at("envelope"@).at("seq"@)->Int_0,
                ids[submissions.len() - 1]->Ok_0@,
            ),
        ),
    decreases submissions.len() - from,
{
    if from < submissions.len() {
        let env = submissions[from].at("envelope"@);
        let next = Queue {
            last: Some((env.at("seq"@).as_u64()->0, ids[from]->Ok_0@)),
            checks: so_far.checks + if so_far.last is Some {
                1int
            } else {
                0int
            },
        };
        lemma_what_a_queue_takes(submissions, ids, gated, from + 1, next);
    }
}

/// A queue reconnects only where every envelope in it was accepted.
pub proof fn lemma_what_reconnecting_takes(
    count: int,
    verdicts: Seq<Result<Verdict, Error>>,
    from: int,
    checks: int,
)
    requires
        0 <= from <= count,
        reconnected(count, verdicts, from, checks) is Held,
    ensures
        count <= verdicts.len() || from == count,
        forall|i: int|
            from <= i < count ==> ((#[trigger] verdicts[i]) matches Ok(Verdict::Accepted)),
        reconnected(count, verdicts, from, checks) == Stage::Held(checks + count - from),
    decreases count - from,
{
    if from < count {
        lemma_what_reconnecting_takes(count, verdicts, from + 1, checks + 1);
    }
}

/// Offline behaviour passes only where the component answered, queued something, reported the gated
/// action as blocked wherever among those it reported, and the queue went on where the stream had
/// ended, was accepted whole and left the stream ending where the queue did.
pub proof fn lemma_what_offline_behaviour_takes(
    context: Doc,
    actions: Seq<Seq<char>>,
    gated: Seq<char>,
    answer: Json,
    ids: Seq<Result<String, Error>>,
    heads: Seq<Result<Option<Head>, Error>>,
    verdicts: Seq<Result<Verdict, Error>>,
)
    requires
        offline_motion(context, actions, gated, Some(Ok(answer)), ids, heads, verdicts) matches Motion::Conclude(
            Grade::Passed(_),
        ),
    ensures
        ({
            let submissions = answer@.at("submissions"@).items();
            let n = submissions.len();
            &&& n > 0
            &&& !(answer@.at("error"@) is Text)
            &&& texts_among(
                answer@.at("blocked"@).items(),
                answer@.at("blocked"@).items().len() as int,
            ).contains(gated)
            &&& forall|i: int|
                0 <= i < n ==> ((#[trigger] verdicts[i]) matches Ok(Verdict::Accepted))
            &&& heads.len() >= 2
            &&& heads[0] matches Ok(before) && submissions[0].at("envelope"@).at("seq"@).as_u64()
                == Some(
                match before {
                    Some(h) => h.seq + 1,
                    None => 0,
                },
            )
            &&& heads[1] matches Ok(Some(after)) && after.seq == submissions[n - 1].at(
                "envelope"@,
            ).at("seq"@)->Int_0 && after.id@ == ids[n - 1]->Ok_0@
        }),
{
    let submissions = answer@.at("submissions"@).items();
    let start = Queue { last: None, checks: 1 };
    lemma_what_a_queue_takes(submissions, ids, gated, 0, start);
    let queue = queued(submissions, ids, gated, 0, start)->Ok_0->Ok_0;
    lemma_what_reconnecting_takes(submissions.len() as int, verdicts, 0, queue.checks + 1);
}

/// A component is asked to emit so many calls of an action, in the context of the run.
pub proof fn lemma_what_emission_is_asked_for(context: Doc, action: Seq<char>, calls: int)
    ensures
        ({
            let d = emit_request(context, action, calls);
            &&& d->Record_0.len() == 4
            &&& d.get("action"@) == Some(Doc::Text(action))
            &&& d.get("case"@) == Some(Doc::Text("emit"@))
            &&& d.get("context"@) == Some(context)
            &&& d.get("count"@) == Some(Doc::Int(calls))
        }),
{
    reveal_strlit("action");
    reveal_strlit("case");
    reveal_strlit("context");
    reveal_strlit("count");
    assert("action"@.len() == 6);
    assert("case"@.len() == 4);
    assert("context"@.len() == 7);
    assert("count"@.len() == 5);
    let members = emit_request(context, action, calls)->Record_0;
    crate::json::lemma_lookup_at(members, "action"@, 0);
    crate::json::lemma_lookup_at(members, "case"@, 1);
    crate::json::lemma_lookup_at(members, "context"@, 2);
    crate::json::lemma_lookup_at(members, "count"@, 3);
}

/// A component is asked to work offline on some actions, one of which is gated, in the context of the
/// run.
pub proof fn lemma_what_offline_work_is_asked_for(context: Doc, actions: Seq<Seq<char>>, gated: Seq<char>)
    ensures
        ({
            let d = offline_request(context, actions, gated);
            &&& d->Record_0.len() == 4
            &&& d.get("actions"@) == Some(Doc::List(crate::conformance::text_docs(actions)))
            &&& d.get("case"@) == Some(Doc::Text("offline"@))
            &&& d.get("context"@) == Some(context)
            &&& d.get("gated"@) == Some(Doc::Text(gated))
        }),
{
    reveal_strlit("actions");
    reveal_strlit("case");
    reveal_strlit("context");
    reveal_strlit("gated");
    assert("actions"@.len() == 7);
    assert("case"@.len() == 4);
    assert("context"@.len() == 7);
    assert("gated"@.len() == 5);
    assert("context"@[0] == 'c');
    assert("actions"@[0] == 'a');
    let members = offline_request(context, actions, gated)->Record_0;
    crate::json::lemma_lookup_at(members, "actions"@, 0);
    crate::json::lemma_lookup_at(members, "case"@, 1);
    crate::json::lemma_lookup_at(members, "context"@, 2);
    crate::json::lemma_lookup_at(members, "gated"@, 3);
}

/// An attempt is made by the component, except that the administrative path is tried by an
/// operator; and what is submitted is what the component answered, or what was gated before.
pub proof fn lemma_who_attempts_what(
    case: Seq<char>,
    answer: Json,
    gated: Option<Doc>,
)
    ensures
        case == "administrative-path"@ ==> attempt_caller(case) == "operator:kernel-admin"@,
        case != "administrative-path"@ ==> attempt_caller(case) == "agent:conformance"@,
        case == "administrative-path"@ ==> (attempt_submissions(case, None, gated) is Ok <==> gated
            is Some),
        case == "administrative-path"@ && gated is Some ==> attempt_submissions(case, None, gated)
            == Ok::<Seq<Doc>, Seq<char>>(seq![gated->0]),
        case != "administrative-path"@ ==> (attempt_submissions(case, Some(Ok(answer)), gated) is Ok
            <==> !(answer@.at("error"@) is Text) && answer@.at("submissions"@).items().len() > 0),
        case != "administrative-path"@ && attempt_submissions(case, Some(Ok(answer)), gated) is Ok
            ==> attempt_submissions(case, Some(Ok(answer)), gated)->Ok_0 == answer@.at(
            "submissions"@,
        ).items(),
{
}

/// A component that declares no read has nothing to fold, and one that does is driven for the first
/// of them first.
pub proof fn lemma_when_there_is_nothing_to_fold(
    d: Doc,
    context: Doc,
    verdicts: Seq<Result<Verdict, Error>>,
)
    ensures
        ({
            let declarations = d.at("actions"@).items();
            let reads = folded_reads(declarations, declarations.len() as int);
            &&& reads.len() == 0 ==> aggregation_next(d, context, Seq::empty(), verdicts)
                == Motion::Conclude(Grade::Passed(1))
            &&& reads.len() > 0 ==> aggregation_next(d, context, Seq::empty(), verdicts)
                == Motion::Ask(emit_request(context, reads[0].0, calls_for(reads[0].1)))
        }),
{
}

} // verus!
