//! Declaring an advanced clock: the record that says so, and the ratchet that keeps a deployment
//! from being run forward and quietly returned.

use vstd::prelude::*;

use crate::clock::{
    advance_fault, shifted, unmoved, AdvancedClock, Clock, ClockAdvance, SystemClock,
    CLOCK_ADVANCE_ACKNOWLEDGEMENT, CLOCK_ADVANCE_DECLARED, CLOCK_ADVANCE_REFUSED,
};
use crate::config::opt_string;
use crate::crypto::{sha256_hex, sha256_hex_of};
use crate::error::{fault, Error, Fault};
use crate::ingest::submission::{Claims, RejectionInput};
use crate::json::{member, member_docs, number, record, text, Doc, Json};
use crate::text::{is_before, join5, opt_text, precedes};

verus! {

// -- the clock a deployment runs on -----------------------------------------------------------

/// The clock a deployment runs on: the host's, or one ahead of it.
#[derive(Debug)]
pub enum KernelClock {
    /// The host's.
    Host(SystemClock),
    /// One ahead of the host's.
    Ahead(AdvancedClock<SystemClock>),
}

impl Clock for KernelClock {
    open spec fn reads(&self, text: Seq<char>) -> bool {
        match *self {
            KernelClock::Host(c) => c.reads(text),
            KernelClock::Ahead(c) => c.reads(text),
        }
    }

    fn now(&self) -> (r: String) {
        match self {
            KernelClock::Host(c) => c.now(),
            KernelClock::Ahead(c) => c.now(),
        }
    }
}

/// The clock a configuration asks for: the host's, unless it declares an advance that a clock can
/// take.
pub fn from_config(advance: Option<ClockAdvance>) -> (r: Result<KernelClock, Error>)
    ensures
        match advance {
            None => r matches Ok(KernelClock::Host(_)),
            Some(a) => match advance_fault(a.seconds as int) {
                Some(f) => r matches Err(e) && e@ == f,
                None => r matches Ok(KernelClock::Ahead(c)) && c.seconds() == a.seconds
                    && c.written() == a.duration@,
            },
        },
{
    match advance {
        None => Ok(KernelClock::Host(SystemClock)),
        Some(a) => match AdvancedClock::new(SystemClock, a) {
            Ok(c) => Ok(KernelClock::Ahead(c)),
            Err(e) => Err(e),
        },
    }
}

// -- the ratchet ------------------------------------------------------------------------------

/// What is wrong with starting at an instant where a deployment has declared one before.
pub open spec fn ratchet_fault(effective: Seq<char>, prior: Option<Seq<char>>) -> Option<Fault> {
    match prior {
        None => None,
        Some(p) => if precedes(effective, p) {
            Some(
                fault(
                    CLOCK_ADVANCE_REFUSED@,
                    "this deployment has already run at "@ + p + " and would now start at "@
                        + effective
                        + ". Its clock does not go backwards: the records it holds were written ahead of real time and moving back would put new ones behind them. Configure a clock-advance that reaches "@
                        + p + " or later, or start from a fresh store"@,
                ),
            )
        } else {
            None
        },
    }
}

/// What is said when an advanced clock starts.
pub open spec fn declaration_doc(advance: ClockAdvance, effective: Seq<char>) -> Doc {
    Doc::Record(
        seq![
            ("acknowledged"@, Doc::Text(CLOCK_ADVANCE_ACKNOWLEDGEMENT@)),
            ("advance"@, Doc::Text(advance.duration@)),
            ("advance-seconds"@, Doc::Int(advance.seconds as int)),
            ("effective"@, Doc::Text(effective)),
            ("real"@, Doc::Text(behind(effective, advance.seconds as int))),
        ],
    )
}

/// The instant behind an advanced one, as far as the fixed form can express it.
pub open spec fn behind(effective: Seq<char>, seconds: int) -> Seq<char> {
    match shifted(effective, -seconds) {
        Ok(t) => t,
        Err(_) => effective,
    }
}

/// What a kernel that starts at an instant declares, given the last declaration of its store: a
/// refusal where the clock has gone backwards, whether or not it is advanced now; and otherwise a
/// declaration where it is.
pub open spec fn declared(
    effective: Seq<char>,
    prior: Option<Seq<char>>,
    advance: Option<&ClockAdvance>,
) -> Result<Option<Doc>, Fault> {
    if let Some(f) = ratchet_fault(effective, prior) {
        Err(f)
    } else {
        match advance {
            None => Ok(None),
            Some(a) => Ok(Some(declaration_doc(*a, effective))),
        }
    }
}

/// What a kernel that starts at an instant declares.
pub fn declare_advance(
    effective: &str,
    prior: Option<&str>,
    advance: Option<&ClockAdvance>,
) -> (r: Result<Option<Json>, Error>)
    requires
        advance matches Some(a) ==> a.seconds > i64::MIN,
    ensures
        match declared(effective@, opt_text(prior), advance) {
            Ok(d) => r matches Ok(v) && crate::gatequeue::opt_json(v) == d,
            Err(f) => r matches Err(e) && e@ == f,
        },
{
    if let Some(p) = prior {
        if is_before(effective, p) {
            let mut detail = join5(
                "this deployment has already run at ",
                p,
                " and would now start at ",
                effective,
                ". Its clock does not go backwards: the records it holds were written ahead of real time and moving back would put new ones behind them. Configure a clock-advance that reaches ",
            );
            detail.push_str(p);
            detail.push_str(" or later, or start from a fresh store");
            return Err(Error::new(CLOCK_ADVANCE_REFUSED, detail));
        }
    }
    let a = match advance {
        None => {
            return Ok(None);
        },
        Some(a) => a,
    };
    let mut out: Vec<(String, Json)> = Vec::new();
    out.push(member("acknowledged", text(CLOCK_ADVANCE_ACKNOWLEDGEMENT)));
    out.push(member("advance", text(a.duration.as_str())));
    out.push(member("advance-seconds", number(a.seconds)));
    out.push(member("effective", text(effective)));
    out.push(member("real", text(unmoved(effective, a.seconds).as_str())));
    assert(member_docs(out@) =~= declaration_doc(*a, effective@)->Record_0);
    Ok(Some(record(out)))
}

/// The record of a declaration, given its canonical form: it is received at the host's own time,
/// so that a reader can tell how far ahead everything after it was written.
pub fn declaration_record(advance: &ClockAdvance, effective: &str, canonical: &str) -> (r: RejectionInput)
    requires
        advance.seconds > i64::MIN,
    ensures
        r.reason@ == CLOCK_ADVANCE_DECLARED@,
        r.detail@ == canonical@,
        r.object_hash@ == sha256_hex_of(vstd::utf8::encode_utf8(canonical@)),
        opt_string(r.submitted_by) == Some("agent:kernel"@),
        r.received_at@ == behind(effective@, advance.seconds as int),
        r.claims.stream is None,
        r.claims.seq is None,
        r.claims.kind is None,
{
    RejectionInput {
        reason: CLOCK_ADVANCE_DECLARED.to_owned(),
        detail: canonical.to_owned(),
        object_hash: sha256_hex(canonical.as_bytes()),
        submitted_by: Some("agent:kernel".to_owned()),
        received_at: unmoved(effective, advance.seconds),
        claims: Claims { stream: None, seq: None, kind: None },
    }
}

/// The instant the last declaration of a store names, read from its detail.
pub fn last_declared_instant(detail: Option<&Json>) -> (r: Option<&str>)
    ensures
        opt_text(r) == match crate::config::opt_doc(detail) {
            Some(d) => d.text_at("effective"@),
            None => None,
        },
{
    match detail {
        Some(d) => d.text_at("effective"),
        None => None,
    }
}

// -- laws -------------------------------------------------------------------------------------

/// A clock that was moved forward is never quietly returned: once a deployment has declared an
/// instant, it starts at no earlier one, advanced or not.
pub proof fn lemma_the_clock_does_not_go_backwards(
    effective: Seq<char>,
    prior: Seq<char>,
    advance: Option<&ClockAdvance>,
)
    requires
        declared(effective, Some(prior), advance) is Ok,
    ensures
        !precedes(effective, prior),
{
}

/// An advanced clock is never quiet: every start at which it runs declares it.
pub proof fn lemma_advances_are_declared(
    effective: Seq<char>,
    prior: Option<Seq<char>>,
    advance: ClockAdvance,
)
    requires
        declared(effective, prior, Some(&advance)) is Ok,
    ensures
        declared(effective, prior, Some(&advance)) == Ok::<Option<Doc>, Fault>(
            Some(declaration_doc(advance, effective)),
        ),
{
}

/// What a declaration says: that what is recorded is no evidence of when, by how much the clock is
/// ahead, and what it and the host read.
pub proof fn lemma_what_a_declaration_says(advance: ClockAdvance, effective: Seq<char>)
    ensures
        ({
            let d = declaration_doc(advance, effective);
            &&& d.get("acknowledged"@) == Some(Doc::Text(CLOCK_ADVANCE_ACKNOWLEDGEMENT@))
            &&& d.get("advance"@) == Some(Doc::Text(advance.duration@))
            &&& d.get("advance-seconds"@) == Some(Doc::Int(advance.seconds as int))
            &&& d.get("effective"@) == Some(Doc::Text(effective))
            &&& d.get("real"@) == Some(Doc::Text(behind(effective, advance.seconds as int)))
        }),
{
    reveal_strlit("acknowledged");
    reveal_strlit("advance");
    reveal_strlit("advance-seconds");
    reveal_strlit("effective");
    reveal_strlit("real");
    assert("acknowledged"@.len() == 12);
    assert("advance"@.len() == 7);
    assert("advance-seconds"@.len() == 15);
    assert("effective"@.len() == 9);
    assert("real"@.len() == 4);
    let members = declaration_doc(advance, effective)->Record_0;
    crate::json::lemma_lookup_at(members, "acknowledged"@, 0);
    crate::json::lemma_lookup_at(members, "advance"@, 1);
    crate::json::lemma_lookup_at(members, "advance-seconds"@, 2);
    crate::json::lemma_lookup_at(members, "effective"@, 3);
    crate::json::lemma_lookup_at(members, "real"@, 4);
}

/// A clock that starts no earlier than it has run is let start, ahead or not; one that starts
/// earlier never is.
pub proof fn lemma_when_a_clock_may_start(
    effective: Seq<char>,
    prior: Option<Seq<char>>,
    advance: Option<&ClockAdvance>,
)
    ensures
        declared(effective, prior, advance) is Err <==> (prior matches Some(p) && precedes(
            effective,
            p,
        )),
        declared(effective, prior, advance) matches Ok(d) ==> (d is Some <==> advance is Some),
{
}

} // verus!
