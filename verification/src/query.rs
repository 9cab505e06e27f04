//! Asking the log: the parameters of a request and the query they make.

use vstd::prelude::*;

use crate::arguments::{integer, parse_i64, within};
use crate::text::{opt_text, same};

verus! {

/// The views of some parameters.
pub open spec fn param_views(params: Seq<(String, String)>) -> Seq<(Seq<char>, Seq<char>)> {
    Seq::new(params.len(), |i: int| (params[i].0@, params[i].1@))
}

/// The value of the last parameter of a name before a place.
pub open spec fn param_upto(
    params: Seq<(Seq<char>, Seq<char>)>,
    name: Seq<char>,
    upto: int,
) -> Option<Seq<char>>
    decreases upto,
{
    if upto <= 0 || upto > params.len() {
        None
    } else if params[upto - 1].0 == name {
        Some(params[upto - 1].1)
    } else {
        param_upto(params, name, upto - 1)
    }
}

/// The value of a parameter: the last, where it is given more than once.
pub open spec fn param_of(params: Seq<(String, String)>, name: Seq<char>) -> Option<Seq<char>> {
    param_upto(param_views(params), name, params.len() as int)
}

/// The value of a parameter: the last, where it is given more than once.
pub fn param<'a>(params: &'a Vec<(String, String)>, name: &str) -> (r: Option<&'a str>)
    ensures
        opt_text(r) == param_of(params@, name@),
{
    let ghost all = param_views(params@);
    let mut i: usize = params.len();
    while i > 0
        invariant
            i <= params@.len(),
            all == param_views(params@),
            param_of(params@, name@) == param_upto(all, name@, i as int),
        decreases i,
    {
        if same(params[i - 1].0.as_str(), name) {
            return Some(params[i - 1].1.as_str());
        }
        i -= 1;
    }
    None
}

/// The number a parameter is, or a default where it is none.
pub open spec fn number_of(value: Option<Seq<char>>, default: int) -> int {
    match value {
        Some(v) => match within(integer(v), i64::MIN as int, i64::MAX as int) {
            Some(n) => n,
            None => default,
        },
        None => default,
    }
}

/// The number a parameter is, or a default.
pub fn number_in(value: Option<&str>, default: i64) -> (r: i64)
    ensures
        r == number_of(opt_text(value), default as int),
{
    match value {
        Some(v) => match parse_i64(v) {
            Some(n) => n,
            None => default,
        },
        None => default,
    }
}

/// A number held between two bounds.
pub open spec fn held(n: int, least: int, most: int) -> int {
    if n < least {
        least
    } else if n > most {
        most
    } else {
        n
    }
}

/// A number held between two bounds.
pub fn clamp(n: i64, least: i64, most: i64) -> (r: i64)
    ensures
        r == held(n as int, least as int, most as int),
{
    if n < least {
        least
    } else if n > most {
        most
    } else {
        n
    }
}

/// What is asked of the log. A dimension that is not given matches everything.
#[derive(Debug)]
pub struct EnvelopeQuery<'a> {
    /// The acting subject.
    pub subject: Option<&'a str>,
    /// The mandate.
    pub mandate_ref: Option<&'a str>,
    /// A mandate and everything delegated beneath it.
    pub mandate_subtree_of: Option<&'a str>,
    /// The effective weight class.
    pub classification: Option<&'a str>,
    /// The kind.
    pub kind: Option<&'a str>,
    /// The action.
    pub action: Option<&'a str>,
    /// The emitting component.
    pub component: Option<&'a str>,
    /// The stream.
    pub stream: Option<&'a str>,
    /// The earliest instant of emission.
    pub emitted_from: Option<&'a str>,
    /// The latest instant of emission.
    pub emitted_to: Option<&'a str>,
    /// The correlation reference.
    pub correlation_ref: Option<&'a str>,
    /// What the correlation reference begins with.
    pub correlation_prefix: Option<&'a str>,
    /// The durable object.
    pub commitment_id: Option<&'a str>,
    /// How the execution ended.
    pub outcome: Option<&'a str>,
    /// The human the mandate walk reached.
    pub human_root: Option<&'a str>,
    /// Only records that confess a violation.
    pub violations_only: bool,
    /// The most rows.
    pub limit: i64,
    /// How many rows are passed over.
    pub offset: i64,
    /// The row it resumes behind, as the store writes it.
    pub after: Option<&'a str>,
}

/// Whether a query asks what the parameters of a request say.
pub open spec fn is_asked(q: EnvelopeQuery, params: Seq<(String, String)>) -> bool {
    &&& opt_text(q.subject) == param_of(params, "subject"@)
    &&& opt_text(q.mandate_ref) == param_of(params, "mandate-ref"@)
    &&& opt_text(q.mandate_subtree_of) == param_of(params, "mandate-subtree-of"@)
    &&& opt_text(q.classification) == param_of(params, "classification"@)
    &&& opt_text(q.kind) == param_of(params, "kind"@)
    &&& opt_text(q.action) == param_of(params, "action"@)
    &&& opt_text(q.component) == param_of(params, "component"@)
    &&& opt_text(q.stream) == param_of(params, "stream"@)
    &&& opt_text(q.emitted_from) == param_of(params, "emitted-from"@)
    &&& opt_text(q.emitted_to) == param_of(params, "emitted-to"@)
    &&& opt_text(q.correlation_ref) == param_of(params, "correlation-ref"@)
    &&& opt_text(q.correlation_prefix) == param_of(params, "correlation-prefix"@)
    &&& opt_text(q.commitment_id) == param_of(params, "commitment-id"@)
    &&& opt_text(q.outcome) == param_of(params, "outcome"@)
    &&& opt_text(q.human_root) == param_of(params, "human-root"@)
    &&& q.violations_only == (param_of(params, "violations-only"@) == Some("true"@))
    &&& q.limit == number_of(param_of(params, "limit"@), 100)
    &&& q.offset == number_of(param_of(params, "offset"@), 0)
    &&& q.after is None
}

/// Whether a parameter says a word.
pub fn says(value: Option<&str>, word: &str) -> (r: bool)
    ensures
        r == (opt_text(value) == Some(word@)),
{
    match value {
        Some(v) => same(v, word),
        None => false,
    }
}

/// What a request asks of the log.
pub fn get_envelopes<'a>(params: &'a Vec<(String, String)>) -> (r: EnvelopeQuery<'a>)
    ensures
        is_asked(r, params@),
{
    EnvelopeQuery {
        subject: param(params, "subject"),
        mandate_ref: param(params, "mandate-ref"),
        mandate_subtree_of: param(params, "mandate-subtree-of"),
        classification: param(params, "classification"),
        kind: param(params, "kind"),
        action: param(params, "action"),
        component: param(params, "component"),
        stream: param(params, "stream"),
        emitted_from: param(params, "emitted-from"),
        emitted_to: param(params, "emitted-to"),
        correlation_ref: param(params, "correlation-ref"),
        correlation_prefix: param(params, "correlation-prefix"),
        commitment_id: param(params, "commitment-id"),
        outcome: param(params, "outcome"),
        human_root: param(params, "human-root"),
        violations_only: says(param(params, "violations-only"), "true"),
        limit: number_in(param(params, "limit"), 100),
        offset: number_in(param(params, "offset"), 0),
        after: None,
    }
}

impl<'a> EnvelopeQuery<'a> {
    /// Everything, so many rows of it.
    pub fn all(limit: i64) -> (r: EnvelopeQuery<'a>)
        ensures
            asks_everything(r),
            r.outcome is None,
            !r.violations_only,
            r.limit == limit,
    {
        EnvelopeQuery {
            subject: None,
            mandate_ref: None,
            mandate_subtree_of: None,
            classification: None,
            kind: None,
            action: None,
            component: None,
            stream: None,
            emitted_from: None,
            emitted_to: None,
            correlation_ref: None,
            correlation_prefix: None,
            commitment_id: None,
            outcome: None,
            human_root: None,
            violations_only: false,
            limit,
            offset: 0,
            after: None,
        }
    }

    /// What ended in a way, so many rows of it.
    pub fn of_outcome(outcome: &'a str, limit: i64) -> (r: EnvelopeQuery<'a>)
        ensures
            asks_everything(r),
            opt_text(r.outcome) == Some(outcome@),
            !r.violations_only,
            r.limit == limit,
    {
        let mut query = EnvelopeQuery::all(limit);
        query.outcome = Some(outcome);
        query
    }

    /// What confesses a violation, so many rows of it.
    pub fn of_violations(limit: i64) -> (r: EnvelopeQuery<'a>)
        ensures
            asks_everything(r),
            r.outcome is None,
            r.violations_only,
            r.limit == limit,
    {
        let mut query = EnvelopeQuery::all(limit);
        query.violations_only = true;
        query
    }
}

/// Whether a query is held by nothing but how an execution ended and what it confesses.
pub open spec fn asks_everything(q: EnvelopeQuery) -> bool {
    &&& q.subject is None
    &&& q.mandate_ref is None
    &&& q.mandate_subtree_of is None
    &&& q.classification is None
    &&& q.kind is None
    &&& q.action is None
    &&& q.component is None
    &&& q.stream is None
    &&& q.emitted_from is None
    &&& q.emitted_to is None
    &&& q.correlation_ref is None
    &&& q.correlation_prefix is None
    &&& q.commitment_id is None
    &&& q.human_root is None
    &&& q.offset == 0
    &&& q.after is None
}

/// What a request asks of the queue: answered requests or open ones, and how many.
pub fn get_gate_requests(params: &Vec<(String, String)>) -> (r: (bool, i64))
    ensures
        r.0 == (param_of(params@, "answered"@) == Some("true"@)),
        r.1 == number_of(param_of(params@, "limit"@), 200),
{
    (says(param(params, "answered"), "true"), number_in(param(params, "limit"), 200))
}

/// What a request asks of the refusals: a reason, where it names one, and how many, within bounds.
pub fn get_rejections<'a>(params: &'a Vec<(String, String)>) -> (r: (Option<&'a str>, i64))
    ensures
        opt_text(r.0) == param_of(params@, "reason"@),
        r.1 == held(number_of(param_of(params@, "limit"@), 100), 1, 1_000),
{
    (param(params, "reason"), clamp(number_in(param(params, "limit"), 100), 1, 1_000))
}

// -- laws -------------------------------------------------------------------------------------

proof fn lemma_param_upto(params: Seq<(Seq<char>, Seq<char>)>, name: Seq<char>, upto: int)
    requires
        0 <= upto <= params.len(),
    ensures
        match param_upto(params, name, upto) {
            Some(value) => exists|k: int|
                0 <= k < upto && (#[trigger] params[k]) == (name, value) && forall|j: int|
                    k < j < upto ==> (#[trigger] params[j]).0 != name,
            None => forall|j: int| 0 <= j < upto ==> (#[trigger] params[j]).0 != name,
        },
    decreases upto,
{
    if upto > 0 {
        if params[upto - 1].0 == name {
            assert(params[upto - 1] == (name, params[upto - 1].1));
        } else {
            lemma_param_upto(params, name, upto - 1);
        }
    }
}

/// A parameter is found wherever it stands, and where it is given more than once the last says what
/// holds.
pub proof fn lemma_the_last_parameter_holds(params: Seq<(String, String)>, name: Seq<char>)
    ensures
        match param_of(params, name) {
            Some(value) => exists|k: int|
                0 <= k < params.len() && (#[trigger] params[k]).0@ == name && params[k].1@ == value
                    && forall|j: int| k < j < params.len() ==> (#[trigger] params[j]).0@ != name,
            None => forall|j: int| 0 <= j < params.len() ==> (#[trigger] params[j]).0@ != name,
        },
{
    let views = param_views(params);
    lemma_param_upto(views, name, params.len() as int);
    match param_of(params, name) {
        Some(value) => {
            let k = choose|k: int|
                0 <= k < views.len() && (#[trigger] views[k]) == (name, value) && forall|j: int|
                    k < j < views.len() ==> (#[trigger] views[j]).0 != name;
            assert(params[k].0@ == name);
            assert forall|j: int| k < j < params.len() implies (#[trigger] params[j]).0@ != name by {
                assert(views[j].0 != name);
            }
        },
        None => {
            assert forall|j: int| 0 <= j < params.len() implies (#[trigger] params[j]).0@
                != name by {
                assert(views[j].0 != name);
            }
        },
    }
}

/// What is held within bounds is within them, is itself where it was, and is the nearer bound where
/// it was not.
pub proof fn lemma_what_is_held_is_within(n: int, least: int, most: int)
    requires
        least <= most,
    ensures
        least <= held(n, least, most) <= most,
        least <= n <= most ==> held(n, least, most) == n,
        n < least ==> held(n, least, most) == least,
        n > most ==> held(n, least, most) == most,
{
}

/// Every parameter of the log asks for its own member and no other, a page is a hundred envelopes
/// from the first where nothing else is said, and only `true` narrows it to violations.
pub proof fn lemma_parameters_ask_for_their_own(q: EnvelopeQuery, params: Seq<(String, String)>)
    requires
        is_asked(q, params),
    ensures
        opt_text(q.subject) == param_of(params, "subject"@),
        opt_text(q.mandate_ref) == param_of(params, "mandate-ref"@),
        opt_text(q.mandate_subtree_of) == param_of(params, "mandate-subtree-of"@),
        opt_text(q.classification) == param_of(params, "classification"@),
        opt_text(q.kind) == param_of(params, "kind"@),
        opt_text(q.action) == param_of(params, "action"@),
        opt_text(q.component) == param_of(params, "component"@),
        opt_text(q.stream) == param_of(params, "stream"@),
        opt_text(q.emitted_from) == param_of(params, "emitted-from"@),
        opt_text(q.emitted_to) == param_of(params, "emitted-to"@),
        opt_text(q.correlation_ref) == param_of(params, "correlation-ref"@),
        opt_text(q.correlation_prefix) == param_of(params, "correlation-prefix"@),
        opt_text(q.commitment_id) == param_of(params, "commitment-id"@),
        opt_text(q.outcome) == param_of(params, "outcome"@),
        opt_text(q.human_root) == param_of(params, "human-root"@),
        q.violations_only <==> param_of(params, "violations-only"@) == Some("true"@),
        param_of(params, "limit"@) is None ==> q.limit == 100,
        param_of(params, "offset"@) is None ==> q.offset == 0,
        param_of(params, "limit"@) matches Some(t) ==> match integer(t) {
            Some(n) => q.limit == if i64::MIN <= n <= i64::MAX {
                n
            } else {
                100
            },
            None => q.limit == 100,
        },
        param_of(params, "offset"@) matches Some(t) ==> match integer(t) {
            Some(n) => q.offset == if i64::MIN <= n <= i64::MAX {
                n
            } else {
                0
            },
            None => q.offset == 0,
        },
{
}

/// A query for everything narrows nothing.
pub proof fn lemma_everything_is_not_narrowed(q: EnvelopeQuery)
    requires
        asks_everything(q),
    ensures
        q.subject is None && q.mandate_ref is None && q.mandate_subtree_of is None,
        q.classification is None && q.kind is None && q.action is None && q.component is None,
        q.stream is None && q.emitted_from is None && q.emitted_to is None,
        q.correlation_ref is None && q.correlation_prefix is None && q.commitment_id is None,
        q.human_root is None && q.after is None && q.offset == 0,
{
}

} // verus!
