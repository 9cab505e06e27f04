//! Budgets: what one envelope adds to the running totals of its mandates, and whether a cap has
//! room for it.
//!
//! Only what was consumed is charged: a refused effect costs nothing. A figure that cannot be
//! compared is never headroom.

use vstd::prelude::*;

use crate::decimal::{fits, sum_at_most};
use crate::json::{is_text, member_docs, named, one_of, Doc, Json};
use crate::text::{begins, same, signed, signed_text, starts_with};

verus! {

/// The dimensions of a `cost` that are budget dimensions too, besides money.
pub const COST_DIMENSIONS: [&'static str; 3] = ["tokens-in", "tokens-out", "wall-clock-seconds"];

/// A figure per dimension.
pub type Amounts = Vec<(String, String)>;

/// What figures held as values stand for.
pub open spec fn figures(amounts: Seq<(String, String)>) -> Seq<(Seq<char>, Seq<char>)> {
    Seq::new(amounts.len(), |i: int| (amounts[i].0@, amounts[i].1@))
}

/// The figure of a dimension, from a place on.
pub open spec fn figure_of(
    amounts: Seq<(Seq<char>, Seq<char>)>,
    dimension: Seq<char>,
    from: int,
) -> Option<Seq<char>>
    decreases amounts.len() - from,
{
    if from >= amounts.len() {
        None
    } else if amounts[from].0 == dimension {
        Some(amounts[from].1)
    } else {
        figure_of(amounts, dimension, from + 1)
    }
}

/// The figure a document is: a string as it stands, or a whole number in sixty-four bits.
pub open spec fn figure(d: Doc) -> Option<Seq<char>> {
    match d {
        Doc::Text(s) => Some(s),
        _ => match d.as_i64() {
            Some(n) => Some(signed(n)),
            None => None,
        },
    }
}

/// Whether a dimension of a `cost` accrues: one of those shared with budgets, or money.
pub open spec fn accrues(dimension: Seq<char>) -> bool {
    named(COST_DIMENSIONS@, dimension) || begins(dimension, "money-"@)
}

/// The figures of a `cost` that accrue, up to a place.
pub open spec fn cost_figures(
    cost: Seq<(Seq<char>, Doc)>,
    upto: int,
) -> Seq<(Seq<char>, Seq<char>)>
    decreases upto,
{
    if upto <= 0 {
        Seq::empty()
    } else {
        let (dimension, value) = cost[upto - 1];
        let before = cost_figures(cost, upto - 1);
        match figure(value) {
            Some(f) => if accrues(dimension) {
                before.push((dimension, f))
            } else {
                before
            },
            None => before,
        }
    }
}

/// What an envelope adds: one request where it is an effect that was applied, and the figures of
/// its cost that accrue.
pub open spec fn accrual(envelope: Doc) -> Seq<(Seq<char>, Seq<char>)> {
    let requests = if envelope.text_at("kind"@) == Some("effect"@) && envelope.at(
        "execution"@,
    ).text_at("outcome"@) == Some("applied"@) {
        seq![("requests"@, "1"@)]
    } else {
        Seq::empty()
    };
    match envelope.at("cost"@).as_record() {
        Some(cost) => requests + cost_figures(cost, cost.len() as int),
        None => requests,
    }
}

/// The figure a document is.
fn read_figure(d: &Json) -> (r: Option<String>)
    ensures
        match figure(d@) {
            Some(f) => r matches Some(s) && s@ == f,
            None => r is None,
        },
{
    match d {
        Json::Text(s) => Some(s.clone()),
        _ => match d.as_i64() {
            Some(n) => Some(signed_text(n)),
            None => None,
        },
    }
}

/// What one envelope adds to the running totals, by dimension.
pub fn accrual_of(envelope: &Json) -> (r: Amounts)
    ensures
        figures(r@) == accrual(envelope@),
{
    let mut amounts: Amounts = Vec::new();
    if is_text(envelope.at("kind"), "effect") && is_text(
        envelope.at("execution").at("outcome"),
        "applied",
    ) {
        amounts.push(("requests".to_owned(), "1".to_owned()));
    }
    let ghost requests = figures(amounts@);
    assert(requests =~= if envelope@.text_at("kind"@) == Some("effect"@) && envelope@.at(
        "execution"@,
    ).text_at("outcome"@) == Some("applied"@) {
        seq![("requests"@, "1"@)]
    } else {
        Seq::empty()
    });
    match envelope.at("cost").as_record() {
        None => {},
        Some(cost) => {
            let mut i: usize = 0;
            assert(requests =~= requests + cost_figures(member_docs(cost@), 0));
            while i < cost.len()
                invariant
                    i <= cost@.len(),
                    figures(amounts@) == requests + cost_figures(member_docs(cost@), i as int),
                decreases cost@.len() - i,
            {
                let dimension = cost[i].0.as_str();
                if one_of(dimension, &COST_DIMENSIONS) || starts_with(dimension, "money-") {
                    if let Some(amount) = read_figure(&cost[i].1) {
                        let ghost before = figures(amounts@);
                        amounts.push((cost[i].0.clone(), amount));
                        assert(figures(amounts@) =~= before.push((cost@[i as int].0@, amount@)));
                    }
                }
                i += 1;
                assert(figures(amounts@) =~= requests + cost_figures(
                    member_docs(cost@),
                    i as int,
                ));
            }
        },
    }
    amounts
}

/// The figure of a dimension.
fn find_figure<'a>(amounts: &'a Amounts, dimension: &str) -> (r: Option<&'a str>)
    ensures
        match figure_of(figures(amounts@), dimension@, 0) {
            Some(f) => r matches Some(s) && s@ == f,
            None => r is None,
        },
{
    let mut i: usize = 0;
    while i < amounts.len()
        invariant
            i <= amounts@.len(),
            figure_of(figures(amounts@), dimension@, 0) == figure_of(
                figures(amounts@),
                dimension@,
                i as int,
            ),
        decreases amounts@.len() - i,
    {
        if same(amounts[i].0.as_str(), dimension) {
            return Some(amounts[i].1.as_str());
        }
        i += 1;
    }
    None
}

/// Whether a cap on a dimension has no room for what is being added to what is held: a cap or a
/// figure that cannot be read has none, and a dimension to which nothing is added needs none.
pub open spec fn exceeds(
    dimension: Seq<char>,
    limit: Doc,
    accrued: Seq<(Seq<char>, Seq<char>)>,
    adding: Seq<(Seq<char>, Seq<char>)>,
) -> bool {
    match figure_of(adding, dimension, 0) {
        None => false,
        Some(more) => {
            let held = match figure_of(accrued, dimension, 0) {
                Some(h) => h,
                None => "0"@,
            };
            match figure(limit) {
                None => true,
                Some(cap) => !fits(held, more, cap),
            }
        },
    }
}

/// The dimensions of a cap, up to a place, that have no room.
pub open spec fn exceeded(
    cap: Seq<(Seq<char>, Doc)>,
    accrued: Seq<(Seq<char>, Seq<char>)>,
    adding: Seq<(Seq<char>, Seq<char>)>,
    upto: int,
) -> Seq<Seq<char>>
    decreases upto,
{
    if upto <= 0 {
        Seq::empty()
    } else {
        let before = exceeded(cap, accrued, adding, upto - 1);
        let (dimension, limit) = cap[upto - 1];
        if exceeds(dimension, limit, accrued, adding) {
            before.push(dimension)
        } else {
            before
        }
    }
}

/// The dimensions of a cap that have no room; a cap that is no record bounds nothing.
pub open spec fn over_budget(
    cap: Doc,
    accrued: Seq<(Seq<char>, Seq<char>)>,
    adding: Seq<(Seq<char>, Seq<char>)>,
) -> Seq<Seq<char>> {
    match cap.as_record() {
        Some(members) => exceeded(members, accrued, adding, members.len() as int),
        None => Seq::empty(),
    }
}

/// The dimensions on which `accrued` and `adding` together would exceed `cap`.
///
/// Empty means there is room. A dimension the cap does not name is unbounded.
pub fn would_exceed(cap: &Json, accrued: &Amounts, adding: &Amounts) -> (r: Vec<String>)
    ensures
        crate::text::texts(r@) == over_budget(cap@, figures(accrued@), figures(adding@)),
{
    let mut out: Vec<String> = Vec::new();
    match cap.as_record() {
        None => {
            assert(crate::text::texts(out@) =~= Seq::empty());
        },
        Some(members) => {
            let mut i: usize = 0;
            assert(crate::text::texts(out@) =~= Seq::empty());
            while i < members.len()
                invariant
                    i <= members@.len(),
                    crate::text::texts(out@) == exceeded(
                        member_docs(members@),
                        figures(accrued@),
                        figures(adding@),
                        i as int,
                    ),
                decreases members@.len() - i,
            {
                let dimension = members[i].0.as_str();
                let over = match find_figure(adding, dimension) {
                    None => false,
                    Some(more) => {
                        let held = match find_figure(accrued, dimension) {
                            Some(h) => h,
                            None => "0",
                        };
                        match read_figure(&members[i].1) {
                            None => true,
                            Some(limit) => !sum_at_most(held, more, limit.as_str()),
                        }
                    },
                };
                let ghost before = crate::text::texts(out@);
                if over {
                    out.push(members[i].0.clone());
                    assert(crate::text::texts(out@) =~= before.push(members@[i as int].0@));
                }
                i += 1;
            }
        },
    }
    out
}

// -- laws -------------------------------------------------------------------------------------

/// An effect that was not applied adds no request: a refusal is never charged as an action.
pub proof fn lemma_refusals_are_not_charged(envelope: Doc)
    requires
        envelope.text_at("kind"@) == Some("effect"@),
        envelope.at("execution"@).text_at("outcome"@) != Some("applied"@),
        envelope.at("cost"@).as_record() is None,
    ensures
        accrual(envelope).len() == 0,
{
}

/// A cap on a dimension that something is added to and that cannot be read as a figure is
/// exceeded: a budget check fails closed.
pub proof fn lemma_unreadable_caps_are_exceeded(
    dimension: Seq<char>,
    limit: Doc,
    accrued: Seq<(Seq<char>, Seq<char>)>,
    adding: Seq<(Seq<char>, Seq<char>)>,
)
    requires
        figure_of(adding, dimension, 0) is Some,
        figure(limit) is None || !crate::decimal::is_decimal(figure(limit)->0),
    ensures
        exceeds(dimension, limit, accrued, adding),
{
}

/// A dimension to which nothing is added is never exceeded.
pub proof fn lemma_untouched_dimensions_have_room(
    dimension: Seq<char>,
    limit: Doc,
    accrued: Seq<(Seq<char>, Seq<char>)>,
    adding: Seq<(Seq<char>, Seq<char>)>,
)
    requires
        figure_of(adding, dimension, 0) is None,
    ensures
        !exceeds(dimension, limit, accrued, adding),
{
}

/// The figure of a dimension is the first that is held under its name, and there is none only
/// where none is.
pub proof fn lemma_the_first_figure_is_found(
    amounts: Seq<(Seq<char>, Seq<char>)>,
    dimension: Seq<char>,
    from: int,
)
    requires
        0 <= from <= amounts.len(),
    ensures
        match figure_of(amounts, dimension, from) {
            Some(f) => exists|k: int|
                from <= k < amounts.len() && (#[trigger] amounts[k]).0 == dimension && amounts[k].1
                    == f && forall|j: int|
                    from <= j < k ==> (#[trigger] amounts[j]).0 != dimension,
            None => forall|j: int|
                from <= j < amounts.len() ==> (#[trigger] amounts[j]).0 != dimension,
        },
    decreases amounts.len() - from,
{
    if from < amounts.len() {
        if amounts[from].0 == dimension {
            assert(amounts[from].1 == amounts[from].1);
        } else {
            lemma_the_first_figure_is_found(amounts, dimension, from + 1);
        }
    }
}

/// A dimension of a cap that has no room is reported.
proof fn lemma_exceeded_dimension(
    cap: Seq<(Seq<char>, Doc)>,
    accrued: Seq<(Seq<char>, Seq<char>)>,
    adding: Seq<(Seq<char>, Seq<char>)>,
    upto: int,
    i: int,
)
    requires
        0 <= i < upto <= cap.len(),
        exceeds(cap[i].0, cap[i].1, accrued, adding),
    ensures
        exceeded(cap, accrued, adding, upto).contains(cap[i].0),
    decreases upto,
{
    let before = exceeded(cap, accrued, adding, upto - 1);
    let out = exceeded(cap, accrued, adding, upto);
    if i < upto - 1 {
        lemma_exceeded_dimension(cap, accrued, adding, upto - 1, i);
        let k = choose|k: int| 0 <= k < before.len() && before[k] == cap[i].0;
        assert(out[k] == cap[i].0);
    } else {
        assert(out[before.len() as int] == cap[i].0);
    }
}

/// A dimension that is reported is one of the cap that has no room.
proof fn lemma_reported_dimension(
    cap: Seq<(Seq<char>, Doc)>,
    accrued: Seq<(Seq<char>, Seq<char>)>,
    adding: Seq<(Seq<char>, Seq<char>)>,
    upto: int,
    k: int,
) -> (r: int)
    requires
        0 <= upto <= cap.len(),
        0 <= k < exceeded(cap, accrued, adding, upto).len(),
    ensures
        0 <= r < upto,
        cap[r].0 == exceeded(cap, accrued, adding, upto)[k],
        exceeds(cap[r].0, cap[r].1, accrued, adding),
    decreases upto,
{
    let before = exceeded(cap, accrued, adding, upto - 1);
    if k < before.len() {
        lemma_reported_dimension(cap, accrued, adding, upto - 1, k)
    } else {
        upto - 1
    }
}

/// The dimensions that a budget reports are those of its own that have no room, all of them: one
/// to which something is added, and whose cap is no figure, or to which what is held, or nothing
/// where nothing is, and what is added do not fit together. A budget without dimensions, and a
/// dimension that it does not name, bound nothing.
pub proof fn lemma_every_dimension_is_held_to_its_cap(
    members: Seq<(Seq<char>, Doc)>,
    accrued: Seq<(Seq<char>, Seq<char>)>,
    adding: Seq<(Seq<char>, Seq<char>)>,
    dimension: Seq<char>,
)
    ensures
        over_budget(Doc::Record(members), accrued, adding).contains(dimension) <==> exists|i: int|
            {
                &&& 0 <= i < members.len()
                &&& (#[trigger] members[i]).0 == dimension
                &&& figure_of(adding, dimension, 0) matches Some(more) && match figure(
                    members[i].1,
                ) {
                    None => true,
                    Some(limit) => !fits(
                        match figure_of(accrued, dimension, 0) {
                            Some(held) => held,
                            None => "0"@,
                        },
                        more,
                        limit,
                    ),
                }
            },
{
    let out = exceeded(members, accrued, adding, members.len() as int);
    assert(over_budget(Doc::Record(members), accrued, adding) == out);
    if out.contains(dimension) {
        let k = choose|k: int| 0 <= k < out.len() && out[k] == dimension;
        let i = lemma_reported_dimension(members, accrued, adding, members.len() as int, k);
        assert(members[i].0 == dimension);
    }
    assert forall|i: int|
        0 <= i < members.len() && (#[trigger] members[i]).0 == dimension && exceeds(
            dimension,
            members[i].1,
            accrued,
            adding,
        ) implies out.contains(dimension) by {
        lemma_exceeded_dimension(members, accrued, adding, members.len() as int, i);
    }
}

/// A figure of a cost that accrues is added.
proof fn lemma_cost_figure(cost: Seq<(Seq<char>, Doc)>, upto: int, i: int)
    requires
        0 <= i < upto <= cost.len(),
        accrues(cost[i].0),
        figure(cost[i].1) is Some,
    ensures
        cost_figures(cost, upto).contains((cost[i].0, figure(cost[i].1)->0)),
    decreases upto,
{
    let before = cost_figures(cost, upto - 1);
    let out = cost_figures(cost, upto);
    let added = (cost[i].0, figure(cost[i].1)->0);
    if i < upto - 1 {
        lemma_cost_figure(cost, upto - 1, i);
        let k = choose|k: int| 0 <= k < before.len() && before[k] == added;
        assert(out[k] == added);
    } else {
        assert(out[before.len() as int] == added);
    }
}

/// What is added of a cost is a figure of it that accrues.
proof fn lemma_added_figure(cost: Seq<(Seq<char>, Doc)>, upto: int, k: int) -> (r: int)
    requires
        0 <= upto <= cost.len(),
        0 <= k < cost_figures(cost, upto).len(),
    ensures
        0 <= r < upto,
        accrues(cost[r].0),
        figure(cost[r].1) == Some(cost_figures(cost, upto)[k].1),
        cost[r].0 == cost_figures(cost, upto)[k].0,
    decreases upto,
{
    let before = cost_figures(cost, upto - 1);
    if k < before.len() {
        lemma_added_figure(cost, upto - 1, k)
    } else {
        upto - 1
    }
}

/// The dimensions that accrue: tokens in and out, seconds by the clock, and money of any currency.
pub proof fn lemma_what_accrues(dimension: Seq<char>)
    ensures
        accrues(dimension) <==> {
            ||| dimension == "tokens-in"@
            ||| dimension == "tokens-out"@
            ||| dimension == "wall-clock-seconds"@
            ||| exists|currency: Seq<char>| dimension == #[trigger] ("money-"@ + currency)
        },
{
    let names = COST_DIMENSIONS@;
    assert(names[0]@ == "tokens-in"@);
    assert(names[1]@ == "tokens-out"@);
    assert(names[2]@ == "wall-clock-seconds"@);
    if begins(dimension, "money-"@) {
        let n = "money-"@.len() as int;
        assert(dimension =~= "money-"@ + dimension.skip(n));
    }
    assert forall|currency: Seq<char>|
        dimension == #[trigger] ("money-"@ + currency) implies begins(dimension, "money-"@) by {
        assert(dimension.take("money-"@.len() as int) =~= "money-"@);
    }
}

/// What an envelope adds is one request exactly where it is an applied effect, and every figure of
/// its cost that accrues, wherever it stands; and nothing else.
pub proof fn lemma_what_an_envelope_adds(
    envelope: Doc,
    dimension: Seq<char>,
    amount: Seq<char>,
)
    ensures
        accrual(envelope).contains((dimension, amount)) <==> {
            ||| dimension == "requests"@ && amount == "1"@ && envelope.at("kind"@) == Doc::Text(
                "effect"@,
            ) && envelope.at("execution"@).at("outcome"@) == Doc::Text("applied"@)
            ||| envelope.at("cost"@) matches Doc::Record(cost) && exists|i: int|
                0 <= i < cost.len() && (#[trigger] cost[i]).0 == dimension && accrues(dimension)
                    && figure(cost[i].1) == Some(amount)
        },
{
    let added = (dimension, amount);
    let out = accrual(envelope);
    let requests: Seq<(Seq<char>, Seq<char>)> = if envelope.text_at("kind"@) == Some("effect"@)
        && envelope.at("execution"@).text_at("outcome"@) == Some("applied"@) {
        seq![("requests"@, "1"@)]
    } else {
        Seq::empty()
    };
    if requests.len() > 0 {
        assert(out[0] == requests[0]);
    }
    if let Doc::Record(cost) = envelope.at("cost"@) {
        let figures = cost_figures(cost, cost.len() as int);
        assert(out == requests + figures);
        if out.contains(added) {
            let k = choose|k: int| 0 <= k < out.len() && out[k] == added;
            if k >= requests.len() {
                assert(figures[k - requests.len()] == added);
                let i = lemma_added_figure(cost, cost.len() as int, k - requests.len());
                assert(cost[i].0 == dimension);
            }
        }
        assert forall|i: int|
            0 <= i < cost.len() && (#[trigger] cost[i]).0 == dimension && accrues(dimension)
                && figure(cost[i].1) == Some(amount) implies out.contains(added) by {
            lemma_cost_figure(cost, cost.len() as int, i);
            let k = choose|k: int| 0 <= k < figures.len() && figures[k] == added;
            assert(out[requests.len() + k] == added);
        }
    } else {
        assert(out == requests);
    }
}

/// A figure is a text as it stands, or a whole number as it is written; anything else is none.
pub proof fn lemma_what_a_figure_reads(s: Seq<char>, n: int)
    ensures
        figure(Doc::Text(s)) == Some(s),
        i64::MIN <= n <= i64::MAX ==> figure(Doc::Int(n)) == Some(signed(n)),
        !(i64::MIN <= n <= i64::MAX) ==> figure(Doc::Int(n)) is None,
        figure(Doc::Null) is None,
        figure(Doc::Number(s)) is None,
{
}

} // verus!
