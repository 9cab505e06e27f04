//! Exact decimal figures: whether two of them add up to no more than a third.

use vstd::prelude::*;

use crate::text::{all_digits, chars_of, find, index_of, is_digit, lemma_index_of, numeral};

verus! {

/// The digits before the point.
pub open spec fn whole(s: Seq<char>) -> Seq<char> {
    match index_of(s, '.') {
        Some(i) => s.take(i),
        None => s,
    }
}

/// The digits after the point; none where there is no point.
pub open spec fn fraction(s: Seq<char>) -> Seq<char> {
    match index_of(s, '.') {
        Some(i) => s.skip(i + 1),
        None => Seq::empty(),
    }
}

/// Whether a text is a decimal figure: digits, and a point with digits behind it where there is
/// one.
pub open spec fn is_decimal(s: Seq<char>) -> bool {
    &&& whole(s).len() > 0
    &&& all_digits(whole(s))
    &&& index_of(s, '.') is Some ==> fraction(s).len() > 0
    &&& all_digits(fraction(s))
}

/// So many zeros.
pub open spec fn zeros(n: int) -> Seq<char> {
    Seq::new(n as nat, |i: int| '0')
}

/// A decimal figure times ten to the power of `places`, which is at least its own places.
pub open spec fn scaled(s: Seq<char>, places: int) -> int {
    numeral(whole(s) + fraction(s) + zeros(places - fraction(s).len()))
}

/// The larger of two numbers.
pub open spec fn larger(a: int, b: int) -> int {
    if a > b {
        a
    } else {
        b
    }
}

/// Whether three texts are decimal figures and the first two add up to no more than the third,
/// exactly.
pub open spec fn fits(held: Seq<char>, adding: Seq<char>, limit: Seq<char>) -> bool {
    let places = larger(
        larger(fraction(held).len() as int, fraction(adding).len() as int),
        fraction(limit).len() as int,
    );
    &&& is_decimal(held)
    &&& is_decimal(adding)
    &&& is_decimal(limit)
    &&& scaled(held, places) + scaled(adding, places) <= scaled(limit, places)
}

/// Zeros in front of a number do not change it.
proof fn lemma_leading_zeros(n: int, s: Seq<char>)
    requires
        n >= 0,
    ensures
        numeral(zeros(n) + s) == numeral(s),
    decreases n + s.len(),
{
    let t = zeros(n) + s;
    if s.len() > 0 {
        assert(t.drop_last() == zeros(n) + s.drop_last());
        assert(t.last() == s.last());
        lemma_leading_zeros(n, s.drop_last());
    } else if n > 0 {
        assert(t.drop_last() == zeros(n - 1) + s);
        assert(t.last() == '0');
        lemma_leading_zeros(n - 1, s);
    } else {
        assert(t == s);
    }
}

/// A figure written with a given number of digits before and after the point.
spec fn aligned(s: Seq<char>, before: int, after: int) -> Seq<char> {
    zeros(before - whole(s).len()) + whole(s) + fraction(s) + zeros(after - fraction(s).len())
}

/// What is written with more digits in front is the same figure.
proof fn lemma_aligned(s: Seq<char>, before: int, after: int)
    requires
        is_decimal(s),
        before >= whole(s).len(),
        after >= fraction(s).len(),
    ensures
        numeral(aligned(s, before, after)) == scaled(s, after),
        aligned(s, before, after).len() == before + after,
        all_digits(aligned(s, before, after)),
{
    let tail = whole(s) + fraction(s) + zeros(after - fraction(s).len());
    assert(aligned(s, before, after) == zeros(before - whole(s).len()) + tail);
    lemma_leading_zeros(before - whole(s).len(), tail);
    let t = aligned(s, before, after);
    let a = before - whole(s).len();
    let b = before;
    let c = before + fraction(s).len();
    assert forall|i: int| 0 <= i < t.len() implies is_digit(#[trigger] t[i]) by {
        if i < a {
            assert(t[i] == '0');
        } else if i < b {
            assert(t[i] == whole(s)[i - a]);
        } else if i < c {
            assert(t[i] == fraction(s)[i - b]);
        } else {
            assert(t[i] == '0');
        }
    }
}

/// Whether a text is a decimal figure, and how many digits it has before and after the point.
fn shape(s: &str) -> (r: Option<(usize, usize)>)
    ensures
        match r {
            Some((w, f)) => is_decimal(s@) && w == whole(s@).len() && f == fraction(s@).len(),
            None => !is_decimal(s@),
        },
{
    let chars = chars_of(s);
    let n: usize = chars.len();
    let point = find(s, '.');
    proof {
        lemma_index_of(s@, '.');
    }
    let w: usize = match point {
        Some(i) => i,
        None => n,
    };
    if w == 0 {
        return None;
    }
    if let Some(i) = point {
        if i == n - 1 {
            return None;
        }
    }
    let mut i: usize = 0;
    while i < n
        invariant
            chars@ == s@,
            n == chars@.len(),
            i <= n,
            w <= n,
            w > 0,
            match point {
                Some(k) => index_of(s@, '.') == Some(k as int) && w == k && k < n - 1,
                None => index_of(s@, '.') is None && w == n,
            },
            forall|j: int| 0 <= j < i && j != w ==> is_digit(#[trigger] s@[j]),
        decreases n - i,
    {
        let c: char = chars[i];
        if i != w && !(c >= '0' && c <= '9') {
            proof {
                if i < w {
                    assert(whole(s@)[i as int] == c);
                } else {
                    assert(fraction(s@)[i - w - 1] == c);
                }
            }
            return None;
        }
        i += 1;
    }
    let f: usize = match point {
        Some(k) => n - k - 1,
        None => 0,
    };
    proof {
        assert forall|j: int| 0 <= j < whole(s@).len() implies is_digit(
            #[trigger] whole(s@)[j],
        ) by {
            assert(whole(s@)[j] == s@[j]);
        }
        assert forall|j: int| 0 <= j < fraction(s@).len() implies is_digit(
            #[trigger] fraction(s@)[j],
        ) by {
            assert(fraction(s@)[j] == s@[w + 1 + j]);
        }
    }
    Some((w, f))
}

/// A figure written with a given number of digits before and after the point.
fn align(s: &str, w: usize, f: usize, before: usize, after: usize) -> (r: Vec<char>)
    requires
        is_decimal(s@),
        w == whole(s@).len(),
        f == fraction(s@).len(),
        before >= w,
        after >= f,
    ensures
        r@ == aligned(s@, before as int, after as int),
{
    let chars = chars_of(s);
    let n: usize = chars.len();
    let mut out: Vec<char> = Vec::new();
    let mut i: usize = 0;
    proof {
        lemma_index_of(s@, '.');
    }
    while i < before - w
        invariant
            i <= before - w,
            w <= before,
            out@ == zeros(i as int),
        decreases before - w - i,
    {
        out.push('0');
        i += 1;
        assert(out@ =~= zeros(i as int));
    }
    let ghost head = zeros(before - w);
    assert(out@ =~= head + whole(s@).take(0));
    i = 0;
    while i < w
        invariant
            i <= w == whole(s@).len(),
            w <= chars@.len(),
            chars@ == s@,
            forall|j: int| 0 <= j < w ==> whole(s@)[j] == s@[j],
            out@ == head + whole(s@).take(i as int),
        decreases w - i,
    {
        out.push(chars[i]);
        i += 1;
        assert(out@ =~= head + whole(s@).take(i as int));
    }
    let ghost mid = head + whole(s@);
    assert(whole(s@).take(w as int) == whole(s@));
    assert(out@ =~= mid + fraction(s@).take(0));
    i = 0;
    while i < f
        invariant
            i <= f == fraction(s@).len(),
            chars@ == s@,
            n == chars@.len(),
            f > 0 ==> w + 1 + f == n,
            forall|j: int| 0 <= j < f ==> fraction(s@)[j] == s@[w + 1 + j],
            out@ == mid + fraction(s@).take(i as int),
        decreases f - i,
    {
        out.push(chars[w + 1 + i]);
        i += 1;
        assert(out@ =~= mid + fraction(s@).take(i as int));
    }
    let ghost body = mid + fraction(s@);
    assert(fraction(s@).take(f as int) == fraction(s@));
    assert(out@ =~= body + zeros(0));
    i = 0;
    while i < after - f
        invariant
            i <= after - f,
            f <= after,
            out@ == body + zeros(i as int),
        decreases after - f - i,
    {
        out.push('0');
        i += 1;
        assert(out@ =~= body + zeros(i as int));
    }
    out
}

/// The digits of a number from a place on, weighed against those before it.
proof fn lemma_excess(h: Seq<char>, a: Seq<char>, l: Seq<char>, i: int)
    requires
        all_digits(h),
        all_digits(a),
        all_digits(l),
        h.len() == a.len() == l.len(),
        0 <= i <= h.len(),
    ensures
        ({
            let part = numeral(h.take(i)) + numeral(a.take(i)) - numeral(l.take(i));
            let all = numeral(h) + numeral(a) - numeral(l);
            &&& part >= 1 ==> all >= 1
            &&& part <= -2 ==> all <= -2
        }),
    decreases h.len() - i,
{
    if i == h.len() {
        assert(h.take(i) == h && a.take(i) == a && l.take(i) == l);
    } else {
        assert(h.take(i + 1).drop_last() == h.take(i));
        assert(a.take(i + 1).drop_last() == a.take(i));
        assert(l.take(i + 1).drop_last() == l.take(i));
        assert(is_digit(h[i]) && is_digit(a[i]) && is_digit(l[i]));
        lemma_excess(h, a, l, i + 1);
    }
}

/// Whether the first two of three numbers, all with as many digits, add up to no more than the
/// third.
fn adds_up_within(h: &Vec<char>, a: &Vec<char>, l: &Vec<char>) -> (r: bool)
    requires
        all_digits(h@),
        all_digits(a@),
        all_digits(l@),
        h@.len() == a@.len() == l@.len(),
    ensures
        r == (numeral(h@) + numeral(a@) <= numeral(l@)),
{
    let mut excess: i64 = 0;
    let mut i: usize = 0;
    proof {
        assert(h@.take(0) == Seq::<char>::empty());
        assert(a@.take(0) == Seq::<char>::empty());
        assert(l@.take(0) == Seq::<char>::empty());
    }
    while i < h.len()
        invariant
            all_digits(h@),
            all_digits(a@),
            all_digits(l@),
            h@.len() == a@.len() == l@.len(),
            i <= h@.len(),
            excess == 0 || excess == -1,
            excess == numeral(h@.take(i as int)) + numeral(a@.take(i as int)) - numeral(
                l@.take(i as int),
            ),
        decreases h@.len() - i,
    {
        proof {
            assert(h@.take(i + 1).drop_last() == h@.take(i as int));
            assert(a@.take(i + 1).drop_last() == a@.take(i as int));
            assert(l@.take(i + 1).drop_last() == l@.take(i as int));
            assert(is_digit(h@[i as int]) && is_digit(a@[i as int]) && is_digit(l@[i as int]));
            lemma_excess(h@, a@, l@, i + 1);
        }
        let next: i64 = excess * 10 + (h[i] as u32 - 48) as i64 + (a[i] as u32 - 48) as i64 - (l[i]
            as u32 - 48) as i64;
        if next >= 1 {
            return false;
        }
        if next <= -2 {
            return true;
        }
        excess = next;
        i += 1;
    }
    proof {
        assert(h@.take(i as int) == h@ && a@.take(i as int) == a@ && l@.take(i as int) == l@);
    }
    true
}

/// The larger of two numbers.
fn max(a: usize, b: usize) -> (r: usize)
    ensures
        r == larger(a as int, b as int),
{
    if a > b {
        a
    } else {
        b
    }
}

/// Whether three texts are decimal figures and the first two add up to no more than the third.
/// A text that is no figure never does.
pub fn sum_at_most(held: &str, adding: &str, limit: &str) -> (r: bool)
    ensures
        r == fits(held@, adding@, limit@),
{
    match (shape(held), shape(adding), shape(limit)) {
        (Some((hw, hf)), Some((aw, af)), Some((lw, lf))) => {
            let before: usize = max(max(hw, aw), lw);
            let after: usize = max(max(hf, af), lf);
            let h = align(held, hw, hf, before, after);
            let a = align(adding, aw, af, before, after);
            let l = align(limit, lw, lf, before, after);
            proof {
                lemma_aligned(held@, before as int, after as int);
                lemma_aligned(adding@, before as int, after as int);
                lemma_aligned(limit@, before as int, after as int);
            }
            adds_up_within(&h, &a, &l)
        },
        _ => false,
    }
}

// -- laws -------------------------------------------------------------------------------------

/// What is held and what is added may be told the other way round.
pub proof fn lemma_sums_have_no_order(held: Seq<char>, adding: Seq<char>, limit: Seq<char>)
    ensures
        fits(held, adding, limit) == fits(adding, held, limit),
{
}

/// A limit may be reached and not passed: of whole figures, two fit a third exactly where their sum
/// is no more than it.
pub proof fn lemma_whole_figures_add_up(held: Seq<char>, adding: Seq<char>, limit: Seq<char>)
    requires
        held.len() > 0 && all_digits(held),
        adding.len() > 0 && all_digits(adding),
        limit.len() > 0 && all_digits(limit),
    ensures
        fits(held, adding, limit) <==> numeral(held) + numeral(adding) <= numeral(limit),
{
    lemma_whole_figure(held);
    lemma_whole_figure(adding);
    lemma_whole_figure(limit);
}

proof fn lemma_whole_figure(s: Seq<char>)
    requires
        s.len() > 0,
        all_digits(s),
    ensures
        is_decimal(s),
        fraction(s).len() == 0,
        scaled(s, 0) == numeral(s),
{
    lemma_index_of(s, '.');
    if let Some(i) = index_of(s, '.') {
        assert(is_digit(s[i]));
    }
    assert(whole(s) + fraction(s) + zeros(0) =~= s);
}

/// What is no figure never fits, in whatever place it stands.
pub proof fn lemma_only_figures_fit(held: Seq<char>, adding: Seq<char>, limit: Seq<char>)
    requires
        fits(held, adding, limit),
    ensures
        is_decimal(held) && is_decimal(adding) && is_decimal(limit),
{
}

/// A figure is digits, or digits on both sides of one point.
pub proof fn lemma_what_a_figure_is(before: Seq<char>, after: Seq<char>)
    requires
        all_digits(before),
        all_digits(after),
    ensures
        is_decimal(before) <==> before.len() > 0,
        is_decimal(before + seq!['.'] + after) <==> before.len() > 0 && after.len() > 0,
        whole(before + seq!['.'] + after) == before,
        fraction(before + seq!['.'] + after) == after,
{
    let s = before + seq!['.'] + after;
    lemma_index_of(before, '.');
    if let Some(i) = index_of(before, '.') {
        assert(is_digit(before[i]));
    }
    lemma_index_of(s, '.');
    assert(s[before.len() as int] == '.');
    let i = index_of(s, '.')->0;
    if i < before.len() {
        assert(is_digit(before[i]));
        assert(s[i] == before[i]);
    } else if i > before.len() {
        assert(s[before.len() as int] != '.');
    }
    assert(s.take(i) =~= before);
    assert(s.skip(i + 1) =~= after);
    assert(fraction(before) =~= Seq::empty());
}

/// One more place makes a figure ten times as many.
proof fn lemma_scaled_step(s: Seq<char>, places: int)
    requires
        places >= fraction(s).len(),
    ensures
        scaled(s, places + 1) == 10 * scaled(s, places),
{
    let n = places - fraction(s).len();
    let front = whole(s) + fraction(s) + zeros(n);
    let t = whole(s) + fraction(s) + zeros(n + 1);
    assert(t.drop_last() =~= front);
    assert(t.last() == '0');
}

/// Figures may be compared at any number of places that none of them exceeds: two fit a third exactly
/// where, all counted at that place, they are together no more than it.
pub proof fn lemma_figures_fit_at_any_place(
    held: Seq<char>,
    adding: Seq<char>,
    limit: Seq<char>,
    places: int,
)
    requires
        is_decimal(held) && is_decimal(adding) && is_decimal(limit),
        places >= fraction(held).len(),
        places >= fraction(adding).len(),
        places >= fraction(limit).len(),
    ensures
        fits(held, adding, limit) <==> scaled(held, places) + scaled(adding, places) <= scaled(
            limit,
            places,
        ),
    decreases places,
{
    if places > fraction(held).len() && places > fraction(adding).len() && places > fraction(
        limit,
    ).len() {
        lemma_figures_fit_at_any_place(held, adding, limit, places - 1);
        lemma_scaled_step(held, places - 1);
        lemma_scaled_step(adding, places - 1);
        lemma_scaled_step(limit, places - 1);
    }
}

/// A figure with a point in it counts, at as many places as it has, what its digits spell.
pub proof fn lemma_what_a_figure_counts(before: Seq<char>, after: Seq<char>)
    requires
        all_digits(before),
        all_digits(after),
        before.len() > 0,
        after.len() > 0,
    ensures
        scaled(before + seq!['.'] + after, after.len() as int) == numeral(before + after),
{
    lemma_what_a_figure_is(before, after);
    assert(before + after + zeros(0) =~= before + after);
}

} // verus!
