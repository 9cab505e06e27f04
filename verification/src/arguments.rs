//! The arguments of a command: flags with a value, lists, numerals.

use vstd::prelude::*;

use crate::documents::{names_of, owned_names};
use crate::text::{
    all_digits, chars_of, is_digit, is_space, numeral, opt_text, pieces, same, split, text_of,
    texts, trim, trimmed, whitespace,
};

verus! {

// -- flags ------------------------------------------------------------------------------------

/// The first place at or after one where an argument is a given word.
pub open spec fn place_of(arguments: Seq<Seq<char>>, name: Seq<char>, from: int) -> Option<int>
    decreases arguments.len() - from,
{
    if from < 0 || from >= arguments.len() {
        None
    } else if arguments[from] == name {
        Some(from)
    } else {
        place_of(arguments, name, from + 1)
    }
}

/// What a flag is given: the argument behind the first that is its name.
pub open spec fn flag(arguments: Seq<Seq<char>>, name: Seq<char>) -> Option<Seq<char>> {
    match place_of(arguments, name, 0) {
        Some(i) => if i + 1 < arguments.len() {
            Some(arguments[i + 1])
        } else {
            None
        },
        None => None,
    }
}

fn position(arguments: &[String], name: &str) -> (r: Option<usize>)
    ensures
        match place_of(texts(arguments@), name@, 0) {
            Some(i) => r == Some(i as usize) && 0 <= i < arguments@.len(),
            None => r is None,
        },
{
    let mut i: usize = 0;
    while i < arguments.len()
        invariant
            i <= arguments@.len(),
            place_of(texts(arguments@), name@, 0) == place_of(texts(arguments@), name@, i as int),
        decreases arguments@.len() - i,
    {
        if same(arguments[i].as_str(), name) {
            return Some(i);
        }
        i += 1;
    }
    None
}

/// What a flag is given.
pub fn value<'a>(arguments: &'a [String], name: &str) -> (r: Option<&'a str>)
    ensures
        opt_text(r) == flag(texts(arguments@), name@),
{
    match position(arguments, name) {
        Some(i) => if i < arguments.len() - 1 {
            Some(arguments[i + 1].as_str())
        } else {
            None
        },
        None => None,
    }
}

/// Whether a flag stands among the arguments.
pub fn present(arguments: &[String], name: &str) -> (r: bool)
    ensures
        r == (place_of(texts(arguments@), name@, 0) is Some),
{
    position(arguments, name).is_some()
}

/// What a flag is given, or a default.
pub open spec fn flag_or(
    arguments: Seq<Seq<char>>,
    name: Seq<char>,
    default: Seq<char>,
) -> Seq<char> {
    match flag(arguments, name) {
        Some(v) => v,
        None => default,
    }
}

/// What a flag is given, or a default.
pub fn value_or<'a>(arguments: &'a [String], name: &str, default: &'a str) -> (r: &'a str)
    ensures
        r@ == flag_or(texts(arguments@), name@, default@),
{
    match value(arguments, name) {
        Some(v) => v,
        None => default,
    }
}

// -- lists ------------------------------------------------------------------------------------

/// The pieces at or after a place that are not blank, trimmed.
pub open spec fn entries(parts: Seq<Seq<char>>, from: int) -> Seq<Seq<char>>
    decreases parts.len() - from,
{
    if from < 0 || from >= parts.len() {
        Seq::empty()
    } else if trimmed(parts[from]).len() == 0 {
        entries(parts, from + 1)
    } else {
        seq![trimmed(parts[from])] + entries(parts, from + 1)
    }
}

/// What a comma-separated flag lists, blank entries dropped, or a default.
pub open spec fn flag_list(
    arguments: Seq<Seq<char>>,
    name: Seq<char>,
    default: Seq<Seq<char>>,
) -> Seq<Seq<char>> {
    match flag(arguments, name) {
        Some(raw) => entries(pieces(raw, ','), 0),
        None => default,
    }
}

/// What a comma-separated flag lists, or a default.
pub fn list(arguments: &[String], name: &str, default: &[&str]) -> (r: Vec<String>)
    ensures
        texts(r@) == flag_list(texts(arguments@), name@, names_of(default@)),
{
    let raw = match value(arguments, name) {
        Some(raw) => raw,
        None => {
            return owned_names(default);
        },
    };
    let parts = split(raw, ',');
    let ghost all = texts(parts@);
    let mut out: Vec<String> = Vec::new();
    let mut i: usize = 0;
    assert(texts(out@) + entries(all, 0) =~= entries(all, 0));
    while i < parts.len()
        invariant
            i <= parts@.len(),
            all == texts(parts@),
            texts(out@) + entries(all, i as int) == entries(all, 0),
        decreases parts@.len() - i,
    {
        let entry = trim(parts[i].as_str());
        if entry.unicode_len() > 0 {
            let ghost before = texts(out@);
            out.push(entry.to_owned());
            assert(texts(out@) =~= before + seq![entry@]);
            assert(before + (seq![entry@] + entries(all, i + 1)) =~= texts(out@) + entries(
                all,
                i + 1,
            ));
        }
        i += 1;
    }
    assert(texts(out@) + entries(all, i as int) =~= texts(out@));
    out
}

// -- numerals ---------------------------------------------------------------------------------

/// The number a run of digits is, a plus sign before it allowed.
pub open spec fn natural(s: Seq<char>) -> Option<int> {
    let run = if s.len() > 0 && s[0] == '+' {
        s.skip(1)
    } else {
        s
    };
    if run.len() > 0 && all_digits(run) {
        Some(numeral(run))
    } else {
        None
    }
}

/// The number a run of digits is, a sign before it allowed.
pub open spec fn integer(s: Seq<char>) -> Option<int> {
    if s.len() > 1 && s[0] == '-' && all_digits(s.skip(1)) {
        Some(-numeral(s.skip(1)))
    } else {
        natural(s)
    }
}

/// A number, where it lies in a range.
pub open spec fn within(n: Option<int>, least: int, most: int) -> Option<int> {
    match n {
        Some(v) => if least <= v <= most {
            n
        } else {
            None
        },
        None => None,
    }
}

proof fn lemma_numeral_steps(s: Seq<char>, from: int, to: int)
    requires
        0 <= from <= to < s.len(),
    ensures
        numeral(s.subrange(from, to + 1)) == numeral(s.subrange(from, to)) * 10 + (s[to] as int
            - 48),
{
    assert(s.subrange(from, to + 1).drop_last() == s.subrange(from, to));
}

/// The value of the digits from a place on, where there are any, nothing else stands there, and
/// sixty-four bits hold it.
fn digits_from(chars: &Vec<char>, from: usize) -> (r: Option<u64>)
    requires
        from <= chars@.len(),
    ensures
        match r {
            Some(n) => from < chars@.len() && all_digits(chars@.skip(from as int)) && n == numeral(
                chars@.skip(from as int),
            ),
            None => from == chars@.len() || !all_digits(chars@.skip(from as int)) || numeral(
                chars@.skip(from as int),
            ) > u64::MAX,
        },
{
    let ghost run = chars@.skip(from as int);
    if from == chars.len() {
        return None;
    }
    let mut n: u64 = 0;
    let mut over = false;
    let mut i: usize = from;
    assert(chars@.subrange(from as int, from as int) == Seq::<char>::empty());
    while i < chars.len()
        invariant
            from <= i <= chars@.len(),
            run == chars@.skip(from as int),
            forall|j: int| from <= j < i ==> is_digit(#[trigger] chars@[j]),
            !over ==> n == numeral(chars@.subrange(from as int, i as int)),
            over ==> numeral(chars@.subrange(from as int, i as int)) > u64::MAX,
        decreases chars@.len() - i,
    {
        let c: char = chars[i];
        if c < '0' || c > '9' {
            assert(run[i - from] == c);
            assert(!is_digit(run[i - from]));
            return None;
        }
        proof {
            lemma_numeral_steps(chars@, from as int, i as int);
        }
        let d: u64 = (c as u64) - 48;
        if !over {
            match n.checked_mul(10) {
                Some(m) => match m.checked_add(d) {
                    Some(v) => {
                        n = v;
                    },
                    None => {
                        over = true;
                    },
                },
                None => {
                    over = true;
                },
            }
        }
        i += 1;
    }
    assert(chars@.subrange(from as int, i as int) == run);
    assert forall|j: int| 0 <= j < run.len() implies is_digit(#[trigger] run[j]) by {
        assert(is_digit(chars@[j + from]));
    }
    if over {
        None
    } else {
        Some(n)
    }
}

/// Reads an unsigned number of sixty-four bits.
pub fn parse_u64(s: &str) -> (r: Option<u64>)
    ensures
        match within(natural(s@), 0, u64::MAX as int) {
            Some(n) => r == Some(n as u64),
            None => r is None,
        },
{
    let chars = chars_of(s);
    let from: usize = if chars.len() > 0 && chars[0] == '+' {
        1
    } else {
        0
    };
    proof {
        assert(s@.skip(0) == s@);
        lemma_numerals_are_natural(s@.skip(from as int));
    }
    digits_from(&chars, from)
}

proof fn lemma_numerals_are_natural(s: Seq<char>)
    ensures
        all_digits(s) ==> numeral(s) >= 0,
    decreases s.len(),
{
    if all_digits(s) && s.len() > 0 {
        assert(is_digit(s[s.len() - 1]));
        assert forall|j: int| 0 <= j < s.drop_last().len() implies is_digit(
            #[trigger] s.drop_last()[j],
        ) by {
            assert(is_digit(s[j]));
        }
        lemma_numerals_are_natural(s.drop_last());
    }
}

/// Reads an unsigned number of thirty-two bits.
pub fn parse_u32(s: &str) -> (r: Option<u32>)
    ensures
        match within(natural(s@), 0, u32::MAX as int) {
            Some(n) => r == Some(n as u32),
            None => r is None,
        },
{
    match parse_u64(s) {
        Some(n) => if n <= u32::MAX as u64 {
            Some(n as u32)
        } else {
            None
        },
        None => None,
    }
}

/// Reads a signed number of sixty-four bits.
pub fn parse_i64(s: &str) -> (r: Option<i64>)
    ensures
        match within(integer(s@), i64::MIN as int, i64::MAX as int) {
            Some(n) => r == Some(n as i64),
            None => r is None,
        },
{
    let chars = chars_of(s);
    if chars.len() > 0 && chars[0] == '-' {
        proof {
            lemma_numerals_are_natural(s@.skip(1));
        }
        return match digits_from(&chars, 1) {
            Some(n) => if n <= i64::MAX as u64 {
                Some(-(n as i64))
            } else if n == 9_223_372_036_854_775_808 {
                Some(i64::MIN)
            } else {
                None
            },
            None => {
                assert(integer(s@) matches Some(n) ==> n < i64::MIN) by {
                    assert(!is_digit(s@[0]));
                }
                None
            },
        };
    }
    proof {
        lemma_numerals_are_natural(s@);
        lemma_numerals_are_natural(s@.skip(1));
    }
    match parse_u64(s) {
        Some(n) => if n <= i64::MAX as u64 {
            Some(n as i64)
        } else {
            None
        },
        None => None,
    }
}

/// The number a flag is given, or a default where it is given none that is a number.
pub open spec fn flag_i64(arguments: Seq<Seq<char>>, name: Seq<char>, default: int) -> int {
    match flag(arguments, name) {
        Some(v) => match within(integer(v), i64::MIN as int, i64::MAX as int) {
            Some(n) => n,
            None => default,
        },
        None => default,
    }
}

/// The number a flag is given, or a default.
pub fn number_or(arguments: &[String], name: &str, default: i64) -> (r: i64)
    ensures
        r == flag_i64(texts(arguments@), name@, default as int),
{
    match value(arguments, name) {
        Some(v) => match parse_i64(v) {
            Some(n) => n,
            None => default,
        },
        None => default,
    }
}

/// The unsigned number a flag is given, or a default where it is given none that is one.
pub open spec fn flag_unsigned(
    arguments: Seq<Seq<char>>,
    name: Seq<char>,
    default: int,
    most: int,
) -> int {
    match flag(arguments, name) {
        Some(v) => match within(natural(v), 0, most) {
            Some(n) => n,
            None => default,
        },
        None => default,
    }
}

/// The unsigned number of thirty-two bits a flag is given, or a default.
pub fn unsigned_or(arguments: &[String], name: &str, default: u32) -> (r: u32)
    ensures
        r == flag_unsigned(texts(arguments@), name@, default as int, u32::MAX as int),
{
    match value(arguments, name) {
        Some(v) => match parse_u32(v) {
            Some(n) => n,
            None => default,
        },
        None => default,
    }
}

// -- words ------------------------------------------------------------------------------------

/// The words of a text from a place on: its runs without white space, one of which has begun.
pub open spec fn words_from(s: Seq<char>, at: int, begun: Seq<char>) -> Seq<Seq<char>>
    decreases s.len() - at,
{
    let ended = if begun.len() == 0 {
        Seq::<Seq<char>>::empty()
    } else {
        seq![begun]
    };
    if at < 0 || at >= s.len() {
        ended
    } else if is_space(s[at]) {
        ended + words_from(s, at + 1, Seq::empty())
    } else {
        words_from(s, at + 1, begun.push(s[at]))
    }
}

/// The words of a text: its runs without white space.
pub fn words(s: &str) -> (r: Vec<String>)
    ensures
        texts(r@) == words_from(s@, 0, Seq::empty()),
{
    let chars = chars_of(s);
    let mut out: Vec<String> = Vec::new();
    let mut begun: Vec<char> = Vec::new();
    let mut i: usize = 0;
    let ghost all = words_from(s@, 0, Seq::empty());
    assert(texts(out@) + all =~= all);
    while i < chars.len()
        invariant
            chars@ == s@,
            i <= chars@.len(),
            texts(out@) + words_from(s@, i as int, begun@) == all,
        decreases chars@.len() - i,
    {
        if whitespace(chars[i]) {
            let ghost before = texts(out@);
            let ghost rest = words_from(s@, i + 1, Seq::empty());
            if begun.len() > 0 {
                let word = text_of(begun.as_slice());
                out.push(word);
                assert(texts(out@) =~= before + seq![begun@]);
                assert(before + (seq![begun@] + rest) =~= texts(out@) + rest);
                begun = Vec::new();
            } else {
                assert(before + (Seq::<Seq<char>>::empty() + rest) =~= before + rest);
            }
            assert(begun@ == Seq::<char>::empty());
        } else {
            begun.push(chars[i]);
        }
        i += 1;
    }
    if begun.len() > 0 {
        let ghost before = texts(out@);
        out.push(text_of(begun.as_slice()));
        assert(texts(out@) =~= before + seq![begun@]);
    } else {
        assert(texts(out@) + Seq::<Seq<char>>::empty() =~= texts(out@));
    }
    out
}

// -- laws -------------------------------------------------------------------------------------

proof fn lemma_place_of(arguments: Seq<Seq<char>>, name: Seq<char>, from: int)
    requires
        0 <= from <= arguments.len(),
    ensures
        match place_of(arguments, name, from) {
            Some(i) => from <= i < arguments.len() && arguments[i] == name && forall|j: int|
                from <= j < i ==> #[trigger] arguments[j] != name,
            None => forall|j: int| from <= j < arguments.len() ==> #[trigger] arguments[j] != name,
        },
    decreases arguments.len() - from,
{
    if from < arguments.len() && arguments[from] != name {
        lemma_place_of(arguments, name, from + 1);
    }
}

/// The value of a flag is what follows it where it first stands, wherever that is; and there is none
/// where it stands nowhere, or last.
pub proof fn lemma_flags_are_found(arguments: Seq<Seq<char>>, name: Seq<char>, i: int)
    requires
        0 <= i < arguments.len(),
        arguments[i] == name,
        forall|j: int| 0 <= j < i ==> #[trigger] arguments[j] != name,
    ensures
        place_of(arguments, name, 0) == Some(i),
        flag(arguments, name) == if i + 1 < arguments.len() {
            Some(arguments[i + 1])
        } else {
            None
        },
{
    lemma_place_of(arguments, name, 0);
}

/// A flag that stands nowhere is not there and has no value.
pub proof fn lemma_absent_flags_are_absent(arguments: Seq<Seq<char>>, name: Seq<char>)
    ensures
        place_of(arguments, name, 0) is Some <==> exists|i: int|
            0 <= i < arguments.len() && #[trigger] arguments[i] == name,
        place_of(arguments, name, 0) is None ==> flag(arguments, name) is None,
{
    lemma_place_of(arguments, name, 0);
    if let Some(i) = place_of(arguments, name, 0) {
        assert(arguments[i] == name);
    }
}

/// The entries of a list are all the parts of it that are not blank, without the space around them.
pub proof fn lemma_which_entries_are_listed(parts: Seq<Seq<char>>, from: int, entry: Seq<char>)
    requires
        0 <= from <= parts.len(),
    ensures
        entries(parts, from).contains(entry) <==> entry.len() > 0 && exists|i: int|
            from <= i < parts.len() && trimmed(#[trigger] parts[i]) == entry,
    decreases parts.len() - from,
{
    if from < parts.len() {
        lemma_which_entries_are_listed(parts, from + 1, entry);
        let rest = entries(parts, from + 1);
        let all = entries(parts, from);
        let first = trimmed(parts[from]);
        if first.len() > 0 {
            assert(all == seq![first] + rest);
            if all.contains(entry) {
                let k = choose|k: int| 0 <= k < all.len() && all[k] == entry;
                if k > 0 {
                    assert(rest[k - 1] == entry);
                } else {
                    assert(trimmed(parts[from]) == entry);
                }
            }
            if rest.contains(entry) {
                let k = choose|k: int| 0 <= k < rest.len() && rest[k] == entry;
                assert(all[k + 1] == entry);
            }
            if first == entry {
                assert(all[0] == entry);
            }
        }
    }
}

/// A whole number is digits with a sign before them or none; and what is no digits is no number.
pub proof fn lemma_what_an_integer_is(run: Seq<char>)
    requires
        run.len() > 0,
        all_digits(run),
    ensures
        integer(run) == Some(numeral(run)),
        integer(seq!['+'] + run) == Some(numeral(run)),
        integer(seq!['-'] + run) == Some(-numeral(run)),
        natural(run) == Some(numeral(run)),
        natural(seq!['+'] + run) == Some(numeral(run)),
        natural(seq!['-'] + run) is None,
        integer(Seq::empty()) is None,
{
    assert(crate::text::is_digit(run[0]));
    assert((seq!['+'] + run).skip(1) =~= run);
    assert((seq!['-'] + run).skip(1) =~= run);
    assert((seq!['-'] + run)[0] == '-');
    assert((seq!['+'] + run)[0] == '+');
    assert(!all_digits(seq!['-'] + run)) by {
        if all_digits(seq!['-'] + run) {
            assert(crate::text::is_digit((seq!['-'] + run)[0]));
        }
    }
}

/// A word ends where white space begins.
proof fn lemma_words_from(s: Seq<char>, at: int, begun: Seq<char>)
    requires
        0 <= at <= s.len(),
        forall|i: int| 0 <= i < begun.len() ==> !is_space(#[trigger] begun[i]),
    ensures
        forall|w: int|
            0 <= w < words_from(s, at, begun).len() ==> (#[trigger] words_from(
                s,
                at,
                begun,
            )[w]).len() > 0,
        forall|w: int, i: int|
            0 <= w < words_from(s, at, begun).len() && 0 <= i < words_from(s, at, begun)[w].len()
                ==> !is_space(#[trigger] words_from(s, at, begun)[w][i]),
        words_from(s, at, begun).len() == 0 <==> begun.len() == 0 && forall|i: int|
            at <= i < s.len() ==> is_space(#[trigger] s[i]),
    decreases s.len() - at,
{
    if at < s.len() {
        if is_space(s[at]) {
            lemma_words_from(s, at + 1, Seq::empty());
            let rest = words_from(s, at + 1, Seq::empty());
            let all = words_from(s, at, begun);
            if begun.len() > 0 {
                assert(all =~= seq![begun] + rest);
                assert forall|w: int, i: int|
                    0 <= w < all.len() && 0 <= i < all[w].len() implies !is_space(
                    #[trigger] all[w][i],
                ) by {
                    if w > 0 {
                        assert(all[w] == rest[w - 1]);
                    }
                }
            } else {
                assert(all =~= rest);
            }
        } else {
            lemma_words_from(s, at + 1, begun.push(s[at]));
        }
    }
}

/// The words of a text hold no white space and are never empty, and there are none exactly where
/// the text is nothing but white space.
pub proof fn lemma_what_words_are(s: Seq<char>)
    ensures
        ({
            let all = words_from(s, 0, Seq::empty());
            &&& forall|w: int| 0 <= w < all.len() ==> (#[trigger] all[w]).len() > 0
            &&& forall|w: int, i: int|
                0 <= w < all.len() && 0 <= i < all[w].len() ==> !is_space(#[trigger] all[w][i])
            &&& all.len() == 0 <==> forall|i: int| 0 <= i < s.len() ==> is_space(#[trigger] s[i])
        }),
{
    lemma_words_from(s, 0, Seq::empty());
}

/// What stands in for a flag stands in exactly where it has no value, or none that can be used.
pub proof fn lemma_what_stands_in(
    arguments: Seq<Seq<char>>,
    name: Seq<char>,
    default: Seq<char>,
    others: Seq<Seq<char>>,
    n: int,
    most: int,
)
    ensures
        flag(arguments, name) is None ==> flag_or(arguments, name, default) == default && flag_list(
            arguments,
            name,
            others,
        ) == others && flag_i64(arguments, name, n) == n && flag_unsigned(arguments, name, n, most)
            == n,
        flag(arguments, name) matches Some(t) ==> {
            &&& flag_or(arguments, name, default) == t
            &&& flag_list(arguments, name, others) == entries(pieces(t, ','), 0)
            &&& integer(t) matches Some(v) ==> i64::MIN <= v <= i64::MAX ==> flag_i64(
                arguments,
                name,
                n,
            ) == v
            &&& integer(t) is None ==> flag_i64(arguments, name, n) == n
            &&& natural(t) matches Some(v) ==> 0 <= v <= most ==> flag_unsigned(
                arguments,
                name,
                n,
                most,
            ) == v
            &&& natural(t) is None ==> flag_unsigned(arguments, name, n, most) == n
        },
{
}

} // verus!
