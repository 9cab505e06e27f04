//! Values as a page shows them. Every kind of absence is shown the same way.

use vstd::prelude::*;
use vstd::string::*;

use crate::clock::{instant, is_timestamp, parse_timestamp};
use crate::config::opt_string;
use crate::ingest::submission::{beginning, fitting};
use crate::json::{compact, Doc, Json};
use crate::text::{
    after, decimal, decimal_text, decode_lossy, find, index_of, join, join2, join3, joined,
    lossy_text, texts,
};

verus! {

/// What is shown where there is nothing.
pub const NOTHING: &'static str = "—";

/// A value as it is shown.
pub open spec fn shown(d: Doc) -> Seq<char> {
    match d {
        Doc::Null => NOTHING@,
        Doc::Text(s) => if s.len() == 0 {
            NOTHING@
        } else {
            s
        },
        _ => compact(d),
    }
}

/// A value as it is shown.
pub fn text(value: &Json) -> (r: String)
    ensures
        r@ == shown(value@),
{
    if value.is_null() {
        return NOTHING.to_owned();
    }
    match value.as_text() {
        Some(s) => if s.unicode_len() == 0 {
            NOTHING.to_owned()
        } else {
            s.to_owned()
        },
        None => value.to_text(),
    }
}

/// How many bytes of an identifier are shown.
pub const SHORT_BYTES: usize = 12;

/// An identifier at the width of a cell: enough to recognize, never enough to cite.
pub open spec fn shortened(s: Seq<char>) -> Seq<char> {
    if s.len() == 0 {
        NOTHING@
    } else if vstd::utf8::encode_utf8(s).len() <= SHORT_BYTES {
        s
    } else {
        fitting(s, SHORT_BYTES as int)
    }
}

/// An identifier at the width of a cell.
pub fn short(hash: &str) -> (r: String)
    ensures
        r@ == shortened(hash@),
{
    if hash.unicode_len() == 0 {
        return NOTHING.to_owned();
    }
    if hash.as_bytes().len() <= SHORT_BYTES {
        return hash.to_owned();
    }
    beginning(hash, SHORT_BYTES)
}

/// The name of a key at the width of a cell: the algorithm is kept whole.
pub open spec fn short_key_of(key: Seq<char>) -> Seq<char> {
    match index_of(key, ':') {
        Some(i) => key.take(i) + ":"@ + shortened(key.skip(i + 1)),
        None => shortened(key),
    }
}

/// The name of a key at the width of a cell.
pub fn short_key(key: &str) -> (r: String)
    ensures
        r@ == short_key_of(key@),
{
    match find(key, ':') {
        Some(i) => {
            let algorithm = key.substring_char(0, i);
            let material = after(key, i + 1);
            assert(algorithm@ == key@.take(i as int));
            join3(algorithm, ":", short(material).as_str())
        },
        None => short(key),
    }
}

/// Some values as they are shown.
pub open spec fn each_shown(items: Seq<Doc>) -> Seq<Seq<char>> {
    Seq::new(items.len(), |i: int| shown(items[i]))
}

/// The patterns of a dimension as they are shown.
pub open spec fn patterns_shown(d: Doc) -> Seq<char> {
    if d.items().len() == 0 {
        NOTHING@
    } else {
        joined(each_shown(d.items()), ", "@)
    }
}

/// The patterns of a dimension as they are shown.
pub fn patterns(value: &Json) -> (r: String)
    ensures
        r@ == patterns_shown(value@),
{
    let items = match value.as_list() {
        Some(items) => items,
        None => {
            return NOTHING.to_owned();
        },
    };
    if items.len() == 0 {
        return NOTHING.to_owned();
    }
    let mut each: Vec<String> = Vec::new();
    let mut i: usize = 0;
    while i < items.len()
        invariant
            i <= items@.len(),
            each@.len() == i,
            forall|j: int| 0 <= j < i ==> (#[trigger] each@[j])@ == shown(items@[j]@),
        decreases items@.len() - i,
    {
        each.push(text(&items[i]));
        i += 1;
    }
    assert(texts(each@) =~= each_shown(value@.items()));
    join(&each, ", ")
}

// -- time -------------------------------------------------------------------------------------

/// The whole seconds in some milliseconds, without their fraction.
pub open spec fn whole_seconds(millis: int) -> int {
    if millis >= 0 {
        millis / 1_000
    } else {
        -((-millis) / 1_000)
    }
}

/// The seconds between two timestamps, where both are timestamps.
pub open spec fn age_of(from: Seq<char>, to: Seq<char>) -> Option<int> {
    if is_timestamp(from) && is_timestamp(to) {
        Some(whole_seconds(instant(to) - instant(from)))
    } else {
        None
    }
}

/// The seconds between two timestamps, where both are timestamps.
pub fn age_seconds(from: &str, to: &str) -> (r: Option<i64>)
    ensures
        match age_of(from@, to@) {
            Some(n) => r == Some(n as i64) && i64::MIN < n <= i64::MAX,
            None => r is None,
        },
{
    match (parse_timestamp(from), parse_timestamp(to)) {
        (Ok(a), Ok(b)) => {
            let millis: i64 = b - a;
            if millis >= 0 {
                Some(millis / 1_000)
            } else {
                Some(-((-millis) / 1_000))
            }
        },
        _ => None,
    }
}

/// A span in human units.
pub open spec fn humanized(seconds: int) -> Seq<char> {
    if seconds < 0 {
        "in the future"@
    } else if seconds < 120 {
        decimal(seconds as nat) + "s"@
    } else if seconds < 7_200 {
        decimal((seconds / 60) as nat) + "m"@
    } else if seconds < 172_800 {
        decimal((seconds / 3_600) as nat) + "h"@
    } else {
        decimal((seconds / 86_400) as nat) + "d"@
    }
}

/// A span in human units.
pub fn humanize(seconds: i64) -> (r: String)
    ensures
        r@ == humanized(seconds as int),
{
    if seconds < 0 {
        return "in the future".to_owned();
    }
    let s: u64 = seconds as u64;
    if s < 120 {
        join2(decimal_text(s).as_str(), "s")
    } else if s < 7_200 {
        join2(decimal_text(s / 60).as_str(), "m")
    } else if s < 172_800 {
        join2(decimal_text(s / 3_600).as_str(), "h")
    } else {
        join2(decimal_text(s / 86_400).as_str(), "d")
    }
}

/// A span in human units, or nothing where there is none.
pub open spec fn span_shown(seconds: Option<int>) -> Seq<char> {
    match seconds {
        Some(n) => humanized(n),
        None => NOTHING@,
    }
}

/// How long until an instant, or since it.
pub open spec fn countdown(seconds: Option<int>) -> Seq<char> {
    match seconds {
        Some(n) => if n < 0 {
            humanized(-n) + " ago"@
        } else {
            "in "@ + humanized(n)
        },
        None => NOTHING@,
    }
}

// -- evidence ---------------------------------------------------------------------------------

/// How many bytes of a payload are shown.
pub const PAYLOAD_PREVIEW_BYTES: usize = 8_192;

/// What is said behind a payload that is not shown whole.
pub const TRUNCATED: &'static str = "\n… truncated for display; the whole payload is served by GET /v1/payloads/<hash>";

/// Whether `serde_json::from_str` reads a text as a document.
pub uninterp spec fn is_json(s: Seq<char>) -> bool;

/// `serde_json::from_str`: whether a text is one JSON document. The answer is a function of the
/// text alone.
#[verifier::external_body]
fn reads_as_json(s: &str) -> (r: bool)
    ensures
        r == is_json(s@),
{
    serde_json::from_str::<serde_json::Value>(s).is_ok()
}

/// What `serde_json::to_string_pretty` writes of the document that a text is.
pub uninterp spec fn pretty_json(s: Seq<char>) -> Seq<char>;

/// `serde_json::to_string_pretty`: the document that a text is, spread over lines. It does not fail
/// on a document that was read, and what it writes is a function of the text alone.
#[verifier::external_body]
fn prettied(s: &str) -> (r: String)
    requires
        is_json(s@),
    ensures
        r@ == pretty_json(s@),
{
    let value: serde_json::Value = serde_json::from_str(s).unwrap();
    serde_json::to_string_pretty(&value).unwrap()
}

/// A text spread over lines, where it is a document.
pub open spec fn spread(s: Seq<char>) -> Option<Seq<char>> {
    if is_json(s) {
        Some(pretty_json(s))
    } else {
        None
    }
}

/// Evidence as it is shown: spread over lines where it is a document, and cut to a bound.
pub open spec fn preview_shown(raw: Seq<char>, pretty: Option<Seq<char>>) -> Seq<char> {
    let whole = match pretty {
        Some(p) => p,
        None => raw,
    };
    if vstd::utf8::encode_utf8(whole).len() <= PAYLOAD_PREVIEW_BYTES {
        whole
    } else {
        fitting(whole, PAYLOAD_PREVIEW_BYTES as int) + TRUNCATED@
    }
}

/// Evidence as it is shown, given its text and that text spread over lines, where it is a document.
pub fn preview_of(raw: String, pretty: Option<String>) -> (r: String)
    ensures
        r@ == preview_shown(raw@, opt_string(pretty)),
{
    let whole = match pretty {
        Some(p) => p,
        None => raw,
    };
    if whole.as_str().as_bytes().len() <= PAYLOAD_PREVIEW_BYTES {
        return whole;
    }
    join2(beginning(whole.as_str(), PAYLOAD_PREVIEW_BYTES).as_str(), TRUNCATED)
}

/// Evidence as it is shown.
pub fn preview(bytes: &[u8]) -> (r: String)
    ensures
        r@ == preview_shown(lossy_text(bytes@), spread(lossy_text(bytes@))),
{
    let raw = decode_lossy(bytes);
    let pretty = if reads_as_json(raw.as_str()) {
        Some(prettied(raw.as_str()))
    } else {
        None
    };
    preview_of(raw, pretty)
}

// -- laws -------------------------------------------------------------------------------------

/// Everything that is not there is shown alike, a text is shown as it is, and anything else in its
/// compact form.
pub proof fn lemma_what_is_shown(s: Seq<char>, b: bool, n: int)
    ensures
        shown(Doc::Null) == "—"@,
        shown(Doc::Text(Seq::empty())) == "—"@,
        s.len() > 0 ==> shown(Doc::Text(s)) == s,
        shown(Doc::Bool(b)) == compact(Doc::Bool(b)),
        shown(Doc::Int(n)) == compact(Doc::Int(n)),
{
}

/// A hash is shown by its first twelve characters at most, and always by how it begins.
pub proof fn lemma_hashes_are_shortened(s: Seq<char>)
    requires
        s.len() > 0,
    ensures
        vstd::utf8::encode_utf8(shortened(s)).len() <= 12,
        shortened(s).len() <= s.len(),
        shortened(s) == s.take(shortened(s).len() as int),
        vstd::utf8::encode_utf8(s).len() <= 12 ==> shortened(s) == s,
{
    crate::ingest::submission::lemma_cut_is_bounded(s, 12);
    assert(s.take(s.len() as int) =~= s);
}

/// Ages are told in whole seconds, those that run backwards as those that run forwards, and
/// anything that is no instant has none.
pub proof fn lemma_ages_run_both_ways(from: Seq<char>, to: Seq<char>)
    ensures
        age_of(from, to) is Some <==> is_timestamp(from) && is_timestamp(to),
        age_of(from, to) matches Some(n) ==> age_of(to, from) == Some(-n),
        age_of(from, to) matches Some(n) ==> {
            let millis = instant(to) - instant(from);
            &&& millis >= 0 ==> 0 <= millis - n * 1_000 < 1_000
            &&& millis <= 0 ==> 0 <= n * 1_000 - millis < 1_000
        },
{
}

/// Spans are told in the largest unit of which there are at least two: seconds to two minutes,
/// minutes to two hours, hours to two days, and days from then on.
pub proof fn lemma_how_spans_are_told(n: int)
    requires
        n >= 0,
    ensures
        n < 120 ==> humanized(n) == decimal(n as nat) + "s"@,
        120 <= n < 7_200 ==> exists|m: int|
            2 <= m && m * 60 <= n < (m + 1) * 60 && humanized(n) == #[trigger] decimal(m as nat)
                + "m"@,
        7_200 <= n < 172_800 ==> exists|h: int|
            2 <= h && h * 3_600 <= n < (h + 1) * 3_600 && humanized(n) == #[trigger] decimal(
                h as nat,
            ) + "h"@,
        172_800 <= n ==> exists|d: int|
            2 <= d && d * 86_400 <= n < (d + 1) * 86_400 && humanized(n) == #[trigger] decimal(
                d as nat,
            ) + "d"@,
        humanized(-n - 1) == "in the future"@,
        countdown(Some(n)) == "in "@ + humanized(n),
        countdown(Some(-n - 1)) == humanized(n + 1) + " ago"@,
{
    if 120 <= n < 7_200 {
        let m = n / 60;
        assert(m * 60 <= n < (m + 1) * 60);
        assert(humanized(n) == decimal(m as nat) + "m"@);
    } else if 7_200 <= n < 172_800 {
        let h = n / 3_600;
        assert(h * 3_600 <= n < (h + 1) * 3_600);
        assert(humanized(n) == decimal(h as nat) + "h"@);
    } else if 172_800 <= n {
        let d = n / 86_400;
        assert(d * 86_400 <= n < (d + 1) * 86_400);
        assert(humanized(n) == decimal(d as nat) + "d"@);
    }
}

/// A key is shown with its algorithm whole and its digits shortened.
pub proof fn lemma_keys_keep_their_algorithm(algorithm: Seq<char>, digits: Seq<char>)
    requires
        forall|i: int| 0 <= i < algorithm.len() ==> #[trigger] algorithm[i] != ':',
    ensures
        short_key_of(algorithm + seq![':'] + digits) == algorithm + ":"@ + shortened(digits),
{
    let key = algorithm + seq![':'] + digits;
    crate::text::lemma_index_of(key, ':');
    assert(key[algorithm.len() as int] == ':');
    let i = index_of(key, ':')->0;
    if i < algorithm.len() {
        assert(key[i] == algorithm[i]);
    } else if i > algorithm.len() {
        assert(key[algorithm.len() as int] != ':');
    }
    assert(key.take(i) =~= algorithm);
    assert(key.skip(i + 1) =~= digits);
}

/// A payload is shown spread out where it can be and as it is where not, whole where it is small
/// enough and otherwise as far as there is room, with a note that there is more.
pub proof fn lemma_what_a_preview_shows(raw: Seq<char>, pretty: Option<Seq<char>>)
    ensures
        ({
            let whole = match pretty {
                Some(p) => p,
                None => raw,
            };
            let kept = fitting(whole, 8_192);
            &&& vstd::utf8::encode_utf8(whole).len() <= 8_192 ==> preview_shown(raw, pretty)
                == whole
            &&& vstd::utf8::encode_utf8(whole).len() > 8_192 ==> preview_shown(raw, pretty) == kept
                + TRUNCATED@
            &&& vstd::utf8::encode_utf8(kept).len() <= 8_192
        }),
{
    let whole = match pretty {
        Some(p) => p,
        None => raw,
    };
    crate::ingest::submission::lemma_cut_is_bounded(whole, 8_192);
}

/// Patterns are all shown, one after the other, and where there are none nothing is.
pub proof fn lemma_every_pattern_is_shown(items: Seq<Doc>, more: Doc)
    ensures
        patterns_shown(Doc::List(Seq::empty())) == "—"@,
        patterns_shown(Doc::List(seq![more])) == shown(more),
        items.len() > 0 ==> patterns_shown(Doc::List(items.push(more))) == patterns_shown(
            Doc::List(items),
        ) + ", "@ + shown(more),
{
    let one = seq![more];
    assert(each_shown(one) =~= seq![shown(more)]);
    let all = each_shown(items.push(more));
    assert(all.drop_last() =~= each_shown(items));
    assert(all.last() == shown(more));
}

} // verus!
