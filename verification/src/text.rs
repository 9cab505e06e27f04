//! Text as a sequence of characters: comparison, slicing, splitting, decimal numerals.

use vstd::prelude::*;
use vstd::string::*;
use vstd::utf8::*;

verus! {

/// `String::push`: appends one character.
pub assume_specification[ String::push ](s: &mut String, c: char)
    ensures
        final(s)@ == old(s)@.push(c),
;

/// `String::push_str`: appends a string slice.
pub assume_specification[ String::push_str ](s: &mut String, t: &str)
    ensures
        final(s)@ == old(s)@ + t@,
;

/// Two texts with the same encoding are the same text.
pub proof fn lemma_same_bytes(a: Seq<char>, b: Seq<char>)
    ensures
        encode_utf8(a) == encode_utf8(b) ==> a == b,
{
    broadcast use encode_utf8_decode_utf8;

    assert(decode_utf8(encode_utf8(a)) == a);
    assert(decode_utf8(encode_utf8(b)) == b);
}

/// Whether two texts are the same.
pub fn same(a: &str, b: &str) -> (r: bool)
    ensures
        r == (a@ == b@),
{
    let x = a.as_bytes();
    let y = b.as_bytes();
    proof {
        lemma_same_bytes(a@, b@);
    }
    if x.len() != y.len() {
        return false;
    }
    let mut i: usize = 0;
    while i < x.len()
        invariant
            x@ == encode_utf8(a@),
            y@ == encode_utf8(b@),
            x@.len() == y@.len(),
            i <= x@.len(),
            x@.subrange(0, i as int) == y@.subrange(0, i as int),
            encode_utf8(a@) == encode_utf8(b@) ==> a@ == b@,
        decreases x@.len() - i,
    {
        if x[i] != y[i] {
            return false;
        }
        assert(x@.subrange(0, i + 1) == x@.subrange(0, i as int).push(x@[i as int]));
        assert(y@.subrange(0, i + 1) == y@.subrange(0, i as int).push(y@[i as int]));
        i += 1;
    }
    assert(x@.subrange(0, i as int) == x@);
    assert(y@.subrange(0, i as int) == y@);
    true
}

/// Whether one text comes before another in dictionary order: at the first place where they
/// differ its character is the smaller, or it ends there.
pub open spec fn precedes(a: Seq<char>, b: Seq<char>) -> bool {
    exists|k: int| #[trigger] differ_at(a, b, k)
}

/// Whether `a` and `b` agree before `k`, and `a` ends there or has the smaller character.
pub open spec fn differ_at(a: Seq<char>, b: Seq<char>, k: int) -> bool {
    &&& 0 <= k <= a.len()
    &&& k < b.len()
    &&& forall|i: int| 0 <= i < k ==> #[trigger] a[i] == b[i]
    &&& k == a.len() || a[k] < b[k]
}

/// Of two texts only one comes before the other.
pub proof fn lemma_precedes_is_strict(a: Seq<char>, b: Seq<char>)
    requires
        precedes(a, b),
    ensures
        !precedes(b, a),
        a != b,
{
    let k = choose|k: int| #[trigger] differ_at(a, b, k);
    assert forall|j: int| !#[trigger] differ_at(b, a, j) by {
        if differ_at(b, a, j) {
            if j < k {
                assert(a[j] == b[j]);
            } else if j > k {
                assert(b[k] == a[k]);
            }
        }
    }
}

/// Of two different texts one comes before the other.
pub proof fn lemma_precedes_is_total(a: Seq<char>, b: Seq<char>)
    requires
        a != b,
    ensures
        precedes(a, b) || precedes(b, a),
{
    lemma_one_comes_first(a, b, 0);
}

proof fn lemma_one_comes_first(a: Seq<char>, b: Seq<char>, k: int)
    requires
        a != b,
        0 <= k <= a.len(),
        k <= b.len(),
        forall|i: int| 0 <= i < k ==> #[trigger] a[i] == b[i],
    ensures
        precedes(a, b) || precedes(b, a),
    decreases a.len() - k,
{
    if k == a.len() {
        if k == b.len() {
            assert(a =~= b);
        } else {
            assert(differ_at(a, b, k));
        }
    } else if k == b.len() {
        assert(differ_at(b, a, k));
    } else if a[k] == b[k] {
        lemma_one_comes_first(a, b, k + 1);
    } else if a[k] < b[k] {
        assert(differ_at(a, b, k));
    } else {
        assert(differ_at(b, a, k));
    }
}

/// What comes before a text comes before what the text comes before.
pub proof fn lemma_precedes_is_transitive(a: Seq<char>, b: Seq<char>, c: Seq<char>)
    requires
        precedes(a, b),
        precedes(b, c),
    ensures
        precedes(a, c),
{
    let j = choose|k: int| #[trigger] differ_at(a, b, k);
    let k = choose|k: int| #[trigger] differ_at(b, c, k);
    let first = if j < k {
        j
    } else {
        k
    };
    assert forall|i: int| 0 <= i < first implies #[trigger] a[i] == c[i] by {
        assert(a[i] == b[i] && b[i] == c[i]);
    }
    if j < k {
        assert(b[j] == c[j]);
    } else if k < j {
        assert(a[k] == b[k]);
    }
    assert(differ_at(a, c, first));
}

/// Whether one text comes before another in dictionary order.
pub fn is_before(a: &str, b: &str) -> (r: bool)
    ensures
        r == precedes(a@, b@),
{
    let x = chars_of(a);
    let y = chars_of(b);
    let mut i: usize = 0;
    while i < x.len() && i < y.len() && x[i] == y[i]
        invariant
            x@ == a@,
            y@ == b@,
            i <= x@.len(),
            i <= y@.len(),
            forall|j: int| 0 <= j < i ==> x@[j] == y@[j],
        decreases x@.len() - i,
    {
        i += 1;
    }
    let found = i < y.len() && (i == x.len() || x[i] < y[i]);
    proof {
        if found {
            assert(differ_at(a@, b@, i as int));
        } else {
            assert forall|k: int| !#[trigger] differ_at(a@, b@, k) by {
                if differ_at(a@, b@, k) {
                    if k < i {
                        assert(x@[k] == y@[k]);
                    } else if k > i {
                        assert(a@[i as int] == b@[i as int]);
                    }
                }
            }
        }
    }
    found
}

/// The characters of a text.
pub fn chars_of(s: &str) -> (r: Vec<char>)
    ensures
        r@ == s@,
{
    let mut out: Vec<char> = Vec::new();
    for c in it: s.chars()
        invariant
            out@ == it.seq().take(it.index()),
            it.seq() == s@,
    {
        out.push(c);
        assert(it.seq().take(it.index() + 1) == it.seq().take(it.index()).push(c));
    }
    assert(out@ == s@);
    out
}

/// The text made of the given characters.
pub fn text_of(chars: &[char]) -> (r: String)
    ensures
        r@ == chars@,
{
    let mut out = String::new();
    let mut i: usize = 0;
    while i < chars.len()
        invariant
            i <= chars@.len(),
            out@ == chars@.take(i as int),
        decreases chars@.len() - i,
    {
        out.push(chars[i]);
        i += 1;
        assert(chars@.take(i as int) == chars@.take(i - 1).push(chars@[i - 1]));
    }
    assert(chars@.take(i as int) == chars@);
    out
}

/// What `Debug` prints for a string slice.
pub uninterp spec fn quoted(s: Seq<char>) -> Seq<char>;

/// `<str as Debug>::fmt`, through `format!`: the text between double quotes, with its special
/// characters escaped. The printed text is a function of the text alone.
#[verifier::external_body]
pub(crate) fn debug_text(s: &str) -> (r: String)
    ensures
        r@ == quoted(s@),
{
    format!("{s:?}")
}

/// `a` followed by `b`.
pub fn join2(a: &str, b: &str) -> (r: String)
    ensures
        r@ == a@ + b@,
{
    let mut out = a.to_owned();
    out.push_str(b);
    out
}

/// `a`, `b` and `c` in a row.
pub fn join3(a: &str, b: &str, c: &str) -> (r: String)
    ensures
        r@ == a@ + b@ + c@,
{
    let mut out = join2(a, b);
    out.push_str(c);
    out
}

/// `a`, `b`, `c` and `d` in a row.
pub fn join4(a: &str, b: &str, c: &str, d: &str) -> (r: String)
    ensures
        r@ == a@ + b@ + c@ + d@,
{
    let mut out = join3(a, b, c);
    out.push_str(d);
    out
}

/// `a`, `b`, `c`, `d` and `e` in a row.
pub fn join5(a: &str, b: &str, c: &str, d: &str, e: &str) -> (r: String)
    ensures
        r@ == a@ + b@ + c@ + d@ + e@,
{
    let mut out = join4(a, b, c, d);
    out.push_str(e);
    out
}

/// Whether a character is an ASCII digit.
pub open spec fn is_digit(c: char) -> bool {
    '0' <= c && c <= '9'
}

/// The digit character of a value below ten.
pub open spec fn digit(d: int) -> char {
    (48 + d) as char
}

/// The decimal numeral of a number, without leading zeros.
pub open spec fn decimal(n: nat) -> Seq<char>
    decreases n,
{
    if n < 10 {
        seq![digit(n as int)]
    } else {
        decimal(n / 10).push(digit((n % 10) as int))
    }
}

/// The decimal numeral of an integer, with a minus sign below zero.
pub open spec fn signed(n: int) -> Seq<char> {
    if n < 0 {
        seq!['-'] + decimal((-n) as nat)
    } else {
        decimal(n as nat)
    }
}

/// A text padded on the left with zeros up to a width.
pub open spec fn zero_padded(s: Seq<char>, width: int) -> Seq<char>
    decreases width - s.len(),
{
    if s.len() >= width {
        s
    } else {
        zero_padded(seq!['0'] + s, width)
    }
}

/// The value of a run of decimal digits; the empty run is zero.
pub open spec fn numeral(s: Seq<char>) -> int
    decreases s.len(),
{
    if s.len() == 0 {
        0
    } else {
        numeral(s.drop_last()) * 10 + (s.last() as int - 48)
    }
}

/// Whether every character is an ASCII digit.
pub open spec fn all_digits(s: Seq<char>) -> bool {
    forall|i: int| 0 <= i < s.len() ==> is_digit(#[trigger] s[i])
}

/// Renders a number in decimal.
pub fn decimal_text(n: u64) -> (r: String)
    ensures
        r@ == decimal(n as nat),
    decreases n,
{
    if n < 10 {
        let mut out = String::new();
        out.push((48 + n as u8) as char);
        assert(out@ == seq![digit(n as int)]);
        out
    } else {
        let mut out = decimal_text(n / 10);
        out.push((48 + (n % 10) as u8) as char);
        out
    }
}

/// Renders a signed number in decimal.
pub fn signed_text(n: i64) -> (r: String)
    ensures
        r@ == signed(n as int),
{
    if n < 0 {
        let magnitude: u64 = (-(n + 1)) as u64 + 1;
        let digits = decimal_text(magnitude);
        let mut out = String::new();
        out.push('-');
        out.push_str(digits.as_str());
        assert(out@ == seq!['-'] + digits@);
        out
    } else {
        decimal_text(n as u64)
    }
}

/// Pads a text on the left with zeros up to a width.
pub fn zero_pad(s: String, width: usize) -> (r: String)
    ensures
        r@ == zero_padded(s@, width as int),
{
    let mut out = s;
    let mut size: usize = out.as_str().unicode_len();
    while size < width
        invariant
            size == out@.len(),
            zero_padded(out@, width as int) == zero_padded(s@, width as int),
        decreases width - size,
    {
        let mut next = String::new();
        next.push('0');
        next.push_str(out.as_str());
        assert(next@ == seq!['0'] + out@);
        out = next;
        size += 1;
    }
    out
}

/// Whether a text begins with another.
pub open spec fn begins(s: Seq<char>, prefix: Seq<char>) -> bool {
    prefix.len() <= s.len() && s.take(prefix.len() as int) == prefix
}

/// Whether a text begins with another.
pub fn starts_with(s: &str, prefix: &str) -> (r: bool)
    ensures
        r == begins(s@, prefix@),
{
    let n: usize = prefix.unicode_len();
    if n > s.unicode_len() {
        return false;
    }
    same(s.substring_char(0, n), prefix)
}

/// What follows the first `n` characters of a text.
pub fn after(s: &str, n: usize) -> (r: &str)
    requires
        n <= s@.len(),
    ensures
        r@ == s@.skip(n as int),
{
    let len: usize = s.unicode_len();
    s.substring_char(n, len)
}

/// What follows a prefix of a text, where it begins with it.
pub fn strip_prefix<'a>(s: &'a str, prefix: &str) -> (r: Option<&'a str>)
    ensures
        begins(s@, prefix@) ==> (r matches Some(rest) && rest@ == s@.skip(prefix@.len() as int)),
        !begins(s@, prefix@) ==> r is None,
{
    if starts_with(s, prefix) {
        Some(after(s, prefix.unicode_len()))
    } else {
        None
    }
}

/// Whether a text occurs inside another at a place.
pub open spec fn occurs_at(s: Seq<char>, part: Seq<char>, i: int) -> bool {
    0 <= i && i + part.len() <= s.len() && s.subrange(i, i + part.len()) == part
}

/// Whether a text occurs inside another.
pub open spec fn has_part(s: Seq<char>, part: Seq<char>) -> bool {
    exists|i: int| #[trigger] occurs_at(s, part, i)
}

/// Whether a text occurs inside another.
pub fn contains(s: &str, part: &str) -> (r: bool)
    ensures
        r == has_part(s@, part@),
{
    let n: usize = part.unicode_len();
    let len: usize = s.unicode_len();
    if n > len {
        return false;
    }
    let mut i: usize = 0;
    while i <= len - n
        invariant
            n == part@.len(),
            len == s@.len(),
            n <= len,
            i <= len - n + 1,
            forall|j: int| 0 <= j < i ==> !#[trigger] occurs_at(s@, part@, j),
        decreases len - n + 1 - i,
    {
        if same(s.substring_char(i, i + n), part) {
            assert(occurs_at(s@, part@, i as int));
            return true;
        }
        if i == len - n {
            assert forall|j: int| !#[trigger] occurs_at(s@, part@, j) by {}
            return false;
        }
        i += 1;
    }
    false
}

/// Where a text first has a character.
pub open spec fn index_of(s: Seq<char>, c: char) -> Option<int>
    decreases s.len(),
{
    if s.len() == 0 {
        None
    } else if s[0] == c {
        Some(0)
    } else {
        match index_of(s.drop_first(), c) {
            Some(i) => Some(i + 1),
            None => None,
        }
    }
}

/// The first place of a character is where it is, and nowhere before.
pub proof fn lemma_index_of(s: Seq<char>, c: char)
    ensures
        index_of(s, c) matches Some(i) ==> 0 <= i < s.len() && s[i] == c && forall|j: int|
            0 <= j < i ==> s[j] != c,
        index_of(s, c) is None ==> forall|j: int| 0 <= j < s.len() ==> s[j] != c,
    decreases s.len(),
{
    if s.len() > 0 && s[0] != c {
        let t = s.drop_first();
        lemma_index_of(t, c);
        if let Some(i) = index_of(t, c) {
            assert forall|j: int| 0 <= j < i + 1 implies s[j] != c by {
                if j > 0 {
                    assert(t[j - 1] == s[j]);
                }
            }
        } else {
            assert forall|j: int| 0 <= j < s.len() implies s[j] != c by {
                if j > 0 {
                    assert(t[j - 1] == s[j]);
                }
            }
        }
    }
}

/// Where a text first has a character.
pub fn find(s: &str, c: char) -> (r: Option<usize>)
    ensures
        match r {
            Some(i) => index_of(s@, c) == Some(i as int) && i < s@.len() && i < usize::MAX,
            None => index_of(s@, c) is None,
        },
{
    let chars = chars_of(s);
    proof {
        lemma_index_of(s@, c);
    }
    let mut i: usize = 0;
    while i < chars.len()
        invariant
            chars@ == s@,
            i <= chars@.len(),
            forall|j: int| 0 <= j < i ==> chars@[j] != c,
            index_of(s@, c) matches Some(k) ==> 0 <= k < s@.len() && s@[k] == c && forall|j: int|
                0 <= j < k ==> s@[j] != c,
            index_of(s@, c) is None ==> forall|j: int| 0 <= j < s@.len() ==> s@[j] != c,
        decreases chars@.len() - i,
    {
        if chars[i] == c {
            proof {
                if let Some(k) = index_of(s@, c) {
                    if k < i {
                        assert(chars@[k] == c);
                    }
                    if k > i {
                        assert(s@[i as int] != c);
                    }
                } else {
                    assert(s@[i as int] != c);
                }
            }
            return Some(i);
        }
        i += 1;
    }
    None
}

/// The pieces of a text between the occurrences of a character: one more than there are of it.
pub open spec fn pieces(s: Seq<char>, c: char) -> Seq<Seq<char>>
    decreases s.len(),
    via pieces_decreases
{
    match index_of(s, c) {
        None => seq![s],
        Some(i) => seq![s.take(i)] + pieces(s.skip(i + 1), c),
    }
}

#[via_fn]
proof fn pieces_decreases(s: Seq<char>, c: char) {
    lemma_index_of(s, c);
}

/// The views of some texts.
pub open spec fn texts(v: Seq<String>) -> Seq<Seq<char>> {
    Seq::new(v.len(), |i: int| v[i]@)
}

/// The pieces of a text between the occurrences of a character.
pub fn split(s: &str, c: char) -> (r: Vec<String>)
    ensures
        texts(r@) == pieces(s@, c),
{
    let mut out: Vec<String> = Vec::new();
    let mut rest: &str = s;
    proof {
        assert(texts(out@) + pieces(rest@, c) =~= pieces(s@, c));
    }
    loop
        invariant
            texts(out@) + pieces(rest@, c) == pieces(s@, c),
        decreases rest@.len(),
    {
        match find(rest, c) {
            None => {
                let ghost before = texts(out@);
                out.push(rest.to_owned());
                assert(texts(out@) =~= before + seq![rest@]);
                return out;
            },
            Some(i) => {
                let ghost before = texts(out@);
                let piece = rest.substring_char(0, i).to_owned();
                assert(piece@ == rest@.take(i as int));
                out.push(piece);
                assert(texts(out@) =~= before + seq![rest@.take(i as int)]);
                let next = after(rest, i + 1);
                assert(before + (seq![rest@.take(i as int)] + pieces(next@, c)) =~= texts(out@)
                    + pieces(next@, c));
                rest = next;
            },
        }
    }
}

/// Some texts in a row, with a separator between.
pub open spec fn joined(parts: Seq<Seq<char>>, separator: Seq<char>) -> Seq<char>
    decreases parts.len(),
{
    if parts.len() == 0 {
        Seq::empty()
    } else if parts.len() == 1 {
        parts[0]
    } else {
        joined(parts.drop_last(), separator) + separator + parts.last()
    }
}

/// Some texts in a row, with a separator between.
pub fn join(parts: &Vec<String>, separator: &str) -> (r: String)
    ensures
        r@ == joined(texts(parts@), separator@),
{
    let mut out = String::new();
    let mut i: usize = 0;
    let ghost all = texts(parts@);
    while i < parts.len()
        invariant
            i <= parts@.len(),
            all == texts(parts@),
            out@ == joined(all.take(i as int), separator@),
        decreases parts@.len() - i,
    {
        proof {
            assert(all.take(i + 1).drop_last() == all.take(i as int));
            assert(all.take(i + 1).last() == parts@[i as int]@);
        }
        if i > 0 {
            out.push_str(separator);
        }
        out.push_str(parts[i].as_str());
        i += 1;
        assert(out@ =~= joined(all.take(i as int), separator@));
    }
    assert(all.take(i as int) == all);
    out
}

/// Some texts, each as `Debug` prints it.
pub open spec fn each_quoted(parts: Seq<Seq<char>>) -> Seq<Seq<char>> {
    Seq::new(parts.len(), |i: int| quoted(parts[i]))
}

/// A list of texts as `Debug` prints it.
pub open spec fn quoted_list(parts: Seq<Seq<char>>) -> Seq<char> {
    "["@ + joined(each_quoted(parts), ", "@) + "]"@
}

/// A list of texts as `Debug` prints it.
pub fn debug_list(parts: &Vec<String>) -> (r: String)
    ensures
        r@ == quoted_list(texts(parts@)),
{
    let mut each: Vec<String> = Vec::new();
    let mut i: usize = 0;
    while i < parts.len()
        invariant
            i <= parts@.len(),
            each@.len() == i,
            forall|j: int| 0 <= j < i ==> (#[trigger] each@[j])@ == quoted(parts@[j]@),
        decreases parts@.len() - i,
    {
        each.push(debug_text(parts[i].as_str()));
        i += 1;
    }
    assert(texts(each@) =~= each_quoted(texts(parts@)));
    join3("[", join(&each, ", ").as_str(), "]")
}

/// What `core::str::Utf8Error` says of bytes that encode no text.
pub uninterp spec fn utf8_complaint(bytes: Seq<u8>) -> Seq<char>;

/// `core::str::from_utf8`: the text some bytes encode, or what its error says where they encode
/// none. What it says is a function of the bytes alone.
#[verifier::external_body]
pub(crate) fn decode(bytes: &[u8]) -> (r: Result<String, String>)
    ensures
        match r {
            Ok(s) => valid_utf8(bytes@) && s@ == decode_utf8(bytes@),
            Err(m) => !valid_utf8(bytes@) && m@ == utf8_complaint(bytes@),
        },
{
    match core::str::from_utf8(bytes) {
        Ok(s) => Ok(s.to_owned()),
        Err(e) => Err(e.to_string()),
    }
}

/// What `String::from_utf8_lossy` makes of bytes that encode no text.
pub uninterp spec fn lossy_text(bytes: Seq<u8>) -> Seq<char>;

/// `String::from_utf8_lossy`: the text some bytes encode, with a replacement character for what
/// encodes none. The result is a function of the bytes alone, and the text itself where they are
/// valid.
#[verifier::external_body]
pub(crate) fn decode_lossy(bytes: &[u8]) -> (r: String)
    ensures
        r@ == lossy_text(bytes@),
        valid_utf8(bytes@) ==> r@ == decode_utf8(bytes@),
{
    String::from_utf8_lossy(bytes).into_owned()
}

/// Whether a character is white space: one of the code points with the property `White_Space`.
pub open spec fn is_space(c: char) -> bool {
    let n = c as int;
    ||| 0x9 <= n <= 0xd
    ||| n == 0x20
    ||| n == 0x85
    ||| n == 0xa0
    ||| n == 0x1680
    ||| 0x2000 <= n <= 0x200a
    ||| n == 0x2028
    ||| n == 0x2029
    ||| n == 0x202f
    ||| n == 0x205f
    ||| n == 0x3000
}

/// `char::is_whitespace`: whether a character has the Unicode property `White_Space`, which is a
/// fixed set of code points.
#[verifier::external_body]
pub(crate) fn whitespace(c: char) -> (r: bool)
    ensures
        r == is_space(c),
{
    c.is_whitespace()
}

/// A text without the white space it begins with.
pub open spec fn trimmed_start(s: Seq<char>) -> Seq<char>
    decreases s.len(),
{
    if s.len() > 0 && is_space(s[0]) {
        trimmed_start(s.drop_first())
    } else {
        s
    }
}

/// A text without the white space it ends with.
pub open spec fn trimmed_end(s: Seq<char>) -> Seq<char>
    decreases s.len(),
{
    if s.len() > 0 && is_space(s.last()) {
        trimmed_end(s.drop_last())
    } else {
        s
    }
}

/// A text without white space at either end.
pub open spec fn trimmed(s: Seq<char>) -> Seq<char> {
    trimmed_end(trimmed_start(s))
}

/// A text without white space at either end.
pub fn trim(s: &str) -> (r: &str)
    ensures
        r@ == trimmed(s@),
{
    let chars = chars_of(s);
    let mut from: usize = 0;
    assert(s@.skip(0) == s@);
    while from < chars.len() && whitespace(chars[from])
        invariant
            chars@ == s@,
            from <= chars@.len(),
            trimmed_start(s@) == trimmed_start(s@.skip(from as int)),
        decreases chars@.len() - from,
    {
        assert(s@.skip(from as int).drop_first() == s@.skip(from + 1));
        from += 1;
    }
    let mut to: usize = chars.len();
    let ghost start = s@.skip(from as int);
    assert(s@.subrange(from as int, to as int) == start);
    while to > from && whitespace(chars[to - 1])
        invariant
            chars@ == s@,
            from <= to <= chars@.len(),
            trimmed_end(start) == trimmed_end(s@.subrange(from as int, to as int)),
        decreases to,
    {
        assert(s@.subrange(from as int, to as int).drop_last() == s@.subrange(
            from as int,
            to - 1,
        ));
        assert(s@.subrange(from as int, to as int).last() == chars@[to - 1]);
        to -= 1;
    }
    s.substring_char(from, to)
}

/// Whether a character is a lowercase hexadecimal digit.
pub open spec fn is_lower_hex(c: char) -> bool {
    is_digit(c) || ('a' <= c && c <= 'f')
}

/// Whether a text is a digest: sixty-four lowercase hexadecimal digits.
pub open spec fn is_digest(s: Seq<char>) -> bool {
    s.len() == 64 && forall|i: int| 0 <= i < s.len() ==> is_lower_hex(#[trigger] s[i])
}

/// Whether a text is sixty-four lowercase hexadecimal digits.
pub fn is_digest_hex(s: &str) -> (r: bool)
    ensures
        r == is_digest(s@),
{
    let chars = chars_of(s);
    if chars.len() != 64 {
        return false;
    }
    let mut i: usize = 0;
    while i < chars.len()
        invariant
            chars@ == s@,
            i <= chars@.len(),
            forall|j: int| 0 <= j < i ==> is_lower_hex(#[trigger] s@[j]),
        decreases chars@.len() - i,
    {
        let c: char = chars[i];
        if !((c >= '0' && c <= '9') || (c >= 'a' && c <= 'f')) {
            assert(!is_lower_hex(s@[i as int]));
            return false;
        }
        i += 1;
    }
    true
}

/// A text, or the empty text where there is none.
pub open spec fn or_empty(s: Option<Seq<char>>) -> Seq<char> {
    match s {
        Some(t) => t,
        None => Seq::empty(),
    }
}

/// A text, or the empty text where there is none.
pub fn text_or_empty(s: Option<&str>) -> (r: &str)
    ensures
        match s {
            Some(t) => r@ == t@,
            None => r@ == Seq::<char>::empty(),
        },
{
    match s {
        Some(t) => t,
        None => {
            proof {
                reveal_strlit("");
            }
            ""
        },
    }
}

/// The string an optional text stands for.
pub open spec fn opt_text(s: Option<&str>) -> Option<Seq<char>> {
    match s {
        Some(t) => Some(t@),
        None => None,
    }
}

/// A text begins with another exactly where it is that text and something more, or nothing more.
pub proof fn lemma_what_begins_goes_on(s: Seq<char>, prefix: Seq<char>)
    ensures
        begins(s, prefix) <==> exists|rest: Seq<char>| s == #[trigger] (prefix + rest),
{
    if begins(s, prefix) {
        assert(s =~= prefix + s.skip(prefix.len() as int));
    }
    assert forall|rest: Seq<char>| s == #[trigger] (prefix + rest) implies begins(s, prefix) by {
        assert(s.take(prefix.len() as int) =~= prefix);
    }
}

/// A digest is sixty-four characters, each of them a digit or a letter from `a` to `f`; one more or
/// less, or a capital anywhere, and it is none.
pub proof fn lemma_what_a_digest_is(s: Seq<char>)
    ensures
        is_digest(s) <==> s.len() == 64 && forall|i: int|
            0 <= i < 64 ==> ('0' <= #[trigger] s[i] && s[i] <= '9') || ('a' <= s[i] && s[i] <= 'f'),
{
    assert forall|i: int| 0 <= i < s.len() implies is_lower_hex(#[trigger] s[i]) == (('0' <= s[i]
        && s[i] <= '9') || ('a' <= s[i] && s[i] <= 'f')) by {}
    if is_digest(s) {
        assert forall|i: int| 0 <= i < 64 implies ('0' <= #[trigger] s[i] && s[i] <= '9') || ('a'
            <= s[i] && s[i] <= 'f') by {
            assert(is_lower_hex(s[i]));
        }
    }
}

/// What stands between separators holds none, there is one more of them than there are separators,
/// and put together again they are the text.
pub proof fn lemma_pieces_make_up_the_text(s: Seq<char>, c: char)
    ensures
        pieces(s, c).len() >= 1,
        joined(pieces(s, c), seq![c]) == s,
        forall|i: int, j: int|
            0 <= i < pieces(s, c).len() && 0 <= j < pieces(s, c)[i].len() ==> #[trigger] pieces(
                s,
                c,
            )[i][j] != c,
    decreases s.len(),
{
    lemma_index_of(s, c);
    match index_of(s, c) {
        None => {
            assert(pieces(s, c) == seq![s]);
        },
        Some(i) => {
            let head = s.take(i);
            let rest = s.skip(i + 1);
            lemma_pieces_make_up_the_text(rest, c);
            lemma_joined_front(head, pieces(rest, c), seq![c]);
            assert(pieces(s, c) == seq![head] + pieces(rest, c));
            assert(head + seq![c] + rest =~= s);
            assert forall|a: int, b: int|
                0 <= a < pieces(s, c).len() && 0 <= b < pieces(s, c)[a].len() implies #[trigger] pieces(
                s,
                c,
            )[a][b] != c by {
                if a == 0 {
                    assert(pieces(s, c)[0] == head);
                } else {
                    assert(pieces(s, c)[a] == pieces(rest, c)[a - 1]);
                }
            }
        },
    }
}

/// Texts in a row begin with the first of them.
proof fn lemma_joined_front(head: Seq<char>, parts: Seq<Seq<char>>, separator: Seq<char>)
    requires
        parts.len() >= 1,
    ensures
        joined(seq![head] + parts, separator) == head + separator + joined(parts, separator),
    decreases parts.len(),
{
    let all = seq![head] + parts;
    if parts.len() == 1 {
        assert(all.drop_last() =~= seq![head]);
        assert(all.last() == parts[0]);
        assert(joined(seq![head], separator) == head);
    } else {
        assert(all.drop_last() =~= seq![head] + parts.drop_last());
        assert(all.last() == parts.last());
        lemma_joined_front(head, parts.drop_last(), separator);
        assert(joined(all, separator) =~= head + separator + joined(parts, separator));
    }
}

/// Trimming takes away white space at both ends, all of it, and nothing else.
pub proof fn lemma_trimming_takes_the_ends(s: Seq<char>)
    ensures
        trimmed(s).len() > 0 ==> !is_space(trimmed(s)[0]) && !is_space(trimmed(s).last()),
        exists|from: int, to: int|
            0 <= from <= to <= s.len() && trimmed(s) == #[trigger] s.subrange(from, to) && (forall|
                j: int,
            | 0 <= j < from ==> is_space(#[trigger] s[j])) && (forall|j: int|
                to <= j < s.len() ==> is_space(#[trigger] s[j])),
{
    let from = lemma_trimmed_start(s);
    let rest = trimmed_start(s);
    let to = lemma_trimmed_end(rest);
    assert(trimmed(s) =~= s.subrange(from, from + to));
    assert forall|j: int| from + to <= j < s.len() implies is_space(#[trigger] s[j]) by {
        assert(rest[j - from] == s[j]);
    }
    if trimmed(s).len() > 0 {
        assert(trimmed(s)[0] == rest[0]);
    }
}

proof fn lemma_trimmed_start(s: Seq<char>) -> (r: int)
    ensures
        0 <= r <= s.len(),
        trimmed_start(s) == s.skip(r),
        forall|j: int| 0 <= j < r ==> is_space(#[trigger] s[j]),
        r < s.len() ==> !is_space(s[r]),
    decreases s.len(),
{
    if s.len() > 0 && is_space(s[0]) {
        let t = s.drop_first();
        let r = lemma_trimmed_start(t);
        assert(t.skip(r) =~= s.skip(r + 1));
        assert forall|j: int| 0 <= j < r + 1 implies is_space(#[trigger] s[j]) by {
            if j > 0 {
                assert(t[j - 1] == s[j]);
            }
        }
        r + 1
    } else {
        assert(s.skip(0) =~= s);
        0
    }
}

proof fn lemma_trimmed_end(s: Seq<char>) -> (r: int)
    ensures
        0 <= r <= s.len(),
        trimmed_end(s) == s.take(r),
        forall|j: int| r <= j < s.len() ==> is_space(#[trigger] s[j]),
        r > 0 ==> !is_space(s[r - 1]),
    decreases s.len(),
{
    if s.len() > 0 && is_space(s.last()) {
        let t = s.drop_last();
        let r = lemma_trimmed_end(t);
        assert(t.take(r) =~= s.take(r));
        assert forall|j: int| r <= j < s.len() implies is_space(#[trigger] s[j]) by {
            if j < s.len() - 1 {
                assert(t[j] == s[j]);
            }
        }
        r
    } else {
        assert(s.take(s.len() as int) =~= s);
        s.len() as int
    }
}

/// A number that is written is read back, in digits and without a zero before them.
pub proof fn lemma_numbers_are_read_back(n: nat)
    ensures
        all_digits(decimal(n)),
        numeral(decimal(n)) == n,
        decimal(n).len() > 0,
        decimal(n).len() > 1 ==> decimal(n)[0] != '0',
    decreases n,
{
    if n < 10 {
        let s = decimal(n);
        assert(s.drop_last() =~= Seq::empty());
        assert(numeral(Seq::<char>::empty()) == 0);
    } else {
        let front = decimal(n / 10);
        let s = decimal(n);
        lemma_numbers_are_read_back(n / 10);
        assert(s.drop_last() =~= front);
        assert forall|i: int| 0 <= i < s.len() implies is_digit(#[trigger] s[i]) by {
            if i < front.len() {
                assert(is_digit(front[i]));
            }
        }
        if front.len() == 1 {
            assert(n / 10 >= 1);
            if n / 10 >= 10 {
                assert(decimal(n / 10 / 10).len() > 0) by {
                    lemma_numbers_are_read_back(n / 10 / 10);
                }
            }
        }
        assert(s[0] == front[0]);
    }
}

} // verus!
