//! Values in a query string and in a submitted form.

use vstd::prelude::*;
use vstd::string::*;

use crate::text::{decode_lossy, lossy_text};

verus! {

/// Whether a byte passes through a query string as it is.
pub open spec fn is_unreserved(b: u8) -> bool {
    ||| 65 <= b <= 90
    ||| 97 <= b <= 122
    ||| 48 <= b <= 57
    ||| b == 45
    ||| b == 46
    ||| b == 95
    ||| b == 126
}

/// An uppercase hexadecimal digit.
pub open spec fn upper_digit(n: int) -> char {
    if n < 10 {
        (48 + n) as char
    } else {
        (55 + n) as char
    }
}

/// What stands for a byte in a query string.
pub open spec fn escape(b: u8) -> Seq<char> {
    if is_unreserved(b) {
        seq![b as char]
    } else {
        seq!['%', upper_digit(b as int / 16), upper_digit(b as int % 16)]
    }
}

/// What stands for some bytes in a query string.
pub open spec fn escaped(bytes: Seq<u8>) -> Seq<char>
    decreases bytes.len(),
{
    if bytes.len() == 0 {
        Seq::empty()
    } else {
        escape(bytes[0]) + escaped(bytes.drop_first())
    }
}

/// What stands for a text in a query string.
pub open spec fn percent_encoded(s: Seq<char>) -> Seq<char> {
    escaped(vstd::utf8::encode_utf8(s))
}

fn upper(n: u8) -> (r: char)
    requires
        n < 16,
    ensures
        r == upper_digit(n as int),
{
    if n < 10 {
        (48 + n) as char
    } else {
        (55 + n) as char
    }
}

/// What stands for a text in a query string: unreserved characters pass through.
pub fn percent_encode(value: &str) -> (r: String)
    ensures
        r@ == percent_encoded(value@),
{
    let bytes = value.as_bytes();
    let mut out = String::new();
    let mut i: usize = 0;
    assert(bytes@.skip(0) == bytes@);
    assert(out@ + escaped(bytes@) =~= escaped(bytes@));
    while i < bytes.len()
        invariant
            i <= bytes@.len(),
            bytes@ == vstd::utf8::encode_utf8(value@),
            out@ + escaped(bytes@.skip(i as int)) == percent_encoded(value@),
        decreases bytes@.len() - i,
    {
        let b: u8 = bytes[i];
        let ghost before = out@;
        let ghost rest = escaped(bytes@.skip(i + 1));
        assert(bytes@.skip(i as int).drop_first() == bytes@.skip(i + 1));
        if (b >= 65 && b <= 90) || (b >= 97 && b <= 122) || (b >= 48 && b <= 57) || b == 45 || b
            == 46 || b == 95 || b == 126 {
            out.push(b as char);
        } else {
            out.push('%');
            out.push(upper(b / 16));
            out.push(upper(b % 16));
        }
        assert(out@ =~= before + escape(b));
        assert(before + (escape(b) + rest) =~= out@ + rest);
        i += 1;
    }
    assert(out@ + Seq::<char>::empty() =~= out@);
    out
}

/// The value of a byte that is a hexadecimal digit.
pub open spec fn digit_value(b: u8) -> Option<int> {
    if 48 <= b <= 57 {
        Some(b - 48)
    } else if 65 <= b <= 70 {
        Some(b - 55)
    } else if 97 <= b <= 102 {
        Some(b - 87)
    } else {
        None
    }
}

/// The byte two characters behind a percent sign stand for: two hexadecimal digits, or a plus sign
/// and one.
pub open spec fn unescape(a: u8, b: u8) -> Option<int> {
    match (digit_value(a), digit_value(b)) {
        (Some(x), Some(y)) => Some(16 * x + y),
        (None, Some(y)) => if a == 43 {
            Some(y)
        } else {
            None
        },
        _ => None,
    }
}

/// The bytes a submitted value stands for. A percent sign that escapes nothing stands for itself.
pub open spec fn form_bytes(octets: Seq<u8>) -> Seq<u8>
    decreases octets.len(),
{
    if octets.len() == 0 {
        Seq::empty()
    } else if octets[0] == 43 {
        seq![32u8] + form_bytes(octets.drop_first())
    } else if octets[0] == 37 && octets.len() > 2 && unescape(octets[1], octets[2]) is Some {
        seq![unescape(octets[1], octets[2])->0 as u8] + form_bytes(octets.skip(3))
    } else {
        seq![octets[0]] + form_bytes(octets.drop_first())
    }
}

fn value_of_digit(b: u8) -> (r: Option<u8>)
    ensures
        match digit_value(b) {
            Some(n) => r == Some(n as u8) && 0 <= n < 16,
            None => r is None,
        },
{
    if b >= 48 && b <= 57 {
        Some(b - 48)
    } else if b >= 65 && b <= 70 {
        Some(b - 55)
    } else if b >= 97 && b <= 102 {
        Some(b - 87)
    } else {
        None
    }
}

fn unescaped(a: u8, b: u8) -> (r: Option<u8>)
    ensures
        match unescape(a, b) {
            Some(n) => r == Some(n as u8) && 0 <= n < 256,
            None => r is None,
        },
{
    match (value_of_digit(a), value_of_digit(b)) {
        (Some(x), Some(y)) => Some(16 * x + y),
        (None, Some(y)) => if a == 43 {
            Some(y)
        } else {
            None
        },
        _ => None,
    }
}

/// What a submitted value says.
pub fn form_decode(value: &str) -> (r: String)
    ensures
        r@ == lossy_text(form_bytes(vstd::utf8::encode_utf8(value@))),
        vstd::utf8::valid_utf8(form_bytes(vstd::utf8::encode_utf8(value@))) ==> r@
            == vstd::utf8::decode_utf8(form_bytes(vstd::utf8::encode_utf8(value@))),
{
    let octets = value.as_bytes();
    let mut out: Vec<u8> = Vec::new();
    let mut i: usize = 0;
    let ghost whole = form_bytes(octets@);
    assert(octets@.skip(0) == octets@);
    assert(out@ + whole =~= whole);
    while i < octets.len()
        invariant
            i <= octets@.len(),
            whole == form_bytes(octets@),
            out@ + form_bytes(octets@.skip(i as int)) == whole,
        decreases octets@.len() - i,
    {
        let b: u8 = octets[i];
        let ghost rest = octets@.skip(i as int);
        let ghost before = out@;
        assert(rest.drop_first() == octets@.skip(i + 1));
        if b == 43 {
            out.push(32);
            assert(before + (seq![32u8] + form_bytes(rest.drop_first())) =~= out@ + form_bytes(
                rest.drop_first(),
            ));
            i += 1;
        } else {
            let escape: Option<u8> = if b == 37 && octets.len() - i > 2 {
                unescaped(octets[i + 1], octets[i + 2])
            } else {
                None
            };
            match escape {
                Some(n) => {
                    assert(rest[1] == octets@[i + 1]);
                    assert(rest[2] == octets@[i + 2]);
                    assert(rest.skip(3) == octets@.skip(i + 3));
                    out.push(n);
                    assert(before + (seq![n] + form_bytes(rest.skip(3))) =~= out@ + form_bytes(
                        rest.skip(3),
                    ));
                    i += 3;
                },
                None => {
                    if octets.len() - i > 2 {
                        assert(rest[1] == octets@[i + 1]);
                        assert(rest[2] == octets@[i + 2]);
                    }
                    out.push(b);
                    assert(before + (seq![b] + form_bytes(rest.drop_first())) =~= out@
                        + form_bytes(rest.drop_first()));
                    i += 1;
                },
            }
        }
    }
    assert(out@ + Seq::<u8>::empty() =~= out@);
    decode_lossy(out.as_slice())
}

// -- laws -------------------------------------------------------------------------------------

/// The bytes of some characters below one hundred and twenty-eight.
spec fn octets_of(chars: Seq<char>) -> Seq<u8> {
    Seq::new(chars.len(), |i: int| chars[i] as u8)
}

proof fn lemma_escaped_is_ascii(bytes: Seq<u8>)
    ensures
        vstd::utf8::is_ascii_chars(escaped(bytes)),
    decreases bytes.len(),
{
    if bytes.len() > 0 {
        lemma_escaped_is_ascii(bytes.drop_first());
        let rest = escaped(bytes.drop_first());
        let head = escape(bytes[0]);
        assert forall|i: int| 0 <= i < escaped(bytes).len() implies (#[trigger] escaped(
            bytes,
        )[i]) as u32 <= 127 by {
            if i < head.len() {
                assert(escaped(bytes)[i] == head[i]);
            } else {
                assert(escaped(bytes)[i] == rest[i - head.len()]);
            }
        }
    }
}

proof fn lemma_escapes_are_undone(bytes: Seq<u8>)
    ensures
        form_bytes(octets_of(escaped(bytes))) == bytes,
    decreases bytes.len(),
{
    if bytes.len() == 0 {
        assert(octets_of(escaped(bytes)) =~= Seq::empty());
        assert(form_bytes(octets_of(escaped(bytes))) =~= bytes);
    } else {
        let b = bytes[0];
        let rest = octets_of(escaped(bytes.drop_first()));
        let all = octets_of(escaped(bytes));
        lemma_escapes_are_undone(bytes.drop_first());
        if is_unreserved(b) {
            assert(all =~= seq![b] + rest);
            assert(all.drop_first() =~= rest);
        } else {
            let x = upper_digit(b as int / 16) as u8;
            let y = upper_digit(b as int % 16) as u8;
            assert(all =~= seq![37u8, x, y] + rest);
            assert(all.skip(3) =~= rest);
            assert(all[1] == x && all[2] == y);
            assert(unescape(x, y) == Some(b as int));
        }
        assert(form_bytes(all) =~= seq![b] + bytes.drop_first());
        assert(seq![b] + bytes.drop_first() =~= bytes);
    }
}

/// A value survives a query string: what stands for a text decodes to the bytes of that text, and
/// so to the text.
pub proof fn lemma_values_survive(s: Seq<char>)
    ensures
        form_bytes(vstd::utf8::encode_utf8(percent_encoded(s))) == vstd::utf8::encode_utf8(s),
        vstd::utf8::valid_utf8(vstd::utf8::encode_utf8(s)),
        vstd::utf8::decode_utf8(vstd::utf8::encode_utf8(s)) == s,
{
    let bytes = vstd::utf8::encode_utf8(s);
    lemma_escaped_is_ascii(bytes);
    vstd::utf8::is_ascii_chars_encode_utf8(escaped(bytes));
    assert(vstd::utf8::encode_utf8(escaped(bytes)) =~= octets_of(escaped(bytes)));
    lemma_escapes_are_undone(bytes);
    vstd::utf8::encode_utf8_valid_utf8(s);
    vstd::utf8::encode_utf8_decode_utf8(s);
}

/// A value cannot leave its place: nothing that separates the parts of a query string stands in
/// what stands for a text.
pub proof fn lemma_values_do_not_escape(bytes: Seq<u8>, i: int)
    requires
        0 <= i < escaped(bytes).len(),
    ensures
        escaped(bytes)[i] != '&',
        escaped(bytes)[i] != '=',
        escaped(bytes)[i] != '#',
        escaped(bytes)[i] != '+',
    decreases bytes.len(),
{
    let head = escape(bytes[0]);
    let rest = escaped(bytes.drop_first());
    if i < head.len() {
        assert(escaped(bytes)[i] == head[i]);
    } else {
        assert(escaped(bytes)[i] == rest[i - head.len()]);
        lemma_values_do_not_escape(bytes.drop_first(), i - head.len());
    }
}

} // verus!
