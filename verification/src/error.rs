//! The refusal every rule of this crate answers with: a reason code and its detail.

use vstd::prelude::*;

use crate::text::join3;

verus! {

/// What a refusal says.
pub struct Fault {
    /// The machine-readable reason code.
    pub code: Seq<char>,
    /// The human-readable detail.
    pub detail: Seq<char>,
    /// The chain position the refusal is about, where there is one.
    pub seq: Option<u64>,
}

/// A refusal that names no chain position.
pub open spec fn fault(code: Seq<char>, detail: Seq<char>) -> Fault {
    Fault { code, detail, seq: None }
}

impl Fault {
    /// A refusal in one line: its code, and its detail.
    pub open spec fn line(self) -> Seq<char> {
        self.code + ": "@ + self.detail
    }
}

/// Whether a check came out as described: with this refusal, or with none.
pub open spec fn settles(r: Result<(), Error>, expected: Option<Fault>) -> bool {
    match expected {
        Some(f) => r matches Err(e) && e@ == f,
        None => r is Ok,
    }
}

/// Whether a result of this crate is the one described: the same text, or the same refusal.
pub open spec fn is_text_result(r: Result<String, Error>, expected: Result<Seq<char>, Fault>) -> bool {
    match expected {
        Ok(t) => r matches Ok(v) && v@ == t,
        Err(f) => r matches Err(e) && e@ == f,
    }
}

/// A refusal: a reason code, a detail, and the chain position it is about where there is one.
#[derive(Debug)]
pub struct Error {
    code: String,
    detail: String,
    seq: Option<u64>,
}

impl View for Error {
    type V = Fault;

    closed spec fn view(&self) -> Fault {
        Fault { code: self.code@, detail: self.detail@, seq: self.seq }
    }
}

impl Error {
    /// A refusal with this code and detail, about no particular position.
    pub fn new(code: &str, detail: String) -> (r: Error)
        ensures
            r@ == fault(code@, detail@),
    {
        Error { code: code.to_owned(), detail, seq: None }
    }

    /// A refusal with this code and detail, about a chain position.
    pub fn at_seq(code: &str, detail: String, seq: u64) -> (r: Error)
        ensures
            r@ == (Fault { code: code@, detail: detail@, seq: Some(seq) }),
    {
        Error { code: code.to_owned(), detail, seq: Some(seq) }
    }

    /// The machine-readable reason code.
    pub fn code(&self) -> (r: &str)
        ensures
            r@ == self@.code,
    {
        self.code.as_str()
    }

    /// The human-readable detail.
    pub fn detail(&self) -> (r: &str)
        ensures
            r@ == self@.detail,
    {
        self.detail.as_str()
    }

    /// The chain position the refusal is about, where there is one.
    pub fn seq(&self) -> (r: Option<u64>)
        ensures
            r == self@.seq,
    {
        self.seq
    }

    /// The refusal in one line: its code, and its detail.
    pub fn to_line(&self) -> (r: String)
        ensures
            r@ == self@.line(),
    {
        join3(self.code.as_str(), ": ", self.detail.as_str())
    }

    /// The same refusal again.
    pub fn copy(&self) -> (r: Error)
        ensures
            r@ == self@,
    {
        Error { code: self.code.clone(), detail: self.detail.clone(), seq: self.seq }
    }
}

/// A refusal whose detail is a fixed text.
pub fn refusal(code: &str, detail: &str) -> (r: Error)
    ensures
        r@ == fault(code@, detail@),
{
    Error::new(code, detail.to_owned())
}

/// A judgement is settled exactly where what is found wrong is what is reported, and nothing is
/// reported where nothing is.
pub proof fn lemma_what_settles(r: Result<(), Error>, expected: Option<Fault>)
    ensures
        settles(r, expected) <==> match r {
            Ok(_) => expected is None,
            Err(e) => expected == Some(e@),
        },
{
}

/// A text is what was expected exactly where it is that text, or the same refusal.
pub proof fn lemma_what_a_text_result_is(
    r: Result<String, Error>,
    expected: Result<Seq<char>, Fault>,
)
    ensures
        is_text_result(r, expected) <==> match r {
            Ok(v) => expected == Ok::<Seq<char>, Fault>(v@),
            Err(e) => expected == Err::<Seq<char>, Fault>(e@),
        },
{
}

/// A refusal says its code and its detail, and is about no place in particular.
pub proof fn lemma_what_a_fault_says(code: Seq<char>, detail: Seq<char>)
    ensures
        fault(code, detail).code == code,
        fault(code, detail).detail == detail,
        fault(code, detail).seq is None,
        fault(code, detail).line() == code + ": "@ + detail,
{
}

} // verus!
