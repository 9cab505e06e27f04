//! What the commands of an operator decide, apart from reading files, signing and sending.

use vstd::prelude::*;

use crate::arguments::{flag_unsigned, unsigned_or};
use crate::clock::declaration::{from_config, KernelClock};
use crate::clock::{advance_fault, ClockAdvance};
use crate::error::{Error, Fault};
use crate::text::{join2, join4, texts};

pub mod offline;
pub mod policy;
pub mod publishing;
pub mod reports;
pub mod requests;

verus! {

/// A refusal a command prints: what it was doing, and what went wrong.
pub open spec fn failing(doing: Seq<char>, f: Fault) -> Seq<char> {
    doing + ": "@ + f.line()
}

/// A refusal a command prints.
pub fn failed(doing: &str, e: &Error) -> (r: String)
    ensures
        r@ == failing(doing@, e@),
{
    let mut out = join2(doing, ": ");
    out.push_str(e.to_line().as_str());
    out
}

/// A number held to what sixty-four bits hold.
pub open spec fn held64(n: int) -> int {
    if n > i64::MAX {
        i64::MAX as int
    } else if n < i64::MIN {
        i64::MIN as int
    } else {
        n
    }
}

/// So many units, held to what sixty-four bits hold. No instant can be shifted by either bound, so
/// a span that does not fit is refused where it is used.
pub fn seconds_in(count: i64, unit: i64) -> (r: i64)
    requires
        unit > 0,
    ensures
        r == held64(count * unit),
{
    match count.checked_mul(unit) {
        Some(n) => n,
        None => {
            proof {
                if count >= 0 {
                    assert(count * unit >= 0) by (nonlinear_arith)
                        requires
                            count >= 0,
                            unit > 0,
                    ;
                } else {
                    assert(count * unit < 0) by (nonlinear_arith)
                        requires
                            count < 0,
                            unit > 0,
                    ;
                }
            }
            if count >= 0 {
                i64::MAX
            } else {
                i64::MIN
            }
        },
    }
}

/// The role and the index of the key a command signs with: those its flags give, or the role it
/// usually means, at index zero.
pub fn seed_key(arguments: &[String], default_role: u32) -> (r: (u32, u32))
    ensures
        r.0 == flag_unsigned(
            texts(arguments@),
            "--role"@,
            default_role as int,
            u32::MAX as int,
        ),
        r.1 == flag_unsigned(texts(arguments@), "--index"@, 0, u32::MAX as int),
{
    (unsigned_or(arguments, "--role", default_role), unsigned_or(arguments, "--index", 0))
}

/// The clock that documents made away from the kernel are stamped with: the host's, or that of the
/// deployment whose configuration is named, which may be ahead.
pub fn offline_clock(
    path: Option<&str>,
    advance: Result<Option<ClockAdvance>, Error>,
) -> (r: Result<KernelClock, String>)
    ensures
        match path {
            None => r matches Ok(KernelClock::Host(_)),
            Some(p) => match advance {
                Err(e) => r matches Err(m) && m@ == failing("reading "@ + p@, e@),
                Ok(None) => r matches Ok(KernelClock::Host(_)),
                Ok(Some(a)) => match advance_fault(a.seconds as int) {
                    Some(f) => r matches Err(m) && m@ == failing("clock"@, f),
                    None => r matches Ok(KernelClock::Ahead(c)) && c.seconds() == a.seconds
                        && c.written() == a.duration@,
                },
            },
        },
{
    let p = match path {
        None => {
            return Ok(KernelClock::Host(crate::clock::SystemClock));
        },
        Some(p) => p,
    };
    match advance {
        Err(e) => Err(failed(join2("reading ", p).as_str(), &e)),
        Ok(a) => match from_config(a) {
            Ok(c) => Ok(c),
            Err(e) => Err(failed("clock", &e)),
        },
    }
}

// -- answers ----------------------------------------------------------------------------------

/// What a kernel answers over the wire.
#[derive(Debug)]
pub struct Answer {
    /// The status.
    pub status: u16,
    /// The body.
    pub body: String,
}

impl Answer {
    /// Whether the status says success.
    pub open spec fn is_ok(&self) -> bool {
        200 <= self.status < 300
    }

    /// Whether the status says success.
    pub fn ok(&self) -> (r: bool)
        ensures
            r == self.is_ok(),
    {
        200 <= self.status && self.status < 300
    }
}

/// A refusal that quotes the answer it came with.
pub open spec fn refused_with(said: Seq<char>, status: int) -> Seq<char> {
    said + " ("@ + crate::text::decimal(status as nat) + ")"@
}

/// A refusal that quotes the status it came with.
pub fn refused(said: &str, status: u16) -> (r: String)
    ensures
        r@ == refused_with(said@, status as int),
{
    join4(said, " (", crate::text::decimal_text(status as u64).as_str(), ")")
}

/// A bearer token read from the environment, where it holds anything.
pub fn usable_token(read: Option<&str>) -> (r: Option<String>)
    ensures
        match read {
            Some(t) => if crate::text::trimmed(t@).len() == 0 {
                r is None
            } else {
                r matches Some(u) && u@ == crate::text::trimmed(t@)
            },
            None => r is None,
        },
{
    match read {
        Some(t) => {
            let token = crate::text::trim(t);
            if token.unicode_len() == 0 {
                None
            } else {
                Some(token.to_owned())
            }
        },
        None => None,
    }
}

/// What is counted in a wide unit stays within what can be held: it is the product where that fits,
/// and the nearest that does where not.
pub proof fn lemma_what_is_held(n: int)
    ensures
        i64::MIN <= held64(n) <= i64::MAX,
        i64::MIN <= n <= i64::MAX ==> held64(n) == n,
        n > i64::MAX ==> held64(n) == i64::MAX,
        n < i64::MIN ==> held64(n) == i64::MIN,
{
}

/// An answer is a success exactly where its status is one.
pub proof fn lemma_which_answers_succeed(a: Answer)
    ensures
        a.is_ok() <==> 200 <= a.status <= 299,
{
}

} // verus!
