//! Ingest: the one way anything enters the log.

use vstd::prelude::*;

use crate::clock::Clock;
use crate::error::{fault, is_text_result, Error, Fault};
use crate::ingest::submission::{kernel_body, kernel_envelope, Head};
use crate::json::{member_docs, Json};
use crate::keys::{is_key_id, KeyId};
use crate::text::{decode, join2, utf8_complaint};

pub mod admission;
pub mod approvers;
pub mod changes;
pub mod effect;
pub mod plan;
pub mod records;
pub mod submission;

pub use crate::ingest::changes::{root_change, stream_resume, RootChange};
pub use crate::ingest::submission::Outcome;

verus! {

/// What ingest needs to know of a deployment beside its policy.
#[derive(Debug)]
pub struct IngestConfig {
    /// The key every policy document is verified against.
    pub policy_key: KeyId,
    /// How many seconds ahead of its receipt an envelope may be emitted.
    pub max_future_skew_seconds: i64,
    /// The kernel's own stream.
    pub kernel_core_stream: String,
}

/// The name of a key that can verify nothing.
pub open spec fn no_key() -> Seq<char> {
    "ed25519:"@ + Seq::new(64, |i: int| '0')
}

impl Default for IngestConfig {
    /// Five minutes of skew on `kernel:core`, and a policy key that can verify nothing: a kernel
    /// that was not configured refuses every policy rather than accepting any.
    fn default() -> (r: IngestConfig)
        ensures
            r.policy_key@ == no_key(),
            r.max_future_skew_seconds == 300,
            r.kernel_core_stream@ == "kernel:core"@,
    {
        let mut name: String = "ed25519:".to_owned();
        let mut i: usize = 0;
        while i < 64
            invariant
                i <= 64,
                name@ == "ed25519:"@ + Seq::new(i as nat, |j: int| '0'),
            decreases 64 - i,
        {
            name.push('0');
            i += 1;
            assert(name@ =~= "ed25519:"@ + Seq::new(i as nat, |j: int| '0'));
        }
        proof {
            reveal_strlit("ed25519:");
            assert(name@.take(8) =~= "ed25519:"@);
            assert(is_key_id(name@));
        }
        IngestConfig {
            policy_key: KeyId::parse(name.as_str()).unwrap(),
            max_future_skew_seconds: 300,
            kernel_core_stream: "kernel:core".to_owned(),
        }
    }
}

/// The ingest of a deployment: its clock, the key it signs with, and what it knows of the
/// deployment.
#[derive(Debug)]
pub struct Ingest<C: Clock> {
    clock: C,
    kernel_key: KeyId,
    config: IngestConfig,
}

impl<C: Clock> Ingest<C> {
    /// Its clock.
    pub closed spec fn ticking(&self) -> C {
        self.clock
    }

    /// The name of the key it signs with.
    pub closed spec fn signing(&self) -> Seq<char> {
        self.kernel_key@
    }

    /// What it knows of the deployment.
    pub closed spec fn configured(&self) -> IngestConfig {
        self.config
    }

    /// The ingest of a deployment.
    pub fn new(clock: C, kernel_key: KeyId, config: IngestConfig) -> (r: Ingest<C>)
        ensures
            r.ticking() == clock,
            r.signing() == kernel_key@,
            r.configured() == config,
    {
        Ingest { clock, kernel_key, config }
    }

    /// Its clock.
    pub fn clock(&self) -> (r: &C)
        ensures
            *r == self.ticking(),
    {
        &self.clock
    }

    /// The key it signs with.
    pub fn kernel_key(&self) -> (r: &KeyId)
        ensures
            r@ == self.signing(),
    {
        &self.kernel_key
    }

    /// The key every policy document is verified against.
    pub fn policy_key(&self) -> (r: &KeyId)
        ensures
            *r == self.configured().policy_key,
    {
        &self.config.policy_key
    }

    /// An envelope that the kernel emits on its own stream, unsigned: behind the head, with the
    /// members of its kind.
    pub fn append_as_kernel(
        &self,
        kind: &str,
        head: &Option<Head>,
        now: &str,
        more: &Vec<(String, Json)>,
    ) -> (r: Json)
        requires
            head matches Some(h) ==> h.seq < u64::MAX,
        ensures
            r@ == kernel_body(
                kind@,
                self.configured().kernel_core_stream@,
                *head,
                now@,
                self.signing(),
                member_docs(more@),
            ),
    {
        kernel_envelope(
            kind,
            self.config.kernel_core_stream.as_str(),
            head,
            now,
            &self.kernel_key,
            more,
        )
    }

    /// What it knows of the deployment.
    pub fn config(&self) -> (r: &IngestConfig)
        ensures
            *r == self.configured(),
    {
        &self.config
    }
}

/// The text of a body, which must encode one.
pub open spec fn body_of(bytes: Seq<u8>) -> Result<Seq<char>, Fault> {
    if vstd::utf8::valid_utf8(bytes) {
        Ok(vstd::utf8::decode_utf8(bytes))
    } else {
        Err(fault("jcs-malformed-json"@, "body is not UTF-8: "@ + utf8_complaint(bytes)))
    }
}

/// The text of a body.
pub fn body_text(bytes: &[u8]) -> (r: Result<String, Error>)
    ensures
        is_text_result(r, body_of(bytes@)),
{
    match decode(bytes) {
        Ok(s) => Ok(s),
        Err(m) => Err(Error::new("jcs-malformed-json", join2("body is not UTF-8: ", m.as_str()))),
    }
}

} // verus!
