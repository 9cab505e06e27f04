//! A running kernel: its configuration, and the secret behind the tokens of its forms.

use vstd::prelude::*;

use crate::config::Config;
use crate::crypto::{
    constant_time_eq, drawn, random_bytes, sha256_hex, sha256_hex_of, ENTROPY_UNAVAILABLE,
};
use crate::error::Error;
use crate::ingest::IngestConfig;
use crate::text::lemma_same_bytes;

verus! {

/// A running kernel.
#[derive(Debug)]
pub struct Kernel {
    /// The deployment's configuration.
    pub config: Config,
    console_nonce: Vec<u8>,
}

/// What a form's token is the digest of: the process, the caller and the request, kept apart.
pub open spec fn token_material(
    nonce: Seq<u8>,
    caller: Seq<char>,
    request_hash: Seq<char>,
) -> Seq<u8> {
    nonce + vstd::utf8::encode_utf8(caller) + seq![0u8] + vstd::utf8::encode_utf8(request_hash)
}

/// The token of a form, for one process, one caller and one request.
pub open spec fn form_token(nonce: Seq<u8>, caller: Seq<char>, request_hash: Seq<char>) -> Seq<
    char,
> {
    sha256_hex_of(token_material(nonce, caller, request_hash))
}

fn append(out: &mut Vec<u8>, bytes: &[u8])
    ensures
        final(out)@ == old(out)@ + bytes@,
{
    let ghost start = out@;
    let mut i: usize = 0;
    while i < bytes.len()
        invariant
            i <= bytes@.len(),
            out@ == start + bytes@.take(i as int),
        decreases bytes@.len() - i,
    {
        out.push(bytes[i]);
        i += 1;
        assert(out@ =~= start + bytes@.take(i as int));
    }
    assert(bytes@.take(i as int) =~= bytes@);
}

impl Kernel {
    /// The deployment's configuration.
    pub closed spec fn configured(&self) -> Config {
        self.config
    }

    /// The entropy of this process.
    pub closed spec fn nonce(&self) -> Seq<u8> {
        self.console_nonce@
    }

    /// A kernel with this configuration and fresh entropy, or a refusal where the system has none.
    pub fn assemble(config: Config) -> (r: Result<Kernel, Error>)
        ensures
            match r {
                Ok(kernel) => kernel.configured() == config && kernel.nonce().len() == 32,
                Err(e) => e@.code == ENTROPY_UNAVAILABLE@,
            },
    {
        let console_nonce = drawn(random_bytes(32))?;
        Ok(Kernel { config, console_nonce })
    }

    /// What ingest needs to know of this deployment.
    pub fn ingest_config(&self) -> (r: IngestConfig)
        ensures
            r.policy_key@ == self.configured().policy_key@,
            r.max_future_skew_seconds == self.configured().max_future_skew_seconds,
            r.kernel_core_stream@ == self.configured().kernel_core_stream@,
    {
        IngestConfig {
            policy_key: self.config.policy_key.copy(),
            max_future_skew_seconds: self.config.max_future_skew_seconds,
            kernel_core_stream: self.config.kernel_core_stream.clone(),
        }
    }

    /// The token for one caller and one pending request.
    pub fn csrf_token(&self, caller: &str, request_hash: &str) -> (r: String)
        ensures
            r@ == form_token(self.nonce(), caller@, request_hash@),
    {
        let mut material: Vec<u8> = Vec::new();
        append(&mut material, self.console_nonce.as_slice());
        append(&mut material, caller.as_bytes());
        material.push(0);
        append(&mut material, request_hash.as_bytes());
        assert(material@ =~= token_material(self.nonce(), caller@, request_hash@));
        sha256_hex(material.as_slice())
    }

    /// Whether a presented token is the one this process would have issued.
    pub fn csrf_ok(&self, caller: &str, request_hash: &str, presented: &str) -> (r: bool)
        ensures
            r == (presented@ == form_token(self.nonce(), caller@, request_hash@)),
    {
        let expected = self.csrf_token(caller, request_hash);
        let ok = constant_time_eq(expected.as_str().as_bytes(), presented.as_bytes());
        proof {
            if ok {
                lemma_same_bytes(expected@, presented@);
            }
        }
        ok
    }
}

/// What a form is bound to: the kernel it was shown by, the caller it was shown to and the request
/// it is about, one behind the other, with a zero between the two that callers could choose.
pub proof fn lemma_what_a_form_is_bound_to(
    nonce: Seq<u8>,
    caller: Seq<char>,
    request_hash: Seq<char>,
)
    ensures
        ({
            let bound = token_material(nonce, caller, request_hash);
            let who = vstd::utf8::encode_utf8(caller);
            let what = vstd::utf8::encode_utf8(request_hash);
            let n = nonce.len() as int;
            &&& bound.len() == n + who.len() + 1 + what.len()
            &&& bound.take(n) == nonce
            &&& bound.subrange(n, n + who.len()) == who
            &&& bound[n + who.len()] == 0
            &&& bound.skip(n + who.len() + 1) == what
        }),
{
    let bound = token_material(nonce, caller, request_hash);
    let who = vstd::utf8::encode_utf8(caller);
    let what = vstd::utf8::encode_utf8(request_hash);
    let n = nonce.len() as int;
    assert(bound.take(n) =~= nonce);
    assert(bound.subrange(n, n + who.len()) =~= who);
    assert(bound.skip(n + who.len() + 1) =~= what);
}

} // verus!
