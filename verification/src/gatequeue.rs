//! The pending queue: requests for a human's decision, and the decisions.
//!
//! A queued request permits nothing. It is a question; its answer is a named human's signature
//! over its hash, and nobody answers their own.

use vstd::prelude::*;

use crate::clock::{bad_timestamp, is_timestamp, parse_timestamp};
use crate::crypto::{is_hex, sha256_hex, sha256_hex_of};
use crate::documents::{decision_doc, request_doc, Question};
use crate::error::{fault, is_text_result, refusal, settles, Error, Fault};
use crate::json::{is_text, named, one_of, stranger, unknown_member, Doc, Json};
use crate::keys::{bad_key_id, is_key_id, KeyId};
use crate::text::{
    chars_of, debug_text, decimal, decimal_text, find, index_of, is_before, is_digest,
    is_digest_hex, join2, join3, join4, join5, or_empty, precedes, quoted, same, text_or_empty,
};
use crate::config::opt_string;
use crate::vocabulary::{CLASSES, VERSION};

verus! {

/// Every member of an action request, all required.
pub const MEMBERS: [&'static str; 14] = [
    "v",
    "kind",
    "requested-at",
    "subject",
    "key",
    "component",
    "mandate-ref",
    "policy-version",
    "classification",
    "action",
    "target",
    "args-hash",
    "nonce",
    "not-after",
];

/// The members of a submission; only `request` is required.
pub const SUBMISSION_MEMBERS: [&'static str; 2] = ["request", "arguments"];

/// The members of an authorization carried by an envelope.
pub const AUTHORIZATION_MEMBERS: [&'static str; 2] = ["request", "decision"];

/// The members a gate decision may have.
pub const DECISION_MEMBERS: [&'static str; 9] = [
    "v",
    "kind",
    "request-hash",
    "decision",
    "decided-at",
    "not-after",
    "single-use",
    "reason",
    "sig",
];

/// The members of a gate decision that must be strings.
pub const DECISION_STRINGS: [&'static str; 4] = [
    "request-hash",
    "decision",
    "decided-at",
    "not-after",
];

/// The most bytes the canonical form of a call's arguments may have.
pub const ARGUMENTS_MAX_BYTES: usize = 16_384;

/// The refusal of arguments that are not the ones a request commits to.
pub const ARGUMENTS_HASH_MISMATCH: &'static str = "gate-arguments-hash-mismatch";

// -- submissions ------------------------------------------------------------------------------

/// What a submission holds: a request, and the arguments where they came with it. A bare action
/// request is a submission without arguments.
pub open spec fn submitted(body: Doc) -> Result<(Doc, Option<Doc>), Fault> {
    if body.as_record() is None {
        Err(fault("schema-type-mismatch"@, "a gate-request submission must be an object"@))
    } else if body.get("request"@) is None {
        Ok((body, None))
    } else if let Some(key) = stranger(body->Record_0, SUBMISSION_MEMBERS@, 0) {
        Err(fault("schema-unknown-member"@, key))
    } else if body.at("request"@).as_record() is None {
        Err(
            fault(
                "schema-type-mismatch"@,
                "submission.request must be an action-request object"@,
            ),
        )
    } else {
        Ok((body.at("request"@), body.get("arguments"@)))
    }
}

/// A document that may be absent.
pub open spec fn opt_json(d: Option<Json>) -> Option<Doc> {
    match d {
        Some(j) => Some(j@),
        None => None,
    }
}

/// Splits a submitted body into the action request and the argument values.
pub fn submission(body: &Json) -> (r: Result<(Json, Option<Json>), Error>)
    ensures
        match submitted(body@) {
            Ok((request, arguments)) => r matches Ok(parts) && parts.0@ == request && opt_json(
                parts.1,
            ) == arguments,
            Err(f) => r matches Err(e) && e@ == f,
        },
{
    let members = match body.as_record() {
        Some(members) => members,
        None => {
            return Err(
                refusal("schema-type-mismatch", "a gate-request submission must be an object"),
            );
        },
    };
    let request = match body.get("request") {
        Some(request) => request,
        None => {
            return Ok((body.copy(), None));
        },
    };
    if let Some(key) = unknown_member(members, &SUBMISSION_MEMBERS) {
        return Err(Error::new("schema-unknown-member", key));
    }
    if request.as_record().is_none() {
        return Err(
            refusal(
                "schema-type-mismatch",
                "submission.request must be an action-request object",
            ),
        );
    }
    let arguments = match body.get("arguments") {
        Some(value) => Some(value.copy()),
        None => None,
    };
    Ok((request.copy(), arguments))
}

/// What checking argument values in their canonical form comes to: the form itself, where it is
/// not too large and hashes to what the request commits to.
pub open spec fn arguments_outcome(
    canonical: Seq<char>,
    args_hash: Seq<char>,
) -> Result<Seq<char>, Fault> {
    let bytes = vstd::utf8::encode_utf8(canonical);
    if bytes.len() > ARGUMENTS_MAX_BYTES {
        Err(
            fault(
                "gate-arguments-too-large"@,
                decimal(bytes.len()) + " bytes of canonical arguments, above the cap of "@
                    + decimal(ARGUMENTS_MAX_BYTES as nat)
                    + ". Park without them rather than not parking."@,
            ),
        )
    } else if sha256_hex_of(bytes) != args_hash {
        Err(
            fault(
                ARGUMENTS_HASH_MISMATCH@,
                "the arguments hash to "@ + sha256_hex_of(bytes) + ", and the request commits to "@
                    + args_hash,
            ),
        )
    } else {
        Ok(canonical)
    }
}

/// Checks submitted argument values, given in their canonical form, against the digest the
/// approver's signature will cover: what is shown is what was asked for.
pub fn check_arguments(canonical: &Result<String, Error>, args_hash: &str) -> (r: Result<
    String,
    Error,
>)
    ensures
        is_text_result(
            r,
            match canonical {
                Ok(text) => arguments_outcome(text@, args_hash@),
                Err(e) => Err(e@),
            },
        ),
{
    let canonical = match canonical {
        Ok(text) => text,
        Err(e) => {
            return Err(e.copy());
        },
    };
    let bytes = canonical.as_str().as_bytes();
    if bytes.len() > ARGUMENTS_MAX_BYTES {
        return Err(
            Error::new(
                "gate-arguments-too-large",
                join4(
                    decimal_text(bytes.len() as u64).as_str(),
                    " bytes of canonical arguments, above the cap of ",
                    decimal_text(ARGUMENTS_MAX_BYTES as u64).as_str(),
                    ". Park without them rather than not parking.",
                ),
            ),
        );
    }
    let hash = sha256_hex(bytes);
    if !same(hash.as_str(), args_hash) {
        return Err(
            Error::new(
                ARGUMENTS_HASH_MISMATCH,
                join4(
                    "the arguments hash to ",
                    hash.as_str(),
                    ", and the request commits to ",
                    args_hash,
                ),
            ),
        );
    }
    Ok(canonical.clone())
}

// -- action requests --------------------------------------------------------------------------

/// A validated action request.
#[derive(Debug)]
pub struct GateRequest {
    /// The hash of the request, which the approver's signature covers.
    pub request_hash: String,
    /// The request itself.
    pub request: Json,
    /// The acting subject it names.
    pub subject: String,
    /// The key that will sign the effect.
    pub subject_key: String,
    /// The emitting component.
    pub component: String,
    /// The mandate the effect will cite.
    pub mandate_ref: String,
    /// The policy version in force when the call was classified.
    pub policy_version: String,
    /// The weight class.
    pub classification: String,
    /// The action.
    pub action: String,
    /// The thing acted upon.
    pub target: String,
    /// The hash of the call's arguments.
    pub args_hash: String,
    /// When the component built the request.
    pub requested_at: String,
    /// When it stops being answerable.
    pub not_after: String,
}

/// What is wrong with a member that must be there and be a string.
pub open spec fn string_fault(d: Doc, name: Seq<char>) -> Option<Fault> {
    match d.get(name) {
        None => Some(fault("schema-missing-member"@, name)),
        Some(Doc::Text(_)) => None,
        Some(_) => Some(fault("schema-type-mismatch"@, name + " must be a string"@)),
    }
}

/// The string at a member, and the empty string where there is none.
pub open spec fn said(d: Doc, name: Seq<char>) -> Seq<char> {
    or_empty(d.text_at(name))
}

/// The refusal of a member that is no digest.
pub open spec fn not_a_digest(name: Seq<char>) -> Fault {
    fault("encoding-not-lowercase-hex"@, name + " must be 64 lowercase hex digits"@)
}

/// Whether a text has thirty-two hexadecimal digits, of either case.
pub open spec fn is_nonce_shaped(s: Seq<char>) -> bool {
    s.len() == 32 && forall|i: int| 0 <= i < s.len() ==> is_hex(#[trigger] s[i])
}

/// Whether a text has an ASCII uppercase letter.
pub open spec fn has_upper(s: Seq<char>) -> bool {
    exists|i: int| 0 <= i < s.len() && 'A' <= #[trigger] s[i] && s[i] <= 'Z'
}

/// The refusal of a member that says nothing.
pub open spec fn empty_fault(name: Seq<char>) -> Fault {
    fault("schema-missing-member"@, name + " must not be empty"@)
}

/// What is wrong with what an action request names: its version, kind, subject, key and class.
pub open spec fn naming_fault(d: Doc) -> Option<Fault> {
    if d.as_record() is None {
        Some(fault("schema-type-mismatch"@, "an action request must be an object"@))
    } else if let Some(key) = stranger(d->Record_0, MEMBERS@, 0) {
        Some(fault("schema-unknown-member"@, key))
    } else if let Some(f) = string_fault(d, "v"@) {
        Some(f)
    } else if said(d, "v"@) != VERSION@ {
        Some(fault("envelope-version-unsupported"@, "an action request is "@ + VERSION@))
    } else if let Some(f) = string_fault(d, "kind"@) {
        Some(f)
    } else if said(d, "kind"@) != "action-request"@ {
        Some(
            fault(
                "envelope-unknown-kind"@,
                "kind is String("@ + quoted(said(d, "kind"@)) + "), not \"action-request\""@,
            ),
        )
    } else if let Some(f) = string_fault(d, "subject"@) {
        Some(f)
    } else if index_of(said(d, "subject"@), ':') is None {
        Some(fault("schema-type-mismatch"@, "subject must be of the form <class>:<name>"@))
    } else if let Some(f) = string_fault(d, "key"@) {
        Some(f)
    } else if !is_key_id(said(d, "key"@)) {
        Some(bad_key_id(said(d, "key"@)))
    } else if let Some(f) = string_fault(d, "classification"@) {
        Some(f)
    } else if !named(CLASSES@, said(d, "classification"@)) {
        Some(fault("envelope-classification-unknown"@, said(d, "classification"@)))
    } else {
        None
    }
}

/// What is wrong with what an action request commits to: its mandate, arguments and nonce, and the
/// call it is about.
pub open spec fn commitment_fault(d: Doc) -> Option<Fault> {
    if let Some(f) = string_fault(d, "mandate-ref"@) {
        Some(f)
    } else if let Some(f) = string_fault(d, "args-hash"@) {
        Some(f)
    } else if !is_digest(said(d, "mandate-ref"@)) {
        Some(not_a_digest("mandate-ref"@))
    } else if !is_digest(said(d, "args-hash"@)) {
        Some(not_a_digest("args-hash"@))
    } else if let Some(f) = string_fault(d, "nonce"@) {
        Some(f)
    } else if !is_nonce_shaped(said(d, "nonce"@)) {
        Some(
            fault(
                "encoding-not-lowercase-hex"@,
                "nonce must be 32 lowercase hex digits (128 bits of entropy)"@,
            ),
        )
    } else if has_upper(said(d, "nonce"@)) {
        Some(fault("encoding-not-lowercase-hex"@, "nonce must be lowercase"@))
    } else if let Some(f) = string_fault(d, "component"@) {
        Some(f)
    } else if let Some(f) = string_fault(d, "policy-version"@) {
        Some(f)
    } else if let Some(f) = string_fault(d, "action"@) {
        Some(f)
    } else if let Some(f) = string_fault(d, "target"@) {
        Some(f)
    } else if said(d, "component"@).len() == 0 {
        Some(empty_fault("component"@))
    } else if said(d, "policy-version"@).len() == 0 {
        Some(empty_fault("policy-version"@))
    } else if said(d, "action"@).len() == 0 {
        Some(empty_fault("action"@))
    } else if said(d, "target"@).len() == 0 {
        Some(empty_fault("target"@))
    } else {
        None
    }
}

/// What is wrong with the life of an action request, seen at an instant: it must end after it
/// began, and not have ended.
pub open spec fn lifetime_fault(d: Doc, at: Seq<char>) -> Option<Fault> {
    let requested_at = said(d, "requested-at"@);
    let not_after = said(d, "not-after"@);
    if let Some(f) = string_fault(d, "requested-at"@) {
        Some(f)
    } else if let Some(f) = string_fault(d, "not-after"@) {
        Some(f)
    } else if !is_timestamp(requested_at) {
        Some(bad_timestamp(requested_at))
    } else if !is_timestamp(not_after) {
        Some(bad_timestamp(not_after))
    } else if !precedes(requested_at, not_after) {
        Some(
            fault(
                "gate-request-expired"@,
                "not-after "@ + not_after + " does not follow requested-at "@ + requested_at,
            ),
        )
    } else if !precedes(at, not_after) {
        Some(
            fault(
                "gate-request-expired"@,
                "not-after "@ + not_after + " has already passed at "@ + at,
            ),
        )
    } else {
        None
    }
}

/// What is wrong with an action request seen at an instant, given what hashing it came to.
pub open spec fn request_fault(
    d: Doc,
    at: Seq<char>,
    hash: Result<String, Error>,
) -> Option<Fault> {
    if let Some(f) = naming_fault(d) {
        Some(f)
    } else if let Some(f) = commitment_fault(d) {
        Some(f)
    } else if let Some(f) = lifetime_fault(d, at) {
        Some(f)
    } else if let Err(e) = hash {
        Some(e@)
    } else {
        None
    }
}

/// Whether a validated request is the one a document describes.
pub open spec fn is_request(r: GateRequest, d: Doc, hash: Seq<char>) -> bool {
    &&& r.request_hash@ == hash
    &&& r.request@ == d
    &&& r.subject@ == said(d, "subject"@)
    &&& r.subject_key@ == said(d, "key"@)
    &&& r.component@ == said(d, "component"@)
    &&& r.mandate_ref@ == said(d, "mandate-ref"@)
    &&& r.policy_version@ == said(d, "policy-version"@)
    &&& r.classification@ == said(d, "classification"@)
    &&& r.action@ == said(d, "action"@)
    &&& r.target@ == said(d, "target"@)
    &&& r.args_hash@ == said(d, "args-hash"@)
    &&& r.requested_at@ == said(d, "requested-at"@)
    &&& r.not_after@ == said(d, "not-after"@)
}

/// The string at a member that must be there and be a string.
fn string_member<'a>(d: &'a Json, name: &str) -> (r: Result<&'a str, Error>)
    ensures
        match string_fault(d@, name@) {
            Some(f) => r matches Err(e) && e@ == f,
            None => r matches Ok(s) && s@ == said(d@, name@) && d@.text_at(name@) == Some(s@),
        },
{
    match d.get(name) {
        None => Err(refusal("schema-missing-member", name)),
        Some(Json::Text(s)) => Ok(s.as_str()),
        Some(_) => Err(Error::new("schema-type-mismatch", join2(name, " must be a string"))),
    }
}

fn check_naming(request: &Json) -> (r: Result<(), Error>)
    ensures
        settles(r, naming_fault(request@)),
{
    let members = match request.as_record() {
        Some(members) => members,
        None => {
            return Err(refusal("schema-type-mismatch", "an action request must be an object"));
        },
    };
    if let Some(key) = unknown_member(members, &MEMBERS) {
        return Err(Error::new("schema-unknown-member", key));
    }
    if !same(string_member(request, "v")?, VERSION) {
        return Err(
            Error::new(
                "envelope-version-unsupported",
                join2("an action request is ", VERSION),
            ),
        );
    }
    let kind = string_member(request, "kind")?;
    if !same(kind, "action-request") {
        return Err(
            Error::new(
                "envelope-unknown-kind",
                join3(
                    "kind is String(",
                    debug_text(kind).as_str(),
                    "), not \"action-request\"",
                ),
            ),
        );
    }
    if find(string_member(request, "subject")?, ':').is_none() {
        return Err(
            refusal("schema-type-mismatch", "subject must be of the form <class>:<name>"),
        );
    }
    let _key = KeyId::parse(string_member(request, "key")?)?;
    let classification = string_member(request, "classification")?;
    if !one_of(classification, &CLASSES) {
        return Err(refusal("envelope-classification-unknown", classification));
    }
    Ok(())
}

fn nonce_shaped(s: &str) -> (r: bool)
    ensures
        r == is_nonce_shaped(s@),
{
    let chars = chars_of(s);
    if chars.len() != 32 {
        return false;
    }
    let mut i: usize = 0;
    while i < chars.len()
        invariant
            chars@ == s@,
            i <= chars@.len(),
            forall|j: int| 0 <= j < i ==> is_hex(#[trigger] s@[j]),
        decreases chars@.len() - i,
    {
        let c: char = chars[i];
        if !((c >= '0' && c <= '9') || (c >= 'a' && c <= 'f') || (c >= 'A' && c <= 'F')) {
            assert(!is_hex(s@[i as int]));
            return false;
        }
        i += 1;
    }
    true
}

fn any_upper(s: &str) -> (r: bool)
    ensures
        r == has_upper(s@),
{
    let chars = chars_of(s);
    let mut i: usize = 0;
    while i < chars.len()
        invariant
            chars@ == s@,
            i <= chars@.len(),
            forall|j: int| 0 <= j < i ==> !('A' <= #[trigger] s@[j] && s@[j] <= 'Z'),
        decreases chars@.len() - i,
    {
        let c: char = chars[i];
        if c >= 'A' && c <= 'Z' {
            assert('A' <= s@[i as int] && s@[i as int] <= 'Z');
            return true;
        }
        i += 1;
    }
    false
}

fn not_digest(name: &str) -> (r: Error)
    ensures
        r@ == not_a_digest(name@),
{
    Error::new("encoding-not-lowercase-hex", join2(name, " must be 64 lowercase hex digits"))
}

fn must_not_be_empty(name: &str) -> (r: Error)
    ensures
        r@ == empty_fault(name@),
{
    Error::new("schema-missing-member", join2(name, " must not be empty"))
}

fn check_commitments(request: &Json) -> (r: Result<(), Error>)
    ensures
        settles(r, commitment_fault(request@)),
{
    let mandate_ref = string_member(request, "mandate-ref")?;
    let args_hash = string_member(request, "args-hash")?;
    if !is_digest_hex(mandate_ref) {
        return Err(not_digest("mandate-ref"));
    }
    if !is_digest_hex(args_hash) {
        return Err(not_digest("args-hash"));
    }
    let nonce = string_member(request, "nonce")?;
    if !nonce_shaped(nonce) {
        return Err(
            refusal(
                "encoding-not-lowercase-hex",
                "nonce must be 32 lowercase hex digits (128 bits of entropy)",
            ),
        );
    }
    if any_upper(nonce) {
        return Err(refusal("encoding-not-lowercase-hex", "nonce must be lowercase"));
    }
    let component = string_member(request, "component")?;
    let policy_version = string_member(request, "policy-version")?;
    let action = string_member(request, "action")?;
    let target = string_member(request, "target")?;
    if component.is_empty() {
        return Err(must_not_be_empty("component"));
    }
    if policy_version.is_empty() {
        return Err(must_not_be_empty("policy-version"));
    }
    if action.is_empty() {
        return Err(must_not_be_empty("action"));
    }
    if target.is_empty() {
        return Err(must_not_be_empty("target"));
    }
    Ok(())
}

fn check_lifetime(request: &Json, at: &str) -> (r: Result<(), Error>)
    ensures
        settles(r, lifetime_fault(request@, at@)),
{
    let requested_at = string_member(request, "requested-at")?;
    let not_after = string_member(request, "not-after")?;
    let _from: i64 = parse_timestamp(requested_at)?;
    let _to: i64 = parse_timestamp(not_after)?;
    if !is_before(requested_at, not_after) {
        return Err(
            Error::new(
                "gate-request-expired",
                join4("not-after ", not_after, " does not follow requested-at ", requested_at),
            ),
        );
    }
    if !is_before(at, not_after) {
        return Err(
            Error::new(
                "gate-request-expired",
                join4("not-after ", not_after, " has already passed at ", at),
            ),
        );
    }
    Ok(())
}

fn said_text(d: &Json, name: &str) -> (r: String)
    ensures
        r@ == said(d@, name@),
{
    text_or_empty(d.text_at(name)).to_owned()
}

/// Validates an action request as it stands at an instant, given what hashing it came to.
pub fn validate(request: &Json, at: &str, hash: &Result<String, Error>) -> (r: Result<
    GateRequest,
    Error,
>)
    ensures
        match request_fault(request@, at@, *hash) {
            Some(f) => r matches Err(e) && e@ == f,
            None => r matches Ok(v) && is_request(v, request@, hash->Ok_0@),
        },
{
    check_naming(request)?;
    check_commitments(request)?;
    check_lifetime(request, at)?;
    let request_hash = match hash {
        Ok(hash) => hash.clone(),
        Err(e) => {
            return Err(e.copy());
        },
    };
    Ok(
        GateRequest {
            request_hash,
            request: request.copy(),
            subject: said_text(request, "subject"),
            subject_key: said_text(request, "key"),
            component: said_text(request, "component"),
            mandate_ref: said_text(request, "mandate-ref"),
            policy_version: said_text(request, "policy-version"),
            classification: said_text(request, "classification"),
            action: said_text(request, "action"),
            target: said_text(request, "target"),
            args_hash: said_text(request, "args-hash"),
            requested_at: said_text(request, "requested-at"),
            not_after: said_text(request, "not-after"),
        },
    )
}

// -- authorizations inside envelopes ----------------------------------------------------------

/// The refusal of the first member of a decision, from a place on, that is not the string it must
/// be.
pub open spec fn decision_strings_fault(d: Doc, from: int) -> Option<Fault>
    decreases DECISION_STRINGS@.len() - from,
{
    if from >= DECISION_STRINGS@.len() {
        None
    } else {
        let name = DECISION_STRINGS@[from]@;
        match d.get(name) {
            None => Some(fault("schema-missing-member"@, "decision."@ + name)),
            Some(Doc::Text(_)) => decision_strings_fault(d, from + 1),
            Some(_) => Some(
                fault("schema-type-mismatch"@, "decision."@ + name + " must be a string"@),
            ),
        }
    }
}

/// What is wrong with the shape of a decision carried by an envelope.
pub open spec fn decision_shape_fault(d: Doc) -> Option<Fault> {
    if d.as_record() is None {
        Some(fault("schema-type-mismatch"@, "a gate decision must be an object"@))
    } else if let Some(key) = stranger(d->Record_0, DECISION_MEMBERS@, 0) {
        Some(fault("schema-unknown-member"@, "decision."@ + key))
    } else if d.text_at("v"@) != Some(VERSION@) {
        Some(fault("envelope-version-unsupported"@, "a gate decision is "@ + VERSION@))
    } else if d.text_at("kind"@) != Some("gate-decision"@) {
        Some(
            fault("envelope-unknown-kind"@, "a decision object is kind \"gate-decision\""@),
        )
    } else if let Some(f) = decision_strings_fault(d, 0) {
        Some(f)
    } else if !is_digest(said(d, "request-hash"@)) {
        Some(
            fault(
                "encoding-not-lowercase-hex"@,
                "decision.request-hash must be 64 lowercase hex digits"@,
            ),
        )
    } else if !is_timestamp(said(d, "decided-at"@)) {
        Some(bad_timestamp(said(d, "decided-at"@)))
    } else if !is_timestamp(said(d, "not-after"@)) {
        Some(bad_timestamp(said(d, "not-after"@)))
    } else {
        None
    }
}

/// What is wrong with the shape of an authorization carried by an envelope: exactly a request, as
/// it stood when it was made, and a decision.
pub open spec fn embedded_fault(d: Doc, hash: Result<String, Error>) -> Option<Fault> {
    let request = d.at("request"@);
    let requested_at = request.text_at("requested-at"@);
    if d.get("request"@) is None {
        Some(fault("schema-missing-member"@, "authorization.request"@))
    } else if d.get("decision"@) is None {
        Some(fault("schema-missing-member"@, "authorization.decision"@))
    } else if let Some(key) = stranger(d->Record_0, AUTHORIZATION_MEMBERS@, 0) {
        Some(fault("schema-unknown-member"@, "authorization."@ + key))
    } else if requested_at is None {
        Some(fault("schema-missing-member"@, "requested-at"@))
    } else if let Some(f) = request_fault(request, requested_at->0, hash) {
        Some(f)
    } else {
        decision_shape_fault(d.at("decision"@))
    }
}

fn check_decision_strings(d: &Json) -> (r: Result<(), Error>)
    ensures
        settles(r, decision_strings_fault(d@, 0)),
{
    let mut i: usize = 0;
    while i < DECISION_STRINGS.len()
        invariant
            i <= DECISION_STRINGS@.len(),
            decision_strings_fault(d@, 0) == decision_strings_fault(d@, i as int),
        decreases DECISION_STRINGS@.len() - i,
    {
        let name = DECISION_STRINGS[i];
        match d.get(name) {
            None => {
                return Err(Error::new("schema-missing-member", join2("decision.", name)));
            },
            Some(Json::Text(_)) => {},
            Some(_) => {
                return Err(
                    Error::new(
                        "schema-type-mismatch",
                        join3("decision.", name, " must be a string"),
                    ),
                );
            },
        }
        i += 1;
    }
    Ok(())
}

fn check_decision_shape(decision: &Json) -> (r: Result<(), Error>)
    ensures
        settles(r, decision_shape_fault(decision@)),
{
    let members = match decision.as_record() {
        Some(members) => members,
        None => {
            return Err(refusal("schema-type-mismatch", "a gate decision must be an object"));
        },
    };
    if let Some(key) = unknown_member(members, &DECISION_MEMBERS) {
        return Err(Error::new("schema-unknown-member", join2("decision.", key.as_str())));
    }
    if !is_text(decision.at("v"), VERSION) {
        return Err(
            Error::new("envelope-version-unsupported", join2("a gate decision is ", VERSION)),
        );
    }
    if !is_text(decision.at("kind"), "gate-decision") {
        return Err(
            refusal("envelope-unknown-kind", "a decision object is kind \"gate-decision\""),
        );
    }
    check_decision_strings(decision)?;
    if !is_digest_hex(text_or_empty(decision.text_at("request-hash"))) {
        return Err(
            refusal(
                "encoding-not-lowercase-hex",
                "decision.request-hash must be 64 lowercase hex digits",
            ),
        );
    }
    let _decided: i64 = parse_timestamp(text_or_empty(decision.text_at("decided-at")))?;
    let _until: i64 = parse_timestamp(text_or_empty(decision.text_at("not-after")))?;
    Ok(())
}

/// Checks the shape of an authorization carried by an envelope, given what hashing its request
/// came to. Whether it authorizes anything is not asked here.
pub fn validate_embedded(authorization: &Json, hash: &Result<String, Error>) -> (r: Result<
    (),
    Error,
>)
    ensures
        settles(r, embedded_fault(authorization@, *hash)),
{
    let request = match authorization.get("request") {
        Some(request) => request,
        None => {
            return Err(refusal("schema-missing-member", "authorization.request"));
        },
    };
    let decision = match authorization.get("decision") {
        Some(decision) => decision,
        None => {
            return Err(refusal("schema-missing-member", "authorization.decision"));
        },
    };
    if let Some(members) = authorization.as_record() {
        if let Some(key) = unknown_member(members, &AUTHORIZATION_MEMBERS) {
            return Err(
                Error::new("schema-unknown-member", join2("authorization.", key.as_str())),
            );
        }
    }
    let requested_at = match request.text_at("requested-at") {
        Some(at) => at,
        None => {
            return Err(refusal("schema-missing-member", "requested-at"));
        },
    };
    let _request = validate(request, requested_at, hash)?;
    check_decision_shape(decision)
}

// -- decisions --------------------------------------------------------------------------------

/// A decision as the queue records it.
#[derive(Debug)]
pub struct GateDecision {
    /// The request it answers.
    pub request_hash: String,
    /// `approve` or `deny`.
    pub verdict: String,
    /// Why; a denial always says, and an approval is recorded without.
    pub reason: Option<String>,
    /// The key that signed it.
    pub decided_by: KeyId,
    /// When.
    pub decided_at: String,
    /// The signed object itself.
    pub decision: Json,
}

/// What is wrong with a decision as the answer to a request, given what verifying its signature
/// came to: it covers this request, is signed, not by the key that asked, says `approve` or `deny`
/// and why not, in time, for a window that is not empty.
pub open spec fn decision_fault(
    d: Doc,
    signer: Result<KeyId, Error>,
    hash: Seq<char>,
    asker: Seq<char>,
    expiry: Seq<char>,
) -> Option<Fault> {
    let decided_at = said(d, "decided-at"@);
    let not_after = said(d, "not-after"@);
    let verdict = said(d, "decision"@);
    if d.text_at("kind"@) != Some("gate-decision"@) {
        Some(
            fault("envelope-unknown-kind"@, "a decision object is kind \"gate-decision\""@),
        )
    } else if d.text_at("request-hash"@) != Some(hash) {
        Some(
            fault(
                "gate-authorization-request-hash-mismatch"@,
                "the decision does not cover request "@ + hash,
            ),
        )
    } else if let Err(e) = signer {
        Some(fault("gate-decision-sig-invalid"@, e@.detail))
    } else if signer->Ok_0@ == asker {
        Some(
            fault("gate-self-approval"@, signer->Ok_0@ + " decided its own request"@),
        )
    } else if d.text_at("decided-at"@) is None {
        Some(fault("schema-missing-member"@, "decision.decided-at"@))
    } else if d.text_at("not-after"@) is None {
        Some(fault("schema-missing-member"@, "decision.not-after"@))
    } else if !is_timestamp(decided_at) {
        Some(bad_timestamp(decided_at))
    } else if !is_timestamp(not_after) {
        Some(bad_timestamp(not_after))
    } else if d.text_at("decision"@) is None {
        Some(fault("schema-missing-member"@, "decision.decision"@))
    } else if verdict == "deny"@ && said(d, "reason"@).len() == 0 {
        Some(
            fault(
                "gate-denial-without-reason"@,
                "a denial must state why — the reason is what the agent is owed and what policy tier 3 learns from"@,
            ),
        )
    } else if verdict != "approve"@ && verdict != "deny"@ {
        Some(fault("gate-decision-unknown"@, "decision "@ + quoted(verdict)))
    } else if precedes(expiry, decided_at) {
        Some(
            fault(
                "gate-request-expired"@,
                "decided at "@ + decided_at + ", the request expired at "@ + expiry,
            ),
        )
    } else if !precedes(decided_at, not_after) {
        Some(
            fault(
                "gate-approval-expired"@,
                "the approval window ["@ + decided_at + ", "@ + not_after + "] is empty"@,
            ),
        )
    } else {
        None
    }
}

/// The reason that is recorded with a decision: a denial's, and none with an approval.
pub open spec fn recorded_reason(d: Doc) -> Option<Seq<char>> {
    if said(d, "decision"@) == "deny"@ {
        d.text_at("reason"@)
    } else {
        None
    }
}

/// Whether a recorded decision is the one a document describes.
pub open spec fn is_decision(
    r: GateDecision,
    d: Doc,
    signer: Seq<char>,
    hash: Seq<char>,
) -> bool {
    &&& r.request_hash@ == hash
    &&& r.verdict@ == said(d, "decision"@)
    &&& opt_string(r.reason) == recorded_reason(d)
    &&& r.decided_by@ == signer
    &&& r.decided_at@ == said(d, "decided-at"@)
    &&& r.decision@ == d
}

/// Checks a signed decision against the request it claims to answer, given what verifying its
/// signature came to, which is the key that signed it.
pub fn check_decision(
    decision: &Json,
    signer: &Result<KeyId, Error>,
    request: &GateRequest,
) -> (r: Result<GateDecision, Error>)
    ensures
        match decision_fault(
            decision@,
            *signer,
            request.request_hash@,
            request.subject_key@,
            request.not_after@,
        ) {
            Some(f) => r matches Err(e) && e@ == f,
            None => r matches Ok(v) && is_decision(
                v,
                decision@,
                signer->Ok_0@,
                request.request_hash@,
            ),
        },
{
    if !is_text(decision.at("kind"), "gate-decision") {
        return Err(
            refusal("envelope-unknown-kind", "a decision object is kind \"gate-decision\""),
        );
    }
    if !is_text(decision.at("request-hash"), request.request_hash.as_str()) {
        return Err(
            Error::new(
                "gate-authorization-request-hash-mismatch",
                join2("the decision does not cover request ", request.request_hash.as_str()),
            ),
        );
    }
    let decided_by = match signer {
        Ok(key) => key.copy(),
        Err(e) => {
            return Err(refusal("gate-decision-sig-invalid", e.detail()));
        },
    };
    if same(decided_by.as_str(), request.subject_key.as_str()) {
        return Err(
            Error::new(
                "gate-self-approval",
                join2(decided_by.as_str(), " decided its own request"),
            ),
        );
    }
    let decided_at = match decision.text_at("decided-at") {
        Some(at) => at,
        None => {
            return Err(refusal("schema-missing-member", "decision.decided-at"));
        },
    };
    let not_after = match decision.text_at("not-after") {
        Some(at) => at,
        None => {
            return Err(refusal("schema-missing-member", "decision.not-after"));
        },
    };
    let _decided: i64 = parse_timestamp(decided_at)?;
    let _until: i64 = parse_timestamp(not_after)?;
    let verdict = match decision.text_at("decision") {
        Some(verdict) => verdict,
        None => {
            return Err(refusal("schema-missing-member", "decision.decision"));
        },
    };
    let reason = decision.text_at("reason");
    if same(verdict, "deny") && text_or_empty(reason).is_empty() {
        return Err(
            refusal(
                "gate-denial-without-reason",
                "a denial must state why — the reason is what the agent is owed and what policy tier 3 learns from",
            ),
        );
    }
    if !same(verdict, "approve") && !same(verdict, "deny") {
        return Err(
            Error::new(
                "gate-decision-unknown",
                join2("decision ", debug_text(verdict).as_str()),
            ),
        );
    }
    if is_before(request.not_after.as_str(), decided_at) {
        return Err(
            Error::new(
                "gate-request-expired",
                join4(
                    "decided at ",
                    decided_at,
                    ", the request expired at ",
                    request.not_after.as_str(),
                ),
            ),
        );
    }
    if !is_before(decided_at, not_after) {
        return Err(
            Error::new(
                "gate-approval-expired",
                join5("the approval window [", decided_at, ", ", not_after, "] is empty"),
            ),
        );
    }
    Ok(
        GateDecision {
            request_hash: request.request_hash.clone(),
            verdict: verdict.to_owned(),
            reason: match reason {
                Some(s) => if same(verdict, "deny") {
                    Some(s.to_owned())
                } else {
                    None
                },
                None => None,
            },
            decided_by,
            decided_at: decided_at.to_owned(),
            decision: decision.copy(),
        },
    )
}

// -- laws -------------------------------------------------------------------------------------

/// A request is closed: with a member no action request has it is refused.
pub proof fn lemma_requests_are_closed(
    d: Doc,
    at: Seq<char>,
    hash: Result<String, Error>,
)
    requires
        d is Record,
        stranger(d->Record_0, MEMBERS@, 0) is Some,
    ensures
        request_fault(d, at, hash) matches Some(f) && f.code == "schema-unknown-member"@,
{
}

/// A request that has ended by an instant never enters the queue at it.
pub proof fn lemma_dead_requests_are_refused(
    d: Doc,
    at: Seq<char>,
    hash: Result<String, Error>,
)
    requires
        !precedes(at, said(d, "not-after"@)),
    ensures
        request_fault(d, at, hash) is Some,
{
}

/// Nobody answers their own request: a decision signed by the key that asked is never accepted,
/// and an accepted one is verified, covers exactly this request, falls in the request's life and
/// opens a window.
pub proof fn lemma_accepted_decisions_answer_this_request(
    d: Doc,
    signer: Result<KeyId, Error>,
    hash: Seq<char>,
    asker: Seq<char>,
    expiry: Seq<char>,
)
    requires
        decision_fault(d, signer, hash, asker, expiry) is None,
    ensures
        signer is Ok,
        signer->Ok_0@ != asker,
        d.text_at("request-hash"@) == Some(hash),
        !precedes(expiry, said(d, "decided-at"@)),
        precedes(said(d, "decided-at"@), said(d, "not-after"@)),
        said(d, "decision"@) == "approve"@ || said(d, "decision"@) == "deny"@,
        said(d, "decision"@) == "deny"@ ==> said(d, "reason"@).len() > 0,
{
}

/// What passes the check on arguments is what the request commits to, and fits the cap.
pub proof fn lemma_shown_arguments_are_those_committed_to(
    canonical: Seq<char>,
    args_hash: Seq<char>,
)
    requires
        arguments_outcome(canonical, args_hash) is Ok,
    ensures
        sha256_hex_of(vstd::utf8::encode_utf8(canonical)) == args_hash,
        vstd::utf8::encode_utf8(canonical).len() <= ARGUMENTS_MAX_BYTES,
{
}

/// A request is well formed exactly where it has every member, each a string of its form, and no
/// other: of this version and this kind, from a subject and a key that can be told, of a known
/// class, committed by digests to a mandate and to arguments and by a fresh-looking nonce to
/// itself, and still alive both when it was made and now.
pub proof fn lemma_what_a_request_is(d: Doc, at: Seq<char>, hash: Result<String, Error>)
    ensures
        request_fault(d, at, hash) is None <==> {
            &&& d matches Doc::Record(members) && forall|i: int|
                0 <= i < members.len() ==> {
                    ||| (#[trigger] members[i]).0 == "v"@
                    ||| members[i].0 == "kind"@
                    ||| members[i].0 == "requested-at"@
                    ||| members[i].0 == "subject"@
                    ||| members[i].0 == "key"@
                    ||| members[i].0 == "component"@
                    ||| members[i].0 == "mandate-ref"@
                    ||| members[i].0 == "policy-version"@
                    ||| members[i].0 == "classification"@
                    ||| members[i].0 == "action"@
                    ||| members[i].0 == "target"@
                    ||| members[i].0 == "args-hash"@
                    ||| members[i].0 == "nonce"@
                    ||| members[i].0 == "not-after"@
                }
            &&& d.at("v"@) == Doc::Text("stozher/0.1"@)
            &&& d.at("kind"@) == Doc::Text("action-request"@)
            &&& d.at("subject"@) matches Doc::Text(s) && exists|i: int|
                0 <= i < s.len() && #[trigger] s[i] == ':'
            &&& d.at("key"@) matches Doc::Text(k) && is_key_id(k)
            &&& {
                ||| d.at("classification"@) == Doc::Text("read"@)
                ||| d.at("classification"@) == Doc::Text("benign"@)
                ||| d.at("classification"@) == Doc::Text("consequential"@)
                ||| d.at("classification"@) == Doc::Text("prohibited"@)
            }
            &&& d.at("mandate-ref"@) matches Doc::Text(m) && is_digest(m)
            &&& d.at("args-hash"@) matches Doc::Text(h) && is_digest(h)
            &&& d.at("nonce"@) matches Doc::Text(n) && n.len() == 32 && forall|i: int|
                0 <= i < 32 ==> ('0' <= #[trigger] n[i] && n[i] <= '9') || ('a' <= n[i] && n[i]
                    <= 'f')
            &&& d.at("component"@) matches Doc::Text(t) && t.len() > 0
            &&& d.at("policy-version"@) matches Doc::Text(t) && t.len() > 0
            &&& d.at("action"@) matches Doc::Text(t) && t.len() > 0
            &&& d.at("target"@) matches Doc::Text(t) && t.len() > 0
            &&& d.at("requested-at"@) matches Doc::Text(from) && is_timestamp(from)
            &&& d.at("not-after"@) matches Doc::Text(until) && is_timestamp(until) && precedes(
                d.at("requested-at"@)->Text_0,
                until,
            ) && precedes(at, until)
            &&& hash is Ok
        },
{
    let names = MEMBERS@;
    assert(names[0]@ == "v"@);
    assert(names[1]@ == "kind"@);
    assert(names[2]@ == "requested-at"@);
    assert(names[3]@ == "subject"@);
    assert(names[4]@ == "key"@);
    assert(names[5]@ == "component"@);
    assert(names[6]@ == "mandate-ref"@);
    assert(names[7]@ == "policy-version"@);
    assert(names[8]@ == "classification"@);
    assert(names[9]@ == "action"@);
    assert(names[10]@ == "target"@);
    assert(names[11]@ == "args-hash"@);
    assert(names[12]@ == "nonce"@);
    assert(names[13]@ == "not-after"@);
    if let Doc::Record(members) = d {
        crate::json::lemma_strangers_are_found(members, names, 0);
    }
    let classes = CLASSES@;
    assert(classes[0]@ == "read"@);
    assert(classes[1]@ == "benign"@);
    assert(classes[2]@ == "consequential"@);
    assert(classes[3]@ == "prohibited"@);
    crate::text::lemma_index_of(said(d, "subject"@), ':');
    lemma_nonces_are_lowercase(said(d, "nonce"@));
}

/// Thirty-two hexadecimal digits without a capital are digits and letters from `a` to `f`.
proof fn lemma_nonces_are_lowercase(n: Seq<char>)
    ensures
        is_nonce_shaped(n) && !has_upper(n) <==> n.len() == 32 && forall|i: int|
            0 <= i < 32 ==> ('0' <= #[trigger] n[i] && n[i] <= '9') || ('a' <= n[i] && n[i] <= 'f'),
{
    if is_nonce_shaped(n) && !has_upper(n) {
        assert forall|i: int| 0 <= i < 32 implies ('0' <= #[trigger] n[i] && n[i] <= '9') || ('a'
            <= n[i] && n[i] <= 'f') by {
            assert(is_hex(n[i]));
            assert(!('A' <= n[i] && n[i] <= 'Z'));
        }
    }
}

/// A request that was accepted is alive until its end and refused from then on: of two instants, if
/// it is well formed at the later, it is so at the earlier.
pub proof fn lemma_requests_only_expire(
    d: Doc,
    earlier: Seq<char>,
    later: Seq<char>,
    hash: Result<String, Error>,
)
    requires
        precedes(earlier, later),
        request_fault(d, later, hash) is None,
    ensures
        request_fault(d, earlier, hash) is None,
{
    crate::text::lemma_precedes_is_transitive(earlier, later, said(d, "not-after"@));
}

/// A decision answers a request exactly where it covers it by its hash, was signed by a key other
/// than the asker's, says one of two things, why where it denies, and was made before the request
/// expired, for a time that is not empty.
pub proof fn lemma_what_a_decision_is(
    d: Doc,
    signer: Result<KeyId, Error>,
    hash: Seq<char>,
    asker: Seq<char>,
    expiry: Seq<char>,
)
    ensures
        decision_fault(d, signer, hash, asker, expiry) is None <==> {
            &&& d.at("kind"@) == Doc::Text("gate-decision"@)
            &&& d.at("request-hash"@) == Doc::Text(hash)
            &&& signer matches Ok(key) && key@ != asker
            &&& d.at("decided-at"@) matches Doc::Text(at) && is_timestamp(at) && !precedes(
                expiry,
                at,
            )
            &&& d.at("not-after"@) matches Doc::Text(until) && is_timestamp(until) && precedes(
                d.at("decided-at"@)->Text_0,
                until,
            )
            &&& {
                ||| d.at("decision"@) == Doc::Text("approve"@)
                ||| d.at("decision"@) == Doc::Text("deny"@) && (d.at("reason"@) matches Doc::Text(
                    why,
                ) && why.len() > 0)
            }
        },
        recorded_reason(d) == if d.at("decision"@) == Doc::Text("deny"@) {
            d.text_at("reason"@)
        } else {
            None
        },
{
    reveal_strlit("approve");
    reveal_strlit("deny");
    assert("approve"@.len() == 7);
    assert("deny"@.len() == 4);
}

/// An authorization is well formed exactly where it is a request and a decision and nothing else,
/// the request was well formed when it was made, and the decision has the members and the forms of
/// one.
pub proof fn lemma_what_an_authorization_is(d: Doc, hash: Result<String, Error>)
    ensures
        embedded_fault(d, hash) is None <==> {
            let request = d.at("request"@);
            let decision = d.at("decision"@);
            &&& d matches Doc::Record(members) && forall|i: int|
                0 <= i < members.len() ==> (#[trigger] members[i]).0 == "request"@ || members[i].0
                    == "decision"@
            &&& d.get("decision"@) is Some
            &&& request.at("requested-at"@) matches Doc::Text(at) && request_fault(
                request,
                at,
                hash,
            ) is None
            &&& decision matches Doc::Record(members) && forall|i: int|
                0 <= i < members.len() ==> {
                    ||| (#[trigger] members[i]).0 == "v"@
                    ||| members[i].0 == "kind"@
                    ||| members[i].0 == "request-hash"@
                    ||| members[i].0 == "decision"@
                    ||| members[i].0 == "decided-at"@
                    ||| members[i].0 == "not-after"@
                    ||| members[i].0 == "single-use"@
                    ||| members[i].0 == "reason"@
                    ||| members[i].0 == "sig"@
                }
            &&& decision.at("v"@) == Doc::Text("stozher/0.1"@)
            &&& decision.at("kind"@) == Doc::Text("gate-decision"@)
            &&& decision.at("request-hash"@) matches Doc::Text(h) && is_digest(h)
            &&& decision.at("decision"@) is Text
            &&& decision.at("decided-at"@) matches Doc::Text(at) && is_timestamp(at)
            &&& decision.at("not-after"@) matches Doc::Text(until) && is_timestamp(until)
        },
{
    let names = AUTHORIZATION_MEMBERS@;
    assert(names[0]@ == "request"@);
    assert(names[1]@ == "decision"@);
    if let Doc::Record(members) = d {
        crate::json::lemma_strangers_are_found(members, names, 0);
    }
    let parts = DECISION_MEMBERS@;
    assert(parts[0]@ == "v"@);
    assert(parts[1]@ == "kind"@);
    assert(parts[2]@ == "request-hash"@);
    assert(parts[3]@ == "decision"@);
    assert(parts[4]@ == "decided-at"@);
    assert(parts[5]@ == "not-after"@);
    assert(parts[6]@ == "single-use"@);
    assert(parts[7]@ == "reason"@);
    assert(parts[8]@ == "sig"@);
    if let Doc::Record(members) = d.at("decision"@) {
        crate::json::lemma_strangers_are_found(members, parts, 0);
    }
    let strings = DECISION_STRINGS@;
    assert(strings[0]@ == "request-hash"@);
    assert(strings[1]@ == "decision"@);
    assert(strings[2]@ == "decided-at"@);
    assert(strings[3]@ == "not-after"@);
    reveal_with_fuel(decision_strings_fault, 5);
}

/// A submission is a bare request, or an object of nothing but a request and, where there are any,
/// the arguments it commits to; and they come out as they went in.
pub proof fn lemma_what_a_submission_is(body: Doc)
    ensures
        submitted(body) is Ok <==> {
            &&& body is Record
            &&& body.get("request"@) is None || (body.at("request"@) is Record && forall|i: int|
                0 <= i < body->Record_0.len() ==> (#[trigger] body->Record_0[i]).0 == "request"@
                    || body->Record_0[i].0 == "arguments"@)
        },
        submitted(body) matches Ok((request, arguments)) ==> if body.get("request"@) is Some {
            request == body.at("request"@) && arguments == body.get("arguments"@)
        } else {
            request == body && arguments is None
        },
{
    let names = SUBMISSION_MEMBERS@;
    assert(names[0]@ == "request"@);
    assert(names[1]@ == "arguments"@);
    if let Doc::Record(members) = body {
        crate::json::lemma_strangers_are_found(members, names, 0);
    }
}

/// Arguments are shown exactly where they take up no more than their cap and hash to what the
/// request commits to, and then as they are.
pub proof fn lemma_which_arguments_are_shown(canonical: Seq<char>, args_hash: Seq<char>)
    ensures
        arguments_outcome(canonical, args_hash) == Ok::<Seq<char>, Fault>(canonical) <==> {
            &&& vstd::utf8::encode_utf8(canonical).len() <= 16_384
            &&& sha256_hex_of(vstd::utf8::encode_utf8(canonical)) == args_hash
        },
        arguments_outcome(canonical, args_hash) matches Ok(shown) ==> shown == canonical,
{
}

/// A request that is drawn up of what it takes is one: where its parts have their forms and it is
/// still alive, there is nothing wrong with it.
pub proof fn lemma_drawn_requests_are_well_formed(
    q: Question,
    at: Seq<char>,
    hash: Result<String, Error>,
)
    requires
        exists|i: int| 0 <= i < q.subject.len() && #[trigger] q.subject[i] == ':',
        is_key_id(q.key),
        q.classification == "read"@ || q.classification == "benign"@ || q.classification
            == "consequential"@ || q.classification == "prohibited"@,
        is_digest(q.mandate_ref),
        is_digest(q.args_hash),
        q.nonce.len() == 32,
        forall|i: int|
            0 <= i < 32 ==> ('0' <= #[trigger] q.nonce[i] && q.nonce[i] <= '9') || ('a'
                <= q.nonce[i] && q.nonce[i] <= 'f'),
        q.component.len() > 0,
        q.policy_version.len() > 0,
        q.action.len() > 0,
        q.target.len() > 0,
        is_timestamp(q.requested_at),
        is_timestamp(q.not_after),
        precedes(q.requested_at, q.not_after),
        precedes(at, q.not_after),
        hash is Ok,
    ensures
        request_fault(request_doc(q), at, hash) is None,
{
    crate::documents::lemma_what_a_request_says(q);
    lemma_what_a_request_is(request_doc(q), at, hash);
}

/// A decision that is drawn up answers the request it names, whoever else signs it, where it is made
/// in time, for a time, and denies with a reason if it denies.
pub proof fn lemma_drawn_decisions_answer(
    request_hash: Seq<char>,
    denial: Option<Seq<char>>,
    at: Seq<char>,
    until: Seq<char>,
    signer: KeyId,
    asker: Seq<char>,
    expiry: Seq<char>,
)
    requires
        denial matches Some(why) ==> why.len() > 0,
        is_timestamp(at),
        is_timestamp(until),
        precedes(at, until),
        !precedes(expiry, at),
        signer@ != asker,
    ensures
        decision_fault(
            decision_doc(request_hash, denial, at, until),
            Ok(signer),
            request_hash,
            asker,
            expiry,
        ) is None,
{
    crate::documents::lemma_what_a_drawn_decision_says(request_hash, denial, at, until);
    lemma_what_a_decision_is(
        decision_doc(request_hash, denial, at, until),
        Ok(signer),
        request_hash,
        asker,
        expiry,
    );
}

/// What is queued of a request is what it says, each thing in its own place, under its hash.
pub proof fn lemma_what_is_queued(r: GateRequest, d: Doc, hash: Seq<char>)
    requires
        is_request(r, d, hash),
    ensures
        r.request_hash@ == hash,
        r.request@ == d,
        r.subject@ == or_empty(d.text_at("subject"@)),
        r.subject_key@ == or_empty(d.text_at("key"@)),
        r.component@ == or_empty(d.text_at("component"@)),
        r.mandate_ref@ == or_empty(d.text_at("mandate-ref"@)),
        r.policy_version@ == or_empty(d.text_at("policy-version"@)),
        r.classification@ == or_empty(d.text_at("classification"@)),
        r.action@ == or_empty(d.text_at("action"@)),
        r.target@ == or_empty(d.text_at("target"@)),
        r.args_hash@ == or_empty(d.text_at("args-hash"@)),
        r.requested_at@ == or_empty(d.text_at("requested-at"@)),
        r.not_after@ == or_empty(d.text_at("not-after"@)),
{
}

/// What is kept of a decision is what it says, who signed it and which request it answers, and why
/// where it denies.
pub proof fn lemma_what_is_kept_of_a_decision(
    r: GateDecision,
    d: Doc,
    signer: Seq<char>,
    hash: Seq<char>,
)
    requires
        is_decision(r, d, signer, hash),
    ensures
        r.request_hash@ == hash,
        r.decided_by@ == signer,
        r.decision@ == d,
        r.verdict@ == or_empty(d.text_at("decision"@)),
        r.decided_at@ == or_empty(d.text_at("decided-at"@)),
        d.at("decision"@) == Doc::Text("deny"@) ==> opt_string(r.reason) == d.text_at("reason"@),
        d.at("decision"@) != Doc::Text("deny"@) ==> r.reason is None,
{
    reveal_strlit("deny");
    assert("deny"@.len() == 4);
}

} // verus!
