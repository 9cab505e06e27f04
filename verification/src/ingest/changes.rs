//! The changes a signature can make to what the kernel will permit: the root set, a stream that
//! was refused, the policy in force, a registered component, a durable object.

use vstd::prelude::*;

use crate::codes::{
    MANIFEST_MALFORMED, POLICY_CHANGE_DOCUMENT_UNBOUND, POLICY_CHANGE_TARGET_MISMATCH,
    ROOT_ENROLLMENT_MALFORMED, STREAM_RESUME_MALFORMED, STREAM_RESUME_UNBOUND,
};
use crate::config::{is_human, names_human};
use crate::error::{fault, refusal, settles, Error, Fault};
use crate::ingest::approvers::{is_enrolled, is_root, Root};
use crate::json::{
    debugged, docs, entry_named, find_in, is_text, stranger, unknown_member, Doc, Json,
};
use crate::keys::{bad_key_id, is_key_id, KeyId};
use crate::manifest::{manifest_fault, step_outcome, transition_outcome, Manifest};
use crate::text::{
    begins, debug_text, is_digest, is_digest_hex, join2, join3, join4, or_empty, quoted, same,
    starts_with, strip_prefix, text_or_empty, texts,
};

verus! {

/// What the payload with a hash holds, among those submitted with an envelope.
pub open spec fn payload_of(payloads: Seq<Doc>, hash: Seq<char>) -> Option<Doc> {
    match entry_named(payloads, "payload-hash"@, hash, 0) {
        Some(entry) => Some(entry.at("payload"@)),
        None => None,
    }
}

/// What the payload with a hash holds, among those submitted with an envelope.
pub fn find_payload<'a>(payloads: &'a Vec<Json>, hash: &str) -> (r: Option<&'a Json>)
    ensures
        match payload_of(docs(payloads@), hash@) {
            Some(d) => r matches Some(j) && j@ == d,
            None => r is None,
        },
{
    match find_in(payloads, "payload-hash", hash) {
        Some(entry) => Some(entry.at("payload")),
        None => None,
    }
}

/// What an envelope says it did, under a member.
pub open spec fn executed(env: Doc, name: Seq<char>) -> Option<Seq<char>> {
    env.at("execution"@).text_at(name)
}

/// The refusal of an envelope that commits to no arguments.
pub open spec fn no_args_hash() -> Fault {
    fault("schema-missing-member"@, "execution.args-hash"@)
}

// -- the root set -----------------------------------------------------------------------------

/// What an envelope changes about the root set.
#[derive(Debug)]
pub enum RootChange {
    /// Add a key, under the name of the human it belongs to.
    Enrol {
        /// The key.
        key: KeyId,
        /// The human, of the form `human:<name>`.
        subject: String,
    },
    /// Retire a key.
    Retire {
        /// The key.
        key: KeyId,
    },
}

/// A change of the root set.
pub enum SetChange {
    /// A key added under a name.
    Enrol(Seq<char>, Seq<char>),
    /// A key retired.
    Retire(Seq<char>),
}

impl View for RootChange {
    type V = SetChange;

    open spec fn view(&self) -> SetChange {
        match self {
            RootChange::Enrol { key, subject } => SetChange::Enrol(key@, subject@),
            RootChange::Retire { key } => SetChange::Retire(key@),
        }
    }
}

/// The human an enrolment names: the evidence it commits to must name one, and the same key.
pub open spec fn enrolled(
    env: Doc,
    payloads: Seq<Doc>,
    key: Seq<char>,
) -> Result<Seq<char>, Fault> {
    let hash = executed(env, "args-hash"@);
    let evidence = payload_of(payloads, hash->0);
    let subject = or_empty(evidence->0.text_at("subject"@));
    let told = evidence->0.text_at("key"@);
    if hash is None {
        Err(no_args_hash())
    } else if evidence is None {
        Err(
            fault(
                ROOT_ENROLLMENT_MALFORMED@,
                "an enrolment must submit the evidence its args-hash commits to, naming the human"@,
            ),
        )
    } else if !names_human(subject) {
        Err(
            fault(
                ROOT_ENROLLMENT_MALFORMED@,
                "the evidence names "@ + quoted(subject) + ", which is not a human subject"@,
            ),
        )
    } else if told is None {
        Err(fault(ROOT_ENROLLMENT_MALFORMED@, "the evidence names no key"@))
    } else if told->0 != key {
        Err(
            fault(
                ROOT_ENROLLMENT_MALFORMED@,
                "the evidence names key "@ + told->0 + ", execution.target names "@ + key,
            ),
        )
    } else {
        Ok(subject)
    }
}

/// The change of the root set an envelope makes.
pub open spec fn set_change(env: Doc, payloads: Seq<Doc>) -> Result<SetChange, Fault> {
    let target = or_empty(executed(env, "target"@));
    let key = target.skip(5);
    if !begins(target, "root:"@) {
        Err(
            fault(
                ROOT_ENROLLMENT_MALFORMED@,
                "execution.target "@ + quoted(target) + " must be root:ed25519:<64 hex>"@,
            ),
        )
    } else if !is_key_id(key) {
        Err(
            fault(
                ROOT_ENROLLMENT_MALFORMED@,
                "execution.target does not name a key: "@ + bad_key_id(key).detail,
            ),
        )
    } else if executed(env, "action"@) == Some("kernel.enroll_root"@) {
        match enrolled(env, payloads, key) {
            Ok(subject) => Ok(SetChange::Enrol(key, subject)),
            Err(f) => Err(f),
        }
    } else {
        Ok(SetChange::Retire(key))
    }
}

fn enrolled_subject(env: &Json, payloads: &Vec<Json>, key: &KeyId) -> (r: Result<String, Error>)
    ensures
        match enrolled(env@, docs(payloads@), key@) {
            Ok(s) => r matches Ok(v) && v@ == s,
            Err(f) => r matches Err(e) && e@ == f,
        },
{
    let hash = match env.at("execution").text_at("args-hash") {
        Some(hash) => hash,
        None => {
            return Err(refusal("schema-missing-member", "execution.args-hash"));
        },
    };
    let evidence = match find_payload(payloads, hash) {
        Some(evidence) => evidence,
        None => {
            return Err(
                refusal(
                    ROOT_ENROLLMENT_MALFORMED,
                    "an enrolment must submit the evidence its args-hash commits to, naming the human",
                ),
            );
        },
    };
    let subject = text_or_empty(evidence.text_at("subject"));
    if !is_human(subject) {
        return Err(
            Error::new(
                ROOT_ENROLLMENT_MALFORMED,
                join3(
                    "the evidence names ",
                    debug_text(subject).as_str(),
                    ", which is not a human subject",
                ),
            ),
        );
    }
    match evidence.text_at("key") {
        None => Err(refusal(ROOT_ENROLLMENT_MALFORMED, "the evidence names no key")),
        Some(told) => {
            if !same(told, key.as_str()) {
                return Err(
                    Error::new(
                        ROOT_ENROLLMENT_MALFORMED,
                        join4(
                            "the evidence names key ",
                            told,
                            ", execution.target names ",
                            key.as_str(),
                        ),
                    ),
                );
            }
            Ok(subject.to_owned())
        },
    }
}

/// Reads a change of the root set out of its envelope. Who may make it is not asked here.
pub fn root_change(env: &Json, payloads: &Vec<Json>) -> (r: Result<RootChange, Error>)
    ensures
        match set_change(env@, docs(payloads@)) {
            Ok(c) => r matches Ok(v) && v@ == c,
            Err(f) => r matches Err(e) && e@ == f,
        },
{
    proof {
        reveal_strlit("root:");
    }
    let target = text_or_empty(env.at("execution").text_at("target"));
    let key = match strip_prefix(target, "root:") {
        Some(key) => key,
        None => {
            return Err(
                Error::new(
                    ROOT_ENROLLMENT_MALFORMED,
                    join3(
                        "execution.target ",
                        debug_text(target).as_str(),
                        " must be root:ed25519:<64 hex>",
                    ),
                ),
            );
        },
    };
    let key = match KeyId::parse(key) {
        Ok(key) => key,
        Err(e) => {
            return Err(
                Error::new(
                    ROOT_ENROLLMENT_MALFORMED,
                    join2("execution.target does not name a key: ", e.detail()),
                ),
            );
        },
    };
    if is_text(env.at("execution").at("action"), "kernel.enroll_root") {
        let subject = enrolled_subject(env, payloads, &key)?;
        Ok(RootChange::Enrol { key, subject })
    } else {
        Ok(RootChange::Retire { key })
    }
}

/// The change of the root set that an envelope may make, signed by a key, while some keys are
/// enrolled: only an enrolled root changes it.
pub open spec fn permitted_set_change(
    env: Doc,
    payloads: Seq<Doc>,
    roots: Seq<Root>,
    signer: Seq<char>,
) -> Result<SetChange, Fault> {
    if !is_enrolled(roots, signer) {
        Err(
            fault(
                "mandate-root-not-enrolled"@,
                signer + " is not an enrolled human root and may not change the root set"@,
            ),
        )
    } else {
        set_change(env, payloads)
    }
}

/// Checks that an envelope may change the root set, and reads the change out of it.
pub fn validate_root_change(
    env: &Json,
    payloads: &Vec<Json>,
    roots: &Vec<Root>,
    signer: &KeyId,
) -> (r: Result<RootChange, Error>)
    ensures
        match permitted_set_change(env@, docs(payloads@), roots@, signer@) {
            Ok(c) => r matches Ok(v) && v@ == c,
            Err(f) => r matches Err(e) && e@ == f,
        },
{
    if !is_root(roots, signer) {
        return Err(
            Error::new(
                "mandate-root-not-enrolled",
                join2(
                    signer.as_str(),
                    " is not an enrolled human root and may not change the root set",
                ),
            ),
        );
    }
    root_change(env, payloads)
}

// -- resuming a stream ------------------------------------------------------------------------

/// The members of a resume document.
pub const RESUME_MEMBERS: [&'static str; 4] = [
    "stream",
    "resume-seq",
    "refused-object-hash",
    "reason-code",
];

/// A stream that may continue past a position that was refused.
#[derive(Debug)]
pub struct StreamResume {
    /// The stream.
    pub stream: String,
    /// The position.
    pub resume_seq: u64,
    /// The hash of what was refused there.
    pub bridge_hash: String,
    /// Why it was refused.
    pub reason_code: String,
}

/// A stream that may continue.
pub struct Resume {
    /// The stream.
    pub stream: Seq<char>,
    /// The position.
    pub resume_seq: int,
    /// The hash of what was refused there.
    pub bridge_hash: Seq<char>,
    /// Why it was refused.
    pub reason_code: Seq<char>,
}

impl View for StreamResume {
    type V = Resume;

    open spec fn view(&self) -> Resume {
        Resume {
            stream: self.stream@,
            resume_seq: self.resume_seq as int,
            bridge_hash: self.bridge_hash@,
            reason_code: self.reason_code@,
        }
    }
}

/// The resume an envelope makes: the stream its target names, at the position the document it
/// commits to gives, past the object that document names.
pub open spec fn resume(env: Doc, payloads: Seq<Doc>) -> Result<Resume, Fault> {
    let target = or_empty(executed(env, "target"@));
    let named = target.skip(7);
    let hash = executed(env, "args-hash"@);
    let document = payload_of(payloads, hash->0);
    let d = document->0;
    let stream = d.text_at("stream"@);
    let seq = d.at("resume-seq"@).as_u64();
    if !begins(target, "stream:"@) {
        Err(
            fault(
                STREAM_RESUME_MALFORMED@,
                "execution.target "@ + quoted(target) + " must be stream:<stream>"@,
            ),
        )
    } else if hash is None {
        Err(no_args_hash())
    } else if document is None {
        Err(
            fault(
                STREAM_RESUME_UNBOUND@,
                "a resume must submit the document its args-hash commits to"@,
            ),
        )
    } else if d.as_record() is None {
        Err(fault(STREAM_RESUME_MALFORMED@, "the resume document must be a JSON object"@))
    } else if let Some(key) = stranger(d->Record_0, RESUME_MEMBERS@, 0) {
        Err(
            fault(
                STREAM_RESUME_MALFORMED@,
                "unknown member "@ + quoted(key) + " in the resume document"@,
            ),
        )
    } else if stream is None {
        Err(fault(STREAM_RESUME_MALFORMED@, "stream"@))
    } else if stream->0 != named {
        Err(
            fault(
                STREAM_RESUME_MALFORMED@,
                "the document resumes "@ + stream->0 + ", execution.target names "@ + named,
            ),
        )
    } else if seq is None {
        Err(fault(STREAM_RESUME_MALFORMED@, "resume-seq"@))
    } else if !is_digest(or_empty(d.text_at("refused-object-hash"@))) {
        Err(
            fault(
                STREAM_RESUME_MALFORMED@,
                "refused-object-hash must be 64 lowercase hex characters"@,
            ),
        )
    } else if or_empty(d.text_at("reason-code"@)).len() == 0 {
        Err(fault(STREAM_RESUME_MALFORMED@, "reason-code"@))
    } else {
        Ok(
            Resume {
                stream: stream->0,
                resume_seq: seq->0,
                bridge_hash: or_empty(d.text_at("refused-object-hash"@)),
                reason_code: or_empty(d.text_at("reason-code"@)),
            },
        )
    }
}

/// Reads a stream resume out of its envelope. Who may make it is not asked here, and nothing in it
/// says that what was refused was valid.
pub fn stream_resume(env: &Json, payloads: &Vec<Json>) -> (r: Result<StreamResume, Error>)
    ensures
        match resume(env@, docs(payloads@)) {
            Ok(c) => r matches Ok(v) && v@ == c,
            Err(f) => r matches Err(e) && e@ == f,
        },
{
    proof {
        reveal_strlit("stream:");
    }
    let target = text_or_empty(env.at("execution").text_at("target"));
    let named = match strip_prefix(target, "stream:") {
        Some(named) => named,
        None => {
            return Err(
                Error::new(
                    STREAM_RESUME_MALFORMED,
                    join3(
                        "execution.target ",
                        debug_text(target).as_str(),
                        " must be stream:<stream>",
                    ),
                ),
            );
        },
    };
    let hash = match env.at("execution").text_at("args-hash") {
        Some(hash) => hash,
        None => {
            return Err(refusal("schema-missing-member", "execution.args-hash"));
        },
    };
    let document = match find_payload(payloads, hash) {
        Some(document) => document,
        None => {
            return Err(
                refusal(
                    STREAM_RESUME_UNBOUND,
                    "a resume must submit the document its args-hash commits to",
                ),
            );
        },
    };
    let members = match document.as_record() {
        Some(members) => members,
        None => {
            return Err(
                refusal(STREAM_RESUME_MALFORMED, "the resume document must be a JSON object"),
            );
        },
    };
    if let Some(key) = unknown_member(members, &RESUME_MEMBERS) {
        return Err(
            Error::new(
                STREAM_RESUME_MALFORMED,
                join3(
                    "unknown member ",
                    debug_text(key.as_str()).as_str(),
                    " in the resume document",
                ),
            ),
        );
    }
    let stream = match document.text_at("stream") {
        Some(stream) => stream,
        None => {
            return Err(refusal(STREAM_RESUME_MALFORMED, "stream"));
        },
    };
    if !same(stream, named) {
        return Err(
            Error::new(
                STREAM_RESUME_MALFORMED,
                join4("the document resumes ", stream, ", execution.target names ", named),
            ),
        );
    }
    let resume_seq: u64 = match document.at("resume-seq").as_u64() {
        Some(seq) => seq,
        None => {
            return Err(refusal(STREAM_RESUME_MALFORMED, "resume-seq"));
        },
    };
    let bridge_hash = text_or_empty(document.text_at("refused-object-hash"));
    if !is_digest_hex(bridge_hash) {
        return Err(
            refusal(
                STREAM_RESUME_MALFORMED,
                "refused-object-hash must be 64 lowercase hex characters",
            ),
        );
    }
    let reason_code = text_or_empty(document.text_at("reason-code"));
    if reason_code.is_empty() {
        return Err(refusal(STREAM_RESUME_MALFORMED, "reason-code"));
    }
    Ok(
        StreamResume {
            stream: stream.to_owned(),
            resume_seq,
            bridge_hash: bridge_hash.to_owned(),
            reason_code: reason_code.to_owned(),
        },
    )
}

// -- the policy in force ----------------------------------------------------------------------

/// What is known of a policy document that arrived with a change: its hash, and, where it is a
/// policy signed by the organization's key, its version and its own hash; and whether that version
/// has been published before.
#[derive(Debug)]
pub struct IncomingPolicy {
    /// What hashing the document came to.
    pub document_hash: Result<String, Error>,
    /// What reading the document as a policy came to: its version and hash.
    pub policy: Result<(String, String), Error>,
    /// What asking the store whether the version exists came to.
    pub version_exists: Result<bool, Error>,
}

/// A policy version about to come into force.
#[derive(Debug)]
pub struct PolicyInstall {
    /// Its version.
    pub version: String,
    /// The document.
    pub document: Json,
    /// Its hash.
    pub hash: String,
}

/// A policy version about to come into force.
pub struct Install {
    /// Its version.
    pub version: Seq<char>,
    /// The document.
    pub document: Doc,
    /// Its hash.
    pub hash: Seq<char>,
}

impl View for PolicyInstall {
    type V = Install;

    open spec fn view(&self) -> Install {
        Install { version: self.version@, document: self.document@, hash: self.hash@ }
    }
}

/// The policy that a change installs: the document its arguments commit to, byte for byte, under
/// the version its target names, which has never been published.
pub open spec fn install(
    env: Doc,
    payloads: Seq<Doc>,
    incoming: IncomingPolicy,
) -> Result<Install, Fault> {
    let hash = executed(env, "args-hash"@);
    let document = payload_of(payloads, hash->0);
    let version = incoming.policy->Ok_0.0@;
    if hash is None {
        Err(no_args_hash())
    } else if document is None {
        Err(
            fault(
                POLICY_CHANGE_DOCUMENT_UNBOUND@,
                "the new policy document must be submitted alongside the change, and args-hash must be its object-hash"@,
            ),
        )
    } else if let Err(e) = incoming.document_hash {
        Err(e@)
    } else if incoming.document_hash->Ok_0@ != hash->0 {
        Err(
            fault(
                POLICY_CHANGE_DOCUMENT_UNBOUND@,
                "the submitted policy hashes to "@ + incoming.document_hash->Ok_0@
                    + ", args-hash is "@ + hash->0,
            ),
        )
    } else if let Err(e) = incoming.policy {
        Err(e@)
    } else if executed(env, "target"@) != Some("policy:"@ + version) {
        Err(
            fault(
                POLICY_CHANGE_TARGET_MISMATCH@,
                "execution.target is "@ + debugged(env.at("execution"@).at("target"@))
                    + ", expected "@ + quoted("policy:"@ + version),
            ),
        )
    } else if let Err(e) = incoming.version_exists {
        Err(e@)
    } else if incoming.version_exists->Ok_0 {
        Err(
            fault(
                "policy-version-reused"@,
                "policy version "@ + version + " has already been published"@,
            ),
        )
    } else {
        Ok(Install { version, document: document->0, hash: incoming.policy->Ok_0.1@ })
    }
}

/// Checks a change of policy, given what is known of the document that arrived with it.
pub fn validate_policy_change(
    env: &Json,
    payloads: &Vec<Json>,
    incoming: &IncomingPolicy,
) -> (r: Result<PolicyInstall, Error>)
    ensures
        match install(env@, docs(payloads@), *incoming) {
            Ok(c) => r matches Ok(v) && v@ == c,
            Err(f) => r matches Err(e) && e@ == f,
        },
{
    let hash = match env.at("execution").text_at("args-hash") {
        Some(hash) => hash,
        None => {
            return Err(refusal("schema-missing-member", "execution.args-hash"));
        },
    };
    let document = match find_payload(payloads, hash) {
        Some(document) => document,
        None => {
            return Err(
                refusal(
                    POLICY_CHANGE_DOCUMENT_UNBOUND,
                    "the new policy document must be submitted alongside the change, and args-hash must be its object-hash",
                ),
            );
        },
    };
    match &incoming.document_hash {
        Err(e) => {
            return Err(e.copy());
        },
        Ok(computed) => {
            if !same(computed.as_str(), hash) {
                return Err(
                    Error::new(
                        POLICY_CHANGE_DOCUMENT_UNBOUND,
                        join4(
                            "the submitted policy hashes to ",
                            computed.as_str(),
                            ", args-hash is ",
                            hash,
                        ),
                    ),
                );
            }
        },
    }
    let (version, document_hash) = match &incoming.policy {
        Err(e) => {
            return Err(e.copy());
        },
        Ok(policy) => (policy.0.as_str(), policy.1.as_str()),
    };
    let expected = join2("policy:", version);
    if !is_text(env.at("execution").at("target"), expected.as_str()) {
        return Err(
            Error::new(
                POLICY_CHANGE_TARGET_MISMATCH,
                join4(
                    "execution.target is ",
                    env.at("execution").at("target").to_debug().as_str(),
                    ", expected ",
                    debug_text(expected.as_str()).as_str(),
                ),
            ),
        );
    }
    match &incoming.version_exists {
        Err(e) => {
            return Err(e.copy());
        },
        Ok(exists) => {
            if *exists {
                return Err(
                    Error::new(
                        "policy-version-reused",
                        join3("policy version ", version, " has already been published"),
                    ),
                );
            }
        },
    }
    Ok(
        PolicyInstall {
            version: version.to_owned(),
            document: document.copy(),
            hash: document_hash.to_owned(),
        },
    )
}

// -- registered components --------------------------------------------------------------------

/// What is known of a manifest that arrived with a registration: what verifying and hashing it
/// came to, which key its name is bound to, whether its version is registered, and whether an
/// applied conformance run commits to it.
#[derive(Debug)]
pub struct IncomingManifest {
    /// What verifying the manifest's signature came to.
    pub signer: Result<KeyId, Error>,
    /// What hashing the manifest came to.
    pub hash: Result<String, Error>,
    /// The key the name is bound to, where it is bound.
    pub bound_key: Result<Option<String>, Error>,
    /// Whether the version is registered.
    pub version_exists: Result<bool, Error>,
    /// Whether an applied conformance run commits to the manifest.
    pub green: Result<bool, Error>,
}

/// A component about to be registered.
#[derive(Debug)]
pub struct Registration {
    /// The component's name.
    pub name: String,
    /// Its version.
    pub version: String,
    /// The hash of its manifest.
    pub hash: String,
    /// The key that signed the manifest.
    pub component_key: String,
    /// The manifest.
    pub document: Json,
}

/// A component about to be registered.
pub struct Registered {
    /// The component's name.
    pub name: Seq<char>,
    /// Its version.
    pub version: Seq<char>,
    /// The hash of its manifest.
    pub hash: Seq<char>,
    /// The key that signed the manifest.
    pub component_key: Seq<char>,
    /// The manifest.
    pub document: Doc,
}

impl View for Registration {
    type V = Registered;

    open spec fn view(&self) -> Registered {
        Registered {
            name: self.name@,
            version: self.version@,
            hash: self.hash@,
            component_key: self.component_key@,
            document: self.document@,
        }
    }
}

/// The component that an envelope registers: the valid manifest its arguments commit to, under a
/// name no other key holds, in a version not yet registered, certified by a green run.
pub open spec fn registration(
    env: Doc,
    payloads: Seq<Doc>,
    incoming: IncomingManifest,
) -> Result<Registered, Fault> {
    let args_hash = executed(env, "args-hash"@);
    let document = payload_of(payloads, args_hash->0);
    let name = or_empty(document->0.text_at("name"@));
    let version = or_empty(document->0.text_at("version"@));
    let hash = incoming.hash->Ok_0@;
    let key = incoming.signer->Ok_0@;
    if args_hash is None {
        Err(no_args_hash())
    } else if document is None {
        Err(
            fault(
                MANIFEST_MALFORMED@,
                "the manifest must be submitted alongside its registration, and args-hash must be its object-hash"@,
            ),
        )
    } else if let Some(f) = manifest_fault(document->0, incoming.signer, incoming.hash) {
        Err(f)
    } else if hash != args_hash->0 {
        Err(
            fault(
                MANIFEST_MALFORMED@,
                "args-hash does not commit to the submitted manifest"@,
            ),
        )
    } else if let Err(e) = incoming.bound_key {
        Err(e@)
    } else if incoming.bound_key->Ok_0 matches Some(bound) && bound@ != key {
        Err(
            fault(
                "manifest-name-key-conflict"@,
                name + " is already bound to "@ + incoming.bound_key->Ok_0->0@,
            ),
        )
    } else if let Err(e) = incoming.version_exists {
        Err(e@)
    } else if incoming.version_exists->Ok_0 {
        Err(
            fault(
                "manifest-version-retained"@,
                name + " "@ + version + " is already registered and versions are retained forever"@,
            ),
        )
    } else if let Err(e) = incoming.green {
        Err(e@)
    } else if !incoming.green->Ok_0 {
        Err(
            fault(
                "manifest-conformance-not-green"@,
                "no applied kernel.conformance_run envelope commits to manifest "@ + hash,
            ),
        )
    } else {
        Ok(Registered { name, version, hash, component_key: key, document: document->0 })
    }
}

/// Checks a registration, given what is known of the manifest that arrived with it.
pub fn validate_registration(
    env: &Json,
    payloads: &Vec<Json>,
    incoming: &IncomingManifest,
) -> (r: Result<Registration, Error>)
    ensures
        match registration(env@, docs(payloads@), *incoming) {
            Ok(c) => r matches Ok(v) && v@ == c,
            Err(f) => r matches Err(e) && e@ == f,
        },
{
    let args_hash = match env.at("execution").text_at("args-hash") {
        Some(hash) => hash,
        None => {
            return Err(refusal("schema-missing-member", "execution.args-hash"));
        },
    };
    let document = match find_payload(payloads, args_hash) {
        Some(document) => document,
        None => {
            return Err(
                refusal(
                    MANIFEST_MALFORMED,
                    "the manifest must be submitted alongside its registration, and args-hash must be its object-hash",
                ),
            );
        },
    };
    let manifest = Manifest::parse(document, &incoming.signer, &incoming.hash)?;
    if !same(manifest.hash(), args_hash) {
        return Err(
            refusal(MANIFEST_MALFORMED, "args-hash does not commit to the submitted manifest"),
        );
    }
    match &incoming.bound_key {
        Err(e) => {
            return Err(e.copy());
        },
        Ok(Some(bound)) => {
            if !same(bound.as_str(), manifest.component_key().as_str()) {
                return Err(
                    Error::new(
                        "manifest-name-key-conflict",
                        join3(manifest.name(), " is already bound to ", bound.as_str()),
                    ),
                );
            }
        },
        Ok(None) => {},
    }
    match &incoming.version_exists {
        Err(e) => {
            return Err(e.copy());
        },
        Ok(exists) => {
            if *exists {
                return Err(
                    Error::new(
                        "manifest-version-retained",
                        join4(
                            manifest.name(),
                            " ",
                            manifest.version(),
                            " is already registered and versions are retained forever",
                        ),
                    ),
                );
            }
        },
    }
    match &incoming.green {
        Err(e) => {
            return Err(e.copy());
        },
        Ok(green) => {
            if !*green {
                return Err(
                    Error::new(
                        "manifest-conformance-not-green",
                        join2(
                            "no applied kernel.conformance_run envelope commits to manifest ",
                            manifest.hash(),
                        ),
                    ),
                );
            }
        },
    }
    Ok(
        Registration {
            name: manifest.name().to_owned(),
            version: manifest.version().to_owned(),
            hash: manifest.hash().to_owned(),
            component_key: manifest.component_key().as_str().to_owned(),
            document: document.copy(),
        },
    )
}

// -- durable objects --------------------------------------------------------------------------

/// The state an object is in after some transitions, each taken from where the one before led,
/// starting from an object that is not there; or why they do not lead anywhere. Who signed them was
/// judged when they were made.
pub open spec fn folded(
    d: Doc,
    name: Seq<char>,
    object_type: Seq<char>,
    history: Seq<Seq<char>>,
) -> Result<Option<Seq<char>>, Fault>
    decreases history.len(),
{
    if history.len() == 0 {
        Ok(None)
    } else {
        match folded(d, name, object_type, history.drop_last()) {
            Err(f) => Err(f),
            Ok(state) => match step_outcome(d, name, object_type, history.last(), None, state) {
                Ok(next) => Ok(Some(next)),
                Err(f) => Err(f),
            },
        }
    }
}

/// The role a subject signs in.
pub open spec fn role_of(subject: Seq<char>) -> Seq<char> {
    if begins(subject, "human:"@) {
        "human"@
    } else {
        "agent"@
    }
}

/// What is wrong with the transition an envelope commits a durable object to: its manifest must
/// declare it, from the state the object's history folds to, for the role of the one who signs.
pub open spec fn commitment_ref_fault(
    env: Doc,
    manifest: Option<Manifest>,
    subject: Seq<char>,
    history: Result<Vec<String>, Error>,
) -> Option<Fault> {
    let commitment = env.at("commitment-ref"@);
    let object_type = commitment.text_at("object-type"@);
    let transition = commitment.text_at("transition"@);
    if env.get("commitment-ref"@) is None {
        None
    } else if object_type is None {
        Some(fault("schema-missing-member"@, "commitment-ref.object-type"@))
    } else if commitment.text_at("object-id"@) is None {
        Some(fault("schema-missing-member"@, "commitment-ref.object-id"@))
    } else if transition is None {
        Some(fault("schema-missing-member"@, "commitment-ref.transition"@))
    } else {
        match manifest {
            None => Some(
                fault(
                    "durable-transition-not-permitted"@,
                    "no registered manifest declares durable object "@ + quoted(object_type->0),
                ),
            ),
            Some(m) => match history {
                Err(e) => Some(e@),
                Ok(past) => match folded(m.doc(), m.called(), object_type->0, texts(past@)) {
                    Err(f) => Some(f),
                    Ok(state) => match transition_outcome(
                        m.doc(),
                        m.called(),
                        object_type->0,
                        transition->0,
                        role_of(subject),
                        state,
                    ) {
                        Ok(_) => None,
                        Err(f) => Some(f),
                    },
                },
            },
        }
    }
}

/// The state an object is in after some transitions.
pub fn fold_transitions(manifest: &Manifest, object_type: &str, history: &Vec<String>) -> (r: Result<
    Option<String>,
    Error,
>)
    ensures
        match folded(manifest.doc(), manifest.called(), object_type@, texts(history@)) {
            Ok(state) => r matches Ok(s) && crate::config::opt_string(s) == state,
            Err(f) => r matches Err(e) && e@ == f,
        },
{
    let mut state: Option<String> = None;
    let mut i: usize = 0;
    let ghost all = texts(history@);
    proof {
        assert(all.take(0) == Seq::<Seq<char>>::empty());
    }
    while i < history.len()
        invariant
            i <= history@.len(),
            all == texts(history@),
            folded(manifest.doc(), manifest.called(), object_type@, all.take(i as int)) == Ok::<
                Option<Seq<char>>,
                Fault,
            >(crate::config::opt_string(state)),
        decreases history@.len() - i,
    {
        proof {
            assert(all.take(i + 1).drop_last() == all.take(i as int));
            assert(all.take(i + 1).last() == history@[i as int]@);
        }
        let current: Option<&str> = match &state {
            Some(s) => Some(s.as_str()),
            None => None,
        };
        match manifest.replay(object_type, history[i].as_str(), current) {
            Ok(next) => {
                state = Some(next);
            },
            Err(e) => {
                proof {
                    lemma_fold_fails(
                        manifest.doc(),
                        manifest.called(),
                        object_type@,
                        all,
                        i + 1,
                    );
                }
                return Err(e);
            },
        }
        i += 1;
    }
    assert(all.take(i as int) == all);
    Ok(state)
}

/// A history that goes wrong at some point goes wrong there.
proof fn lemma_fold_fails(
    d: Doc,
    name: Seq<char>,
    object_type: Seq<char>,
    history: Seq<Seq<char>>,
    upto: int,
)
    requires
        0 <= upto <= history.len(),
        folded(d, name, object_type, history.take(upto)) is Err,
    ensures
        folded(d, name, object_type, history) == folded(d, name, object_type, history.take(upto)),
    decreases history.len() - upto,
{
    if upto == history.len() {
        assert(history.take(upto) == history);
    } else {
        assert(history.take(upto + 1).drop_last() == history.take(upto));
        lemma_fold_fails(d, name, object_type, history, upto + 1);
    }
}

/// Checks the transition an envelope commits a durable object to, given its component's manifest
/// and the object's past transitions in chain order.
pub fn validate_commitment(
    env: &Json,
    manifest: &Option<Manifest>,
    subject: &str,
    history: &Result<Vec<String>, Error>,
) -> (r: Result<(), Error>)
    ensures
        settles(r, commitment_ref_fault(env@, *manifest, subject@, *history)),
{
    let commitment = match env.get("commitment-ref") {
        Some(commitment) => commitment,
        None => {
            return Ok(());
        },
    };
    let object_type = match commitment.text_at("object-type") {
        Some(object_type) => object_type,
        None => {
            return Err(refusal("schema-missing-member", "commitment-ref.object-type"));
        },
    };
    if commitment.text_at("object-id").is_none() {
        return Err(refusal("schema-missing-member", "commitment-ref.object-id"));
    }
    let transition = match commitment.text_at("transition") {
        Some(transition) => transition,
        None => {
            return Err(refusal("schema-missing-member", "commitment-ref.transition"));
        },
    };
    let manifest = match manifest {
        Some(manifest) => manifest,
        None => {
            return Err(
                Error::new(
                    "durable-transition-not-permitted",
                    join2(
                        "no registered manifest declares durable object ",
                        debug_text(object_type).as_str(),
                    ),
                ),
            );
        },
    };
    let history = match history {
        Ok(history) => history,
        Err(e) => {
            return Err(e.copy());
        },
    };
    let state = fold_transitions(manifest, object_type, history)?;
    let role = if starts_with(subject, "human:") {
        "human"
    } else {
        "agent"
    };
    let current: Option<&str> = match &state {
        Some(s) => Some(s.as_str()),
        None => None,
    };
    let _next = manifest.check_transition(object_type, transition, role, current)?;
    Ok(())
}

// -- laws -------------------------------------------------------------------------------------

/// Only an enrolled root changes the root set, and an enrolment always names a human and the very
/// key its target names.
pub proof fn lemma_root_set_changes_are_signed_by_roots(
    env: Doc,
    payloads: Seq<Doc>,
    roots: Seq<Root>,
    signer: Seq<char>,
)
    requires
        permitted_set_change(env, payloads, roots, signer) is Ok,
    ensures
        is_enrolled(roots, signer),
        permitted_set_change(env, payloads, roots, signer)->Ok_0 matches SetChange::Enrol(
            key,
            subject,
        ) ==> is_key_id(key) && names_human(subject) && executed(env, "target"@) is Some
            && executed(env, "target"@)->0.skip(5) == key,
{
    reveal_strlit("root:");
}

/// What comes into force is the document the approval was bound to: the arguments an envelope
/// commits to are the hash of the document it installs.
pub proof fn lemma_installed_policy_is_the_one_committed_to(
    env: Doc,
    payloads: Seq<Doc>,
    incoming: IncomingPolicy,
)
    requires
        install(env, payloads, incoming) is Ok,
    ensures
        incoming.document_hash is Ok,
        executed(env, "args-hash"@) == Some(incoming.document_hash->Ok_0@),
        payload_of(payloads, incoming.document_hash->Ok_0@) == Some(
            install(env, payloads, incoming)->Ok_0.document,
        ),
        executed(env, "target"@) == Some(
            "policy:"@ + install(env, payloads, incoming)->Ok_0.version,
        ),
{
}

/// No green conformance run, no registration; and no other key takes over a bound name.
pub proof fn lemma_registration_needs_a_green_run(
    env: Doc,
    payloads: Seq<Doc>,
    incoming: IncomingManifest,
)
    requires
        registration(env, payloads, incoming) is Ok,
    ensures
        incoming.green == Ok::<bool, Error>(true),
        incoming.version_exists == Ok::<bool, Error>(false),
        executed(env, "args-hash"@) == Some(registration(env, payloads, incoming)->Ok_0.hash),
        incoming.bound_key->Ok_0 matches Some(bound) ==> bound@ == registration(
            env,
            payloads,
            incoming,
        )->Ok_0.component_key,
{
}

/// A transition that is accepted, whoever signs it, never freezes its object: the history that
/// holds it folds to the state it leads to.
pub proof fn lemma_accepted_transitions_fold(
    env: Doc,
    m: Manifest,
    subject: Seq<char>,
    past: Vec<String>,
)
    requires
        env.get("commitment-ref"@) is Some,
        commitment_ref_fault(env, Some(m), subject, Ok(past)) is None,
    ensures
        ({
            let commitment = env.at("commitment-ref"@);
            let object_type = commitment.text_at("object-type"@)->0;
            let transition = commitment.text_at("transition"@)->0;
            let state = folded(m.doc(), m.called(), object_type, texts(past@))->Ok_0;
            folded(m.doc(), m.called(), object_type, texts(past@).push(transition)) == Ok::<
                Option<Seq<char>>,
                Fault,
            >(
                Some(
                    transition_outcome(
                        m.doc(),
                        m.called(),
                        object_type,
                        transition,
                        role_of(subject),
                        state,
                    )->Ok_0,
                ),
            )
        }),
{
    let transition = env.at("commitment-ref"@).text_at("transition"@)->0;
    assert(texts(past@).push(transition).drop_last() =~= texts(past@));
}

/// What a payload holds is found under its hash wherever among the payloads it stands, and is what
/// the first of that hash holds.
pub proof fn lemma_payloads_are_found_by_hash(payloads: Seq<Doc>, hash: Seq<char>)
    ensures
        match payload_of(payloads, hash) {
            Some(held) => exists|k: int|
                0 <= k < payloads.len() && (#[trigger] payloads[k]).at("payload-hash"@) == Doc::Text(
                    hash,
                ) && payloads[k].at("payload"@) == held && forall|j: int|
                    0 <= j < k ==> (#[trigger] payloads[j]).at("payload-hash"@) != Doc::Text(hash),
            None => forall|j: int|
                0 <= j < payloads.len() ==> (#[trigger] payloads[j]).at("payload-hash"@)
                    != Doc::Text(hash),
        },
{
    crate::json::lemma_the_first_entry_is_found(payloads, "payload-hash"@, hash, 0);
}

/// The root set changes exactly where an enrolled root signs, and the target names a key. To enrol
/// it, the evidence that the envelope commits to must name that key and a human; whatever else is
/// done with it retires it.
pub proof fn lemma_what_changes_the_root_set(
    env: Doc,
    payloads: Seq<Doc>,
    roots: Seq<Root>,
    signer: Seq<char>,
    key: Seq<char>,
    subject: Seq<char>,
)
    ensures
        ({
            let change = permitted_set_change(env, payloads, roots, signer);
            let by_root = exists|i: int|
                0 <= i < roots.len() && (#[trigger] roots[i]).key@ == signer;
            let names_key = env.at("execution"@).at("target"@) == Doc::Text("root:"@ + key)
                && is_key_id(key);
            let enrols = env.at("execution"@).at("action"@) == Doc::Text("kernel.enroll_root"@);
            &&& change == Ok::<SetChange, Fault>(SetChange::Retire(key)) <==> by_root && names_key
                && !enrols
            &&& change == Ok::<SetChange, Fault>(SetChange::Enrol(key, subject)) <==> {
                &&& by_root && names_key && enrols
                &&& env.at("execution"@).at("args-hash"@) matches Doc::Text(hash) && payload_of(
                    payloads,
                    hash,
                ) matches Some(evidence) && evidence.at("key"@) == Doc::Text(key) && evidence.at(
                    "subject"@,
                ) == Doc::Text(subject) && subject.len() > 6 && subject.take(6) == "human:"@
            }
        }),
{
    let target = or_empty(executed(env, "target"@));
    reveal_strlit("root:");
    reveal_strlit("human:");
    let whole = "root:"@ + key;
    assert(whole.skip(5) =~= key);
    assert(whole.take(5) =~= "root:"@);
    if begins(target, "root:"@) {
        assert(target =~= "root:"@ + target.skip(5));
    }
}

/// A stream is resumed exactly where the document that the envelope commits to is of nothing but
/// what a resume says, is about the stream that the target names, and gives a place, the hash of
/// what was refused and a reason.
pub proof fn lemma_what_resumes_a_stream(env: Doc, payloads: Seq<Doc>)
    ensures
        ({
            let execution = env.at("execution"@);
            let d = payload_of(payloads, or_empty(execution.text_at("args-hash"@)))->0;
            resume(env, payloads) is Ok <==> {
                &&& execution.at("args-hash"@) matches Doc::Text(hash) && payload_of(
                    payloads,
                    hash,
                ) is Some
                &&& d matches Doc::Record(members) && forall|i: int|
                    0 <= i < members.len() ==> {
                        ||| (#[trigger] members[i]).0 == "stream"@
                        ||| members[i].0 == "resume-seq"@
                        ||| members[i].0 == "refused-object-hash"@
                        ||| members[i].0 == "reason-code"@
                    }
                &&& d.at("stream"@) matches Doc::Text(stream) && execution.at("target"@)
                    == Doc::Text("stream:"@ + stream)
                &&& d.at("resume-seq"@) matches Doc::Int(seq) && 0 <= seq <= u64::MAX
                &&& d.at("refused-object-hash"@) matches Doc::Text(refused) && is_digest(refused)
                &&& d.at("reason-code"@) matches Doc::Text(why) && why.len() > 0
            }
        }),
        resume(env, payloads) matches Ok(r) ==> {
            let d = payload_of(payloads, env.at("execution"@).at("args-hash"@)->Text_0)->0;
            &&& d.at("stream"@) == Doc::Text(r.stream)
            &&& d.at("resume-seq"@) == Doc::Int(r.resume_seq)
            &&& d.at("refused-object-hash"@) == Doc::Text(r.bridge_hash)
            &&& d.at("reason-code"@) == Doc::Text(r.reason_code)
        },
{
    let names = RESUME_MEMBERS@;
    assert(names[0]@ == "stream"@);
    assert(names[1]@ == "resume-seq"@);
    assert(names[2]@ == "refused-object-hash"@);
    assert(names[3]@ == "reason-code"@);
    let execution = env.at("execution"@);
    let d = payload_of(payloads, or_empty(execution.text_at("args-hash"@)))->0;
    if let Doc::Record(members) = d {
        crate::json::lemma_strangers_are_found(members, names, 0);
    }
    let target = or_empty(executed(env, "target"@));
    reveal_strlit("stream:");
    assert("stream:"@.len() == 7);
    if begins(target, "stream:"@) {
        assert(target =~= "stream:"@ + target.skip(7));
    }
    if let Doc::Text(stream) = d.at("stream"@) {
        let whole = "stream:"@ + stream;
        assert(whole.skip(7) =~= stream);
        assert(whole.take(7) =~= "stream:"@);
    }
}

/// A policy is installed exactly where the document that came with it is the one the envelope
/// commits to, by the hash computed of it, it is a policy, the target names its version and that
/// version was never published.
pub proof fn lemma_what_installs_a_policy(
    env: Doc,
    payloads: Seq<Doc>,
    incoming: IncomingPolicy,
)
    ensures
        install(env, payloads, incoming) is Ok <==> {
            &&& env.at("execution"@).at("args-hash"@) matches Doc::Text(hash) && payload_of(
                payloads,
                hash,
            ) is Some && (incoming.document_hash matches Ok(computed) && computed@ == hash)
            &&& incoming.policy matches Ok((version, _)) && env.at("execution"@).at("target"@)
                == Doc::Text("policy:"@ + version@)
            &&& incoming.version_exists == Ok::<bool, Error>(false)
        },
        install(env, payloads, incoming) matches Ok(i) ==> incoming.policy matches Ok(
            (version, hash),
        ) && i.version == version@ && i.hash == hash@ && payload_of(
            payloads,
            env.at("execution"@).at("args-hash"@)->Text_0,
        ) == Some(i.document),
{
}

/// A component is registered exactly where the manifest that came with it is the one the envelope
/// commits to and is without fault, its name is not bound to another key, its version is not taken
/// and the suite ran green on it.
pub proof fn lemma_what_registers_a_component(
    env: Doc,
    payloads: Seq<Doc>,
    incoming: IncomingManifest,
)
    ensures
        registration(env, payloads, incoming) is Ok <==> {
            &&& env.at("execution"@).at("args-hash"@) matches Doc::Text(committed) && (payload_of(
                payloads,
                committed,
            ) matches Some(document) && manifest_fault(
                document,
                incoming.signer,
                incoming.hash,
            ) is None) && incoming.hash->Ok_0@ == committed
            &&& incoming.bound_key matches Ok(bound) && (bound is None || bound->0@
                == incoming.signer->Ok_0@)
            &&& incoming.version_exists == Ok::<bool, Error>(false)
            &&& incoming.green == Ok::<bool, Error>(true)
        },
        registration(env, payloads, incoming) matches Ok(r) ==> {
            &&& r.hash == incoming.hash->Ok_0@
            &&& r.component_key == incoming.signer->Ok_0@
            &&& payload_of(payloads, r.hash) == Some(r.document)
            &&& r.name == or_empty(r.document.text_at("name"@))
            &&& r.version == or_empty(r.document.text_at("version"@))
        },
{
}

/// The state of an object is folded from every transition it has made, one upon the other: it has
/// none before the first, each further one leads on from where those before it had led, and where
/// one leads nowhere no later one leads anywhere.
pub proof fn lemma_states_are_folded(
    d: Doc,
    name: Seq<char>,
    object_type: Seq<char>,
    history: Seq<Seq<char>>,
    transition: Seq<char>,
)
    ensures
        folded(d, name, object_type, Seq::empty()) == Ok::<Option<Seq<char>>, Fault>(None),
        match folded(d, name, object_type, history) {
            Ok(state) => match step_outcome(d, name, object_type, transition, None, state) {
                Ok(next) => folded(d, name, object_type, history.push(transition)) == Ok::<
                    Option<Seq<char>>,
                    Fault,
                >(Some(next)),
                Err(f) => folded(d, name, object_type, history.push(transition)) == Err::<
                    Option<Seq<char>>,
                    Fault,
                >(f),
            },
            Err(f) => folded(d, name, object_type, history.push(transition)) == Err::<
                Option<Seq<char>>,
                Fault,
            >(f),
        },
{
    assert(history.push(transition).drop_last() =~= history);
}

/// A commitment holds exactly where the manifest lets the signer, as a human where the subject is
/// one and as an agent otherwise, make the transition from the state that the history folds to; and
/// an envelope that makes none owes nothing.
pub proof fn lemma_what_a_commitment_owes(
    env: Doc,
    m: Manifest,
    past: Vec<String>,
    subject: Seq<char>,
)
    ensures
        env.get("commitment-ref"@) is None ==> commitment_ref_fault(env, None, subject, Ok(past))
            is None,
        env.get("commitment-ref"@) is Some ==> commitment_ref_fault(env, None, subject, Ok(past))
            is Some,
        env.get("commitment-ref"@) is Some ==> (commitment_ref_fault(
            env,
            Some(m),
            subject,
            Ok(past),
        ) is None <==> {
            let c = env.at("commitment-ref"@);
            &&& c.at("object-type"@) is Text && c.at("object-id"@) is Text && c.at(
                "transition"@,
            ) is Text
            &&& folded(
                m.doc(),
                m.called(),
                c.at("object-type"@)->Text_0,
                texts(past@),
            ) matches Ok(state) && transition_outcome(
                m.doc(),
                m.called(),
                c.at("object-type"@)->Text_0,
                c.at("transition"@)->Text_0,
                if subject.len() >= 6 && subject.take(6) == "human:"@ {
                    "human"@
                } else {
                    "agent"@
                },
                state,
            ) is Ok
        }),
{
    reveal_strlit("human:");
    assert("human:"@.len() == 6);
}

} // verus!
