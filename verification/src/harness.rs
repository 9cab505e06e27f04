//! Certifying a component against a throwaway kernel: what the kernel is founded with, what the
//! component is asked, and what its answers come to.

use vstd::prelude::*;
use vstd::string::*;

use crate::clock::{shift, shifted};
use crate::codes::{CONFORMANCE_HARNESS_FAILED, STORE_UNAVAILABLE};
use crate::conformance::{
    check_decay_independence, decay_grade, failed, is_recordable, Grade, GroupResult, Run,
    REQUIRED_GROUPS,
};
use crate::crypto::{sha256_hex, sha256_hex_of};
use crate::documents::{
    action_request, envelope, envelope_doc, identity, identity_doc, names_of, owned_names,
    request_doc, Question, RequestTerms,
};
use crate::error::{fault, settles, Error, Fault};
use crate::genesis::{Ceremony, Grant};
use crate::ingest::submission::{next_place, Head, Outcome};
use crate::json::{docs, is_text, list, member, member_docs, record, text, Doc, Json};
use crate::keys::{bad_key_id, is_key_id, KeyId};
use crate::manifest::Manifest;
use crate::text::{join2, join3, join4, or_empty, same, text_or_empty, texts};

verus! {

/// The stream of the throwaway kernel.
pub const CORE_STREAM: &'static str = "kernel:core";

/// The root that founds it: nobody's organization has this person.
pub const ROOT_SUBJECT: &'static str = "human:conformance-operator";

/// The subject the founding grants to.
pub const AGENT_SUBJECT: &'static str = "agent:conformance";

/// The policy version it publishes.
pub const POLICY_VERSION: &'static str = "conformance.1";

/// How many days the component's mandate lives: longer than the clock is moved.
pub const GRANT_DAYS: i64 = 30;

/// How many seconds that is.
pub const GRANT_SECONDS: i64 = 2_592_000;

/// How far the clock is moved, in seconds: past the brief mandate, well short of the other.
pub const EXPIRY_MOVE_SECONDS: i64 = 172_800;

/// A failure of the harness, which says nothing about the component.
pub open spec fn harness_fault(detail: Seq<char>) -> Fault {
    fault(CONFORMANCE_HARNESS_FAILED@, detail)
}

fn harness_error(detail: String) -> (r: Error)
    ensures
        r@ == harness_fault(detail@),
{
    Error::new(CONFORMANCE_HARNESS_FAILED, detail)
}

// -- the throwaway kernel ---------------------------------------------------------------------

/// The ceremony that founds a throwaway kernel.
pub fn run_ceremony(at: &str) -> (r: Ceremony)
    ensures
        r.root_subject@ == ROOT_SUBJECT@,
        r.agent_subject@ == AGENT_SUBJECT@,
        r.policy_version@ == POLICY_VERSION@,
        r.second_root is None,
        r.core_stream@ == CORE_STREAM@,
        r.now@ == at@,
{
    Ceremony {
        root_subject: ROOT_SUBJECT.to_owned(),
        agent_subject: AGENT_SUBJECT.to_owned(),
        policy_version: POLICY_VERSION.to_owned(),
        second_root: None,
        core_stream: CORE_STREAM.to_owned(),
        now: at.to_owned(),
    }
}

/// The configuration of a throwaway kernel: nothing it holds outlives the run.
pub open spec fn run_config_doc(fragment: Doc) -> Doc {
    Doc::Record(
        seq![
            ("bind"@, Doc::Text("127.0.0.1:0"@)),
            ("callers"@, Doc::List(Seq::empty())),
            ("checkpoint-stream"@, Doc::Text("kernel:checkpoints"@)),
            ("database"@, Doc::Text(":memory:"@)),
            ("kernel-core-stream"@, Doc::Text(CORE_STREAM@)),
            ("kernel-seed"@, Doc::Text("/nonexistent/conformance.seed"@)),
            ("policy-key"@, fragment.at("policy-key"@)),
            ("rejection-stream"@, Doc::Text("kernel:rejections"@)),
            ("roots"@, fragment.at("roots"@)),
        ],
    )
}

/// The configuration of a throwaway kernel.
pub fn run_config(fragment: &Json) -> (r: Json)
    ensures
        r@ == run_config_doc(fragment@),
{
    let none: Vec<Json> = Vec::new();
    assert(docs(none@) =~= Seq::empty());
    let mut out: Vec<(String, Json)> = Vec::new();
    out.push(member("bind", text("127.0.0.1:0")));
    out.push(member("callers", list(none)));
    out.push(member("checkpoint-stream", text("kernel:checkpoints")));
    out.push(member("database", text(":memory:")));
    out.push(member("kernel-core-stream", text(CORE_STREAM)));
    out.push(member("kernel-seed", text("/nonexistent/conformance.seed")));
    out.push(member("policy-key", fragment.at("policy-key").copy()));
    out.push(member("rejection-stream", text("kernel:rejections")));
    out.push(member("roots", fragment.at("roots").copy()));
    assert(member_docs(out@) =~= run_config_doc(fragment@)->Record_0);
    record(out)
}

/// What submitting something the harness built itself comes to: a refusal is the harness's fault,
/// and no verdict.
pub open spec fn acceptance(outcome: Outcome) -> Option<Fault> {
    match outcome {
        Outcome::Accepted(_) => None,
        Outcome::Rejected { reason, detail, .. } => Some(
            harness_fault(
                "the harness's own envelope was refused "@ + reason@ + ": "@ + detail@,
            ),
        ),
        Outcome::Unavailable(detail) => Some(fault(STORE_UNAVAILABLE@, detail@)),
    }
}

/// What submitting something the harness built itself comes to.
pub fn accept(outcome: &Outcome) -> (r: Result<(), Error>)
    ensures
        settles(r, acceptance(*outcome)),
{
    match outcome {
        Outcome::Accepted(_) => Ok(()),
        Outcome::Rejected { reason, detail, .. } => Err(
            harness_error(
                join4(
                    "the harness's own envelope was refused ",
                    reason.as_str(),
                    ": ",
                    detail.as_str(),
                ),
            ),
        ),
        Outcome::Unavailable(detail) => Err(Error::new(STORE_UNAVAILABLE, detail.clone())),
    }
}

// -- the component ----------------------------------------------------------------------------

/// Who a component says it is.
#[derive(Debug)]
pub struct Introduction {
    /// Its subject.
    pub subject: String,
    /// The key it signs with.
    pub key: KeyId,
    /// The stream it writes.
    pub stream: String,
}

/// The question a component is asked first: who it is.
pub fn hello() -> (r: Json)
    ensures
        r@ == Doc::Record(seq![("case"@, Doc::Text("hello"@))]),
{
    let mut out: Vec<(String, Json)> = Vec::new();
    out.push(member("case", text("hello")));
    assert(member_docs(out@) =~= seq![("case"@, Doc::Text("hello"@))]);
    record(out)
}

/// What is wrong with what a component says of itself.
pub open spec fn introduction_fault(hello: Doc) -> Option<Fault> {
    if hello.text_at("subject"@) is None {
        Some(harness_fault("the component's hello names no subject"@))
    } else if hello.text_at("key"@) is None {
        Some(harness_fault("the component's hello names no key"@))
    } else if hello.text_at("stream"@) is None {
        Some(harness_fault("the component's hello names no stream"@))
    } else if !is_key_id(hello.text_at("key"@)->0) {
        Some(bad_key_id(hello.text_at("key"@)->0))
    } else {
        None
    }
}

/// Who a component says it is.
pub fn introduction(hello: &Json) -> (r: Result<Introduction, Error>)
    ensures
        match introduction_fault(hello@) {
            Some(f) => r matches Err(e) && e@ == f,
            None => r matches Ok(i) && {
                &&& Some(i.subject@) == hello@.text_at("subject"@)
                &&& Some(i.key@) == hello@.text_at("key"@)
                &&& Some(i.stream@) == hello@.text_at("stream"@)
            },
        },
{
    let subject = match hello.text_at("subject") {
        Some(s) => s,
        None => {
            return Err(harness_error("the component's hello names no subject".to_owned()));
        },
    };
    let key = match hello.text_at("key") {
        Some(k) => k,
        None => {
            return Err(harness_error("the component's hello names no key".to_owned()));
        },
    };
    let stream = match hello.text_at("stream") {
        Some(s) => s,
        None => {
            return Err(harness_error("the component's hello names no stream".to_owned()));
        },
    };
    let key = KeyId::parse(key)?;
    Ok(Introduction { subject: subject.to_owned(), key, stream: stream.to_owned() })
}

/// Checks that the key that answers is the key the manifest was signed with: a run never certifies
/// one program against another's declaration.
pub fn check_key(introduced: &Introduction, manifest: &Manifest) -> (r: Result<(), Error>)
    ensures
        settles(
            r,
            if introduced.key@ == manifest.key() {
                None
            } else {
                Some(
                    harness_fault(
                        "the component signs as "@ + introduced.key@
                            + " and the manifest was signed by "@ + manifest.key(),
                    ),
                )
            },
        ),
{
    let declared = manifest.component_key();
    if same(introduced.key.as_str(), declared.as_str()) {
        return Ok(());
    }
    Err(
        harness_error(
            join4(
                "the component signs as ",
                introduced.key.as_str(),
                " and the manifest was signed by ",
                declared.as_str(),
            ),
        ),
    )
}

/// What a component is told with every request: the instant, its mandate, and the policy version.
pub open spec fn context_doc(at: Seq<char>, mandate_ref: Seq<char>) -> Doc {
    Doc::Record(
        seq![
            ("at"@, Doc::Text(at)),
            ("mandate-ref"@, Doc::Text(mandate_ref)),
            ("policy-version"@, Doc::Text(POLICY_VERSION@)),
        ],
    )
}

/// What a component is told with every request.
pub fn context(at: &str, mandate_ref: &str) -> (r: Json)
    ensures
        r@ == context_doc(at@, mandate_ref@),
{
    let mut out: Vec<(String, Json)> = Vec::new();
    out.push(member("at", text(at)));
    out.push(member("mandate-ref", text(mandate_ref)));
    out.push(member("policy-version", text(POLICY_VERSION)));
    assert(member_docs(out@) =~= context_doc(at@, mandate_ref@)->Record_0);
    record(out)
}

// -- the component's mandates -----------------------------------------------------------------

/// The components its mandate reaches.
pub const GRANT_COMPONENTS: [&'static str; 2] = ["gateway", "kernel"];

/// The components its brief mandate reaches.
pub const BRIEF_COMPONENTS: [&'static str; 1] = ["gateway"];

/// What a mandate reaches without a limit.
pub const ANY: [&'static str; 1] = ["*"];

/// The weight classes its mandate reaches. The record of a prohibited attempt must be accepted, so
/// the mandate covers that class too.
pub const GRANT_CLASSES: [&'static str; 4] = ["read", "benign", "consequential", "prohibited"];

/// The weight classes its brief mandate reaches.
pub const BRIEF_CLASSES: [&'static str; 1] = ["read"];

/// The grant of the mandate a component acts under.
pub fn grant_to<'a>(subject: &'a str, key: &'a KeyId, at: &'a str) -> (r: Grant<'a>)
    ensures
        r.root_subject@ == ROOT_SUBJECT@,
        r.grantee_subject@ == subject@,
        r.grantee_key == key,
        r.days == GRANT_DAYS,
        texts(r.components@) == names_of(GRANT_COMPONENTS@),
        texts(r.actions@) == names_of(ANY@),
        texts(r.classes@) == names_of(GRANT_CLASSES@),
        texts(r.resources@) == names_of(ANY@),
        r.now@ == at@,
{
    Grant {
        root_subject: ROOT_SUBJECT,
        grantee_subject: subject,
        grantee_key: key,
        days: GRANT_DAYS,
        components: owned_names(&GRANT_COMPONENTS),
        actions: owned_names(&ANY),
        classes: owned_names(&GRANT_CLASSES),
        resources: owned_names(&ANY),
        now: at,
    }
}

/// The grant of a mandate that ends before the clock is done moving.
pub fn brief_grant<'a>(subject: &'a str, key: &'a KeyId, at: &'a str) -> (r: Grant<'a>)
    ensures
        r.root_subject@ == ROOT_SUBJECT@,
        r.grantee_subject@ == subject@,
        r.grantee_key == key,
        r.days == 1,
        texts(r.components@) == names_of(BRIEF_COMPONENTS@),
        texts(r.actions@) == names_of(ANY@),
        texts(r.classes@) == names_of(BRIEF_CLASSES@),
        texts(r.resources@) == names_of(ANY@),
        r.now@ == at@,
{
    Grant {
        root_subject: ROOT_SUBJECT,
        grantee_subject: subject,
        grantee_key: key,
        days: 1,
        components: owned_names(&BRIEF_COMPONENTS),
        actions: owned_names(&ANY),
        classes: owned_names(&BRIEF_CLASSES),
        resources: owned_names(&ANY),
        now: at,
    }
}

/// The envelope that publishes a mandate, unsigned.
pub open spec fn mandate_envelope(
    agent: Seq<char>,
    head: Option<Head>,
    grant: Doc,
    at: Seq<char>,
) -> Doc {
    let (seq, prev) = next_place(head);
    envelope_doc(
        "mandate"@,
        CORE_STREAM@,
        seq,
        prev,
        at,
        identity_doc(Doc::Text(AGENT_SUBJECT@), agent, Doc::Text("kernel"@)),
        seq![("mandate"@, grant)],
    )
}

/// The envelope that publishes a mandate, unsigned.
pub fn publish_mandate(agent: &KeyId, head: &Option<Head>, grant: &Json, at: &str) -> (r: Json)
    requires
        head matches Some(h) ==> h.seq < u64::MAX,
    ensures
        r@ == mandate_envelope(agent@, *head, grant@, at@),
{
    let (seq, prev): (u64, Json) = match head {
        Some(h) => (h.seq + 1, text(h.id.as_str())),
        None => (0, Json::Null),
    };
    let mut more: Vec<(String, Json)> = Vec::new();
    more.push(member("mandate", grant.copy()));
    assert(member_docs(more@) =~= seq![("mandate"@, grant@)]);
    let emitter = identity(text(AGENT_SUBJECT), agent.as_str(), text("kernel"));
    envelope("mandate", CORE_STREAM, seq, prev, at, emitter, &more)
}

// -- approvals --------------------------------------------------------------------------------

/// What makes the request for an action on a target distinct.
pub open spec fn approval_nonce(action: Seq<char>, target: Seq<char>) -> Seq<char> {
    sha256_hex_of(vstd::utf8::encode_utf8(action + "|"@ + target)).take(32)
}

/// The request an approval of the run covers: exactly what the component is told to emit.
pub open spec fn approval_question(
    subject: Seq<char>,
    key: Seq<char>,
    mandate_ref: Seq<char>,
    action: Seq<char>,
    target: Seq<char>,
    args_hash: Seq<char>,
    at: Seq<char>,
    until: Seq<char>,
) -> Question {
    Question {
        requested_at: at,
        subject,
        key,
        component: "gateway"@,
        mandate_ref,
        policy_version: POLICY_VERSION@,
        classification: "consequential"@,
        action,
        target,
        args_hash,
        nonce: approval_nonce(action, target),
        not_after: until,
    }
}

/// The request an approval of the run covers, and until when both hold.
pub fn authorization(
    who: &Introduction,
    mandate_ref: &str,
    action: &str,
    target: &str,
    args_hash: &str,
    at: &str,
) -> (r: Result<(Json, String), Error>)
    ensures
        match shifted(at@, GRANT_SECONDS as int) {
            Err(f) => r matches Err(e) && e@ == f,
            Ok(until) => r matches Ok((q, u)) && u@ == until && q@ == request_doc(
                approval_question(
                    who.subject@,
                    who.key@,
                    mandate_ref@,
                    action@,
                    target@,
                    args_hash@,
                    at@,
                    until,
                ),
            ),
        },
{
    let until = shift(at, GRANT_SECONDS)?;
    let material = join3(action, "|", target);
    let digest = sha256_hex(material.as_str().as_bytes());
    proof {
        crate::crypto::lemma_hex_is_digest(
            crate::crypto::sha256_of(vstd::utf8::encode_utf8(material@)),
        );
    }
    let nonce = digest.as_str().substring_char(0, 32).to_owned();
    assert(nonce@ =~= approval_nonce(action@, target@));
    let request = action_request(
        &RequestTerms {
            requested_at: at.to_owned(),
            subject: who.subject.clone(),
            key: who.key.as_str().to_owned(),
            component: "gateway".to_owned(),
            mandate_ref: mandate_ref.to_owned(),
            policy_version: POLICY_VERSION.to_owned(),
            classification: "consequential".to_owned(),
            action: action.to_owned(),
            target: target.to_owned(),
            args_hash: args_hash.to_owned(),
            nonce,
            not_after: until.clone(),
        },
    );
    Ok((request, until))
}

// -- samples ----------------------------------------------------------------------------------

/// The target of a sample.
pub const SAMPLE_TARGET: &'static str = "conformance:sample";

/// The hash of what a sample of an action is given.
pub open spec fn sample_hash(action: Seq<char>) -> Seq<char> {
    sha256_hex_of(vstd::utf8::encode_utf8("conformance-sample-"@ + action))
}

/// A sample that is asked for: an action, what it is given, and whether it needs an approval.
#[derive(Debug)]
pub struct Sample {
    /// The action.
    pub action: String,
    /// The hash of what it is given.
    pub args_hash: String,
    /// Whether it needs an approval.
    pub gated: bool,
}

/// A sample that is asked for.
pub open spec fn sample_of(action: Seq<char>, declared: Doc) -> (Seq<char>, Seq<char>, bool) {
    (action, sample_hash(action), declared.text_at("class"@) == Some("consequential"@))
}

/// The samples some declarations, those before a place, ask for: one for every action they name.
pub open spec fn samples_asked(declarations: Seq<Doc>, upto: int) -> Seq<
    (Seq<char>, Seq<char>, bool),
>
    decreases upto,
{
    if upto <= 0 {
        Seq::empty()
    } else {
        let before = samples_asked(declarations, upto - 1);
        match declarations[upto - 1].text_at("action"@) {
            Some(action) => before.push(sample_of(action, declarations[upto - 1])),
            None => before,
        }
    }
}

/// What some samples stand for.
pub open spec fn sample_views(samples: Seq<Sample>) -> Seq<(Seq<char>, Seq<char>, bool)> {
    Seq::new(
        samples.len(),
        |i: int| (samples[i].action@, samples[i].args_hash@, samples[i].gated),
    )
}

/// The samples a manifest asks for: one for every action it declares.
pub fn collect_samples(manifest: &Manifest) -> (r: Vec<Sample>)
    ensures
        sample_views(r@) == samples_asked(
            manifest.doc().at("actions"@).items(),
            manifest.doc().at("actions"@).items().len() as int,
        ),
{
    let mut out: Vec<Sample> = Vec::new();
    assert(sample_views(out@) =~= Seq::empty());
    match manifest.document().at("actions").as_list() {
        None => {},
        Some(declarations) => {
            let mut i: usize = 0;
            while i < declarations.len()
                invariant
                    i <= declarations@.len(),
                    sample_views(out@) == samples_asked(docs(declarations@), i as int),
                decreases declarations@.len() - i,
            {
                let declared = &declarations[i];
                let ghost before = sample_views(out@);
                if let Some(action) = declared.text_at("action") {
                    let material = join2("conformance-sample-", action);
                    let args_hash = sha256_hex(material.as_str().as_bytes());
                    let gated = is_text(declared.at("class"), "consequential");
                    out.push(Sample { action: action.to_owned(), args_hash, gated });
                    assert(sample_views(out@) =~= before.push(sample_of(action@, declared@)));
                }
                i += 1;
            }
        },
    }
    out
}

/// What a component is asked for a sample.
pub open spec fn sample_request_doc(
    context: Doc,
    action: Seq<char>,
    args_hash: Seq<char>,
    approval: Option<Doc>,
) -> Doc {
    let head = seq![("action"@, Doc::Text(action)), ("args-hash"@, Doc::Text(args_hash))];
    let rest = seq![
        ("case"@, Doc::Text("emit"@)),
        ("context"@, context),
        ("count"@, Doc::Int(1)),
        ("target"@, Doc::Text(SAMPLE_TARGET@)),
    ];
    match approval {
        Some(a) => Doc::Record(head + seq![("authorization"@, a)] + rest),
        None => Doc::Record(head + rest),
    }
}

/// What a component is asked for a sample, with the approval where it needs one.
pub fn sample_request(context: &Json, sample: &Sample, approval: Option<&Json>) -> (r: Json)
    ensures
        r@ == sample_request_doc(
            context@,
            sample.action@,
            sample.args_hash@,
            crate::config::opt_doc(approval),
        ),
{
    let mut out: Vec<(String, Json)> = Vec::new();
    out.push(member("action", text(sample.action.as_str())));
    out.push(member("args-hash", text(sample.args_hash.as_str())));
    if let Some(a) = approval {
        out.push(member("authorization", a.copy()));
    }
    out.push(member("case", text("emit")));
    out.push(member("context", context.copy()));
    out.push(member("count", Json::Unsigned(1)));
    out.push(member("target", text(SAMPLE_TARGET)));
    assert(member_docs(out@) =~= sample_request_doc(
        context@,
        sample.action@,
        sample.args_hash@,
        crate::config::opt_doc(approval),
    )->Record_0);
    record(out)
}

/// What a component answered for a sample: its submissions, or what is wrong.
pub open spec fn sampled(action: Seq<char>, answer: Result<Json, Error>) -> Result<
    Seq<Doc>,
    Seq<char>,
> {
    match answer {
        Err(e) => Err(
            "the component could not be driven for "@ + action + ": "@ + e@.line(),
        ),
        Ok(d) => match d@.text_at("error"@) {
            Some(error) => Err(action + ": the component answered "@ + error),
            None => Ok(d@.at("submissions"@).items()),
        },
    }
}

/// What a component answered for a sample.
pub fn sample_answer(action: &str, answer: &Result<Json, Error>) -> (r: Result<Vec<Json>, String>)
    ensures
        match sampled(action@, *answer) {
            Ok(items) => r matches Ok(v) && docs(v@) == items,
            Err(m) => r matches Err(e) && e@ == m,
        },
{
    let d = match answer {
        Ok(d) => d,
        Err(e) => {
            return Err(
                join4(
                    "the component could not be driven for ",
                    action,
                    ": ",
                    e.to_line().as_str(),
                ),
            );
        },
    };
    if let Some(error) = d.text_at("error") {
        return Err(join3(action, ": the component answered ", error));
    }
    let mut out: Vec<Json> = Vec::new();
    assert(docs(out@) =~= Seq::empty());
    if let Some(items) = d.at("submissions").as_list() {
        let mut i: usize = 0;
        while i < items.len()
            invariant
                i <= items@.len(),
                docs(out@) == docs(items@).take(i as int),
            decreases items@.len() - i,
        {
            let ghost before = docs(out@);
            out.push(items[i].copy());
            assert(docs(out@) =~= before.push(items@[i as int]@));
            assert(docs(items@).take(i + 1) =~= docs(items@).take(i as int).push(
                docs(items@)[i as int],
            ));
            i += 1;
        }
        assert(docs(items@).take(i as int) =~= docs(items@));
    }
    Ok(out)
}

// -- attempts ---------------------------------------------------------------------------------

/// The first declaration, from a place on, of a weight class.
pub open spec fn first_of_class(declarations: Seq<Doc>, class: Seq<char>, from: int) -> Option<Doc>
    decreases declarations.len() - from,
{
    if from < 0 || from >= declarations.len() {
        None
    } else if declarations[from].text_at("class"@) == Some(class) {
        Some(declarations[from])
    } else {
        first_of_class(declarations, class, from + 1)
    }
}

/// The first consequential action a manifest declares.
pub open spec fn gated_action(d: Doc) -> Option<Seq<char>> {
    match first_of_class(d.at("actions"@).items(), "consequential"@, 0) {
        Some(declared) => declared.text_at("action"@),
        None => None,
    }
}

/// The first consequential action a manifest declares.
pub fn consequential_action(manifest: &Manifest) -> (r: Option<String>)
    ensures
        crate::config::opt_string(r) == gated_action(manifest.doc()),
{
    let declarations = match manifest.document().at("actions").as_list() {
        Some(d) => d,
        None => {
            return None;
        },
    };
    let ghost all = docs(declarations@);
    let mut i: usize = 0;
    while i < declarations.len()
        invariant
            i <= declarations@.len(),
            all == docs(declarations@),
            all == manifest.doc().at("actions"@).items(),
            first_of_class(all, "consequential"@, 0) == first_of_class(
                all,
                "consequential"@,
                i as int,
            ),
        decreases declarations@.len() - i,
    {
        if is_text(declarations[i].at("class"), "consequential") {
            return match declarations[i].text_at("action") {
                Some(a) => Some(a.to_owned()),
                None => None,
            };
        }
        i += 1;
    }
    None
}

/// The read actions some declarations, those before a place, name.
pub open spec fn read_names(declarations: Seq<Doc>, upto: int) -> Seq<Seq<char>>
    decreases upto,
{
    if upto <= 0 {
        Seq::empty()
    } else {
        let before = read_names(declarations, upto - 1);
        let d = declarations[upto - 1];
        if d.text_at("class"@) == Some("read"@) && d.text_at("action"@) is Some {
            before.push(d.text_at("action"@)->0)
        } else {
            before
        }
    }
}

/// The actions a component is driven through while it is cut off: the reads it declares, and one
/// that must be blocked.
pub fn offline_actions(manifest: &Manifest) -> (r: Option<(Vec<String>, String)>)
    ensures
        match gated_action(manifest.doc()) {
            None => r is None,
            Some(gated) => r matches Some((actions, g)) && g@ == gated && texts(actions@)
                == read_names(
                manifest.doc().at("actions"@).items(),
                manifest.doc().at("actions"@).items().len() as int,
            ).push(gated),
        },
{
    let gated = match consequential_action(manifest) {
        Some(g) => g,
        None => {
            return None;
        },
    };
    let mut actions: Vec<String> = Vec::new();
    assert(texts(actions@) =~= Seq::empty());
    if let Some(declarations) = manifest.document().at("actions").as_list() {
        let mut i: usize = 0;
        while i < declarations.len()
            invariant
                i <= declarations@.len(),
                texts(actions@) == read_names(docs(declarations@), i as int),
            decreases declarations@.len() - i,
        {
            let d = &declarations[i];
            let ghost before = texts(actions@);
            if is_text(d.at("class"), "read") {
                if let Some(action) = d.text_at("action") {
                    actions.push(action.to_owned());
                    assert(texts(actions@) =~= before.push(action@));
                }
            }
            i += 1;
        }
    }
    let ghost reads = texts(actions@);
    actions.push(gated.clone());
    assert(texts(actions@) =~= reads.push(gated@));
    Some((actions, gated))
}

/// The target an approval of the run names.
pub const APPROVED_TARGET: &'static str = "conformance:approved";

/// Another target than the one an approval names.
pub const OTHER_TARGET: &'static str = "conformance:elsewhere";

/// The hash of what an approved attempt is given.
pub open spec fn attempt_hash() -> Seq<char> {
    sha256_hex_of(vstd::utf8::encode_utf8("conformance-args"@))
}

/// The hash of what an approved attempt is given.
pub fn attempt_args_hash() -> (r: String)
    ensures
        r@ == attempt_hash(),
{
    sha256_hex("conformance-args".as_bytes())
}

/// An attempt under an approval.
pub open spec fn approved_attempt(
    authorization: Doc,
    action: Seq<char>,
    target: Seq<char>,
) -> Doc {
    Doc::Record(
        seq![
            ("action"@, Doc::Text(action)),
            ("args-hash"@, Doc::Text(attempt_hash())),
            ("authorization"@, authorization),
            ("target"@, Doc::Text(target)),
        ],
    )
}

/// What only the harness can produce for the attempts that must be refused: real approvals, and a
/// mandate that has run out. Both halves of each are genuine, so that a refusal is for the reason
/// that is looked for.
pub open spec fn prepared_attempts(
    gated: Option<Seq<char>>,
    authorization: Doc,
    brief: Seq<char>,
    at: Seq<char>,
) -> Doc {
    match gated {
        None => Doc::Record(Seq::empty()),
        Some(action) => Doc::Record(
            seq![
                (
                    "gate-authorization-action-mismatch"@,
                    approved_attempt(authorization, action, OTHER_TARGET@),
                ),
                (
                    "gate-authorization-missing"@,
                    Doc::Record(
                        seq![
                            ("action"@, Doc::Text(action)),
                            ("target"@, Doc::Text(APPROVED_TARGET@)),
                        ],
                    ),
                ),
                (
                    "gate-authorization-replayed"@,
                    approved_attempt(authorization, action, APPROVED_TARGET@),
                ),
                (
                    "mandate-expired"@,
                    Doc::Record(seq![("context"@, context_doc(at, brief))]),
                ),
            ],
        ),
    }
}

fn attempt_under(authorization: &Json, action: &str, target: &str) -> (r: Json)
    ensures
        r@ == approved_attempt(authorization@, action@, target@),
{
    let mut out: Vec<(String, Json)> = Vec::new();
    out.push(member("action", text(action)));
    out.push(member("args-hash", text(attempt_args_hash().as_str())));
    out.push(member("authorization", authorization.copy()));
    out.push(member("target", text(target)));
    assert(member_docs(out@) =~= approved_attempt(authorization@, action@, target@)->Record_0);
    record(out)
}

/// What only the harness can produce for the attempts that must be refused.
pub fn prepare_negatives(
    gated: Option<&str>,
    authorization: &Json,
    brief: &str,
    at: &str,
) -> (r: Json)
    ensures
        r@ == prepared_attempts(
            crate::text::opt_text(gated),
            authorization@,
            brief@,
            at@,
        ),
{
    let mut out: Vec<(String, Json)> = Vec::new();
    let action = match gated {
        Some(a) => a,
        None => {
            assert(member_docs(out@) =~= Seq::empty());
            return record(out);
        },
    };
    let mut missing: Vec<(String, Json)> = Vec::new();
    missing.push(member("action", text(action)));
    missing.push(member("target", text(APPROVED_TARGET)));
    assert(member_docs(missing@) =~= seq![
        ("action"@, Doc::Text(action@)),
        ("target"@, Doc::Text(APPROVED_TARGET@)),
    ]);
    let mut expired: Vec<(String, Json)> = Vec::new();
    expired.push(member("context", context(at, brief)));
    assert(member_docs(expired@) =~= seq![("context"@, context_doc(at@, brief@))]);
    out.push(
        member(
            "gate-authorization-action-mismatch",
            attempt_under(authorization, action, OTHER_TARGET),
        ),
    );
    out.push(member("gate-authorization-missing", record(missing)));
    out.push(
        member(
            "gate-authorization-replayed",
            attempt_under(authorization, action, APPROVED_TARGET),
        ),
    );
    out.push(member("mandate-expired", record(expired)));
    assert(member_docs(out@) =~= prepared_attempts(
        crate::text::opt_text(gated),
        authorization@,
        brief@,
        at@,
    )->Record_0);
    record(out)
}

// -- decay ------------------------------------------------------------------------------------

/// What decaying every payload of a run showed, given the stream's reports before and after. That
/// the store did not answer is no failure of the component.
pub open spec fn decay_outcome(
    stream: Seq<char>,
    before: Result<Json, Error>,
    deleted: int,
    after: Result<Json, Error>,
) -> Result<Grade, Fault> {
    match before {
        Err(e) => if e@.code == STORE_UNAVAILABLE@ {
            Err(e@)
        } else {
            Ok(Grade::Failed(stream + " did not verify before decay: "@ + e@.line()))
        },
        Ok(b) => match after {
            Ok(a) => Ok(
                decay_grade(
                    or_empty(b@.text_at("head-hash"@)),
                    or_empty(a@.text_at("head-hash"@)),
                    true,
                    deleted,
                ),
            ),
            Err(e) => if e@.code == STORE_UNAVAILABLE@ {
                Err(e@)
            } else {
                Ok(
                    decay_grade(
                        or_empty(b@.text_at("head-hash"@)),
                        Seq::empty(),
                        false,
                        deleted,
                    ),
                )
            },
        },
    }
}

/// What decaying every payload of a run showed, or that the store did not answer.
pub fn decay_group(
    stream: &str,
    before: &Result<Json, Error>,
    deleted: usize,
    after: &Result<Json, Error>,
) -> (r: Result<GroupResult, Error>)
    ensures
        match decay_outcome(stream@, *before, deleted as int, *after) {
            Ok(grade) => r matches Ok(v) && v@ == grade,
            Err(f) => r matches Err(e) && e@ == f,
        },
{
    let was = match before {
        Ok(b) => text_or_empty(b.text_at("head-hash")),
        Err(e) => {
            if same(e.code(), STORE_UNAVAILABLE) {
                return Err(e.copy());
            }
            return Ok(
                failed(join3(stream, " did not verify before decay: ", e.to_line().as_str())),
            );
        },
    };
    match after {
        Ok(a) => Ok(
            check_decay_independence(was, text_or_empty(a.text_at("head-hash")), true, deleted),
        ),
        Err(e) => {
            if same(e.code(), STORE_UNAVAILABLE) {
                return Err(e.copy());
            }
            proof {
                reveal_strlit("");
                assert(""@ =~= Seq::<char>::empty());
            }
            Ok(check_decay_independence(was, "", false, deleted))
        },
    }
}

// -- the run ----------------------------------------------------------------------------------

/// What is said where a manifest declares nothing that must be blocked.
pub const NOTHING_GATED: &'static str = "the manifest declares no consequential action, so the offline profile's central claim — that a gated action is blocked rather than applied — has nothing to be demonstrated on";

/// What the groups of a run came to.
#[derive(Debug)]
pub struct Groups {
    /// The vectors.
    pub vectors: GroupResult,
    /// The samples, or why there are none.
    pub emission: Result<GroupResult, String>,
    /// The aggregation.
    pub aggregation: GroupResult,
    /// The attempts.
    pub negatives: GroupResult,
    /// The behaviour while cut off, where the manifest declares something that must be blocked.
    pub offline: Option<GroupResult>,
    /// The durable objects.
    pub durable: GroupResult,
    /// The decay.
    pub decay: GroupResult,
}

/// What is recorded of the samples.
pub open spec fn emission_recorded(g: Result<GroupResult, String>) -> Grade {
    match g {
        Ok(r) => r@,
        Err(m) => Grade::Failed(m@),
    }
}

/// What is recorded of the behaviour while cut off.
pub open spec fn offline_recorded(g: Option<GroupResult>) -> Grade {
    match g {
        Some(r) => r@,
        None => Grade::Failed(NOTHING_GATED@),
    }
}

proof fn lemma_groups()
    ensures
        forall|g: Grade|
            !(g is NotApplicable) ==> #[trigger] is_recordable("vectors"@, g) && is_recordable(
                "per-action-emission"@,
                g,
            ) && is_recordable("aggregation"@, g) && is_recordable("negative-cases"@, g)
                && is_recordable("offline-behaviour"@, g) && is_recordable(
                "decay-independence"@,
                g,
            ),
        forall|g: Grade| #[trigger] is_recordable("durable-objects"@, g),
        "vectors"@.len() == 7,
        "per-action-emission"@.len() == 19,
        "aggregation"@.len() == 11,
        "negative-cases"@.len() == 14,
        "offline-behaviour"@.len() == 17,
        "durable-objects"@.len() == 15,
        "decay-independence"@.len() == 18,
{
    assert(REQUIRED_GROUPS@[0]@ == "vectors"@);
    assert(REQUIRED_GROUPS@[1]@ == "per-action-emission"@);
    assert(REQUIRED_GROUPS@[2]@ == "aggregation"@);
    assert(REQUIRED_GROUPS@[3]@ == "negative-cases"@);
    assert(REQUIRED_GROUPS@[4]@ == "offline-behaviour"@);
    assert(REQUIRED_GROUPS@[5]@ == "durable-objects"@);
    assert(REQUIRED_GROUPS@[6]@ == "decay-independence"@);
    assert(crate::conformance::MAY_NOT_APPLY@[0]@ == "durable-objects"@);
    reveal_strlit("vectors");
    reveal_strlit("per-action-emission");
    reveal_strlit("aggregation");
    reveal_strlit("negative-cases");
    reveal_strlit("offline-behaviour");
    reveal_strlit("durable-objects");
    reveal_strlit("decay-independence");
}

/// The result of a run: every group is recorded, and what could not be tried is recorded as
/// failed, never left out.
pub fn run(manifest: &Manifest, at: &str, groups: Groups) -> (r: Run)
    requires
        !(groups.vectors@ is NotApplicable),
        !(emission_recorded(groups.emission) is NotApplicable),
        !(groups.aggregation@ is NotApplicable),
        !(groups.negatives@ is NotApplicable),
        !(offline_recorded(groups.offline) is NotApplicable),
        !(groups.decay@ is NotApplicable),
    ensures
        r.manifest_hash@ == manifest.digest(),
        r.component@ == manifest.called(),
        r.at@ == at@,
        r.grade("vectors"@) == Some(groups.vectors@),
        r.grade("per-action-emission"@) == Some(emission_recorded(groups.emission)),
        r.grade("aggregation"@) == Some(groups.aggregation@),
        r.grade("negative-cases"@) == Some(groups.negatives@),
        r.grade("offline-behaviour"@) == Some(offline_recorded(groups.offline)),
        r.grade("durable-objects"@) == Some(groups.durable@),
        r.grade("decay-independence"@) == Some(groups.decay@),
{
    proof {
        lemma_groups();
    }
    let emission = match groups.emission {
        Ok(g) => g,
        Err(m) => failed(m),
    };
    let offline = match groups.offline {
        Some(g) => g,
        None => failed(NOTHING_GATED.to_owned()),
    };
    let mut result = Run::new(manifest.hash(), manifest.name(), at);
    assert(is_recordable("vectors"@, groups.vectors@));
    result.record("vectors", groups.vectors);
    assert(is_recordable("vectors"@, emission@));
    result.record("per-action-emission", emission);
    assert(is_recordable("vectors"@, groups.aggregation@));
    result.record("aggregation", groups.aggregation);
    assert(is_recordable("vectors"@, groups.negatives@));
    result.record("negative-cases", groups.negatives);
    assert(is_recordable("vectors"@, offline@));
    result.record("offline-behaviour", offline);
    result.record("durable-objects", groups.durable);
    assert(is_recordable("vectors"@, groups.decay@));
    result.record("decay-independence", groups.decay);
    result
}

// -- laws -------------------------------------------------------------------------------------

proof fn lemma_asked_sample(declarations: Seq<Doc>, upto: int, i: int, action: Seq<char>)
    requires
        0 <= i < upto <= declarations.len(),
        declarations[i].at("action"@) == Doc::Text(action),
    ensures
        samples_asked(declarations, upto).contains(sample_of(action, declarations[i])),
    decreases upto,
{
    let before = samples_asked(declarations, upto - 1);
    let out = samples_asked(declarations, upto);
    let wanted = sample_of(action, declarations[i]);
    if i < upto - 1 {
        lemma_asked_sample(declarations, upto - 1, i, action);
        let k = choose|k: int| 0 <= k < before.len() && before[k] == wanted;
        assert(out[k] == wanted);
    } else {
        assert(out[before.len() as int] == wanted);
    }
}

proof fn lemma_sample_is_asked(declarations: Seq<Doc>, upto: int, k: int) -> (r: int)
    requires
        0 <= upto <= declarations.len(),
        0 <= k < samples_asked(declarations, upto).len(),
    ensures
        0 <= r < upto,
        declarations[r].at("action"@) == Doc::Text(samples_asked(declarations, upto)[k].0),
        samples_asked(declarations, upto)[k].2 == (declarations[r].at("class"@) == Doc::Text(
            "consequential"@,
        )),
    decreases upto,
{
    let before = samples_asked(declarations, upto - 1);
    if k < before.len() {
        lemma_sample_is_asked(declarations, upto - 1, k)
    } else {
        upto - 1
    }
}

/// Every action that is declared is sampled, wherever it stands, and nothing else is; under an
/// approval exactly where it is consequential.
pub proof fn lemma_every_action_is_sampled(declarations: Seq<Doc>, action: Seq<char>)
    ensures
        ({
            let samples = samples_asked(declarations, declarations.len() as int);
            &&& forall|i: int|
                0 <= i < declarations.len() && (#[trigger] declarations[i]).at("action"@)
                    == Doc::Text(action) ==> samples.contains(
                    (
                        action,
                        sample_hash(action),
                        declarations[i].at("class"@) == Doc::Text("consequential"@),
                    ),
                )
            &&& forall|k: int|
                0 <= k < samples.len() ==> exists|i: int|
                    0 <= i < declarations.len() && (#[trigger] declarations[i]).at("action"@)
                        == Doc::Text((#[trigger] samples[k]).0) && samples[k].2 == (
                    declarations[i].at("class"@) == Doc::Text("consequential"@))
        }),
{
    let n = declarations.len() as int;
    let samples = samples_asked(declarations, n);
    assert forall|i: int|
        0 <= i < declarations.len() && (#[trigger] declarations[i]).at("action"@) == Doc::Text(
            action,
        ) implies samples.contains(
        (
            action,
            sample_hash(action),
            declarations[i].at("class"@) == Doc::Text("consequential"@),
        ),
    ) by {
        lemma_asked_sample(declarations, n, i, action);
    }
    assert forall|k: int| 0 <= k < samples.len() implies exists|i: int|
        0 <= i < declarations.len() && (#[trigger] declarations[i]).at("action"@) == Doc::Text(
            (#[trigger] samples[k]).0,
        ) && samples[k].2 == (declarations[i].at("class"@) == Doc::Text("consequential"@)) by {
        let i = lemma_sample_is_asked(declarations, n, k);
        assert(declarations[i].at("action"@) == Doc::Text(samples[k].0));
    }
}

/// The first declaration of a class is found wherever it stands.
pub proof fn lemma_the_first_of_a_class_is_found(
    declarations: Seq<Doc>,
    class: Seq<char>,
    from: int,
)
    requires
        0 <= from <= declarations.len(),
    ensures
        match first_of_class(declarations, class, from) {
            Some(d) => exists|k: int|
                from <= k < declarations.len() && #[trigger] declarations[k] == d && d.at("class"@)
                    == Doc::Text(class) && forall|j: int|
                    from <= j < k ==> (#[trigger] declarations[j]).at("class"@) != Doc::Text(class),
            None => forall|j: int|
                from <= j < declarations.len() ==> (#[trigger] declarations[j]).at("class"@)
                    != Doc::Text(class),
        },
    decreases declarations.len() - from,
{
    if from < declarations.len() {
        if declarations[from].text_at("class"@) == Some(class) {
            assert(declarations[from].at("class"@) == Doc::Text(class));
        } else {
            lemma_the_first_of_a_class_is_found(declarations, class, from + 1);
        }
    }
}

/// What is tried under an approval is the first consequential action that a manifest declares.
pub proof fn lemma_what_is_gated(d: Doc)
    ensures
        gated_action(d) == match first_of_class(
            d.at("actions"@).items(),
            "consequential"@,
            0,
        ) {
            Some(declared) => declared.text_at("action"@),
            None => None,
        },
        (forall|i: int|
            0 <= i < d.at("actions"@).items().len() ==> (#[trigger] d.at("actions"@).items()[i]).at(
                "class"@,
            ) != Doc::Text("consequential"@)) ==> gated_action(d) is None,
{
    lemma_the_first_of_a_class_is_found(d.at("actions"@).items(), "consequential"@, 0);
}

proof fn lemma_read_name(declarations: Seq<Doc>, upto: int, i: int, action: Seq<char>)
    requires
        0 <= i < upto <= declarations.len(),
        declarations[i].at("class"@) == Doc::Text("read"@),
        declarations[i].at("action"@) == Doc::Text(action),
    ensures
        read_names(declarations, upto).contains(action),
    decreases upto,
{
    let before = read_names(declarations, upto - 1);
    let out = read_names(declarations, upto);
    if i < upto - 1 {
        lemma_read_name(declarations, upto - 1, i, action);
        let k = choose|k: int| 0 <= k < before.len() && before[k] == action;
        assert(out[k] == action);
    } else {
        assert(out[before.len() as int] == action);
    }
}

proof fn lemma_name_is_read(declarations: Seq<Doc>, upto: int, k: int) -> (r: int)
    requires
        0 <= upto <= declarations.len(),
        0 <= k < read_names(declarations, upto).len(),
    ensures
        0 <= r < upto,
        declarations[r].at("class"@) == Doc::Text("read"@),
        declarations[r].at("action"@) == Doc::Text(read_names(declarations, upto)[k]),
    decreases upto,
{
    let before = read_names(declarations, upto - 1);
    if k < before.len() {
        lemma_name_is_read(declarations, upto - 1, k)
    } else {
        upto - 1
    }
}

/// What may be done offline is every action declared as a read, wherever it stands, and no other.
pub proof fn lemma_which_reads_go_offline(declarations: Seq<Doc>, action: Seq<char>)
    ensures
        read_names(declarations, declarations.len() as int).contains(action) <==> exists|i: int|
            0 <= i < declarations.len() && (#[trigger] declarations[i]).at("class"@) == Doc::Text(
                "read"@,
            ) && declarations[i].at("action"@) == Doc::Text(action),
{
    let n = declarations.len() as int;
    let out = read_names(declarations, n);
    if out.contains(action) {
        let k = choose|k: int| 0 <= k < out.len() && out[k] == action;
        let i = lemma_name_is_read(declarations, n, k);
        assert(declarations[i].at("class"@) == Doc::Text("read"@));
    }
    assert forall|i: int|
        0 <= i < declarations.len() && (#[trigger] declarations[i]).at("class"@) == Doc::Text(
            "read"@,
        ) && declarations[i].at("action"@) == Doc::Text(action) implies out.contains(action) by {
        lemma_read_name(declarations, n, i, action);
    }
}

/// A component has introduced itself exactly where it gives a subject, a key that is one and a
/// stream.
pub proof fn lemma_what_an_introduction_takes(hello: Doc)
    ensures
        introduction_fault(hello) is None <==> {
            &&& hello.at("subject"@) is Text && hello.at("stream"@) is Text
            &&& hello.at("key"@) matches Doc::Text(key) && is_key_id(key)
        },
{
}

/// An outage is no verdict on decay; a stream that did not verify before it fails, and otherwise
/// decay is judged by whether it verifies still and what was deleted.
pub proof fn lemma_how_decay_is_judged(
    stream: Seq<char>,
    before: Result<Json, Error>,
    deleted: int,
    after: Result<Json, Error>,
)
    ensures
        (decay_outcome(stream, before, deleted, after) matches Ok(Grade::Passed(_))) <==> before
            is Ok && after is Ok && deleted != 0 && or_empty((before->Ok_0)@.text_at("head-hash"@))
            == or_empty((after->Ok_0)@.text_at("head-hash"@)),
        decay_outcome(stream, before, deleted, after) is Err ==> (before matches Err(e) && e@.code
            == "x-store-unavailable"@) || (after matches Err(e) && e@.code
            == "x-store-unavailable"@),
{
}

/// Groups that were judged are recorded as they were, emission that could not be driven as a
/// failure, and offline behaviour that nothing could show as one too.
pub proof fn lemma_nothing_shown_is_a_failure(
    emission: Result<GroupResult, String>,
    offline: Option<GroupResult>,
)
    ensures
        emission is Err ==> emission_recorded(emission) is Failed,
        emission matches Ok(g) ==> emission_recorded(emission) == g@,
        offline is None ==> offline_recorded(offline) is Failed,
        offline matches Some(g) ==> offline_recorded(offline) == g@,
{
}

/// What is tried under an approval carries it, on the target it is tried on.
pub proof fn lemma_what_an_approved_attempt_says(authorization: Doc, action: Seq<char>, target: Seq<char>)
    ensures
        ({
            let d = approved_attempt(authorization, action, target);
            &&& d->Record_0.len() == 4
            &&& d.get("action"@) == Some(Doc::Text(action))
            &&& d.get("args-hash"@) == Some(Doc::Text(attempt_hash()))
            &&& d.get("authorization"@) == Some(authorization)
            &&& d.get("target"@) == Some(Doc::Text(target))
        }),
{
    reveal_strlit("action");
    reveal_strlit("args-hash");
    reveal_strlit("authorization");
    reveal_strlit("target");
    assert("action"@.len() == 6);
    assert("args-hash"@.len() == 9);
    assert("authorization"@.len() == 13);
    assert("target"@.len() == 6);
    assert("target"@[0] == 't');
    assert("action"@[0] == 'a');
    let members = approved_attempt(authorization, action, target)->Record_0;
    crate::json::lemma_lookup_at(members, "action"@, 0);
    crate::json::lemma_lookup_at(members, "args-hash"@, 1);
    crate::json::lemma_lookup_at(members, "authorization"@, 2);
    crate::json::lemma_lookup_at(members, "target"@, 3);
}

/// Of a consequential action four attempts are prepared: on a target that was not approved, without an
/// approval, with one that is used again, and under a mandate that has expired.
pub proof fn lemma_what_attempts_are_prepared(action: Seq<char>, authorization: Doc, brief: Seq<char>, at: Seq<char>)
    ensures
        ({
            let d = prepared_attempts(Some(action), authorization, brief, at);
            &&& d->Record_0.len() == 4
            &&& d.get("gate-authorization-action-mismatch"@) == Some(approved_attempt(authorization, action, "conformance:elsewhere"@))
            &&& d.get("gate-authorization-missing"@) == Some(Doc::Record(seq![("action"@, Doc::Text(action)), ("target"@, Doc::Text("conformance:approved"@))]))
            &&& d.get("gate-authorization-replayed"@) == Some(approved_attempt(authorization, action, "conformance:approved"@))
            &&& d.get("mandate-expired"@) == Some(Doc::Record(seq![("context"@, context_doc(at, brief))]))
        }),
{
    reveal_strlit("gate-authorization-action-mismatch");
    reveal_strlit("gate-authorization-missing");
    reveal_strlit("gate-authorization-replayed");
    reveal_strlit("mandate-expired");
    assert("gate-authorization-action-mismatch"@.len() == 34);
    assert("gate-authorization-missing"@.len() == 26);
    assert("gate-authorization-replayed"@.len() == 27);
    assert("mandate-expired"@.len() == 15);
    let members = prepared_attempts(Some(action), authorization, brief, at)->Record_0;
    crate::json::lemma_lookup_at(members, "gate-authorization-action-mismatch"@, 0);
    crate::json::lemma_lookup_at(members, "gate-authorization-missing"@, 1);
    crate::json::lemma_lookup_at(members, "gate-authorization-replayed"@, 2);
    crate::json::lemma_lookup_at(members, "mandate-expired"@, 3);
}

/// What a component is told of a run: when it is, under which mandate and which policy.
pub proof fn lemma_what_a_context_says(at: Seq<char>, mandate_ref: Seq<char>)
    ensures
        ({
            let d = context_doc(at, mandate_ref);
            &&& d->Record_0.len() == 3
            &&& d.get("at"@) == Some(Doc::Text(at))
            &&& d.get("mandate-ref"@) == Some(Doc::Text(mandate_ref))
            &&& d.get("policy-version"@) == Some(Doc::Text("conformance.1"@))
        }),
{
    reveal_strlit("at");
    reveal_strlit("mandate-ref");
    reveal_strlit("policy-version");
    assert("at"@.len() == 2);
    assert("mandate-ref"@.len() == 11);
    assert("policy-version"@.len() == 14);
    let members = context_doc(at, mandate_ref)->Record_0;
    crate::json::lemma_lookup_at(members, "at"@, 0);
    crate::json::lemma_lookup_at(members, "mandate-ref"@, 1);
    crate::json::lemma_lookup_at(members, "policy-version"@, 2);
}

/// A throwaway kernel listens to nobody, keeps nothing and knows the roots and the policy key that
/// it was founded with.
pub proof fn lemma_what_the_throwaway_kernel_is(fragment: Doc)
    ensures
        ({
            let d = run_config_doc(fragment);
            &&& d->Record_0.len() == 9
            &&& d.get("bind"@) == Some(Doc::Text("127.0.0.1:0"@))
            &&& d.get("callers"@) == Some(Doc::List(Seq::empty()))
            &&& d.get("checkpoint-stream"@) == Some(Doc::Text("kernel:checkpoints"@))
            &&& d.get("database"@) == Some(Doc::Text(":memory:"@))
            &&& d.get("kernel-core-stream"@) == Some(Doc::Text("kernel:core"@))
            &&& d.get("kernel-seed"@) == Some(Doc::Text("/nonexistent/conformance.seed"@))
            &&& d.get("policy-key"@) == Some(fragment.at("policy-key"@))
            &&& d.get("rejection-stream"@) == Some(Doc::Text("kernel:rejections"@))
            &&& d.get("roots"@) == Some(fragment.at("roots"@))
        }),
{
    reveal_strlit("bind");
    reveal_strlit("callers");
    reveal_strlit("checkpoint-stream");
    reveal_strlit("database");
    reveal_strlit("kernel-core-stream");
    reveal_strlit("kernel-seed");
    reveal_strlit("policy-key");
    reveal_strlit("rejection-stream");
    reveal_strlit("roots");
    assert("bind"@.len() == 4);
    assert("callers"@.len() == 7);
    assert("checkpoint-stream"@.len() == 17);
    assert("database"@.len() == 8);
    assert("kernel-core-stream"@.len() == 18);
    assert("kernel-seed"@.len() == 11);
    assert("policy-key"@.len() == 10);
    assert("rejection-stream"@.len() == 16);
    assert("roots"@.len() == 5);
    let members = run_config_doc(fragment)->Record_0;
    crate::json::lemma_lookup_at(members, "bind"@, 0);
    crate::json::lemma_lookup_at(members, "callers"@, 1);
    crate::json::lemma_lookup_at(members, "checkpoint-stream"@, 2);
    crate::json::lemma_lookup_at(members, "database"@, 3);
    crate::json::lemma_lookup_at(members, "kernel-core-stream"@, 4);
    crate::json::lemma_lookup_at(members, "kernel-seed"@, 5);
    crate::json::lemma_lookup_at(members, "policy-key"@, 6);
    crate::json::lemma_lookup_at(members, "rejection-stream"@, 7);
    crate::json::lemma_lookup_at(members, "roots"@, 8);
}

/// What the harness writes itself must be accepted: a refusal of it is a failure of the harness, and
/// an outage stays one.
pub proof fn lemma_what_the_harness_writes_is_accepted(outcome: Outcome)
    ensures
        acceptance(outcome) is None <==> outcome is Accepted,
        outcome is Rejected ==> acceptance(outcome)->0.code == "x-conformance-harness-failed"@,
        outcome is Unavailable ==> acceptance(outcome)->0.code == "x-store-unavailable"@,
{
}

/// An approval is asked for what is tried, by the component that tries it, under the mandate it was
/// granted, with a nonce that is drawn from the action and the target.
pub proof fn lemma_what_approval_is_asked_for(
    subject: Seq<char>,
    key: Seq<char>,
    mandate_ref: Seq<char>,
    action: Seq<char>,
    target: Seq<char>,
    args_hash: Seq<char>,
    at: Seq<char>,
    until: Seq<char>,
)
    ensures
        ({
            let d = request_doc(
                approval_question(subject, key, mandate_ref, action, target, args_hash, at, until),
            );
            &&& d.get("action"@) == Some(Doc::Text(action))
            &&& d.get("target"@) == Some(Doc::Text(target))
            &&& d.get("args-hash"@) == Some(Doc::Text(args_hash))
            &&& d.get("mandate-ref"@) == Some(Doc::Text(mandate_ref))
            &&& d.get("subject"@) == Some(Doc::Text(subject))
            &&& d.get("key"@) == Some(Doc::Text(key))
            &&& d.get("component"@) == Some(Doc::Text("gateway"@))
            &&& d.get("classification"@) == Some(Doc::Text("consequential"@))
            &&& d.get("policy-version"@) == Some(Doc::Text("conformance.1"@))
            &&& d.get("requested-at"@) == Some(Doc::Text(at))
            &&& d.get("not-after"@) == Some(Doc::Text(until))
            &&& d.get("nonce"@) == Some(
                Doc::Text(
                    sha256_hex_of(vstd::utf8::encode_utf8(action + "|"@ + target)).take(32),
                ),
            )
        }),
{
    crate::documents::lemma_what_a_request_says(
        approval_question(subject, key, mandate_ref, action, target, args_hash, at, until),
    );
}

/// A sample is asked for by its action and its arguments, once, with the approval where there is
/// one.
pub proof fn lemma_how_a_sample_is_asked_for(
    context: Doc,
    action: Seq<char>,
    args_hash: Seq<char>,
    approval: Option<Doc>,
)
    ensures
        ({
            let d = sample_request_doc(context, action, args_hash, approval);
            &&& d.get("action"@) == Some(Doc::Text(action))
            &&& d.get("args-hash"@) == Some(Doc::Text(args_hash))
            &&& d.get("authorization"@) == approval
            &&& d.get("case"@) == Some(Doc::Text("emit"@))
            &&& d.get("context"@) == Some(context)
            &&& d.get("count"@) == Some(Doc::Int(1))
            &&& d.get("target"@) == Some(Doc::Text("conformance:sample"@))
        }),
{
    reveal_strlit("action");
    reveal_strlit("args-hash");
    reveal_strlit("authorization");
    reveal_strlit("case");
    reveal_strlit("context");
    reveal_strlit("count");
    reveal_strlit("target");
    assert("action"@.len() == 6);
    assert("args-hash"@.len() == 9);
    assert("authorization"@.len() == 13);
    assert("case"@.len() == 4);
    assert("context"@.len() == 7);
    assert("count"@.len() == 5);
    assert("target"@.len() == 6);
    assert("target"@[0] == 't');
    assert("action"@[0] == 'a');
    let members = sample_request_doc(context, action, args_hash, approval)->Record_0;
    let more: int = if approval is Some {
        1
    } else {
        0
    };
    crate::json::lemma_lookup_at(members, "action"@, 0);
    crate::json::lemma_lookup_at(members, "args-hash"@, 1);
    if approval is Some {
        crate::json::lemma_lookup_at(members, "authorization"@, 2);
    } else {
        crate::json::lemma_lookup_absent(members, "authorization"@);
    }
    crate::json::lemma_lookup_at(members, "case"@, 2 + more);
    crate::json::lemma_lookup_at(members, "context"@, 3 + more);
    crate::json::lemma_lookup_at(members, "count"@, 4 + more);
    crate::json::lemma_lookup_at(members, "target"@, 5 + more);
}

/// A sample is what the component submitted, all of it, unless it could not be driven or answered
/// with an error.
pub proof fn lemma_what_is_sampled(action: Seq<char>, answer: Result<Json, Error>)
    ensures
        sampled(action, answer) is Ok <==> (answer matches Ok(d) && !(d@.at("error"@) is Text)),
        sampled(action, answer) matches Ok(items) ==> items == (answer->Ok_0)@.at(
            "submissions"@,
        ).items(),
{
}

} // verus!
