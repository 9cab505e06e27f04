//! The documents that are signed and submitted: mandates, action requests, decisions, envelopes
//! and submissions. Members stand in the order of their names.

use vstd::prelude::*;

use crate::json::{
    docs, lemma_documents_stay_well_formed, lemma_lookup_at, lemma_neighbours_in_order,
    lemma_put_then_get, list, member, member_docs, record, text, Doc, Json,
};
use crate::text::{differ_at, precedes, texts};
use crate::vocabulary::VERSION;

verus! {

/// The media type of the payloads that carry documents.
pub const DOCUMENT_MEDIA_TYPE: &'static str = "application/json";

/// Some texts as an array.
pub open spec fn text_list(items: Seq<Seq<char>>) -> Doc {
    Doc::List(Seq::new(items.len(), |i: int| Doc::Text(items[i])))
}

/// Some texts as an array.
pub fn list_of(items: &Vec<String>) -> (r: Json)
    ensures
        r@ == text_list(texts(items@)),
{
    let mut out: Vec<Json> = Vec::new();
    let mut i: usize = 0;
    while i < items.len()
        invariant
            i <= items@.len(),
            out@.len() == i,
            forall|j: int| 0 <= j < i ==> (#[trigger] out@[j])@ == Doc::Text(items@[j]@),
        decreases items@.len() - i,
    {
        out.push(text(items[i].as_str()));
        i += 1;
    }
    assert(docs(out@) =~= Seq::new(texts(items@).len(), |i: int| Doc::Text(texts(items@)[i])));
    list(out)
}

/// What some names stand for.
pub open spec fn names_of(items: Seq<&str>) -> Seq<Seq<char>> {
    Seq::new(items.len(), |i: int| items[i]@)
}

/// Some names as texts.
pub fn owned_names(items: &[&str]) -> (r: Vec<String>)
    ensures
        texts(r@) == names_of(items@),
{
    let mut out: Vec<String> = Vec::new();
    let mut i: usize = 0;
    while i < items.len()
        invariant
            i <= items@.len(),
            out@.len() == i,
            forall|j: int| 0 <= j < i ==> (#[trigger] out@[j])@ == items@[j]@,
        decreases items@.len() - i,
    {
        out.push(items[i].to_owned());
        i += 1;
    }
    assert(texts(out@) =~= names_of(items@));
    out
}

/// A text, or nothing.
pub fn text_or_nothing(s: Option<&str>) -> (r: Json)
    ensures
        r@ == crate::json::text_or_null(crate::text::opt_text(s)),
{
    match s {
        Some(t) => text(t),
        None => Json::Null,
    }
}

// -- mandates ---------------------------------------------------------------------------------

/// What a mandate lets its holder do.
#[derive(Debug)]
pub struct Scope {
    /// The components it may act through.
    pub components: Vec<String>,
    /// The actions, or patterns of them.
    pub actions: Vec<String>,
    /// The weight classes.
    pub classes: Vec<String>,
    /// The resources.
    pub resources: Vec<String>,
}

/// What a mandate lets its holder do.
pub struct Reach {
    /// The components.
    pub components: Seq<Seq<char>>,
    /// The actions.
    pub actions: Seq<Seq<char>>,
    /// The weight classes.
    pub classes: Seq<Seq<char>>,
    /// The resources.
    pub resources: Seq<Seq<char>>,
}

impl View for Scope {
    type V = Reach;

    open spec fn view(&self) -> Reach {
        Reach {
            components: texts(self.components@),
            actions: texts(self.actions@),
            classes: texts(self.classes@),
            resources: texts(self.resources@),
        }
    }
}

/// What a mandate lets its holder do, as a document.
pub open spec fn scope_doc(s: Reach) -> Doc {
    Doc::Record(
        seq![
            ("actions"@, text_list(s.actions)),
            ("classes"@, text_list(s.classes)),
            ("components"@, text_list(s.components)),
            ("resources"@, text_list(s.resources)),
        ],
    )
}

/// A mandate before it is signed.
#[derive(Debug)]
pub struct MandateTerms {
    /// Its kind.
    pub kind: String,
    /// The subject that grants it, a human.
    pub grantor: String,
    /// The key that grants it.
    pub grantor_key: String,
    /// The subject it is granted to.
    pub grantee: String,
    /// The key it is granted to.
    pub grantee_key: String,
    /// When it is issued, and from when it holds.
    pub from: String,
    /// Until when it holds.
    pub until: String,
    /// How often it may be delegated on.
    pub max_depth: u64,
    /// What it lets its holder do.
    pub scope: Scope,
    /// What makes it distinct.
    pub nonce: String,
}

/// A mandate before it is signed.
pub struct Terms {
    /// Its kind.
    pub kind: Seq<char>,
    /// The subject that grants it.
    pub grantor: Seq<char>,
    /// The key that grants it.
    pub grantor_key: Seq<char>,
    /// The subject it is granted to.
    pub grantee: Seq<char>,
    /// The key it is granted to.
    pub grantee_key: Seq<char>,
    /// From when it holds.
    pub from: Seq<char>,
    /// Until when it holds.
    pub until: Seq<char>,
    /// How often it may be delegated on.
    pub max_depth: int,
    /// What it lets its holder do.
    pub scope: Reach,
    /// What makes it distinct.
    pub nonce: Seq<char>,
}

impl View for MandateTerms {
    type V = Terms;

    open spec fn view(&self) -> Terms {
        Terms {
            kind: self.kind@,
            grantor: self.grantor@,
            grantor_key: self.grantor_key@,
            grantee: self.grantee@,
            grantee_key: self.grantee_key@,
            from: self.from@,
            until: self.until@,
            max_depth: self.max_depth as int,
            scope: self.scope@,
            nonce: self.nonce@,
        }
    }
}

/// A mandate, unsigned.
pub open spec fn mandate_doc(m: Terms) -> Doc {
    Doc::Record(
        seq![
            (
                "grantee"@,
                Doc::Record(
                    seq![
                        ("key"@, Doc::Text(m.grantee_key)),
                        ("subject"@, Doc::Text(m.grantee)),
                    ],
                ),
            ),
            (
                "grantor"@,
                Doc::Record(
                    seq![
                        ("key"@, Doc::Text(m.grantor_key)),
                        ("role"@, Doc::Text("human"@)),
                        ("subject"@, Doc::Text(m.grantor)),
                    ],
                ),
            ),
            ("issued-at"@, Doc::Text(m.from)),
            ("kind"@, Doc::Text("mandate"@)),
            ("mandate-kind"@, Doc::Text(m.kind)),
            ("max-depth"@, Doc::Int(m.max_depth)),
            ("nonce"@, Doc::Text(m.nonce)),
            ("not-after"@, Doc::Text(m.until)),
            ("not-before"@, Doc::Text(m.from)),
            ("parent"@, Doc::Null),
            ("scope"@, scope_doc(m.scope)),
            ("v"@, Doc::Text(VERSION@)),
        ],
    )
}

/// A mandate, unsigned.
pub fn mandate(m: &MandateTerms) -> (r: Json)
    ensures
        r@ == mandate_doc(m@),
{
    let mut grantee: Vec<(String, Json)> = Vec::new();
    grantee.push(member("key", text(m.grantee_key.as_str())));
    grantee.push(member("subject", text(m.grantee.as_str())));
    assert(member_docs(grantee@) =~= seq![
        ("key"@, Doc::Text(m.grantee_key@)),
        ("subject"@, Doc::Text(m.grantee@)),
    ]);
    let mut grantor: Vec<(String, Json)> = Vec::new();
    grantor.push(member("key", text(m.grantor_key.as_str())));
    grantor.push(member("role", text("human")));
    grantor.push(member("subject", text(m.grantor.as_str())));
    assert(member_docs(grantor@) =~= seq![
        ("key"@, Doc::Text(m.grantor_key@)),
        ("role"@, Doc::Text("human"@)),
        ("subject"@, Doc::Text(m.grantor@)),
    ]);
    let mut scope: Vec<(String, Json)> = Vec::new();
    scope.push(member("actions", list_of(&m.scope.actions)));
    scope.push(member("classes", list_of(&m.scope.classes)));
    scope.push(member("components", list_of(&m.scope.components)));
    scope.push(member("resources", list_of(&m.scope.resources)));
    assert(member_docs(scope@) =~= scope_doc(m.scope@)->Record_0);
    let mut out: Vec<(String, Json)> = Vec::new();
    out.push(member("grantee", record(grantee)));
    out.push(member("grantor", record(grantor)));
    out.push(member("issued-at", text(m.from.as_str())));
    out.push(member("kind", text("mandate")));
    out.push(member("mandate-kind", text(m.kind.as_str())));
    out.push(member("max-depth", Json::Unsigned(m.max_depth)));
    out.push(member("nonce", text(m.nonce.as_str())));
    out.push(member("not-after", text(m.until.as_str())));
    out.push(member("not-before", text(m.from.as_str())));
    out.push(member("parent", Json::Null));
    out.push(member("scope", record(scope)));
    out.push(member("v", text(VERSION)));
    assert(member_docs(out@) =~= mandate_doc(m@)->Record_0);
    record(out)
}

// -- requests and decisions -------------------------------------------------------------------

/// What an action request says.
#[derive(Debug)]
pub struct RequestTerms {
    /// When it is made.
    pub requested_at: String,
    /// Who asks.
    pub subject: String,
    /// The key that will sign the effect.
    pub key: String,
    /// The component that will emit it.
    pub component: String,
    /// The mandate it will cite.
    pub mandate_ref: String,
    /// The policy version in force.
    pub policy_version: String,
    /// The weight class.
    pub classification: String,
    /// The action.
    pub action: String,
    /// The thing acted upon.
    pub target: String,
    /// The hash of what the action is given.
    pub args_hash: String,
    /// What makes it distinct.
    pub nonce: String,
    /// Until when it can be answered.
    pub not_after: String,
}

/// What an action request says.
pub struct Question {
    /// When it is made.
    pub requested_at: Seq<char>,
    /// Who asks.
    pub subject: Seq<char>,
    /// The key that will sign the effect.
    pub key: Seq<char>,
    /// The component that will emit it.
    pub component: Seq<char>,
    /// The mandate it will cite.
    pub mandate_ref: Seq<char>,
    /// The policy version in force.
    pub policy_version: Seq<char>,
    /// The weight class.
    pub classification: Seq<char>,
    /// The action.
    pub action: Seq<char>,
    /// The thing acted upon.
    pub target: Seq<char>,
    /// The hash of what the action is given.
    pub args_hash: Seq<char>,
    /// What makes it distinct.
    pub nonce: Seq<char>,
    /// Until when it can be answered.
    pub not_after: Seq<char>,
}

impl View for RequestTerms {
    type V = Question;

    open spec fn view(&self) -> Question {
        Question {
            requested_at: self.requested_at@,
            subject: self.subject@,
            key: self.key@,
            component: self.component@,
            mandate_ref: self.mandate_ref@,
            policy_version: self.policy_version@,
            classification: self.classification@,
            action: self.action@,
            target: self.target@,
            args_hash: self.args_hash@,
            nonce: self.nonce@,
            not_after: self.not_after@,
        }
    }
}

/// An action request. It is not signed: its hash is what an approver signs over.
pub open spec fn request_doc(q: Question) -> Doc {
    Doc::Record(
        seq![
            ("action"@, Doc::Text(q.action)),
            ("args-hash"@, Doc::Text(q.args_hash)),
            ("classification"@, Doc::Text(q.classification)),
            ("component"@, Doc::Text(q.component)),
            ("key"@, Doc::Text(q.key)),
            ("kind"@, Doc::Text("action-request"@)),
            ("mandate-ref"@, Doc::Text(q.mandate_ref)),
            ("nonce"@, Doc::Text(q.nonce)),
            ("not-after"@, Doc::Text(q.not_after)),
            ("policy-version"@, Doc::Text(q.policy_version)),
            ("requested-at"@, Doc::Text(q.requested_at)),
            ("subject"@, Doc::Text(q.subject)),
            ("target"@, Doc::Text(q.target)),
            ("v"@, Doc::Text(VERSION@)),
        ],
    )
}

/// An action request.
pub fn action_request(q: &RequestTerms) -> (r: Json)
    ensures
        r@ == request_doc(q@),
{
    let mut out: Vec<(String, Json)> = Vec::new();
    out.push(member("action", text(q.action.as_str())));
    out.push(member("args-hash", text(q.args_hash.as_str())));
    out.push(member("classification", text(q.classification.as_str())));
    out.push(member("component", text(q.component.as_str())));
    out.push(member("key", text(q.key.as_str())));
    out.push(member("kind", text("action-request")));
    out.push(member("mandate-ref", text(q.mandate_ref.as_str())));
    out.push(member("nonce", text(q.nonce.as_str())));
    out.push(member("not-after", text(q.not_after.as_str())));
    out.push(member("policy-version", text(q.policy_version.as_str())));
    out.push(member("requested-at", text(q.requested_at.as_str())));
    out.push(member("subject", text(q.subject.as_str())));
    out.push(member("target", text(q.target.as_str())));
    out.push(member("v", text(VERSION)));
    assert(member_docs(out@) =~= request_doc(q@)->Record_0);
    record(out)
}

/// A decision over a request, unsigned: a denial where it gives a reason, and an approval of one
/// use otherwise.
pub open spec fn decision_doc(
    request_hash: Seq<char>,
    denial: Option<Seq<char>>,
    at: Seq<char>,
    until: Seq<char>,
) -> Doc {
    Doc::Record(
        seq![
            ("decided-at"@, Doc::Text(at)),
            (
                "decision"@,
                Doc::Text(
                    if denial is Some {
                        "deny"@
                    } else {
                        "approve"@
                    },
                ),
            ),
            ("kind"@, Doc::Text("gate-decision"@)),
            ("not-after"@, Doc::Text(until)),
            ("reason"@, crate::json::text_or_null(denial)),
            ("request-hash"@, Doc::Text(request_hash)),
            ("single-use"@, Doc::Bool(true)),
            ("v"@, Doc::Text(VERSION@)),
        ],
    )
}

/// A decision over a request, unsigned.
pub fn gate_decision(request_hash: &str, denial: Option<&str>, at: &str, until: &str) -> (r: Json)
    ensures
        r@ == decision_doc(request_hash@, crate::text::opt_text(denial), at@, until@),
{
    let verdict = match denial {
        Some(_) => "deny",
        None => "approve",
    };
    let mut out: Vec<(String, Json)> = Vec::new();
    out.push(member("decided-at", text(at)));
    out.push(member("decision", text(verdict)));
    out.push(member("kind", text("gate-decision")));
    out.push(member("not-after", text(until)));
    out.push(member("reason", text_or_nothing(denial)));
    out.push(member("request-hash", text(request_hash)));
    out.push(member("single-use", Json::Bool(true)));
    out.push(member("v", text(VERSION)));
    assert(member_docs(out@) =~= decision_doc(
        request_hash@,
        crate::text::opt_text(denial),
        at@,
        until@,
    )->Record_0);
    record(out)
}

/// A request and the decision over it, as an envelope carries them.
pub open spec fn authorization_doc(request: Doc, decision: Doc) -> Doc {
    Doc::Record(seq![("decision"@, decision), ("request"@, request)])
}

/// A request and the decision over it.
pub fn authorization(request: &Json, decision: &Json) -> (r: Json)
    ensures
        r@ == authorization_doc(request@, decision@),
{
    let mut out: Vec<(String, Json)> = Vec::new();
    out.push(member("decision", decision.copy()));
    out.push(member("request", request.copy()));
    assert(member_docs(out@) =~= seq![("decision"@, decision@), ("request"@, request@)]);
    record(out)
}

// -- envelopes --------------------------------------------------------------------------------

/// Who emits an envelope.
pub open spec fn identity_doc(subject: Doc, key: Seq<char>, component: Doc) -> Doc {
    Doc::Record(
        seq![("component"@, component), ("key"@, Doc::Text(key)), ("subject"@, subject)],
    )
}

/// Who emits an envelope.
pub fn identity(subject: Json, key: &str, component: Json) -> (r: Json)
    ensures
        r@ == identity_doc(subject@, key@, component@),
{
    let ghost expected = seq![
        ("component"@, component@),
        ("key"@, Doc::Text(key@)),
        ("subject"@, subject@),
    ];
    let mut out: Vec<(String, Json)> = Vec::new();
    out.push(member("component", component));
    out.push(member("key", text(key)));
    out.push(member("subject", subject));
    assert(member_docs(out@) =~= expected);
    record(out)
}

/// The members every envelope has.
pub open spec fn header_members(
    kind: Seq<char>,
    stream: Seq<char>,
    seq: int,
    prev: Doc,
    now: Seq<char>,
    emitter: Doc,
) -> Seq<(Seq<char>, Doc)> {
    seq![
        ("emitted-at"@, Doc::Text(now)),
        ("identity"@, emitter),
        ("kind"@, Doc::Text(kind)),
        ("prev-hash"@, prev),
        ("seq"@, Doc::Int(seq)),
        ("stream"@, Doc::Text(stream)),
        ("v"@, Doc::Text(VERSION@)),
    ]
}

/// A record with more members, those up to a place.
pub open spec fn extended(d: Doc, more: Seq<(Seq<char>, Doc)>, upto: int) -> Doc
    decreases upto,
{
    if upto <= 0 {
        d
    } else {
        let (name, value) = more[upto - 1];
        extended(d, more, upto - 1).with(name, value)
    }
}

/// A record with more members.
pub fn extend(d: Json, more: &Vec<(String, Json)>) -> (r: Json)
    ensures
        r@ == extended(d@, member_docs(more@), more@.len() as int),
{
    let ghost start = d@;
    let mut out = d;
    let mut i: usize = 0;
    while i < more.len()
        invariant
            i <= more@.len(),
            out@ == extended(start, member_docs(more@), i as int),
        decreases more@.len() - i,
    {
        out = out.with(more[i].0.as_str(), more[i].1.copy());
        i += 1;
    }
    out
}

/// A member that is not among those put into a record is as it was.
pub proof fn lemma_extended_keeps(
    d: Doc,
    more: Seq<(Seq<char>, Doc)>,
    upto: int,
    name: Seq<char>,
)
    requires
        d is Record,
        0 <= upto <= more.len(),
        forall|j: int| 0 <= j < upto ==> (#[trigger] more[j]).0 != name,
    ensures
        extended(d, more, upto) is Record,
        extended(d, more, upto).get(name) == d.get(name),
    decreases upto,
{
    if upto > 0 {
        lemma_extended_keeps(d, more, upto - 1, name);
        let before = extended(d, more, upto - 1);
        assert(more[upto - 1].0 != name);
        lemma_put_then_get(before->Record_0, more[upto - 1].0, more[upto - 1].1, name);
    }
}

/// A member that is put into a record, and not put in again, is read back.
pub proof fn lemma_extended_gives(d: Doc, more: Seq<(Seq<char>, Doc)>, upto: int, i: int)
    requires
        d is Record,
        0 <= i < upto <= more.len(),
        forall|j: int| i < j < upto ==> (#[trigger] more[j]).0 != more[i].0,
    ensures
        extended(d, more, upto) is Record,
        extended(d, more, upto).get(more[i].0) == Some(more[i].1),
    decreases upto,
{
    let before = extended(d, more, upto - 1);
    if i == upto - 1 {
        lemma_extended_is_record(d, more, upto - 1);
        lemma_put_then_get(before->Record_0, more[i].0, more[i].1, more[i].0);
    } else {
        lemma_extended_gives(d, more, upto - 1, i);
        assert(more[upto - 1].0 != more[i].0);
        lemma_put_then_get(before->Record_0, more[upto - 1].0, more[upto - 1].1, more[i].0);
    }
}

proof fn lemma_extended_is_record(d: Doc, more: Seq<(Seq<char>, Doc)>, upto: int)
    requires
        d is Record,
    ensures
        extended(d, more, upto) is Record,
    decreases upto,
{
    if upto > 0 {
        lemma_extended_is_record(d, more, upto - 1);
    }
}

/// Where an envelope stands is what its header says, unless the members of its kind say otherwise.
pub proof fn lemma_envelope_stands(
    kind: Seq<char>,
    stream: Seq<char>,
    seq: int,
    prev: Doc,
    now: Seq<char>,
    emitter: Doc,
    more: Seq<(Seq<char>, Doc)>,
)
    requires
        forall|j: int|
            0 <= j < more.len() ==> (#[trigger] more[j]).0 != "prev-hash"@ && more[j].0 != "seq"@
                && more[j].0 != "stream"@ && more[j].0 != "kind"@,
    ensures
        ({
            let d = envelope_doc(kind, stream, seq, prev, now, emitter, more);
            &&& d.at("prev-hash"@) == prev
            &&& d.at("seq"@) == Doc::Int(seq)
            &&& d.text_at("stream"@) == Some(stream)
            &&& d.text_at("kind"@) == Some(kind)
        }),
{
    reveal_strlit("emitted-at");
    reveal_strlit("identity");
    reveal_strlit("kind");
    reveal_strlit("prev-hash");
    reveal_strlit("seq");
    reveal_strlit("stream");
    let members = header_members(kind, stream, seq, prev, now, emitter);
    let d = Doc::Record(members);
    assert("emitted-at"@.len() == 10 && "identity"@.len() == 8 && "kind"@.len() == 4
        && "prev-hash"@.len() == 9 && "seq"@.len() == 3 && "stream"@.len() == 6);
    lemma_lookup_at(members, "prev-hash"@, 3);
    lemma_lookup_at(members, "seq"@, 4);
    lemma_lookup_at(members, "stream"@, 5);
    lemma_lookup_at(members, "kind"@, 2);
    lemma_extended_keeps(d, more, more.len() as int, "prev-hash"@);
    lemma_extended_keeps(d, more, more.len() as int, "seq"@);
    lemma_extended_keeps(d, more, more.len() as int, "stream"@);
    lemma_extended_keeps(d, more, more.len() as int, "kind"@);
}

/// An envelope, unsigned: the members every envelope has, and those of its kind.
pub open spec fn envelope_doc(
    kind: Seq<char>,
    stream: Seq<char>,
    seq: int,
    prev: Doc,
    now: Seq<char>,
    emitter: Doc,
    more: Seq<(Seq<char>, Doc)>,
) -> Doc {
    extended(
        Doc::Record(header_members(kind, stream, seq, prev, now, emitter)),
        more,
        more.len() as int,
    )
}

/// An envelope, unsigned.
pub fn envelope(
    kind: &str,
    stream: &str,
    seq: u64,
    prev: Json,
    now: &str,
    emitter: Json,
    more: &Vec<(String, Json)>,
) -> (r: Json)
    ensures
        r@ == envelope_doc(
            kind@,
            stream@,
            seq as int,
            prev@,
            now@,
            emitter@,
            member_docs(more@),
        ),
{
    let ghost expected = header_members(kind@, stream@, seq as int, prev@, now@, emitter@);
    let mut members: Vec<(String, Json)> = Vec::new();
    members.push(member("emitted-at", text(now)));
    members.push(member("identity", emitter));
    members.push(member("kind", text(kind)));
    members.push(member("prev-hash", prev));
    members.push(member("seq", Json::Unsigned(seq)));
    members.push(member("stream", text(stream)));
    members.push(member("v", text(VERSION)));
    assert(member_docs(members@) =~= expected);
    extend(record(members), more)
}

/// What was done: an action applied at one instant.
pub open spec fn execution_doc(action: Doc, target: Doc, args_hash: Doc, now: Seq<char>) -> Doc {
    Doc::Record(
        seq![
            ("action"@, action),
            ("args-hash"@, args_hash),
            ("finished-at"@, Doc::Text(now)),
            ("outcome"@, Doc::Text("applied"@)),
            ("started-at"@, Doc::Text(now)),
            ("target"@, target),
        ],
    )
}

/// What was done: an action applied at one instant.
pub fn execution(action: Json, target: Json, args_hash: Json, now: &str) -> (r: Json)
    ensures
        r@ == execution_doc(action@, target@, args_hash@, now@),
{
    let ghost expected = execution_doc(action@, target@, args_hash@, now@)->Record_0;
    let mut out: Vec<(String, Json)> = Vec::new();
    out.push(member("action", action));
    out.push(member("args-hash", args_hash));
    out.push(member("finished-at", text(now)));
    out.push(member("outcome", text("applied")));
    out.push(member("started-at", text(now)));
    out.push(member("target", target));
    assert(member_docs(out@) =~= expected);
    record(out)
}

/// The evidence an envelope commits to.
pub open spec fn evidence_doc(schema: Seq<char>, hash: Seq<char>, until: Seq<char>) -> Doc {
    Doc::Record(
        seq![
            ("media-type"@, Doc::Text(DOCUMENT_MEDIA_TYPE@)),
            ("payload-hash"@, Doc::Text(hash)),
            ("retain-until"@, Doc::Text(until)),
            ("schema"@, Doc::Text(schema)),
        ],
    )
}

/// The evidence an envelope commits to.
pub fn evidence(schema: &str, hash: &str, until: &str) -> (r: Json)
    ensures
        r@ == evidence_doc(schema@, hash@, until@),
{
    let mut out: Vec<(String, Json)> = Vec::new();
    out.push(member("media-type", text(DOCUMENT_MEDIA_TYPE)));
    out.push(member("payload-hash", text(hash)));
    out.push(member("retain-until", text(until)));
    out.push(member("schema", text(schema)));
    assert(member_docs(out@) =~= evidence_doc(schema@, hash@, until@)->Record_0);
    record(out)
}

// -- submissions ------------------------------------------------------------------------------

/// A document as the payload of a submission.
pub open spec fn payload_doc(hash: Seq<char>, document: Doc) -> Doc {
    Doc::Record(
        seq![
            ("media-type"@, Doc::Text(DOCUMENT_MEDIA_TYPE@)),
            ("payload"@, document),
            ("payload-hash"@, Doc::Text(hash)),
        ],
    )
}

/// A document as the payload of a submission.
pub fn payload(hash: &str, document: &Json) -> (r: Json)
    ensures
        r@ == payload_doc(hash@, document@),
{
    let mut out: Vec<(String, Json)> = Vec::new();
    out.push(member("media-type", text(DOCUMENT_MEDIA_TYPE)));
    out.push(member("payload", document.copy()));
    out.push(member("payload-hash", text(hash)));
    assert(member_docs(out@) =~= payload_doc(hash@, document@)->Record_0);
    record(out)
}

/// An envelope and its payloads.
pub open spec fn submission_doc(envelope: Doc, payloads: Seq<Doc>) -> Doc {
    Doc::Record(seq![("envelope"@, envelope), ("payloads"@, Doc::List(payloads))])
}

/// An envelope and its payloads.
pub fn submission(envelope: &Json, payloads: Vec<Json>) -> (r: Json)
    ensures
        r@ == submission_doc(envelope@, docs(payloads@)),
{
    let ghost expected = submission_doc(envelope@, docs(payloads@))->Record_0;
    let mut out: Vec<(String, Json)> = Vec::new();
    out.push(member("envelope", envelope.copy()));
    out.push(member("payloads", list(payloads)));
    assert(member_docs(out@) =~= expected);
    record(out)
}

// -- laws -------------------------------------------------------------------------------------

proof fn lemma_mandate_names()
    ensures
        precedes("grantee"@, "grantor"@),
        precedes("grantor"@, "issued-at"@),
        precedes("issued-at"@, "kind"@),
        precedes("kind"@, "mandate-kind"@),
        precedes("mandate-kind"@, "max-depth"@),
        precedes("max-depth"@, "nonce"@),
        precedes("nonce"@, "not-after"@),
        precedes("not-after"@, "not-before"@),
        precedes("not-before"@, "parent"@),
        precedes("parent"@, "scope"@),
        precedes("scope"@, "v"@),
{
    reveal_strlit("grantee");
    reveal_strlit("grantor");
    reveal_strlit("issued-at");
    reveal_strlit("kind");
    reveal_strlit("mandate-kind");
    reveal_strlit("max-depth");
    reveal_strlit("nonce");
    reveal_strlit("not-after");
    reveal_strlit("not-before");
    reveal_strlit("parent");
    reveal_strlit("scope");
    reveal_strlit("v");
    assert(differ_at("grantee"@, "grantor"@, 5));
    assert(differ_at("grantor"@, "issued-at"@, 0));
    assert(differ_at("issued-at"@, "kind"@, 0));
    assert(differ_at("kind"@, "mandate-kind"@, 0));
    assert(differ_at("mandate-kind"@, "max-depth"@, 2));
    assert(differ_at("max-depth"@, "nonce"@, 0));
    assert(differ_at("nonce"@, "not-after"@, 2));
    assert(differ_at("not-after"@, "not-before"@, 4));
    assert(differ_at("not-before"@, "parent"@, 0));
    assert(differ_at("parent"@, "scope"@, 0));
    assert(differ_at("scope"@, "v"@, 0));
}

proof fn lemma_scope_names()
    ensures
        precedes("actions"@, "classes"@),
        precedes("classes"@, "components"@),
        precedes("components"@, "resources"@),
{
    reveal_strlit("actions");
    reveal_strlit("classes");
    reveal_strlit("components");
    reveal_strlit("resources");
    assert(differ_at("actions"@, "classes"@, 0));
    assert(differ_at("classes"@, "components"@, 1));
    assert(differ_at("components"@, "resources"@, 0));
}

proof fn lemma_party_names()
    ensures
        precedes("key"@, "subject"@),
        precedes("key"@, "role"@),
        precedes("role"@, "subject"@),
{
    reveal_strlit("key");
    reveal_strlit("role");
    reveal_strlit("subject");
    assert(differ_at("key"@, "role"@, 0));
    assert(differ_at("role"@, "subject"@, 0));
    assert(differ_at("key"@, "subject"@, 0));
}

proof fn lemma_request_names()
    ensures
        precedes("action"@, "args-hash"@),
        precedes("args-hash"@, "classification"@),
        precedes("classification"@, "component"@),
        precedes("component"@, "key"@),
        precedes("key"@, "kind"@),
        precedes("kind"@, "mandate-ref"@),
        precedes("mandate-ref"@, "nonce"@),
        precedes("nonce"@, "not-after"@),
        precedes("not-after"@, "policy-version"@),
        precedes("policy-version"@, "requested-at"@),
        precedes("requested-at"@, "subject"@),
        precedes("subject"@, "target"@),
        precedes("target"@, "v"@),
{
    reveal_strlit("action");
    reveal_strlit("args-hash");
    reveal_strlit("classification");
    reveal_strlit("component");
    reveal_strlit("key");
    reveal_strlit("kind");
    reveal_strlit("mandate-ref");
    reveal_strlit("nonce");
    reveal_strlit("not-after");
    reveal_strlit("policy-version");
    reveal_strlit("requested-at");
    reveal_strlit("subject");
    reveal_strlit("target");
    reveal_strlit("v");
    assert(differ_at("action"@, "args-hash"@, 1));
    assert(differ_at("args-hash"@, "classification"@, 0));
    assert(differ_at("classification"@, "component"@, 1));
    assert(differ_at("component"@, "key"@, 0));
    assert(differ_at("key"@, "kind"@, 1));
    assert(differ_at("kind"@, "mandate-ref"@, 0));
    assert(differ_at("mandate-ref"@, "nonce"@, 0));
    assert(differ_at("nonce"@, "not-after"@, 2));
    assert(differ_at("not-after"@, "policy-version"@, 0));
    assert(differ_at("policy-version"@, "requested-at"@, 0));
    assert(differ_at("requested-at"@, "subject"@, 0));
    assert(differ_at("subject"@, "target"@, 0));
    assert(differ_at("target"@, "v"@, 0));
}

proof fn lemma_decision_names()
    ensures
        precedes("decided-at"@, "decision"@),
        precedes("decision"@, "kind"@),
        precedes("kind"@, "not-after"@),
        precedes("not-after"@, "reason"@),
        precedes("reason"@, "request-hash"@),
        precedes("request-hash"@, "single-use"@),
        precedes("single-use"@, "v"@),
{
    reveal_strlit("decided-at");
    reveal_strlit("decision");
    reveal_strlit("kind");
    reveal_strlit("not-after");
    reveal_strlit("reason");
    reveal_strlit("request-hash");
    reveal_strlit("single-use");
    reveal_strlit("v");
    assert(differ_at("decided-at"@, "decision"@, 4));
    assert(differ_at("decision"@, "kind"@, 0));
    assert(differ_at("kind"@, "not-after"@, 0));
    assert(differ_at("not-after"@, "reason"@, 0));
    assert(differ_at("reason"@, "request-hash"@, 2));
    assert(differ_at("request-hash"@, "single-use"@, 0));
    assert(differ_at("single-use"@, "v"@, 0));
}

proof fn lemma_authorization_names()
    ensures
        precedes("decision"@, "request"@),
{
    reveal_strlit("decision");
    reveal_strlit("request");
    assert(differ_at("decision"@, "request"@, 0));
}

proof fn lemma_identity_names()
    ensures
        precedes("component"@, "key"@),
        precedes("key"@, "subject"@),
{
    reveal_strlit("component");
    reveal_strlit("key");
    reveal_strlit("subject");
    assert(differ_at("component"@, "key"@, 0));
    assert(differ_at("key"@, "subject"@, 0));
}

proof fn lemma_header_names()
    ensures
        precedes("emitted-at"@, "identity"@),
        precedes("identity"@, "kind"@),
        precedes("kind"@, "prev-hash"@),
        precedes("prev-hash"@, "seq"@),
        precedes("seq"@, "stream"@),
        precedes("stream"@, "v"@),
{
    reveal_strlit("emitted-at");
    reveal_strlit("identity");
    reveal_strlit("kind");
    reveal_strlit("prev-hash");
    reveal_strlit("seq");
    reveal_strlit("stream");
    reveal_strlit("v");
    assert(differ_at("emitted-at"@, "identity"@, 0));
    assert(differ_at("identity"@, "kind"@, 0));
    assert(differ_at("kind"@, "prev-hash"@, 0));
    assert(differ_at("prev-hash"@, "seq"@, 0));
    assert(differ_at("seq"@, "stream"@, 1));
    assert(differ_at("stream"@, "v"@, 0));
}

proof fn lemma_execution_names()
    ensures
        precedes("action"@, "args-hash"@),
        precedes("args-hash"@, "finished-at"@),
        precedes("finished-at"@, "outcome"@),
        precedes("outcome"@, "started-at"@),
        precedes("started-at"@, "target"@),
{
    reveal_strlit("action");
    reveal_strlit("args-hash");
    reveal_strlit("finished-at");
    reveal_strlit("outcome");
    reveal_strlit("started-at");
    reveal_strlit("target");
    assert(differ_at("action"@, "args-hash"@, 1));
    assert(differ_at("args-hash"@, "finished-at"@, 0));
    assert(differ_at("finished-at"@, "outcome"@, 0));
    assert(differ_at("outcome"@, "started-at"@, 0));
    assert(differ_at("started-at"@, "target"@, 0));
}

proof fn lemma_evidence_names()
    ensures
        precedes("media-type"@, "payload-hash"@),
        precedes("payload-hash"@, "retain-until"@),
        precedes("retain-until"@, "schema"@),
{
    reveal_strlit("media-type");
    reveal_strlit("payload-hash");
    reveal_strlit("retain-until");
    reveal_strlit("schema");
    assert(differ_at("media-type"@, "payload-hash"@, 0));
    assert(differ_at("payload-hash"@, "retain-until"@, 0));
    assert(differ_at("retain-until"@, "schema"@, 0));
}

proof fn lemma_payload_names()
    ensures
        precedes("media-type"@, "payload"@),
        precedes("payload"@, "payload-hash"@),
{
    reveal_strlit("media-type");
    reveal_strlit("payload");
    reveal_strlit("payload-hash");
    assert(differ_at("media-type"@, "payload"@, 0));
    assert(differ_at("payload"@, "payload-hash"@, 7));
}

proof fn lemma_submission_names()
    ensures
        precedes("envelope"@, "payloads"@),
{
    reveal_strlit("envelope");
    reveal_strlit("payloads");
    assert(differ_at("envelope"@, "payloads"@, 0));
}

proof fn lemma_text_list_is_well_formed(items: Seq<Seq<char>>)
    ensures
        text_list(items).well_formed(),
{
    let d = text_list(items);
    assert forall|i: int| 0 <= i < d->List_0.len() implies (
    #[trigger] d->List_0[i]).well_formed() by {
        assert(d->List_0[i] == Doc::Text(items[i]));
    }
}

/// A mandate that is drawn up is well formed.
pub proof fn lemma_mandates_are_well_formed(m: Terms)
    ensures
        mandate_doc(m).well_formed(),
{
    reveal_with_fuel(Doc::well_formed, 2);
    lemma_mandate_names();
    lemma_scope_names();
    lemma_party_names();
    lemma_text_list_is_well_formed(m.scope.actions);
    lemma_text_list_is_well_formed(m.scope.classes);
    lemma_text_list_is_well_formed(m.scope.components);
    lemma_text_list_is_well_formed(m.scope.resources);
    let members = mandate_doc(m)->Record_0;
    lemma_neighbours_in_order(members);
    lemma_neighbours_in_order(members[0].1->Record_0);
    lemma_neighbours_in_order(members[1].1->Record_0);
    lemma_neighbours_in_order(scope_doc(m.scope)->Record_0);
    assert(members[0].1.well_formed());
    assert(members[1].1.well_formed());
    assert(scope_doc(m.scope).well_formed());
}

/// A request that is drawn up is well formed, and so is a decision over one.
pub proof fn lemma_requests_and_decisions_are_well_formed(
    q: Question,
    request_hash: Seq<char>,
    denial: Option<Seq<char>>,
    at: Seq<char>,
    until: Seq<char>,
)
    ensures
        request_doc(q).well_formed(),
        decision_doc(request_hash, denial, at, until).well_formed(),
{
    reveal_with_fuel(Doc::well_formed, 2);
    lemma_request_names();
    lemma_decision_names();
    lemma_neighbours_in_order(request_doc(q)->Record_0);
    lemma_neighbours_in_order(decision_doc(request_hash, denial, at, until)->Record_0);
}

/// The parts of an envelope that are drawn up are well formed, where what they are made of is.
pub proof fn lemma_parts_are_well_formed(
    a: Doc,
    b: Doc,
    c: Doc,
    s: Seq<char>,
    t: Seq<char>,
    u: Seq<char>,
)
    requires
        a.well_formed(),
        b.well_formed(),
        c.well_formed(),
    ensures
        authorization_doc(a, b).well_formed(),
        identity_doc(a, s, b).well_formed(),
        execution_doc(a, b, c, s).well_formed(),
        evidence_doc(s, t, u).well_formed(),
        payload_doc(s, a).well_formed(),
{
    reveal_with_fuel(Doc::well_formed, 2);
    lemma_authorization_names();
    lemma_identity_names();
    lemma_execution_names();
    lemma_evidence_names();
    lemma_payload_names();
    lemma_neighbours_in_order(authorization_doc(a, b)->Record_0);
    lemma_neighbours_in_order(identity_doc(a, s, b)->Record_0);
    lemma_neighbours_in_order(execution_doc(a, b, c, s)->Record_0);
    lemma_neighbours_in_order(evidence_doc(s, t, u)->Record_0);
    lemma_neighbours_in_order(payload_doc(s, a)->Record_0);
}

/// An envelope that is drawn up is well formed, whatever the members of its kind are and in whatever
/// order they are put in, where each of them is; and so is a submission of it.
pub proof fn lemma_envelopes_are_well_formed(
    kind: Seq<char>,
    stream: Seq<char>,
    seq: int,
    prev: Doc,
    now: Seq<char>,
    emitter: Doc,
    more: Seq<(Seq<char>, Doc)>,
    payloads: Seq<Doc>,
)
    requires
        prev.well_formed(),
        emitter.well_formed(),
        forall|i: int| 0 <= i < more.len() ==> (#[trigger] more[i]).1.well_formed(),
        forall|i: int| 0 <= i < payloads.len() ==> (#[trigger] payloads[i]).well_formed(),
    ensures
        ({
            let d = envelope_doc(kind, stream, seq, prev, now, emitter, more);
            d.well_formed() && submission_doc(d, payloads).well_formed()
        }),
{
    reveal_with_fuel(Doc::well_formed, 2);
    lemma_header_names();
    lemma_submission_names();
    let header = header_members(kind, stream, seq, prev, now, emitter);
    lemma_neighbours_in_order(header);
    assert(Doc::Record(header).well_formed());
    lemma_extended_is_well_formed(Doc::Record(header), more, more.len() as int);
    let d = envelope_doc(kind, stream, seq, prev, now, emitter, more);
    assert(Doc::List(payloads).well_formed());
    lemma_neighbours_in_order(submission_doc(d, payloads)->Record_0);
}

proof fn lemma_extended_is_well_formed(d: Doc, more: Seq<(Seq<char>, Doc)>, upto: int)
    requires
        d.well_formed(),
        0 <= upto <= more.len(),
        forall|i: int| 0 <= i < more.len() ==> (#[trigger] more[i]).1.well_formed(),
    ensures
        extended(d, more, upto).well_formed(),
    decreases upto,
{
    if upto > 0 {
        lemma_extended_is_well_formed(d, more, upto - 1);
        assert(more[upto - 1].1.well_formed());
        lemma_documents_stay_well_formed(
            extended(d, more, upto - 1),
            more[upto - 1].0,
            more[upto - 1].1,
        );
    }
}

/// A mandate says who grants what to whom, from when until when and how far it may be passed on; it
/// is granted by a human and has no parent.
pub proof fn lemma_what_a_mandate_says(m: Terms)
    ensures
        ({
            let d = mandate_doc(m);
            &&& d->Record_0.len() == 12
            &&& d.get("grantee"@) == Some(mandate_doc(m).at("grantee"@))
            &&& d.get("grantor"@) == Some(mandate_doc(m).at("grantor"@))
            &&& d.get("issued-at"@) == Some(Doc::Text(m.from))
            &&& d.get("kind"@) == Some(Doc::Text("mandate"@))
            &&& d.get("mandate-kind"@) == Some(Doc::Text(m.kind))
            &&& d.get("max-depth"@) == Some(Doc::Int(m.max_depth))
            &&& d.get("nonce"@) == Some(Doc::Text(m.nonce))
            &&& d.get("not-after"@) == Some(Doc::Text(m.until))
            &&& d.get("not-before"@) == Some(Doc::Text(m.from))
            &&& d.get("parent"@) == Some(Doc::Null)
            &&& d.get("scope"@) == Some(scope_doc(m.scope))
            &&& d.get("v"@) == Some(Doc::Text("stozher/0.1"@))
        }),
{
    reveal_strlit("grantee");
    reveal_strlit("grantor");
    reveal_strlit("issued-at");
    reveal_strlit("kind");
    reveal_strlit("mandate-kind");
    reveal_strlit("max-depth");
    reveal_strlit("nonce");
    reveal_strlit("not-after");
    reveal_strlit("not-before");
    reveal_strlit("parent");
    reveal_strlit("scope");
    reveal_strlit("v");
    assert("grantee"@.len() == 7);
    assert("grantor"@.len() == 7);
    assert("issued-at"@.len() == 9);
    assert("kind"@.len() == 4);
    assert("mandate-kind"@.len() == 12);
    assert("max-depth"@.len() == 9);
    assert("nonce"@.len() == 5);
    assert("not-after"@.len() == 9);
    assert("not-before"@.len() == 10);
    assert("parent"@.len() == 6);
    assert("scope"@.len() == 5);
    assert("v"@.len() == 1);
    assert("grantor"@[5] == 'o');
    assert("grantee"@[5] == 'e');
    assert("max-depth"@[0] == 'm');
    assert("issued-at"@[0] == 'i');
    assert("not-after"@[0] == 'n');
    assert("scope"@[0] == 's');
    assert("nonce"@[0] == 'n');
    let members = mandate_doc(m)->Record_0;
    crate::json::lemma_lookup_at(members, "grantee"@, 0);
    crate::json::lemma_lookup_at(members, "grantor"@, 1);
    crate::json::lemma_lookup_at(members, "issued-at"@, 2);
    crate::json::lemma_lookup_at(members, "kind"@, 3);
    crate::json::lemma_lookup_at(members, "mandate-kind"@, 4);
    crate::json::lemma_lookup_at(members, "max-depth"@, 5);
    crate::json::lemma_lookup_at(members, "nonce"@, 6);
    crate::json::lemma_lookup_at(members, "not-after"@, 7);
    crate::json::lemma_lookup_at(members, "not-before"@, 8);
    crate::json::lemma_lookup_at(members, "parent"@, 9);
    crate::json::lemma_lookup_at(members, "scope"@, 10);
    crate::json::lemma_lookup_at(members, "v"@, 11);
}

/// The parties of a mandate are told by their subjects and their keys, each in its own place.
pub proof fn lemma_who_a_mandate_binds(m: Terms)
    ensures
        ({
            let d = mandate_doc(m);
            &&& d.at("grantee"@).get("key"@) == Some(Doc::Text(m.grantee_key))
            &&& d.at("grantee"@).get("subject"@) == Some(Doc::Text(m.grantee))
            &&& d.at("grantor"@).get("key"@) == Some(Doc::Text(m.grantor_key))
            &&& d.at("grantor"@).get("role"@) == Some(Doc::Text("human"@))
            &&& d.at("grantor"@).get("subject"@) == Some(Doc::Text(m.grantor))
        }),
{
    reveal_strlit("grantee");
    reveal_strlit("grantor");
    reveal_strlit("key");
    reveal_strlit("role");
    reveal_strlit("subject");
    assert("grantee"@.len() == 7);
    assert("grantor"@.len() == 7);
    assert("key"@.len() == 3);
    assert("role"@.len() == 4);
    assert("subject"@.len() == 7);
    assert("grantor"@[5] == 'o');
    assert("grantee"@[5] == 'e');
    assert("subject"@[0] == 's');
    assert("grantee"@[0] == 'g');
    assert("grantor"@[0] == 'g');
    let members = mandate_doc(m)->Record_0;
    crate::json::lemma_lookup_at(members, "grantee"@, 0);
    crate::json::lemma_lookup_at(members, "grantor"@, 1);
    let grantee = members[0].1->Record_0;
    crate::json::lemma_lookup_at(grantee, "key"@, 0);
    crate::json::lemma_lookup_at(grantee, "subject"@, 1);
    let grantor = members[1].1->Record_0;
    crate::json::lemma_lookup_at(grantor, "key"@, 0);
    crate::json::lemma_lookup_at(grantor, "role"@, 1);
    crate::json::lemma_lookup_at(grantor, "subject"@, 2);
}

/// A scope lists its actions, classes, components and resources, each under its own name.
pub proof fn lemma_what_a_scope_says(s: Reach)
    ensures
        ({
            let d = scope_doc(s);
            &&& d->Record_0.len() == 4
            &&& d.get("actions"@) == Some(text_list(s.actions))
            &&& d.get("classes"@) == Some(text_list(s.classes))
            &&& d.get("components"@) == Some(text_list(s.components))
            &&& d.get("resources"@) == Some(text_list(s.resources))
        }),
{
    reveal_strlit("actions");
    reveal_strlit("classes");
    reveal_strlit("components");
    reveal_strlit("resources");
    assert("actions"@.len() == 7);
    assert("classes"@.len() == 7);
    assert("components"@.len() == 10);
    assert("resources"@.len() == 9);
    assert("classes"@[0] == 'c');
    assert("actions"@[0] == 'a');
    let members = scope_doc(s)->Record_0;
    crate::json::lemma_lookup_at(members, "actions"@, 0);
    crate::json::lemma_lookup_at(members, "classes"@, 1);
    crate::json::lemma_lookup_at(members, "components"@, 2);
    crate::json::lemma_lookup_at(members, "resources"@, 3);
}

/// A request says each thing that is asked of it under its own name.
pub proof fn lemma_what_a_request_says(q: Question)
    ensures
        ({
            let d = request_doc(q);
            &&& d->Record_0.len() == 14
            &&& d.get("action"@) == Some(Doc::Text(q.action))
            &&& d.get("args-hash"@) == Some(Doc::Text(q.args_hash))
            &&& d.get("classification"@) == Some(Doc::Text(q.classification))
            &&& d.get("component"@) == Some(Doc::Text(q.component))
            &&& d.get("key"@) == Some(Doc::Text(q.key))
            &&& d.get("kind"@) == Some(Doc::Text("action-request"@))
            &&& d.get("mandate-ref"@) == Some(Doc::Text(q.mandate_ref))
            &&& d.get("nonce"@) == Some(Doc::Text(q.nonce))
            &&& d.get("not-after"@) == Some(Doc::Text(q.not_after))
            &&& d.get("policy-version"@) == Some(Doc::Text(q.policy_version))
            &&& d.get("requested-at"@) == Some(Doc::Text(q.requested_at))
            &&& d.get("subject"@) == Some(Doc::Text(q.subject))
            &&& d.get("target"@) == Some(Doc::Text(q.target))
            &&& d.get("v"@) == Some(Doc::Text("stozher/0.1"@))
        }),
{
    reveal_strlit("action");
    reveal_strlit("args-hash");
    reveal_strlit("classification");
    reveal_strlit("component");
    reveal_strlit("key");
    reveal_strlit("kind");
    reveal_strlit("mandate-ref");
    reveal_strlit("nonce");
    reveal_strlit("not-after");
    reveal_strlit("policy-version");
    reveal_strlit("requested-at");
    reveal_strlit("subject");
    reveal_strlit("target");
    reveal_strlit("v");
    assert("action"@.len() == 6);
    assert("args-hash"@.len() == 9);
    assert("classification"@.len() == 14);
    assert("component"@.len() == 9);
    assert("key"@.len() == 3);
    assert("kind"@.len() == 4);
    assert("mandate-ref"@.len() == 11);
    assert("nonce"@.len() == 5);
    assert("not-after"@.len() == 9);
    assert("policy-version"@.len() == 14);
    assert("requested-at"@.len() == 12);
    assert("subject"@.len() == 7);
    assert("target"@.len() == 6);
    assert("v"@.len() == 1);
    assert("component"@[0] == 'c');
    assert("args-hash"@[0] == 'a');
    assert("not-after"@[0] == 'n');
    assert("policy-version"@[0] == 'p');
    assert("classification"@[0] == 'c');
    assert("target"@[0] == 't');
    assert("action"@[0] == 'a');
    let members = request_doc(q)->Record_0;
    crate::json::lemma_lookup_at(members, "action"@, 0);
    crate::json::lemma_lookup_at(members, "args-hash"@, 1);
    crate::json::lemma_lookup_at(members, "classification"@, 2);
    crate::json::lemma_lookup_at(members, "component"@, 3);
    crate::json::lemma_lookup_at(members, "key"@, 4);
    crate::json::lemma_lookup_at(members, "kind"@, 5);
    crate::json::lemma_lookup_at(members, "mandate-ref"@, 6);
    crate::json::lemma_lookup_at(members, "nonce"@, 7);
    crate::json::lemma_lookup_at(members, "not-after"@, 8);
    crate::json::lemma_lookup_at(members, "policy-version"@, 9);
    crate::json::lemma_lookup_at(members, "requested-at"@, 10);
    crate::json::lemma_lookup_at(members, "subject"@, 11);
    crate::json::lemma_lookup_at(members, "target"@, 12);
    crate::json::lemma_lookup_at(members, "v"@, 13);
}

/// A decision that is drawn up covers the request of its hash, once, from when until when; it denies
/// where there is a reason to and approves where there is none.
pub proof fn lemma_what_a_drawn_decision_says(request_hash: Seq<char>, denial: Option<Seq<char>>, at: Seq<char>, until: Seq<char>)
    ensures
        ({
            let d = decision_doc(request_hash, denial, at, until);
            &&& d->Record_0.len() == 8
            &&& d.get("decided-at"@) == Some(Doc::Text(at))
            &&& d.get("decision"@) == Some(Doc::Text(if denial is Some { "deny"@ } else { "approve"@ }))
            &&& d.get("kind"@) == Some(Doc::Text("gate-decision"@))
            &&& d.get("not-after"@) == Some(Doc::Text(until))
            &&& d.get("reason"@) == Some(match denial { Some(why) => Doc::Text(why), None => Doc::Null })
            &&& d.get("request-hash"@) == Some(Doc::Text(request_hash))
            &&& d.get("single-use"@) == Some(Doc::Bool(true))
            &&& d.get("v"@) == Some(Doc::Text("stozher/0.1"@))
        }),
{
    reveal_strlit("decided-at");
    reveal_strlit("decision");
    reveal_strlit("kind");
    reveal_strlit("not-after");
    reveal_strlit("reason");
    reveal_strlit("request-hash");
    reveal_strlit("single-use");
    reveal_strlit("v");
    assert("decided-at"@.len() == 10);
    assert("decision"@.len() == 8);
    assert("kind"@.len() == 4);
    assert("not-after"@.len() == 9);
    assert("reason"@.len() == 6);
    assert("request-hash"@.len() == 12);
    assert("single-use"@.len() == 10);
    assert("v"@.len() == 1);
    assert("single-use"@[0] == 's');
    assert("decided-at"@[0] == 'd');
    let members = decision_doc(request_hash, denial, at, until)->Record_0;
    crate::json::lemma_lookup_at(members, "decided-at"@, 0);
    crate::json::lemma_lookup_at(members, "decision"@, 1);
    crate::json::lemma_lookup_at(members, "kind"@, 2);
    crate::json::lemma_lookup_at(members, "not-after"@, 3);
    crate::json::lemma_lookup_at(members, "reason"@, 4);
    crate::json::lemma_lookup_at(members, "request-hash"@, 5);
    crate::json::lemma_lookup_at(members, "single-use"@, 6);
    crate::json::lemma_lookup_at(members, "v"@, 7);
}

/// An identity says who acts, by which key and in which component.
pub proof fn lemma_what_an_identity_says(subject: Doc, key: Seq<char>, component: Doc)
    ensures
        ({
            let d = identity_doc(subject, key, component);
            &&& d->Record_0.len() == 3
            &&& d.get("component"@) == Some(component)
            &&& d.get("key"@) == Some(Doc::Text(key))
            &&& d.get("subject"@) == Some(subject)
        }),
{
    reveal_strlit("component");
    reveal_strlit("key");
    reveal_strlit("subject");
    assert("component"@.len() == 9);
    assert("key"@.len() == 3);
    assert("subject"@.len() == 7);
    let members = identity_doc(subject, key, component)->Record_0;
    crate::json::lemma_lookup_at(members, "component"@, 0);
    crate::json::lemma_lookup_at(members, "key"@, 1);
    crate::json::lemma_lookup_at(members, "subject"@, 2);
}

/// What the kernel executes it has applied, where and on what is said, begun and ended at once.
pub proof fn lemma_what_an_execution_says(action: Doc, target: Doc, args_hash: Doc, now: Seq<char>)
    ensures
        ({
            let d = execution_doc(action, target, args_hash, now);
            &&& d->Record_0.len() == 6
            &&& d.get("action"@) == Some(action)
            &&& d.get("args-hash"@) == Some(args_hash)
            &&& d.get("finished-at"@) == Some(Doc::Text(now))
            &&& d.get("outcome"@) == Some(Doc::Text("applied"@))
            &&& d.get("started-at"@) == Some(Doc::Text(now))
            &&& d.get("target"@) == Some(target)
        }),
{
    reveal_strlit("action");
    reveal_strlit("args-hash");
    reveal_strlit("finished-at");
    reveal_strlit("outcome");
    reveal_strlit("started-at");
    reveal_strlit("target");
    assert("action"@.len() == 6);
    assert("args-hash"@.len() == 9);
    assert("finished-at"@.len() == 11);
    assert("outcome"@.len() == 7);
    assert("started-at"@.len() == 10);
    assert("target"@.len() == 6);
    assert("target"@[0] == 't');
    assert("action"@[0] == 'a');
    let members = execution_doc(action, target, args_hash, now)->Record_0;
    crate::json::lemma_lookup_at(members, "action"@, 0);
    crate::json::lemma_lookup_at(members, "args-hash"@, 1);
    crate::json::lemma_lookup_at(members, "finished-at"@, 2);
    crate::json::lemma_lookup_at(members, "outcome"@, 3);
    crate::json::lemma_lookup_at(members, "started-at"@, 4);
    crate::json::lemma_lookup_at(members, "target"@, 5);
}

/// Evidence says of which schema and type it is, what it hashes to and how long it is kept.
pub proof fn lemma_what_evidence_says(schema: Seq<char>, hash: Seq<char>, until: Seq<char>)
    ensures
        ({
            let d = evidence_doc(schema, hash, until);
            &&& d->Record_0.len() == 4
            &&& d.get("media-type"@) == Some(Doc::Text("application/json"@))
            &&& d.get("payload-hash"@) == Some(Doc::Text(hash))
            &&& d.get("retain-until"@) == Some(Doc::Text(until))
            &&& d.get("schema"@) == Some(Doc::Text(schema))
        }),
{
    reveal_strlit("media-type");
    reveal_strlit("payload-hash");
    reveal_strlit("retain-until");
    reveal_strlit("schema");
    assert("media-type"@.len() == 10);
    assert("payload-hash"@.len() == 12);
    assert("retain-until"@.len() == 12);
    assert("schema"@.len() == 6);
    assert("retain-until"@[0] == 'r');
    assert("payload-hash"@[0] == 'p');
    let members = evidence_doc(schema, hash, until)->Record_0;
    crate::json::lemma_lookup_at(members, "media-type"@, 0);
    crate::json::lemma_lookup_at(members, "payload-hash"@, 1);
    crate::json::lemma_lookup_at(members, "retain-until"@, 2);
    crate::json::lemma_lookup_at(members, "schema"@, 3);
}

/// A payload is the document, under its hash and as what it is.
pub proof fn lemma_what_a_payload_says(hash: Seq<char>, document: Doc)
    ensures
        ({
            let d = payload_doc(hash, document);
            &&& d->Record_0.len() == 3
            &&& d.get("media-type"@) == Some(Doc::Text("application/json"@))
            &&& d.get("payload"@) == Some(document)
            &&& d.get("payload-hash"@) == Some(Doc::Text(hash))
        }),
{
    reveal_strlit("media-type");
    reveal_strlit("payload");
    reveal_strlit("payload-hash");
    assert("media-type"@.len() == 10);
    assert("payload"@.len() == 7);
    assert("payload-hash"@.len() == 12);
    let members = payload_doc(hash, document)->Record_0;
    crate::json::lemma_lookup_at(members, "media-type"@, 0);
    crate::json::lemma_lookup_at(members, "payload"@, 1);
    crate::json::lemma_lookup_at(members, "payload-hash"@, 2);
}

/// What is submitted is the envelope and what it commits to.
pub proof fn lemma_what_is_submitted(envelope: Doc, payloads: Seq<Doc>)
    ensures
        ({
            let d = submission_doc(envelope, payloads);
            &&& d->Record_0.len() == 2
            &&& d.get("envelope"@) == Some(envelope)
            &&& d.get("payloads"@) == Some(Doc::List(payloads))
        }),
{
    reveal_strlit("envelope");
    reveal_strlit("payloads");
    assert("envelope"@.len() == 8);
    assert("payloads"@.len() == 8);
    assert("payloads"@[0] == 'p');
    assert("envelope"@[0] == 'e');
    let members = submission_doc(envelope, payloads)->Record_0;
    crate::json::lemma_lookup_at(members, "envelope"@, 0);
    crate::json::lemma_lookup_at(members, "payloads"@, 1);
}

/// An authorization is a request and the decision on it.
pub proof fn lemma_what_an_authorization_says(request: Doc, decision: Doc)
    ensures
        ({
            let d = authorization_doc(request, decision);
            &&& d->Record_0.len() == 2
            &&& d.get("decision"@) == Some(decision)
            &&& d.get("request"@) == Some(request)
        }),
{
    reveal_strlit("decision");
    reveal_strlit("request");
    assert("decision"@.len() == 8);
    assert("request"@.len() == 7);
    let members = authorization_doc(request, decision)->Record_0;
    crate::json::lemma_lookup_at(members, "decision"@, 0);
    crate::json::lemma_lookup_at(members, "request"@, 1);
}

/// The header of an envelope says what it is, where it stands, behind what, when and by whom.
pub proof fn lemma_what_a_header_says(kind: Seq<char>, stream: Seq<char>, seq: int, prev: Doc, now: Seq<char>, emitter: Doc)
    ensures
        ({
            let d = Doc::Record(header_members(kind, stream, seq, prev, now, emitter));
            &&& d->Record_0.len() == 7
            &&& d.get("emitted-at"@) == Some(Doc::Text(now))
            &&& d.get("identity"@) == Some(emitter)
            &&& d.get("kind"@) == Some(Doc::Text(kind))
            &&& d.get("prev-hash"@) == Some(prev)
            &&& d.get("seq"@) == Some(Doc::Int(seq))
            &&& d.get("stream"@) == Some(Doc::Text(stream))
            &&& d.get("v"@) == Some(Doc::Text("stozher/0.1"@))
        }),
{
    reveal_strlit("emitted-at");
    reveal_strlit("identity");
    reveal_strlit("kind");
    reveal_strlit("prev-hash");
    reveal_strlit("seq");
    reveal_strlit("stream");
    reveal_strlit("v");
    assert("emitted-at"@.len() == 10);
    assert("identity"@.len() == 8);
    assert("kind"@.len() == 4);
    assert("prev-hash"@.len() == 9);
    assert("seq"@.len() == 3);
    assert("stream"@.len() == 6);
    assert("v"@.len() == 1);
    let members = Doc::Record(header_members(kind, stream, seq, prev, now, emitter))->Record_0;
    crate::json::lemma_lookup_at(members, "emitted-at"@, 0);
    crate::json::lemma_lookup_at(members, "identity"@, 1);
    crate::json::lemma_lookup_at(members, "kind"@, 2);
    crate::json::lemma_lookup_at(members, "prev-hash"@, 3);
    crate::json::lemma_lookup_at(members, "seq"@, 4);
    crate::json::lemma_lookup_at(members, "stream"@, 5);
    crate::json::lemma_lookup_at(members, "v"@, 6);
}

} // verus!
