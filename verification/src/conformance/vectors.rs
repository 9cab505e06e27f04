//! The group that asks a component to reproduce the expected values of a corpus of vectors.
//!
//! The component is sent inputs only: every member that is an answer is taken out first, and what
//! comes back is held against it.

use vstd::prelude::*;

use crate::conformance::declared::capped;
use crate::conformance::{failed, Grade, GroupResult};
use crate::json::{
    compact, distinct, docs, is_text, lemma_in_order_is_distinct, lemma_removed_is_gone,
    lemma_removed_keeps_others, list, member, member_docs, named, one_of, record, text, Doc, Json,
};
use crate::text::{debug_list, join2, join3, join5, pieces, quoted_list, same, split, texts};

verus! {

/// The kinds of vectors a component must answer.
pub const VECTOR_KINDS: [&'static str; 5] = ["jcs", "sha256", "ed25519", "object-hash", "chain"];

/// What a canonicalization vector expects.
pub const JCS_ANSWERS: [&'static str; 2] = ["canonical", "canonical-sha256"];

/// What a hashing vector expects.
pub const SHA256_ANSWERS: [&'static str; 1] = ["sha256"];

/// What a signing vector expects.
pub const ED25519_ANSWERS: [&'static str; 2] = ["signature", "verifies"];

/// What a vector on the hash of an object expects.
pub const OBJECT_HASH_ANSWERS: [&'static str; 5] = [
    "expected-jcs",
    "expected-object-hash",
    "expected-signing-input",
    "expected-signing-input-sha256",
    "expected-signature-valid",
];

/// What a vector on a chain expects.
pub const CHAIN_ANSWERS: [&'static str; 1] = ["expected"];

/// The members of a vector of a kind that are answers rather than inputs.
pub open spec fn answers_of(kind: Seq<char>) -> Seq<&'static str> {
    if kind == "jcs"@ {
        JCS_ANSWERS@
    } else if kind == "sha256"@ {
        SHA256_ANSWERS@
    } else if kind == "ed25519"@ {
        ED25519_ANSWERS@
    } else if kind == "object-hash"@ {
        OBJECT_HASH_ANSWERS@
    } else {
        CHAIN_ANSWERS@
    }
}

/// The names in an array, as a list.
fn listed(names: &[&'static str]) -> (r: Vec<&'static str>)
    ensures
        r@ == names@,
{
    let mut out: Vec<&'static str> = Vec::new();
    let mut i: usize = 0;
    while i < names.len()
        invariant
            i <= names@.len(),
            out@ == names@.take(i as int),
        decreases names@.len() - i,
    {
        out.push(names[i]);
        i += 1;
        assert(out@ =~= names@.take(i as int));
    }
    assert(names@.take(i as int) =~= names@);
    out
}

/// The members of a vector of a kind that are answers rather than inputs.
pub fn vector_answers(kind: &str) -> (r: Vec<&'static str>)
    ensures
        r@ == answers_of(kind@),
{
    if same(kind, "jcs") {
        listed(&JCS_ANSWERS)
    } else if same(kind, "sha256") {
        listed(&SHA256_ANSWERS)
    } else if same(kind, "ed25519") {
        listed(&ED25519_ANSWERS)
    } else if same(kind, "object-hash") {
        listed(&OBJECT_HASH_ANSWERS)
    } else {
        listed(&CHAIN_ANSWERS)
    }
}

// -- what is asked ----------------------------------------------------------------------------

/// Whether a member is an answer in a vector. A signature is one where the vector gives the key to
/// make it with, and an input where it is to be verified.
pub open spec fn is_answer(vector: Doc, kind: Seq<char>, name: Seq<char>) -> bool {
    name != "signature"@ || kind != "ed25519"@ || vector.at("secret-key"@) != Doc::Null
}

/// A vector without its answers, and its answers, up to a place of their names.
pub open spec fn parted(
    vector: Doc,
    kind: Seq<char>,
    names: Seq<&'static str>,
    upto: int,
) -> (Doc, Doc)
    decreases upto,
{
    if upto <= 0 {
        (vector, Doc::Record(Seq::empty()))
    } else {
        let (request, wanted) = parted(vector, kind, names, upto - 1);
        let name = names[upto - 1]@;
        match request.get(name) {
            Some(value) => if is_answer(vector, kind, name) {
                (request.without(name), wanted.with(name, value))
            } else {
                (request, wanted)
            },
            None => (request, wanted),
        }
    }
}

/// What is asked of a component, and what is expected of it: the requests, and the answers by the
/// identifier of each.
pub struct Asking {
    /// The requests.
    pub requests: Seq<Doc>,
    /// The expected answers.
    pub expected: Doc,
}

/// What is asked with one more vector of a kind.
pub open spec fn asking_one(vector: Doc, kind: Seq<char>, before: Asking) -> Result<
    Asking,
    Seq<char>,
> {
    let names = answers_of(kind);
    let (request, wanted) = parted(vector, kind, names, names.len() as int);
    match vector.text_at("name"@) {
        None => Err("a "@ + kind + " vector has no name, so the corpus is unusable"@),
        Some(name) => if wanted == Doc::Record(Seq::empty()) {
            Ok(before)
        } else {
            let id = kind + "/"@ + name;
            Ok(
                Asking {
                    requests: before.requests.push(
                        request.with("id"@, Doc::Text(id)).with("kind"@, Doc::Text(kind)),
                    ),
                    expected: before.expected.with(id, wanted),
                },
            )
        },
    }
}

/// What is asked with more vectors of a kind, from a place on.
pub open spec fn asking_all(
    vectors: Seq<Doc>,
    kind: Seq<char>,
    from: int,
    before: Asking,
) -> Result<Asking, Seq<char>>
    decreases vectors.len() - from,
{
    if from >= vectors.len() {
        Ok(before)
    } else {
        match asking_one(vectors[from], kind, before) {
            Err(why) => Err(why),
            Ok(after) => asking_all(vectors, kind, from + 1, after),
        }
    }
}

/// Whether a document of the corpus is of a kind that is asked.
pub open spec fn is_asked(document: Doc) -> bool {
    document.text_at("kind"@) is Some && named(VECTOR_KINDS@, document.text_at("kind"@)->0)
}

/// What is asked with more documents of the corpus, from a place on.
pub open spec fn asking_documents(documents: Seq<Doc>, from: int, before: Asking) -> Result<
    Asking,
    Seq<char>,
>
    decreases documents.len() - from,
{
    if from >= documents.len() {
        Ok(before)
    } else if !is_asked(documents[from]) {
        asking_documents(documents, from + 1, before)
    } else {
        match asking_all(
            documents[from].at("vectors"@).items(),
            documents[from].text_at("kind"@)->0,
            0,
            before,
        ) {
            Err(why) => Err(why),
            Ok(after) => asking_documents(documents, from + 1, after),
        }
    }
}

/// Whether the corpus has a document of a kind.
pub open spec fn has_kind(documents: Seq<Doc>, kind: Seq<char>) -> bool {
    exists|i: int|
        0 <= i < documents.len() && (#[trigger] documents[i]).text_at("kind"@) == Some(kind)
}

/// The kinds, up to a place, that the corpus has no document of.
pub open spec fn missing_kinds(documents: Seq<Doc>, upto: int) -> Seq<Seq<char>>
    decreases upto,
{
    if upto <= 0 {
        Seq::empty()
    } else {
        let before = missing_kinds(documents, upto - 1);
        let kind = VECTOR_KINDS@[upto - 1]@;
        if has_kind(documents, kind) {
            before
        } else {
            before.push(kind)
        }
    }
}

/// Nothing asked yet.
pub open spec fn nothing_asked() -> Asking {
    Asking { requests: Seq::empty(), expected: Doc::Record(Seq::empty()) }
}

/// What is asked with a corpus, or why it is unusable: every kind must be there, and something
/// must be asked.
pub open spec fn asking(documents: Seq<Doc>) -> Result<Asking, Seq<char>> {
    let missing = missing_kinds(documents, VECTOR_KINDS@.len() as int);
    match asking_documents(documents, 0, nothing_asked()) {
        Err(why) => Err(why),
        Ok(asked) => if missing.len() > 0 {
            Err(
                "the corpus handed to the harness has no vectors of kind "@ + quoted_list(missing),
            )
        } else if asked.requests.len() == 0 {
            Err("the corpus contains no vectors, so nothing was asked"@)
        } else {
            Ok(asked)
        },
    }
}

/// What is asked of a component, and what is expected of it.
#[derive(Debug)]
pub struct VectorPlan {
    /// The requests, without their answers.
    pub requests: Vec<Json>,
    /// The expected answers, by the identifier of each request.
    pub expected: Json,
}

impl View for VectorPlan {
    type V = Asking;

    open spec fn view(&self) -> Asking {
        Asking { requests: docs(self.requests@), expected: self.expected@ }
    }
}

/// A record with no members.
fn empty_record() -> (r: Json)
    ensures
        r@ == Doc::Record(Seq::empty()),
{
    let none: Vec<(String, Json)> = Vec::new();
    assert(member_docs(none@) =~= Seq::empty());
    record(none)
}

fn part(vector: &Json, kind: &str) -> (r: (Json, Json))
    ensures
        (r.0@, r.1@) == parted(vector@, kind@, answers_of(kind@), answers_of(kind@).len() as int),
{
    let names = vector_answers(kind);
    let mut request = vector.copy();
    let mut wanted = empty_record();
    let secret = !vector.at("secret-key").is_null();
    let mut i: usize = 0;
    while i < names.len()
        invariant
            i <= names@.len(),
            names@ == answers_of(kind@),
            secret == (vector@.at("secret-key"@) != Doc::Null),
            (request@, wanted@) == parted(vector@, kind@, names@, i as int),
        decreases names@.len() - i,
    {
        let name = names[i];
        if !same(name, "signature") || !same(kind, "ed25519") || secret {
            let found = match request.get(name) {
                Some(value) => Some(value.copy()),
                None => None,
            };
            if let Some(value) = found {
                request = request.without(name);
                wanted = wanted.with(name, value);
            }
        }
        i += 1;
    }
    (request, wanted)
}

/// Whether a document is a record with no members.
fn is_empty_record(d: &Json) -> (r: bool)
    ensures
        r == (d@ == Doc::Record(Seq::empty())),
{
    match d.as_record() {
        Some(members) => {
            let empty = members.len() == 0;
            proof {
                assert(member_docs(members@).len() == members@.len());
                if empty {
                    assert(member_docs(members@) =~= Seq::empty());
                }
            }
            empty
        },
        None => false,
    }
}

fn ask_vector(vector: &Json, kind: &str, plan: VectorPlan) -> (r: Result<VectorPlan, String>)
    ensures
        match asking_one(vector@, kind@, plan@) {
            Ok(after) => r matches Ok(v) && v@ == after,
            Err(why) => r matches Err(e) && e@ == why,
        },
{
    let name = match vector.text_at("name") {
        Some(name) => name,
        None => {
            return Err(join3("a ", kind, " vector has no name, so the corpus is unusable"));
        },
    };
    let (request, wanted) = part(vector, kind);
    if is_empty_record(&wanted) {
        return Ok(plan);
    }
    let id = join3(kind, "/", name);
    let ghost before = docs(plan.requests@);
    let mut requests = plan.requests;
    let asked = request.with("id", text(id.as_str())).with("kind", text(kind));
    let ghost asked_doc = asked@;
    requests.push(asked);
    assert(docs(requests@) =~= before.push(asked_doc));
    Ok(VectorPlan { requests, expected: plan.expected.with(id.as_str(), wanted) })
}

fn ask_vectors(vectors: &Vec<Json>, kind: &str, plan: VectorPlan) -> (r: Result<
    VectorPlan,
    String,
>)
    ensures
        match asking_all(docs(vectors@), kind@, 0, plan@) {
            Ok(after) => r matches Ok(v) && v@ == after,
            Err(why) => r matches Err(e) && e@ == why,
        },
{
    let ghost start = plan@;
    let mut so_far = plan;
    let mut i: usize = 0;
    while i < vectors.len()
        invariant
            i <= vectors@.len(),
            start == plan@,
            asking_all(docs(vectors@), kind@, 0, start) == asking_all(
                docs(vectors@),
                kind@,
                i as int,
                so_far@,
            ),
        decreases vectors@.len() - i,
    {
        so_far = ask_vector(&vectors[i], kind, so_far)?;
        i += 1;
    }
    Ok(so_far)
}

fn ask_documents(documents: &Vec<Json>) -> (r: Result<VectorPlan, String>)
    ensures
        match asking_documents(docs(documents@), 0, nothing_asked()) {
            Ok(after) => r matches Ok(v) && v@ == after,
            Err(why) => r matches Err(e) && e@ == why,
        },
{
    let mut so_far = VectorPlan { requests: Vec::new(), expected: empty_record() };
    assert(docs(so_far.requests@) =~= Seq::empty());
    let none: Vec<Json> = Vec::new();
    assert(docs(none@) =~= Seq::empty());
    let mut i: usize = 0;
    while i < documents.len()
        invariant
            i <= documents@.len(),
            docs(none@) == Seq::<Doc>::empty(),
            asking_documents(docs(documents@), 0, nothing_asked()) == asking_documents(
                docs(documents@),
                i as int,
                so_far@,
            ),
        decreases documents@.len() - i,
    {
        if let Some(kind) = documents[i].text_at("kind") {
            if one_of(kind, &VECTOR_KINDS) {
                let vectors = match documents[i].at("vectors").as_list() {
                    Some(vectors) => vectors,
                    None => &none,
                };
                so_far = ask_vectors(vectors, kind, so_far)?;
            }
        }
        i += 1;
    }
    Ok(so_far)
}

fn kind_is_there(documents: &Vec<Json>, kind: &str) -> (r: bool)
    ensures
        r == has_kind(docs(documents@), kind@),
{
    let mut i: usize = 0;
    while i < documents.len()
        invariant
            i <= documents@.len(),
            forall|j: int|
                0 <= j < i ==> (#[trigger] docs(documents@)[j]).text_at("kind"@) != Some(kind@),
        decreases documents@.len() - i,
    {
        if is_text(documents[i].at("kind"), kind) {
            assert(docs(documents@)[i as int].text_at("kind"@) == Some(kind@));
            return true;
        }
        i += 1;
    }
    false
}

fn find_missing_kinds(documents: &Vec<Json>) -> (r: Vec<String>)
    ensures
        texts(r@) == missing_kinds(docs(documents@), VECTOR_KINDS@.len() as int),
{
    let mut out: Vec<String> = Vec::new();
    assert(texts(out@) =~= Seq::empty());
    let mut i: usize = 0;
    while i < VECTOR_KINDS.len()
        invariant
            i <= VECTOR_KINDS@.len(),
            texts(out@) == missing_kinds(docs(documents@), i as int),
        decreases VECTOR_KINDS@.len() - i,
    {
        let kind = VECTOR_KINDS[i];
        let ghost before = texts(out@);
        if !kind_is_there(documents, kind) {
            out.push(kind.to_owned());
            assert(texts(out@) =~= before.push(kind@));
        }
        i += 1;
    }
    out
}

/// Draws up what is asked of a component with a corpus, or says why the corpus is unusable.
pub fn vector_requests(documents: &Vec<Json>) -> (r: Result<VectorPlan, String>)
    ensures
        match asking(docs(documents@)) {
            Ok(asked) => r matches Ok(v) && v@ == asked,
            Err(why) => r matches Err(e) && e@ == why,
        },
{
    let plan = ask_documents(documents)?;
    let missing = find_missing_kinds(documents);
    if missing.len() > 0 {
        return Err(
            join2(
                "the corpus handed to the harness has no vectors of kind ",
                debug_list(&missing).as_str(),
            ),
        );
    }
    if plan.requests.len() == 0 {
        return Err("the corpus contains no vectors, so nothing was asked".to_owned());
    }
    Ok(plan)
}

// -- what is answered -------------------------------------------------------------------------

/// The question a component is asked for the vectors: all of them at once.
pub open spec fn vectors_question_doc(requests: Seq<Doc>) -> Doc {
    Doc::Record(
        seq![("case"@, Doc::Text("vectors"@)), ("vectors"@, Doc::List(requests))],
    )
}

/// The question a component is asked for the vectors.
pub fn vectors_question(requests: Vec<Json>) -> (r: Json)
    ensures
        r@ == vectors_question_doc(docs(requests@)),
{
    let ghost asked = docs(requests@);
    let mut out: Vec<(String, Json)> = Vec::new();
    out.push(member("case", text("vectors")));
    out.push(member("vectors", list(requests)));
    assert(member_docs(out@) =~= vectors_question_doc(asked)->Record_0);
    record(out)
}

/// What a component says went wrong, where it says so.
pub open spec fn complaint(answer: Doc) -> Option<Seq<char>> {
    match answer.text_at("error"@) {
        Some(e) => Some("the component answered with an error: "@ + e),
        None => None,
    }
}

/// What a component says went wrong, where it says so.
pub fn answer_error(answer: &Json) -> (r: Option<String>)
    ensures
        crate::config::opt_string(r) == complaint(answer@),
{
    match answer.text_at("error") {
        Some(e) => Some(join2("the component answered with an error: ", e)),
        None => None,
    }
}

/// What stands in a document under a path.
pub open spec fn under(d: Doc, path: Seq<Seq<char>>) -> Doc
    decreases path.len(),
{
    if path.len() == 0 {
        d
    } else {
        under(d.at(path[0]), path.drop_first())
    }
}

/// What stands in a document under a path.
fn dig<'a>(d: &'a Json, path: &Vec<String>) -> (r: &'a Json)
    ensures
        r@ == under(d@, texts(path@)),
{
    let mut here = d;
    let mut i: usize = 0;
    let ghost all = texts(path@);
    assert(all.skip(0) =~= all);
    while i < path.len()
        invariant
            i <= path@.len(),
            all == texts(path@),
            under(d@, all) == under(here@, all.skip(i as int)),
        decreases path@.len() - i,
    {
        assert(all.skip(i as int).drop_first() =~= all.skip(i + 1));
        here = here.at(path[i].as_str());
        i += 1;
    }
    here
}

/// What is wrong with one value of an answer: it is not the one the corpus says.
pub open spec fn value_fault(id: Seq<char>, got: Doc, path: Seq<char>, expected: Doc) -> Option<
    Seq<char>,
> {
    let there = under(got, pieces(path, '.'));
    if there != expected {
        Some(
            "vector "@ + id + ": "@ + path + " was "@ + compact(there)
                + " where the corpus says "@ + compact(expected),
        )
    } else {
        None
    }
}

/// What is wrong with the first value, from a place on, of an answer whose expected value states
/// its members one by one.
pub open spec fn inner_fault(
    id: Seq<char>,
    got: Doc,
    name: Seq<char>,
    members: Seq<(Seq<char>, Doc)>,
    from: int,
) -> Option<Seq<char>>
    decreases members.len() - from,
{
    if from >= members.len() {
        None
    } else {
        match value_fault(id, got, name + "."@ + members[from].0, members[from].1) {
            Some(why) => Some(why),
            None => inner_fault(id, got, name, members, from + 1),
        }
    }
}

/// What is wrong with a member of an answer.
pub open spec fn member_fault(id: Seq<char>, got: Doc, name: Seq<char>, expected: Doc) -> Option<
    Seq<char>,
> {
    match expected {
        Doc::Record(members) => inner_fault(id, got, name, members, 0),
        _ => value_fault(id, got, name, expected),
    }
}

/// How many checks a member of an answer takes.
pub open spec fn member_checks(expected: Doc) -> int {
    match expected {
        Doc::Record(members) => members.len() as int,
        _ => 1,
    }
}

/// How many checks the members of an answer, from a place on, pass beyond those passed before, or
/// which fails first.
pub open spec fn answer_checks(
    id: Seq<char>,
    got: Doc,
    wanted: Seq<(Seq<char>, Doc)>,
    from: int,
    before: int,
) -> Result<int, Seq<char>>
    decreases wanted.len() - from,
{
    if from >= wanted.len() {
        Ok(before)
    } else {
        match member_fault(id, got, wanted[from].0, wanted[from].1) {
            Some(why) => Err(why),
            None => answer_checks(
                id,
                got,
                wanted,
                from + 1,
                before + member_checks(wanted[from].1),
            ),
        }
    }
}

/// The members of a document, where it is a record.
pub open spec fn members_of(d: Doc) -> Seq<(Seq<char>, Doc)> {
    match d {
        Doc::Record(members) => members,
        _ => Seq::empty(),
    }
}

/// How many checks the expected answers, from a place on, pass beyond those passed before, or which
/// fails first.
pub open spec fn all_checks(
    answers: Doc,
    expected: Seq<(Seq<char>, Doc)>,
    from: int,
    before: int,
) -> Result<int, Seq<char>>
    decreases expected.len() - from,
{
    if from >= expected.len() {
        Ok(before)
    } else {
        let (id, wanted) = expected[from];
        match answers.get(id) {
            None => Err("the component did not answer vector "@ + id),
            Some(got) => match answer_checks(id, got, members_of(wanted), 0, before) {
                Err(why) => Err(why),
                Ok(n) => all_checks(answers, expected, from + 1, n),
            },
        }
    }
}

/// What a component's answer concludes, or that it could not be driven.
pub open spec fn vectors_grade(expected: Doc, answer: Result<Json, String>) -> Grade {
    match answer {
        Err(e) => Grade::Failed("the component could not be driven: "@ + e@),
        Ok(a) => if let Some(why) = complaint(a@) {
            Grade::Failed(why)
        } else if a@.at("answers"@).as_record() is None {
            Grade::Failed("the component's answer carries no `answers` object"@)
        } else {
            match all_checks(a@.at("answers"@), members_of(expected), 0, 0) {
                Err(why) => Grade::Failed(why),
                Ok(n) => Grade::Passed(capped(n)),
            }
        },
    }
}

fn check_value(id: &str, got: &Json, path: &str, expected: &Json) -> (r: Option<String>)
    ensures
        crate::config::opt_string(r) == value_fault(id@, got@, path@, expected@),
{
    let steps = split(path, '.');
    let there = dig(got, &steps);
    if there.is_same(expected) {
        return None;
    }
    let mut why = join5("vector ", id, ": ", path, " was ");
    why.push_str(there.to_text().as_str());
    why.push_str(" where the corpus says ");
    why.push_str(expected.to_text().as_str());
    Some(why)
}

fn check_member(id: &str, got: &Json, name: &str, expected: &Json) -> (r: Option<String>)
    ensures
        crate::config::opt_string(r) == member_fault(id@, got@, name@, expected@),
{
    match expected.as_record() {
        None => check_value(id, got, name, expected),
        Some(members) => {
            let mut i: usize = 0;
            while i < members.len()
                invariant
                    i <= members@.len(),
                    expected@ == Doc::Record(member_docs(members@)),
                    inner_fault(id@, got@, name@, member_docs(members@), 0) == inner_fault(
                        id@,
                        got@,
                        name@,
                        member_docs(members@),
                        i as int,
                    ),
                decreases members@.len() - i,
            {
                let path = join3(name, ".", members[i].0.as_str());
                if let Some(why) = check_value(id, got, path.as_str(), &members[i].1) {
                    return Some(why);
                }
                i += 1;
            }
            None
        },
    }
}

fn count_member(expected: &Json) -> (r: u32)
    ensures
        r == capped(member_checks(expected@)),
        member_checks(expected@) >= 0,
{
    match expected.as_record() {
        None => 1,
        Some(members) => {
            if members.len() > u32::MAX as usize {
                u32::MAX
            } else {
                members.len() as u32
            }
        },
    }
}

fn check_answer(
    id: &str,
    got: &Json,
    wanted: &Vec<(String, Json)>,
    checks: u32,
    Ghost(before): Ghost<int>,
) -> (r: Result<u32, String>)
    requires
        before >= 0,
        checks == capped(before),
    ensures
        match answer_checks(id@, got@, member_docs(wanted@), 0, before) {
            Ok(n) => r matches Ok(v) && v == capped(n) && n >= 0,
            Err(why) => r matches Err(e) && e@ == why,
        },
{
    let mut so_far: u32 = checks;
    let ghost mut total: int = before;
    let mut i: usize = 0;
    while i < wanted.len()
        invariant
            i <= wanted@.len(),
            total >= 0,
            so_far == capped(total),
            answer_checks(id@, got@, member_docs(wanted@), 0, before) == answer_checks(
                id@,
                got@,
                member_docs(wanted@),
                i as int,
                total,
            ),
        decreases wanted@.len() - i,
    {
        if let Some(why) = check_member(id, got, wanted[i].0.as_str(), &wanted[i].1) {
            return Err(why);
        }
        so_far = so_far.saturating_add(count_member(&wanted[i].1));
        proof {
            total = total + member_checks(wanted@[i as int].1@);
        }
        i += 1;
    }
    Ok(so_far)
}

fn check_answers(answers: &Json, expected: &Vec<(String, Json)>) -> (r: Result<u32, String>)
    ensures
        match all_checks(answers@, member_docs(expected@), 0, 0) {
            Ok(n) => r matches Ok(v) && v == capped(n),
            Err(why) => r matches Err(e) && e@ == why,
        },
{
    let none: Vec<(String, Json)> = Vec::new();
    assert(member_docs(none@) =~= Seq::empty());
    let mut checks: u32 = 0;
    let ghost mut total: int = 0;
    let mut i: usize = 0;
    while i < expected.len()
        invariant
            i <= expected@.len(),
            total >= 0,
            checks == capped(total),
            member_docs(none@) == Seq::<(Seq<char>, Doc)>::empty(),
            all_checks(answers@, member_docs(expected@), 0, 0) == all_checks(
                answers@,
                member_docs(expected@),
                i as int,
                total,
            ),
        decreases expected@.len() - i,
    {
        let id = expected[i].0.as_str();
        let got = match answers.get(id) {
            Some(got) => got,
            None => {
                return Err(join2("the component did not answer vector ", id));
            },
        };
        let wanted = match expected[i].1.as_record() {
            Some(wanted) => wanted,
            None => &none,
        };
        let ghost before = total;
        checks = check_answer(id, got, wanted, checks, Ghost(before))?;
        proof {
            total = answer_checks(id@, got@, member_docs(wanted@), 0, before)->Ok_0;
        }
        i += 1;
    }
    Ok(checks)
}

/// What a component's answer to the vectors concludes, given what driving it came to.
pub fn check_vectors(expected: &Json, answer: &Result<Json, String>) -> (r: GroupResult)
    ensures
        r@ == vectors_grade(expected@, *answer),
{
    let answer = match answer {
        Ok(answer) => answer,
        Err(e) => {
            return failed(join2("the component could not be driven: ", e.as_str()));
        },
    };
    if let Some(why) = answer_error(answer) {
        return failed(why);
    }
    let answers = answer.at("answers");
    if answers.as_record().is_none() {
        return failed("the component's answer carries no `answers` object".to_owned());
    }
    let none: Vec<(String, Json)> = Vec::new();
    assert(member_docs(none@) =~= Seq::empty());
    let wanted = match expected.as_record() {
        Some(wanted) => wanted,
        None => &none,
    };
    match check_answers(answers, wanted) {
        Err(why) => failed(why),
        Ok(checks) => GroupResult::Passed { checks },
    }
}

// -- laws -------------------------------------------------------------------------------------

/// A component is never shown an answer: no member of a vector that is one is in what is sent.
pub proof fn lemma_no_answer_is_sent(vector: Doc, kind: Seq<char>, i: int)
    requires
        vector is Record,
        vector.well_formed(),
        0 <= i < answers_of(kind).len(),
        is_answer(vector, kind, answers_of(kind)[i]@),
    ensures
        parted(vector, kind, answers_of(kind), answers_of(kind).len() as int).0.get(
            answers_of(kind)[i]@,
        ) is None,
{
    lemma_in_order_is_distinct(vector->Record_0);
    lemma_parted(vector, kind, answers_of(kind), answers_of(kind).len() as int, i);
}

proof fn lemma_parted(
    vector: Doc,
    kind: Seq<char>,
    names: Seq<&'static str>,
    upto: int,
    i: int,
)
    requires
        vector is Record,
        distinct(vector->Record_0),
        0 <= upto <= names.len(),
        0 <= i < names.len(),
    ensures
        ({
            let request = parted(vector, kind, names, upto).0;
            &&& request is Record
            &&& distinct(request->Record_0)
            &&& i < upto && is_answer(vector, kind, names[i]@) ==> request.get(names[i]@) is None
        }),
    decreases upto,
{
    if upto > 0 {
        lemma_parted(vector, kind, names, upto - 1, i);
        let before = parted(vector, kind, names, upto - 1).0;
        let name = names[upto - 1]@;
        lemma_removed_is_gone(before->Record_0, name);
        if names[i]@ != name {
            lemma_removed_keeps_others(before->Record_0, name, names[i]@);
        }
    }
}

/// Passing means that every expected answer was given.
pub proof fn lemma_passing_answers_every_vector(
    answers: Doc,
    expected: Seq<(Seq<char>, Doc)>,
    i: int,
)
    requires
        all_checks(answers, expected, 0, 0) is Ok,
        0 <= i < expected.len(),
    ensures
        answers.get(expected[i].0) is Some,
{
    lemma_all_answered(answers, expected, 0, 0, i);
}

proof fn lemma_all_answered(
    answers: Doc,
    expected: Seq<(Seq<char>, Doc)>,
    from: int,
    before: int,
    i: int,
)
    requires
        all_checks(answers, expected, from, before) is Ok,
        0 <= from <= i < expected.len(),
    ensures
        answers.get(expected[i].0) is Some,
    decreases expected.len() - from,
{
    if from < i {
        let (id, wanted) = expected[from];
        let n = answer_checks(id, answers.get(id)->0, members_of(wanted), 0, before)->Ok_0;
        lemma_all_answered(answers, expected, from + 1, n, i);
    }
}

/// Which members of a vector are answers, by its kind.
pub proof fn lemma_which_members_are_answers(kind: Seq<char>, name: Seq<char>)
    requires
        kind == "jcs"@ || kind == "sha256"@ || kind == "ed25519"@ || kind == "object-hash"@ || kind
            == "chain"@,
    ensures
        named(answers_of(kind), name) <==> {
            ||| kind == "jcs"@ && (name == "canonical"@ || name == "canonical-sha256"@)
            ||| kind == "sha256"@ && name == "sha256"@
            ||| kind == "ed25519"@ && (name == "signature"@ || name == "verifies"@)
            ||| kind == "object-hash"@ && (name == "expected-jcs"@ || name
                == "expected-object-hash"@ || name == "expected-signing-input"@ || name
                == "expected-signing-input-sha256"@ || name == "expected-signature-valid"@)
            ||| kind == "chain"@ && name == "expected"@
        },
{
    reveal_strlit("jcs");
    reveal_strlit("sha256");
    reveal_strlit("ed25519");
    reveal_strlit("object-hash");
    reveal_strlit("chain");
    assert("jcs"@.len() == 3);
    assert("sha256"@.len() == 6);
    assert("ed25519"@.len() == 7);
    assert("object-hash"@.len() == 11);
    assert("chain"@.len() == 5);
    let jcs = JCS_ANSWERS@;
    assert(jcs[0]@ == "canonical"@);
    assert(jcs[1]@ == "canonical-sha256"@);
    let sha = SHA256_ANSWERS@;
    assert(sha[0]@ == "sha256"@);
    let ed = ED25519_ANSWERS@;
    assert(ed[0]@ == "signature"@);
    assert(ed[1]@ == "verifies"@);
    let hash = OBJECT_HASH_ANSWERS@;
    assert(hash[0]@ == "expected-jcs"@);
    assert(hash[1]@ == "expected-object-hash"@);
    assert(hash[2]@ == "expected-signing-input"@);
    assert(hash[3]@ == "expected-signing-input-sha256"@);
    assert(hash[4]@ == "expected-signature-valid"@);
    let chain = CHAIN_ANSWERS@;
    assert(chain[0]@ == "expected"@);
}

proof fn lemma_missing_kinds(documents: Seq<Doc>, upto: int)
    requires
        0 <= upto <= VECTOR_KINDS@.len(),
    ensures
        missing_kinds(documents, upto).len() == 0 <==> forall|k: int|
            0 <= k < upto ==> has_kind(documents, #[trigger] VECTOR_KINDS@[k]@),
    decreases upto,
{
    if upto > 0 {
        lemma_missing_kinds(documents, upto - 1);
        assert(VECTOR_KINDS@[upto - 1]@ == VECTOR_KINDS@[upto - 1]@);
    }
}

/// A corpus is asked only where it has vectors of each of the five kinds.
pub proof fn lemma_every_kind_is_asked(documents: Seq<Doc>, kind: Seq<char>)
    requires
        asking(documents) is Ok,
        kind == "jcs"@ || kind == "sha256"@ || kind == "ed25519"@ || kind == "object-hash"@ || kind
            == "chain"@,
    ensures
        exists|i: int|
            0 <= i < documents.len() && (#[trigger] documents[i]).at("kind"@) == Doc::Text(kind),
        asking(documents)->Ok_0.requests.len() > 0,
{
    let kinds = VECTOR_KINDS@;
    assert(kinds[0]@ == "jcs"@);
    assert(kinds[1]@ == "sha256"@);
    assert(kinds[2]@ == "ed25519"@);
    assert(kinds[3]@ == "object-hash"@);
    assert(kinds[4]@ == "chain"@);
    lemma_missing_kinds(documents, kinds.len() as int);
    assert(has_kind(documents, kinds[0]@) && has_kind(documents, kinds[1]@) && has_kind(
        documents,
        kinds[2]@,
    ) && has_kind(documents, kinds[3]@) && has_kind(documents, kinds[4]@));
    let i = choose|i: int|
        0 <= i < documents.len() && (#[trigger] documents[i]).text_at("kind"@) == Some(kind);
    assert(documents[i].at("kind"@) == Doc::Text(kind));
}

proof fn lemma_inner_fault(
    id: Seq<char>,
    got: Doc,
    name: Seq<char>,
    members: Seq<(Seq<char>, Doc)>,
    from: int,
)
    requires
        0 <= from <= members.len(),
    ensures
        inner_fault(id, got, name, members, from) is None <==> forall|i: int|
            from <= i < members.len() ==> under(
                got,
                pieces(name + "."@ + (#[trigger] members[i]).0, '.'),
            ) == members[i].1,
    decreases members.len() - from,
{
    if from < members.len() {
        lemma_inner_fault(id, got, name, members, from + 1);
        assert(members[from].1 == members[from].1);
    }
}

/// A member of an answer is right exactly where it is what was expected; and where what was expected
/// states members of its own, where each of those is.
pub proof fn lemma_which_answers_are_right(
    id: Seq<char>,
    got: Doc,
    name: Seq<char>,
    expected: Doc,
)
    ensures
        member_fault(id, got, name, expected) is None <==> match expected {
            Doc::Record(members) => forall|i: int|
                0 <= i < members.len() ==> under(
                    got,
                    pieces(name + "."@ + (#[trigger] members[i]).0, '.'),
                ) == members[i].1,
            _ => under(got, pieces(name, '.')) == expected,
        },
{
    if let Doc::Record(members) = expected {
        lemma_inner_fault(id, got, name, members, 0);
    }
}

proof fn lemma_answer_checks(
    id: Seq<char>,
    got: Doc,
    wanted: Seq<(Seq<char>, Doc)>,
    from: int,
    before: int,
)
    requires
        0 <= from <= wanted.len(),
    ensures
        answer_checks(id, got, wanted, from, before) is Ok <==> forall|i: int|
            from <= i < wanted.len() ==> member_fault(
                id,
                got,
                (#[trigger] wanted[i]).0,
                wanted[i].1,
            ) is None,
    decreases wanted.len() - from,
{
    if from < wanted.len() {
        assert(wanted[from].1 == wanted[from].1);
        lemma_answer_checks(
            id,
            got,
            wanted,
            from + 1,
            before + member_checks(wanted[from].1),
        );
    }
}

/// Whether a vector was answered, and each member of its answer rightly.
pub open spec fn is_answered(answers: Doc, expected: (Seq<char>, Doc)) -> bool {
    answers.get(expected.0) matches Some(got) && forall|i: int|
        0 <= i < members_of(expected.1).len() ==> member_fault(
            expected.0,
            got,
            (#[trigger] members_of(expected.1)[i]).0,
            members_of(expected.1)[i].1,
        ) is None
}

proof fn lemma_all_checks(
    answers: Doc,
    expected: Seq<(Seq<char>, Doc)>,
    from: int,
    before: int,
)
    requires
        0 <= from <= expected.len(),
    ensures
        all_checks(answers, expected, from, before) is Ok <==> forall|i: int|
            from <= i < expected.len() ==> is_answered(answers, #[trigger] expected[i]),
    decreases expected.len() - from,
{
    if from < expected.len() {
        let (id, wanted) = expected[from];
        if let Some(got) = answers.get(id) {
            lemma_answer_checks(id, got, members_of(wanted), 0, before);
            if let Ok(n) = answer_checks(id, got, members_of(wanted), 0, before) {
                lemma_all_checks(answers, expected, from + 1, n);
            }
        }
        assert(is_answered(answers, expected[from]) == is_answered(answers, expected[from]));
    }
}

/// The vectors pass exactly where the component answered, without an error, every one of them, and
/// every member of every answer is right.
pub proof fn lemma_when_the_vectors_pass(expected: Seq<(Seq<char>, Doc)>, answer: Json)
    ensures
        vectors_grade(Doc::Record(expected), Ok(answer)) is Passed <==> {
            &&& !(answer@.at("error"@) is Text)
            &&& answer@.at("answers"@) is Record
            &&& forall|i: int|
                0 <= i < expected.len() ==> is_answered(
                    answer@.at("answers"@),
                    #[trigger] expected[i],
                )
        },
{
    lemma_all_checks(answer@.at("answers"@), expected, 0, 0);
}

/// A vector is asked about by its kind and its name, without its answers; one without a name makes
/// the corpus unusable, and one without answers asks nothing.
pub proof fn lemma_how_a_vector_is_asked_about(vector: Doc, kind: Seq<char>, before: Asking)
    requires
        before.expected is Record,
    ensures
        ({
            let n = answers_of(kind).len() as int;
            let wanted = parted(vector, kind, answers_of(kind), n).1;
            let asked = asking_one(vector, kind, before);
            &&& asked is Ok <==> vector.at("name"@) is Text
            &&& asked is Ok && wanted == Doc::Record(Seq::empty()) ==> asked->Ok_0 == before
            &&& asked is Ok && wanted != Doc::Record(Seq::empty()) ==> {
                let id = kind + "/"@ + vector.at("name"@)->Text_0;
                &&& asked->Ok_0.requests.len() == before.requests.len() + 1
                &&& asked->Ok_0.requests.take(before.requests.len() as int) == before.requests
                &&& asked->Ok_0.expected.get(id) == Some(wanted)
            }
        }),
{
    let n = answers_of(kind).len() as int;
    let (request, wanted) = parted(vector, kind, answers_of(kind), n);
    if let Some(name) = vector.text_at("name"@) {
        let id = kind + "/"@ + name;
        crate::json::lemma_put_then_get(before.expected->Record_0, id, wanted, id);
        let asked = request.with("id"@, Doc::Text(id)).with("kind"@, Doc::Text(kind));
        assert(before.requests.push(asked).take(before.requests.len() as int) =~= before.requests);
    }
}

} // verus!
