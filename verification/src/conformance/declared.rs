//! The groups that are decided by the manifest and by samples: durable objects, and emission for
//! every declared action.

use vstd::prelude::*;

use crate::codes::STORE_UNAVAILABLE;
use crate::conformance::{failed, Grade, GroupResult};
use crate::error::{fault, Error, Fault};
use crate::ingest::submission::Outcome;
use crate::json::{docs, Doc, Json};
use crate::manifest::{transition_outcome, Manifest};
use crate::text::{
    debug_list, decimal, decimal_text, join2, join4, join5, opt_text, quoted_list, same, texts,
};

verus! {

/// A count as far as it can be reported.
pub open spec fn capped(n: int) -> int {
    if n > u32::MAX {
        u32::MAX as int
    } else {
        n
    }
}

/// The first item of an array, where it is a text.
pub open spec fn first_text(d: Doc) -> Option<Seq<char>> {
    if d.items().len() > 0 {
        d.items()[0].as_text()
    } else {
        None
    }
}

/// The first item of an array, where it is a text.
pub fn first_of(d: &Json) -> (r: Option<&str>)
    ensures
        opt_text(r) == first_text(d@),
{
    match d.as_list() {
        None => None,
        Some(items) => {
            if items.len() > 0 {
                items[0].as_text()
            } else {
                None
            }
        },
    }
}

/// The texts among some documents, up to a place.
pub open spec fn texts_among(items: Seq<Doc>, upto: int) -> Seq<Seq<char>>
    decreases upto,
{
    if upto <= 0 {
        Seq::empty()
    } else {
        let before = texts_among(items, upto - 1);
        match items[upto - 1].as_text() {
            Some(t) => before.push(t),
            None => before,
        }
    }
}

/// The texts of an array.
pub fn texts_of(d: &Json) -> (r: Vec<String>)
    ensures
        texts(r@) == texts_among(d@.items(), d@.items().len() as int),
{
    let mut out: Vec<String> = Vec::new();
    assert(texts(out@) =~= Seq::empty());
    match d.as_list() {
        None => {},
        Some(items) => {
            let mut i: usize = 0;
            while i < items.len()
                invariant
                    i <= items@.len(),
                    texts(out@) == texts_among(docs(items@), i as int),
                decreases items@.len() - i,
            {
                let ghost before = texts(out@);
                if let Some(t) = items[i].as_text() {
                    out.push(t.to_owned());
                    assert(texts(out@) =~= before.push(t@));
                }
                i += 1;
            }
        },
    }
    out
}

// -- durable objects --------------------------------------------------------------------------

/// The first declared transition, from a place on, that is not accepted from the state and by the
/// role it declares itself.
pub open spec fn refused_transition(
    d: Doc,
    name: Seq<char>,
    object_type: Seq<char>,
    transitions: Seq<Doc>,
    from: int,
) -> Option<Seq<char>>
    decreases transitions.len() - from,
{
    if from >= transitions.len() {
        None
    } else {
        let t = transitions[from];
        let called = t.text_at("transition"@);
        let role = first_text(t.at("signers"@));
        if called is None {
            Some(object_type + " declares a transition with no name"@)
        } else if role is None {
            Some(object_type + "."@ + called->0 + " declares no signer role"@)
        } else {
            match transition_outcome(
                d,
                name,
                object_type,
                called->0,
                role->0,
                first_text(t.at("from"@)),
            ) {
                Err(f) => Some(
                    object_type + "."@ + called->0
                        + " was refused from its own declared state: "@ + f.line(),
                ),
                Ok(_) => refused_transition(d, name, object_type, transitions, from + 1),
            }
        }
    }
}

/// Whether a transition is declared for humans alone, by name.
pub open spec fn is_human_only(t: Doc) -> bool {
    let signers = t.at("signers"@).items();
    texts_among(signers, signers.len() as int) == seq!["human"@] && t.text_at("transition"@) is Some
}

/// The first transition, from a place on, that is declared for humans alone and accepted from an
/// agent.
pub open spec fn blurred_transition(
    d: Doc,
    name: Seq<char>,
    object_type: Seq<char>,
    transitions: Seq<Doc>,
    from: int,
) -> Option<Seq<char>>
    decreases transitions.len() - from,
{
    if from >= transitions.len() {
        None
    } else {
        let t = transitions[from];
        if is_human_only(t) && transition_outcome(
            d,
            name,
            object_type,
            t.text_at("transition"@)->0,
            "agent"@,
            first_text(t.at("from"@)),
        ) is Ok {
            Some(
                object_type + "."@ + t.text_at("transition"@)->0
                    + " is declared human-only and was accepted from an agent key"@,
            )
        } else {
            blurred_transition(d, name, object_type, transitions, from + 1)
        }
    }
}

/// How many transitions, up to a place, are declared for humans alone.
pub open spec fn human_only_count(transitions: Seq<Doc>, upto: int) -> int
    decreases upto,
{
    if upto <= 0 {
        0
    } else {
        human_only_count(transitions, upto - 1) + if is_human_only(transitions[upto - 1]) {
            1int
        } else {
            0int
        }
    }
}

/// How many checks a durable object passes, or which it fails: every transition it declares is
/// accepted as declared, one it does not declare is refused, and one declared for humans alone is
/// refused from an agent.
pub open spec fn object_checks(d: Doc, name: Seq<char>, object: Doc) -> Result<int, Seq<char>> {
    let object_type = object.text_at("object-type"@);
    let transitions = object.at("transitions"@).items();
    if object_type is None {
        Err("a declared durable object has no object-type"@)
    } else if let Some(why) = refused_transition(d, name, object_type->0, transitions, 0) {
        Err(why)
    } else if transition_outcome(
        d,
        name,
        object_type->0,
        "no-such-transition"@,
        "agent"@,
        None,
    ) is Ok {
        Err(object_type->0 + " accepted a transition it does not declare"@)
    } else if let Some(why) = blurred_transition(d, name, object_type->0, transitions, 0) {
        Err(why)
    } else {
        Ok(transitions.len() + 1 + human_only_count(transitions, transitions.len() as int))
    }
}

/// How many checks some durable objects, from a place on, pass beyond those passed before, or
/// which one fails first.
pub open spec fn objects_checks(
    d: Doc,
    name: Seq<char>,
    objects: Seq<Doc>,
    from: int,
    before: int,
) -> Result<int, Seq<char>>
    decreases objects.len() - from,
{
    if from >= objects.len() {
        Ok(before)
    } else {
        match object_checks(d, name, objects[from]) {
            Err(why) => Err(why),
            Ok(n) => objects_checks(d, name, objects, from + 1, before + n),
        }
    }
}

/// What replaying and attacking the declared transitions concludes.
pub open spec fn durable_grade(d: Doc, name: Seq<char>) -> Grade {
    let objects = d.at("durable-objects"@).items();
    if objects.len() == 0 {
        Grade::NotApplicable("the manifest declares no durable objects"@)
    } else {
        match objects_checks(d, name, objects, 0, 0) {
            Err(why) => Grade::Failed(why),
            Ok(n) => Grade::Passed(capped(n)),
        }
    }
}

fn try_transitions(manifest: &Manifest, object_type: &str, transitions: &Vec<Json>) -> (r: Option<
    String,
>)
    ensures
        crate::config::opt_string(r) == refused_transition(
            manifest.doc(),
            manifest.called(),
            object_type@,
            docs(transitions@),
            0,
        ),
{
    let mut i: usize = 0;
    while i < transitions.len()
        invariant
            i <= transitions@.len(),
            refused_transition(
                manifest.doc(),
                manifest.called(),
                object_type@,
                docs(transitions@),
                0,
            ) == refused_transition(
                manifest.doc(),
                manifest.called(),
                object_type@,
                docs(transitions@),
                i as int,
            ),
        decreases transitions@.len() - i,
    {
        let t = &transitions[i];
        let called = match t.text_at("transition") {
            Some(called) => called,
            None => {
                return Some(join2(object_type, " declares a transition with no name"));
            },
        };
        let role = match first_of(t.at("signers")) {
            Some(role) => role,
            None => {
                return Some(join4(object_type, ".", called, " declares no signer role"));
            },
        };
        if let Err(e) = manifest.check_transition(
            object_type,
            called,
            role,
            first_of(t.at("from")),
        ) {
            return Some(
                join5(
                    object_type,
                    ".",
                    called,
                    " was refused from its own declared state: ",
                    e.to_line().as_str(),
                ),
            );
        }
        i += 1;
    }
    None
}

/// Whether a transition is declared for humans alone, by name.
fn human_only(t: &Json) -> (r: bool)
    ensures
        r == is_human_only(t@),
{
    let signers = texts_of(t.at("signers"));
    if signers.len() != 1 || !same(signers[0].as_str(), "human") {
        proof {
            if is_human_only(t@) {
                assert(texts(signers@).len() == 1);
                assert(texts(signers@)[0] == "human"@);
            }
        }
        return false;
    }
    assert(texts(signers@) =~= seq!["human"@]);
    t.text_at("transition").is_some()
}

fn attack_transitions(manifest: &Manifest, object_type: &str, transitions: &Vec<Json>) -> (r: (
    Option<String>,
    u32,
))
    ensures
        crate::config::opt_string(r.0) == blurred_transition(
            manifest.doc(),
            manifest.called(),
            object_type@,
            docs(transitions@),
            0,
        ),
        r.0 is None ==> r.1 == capped(
            human_only_count(docs(transitions@), transitions@.len() as int),
        ),
{
    let mut found: u32 = 0;
    let mut i: usize = 0;
    while i < transitions.len()
        invariant
            i <= transitions@.len(),
            found == capped(human_only_count(docs(transitions@), i as int)),
            human_only_count(docs(transitions@), i as int) >= 0,
            blurred_transition(
                manifest.doc(),
                manifest.called(),
                object_type@,
                docs(transitions@),
                0,
            ) == blurred_transition(
                manifest.doc(),
                manifest.called(),
                object_type@,
                docs(transitions@),
                i as int,
            ),
        decreases transitions@.len() - i,
    {
        let t = &transitions[i];
        if human_only(t) {
            if let Some(called) = t.text_at("transition") {
                if manifest.check_transition(
                    object_type,
                    called,
                    "agent",
                    first_of(t.at("from")),
                ).is_ok() {
                    return (
                        Some(
                            join4(
                                object_type,
                                ".",
                                called,
                                " is declared human-only and was accepted from an agent key",
                            ),
                        ),
                        found,
                    );
                }
            }
            found = found.saturating_add(1);
        }
        i += 1;
    }
    (None, found)
}

fn check_object(manifest: &Manifest, object: &Json) -> (r: Result<u32, String>)
    ensures
        match object_checks(manifest.doc(), manifest.called(), object@) {
            Ok(n) => r matches Ok(v) && v == capped(n) && n >= 0,
            Err(why) => r matches Err(e) && e@ == why,
        },
{
    let object_type = match object.text_at("object-type") {
        Some(object_type) => object_type,
        None => {
            return Err("a declared durable object has no object-type".to_owned());
        },
    };
    let none: Vec<Json> = Vec::new();
    assert(docs(none@) =~= Seq::empty());
    let transitions = match object.at("transitions").as_list() {
        Some(transitions) => transitions,
        None => &none,
    };
    if let Some(why) = try_transitions(manifest, object_type, transitions) {
        return Err(why);
    }
    if manifest.check_transition(object_type, "no-such-transition", "agent", None).is_ok() {
        return Err(join2(object_type, " accepted a transition it does not declare"));
    }
    let (blurred, found) = attack_transitions(manifest, object_type, transitions);
    if let Some(why) = blurred {
        return Err(why);
    }
    proof {
        lemma_count_is_not_negative(docs(transitions@), transitions@.len() as int);
    }
    let declared: u32 = if transitions.len() > u32::MAX as usize {
        u32::MAX
    } else {
        transitions.len() as u32
    };
    Ok(declared.saturating_add(1).saturating_add(found))
}

proof fn lemma_count_is_not_negative(transitions: Seq<Doc>, upto: int)
    ensures
        human_only_count(transitions, upto) >= 0,
    decreases upto,
{
    if upto > 0 {
        lemma_count_is_not_negative(transitions, upto - 1);
    }
}

/// Replays every transition the manifest declares, and attacks it.
pub fn check_durable_objects(manifest: &Manifest) -> (r: GroupResult)
    ensures
        r@ == durable_grade(manifest.doc(), manifest.called()),
{
    let none: Vec<Json> = Vec::new();
    assert(docs(none@) =~= Seq::empty());
    let objects = match manifest.document().at("durable-objects").as_list() {
        Some(objects) => objects,
        None => &none,
    };
    if objects.len() == 0 {
        return GroupResult::NotApplicable {
            why: "the manifest declares no durable objects".to_owned(),
        };
    }
    let mut checks: u32 = 0;
    let ghost mut total: int = 0;
    let mut i: usize = 0;
    while i < objects.len()
        invariant
            i <= objects@.len(),
            checks == capped(total),
            total >= 0,
            objects_checks(manifest.doc(), manifest.called(), docs(objects@), 0, 0)
                == objects_checks(
                manifest.doc(),
                manifest.called(),
                docs(objects@),
                i as int,
                total,
            ),
            docs(objects@) == manifest.doc().at("durable-objects"@).items(),
            objects@.len() > 0,
        decreases objects@.len() - i,
    {
        match check_object(manifest, &objects[i]) {
            Err(why) => {
                return failed(why);
            },
            Ok(n) => {
                checks = checks.saturating_add(n);
                proof {
                    total = total + object_checks(
                        manifest.doc(),
                        manifest.called(),
                        objects@[i as int]@,
                    )->Ok_0;
                }
            },
        }
        i += 1;
    }
    GroupResult::Passed { checks }
}

// -- emission for every declared action -------------------------------------------------------

/// The actions some declarations, up to a place, name.
pub open spec fn named_actions(declarations: Seq<Doc>, upto: int) -> Seq<Seq<char>>
    decreases upto,
{
    if upto <= 0 {
        Seq::empty()
    } else {
        let before = named_actions(declarations, upto - 1);
        match declarations[upto - 1].text_at("action"@) {
            Some(action) => before.push(action),
            None => before,
        }
    }
}

/// The actions a manifest declares.
pub open spec fn declared_actions(d: Doc) -> Seq<Seq<char>> {
    let declarations = d.at("actions"@).items();
    named_actions(declarations, declarations.len() as int)
}

/// The actions a manifest declares.
pub fn actions_of(manifest: &Manifest) -> (r: Vec<String>)
    ensures
        texts(r@) == declared_actions(manifest.doc()),
{
    let mut out: Vec<String> = Vec::new();
    assert(texts(out@) =~= Seq::empty());
    match manifest.document().at("actions").as_list() {
        None => {},
        Some(declarations) => {
            let mut i: usize = 0;
            while i < declarations.len()
                invariant
                    i <= declarations@.len(),
                    texts(out@) == named_actions(docs(declarations@), i as int),
                decreases declarations@.len() - i,
            {
                let ghost before = texts(out@);
                if let Some(action) = declarations[i].text_at("action") {
                    out.push(action.to_owned());
                    assert(texts(out@) =~= before.push(action@));
                }
                i += 1;
            }
        },
    }
    out
}

/// The action a sample is about, in its envelope or in itself.
pub open spec fn action_of(sample: Doc) -> Option<Seq<char>> {
    match sample.at("envelope"@).at("execution"@).text_at("action"@) {
        Some(action) => Some(action),
        None => sample.at("execution"@).text_at("action"@),
    }
}

/// The action a sample is about.
pub fn sample_action(sample: &Json) -> (r: Option<&str>)
    ensures
        opt_text(r) == action_of(sample@),
{
    match sample.at("envelope").at("execution").text_at("action") {
        Some(action) => Some(action),
        None => sample.at("execution").text_at("action"),
    }
}

/// What submitting a sample came to.
#[derive(Debug)]
pub enum Tried {
    /// It has no canonical form, and was not submitted.
    NotCanonical(Error),
    /// It was answered.
    Answered(Outcome),
}

/// Whether every sample, from a place on, was tried, as far as the first that ends the run.
pub open spec fn all_tried(samples: Seq<Doc>, tried: Seq<Tried>, from: int) -> bool
    decreases samples.len() - from,
{
    if from >= samples.len() || action_of(samples[from]) is None {
        true
    } else {
        from < tried.len() && (tried[from] matches Tried::Answered(Outcome::Accepted(_))
            ==> all_tried(samples, tried, from + 1))
    }
}

/// What ends the run, from a place on: a sample that fails, or an outage, which is no failure of
/// the component. Nothing does where every sample was accepted.
pub open spec fn emission_end(samples: Seq<Doc>, tried: Seq<Tried>, from: int) -> Result<
    Option<Seq<char>>,
    Fault,
>
    decreases samples.len() - from,
{
    if from >= samples.len() {
        Ok(None)
    } else {
        match action_of(samples[from]) {
            None => Ok(Some("a sample carries no execution.action"@)),
            Some(action) => match tried[from] {
                Tried::NotCanonical(e) => Ok(
                    Some("the sample for "@ + action + " does not canonicalize: "@ + e@.line()),
                ),
                Tried::Answered(Outcome::Accepted(_)) => emission_end(samples, tried, from + 1),
                Tried::Answered(Outcome::Rejected { reason, detail, .. }) => Ok(
                    Some(
                        "the sample for "@ + action + " was rejected "@ + reason@ + ": "@ + detail@,
                    ),
                ),
                Tried::Answered(Outcome::Unavailable(detail)) => Err(
                    fault(STORE_UNAVAILABLE@, detail@),
                ),
            },
        }
    }
}

/// Whether an action has a sample before a place.
pub open spec fn is_sampled(samples: Seq<Doc>, action: Seq<char>, upto: int) -> bool {
    exists|i: int| 0 <= i < upto && action_of(#[trigger] samples[i]) == Some(action)
}

/// The declared actions, up to a place, that have no sample.
pub open spec fn unsampled(
    declared: Seq<Seq<char>>,
    samples: Seq<Doc>,
    upto: int,
) -> Seq<Seq<char>>
    decreases upto,
{
    if upto <= 0 {
        Seq::empty()
    } else {
        let before = unsampled(declared, samples, upto - 1);
        if is_sampled(samples, declared[upto - 1], samples.len() as int) {
            before
        } else {
            before.push(declared[upto - 1])
        }
    }
}

/// Whether every sample says which action it is about.
pub open spec fn all_named(samples: Seq<Doc>) -> bool {
    forall|i: int| 0 <= i < samples.len() ==> action_of(#[trigger] samples[i]) is Some
}

/// What keeps samples from being submitted at all: nothing is declared, or an action is declared
/// that none of them is about.
pub open spec fn coverage_failure(d: Doc, samples: Seq<Doc>) -> Option<Seq<char>> {
    let declared = declared_actions(d);
    let missing = unsampled(declared, samples, declared.len() as int);
    if declared.len() == 0 {
        Some("the manifest declares no actions, so there is nothing it could conform to"@)
    } else if all_named(samples) && missing.len() > 0 {
        Some(
            "no sample was emitted for "@ + decimal(missing.len()) + " of "@ + decimal(
                declared.len(),
            ) + " declared actions: "@ + quoted_list(missing),
        )
    } else {
        None
    }
}

/// What samples conclude: every declared action has one, which is judged before any is submitted,
/// and every one is accepted.
pub open spec fn emission_grade(d: Doc, samples: Seq<Doc>, tried: Seq<Tried>) -> Result<
    Grade,
    Fault,
> {
    match coverage_failure(d, samples) {
        Some(why) => Ok(Grade::Failed(why)),
        None => match emission_end(samples, tried, 0) {
            Err(f) => Err(f),
            Ok(Some(why)) => Ok(Grade::Failed(why)),
            Ok(None) => Ok(Grade::Passed(capped(samples.len() as int + 1))),
        },
    }
}

fn sampled(samples: &Vec<Json>, action: &str) -> (r: bool)
    ensures
        r == is_sampled(docs(samples@), action@, samples@.len() as int),
{
    let mut i: usize = 0;
    while i < samples.len()
        invariant
            i <= samples@.len(),
            !is_sampled(docs(samples@), action@, i as int),
        decreases samples@.len() - i,
    {
        if let Some(named) = sample_action(&samples[i]) {
            if same(named, action) {
                assert(action_of(docs(samples@)[i as int]) == Some(action@));
                return true;
            }
        }
        i += 1;
    }
    false
}

fn find_unsampled(declared: &Vec<String>, samples: &Vec<Json>) -> (r: Vec<String>)
    ensures
        texts(r@) == unsampled(texts(declared@), docs(samples@), declared@.len() as int),
{
    let mut out: Vec<String> = Vec::new();
    assert(texts(out@) =~= Seq::empty());
    let mut i: usize = 0;
    while i < declared.len()
        invariant
            i <= declared@.len(),
            texts(out@) == unsampled(texts(declared@), docs(samples@), i as int),
        decreases declared@.len() - i,
    {
        let ghost before = texts(out@);
        if !sampled(samples, declared[i].as_str()) {
            out.push(declared[i].clone());
            assert(texts(out@) =~= before.push(declared@[i as int]@));
        }
        i += 1;
    }
    out
}

fn read_trials(samples: &Vec<Json>, tried: &Vec<Tried>) -> (r: Result<Option<String>, Error>)
    requires
        all_tried(docs(samples@), tried@, 0),
    ensures
        match emission_end(docs(samples@), tried@, 0) {
            Ok(why) => r matches Ok(s) && crate::config::opt_string(s) == why,
            Err(f) => r matches Err(e) && e@ == f,
        },
{
    let mut i: usize = 0;
    while i < samples.len()
        invariant
            i <= samples@.len(),
            all_tried(docs(samples@), tried@, i as int),
            emission_end(docs(samples@), tried@, 0) == emission_end(
                docs(samples@),
                tried@,
                i as int,
            ),
        decreases samples@.len() - i,
    {
        let action = match sample_action(&samples[i]) {
            Some(action) => action,
            None => {
                return Ok(Some("a sample carries no execution.action".to_owned()));
            },
        };
        match &tried[i] {
            Tried::NotCanonical(e) => {
                return Ok(
                    Some(
                        join4(
                            "the sample for ",
                            action,
                            " does not canonicalize: ",
                            e.to_line().as_str(),
                        ),
                    ),
                );
            },
            Tried::Answered(outcome) => match outcome {
                Outcome::Accepted(_) => {},
                Outcome::Rejected { reason, detail, .. } => {
                    let mut why = join4(
                        "the sample for ",
                        action,
                        " was rejected ",
                        reason.as_str(),
                    );
                    why.push_str(": ");
                    why.push_str(detail.as_str());
                    return Ok(Some(why));
                },
                Outcome::Unavailable(detail) => {
                    return Err(Error::new(STORE_UNAVAILABLE, detail.clone()));
                },
            },
        }
        i += 1;
    }
    Ok(None)
}

fn find_unnamed(samples: &Vec<Json>) -> (r: bool)
    ensures
        r == !all_named(docs(samples@)),
{
    let mut i: usize = 0;
    while i < samples.len()
        invariant
            i <= samples@.len(),
            forall|j: int| 0 <= j < i ==> action_of(#[trigger] docs(samples@)[j]) is Some,
        decreases samples@.len() - i,
    {
        if sample_action(&samples[i]).is_none() {
            assert(action_of(docs(samples@)[i as int]) is None);
            return true;
        }
        i += 1;
    }
    false
}

/// Why no sample is to be submitted, where the samples leave out an action that the manifest
/// declares, or it declares none.
pub fn uncovered(manifest: &Manifest, samples: &Vec<Json>) -> (r: Option<GroupResult>)
    ensures
        match coverage_failure(manifest.doc(), docs(samples@)) {
            Some(why) => r matches Some(g) && g@ == Grade::Failed(why),
            None => r is None,
        },
{
    let declared = actions_of(manifest);
    if declared.len() == 0 {
        return Some(
            failed(
                "the manifest declares no actions, so there is nothing it could conform to".to_owned(),
            ),
        );
    }
    if find_unnamed(samples) {
        return None;
    }
    let missing = find_unsampled(&declared, samples);
    if missing.len() == 0 {
        return None;
    }
    let mut why = join5(
        "no sample was emitted for ",
        decimal_text(missing.len() as u64).as_str(),
        " of ",
        decimal_text(declared.len() as u64).as_str(),
        " declared actions: ",
    );
    why.push_str(debug_list(&missing).as_str());
    Some(failed(why))
}

/// What a sample for every declared action concludes. Coverage comes first: where it fails, no
/// sample need have been submitted. Otherwise `tried` says what submitting each came to, as far as
/// the first that ended the run.
pub fn check_per_action_emission(
    manifest: &Manifest,
    samples: &Vec<Json>,
    tried: &Vec<Tried>,
) -> (r: Result<GroupResult, Error>)
    requires
        coverage_failure(manifest.doc(), docs(samples@)) is None ==> all_tried(
            docs(samples@),
            tried@,
            0,
        ),
    ensures
        match emission_grade(manifest.doc(), docs(samples@), tried@) {
            Ok(grade) => r matches Ok(v) && v@ == grade,
            Err(f) => r matches Err(e) && e@ == f,
        },
{
    if let Some(result) = uncovered(manifest, samples) {
        return Ok(result);
    }
    if let Some(why) = read_trials(samples, tried)? {
        return Ok(failed(why));
    }
    let checks: u32 = if samples.len() >= u32::MAX as usize {
        u32::MAX
    } else {
        samples.len() as u32 + 1
    };
    Ok(GroupResult::Passed { checks })
}

// -- laws -------------------------------------------------------------------------------------

/// A component that samples one action and not another it declares does not pass.
pub proof fn lemma_every_declared_action_is_sampled(
    d: Doc,
    samples: Seq<Doc>,
    tried: Seq<Tried>,
    i: int,
)
    requires
        emission_grade(d, samples, tried) matches Ok(Grade::Passed(_)),
        0 <= i < declared_actions(d).len(),
    ensures
        is_sampled(samples, declared_actions(d)[i], samples.len() as int),
{
    let declared = declared_actions(d);
    assert forall|j: int| 0 <= j < samples.len() implies action_of(#[trigger] samples[j]) is Some by {
        lemma_accepted_samples_are_named(samples, tried, 0, j);
    }
    lemma_unsampled(declared, samples, declared.len() as int, i);
}

proof fn lemma_accepted_samples_are_named(samples: Seq<Doc>, tried: Seq<Tried>, from: int, j: int)
    requires
        0 <= from <= j < samples.len(),
        emission_end(samples, tried, from) == Ok::<Option<Seq<char>>, Fault>(None),
    ensures
        action_of(samples[j]) is Some,
    decreases j - from,
{
    if from < j {
        lemma_accepted_samples_are_named(samples, tried, from + 1, j);
    }
}

/// Where a declared action has no sample, and every sample says what it is about, the component
/// fails on coverage, whatever became of the samples.
pub proof fn lemma_coverage_comes_first(d: Doc, samples: Seq<Doc>, tried: Seq<Tried>, i: int)
    requires
        all_named(samples),
        0 <= i < declared_actions(d).len(),
        !is_sampled(samples, declared_actions(d)[i], samples.len() as int),
    ensures
        coverage_failure(d, samples) is Some,
        emission_grade(d, samples, tried) == Ok::<Grade, Fault>(
            Grade::Failed(coverage_failure(d, samples)->0),
        ),
{
    let declared = declared_actions(d);
    if unsampled(declared, samples, declared.len() as int).len() == 0 {
        lemma_unsampled(declared, samples, declared.len() as int, i);
    }
}

proof fn lemma_unsampled(declared: Seq<Seq<char>>, samples: Seq<Doc>, upto: int, i: int)
    requires
        0 <= i < upto <= declared.len(),
        unsampled(declared, samples, upto).len() == 0,
    ensures
        is_sampled(samples, declared[i], samples.len() as int),
    decreases upto,
{
    if i < upto - 1 {
        lemma_unsampled(declared, samples, upto - 1, i);
    }
}

/// No component passes whose manifest lets an agent make a transition declared for humans alone.
pub proof fn lemma_human_only_transitions_hold(
    d: Doc,
    name: Seq<char>,
    object: Doc,
    i: int,
)
    requires
        object_checks(d, name, object) is Ok,
        0 <= i < object.at("transitions"@).items().len(),
        is_human_only(object.at("transitions"@).items()[i]),
    ensures
        transition_outcome(
            d,
            name,
            object.text_at("object-type"@)->0,
            object.at("transitions"@).items()[i].text_at("transition"@)->0,
            "agent"@,
            first_text(object.at("transitions"@).items()[i].at("from"@)),
        ) is Err,
{
    lemma_blurred(
        d,
        name,
        object.text_at("object-type"@)->0,
        object.at("transitions"@).items(),
        0,
        i,
    );
}

proof fn lemma_blurred(
    d: Doc,
    name: Seq<char>,
    object_type: Seq<char>,
    transitions: Seq<Doc>,
    from: int,
    i: int,
)
    requires
        0 <= from <= i < transitions.len(),
        blurred_transition(d, name, object_type, transitions, from) is None,
        is_human_only(transitions[i]),
    ensures
        transition_outcome(
            d,
            name,
            object_type,
            transitions[i].text_at("transition"@)->0,
            "agent"@,
            first_text(transitions[i].at("from"@)),
        ) is Err,
    decreases i - from,
{
    if from < i {
        lemma_blurred(d, name, object_type, transitions, from + 1, i);
    }
}

proof fn lemma_named_action(declarations: Seq<Doc>, upto: int, i: int, action: Seq<char>)
    requires
        0 <= i < upto <= declarations.len(),
        declarations[i].at("action"@) == Doc::Text(action),
    ensures
        named_actions(declarations, upto).contains(action),
    decreases upto,
{
    let before = named_actions(declarations, upto - 1);
    let out = named_actions(declarations, upto);
    if i < upto - 1 {
        lemma_named_action(declarations, upto - 1, i, action);
        let k = choose|k: int| 0 <= k < before.len() && before[k] == action;
        assert(out[k] == action);
    } else {
        assert(out[before.len() as int] == action);
    }
}

proof fn lemma_action_is_named(declarations: Seq<Doc>, upto: int, k: int) -> (r: int)
    requires
        0 <= upto <= declarations.len(),
        0 <= k < named_actions(declarations, upto).len(),
    ensures
        0 <= r < upto,
        declarations[r].at("action"@) == Doc::Text(named_actions(declarations, upto)[k]),
    decreases upto,
{
    let before = named_actions(declarations, upto - 1);
    if k < before.len() {
        lemma_action_is_named(declarations, upto - 1, k)
    } else {
        upto - 1
    }
}

/// The actions that a manifest declares are all those it names, wherever they stand.
pub proof fn lemma_which_actions_are_declared(d: Doc, action: Seq<char>)
    ensures
        declared_actions(d).contains(action) <==> exists|i: int|
            0 <= i < d.at("actions"@).items().len() && (#[trigger] d.at("actions"@).items()[i]).at(
                "action"@,
            ) == Doc::Text(action),
{
    let declarations = d.at("actions"@).items();
    let n = declarations.len() as int;
    let out = declared_actions(d);
    if out.contains(action) {
        let k = choose|k: int| 0 <= k < out.len() && out[k] == action;
        let i = lemma_action_is_named(declarations, n, k);
        assert(declarations[i].at("action"@) == Doc::Text(action));
    }
    assert forall|i: int|
        0 <= i < declarations.len() && (#[trigger] declarations[i]).at("action"@) == Doc::Text(
            action,
        ) implies out.contains(action) by {
        lemma_named_action(declarations, n, i, action);
    }
}

proof fn lemma_emission_end(samples: Seq<Doc>, tried: Seq<Tried>, from: int)
    requires
        0 <= from <= samples.len(),
    ensures
        emission_end(samples, tried, from) == Ok::<Option<Seq<char>>, Fault>(None) <==> forall|
            i: int,
        |
            from <= i < samples.len() ==> action_of(#[trigger] samples[i]) is Some && (tried[i]
                matches Tried::Answered(Outcome::Accepted(_))),
    decreases samples.len() - from,
{
    if from < samples.len() {
        lemma_emission_end(samples, tried, from + 1);
        assert(action_of(samples[from]) == action_of(samples[from]));
    }
}

proof fn lemma_none_unsampled(declared: Seq<Seq<char>>, samples: Seq<Doc>, upto: int)
    requires
        0 <= upto <= declared.len(),
    ensures
        unsampled(declared, samples, upto).len() == 0 <==> forall|i: int|
            0 <= i < upto ==> is_sampled(samples, #[trigger] declared[i], samples.len() as int),
    decreases upto,
{
    if upto > 0 {
        lemma_none_unsampled(declared, samples, upto - 1);
        assert(declared[upto - 1] == declared[upto - 1]);
    }
}

/// Emission conforms exactly where the manifest declares something, every action it declares was
/// sampled, and every sample named its action and was accepted.
pub proof fn lemma_when_emission_conforms(d: Doc, samples: Seq<Doc>, tried: Seq<Tried>)
    ensures
        (emission_grade(d, samples, tried) matches Ok(Grade::Passed(_))) <==> {
            &&& declared_actions(d).len() > 0
            &&& forall|i: int|
                0 <= i < declared_actions(d).len() ==> exists|k: int|
                    0 <= k < samples.len() && action_of(#[trigger] samples[k]) == Some(
                        #[trigger] declared_actions(d)[i],
                    )
            &&& forall|k: int|
                0 <= k < samples.len() ==> action_of(#[trigger] samples[k]) is Some && (tried[k]
                    matches Tried::Answered(Outcome::Accepted(_)))
        },
{
    let declared = declared_actions(d);
    lemma_emission_end(samples, tried, 0);
    lemma_none_unsampled(declared, samples, declared.len() as int);
    if emission_end(samples, tried, 0) == Ok::<Option<Seq<char>>, Fault>(None) {
        assert forall|i: int| 0 <= i < samples.len() implies action_of(#[trigger] samples[i])
            is Some by {}
        assert(all_named(samples));
    }
    if unsampled(declared, samples, declared.len() as int).len() == 0 {
        assert forall|i: int| 0 <= i < declared.len() implies exists|k: int|
            0 <= k < samples.len() && action_of(#[trigger] samples[k]) == Some(
                #[trigger] declared[i],
            ) by {
            assert(is_sampled(samples, declared[i], samples.len() as int));
            let k = choose|k: int|
                0 <= k < samples.len() && action_of(#[trigger] samples[k]) == Some(declared[i]);
            assert(action_of(samples[k]) == Some(declared[i]));
        }
    }
    if forall|i: int|
        0 <= i < declared.len() ==> exists|k: int|
            0 <= k < samples.len() && action_of(#[trigger] samples[k]) == Some(
                #[trigger] declared[i],
            ) {
        assert forall|i: int| 0 <= i < declared.len() implies is_sampled(
            samples,
            #[trigger] declared[i],
            samples.len() as int,
        ) by {
            let k = choose|k: int|
                0 <= k < samples.len() && action_of(#[trigger] samples[k]) == Some(declared[i]);
            assert(action_of(samples[k]) == Some(declared[i]));
        }
    }
}

proof fn lemma_refused_transition(
    d: Doc,
    name: Seq<char>,
    object_type: Seq<char>,
    transitions: Seq<Doc>,
    from: int,
)
    requires
        0 <= from <= transitions.len(),
    ensures
        refused_transition(d, name, object_type, transitions, from) is None ==> forall|i: int|
            from <= i < transitions.len() ==> {
                let t = #[trigger] transitions[i];
                &&& t.at("transition"@) is Text
                &&& first_text(t.at("signers"@)) matches Some(role) && transition_outcome(
                    d,
                    name,
                    object_type,
                    t.at("transition"@)->Text_0,
                    role,
                    first_text(t.at("from"@)),
                ) is Ok
            },
    decreases transitions.len() - from,
{
    if from < transitions.len() {
        lemma_refused_transition(d, name, object_type, transitions, from + 1);
    }
}

proof fn lemma_blurred_transition(
    d: Doc,
    name: Seq<char>,
    object_type: Seq<char>,
    transitions: Seq<Doc>,
    from: int,
)
    requires
        0 <= from <= transitions.len(),
    ensures
        blurred_transition(d, name, object_type, transitions, from) is None ==> forall|i: int|
            from <= i < transitions.len() && is_human_only(#[trigger] transitions[i])
                ==> transition_outcome(
                d,
                name,
                object_type,
                transitions[i].text_at("transition"@)->0,
                "agent"@,
                first_text(transitions[i].at("from"@)),
            ) is Err,
    decreases transitions.len() - from,
{
    if from < transitions.len() {
        lemma_blurred_transition(d, name, object_type, transitions, from + 1);
    }
}

/// An object conforms only where every transition it declares can be made as declared, one it does
/// not declare cannot, and those reserved to people cannot be made by agents.
pub proof fn lemma_when_an_object_conforms(d: Doc, name: Seq<char>, object: Doc)
    requires
        object_checks(d, name, object) is Ok,
    ensures
        object.at("object-type"@) is Text,
        ({
            let kind = object.at("object-type"@)->Text_0;
            let transitions = object.at("transitions"@).items();
            &&& transition_outcome(d, name, kind, "no-such-transition"@, "agent"@, None) is Err
            &&& forall|i: int|
                0 <= i < transitions.len() ==> {
                    let t = #[trigger] transitions[i];
                    &&& t.at("transition"@) is Text
                    &&& first_text(t.at("signers"@)) matches Some(role) && transition_outcome(
                        d,
                        name,
                        kind,
                        t.at("transition"@)->Text_0,
                        role,
                        first_text(t.at("from"@)),
                    ) is Ok
                }
            &&& forall|i: int|
                0 <= i < transitions.len() && is_human_only(#[trigger] transitions[i])
                    ==> transition_outcome(
                    d,
                    name,
                    kind,
                    transitions[i].text_at("transition"@)->0,
                    "agent"@,
                    first_text(transitions[i].at("from"@)),
                ) is Err
        }),
{
    let kind = object.text_at("object-type"@)->0;
    let transitions = object.at("transitions"@).items();
    lemma_refused_transition(d, name, kind, transitions, 0);
    lemma_blurred_transition(d, name, kind, transitions, 0);
}

proof fn lemma_objects_checks(
    d: Doc,
    name: Seq<char>,
    objects: Seq<Doc>,
    from: int,
    before: int,
)
    requires
        0 <= from <= objects.len(),
    ensures
        objects_checks(d, name, objects, from, before) is Ok <==> forall|i: int|
            from <= i < objects.len() ==> object_checks(d, name, #[trigger] objects[i]) is Ok,
    decreases objects.len() - from,
{
    if from < objects.len() {
        if let Ok(n) = object_checks(d, name, objects[from]) {
            lemma_objects_checks(d, name, objects, from + 1, before + n);
        }
    }
}

/// Durable objects conform exactly where there are some and each does, wherever it stands; where
/// there are none the group does not apply, and it fails where any of them does not conform.
pub proof fn lemma_when_durable_objects_conform(d: Doc, name: Seq<char>)
    ensures
        ({
            let objects = d.at("durable-objects"@).items();
            &&& durable_grade(d, name) is NotApplicable <==> objects.len() == 0
            &&& durable_grade(d, name) is Passed <==> objects.len() > 0 && forall|i: int|
                0 <= i < objects.len() ==> object_checks(d, name, #[trigger] objects[i]) is Ok
            &&& durable_grade(d, name) is Failed <==> exists|i: int|
                0 <= i < objects.len() && object_checks(d, name, #[trigger] objects[i]) is Err
        }),
{
    lemma_objects_checks(d, name, d.at("durable-objects"@).items(), 0, 0);
}

proof fn lemma_text_among(items: Seq<Doc>, upto: int, i: int, t: Seq<char>)
    requires
        0 <= i < upto <= items.len(),
        items[i] == Doc::Text(t),
    ensures
        texts_among(items, upto).contains(t),
    decreases upto,
{
    let before = texts_among(items, upto - 1);
    let out = texts_among(items, upto);
    if i < upto - 1 {
        lemma_text_among(items, upto - 1, i, t);
        let k = choose|k: int| 0 <= k < before.len() && before[k] == t;
        assert(out[k] == t);
    } else {
        assert(out[before.len() as int] == t);
    }
}

proof fn lemma_among_texts(items: Seq<Doc>, upto: int, k: int) -> (r: int)
    requires
        0 <= upto <= items.len(),
        0 <= k < texts_among(items, upto).len(),
    ensures
        0 <= r < upto,
        items[r] == Doc::Text(texts_among(items, upto)[k]),
    decreases upto,
{
    let before = texts_among(items, upto - 1);
    if k < before.len() {
        lemma_among_texts(items, upto - 1, k)
    } else {
        upto - 1
    }
}

/// The texts of a list are exactly its items that are texts, wherever they stand.
pub proof fn lemma_which_texts_are_among(items: Seq<Doc>, t: Seq<char>)
    ensures
        texts_among(items, items.len() as int).contains(t) <==> exists|i: int|
            0 <= i < items.len() && #[trigger] items[i] == Doc::Text(t),
{
    let n = items.len() as int;
    let out = texts_among(items, n);
    if out.contains(t) {
        let k = choose|k: int| 0 <= k < out.len() && out[k] == t;
        let i = lemma_among_texts(items, n, k);
        assert(items[i] == Doc::Text(t));
    }
    assert forall|i: int| 0 <= i < items.len() && #[trigger] items[i] == Doc::Text(
        t,
    ) implies out.contains(t) by {
        lemma_text_among(items, n, i, t);
    }
}

/// A transition reserved to people lists nobody but people, and a name; one that lists an agent,
/// wherever, is not reserved.
pub proof fn lemma_which_transitions_are_reserved(t: Doc)
    ensures
        is_human_only(t) ==> t.at("transition"@) is Text,
        is_human_only(t) ==> exists|i: int|
            0 <= i < t.at("signers"@).items().len() && #[trigger] t.at("signers"@).items()[i]
                == Doc::Text("human"@),
        (exists|i: int|
            0 <= i < t.at("signers"@).items().len() && #[trigger] t.at("signers"@).items()[i]
                == Doc::Text("agent"@)) ==> !is_human_only(t),
{
    reveal_strlit("human");
    reveal_strlit("agent");
    assert("human"@[0] == 'h');
    assert("agent"@[0] == 'a');
    let items = t.at("signers"@).items();
    let among = texts_among(items, items.len() as int);
    lemma_which_texts_are_among(items, "human"@);
    lemma_which_texts_are_among(items, "agent"@);
    if is_human_only(t) {
        assert(among[0] == "human"@);
        assert(among.contains("human"@));
        if among.contains("agent"@) {
            let k = choose|k: int| 0 <= k < among.len() && among[k] == "agent"@;
            assert(k == 0);
        }
    }
}

} // verus!
