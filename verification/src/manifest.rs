//! Extension manifests: what a component declares it will do, and the state machines of the
//! objects it keeps.
//!
//! A manifest proposes a class for each action; it never decides one. Its durable objects move
//! only along the transitions it declares, and a transition reserved to a person is refused from
//! an agent's key whatever that agent's mandate.

use vstd::prelude::*;
use vstd::string::*;

use crate::codes::MANIFEST_MALFORMED;
use crate::error::{fault, is_text_result, refusal, settles, Error, Fault};
use crate::json::{
    absent, absent_member, compact, docs, entry_named, find_entry, is_text, list_holds, lists,
    member_docs, named, one_of, stranger, unknown_member, Doc, Json,
};
use crate::keys::KeyId;
use crate::text::{
    after, begins, chars_of, debug_text, decimal, decimal_text, is_digit, join2, join3, join4,
    join5, opt_text, or_empty, quoted, same, starts_with, text_or_empty,
};
use crate::vocabulary::{CLASSES, VERSION};

verus! {

/// Every member a manifest may have.
pub const MEMBERS: [&'static str; 12] = [
    "v",
    "kind",
    "name",
    "version",
    "subject-class",
    "description",
    "actions",
    "evidence-schemas",
    "budget-dimensions",
    "durable-objects",
    "conformance",
    "sig",
];

/// Every member a manifest must have, in the order they are looked for.
pub const REQUIRED_MEMBERS: [&'static str; 10] = [
    "v",
    "kind",
    "name",
    "version",
    "subject-class",
    "actions",
    "evidence-schemas",
    "budget-dimensions",
    "durable-objects",
    "conformance",
];

/// What a component may be.
pub const SUBJECT_CLASSES: [&'static str; 6] = [
    "tool-proxy",
    "browser-agent",
    "executor",
    "memory",
    "orchestrator-bridge",
    "kernel",
];

/// Every member an action may have.
pub const ACTION_MEMBERS: [&'static str; 7] = [
    "action",
    "class",
    "evidence-schema",
    "aggregate",
    "idempotent",
    "target-kind",
    "degrade",
];

/// Every member an action must have.
pub const REQUIRED_ACTION_MEMBERS: [&'static str; 5] = [
    "action",
    "class",
    "evidence-schema",
    "idempotent",
    "target-kind",
];

/// The budget dimensions with a fixed name; money has one per currency besides.
pub const BUDGET_DIMENSIONS: [&'static str; 5] = [
    "requests",
    "tokens",
    "tokens-in",
    "tokens-out",
    "wall-clock-seconds",
];

/// Every member of a durable object, all required.
pub const OBJECT_MEMBERS: [&'static str; 3] = ["object-type", "id-kind", "transitions"];

/// Every member of a transition, all required.
pub const TRANSITION_MEMBERS: [&'static str; 4] = ["transition", "from", "to", "signers"];

/// What a manifest's conformance section must say.
pub const CONFORMANCE_MEMBERS: [&'static str; 2] = ["self-test", "vectors-version"];

// -- names ------------------------------------------------------------------------------------

/// Whether a character is an ASCII lowercase letter.
pub open spec fn is_lower(c: char) -> bool {
    'a' <= c && c <= 'z'
}

/// Whether a text is a lowercase letter followed by lowercase letters, digits and `extra`, and has
/// a length within bounds.
pub open spec fn is_name(s: Seq<char>, least: int, most: int, extra: char) -> bool {
    &&& least <= s.len() <= most
    &&& is_lower(s[0])
    &&& forall|i: int|
        1 <= i < s.len() ==> is_lower(#[trigger] s[i]) || is_digit(s[i]) || s[i] == extra
}

/// Whether a text is a component's name: `[a-z][a-z0-9-]{1,31}`.
pub open spec fn component_name(s: Seq<char>) -> bool {
    is_name(s, 2, 32, '-')
}

/// Whether a text is an action of a component: its name, a dot, and `[a-z][a-z0-9_]{0,63}`.
pub open spec fn action_identifier(component: Seq<char>, action: Seq<char>) -> bool {
    &&& begins(action, component + seq!['.'])
    &&& is_name(action.skip(component.len() as int + 1), 1, 64, '_')
}

/// Whether a text is a lowercase letter followed by lowercase letters, digits and `extra`.
fn check_name(s: &str, least: usize, most: usize, extra: char) -> (r: bool)
    requires
        1 <= least,
    ensures
        r == is_name(s@, least as int, most as int, extra),
{
    let chars = chars_of(s);
    if chars.len() < least || chars.len() > most {
        return false;
    }
    if !(chars[0] >= 'a' && chars[0] <= 'z') {
        return false;
    }
    let mut i: usize = 1;
    while i < chars.len()
        invariant
            chars@ == s@,
            1 <= i <= chars@.len(),
            forall|j: int|
                1 <= j < i ==> is_lower(#[trigger] s@[j]) || is_digit(s@[j]) || s@[j] == extra,
        decreases chars@.len() - i,
    {
        let c: char = chars[i];
        if !((c >= 'a' && c <= 'z') || (c >= '0' && c <= '9') || c == extra) {
            assert(!is_lower(s@[i as int]));
            return false;
        }
        i += 1;
    }
    true
}

/// Whether a text is a component's name: `[a-z][a-z0-9-]{1,31}`.
pub fn is_component_name(name: &str) -> (r: bool)
    ensures
        r == component_name(name@),
{
    check_name(name, 2, 32, '-')
}

/// Whether a text is an action of a component: its name, a dot, and `[a-z][a-z0-9_]{0,63}`.
pub fn is_action_identifier(component: &str, action: &str) -> (r: bool)
    ensures
        r == action_identifier(component@, action@),
{
    let mut prefix = component.to_owned();
    prefix.push('.');
    assert(prefix@ == component@ + seq!['.']);
    if !starts_with(action, prefix.as_str()) {
        return false;
    }
    check_name(after(action, prefix.as_str().unicode_len()), 1, 64, '_')
}

// -- validation -------------------------------------------------------------------------------

/// The refusal of the first evidence schema, from a place on, that is not a closed schema object.
pub open spec fn schemas_fault(schemas: Seq<(Seq<char>, Doc)>, from: int) -> Option<Fault>
    decreases schemas.len() - from,
{
    if from >= schemas.len() {
        None
    } else {
        let (id, schema) = schemas[from];
        if schema.as_record() is None {
            Some(
                fault(
                    "schema-type-mismatch"@,
                    "evidence-schemas."@ + id + " must be a JSON Schema object"@,
                ),
            )
        } else if schema.at("additionalProperties"@).as_bool() != Some(false) {
            Some(
                fault(
                    MANIFEST_MALFORMED@,
                    "evidence-schemas."@ + id + " must set additionalProperties: false"@,
                ),
            )
        } else {
            schemas_fault(schemas, from + 1)
        }
    }
}

/// What is wrong with the sampling rule of an action, which a `read` action must have and no other
/// may: between one and sixteen samples, and a named way of choosing them.
pub open spec fn aggregate_fault(id: Seq<char>, class: Seq<char>, rule: Doc) -> Option<Fault> {
    let max = rule.at("max-samples"@).as_u64();
    if class != "read"@ {
        if rule == Doc::Null {
            None
        } else {
            Some(
                fault(
                    MANIFEST_MALFORMED@,
                    id + " is class "@ + class + " and must not declare an aggregate rule"@,
                ),
            )
        }
    } else if rule == Doc::Null {
        Some(fault(MANIFEST_MALFORMED@, id + " is class read and declares no aggregate rule"@))
    } else if max is None {
        Some(fault("schema-missing-member"@, "actions[].aggregate.max-samples for "@ + id))
    } else if max == Some(0int) || max->0 > 16 {
        Some(
            fault(
                "aggregate-sample-bounds"@,
                id + " declares max-samples "@ + decimal(max->0 as nat) + ", expected 1..=16"@,
            ),
        )
    } else if rule.text_at("sampling"@) is None {
        Some(fault("schema-missing-member"@, "actions[].aggregate.sampling for "@ + id))
    } else {
        None
    }
}

/// What is wrong with an action that the component `name` declares.
pub open spec fn action_fault(name: Seq<char>, schemas: Doc, action: Doc) -> Option<Fault> {
    let id = or_empty(action.text_at("action"@));
    let class = or_empty(action.text_at("class"@));
    let schema = or_empty(action.text_at("evidence-schema"@));
    if action.as_record() is None {
        Some(fault("schema-type-mismatch"@, "an action must be an object"@))
    } else if let Some(key) = stranger(action->Record_0, ACTION_MEMBERS@, 0) {
        Some(fault("schema-unknown-member"@, "actions[]."@ + key))
    } else if let Some(key) = absent(action, REQUIRED_ACTION_MEMBERS@, 0) {
        Some(fault("schema-missing-member"@, "actions[]."@ + key))
    } else if !action_identifier(name, id) {
        Some(
            fault(
                "manifest-action-namespace"@,
                quoted(id) + " is not in the "@ + quoted(name) + " namespace"@,
            ),
        )
    } else if !named(CLASSES@, class) {
        Some(fault("envelope-classification-unknown"@, "actions[].class "@ + quoted(class)))
    } else if action.at("idempotent"@).as_bool() is None {
        Some(fault("schema-type-mismatch"@, "actions[].idempotent must be a boolean"@))
    } else if schemas.get(schema) is None {
        Some(
            fault(
                "manifest-evidence-schema-missing"@,
                id + " declares evidence-schema "@ + quoted(schema) + ", which is not defined"@,
            ),
        )
    } else if class == "prohibited"@ && action.at("degrade"@) != Doc::Null {
        Some(
            fault(
                "manifest-prohibited-degrade"@,
                id + " is prohibited and declares a degraded form"@,
            ),
        )
    } else {
        aggregate_fault(id, class, action.at("aggregate"@))
    }
}

/// The refusal of the first action, from a place on, that may not be declared.
pub open spec fn actions_fault(
    name: Seq<char>,
    schemas: Doc,
    actions: Seq<Doc>,
    from: int,
) -> Option<Fault>
    decreases actions.len() - from,
{
    if from >= actions.len() {
        None
    } else if let Some(f) = action_fault(name, schemas, actions[from]) {
        Some(f)
    } else {
        actions_fault(name, schemas, actions, from + 1)
    }
}

/// Whether a text is a budget dimension: a fixed one, or `money-` and three lowercase letters.
pub open spec fn is_budget_dimension(s: Seq<char>) -> bool {
    named(BUDGET_DIMENSIONS@, s) || (begins(s, "money-"@) && s.len() == 9 && is_lower(s[6])
        && is_lower(s[7]) && is_lower(s[8]))
}

/// The refusal of the first entry, from a place on, that is no budget dimension.
pub open spec fn dimensions_fault(dimensions: Seq<Doc>, from: int) -> Option<Fault>
    decreases dimensions.len() - from,
{
    if from >= dimensions.len() {
        None
    } else {
        let dimension = or_empty(dimensions[from].as_text());
        if !is_budget_dimension(dimension) {
            Some(
                fault(
                    MANIFEST_MALFORMED@,
                    "budget-dimensions holds "@ + quoted(dimension)
                        + ", which is not a budget dimension"@,
                ),
            )
        } else {
            dimensions_fault(dimensions, from + 1)
        }
    }
}

/// The refusal of the first signer role, from a place on, that is neither a person nor an agent.
pub open spec fn signers_fault(signers: Seq<Doc>, from: int) -> Option<Fault>
    decreases signers.len() - from,
{
    if from >= signers.len() {
        None
    } else if signers[from].as_text() != Some("human"@) && signers[from].as_text() != Some(
        "agent"@,
    ) {
        Some(
            fault(MANIFEST_MALFORMED@, "transitions[].signers holds "@ + compact(signers[from])),
        )
    } else {
        signers_fault(signers, from + 1)
    }
}

/// What is wrong with a declared transition.
pub open spec fn transition_fault(transition: Doc) -> Option<Fault> {
    let signers = transition.at("signers"@).as_list();
    if transition.as_record() is None {
        Some(fault("schema-type-mismatch"@, "a transition must be an object"@))
    } else if let Some(key) = stranger(transition->Record_0, TRANSITION_MEMBERS@, 0) {
        Some(fault("schema-unknown-member"@, "transitions[]."@ + key))
    } else if let Some(key) = absent(transition, TRANSITION_MEMBERS@, 0) {
        Some(fault("schema-missing-member"@, "transitions[]."@ + key))
    } else if transition.at("from"@).as_list() is None {
        Some(fault("schema-type-mismatch"@, "transitions[].from must be an array"@))
    } else if signers is None {
        Some(fault("schema-type-mismatch"@, "transitions[].signers must be an array"@))
    } else if signers->0.len() == 0 {
        Some(fault(MANIFEST_MALFORMED@, "transitions[].signers must be non-empty"@))
    } else {
        signers_fault(signers->0, 0)
    }
}

/// The refusal of the first transition, from a place on, that may not be declared.
pub open spec fn transitions_fault(transitions: Seq<Doc>, from: int) -> Option<Fault>
    decreases transitions.len() - from,
{
    if from >= transitions.len() {
        None
    } else if let Some(f) = transition_fault(transitions[from]) {
        Some(f)
    } else {
        transitions_fault(transitions, from + 1)
    }
}

/// What is wrong with a declared durable object.
pub open spec fn object_fault(object: Doc) -> Option<Fault> {
    let transitions = object.at("transitions"@).as_list();
    if object.as_record() is None {
        Some(fault("schema-type-mismatch"@, "a durable object must be an object"@))
    } else if let Some(key) = stranger(object->Record_0, OBJECT_MEMBERS@, 0) {
        Some(fault("schema-unknown-member"@, "durable-objects[]."@ + key))
    } else if let Some(key) = absent(object, OBJECT_MEMBERS@, 0) {
        Some(fault("schema-missing-member"@, "durable-objects[]."@ + key))
    } else if transitions is None {
        Some(fault("schema-type-mismatch"@, "transitions must be an array"@))
    } else if transitions->0.len() == 0 {
        Some(fault(MANIFEST_MALFORMED@, "a durable object declares no transitions"@))
    } else {
        transitions_fault(transitions->0, 0)
    }
}

/// The refusal of the first durable object, from a place on, that may not be declared.
pub open spec fn objects_fault(objects: Seq<Doc>, from: int) -> Option<Fault>
    decreases objects.len() - from,
{
    if from >= objects.len() {
        None
    } else if let Some(f) = object_fault(objects[from]) {
        Some(f)
    } else {
        objects_fault(objects, from + 1)
    }
}

/// What is wrong with a manifest's list of durable objects.
pub open spec fn durable_objects_fault(objects: Doc) -> Option<Fault> {
    match objects.as_list() {
        None => Some(fault("schema-type-mismatch"@, "durable-objects must be an array"@)),
        Some(list) => objects_fault(list, 0),
    }
}

/// The refusal of the first thing, from a place on, that a conformance section fails to say.
pub open spec fn conformance_fault(conformance: Doc, from: int) -> Option<Fault>
    decreases CONFORMANCE_MEMBERS@.len() - from,
{
    if from >= CONFORMANCE_MEMBERS@.len() {
        None
    } else if conformance.text_at(CONFORMANCE_MEMBERS@[from]@) is None {
        Some(fault("schema-missing-member"@, "conformance."@ + CONFORMANCE_MEMBERS@[from]@))
    } else {
        conformance_fault(conformance, from + 1)
    }
}

/// What is wrong with the declarations of a manifest whose head is in order.
pub open spec fn declarations_fault(d: Doc) -> Option<Fault> {
    let name = or_empty(d.text_at("name"@));
    let schemas = d.at("evidence-schemas"@);
    let actions = d.at("actions"@).as_list();
    let dimensions = d.at("budget-dimensions"@).as_list();
    if schemas.as_record() is None {
        Some(fault("schema-type-mismatch"@, "evidence-schemas must be an object"@))
    } else if let Some(f) = schemas_fault(schemas->Record_0, 0) {
        Some(f)
    } else if actions is None {
        Some(fault("schema-type-mismatch"@, "actions must be an array"@))
    } else if actions->0.len() == 0 {
        Some(fault(MANIFEST_MALFORMED@, "actions must be non-empty"@))
    } else if let Some(f) = actions_fault(name, schemas, actions->0, 0) {
        Some(f)
    } else if dimensions is None {
        Some(fault("schema-type-mismatch"@, "budget-dimensions must be an array"@))
    } else if let Some(f) = dimensions_fault(dimensions->0, 0) {
        Some(f)
    } else if let Some(f) = durable_objects_fault(d.at("durable-objects"@)) {
        Some(f)
    } else if d.at("conformance"@).as_record() is None {
        Some(fault("schema-type-mismatch"@, "conformance must be an object"@))
    } else {
        conformance_fault(d.at("conformance"@), 0)
    }
}

/// What is wrong with a manifest up to its signature: a closed record with every required member,
/// of this version and kind.
pub open spec fn head_fault(d: Doc) -> Option<Fault> {
    if d.as_record() is None {
        Some(fault(MANIFEST_MALFORMED@, "a manifest must be a JSON object"@))
    } else if let Some(key) = stranger(d->Record_0, MEMBERS@, 0) {
        Some(fault("schema-unknown-member"@, key))
    } else if let Some(key) = absent(d, REQUIRED_MEMBERS@, 0) {
        Some(fault("schema-missing-member"@, key))
    } else if d.text_at("v"@) != Some(VERSION@) {
        Some(
            fault("envelope-version-unsupported"@, "manifest v is "@ + compact(d.at("v"@))),
        )
    } else if d.text_at("kind"@) != Some("manifest"@) {
        Some(fault("envelope-unknown-kind"@, "manifest kind is "@ + compact(d.at("kind"@))))
    } else {
        None
    }
}

/// What is wrong with the names a signed manifest goes by.
pub open spec fn names_fault(d: Doc) -> Option<Fault> {
    let name = d.text_at("name"@);
    let class = or_empty(d.text_at("subject-class"@));
    if name is None {
        Some(fault("schema-type-mismatch"@, "name must be a string"@))
    } else if !component_name(name->0) {
        Some(
            fault(
                MANIFEST_MALFORMED@,
                "name "@ + quoted(name->0) + " does not match ^[a-z][a-z0-9-]{1,31}$"@,
            ),
        )
    } else if or_empty(d.text_at("version"@)).len() == 0 {
        Some(fault("schema-type-mismatch"@, "version must be a non-empty string"@))
    } else if !named(SUBJECT_CLASSES@, class) {
        Some(
            fault(
                MANIFEST_MALFORMED@,
                "subject-class "@ + quoted(class) + " is not one of the subject classes"@,
            ),
        )
    } else {
        None
    }
}

/// What is wrong with a manifest, given what verifying its signature and hashing it came to: the
/// first of its faults in the order of its parts, the signature standing before every name and
/// the hash coming last.
pub open spec fn manifest_fault(
    d: Doc,
    signer: Result<KeyId, Error>,
    hash: Result<String, Error>,
) -> Option<Fault> {
    if let Some(f) = head_fault(d) {
        Some(f)
    } else if let Err(e) = signer {
        Some(e@)
    } else if let Some(f) = names_fault(d) {
        Some(f)
    } else if let Some(f) = declarations_fault(d) {
        Some(f)
    } else if let Err(e) = hash {
        Some(e@)
    } else {
        None
    }
}

fn check_schemas(schemas: &Vec<(String, Json)>) -> (r: Result<(), Error>)
    ensures
        settles(r, schemas_fault(member_docs(schemas@), 0)),
{
    let mut i: usize = 0;
    while i < schemas.len()
        invariant
            i <= schemas@.len(),
            schemas_fault(member_docs(schemas@), 0) == schemas_fault(
                member_docs(schemas@),
                i as int,
            ),
        decreases schemas@.len() - i,
    {
        let id = schemas[i].0.as_str();
        let schema = &schemas[i].1;
        if schema.as_record().is_none() {
            return Err(
                Error::new(
                    "schema-type-mismatch",
                    join3("evidence-schemas.", id, " must be a JSON Schema object"),
                ),
            );
        }
        let closed = match schema.at("additionalProperties").as_bool() {
            Some(open) => !open,
            None => false,
        };
        if !closed {
            return Err(
                Error::new(
                    MANIFEST_MALFORMED,
                    join3("evidence-schemas.", id, " must set additionalProperties: false"),
                ),
            );
        }
        i += 1;
    }
    Ok(())
}

fn check_aggregate(id: &str, class: &str, rule: &Json) -> (r: Result<(), Error>)
    ensures
        settles(r, aggregate_fault(id@, class@, rule@)),
{
    if !same(class, "read") {
        if rule.is_null() {
            return Ok(());
        }
        return Err(
            Error::new(
                MANIFEST_MALFORMED,
                join4(id, " is class ", class, " and must not declare an aggregate rule"),
            ),
        );
    }
    if rule.is_null() {
        return Err(
            Error::new(
                MANIFEST_MALFORMED,
                join2(id, " is class read and declares no aggregate rule"),
            ),
        );
    }
    match rule.at("max-samples").as_u64() {
        None => Err(
            Error::new(
                "schema-missing-member",
                join2("actions[].aggregate.max-samples for ", id),
            ),
        ),
        Some(max) => {
            if max == 0 || max > 16 {
                return Err(
                    Error::new(
                        "aggregate-sample-bounds",
                        join4(
                            id,
                            " declares max-samples ",
                            decimal_text(max).as_str(),
                            ", expected 1..=16",
                        ),
                    ),
                );
            }
            if rule.text_at("sampling").is_none() {
                return Err(
                    Error::new(
                        "schema-missing-member",
                        join2("actions[].aggregate.sampling for ", id),
                    ),
                );
            }
            Ok(())
        },
    }
}

fn check_action(name: &str, schemas: &Json, action: &Json) -> (r: Result<(), Error>)
    ensures
        settles(r, action_fault(name@, schemas@, action@)),
{
    let members = match action.as_record() {
        Some(members) => members,
        None => {
            return Err(refusal("schema-type-mismatch", "an action must be an object"));
        },
    };
    if let Some(key) = unknown_member(members, &ACTION_MEMBERS) {
        return Err(Error::new("schema-unknown-member", join2("actions[].", key.as_str())));
    }
    if let Some(key) = absent_member(action, &REQUIRED_ACTION_MEMBERS) {
        return Err(Error::new("schema-missing-member", join2("actions[].", key.as_str())));
    }
    let id = text_or_empty(action.text_at("action"));
    if !is_action_identifier(name, id) {
        return Err(
            Error::new(
                "manifest-action-namespace",
                join4(
                    debug_text(id).as_str(),
                    " is not in the ",
                    debug_text(name).as_str(),
                    " namespace",
                ),
            ),
        );
    }
    let class = text_or_empty(action.text_at("class"));
    if !one_of(class, &CLASSES) {
        return Err(
            Error::new(
                "envelope-classification-unknown",
                join2("actions[].class ", debug_text(class).as_str()),
            ),
        );
    }
    if action.at("idempotent").as_bool().is_none() {
        return Err(refusal("schema-type-mismatch", "actions[].idempotent must be a boolean"));
    }
    let schema = text_or_empty(action.text_at("evidence-schema"));
    if schemas.get(schema).is_none() {
        return Err(
            Error::new(
                "manifest-evidence-schema-missing",
                join4(
                    id,
                    " declares evidence-schema ",
                    debug_text(schema).as_str(),
                    ", which is not defined",
                ),
            ),
        );
    }
    if same(class, "prohibited") && !action.at("degrade").is_null() {
        return Err(
            Error::new(
                "manifest-prohibited-degrade",
                join2(id, " is prohibited and declares a degraded form"),
            ),
        );
    }
    check_aggregate(id, class, action.at("aggregate"))
}

fn check_actions(name: &str, schemas: &Json, actions: &Vec<Json>) -> (r: Result<(), Error>)
    ensures
        settles(r, actions_fault(name@, schemas@, docs(actions@), 0)),
{
    let mut i: usize = 0;
    while i < actions.len()
        invariant
            i <= actions@.len(),
            actions_fault(name@, schemas@, docs(actions@), 0) == actions_fault(
                name@,
                schemas@,
                docs(actions@),
                i as int,
            ),
        decreases actions@.len() - i,
    {
        check_action(name, schemas, &actions[i])?;
        i += 1;
    }
    Ok(())
}

fn is_dimension(s: &str) -> (r: bool)
    ensures
        r == is_budget_dimension(s@),
{
    if one_of(s, &BUDGET_DIMENSIONS) {
        return true;
    }
    let chars = chars_of(s);
    starts_with(s, "money-") && chars.len() == 9 && 'a' <= chars[6] && chars[6] <= 'z' && 'a'
        <= chars[7] && chars[7] <= 'z' && 'a' <= chars[8] && chars[8] <= 'z'
}

fn check_dimensions(dimensions: &Vec<Json>) -> (r: Result<(), Error>)
    ensures
        settles(r, dimensions_fault(docs(dimensions@), 0)),
{
    let mut i: usize = 0;
    while i < dimensions.len()
        invariant
            i <= dimensions@.len(),
            dimensions_fault(docs(dimensions@), 0) == dimensions_fault(
                docs(dimensions@),
                i as int,
            ),
        decreases dimensions@.len() - i,
    {
        let dimension = text_or_empty(dimensions[i].as_text());
        if !is_dimension(dimension) {
            return Err(
                Error::new(
                    MANIFEST_MALFORMED,
                    join3(
                        "budget-dimensions holds ",
                        debug_text(dimension).as_str(),
                        ", which is not a budget dimension",
                    ),
                ),
            );
        }
        i += 1;
    }
    Ok(())
}

fn check_signers(signers: &Vec<Json>) -> (r: Result<(), Error>)
    ensures
        settles(r, signers_fault(docs(signers@), 0)),
{
    let mut i: usize = 0;
    while i < signers.len()
        invariant
            i <= signers@.len(),
            signers_fault(docs(signers@), 0) == signers_fault(docs(signers@), i as int),
        decreases signers@.len() - i,
    {
        let known = match signers[i].as_text() {
            Some(role) => same(role, "human") || same(role, "agent"),
            None => false,
        };
        if !known {
            return Err(
                Error::new(
                    MANIFEST_MALFORMED,
                    join2("transitions[].signers holds ", signers[i].to_text().as_str()),
                ),
            );
        }
        i += 1;
    }
    Ok(())
}

fn check_declared_transition(transition: &Json) -> (r: Result<(), Error>)
    ensures
        settles(r, transition_fault(transition@)),
{
    let members = match transition.as_record() {
        Some(members) => members,
        None => {
            return Err(refusal("schema-type-mismatch", "a transition must be an object"));
        },
    };
    if let Some(key) = unknown_member(members, &TRANSITION_MEMBERS) {
        return Err(Error::new("schema-unknown-member", join2("transitions[].", key.as_str())));
    }
    if let Some(key) = absent_member(transition, &TRANSITION_MEMBERS) {
        return Err(Error::new("schema-missing-member", join2("transitions[].", key.as_str())));
    }
    if transition.at("from").as_list().is_none() {
        return Err(refusal("schema-type-mismatch", "transitions[].from must be an array"));
    }
    match transition.at("signers").as_list() {
        None => Err(refusal("schema-type-mismatch", "transitions[].signers must be an array")),
        Some(signers) => {
            if signers.len() == 0 {
                return Err(
                    refusal(MANIFEST_MALFORMED, "transitions[].signers must be non-empty"),
                );
            }
            check_signers(signers)
        },
    }
}

fn check_object(object: &Json) -> (r: Result<(), Error>)
    ensures
        settles(r, object_fault(object@)),
{
    let members = match object.as_record() {
        Some(members) => members,
        None => {
            return Err(refusal("schema-type-mismatch", "a durable object must be an object"));
        },
    };
    if let Some(key) = unknown_member(members, &OBJECT_MEMBERS) {
        return Err(Error::new("schema-unknown-member", join2("durable-objects[].", key.as_str())));
    }
    if let Some(key) = absent_member(object, &OBJECT_MEMBERS) {
        return Err(Error::new("schema-missing-member", join2("durable-objects[].", key.as_str())));
    }
    let transitions = match object.at("transitions").as_list() {
        Some(list) => list,
        None => {
            return Err(refusal("schema-type-mismatch", "transitions must be an array"));
        },
    };
    if transitions.len() == 0 {
        return Err(refusal(MANIFEST_MALFORMED, "a durable object declares no transitions"));
    }
    let mut i: usize = 0;
    while i < transitions.len()
        invariant
            i <= transitions@.len(),
            transitions_fault(docs(transitions@), 0) == transitions_fault(
                docs(transitions@),
                i as int,
            ),
            object_fault(object@) == transitions_fault(docs(transitions@), 0),
        decreases transitions@.len() - i,
    {
        check_declared_transition(&transitions[i])?;
        i += 1;
    }
    Ok(())
}

/// Checks a manifest's list of durable objects.
pub fn validate_durable_objects(objects: &Json) -> (r: Result<(), Error>)
    ensures
        settles(r, durable_objects_fault(objects@)),
{
    let list = match objects.as_list() {
        Some(list) => list,
        None => {
            return Err(refusal("schema-type-mismatch", "durable-objects must be an array"));
        },
    };
    let mut i: usize = 0;
    while i < list.len()
        invariant
            i <= list@.len(),
            objects_fault(docs(list@), 0) == objects_fault(docs(list@), i as int),
            durable_objects_fault(objects@) == objects_fault(docs(list@), 0),
        decreases list@.len() - i,
    {
        check_object(&list[i])?;
        i += 1;
    }
    Ok(())
}

fn check_conformance(conformance: &Json) -> (r: Result<(), Error>)
    ensures
        settles(r, conformance_fault(conformance@, 0)),
{
    let mut i: usize = 0;
    while i < CONFORMANCE_MEMBERS.len()
        invariant
            i <= CONFORMANCE_MEMBERS@.len(),
            conformance_fault(conformance@, 0) == conformance_fault(conformance@, i as int),
        decreases CONFORMANCE_MEMBERS@.len() - i,
    {
        if conformance.text_at(CONFORMANCE_MEMBERS[i]).is_none() {
            return Err(
                Error::new(
                    "schema-missing-member",
                    join2("conformance.", CONFORMANCE_MEMBERS[i]),
                ),
            );
        }
        i += 1;
    }
    Ok(())
}

fn check_head(document: &Json) -> (r: Result<(), Error>)
    ensures
        settles(r, head_fault(document@)),
{
    let members = match document.as_record() {
        Some(members) => members,
        None => {
            return Err(refusal(MANIFEST_MALFORMED, "a manifest must be a JSON object"));
        },
    };
    if let Some(key) = unknown_member(members, &MEMBERS) {
        return Err(Error::new("schema-unknown-member", key));
    }
    if let Some(key) = absent_member(document, &REQUIRED_MEMBERS) {
        return Err(Error::new("schema-missing-member", key));
    }
    if !is_text(document.at("v"), VERSION) {
        return Err(
            Error::new(
                "envelope-version-unsupported",
                join2("manifest v is ", document.at("v").to_text().as_str()),
            ),
        );
    }
    if !is_text(document.at("kind"), "manifest") {
        return Err(
            Error::new(
                "envelope-unknown-kind",
                join2("manifest kind is ", document.at("kind").to_text().as_str()),
            ),
        );
    }
    Ok(())
}

fn check_names(document: &Json) -> (r: Result<(), Error>)
    ensures
        settles(r, names_fault(document@)),
{
    let name = match document.text_at("name") {
        Some(name) => name,
        None => {
            return Err(refusal("schema-type-mismatch", "name must be a string"));
        },
    };
    if !is_component_name(name) {
        return Err(
            Error::new(
                MANIFEST_MALFORMED,
                join3(
                    "name ",
                    debug_text(name).as_str(),
                    " does not match ^[a-z][a-z0-9-]{1,31}$",
                ),
            ),
        );
    }
    if text_or_empty(document.text_at("version")).is_empty() {
        return Err(refusal("schema-type-mismatch", "version must be a non-empty string"));
    }
    let class = text_or_empty(document.text_at("subject-class"));
    if !one_of(class, &SUBJECT_CLASSES) {
        return Err(
            Error::new(
                MANIFEST_MALFORMED,
                join3("subject-class ", debug_text(class).as_str(), " is not one of the subject classes"),
            ),
        );
    }
    Ok(())
}

fn check_declarations(document: &Json) -> (r: Result<(), Error>)
    ensures
        settles(r, declarations_fault(document@)),
{
    let name = text_or_empty(document.text_at("name"));
    let schemas = document.at("evidence-schemas");
    match schemas.as_record() {
        None => {
            return Err(refusal("schema-type-mismatch", "evidence-schemas must be an object"));
        },
        Some(members) => {
            check_schemas(members)?;
        },
    }
    match document.at("actions").as_list() {
        None => {
            return Err(refusal("schema-type-mismatch", "actions must be an array"));
        },
        Some(actions) => {
            if actions.len() == 0 {
                return Err(refusal(MANIFEST_MALFORMED, "actions must be non-empty"));
            }
            check_actions(name, schemas, actions)?;
        },
    }
    match document.at("budget-dimensions").as_list() {
        None => {
            return Err(refusal("schema-type-mismatch", "budget-dimensions must be an array"));
        },
        Some(dimensions) => {
            check_dimensions(dimensions)?;
        },
    }
    validate_durable_objects(document.at("durable-objects"))?;
    if document.at("conformance").as_record().is_none() {
        return Err(refusal("schema-type-mismatch", "conformance must be an object"));
    }
    check_conformance(document.at("conformance"))
}

// -- the manifest -----------------------------------------------------------------------------

/// A validated manifest.
#[derive(Debug)]
pub struct Manifest {
    document: Json,
    name: String,
    version: String,
    hash: String,
    component_key: KeyId,
}

impl Manifest {
    /// The manifest as received.
    pub closed spec fn doc(&self) -> Doc {
        self.document@
    }

    /// The component's name.
    pub closed spec fn called(&self) -> Seq<char> {
        self.name@
    }

    /// The component's version.
    pub closed spec fn numbered(&self) -> Seq<char> {
        self.version@
    }

    /// The hash the manifest goes by.
    pub closed spec fn digest(&self) -> Seq<char> {
        self.hash@
    }

    /// The key that signed the manifest.
    pub closed spec fn key(&self) -> Seq<char> {
        self.component_key@
    }

    /// Validates a manifest in full, given what verifying its signature came to, which is the key
    /// that signed it, and what hashing it came to.
    pub fn parse(
        document: &Json,
        signer: &Result<KeyId, Error>,
        hash: &Result<String, Error>,
    ) -> (r: Result<Manifest, Error>)
        ensures
            match manifest_fault(document@, *signer, *hash) {
                Some(f) => r matches Err(e) && e@ == f,
                None => r matches Ok(m) && {
                    &&& m.doc() == document@
                    &&& Some(m.called()) == document@.text_at("name"@)
                    &&& Some(m.numbered()) == document@.text_at("version"@)
                    &&& m.digest() == hash->Ok_0@
                    &&& m.key() == signer->Ok_0@
                },
            },
    {
        check_head(document)?;
        let component_key = match signer {
            Ok(key) => key.copy(),
            Err(e) => {
                return Err(e.copy());
            },
        };
        check_names(document)?;
        check_declarations(document)?;
        let hash = match hash {
            Ok(hash) => hash.clone(),
            Err(e) => {
                return Err(e.copy());
            },
        };
        Ok(
            Manifest {
                document: document.copy(),
                name: text_or_empty(document.text_at("name")).to_owned(),
                version: text_or_empty(document.text_at("version")).to_owned(),
                hash,
                component_key,
            },
        )
    }
}

/// What a durable object may do: where a transition takes it, when a key of a role signs it in a
/// state, or why it takes it nowhere. A transition with no state to come from creates the object.
/// Where no role is given, it does not matter who signs.
pub open spec fn step_outcome(
    d: Doc,
    name: Seq<char>,
    object_type: Seq<char>,
    transition: Seq<char>,
    role: Option<Seq<char>>,
    state: Option<Seq<char>>,
) -> Result<Seq<char>, Fault> {
    let object = entry_named(d.at("durable-objects"@).items(), "object-type"@, object_type, 0);
    let entry = entry_named(
        object->0.at("transitions"@).items(),
        "transition"@,
        transition,
        0,
    );
    let signers = entry->0.at("signers"@).as_list();
    let from = entry->0.at("from"@).as_list();
    if object is None {
        Err(
            fault(
                "durable-transition-not-permitted"@,
                name + " declares no durable object "@ + quoted(object_type),
            ),
        )
    } else if entry is None {
        Err(
            fault(
                "durable-transition-not-permitted"@,
                object_type + " declares no transition "@ + quoted(transition),
            ),
        )
    } else if role is Some && signers is None {
        Err(fault("schema-missing-member"@, "transitions[].signers"@))
    } else if role is Some && !lists(signers->0, role->0) {
        Err(
            fault(
                "durable-transition-not-permitted"@,
                transition + " on "@ + object_type + " may not be signed by a "@ + role->0,
            ),
        )
    } else if from is None {
        Err(fault("schema-missing-member"@, "transitions[].from"@))
    } else if !(match state {
        None => from->0.len() == 0,
        Some(current) => lists(from->0, current),
    }) {
        Err(
            fault(
                "durable-transition-illegal"@,
                transition + " is not permitted from state "@ + (match state {
                    None => "<none>"@,
                    Some(current) => current,
                }),
            ),
        )
    } else {
        match entry->0.text_at("to"@) {
            Some(to) => Ok(to),
            None => Err(fault("schema-missing-member"@, "transitions[].to"@)),
        }
    }
}

/// Where a transition takes a durable object, when a key of a role signs it.
pub open spec fn transition_outcome(
    d: Doc,
    name: Seq<char>,
    object_type: Seq<char>,
    transition: Seq<char>,
    role: Seq<char>,
    state: Option<Seq<char>>,
) -> Result<Seq<char>, Fault> {
    step_outcome(d, name, object_type, transition, Some(role), state)
}

impl Manifest {
    /// The manifest as received.
    pub fn document(&self) -> (r: &Json)
        ensures
            r@ == self.doc(),
    {
        &self.document
    }

    /// The component's name.
    pub fn name(&self) -> (r: &str)
        ensures
            r@ == self.called(),
    {
        self.name.as_str()
    }

    /// The component's version.
    pub fn version(&self) -> (r: &str)
        ensures
            r@ == self.numbered(),
    {
        self.version.as_str()
    }

    /// The hash of the manifest: what a registration's approval binds to.
    pub fn hash(&self) -> (r: &str)
        ensures
            r@ == self.digest(),
    {
        self.hash.as_str()
    }

    /// The component's own key, which signed the manifest.
    pub fn component_key(&self) -> (r: &KeyId)
        ensures
            r@ == self.key(),
    {
        &self.component_key
    }

    /// What the manifest declares of an action, under a member.
    pub open spec fn declared(&self, action: Seq<char>, member: Seq<char>) -> Option<Seq<char>> {
        match entry_named(self.doc().at("actions"@).items(), "action"@, action, 0) {
            Some(entry) => entry.text_at(member),
            None => None,
        }
    }

    /// The class this manifest proposes for an action. A proposal, never authority.
    pub fn proposed_class(&self, action: &str) -> (r: Option<&str>)
        ensures
            opt_text(r) == self.declared(action@, "class"@),
    {
        match find_entry(self.document.at("actions"), "action", action) {
            Some(entry) => entry.text_at("class"),
            None => None,
        }
    }

    /// The evidence schema declared for an action.
    pub fn evidence_schema(&self, action: &str) -> (r: Option<&str>)
        ensures
            opt_text(r) == self.declared(action@, "evidence-schema"@),
    {
        match find_entry(self.document.at("actions"), "action", action) {
            Some(entry) => entry.text_at("evidence-schema"),
            None => None,
        }
    }

    /// Checks a transition of a durable object against the manifest's table: the state it leads
    /// to, for an object now in `folded_state`, or not yet there.
    pub fn check_transition(
        &self,
        object_type: &str,
        transition: &str,
        signer_role: &str,
        folded_state: Option<&str>,
    ) -> (r: Result<String, Error>)
        ensures
            is_text_result(
                r,
                transition_outcome(
                    self.doc(),
                    self.called(),
                    object_type@,
                    transition@,
                    signer_role@,
                    opt_text(folded_state),
                ),
            ),
    {
        self.step(object_type, transition, Some(signer_role), folded_state)
    }

    /// Takes a transition that was made once again: the state it leads to, whoever signed it. Who
    /// may sign is judged when a transition is made, and the state is the fold of those that were.
    pub fn replay(
        &self,
        object_type: &str,
        transition: &str,
        folded_state: Option<&str>,
    ) -> (r: Result<String, Error>)
        ensures
            is_text_result(
                r,
                step_outcome(
                    self.doc(),
                    self.called(),
                    object_type@,
                    transition@,
                    None,
                    opt_text(folded_state),
                ),
            ),
    {
        self.step(object_type, transition, None, folded_state)
    }

    fn step(
        &self,
        object_type: &str,
        transition: &str,
        role: Option<&str>,
        folded_state: Option<&str>,
    ) -> (r: Result<String, Error>)
        ensures
            is_text_result(
                r,
                step_outcome(
                    self.doc(),
                    self.called(),
                    object_type@,
                    transition@,
                    opt_text(role),
                    opt_text(folded_state),
                ),
            ),
    {
        let object = match find_entry(
            self.document.at("durable-objects"),
            "object-type",
            object_type,
        ) {
            Some(object) => object,
            None => {
                return Err(
                    Error::new(
                        "durable-transition-not-permitted",
                        join3(
                            self.name.as_str(),
                            " declares no durable object ",
                            debug_text(object_type).as_str(),
                        ),
                    ),
                );
            },
        };
        let entry = match find_entry(object.at("transitions"), "transition", transition) {
            Some(entry) => entry,
            None => {
                return Err(
                    Error::new(
                        "durable-transition-not-permitted",
                        join3(
                            object_type,
                            " declares no transition ",
                            debug_text(transition).as_str(),
                        ),
                    ),
                );
            },
        };
        if let Some(signer) = role {
            match entry.at("signers").as_list() {
                None => {
                    return Err(refusal("schema-missing-member", "transitions[].signers"));
                },
                Some(signers) => {
                    if !list_holds(signers, signer) {
                        return Err(
                            Error::new(
                                "durable-transition-not-permitted",
                                join5(
                                    transition,
                                    " on ",
                                    object_type,
                                    " may not be signed by a ",
                                    signer,
                                ),
                            ),
                        );
                    }
                },
            }
        }
        let from = match entry.at("from").as_list() {
            Some(from) => from,
            None => {
                return Err(refusal("schema-missing-member", "transitions[].from"));
            },
        };
        let permitted = match folded_state {
            None => from.len() == 0,
            Some(state) => list_holds(from, state),
        };
        if !permitted {
            return Err(
                Error::new(
                    "durable-transition-illegal",
                    join3(
                        transition,
                        " is not permitted from state ",
                        match folded_state {
                            Some(state) => state,
                            None => "<none>",
                        },
                    ),
                ),
            );
        }
        match entry.text_at("to") {
            Some(to) => Ok(to.to_owned()),
            None => Err(refusal("schema-missing-member", "transitions[].to")),
        }
    }
}

// -- laws -------------------------------------------------------------------------------------

/// No action is at fault where the list is not.
proof fn lemma_no_action_fault(name: Seq<char>, schemas: Doc, actions: Seq<Doc>, from: int)
    requires
        0 <= from <= actions.len(),
        actions_fault(name, schemas, actions, from) is None,
    ensures
        forall|i: int|
            from <= i < actions.len() ==> action_fault(name, schemas, #[trigger] actions[i])
                is None,
    decreases actions.len() - from,
{
    if from < actions.len() {
        lemma_no_action_fault(name, schemas, actions, from + 1);
    }
}

/// What a valid manifest may be relied on for, of each action it declares: it is in the
/// component's own namespace, its class is a known one, its evidence schema is defined, a
/// `prohibited` action has no degraded form, and exactly the `read` actions have a sampling rule.
pub proof fn lemma_valid_manifest_actions(
    d: Doc,
    signer: Result<KeyId, Error>,
    hash: Result<String, Error>,
    i: int,
)
    requires
        manifest_fault(d, signer, hash) is None,
        0 <= i < d.at("actions"@).items().len(),
    ensures
        ({
            let action = d.at("actions"@).items()[i];
            let class = or_empty(action.text_at("class"@));
            &&& action_identifier(
                or_empty(d.text_at("name"@)),
                or_empty(action.text_at("action"@)),
            )
            &&& named(CLASSES@, class)
            &&& d.at("evidence-schemas"@).get(or_empty(action.text_at("evidence-schema"@))) is Some
            &&& class == "prohibited"@ ==> action.at("degrade"@) == Doc::Null
            &&& class == "read"@ <==> action.at("aggregate"@) != Doc::Null
        }),
{
    let name = or_empty(d.text_at("name"@));
    let actions = d.at("actions"@).items();
    lemma_no_action_fault(name, d.at("evidence-schemas"@), actions, 0);
    assert(action_fault(name, d.at("evidence-schemas"@), actions[i]) is None);
}

/// A transition that a manifest does not let an agent sign, one reserved to people included, is
/// refused from an agent's key in every state.
pub proof fn lemma_agents_sign_only_what_they_may(
    d: Doc,
    name: Seq<char>,
    object_type: Seq<char>,
    transition: Seq<char>,
    state: Option<Seq<char>>,
)
    requires
        ({
            let object = entry_named(
                d.at("durable-objects"@).items(),
                "object-type"@,
                object_type,
                0,
            );
            let entry = entry_named(
                object->0.at("transitions"@).items(),
                "transition"@,
                transition,
                0,
            );
            object is Some && entry is Some ==> !lists(entry->0.at("signers"@).items(), "agent"@)
        }),
    ensures
        transition_outcome(d, name, object_type, transition, "agent"@, state) is Err,
{
}

/// A transition that a manifest does not declare takes an object nowhere, whoever signs it.
pub proof fn lemma_undeclared_transitions_are_refused(
    d: Doc,
    name: Seq<char>,
    object_type: Seq<char>,
    transition: Seq<char>,
    role: Seq<char>,
    state: Option<Seq<char>>,
)
    requires
        ({
            let object = entry_named(
                d.at("durable-objects"@).items(),
                "object-type"@,
                object_type,
                0,
            );
            object is Some ==> entry_named(
                object->0.at("transitions"@).items(),
                "transition"@,
                transition,
                0,
            ) is None
        }),
    ensures
        transition_outcome(d, name, object_type, transition, role, state) matches Err(f) && f.code
            == "durable-transition-not-permitted"@,
{
}

/// A declared transition, signed in a role that it lists, may be made from each of the states it
/// lists, wherever in the list they stand, and from no other; and where it lists none, it creates
/// the object and does nothing else.
pub proof fn lemma_transitions_leave_every_listed_state(
    d: Doc,
    name: Seq<char>,
    object_type: Seq<char>,
    transition: Seq<char>,
    role: Seq<char>,
    state: Seq<char>,
)
    requires
        ({
            let object = entry_named(
                d.at("durable-objects"@).items(),
                "object-type"@,
                object_type,
                0,
            );
            let entry = entry_named(
                object->0.at("transitions"@).items(),
                "transition"@,
                transition,
                0,
            );
            &&& object is Some && entry is Some
            &&& exists|i: int|
                0 <= i < entry->0.at("signers"@).items().len() && #[trigger] entry->0.at(
                    "signers"@,
                ).items()[i] == Doc::Text(role)
            &&& entry->0.at("from"@) is List
            &&& entry->0.at("to"@) is Text
        }),
    ensures
        ({
            let object = entry_named(
                d.at("durable-objects"@).items(),
                "object-type"@,
                object_type,
                0,
            )->0;
            let entry = entry_named(
                object.at("transitions"@).items(),
                "transition"@,
                transition,
                0,
            )->0;
            let from = entry.at("from"@)->List_0;
            let moved = transition_outcome(
                d,
                name,
                object_type,
                transition,
                role,
                Some(state),
            );
            let created = transition_outcome(d, name, object_type, transition, role, None);
            &&& moved is Ok <==> exists|i: int|
                0 <= i < from.len() && #[trigger] from[i] == Doc::Text(state)
            &&& created is Ok <==> from.len() == 0
            &&& moved matches Ok(to) ==> entry.at("to"@) == Doc::Text(to)
            &&& created matches Ok(to) ==> entry.at("to"@) == Doc::Text(to)
            &&& moved matches Err(f) ==> f.code == "durable-transition-illegal"@
            &&& created matches Err(f) ==> f.code == "durable-transition-illegal"@
        }),
{
    let object = entry_named(d.at("durable-objects"@).items(), "object-type"@, object_type, 0)->0;
    let entry = entry_named(object.at("transitions"@).items(), "transition"@, transition, 0)->0;
    let from = entry.at("from"@)->List_0;
    let signers = entry.at("signers"@).items();
    let i = choose|i: int| 0 <= i < signers.len() && #[trigger] signers[i] == Doc::Text(role);
    assert(signers[i].as_text() == Some(role));
    assert(lists(signers, role));
    if exists|i: int| 0 <= i < from.len() && #[trigger] from[i] == Doc::Text(state) {
        let i = choose|i: int| 0 <= i < from.len() && #[trigger] from[i] == Doc::Text(state);
        assert(from[i].as_text() == Some(state));
    }
    if lists(from, state) {
        let i = choose|i: int|
            0 <= i < from.len() && (#[trigger] from[i]).as_text() == Some(state);
        assert(from[i] == Doc::Text(state));
    }
}

/// A role that a declared transition does not list, in whatever place, may not sign it in any
/// state, and one that it lists is never what refuses it: with it the transition comes to what it
/// comes to whoever signs.
pub proof fn lemma_only_listed_roles_sign(
    d: Doc,
    name: Seq<char>,
    object_type: Seq<char>,
    transition: Seq<char>,
    role: Seq<char>,
    state: Option<Seq<char>>,
)
    requires
        ({
            let object = entry_named(
                d.at("durable-objects"@).items(),
                "object-type"@,
                object_type,
                0,
            );
            &&& object is Some
            &&& entry_named(
                object->0.at("transitions"@).items(),
                "transition"@,
                transition,
                0,
            ) matches Some(entry) && entry.at("signers"@) is List
        }),
    ensures
        ({
            let object = entry_named(
                d.at("durable-objects"@).items(),
                "object-type"@,
                object_type,
                0,
            )->0;
            let entry = entry_named(
                object.at("transitions"@).items(),
                "transition"@,
                transition,
                0,
            )->0;
            let signers = entry.at("signers"@)->List_0;
            let outcome = transition_outcome(d, name, object_type, transition, role, state);
            if exists|i: int| 0 <= i < signers.len() && #[trigger] signers[i] == Doc::Text(role) {
                outcome == step_outcome(d, name, object_type, transition, None, state)
            } else {
                outcome matches Err(f) && f.code == "durable-transition-not-permitted"@
            }
        }),
{
    let object = entry_named(d.at("durable-objects"@).items(), "object-type"@, object_type, 0)->0;
    let entry = entry_named(object.at("transitions"@).items(), "transition"@, transition, 0)->0;
    let signers = entry.at("signers"@)->List_0;
    if exists|i: int| 0 <= i < signers.len() && #[trigger] signers[i] == Doc::Text(role) {
        let i = choose|i: int| 0 <= i < signers.len() && #[trigger] signers[i] == Doc::Text(role);
        assert(signers[i].as_text() == Some(role));
    } else if lists(signers, role) {
        let i = choose|i: int|
            0 <= i < signers.len() && (#[trigger] signers[i]).as_text() == Some(role);
        assert(signers[i] == Doc::Text(role));
    }
}

/// A component's name is from two to thirty-two characters, begins with a letter and goes on in
/// letters, digits and hyphens; an action is the name, a point and from one to sixty-four characters
/// of which the first is a letter and the others are letters, digits and underscores.
pub proof fn lemma_what_names_are(name: Seq<char>, action: Seq<char>)
    ensures
        component_name(name) <==> {
            &&& 2 <= name.len() <= 32
            &&& 'a' <= name[0] && name[0] <= 'z'
            &&& forall|i: int|
                1 <= i < name.len() ==> ('a' <= #[trigger] name[i] && name[i] <= 'z') || ('0'
                    <= name[i] && name[i] <= '9') || name[i] == '-'
        },
        action_identifier(name, name + seq!['.'] + action) <==> {
            &&& 1 <= action.len() <= 64
            &&& 'a' <= action[0] && action[0] <= 'z'
            &&& forall|i: int|
                1 <= i < action.len() ==> ('a' <= #[trigger] action[i] && action[i] <= 'z') || (
                '0' <= action[i] && action[i] <= '9') || action[i] == '_'
        },
        action_identifier(name, action) ==> exists|rest: Seq<char>|
            action == #[trigger] (name + seq!['.'] + rest),
{
    if component_name(name) {
        assert forall|i: int| 1 <= i < name.len() implies ('a' <= #[trigger] name[i] && name[i]
            <= 'z') || ('0' <= name[i] && name[i] <= '9') || name[i] == '-' by {
            assert(is_lower(name[i]) || is_digit(name[i]) || name[i] == '-');
        }
    }
    let whole = name + seq!['.'] + action;
    assert(whole.take(name.len() as int + 1) =~= name + seq!['.']);
    assert(whole.skip(name.len() as int + 1) =~= action);
    if action_identifier(name, whole) {
        assert forall|i: int| 1 <= i < action.len() implies ('a' <= #[trigger] action[i]
            && action[i] <= 'z') || ('0' <= action[i] && action[i] <= '9') || action[i] == '_' by {
            assert(is_lower(action[i]) || is_digit(action[i]) || action[i] == '_');
        }
    }
    if action_identifier(name, action) {
        assert(action =~= name + seq!['.'] + action.skip(name.len() as int + 1));
    }
}

/// An action is declared rightly exactly where it has its members and no other, is in the
/// component's namespace and of a known class, says whether it may be repeated, names a schema that
/// is defined, has no degraded form where it is prohibited, and a sampling rule, of one to sixteen
/// samples, where it reads and only there.
pub proof fn lemma_what_an_action_declares(name: Seq<char>, schemas: Doc, action: Doc)
    ensures
        action_fault(name, schemas, action) is None <==> {
            let class = action.at("class"@);
            let rule = action.at("aggregate"@);
            &&& action matches Doc::Record(members) && forall|i: int|
                0 <= i < members.len() ==> {
                    ||| (#[trigger] members[i]).0 == "action"@
                    ||| members[i].0 == "class"@
                    ||| members[i].0 == "evidence-schema"@
                    ||| members[i].0 == "aggregate"@
                    ||| members[i].0 == "idempotent"@
                    ||| members[i].0 == "target-kind"@
                    ||| members[i].0 == "degrade"@
                }
            &&& action.get("action"@) is Some
            &&& action.get("class"@) is Some
            &&& action.get("evidence-schema"@) is Some
            &&& action.get("idempotent"@) is Some
            &&& action.get("target-kind"@) is Some
            &&& action_identifier(name, or_empty(action.text_at("action"@)))
            &&& class == Doc::Text("read"@) || class == Doc::Text("benign"@) || class == Doc::Text(
                "consequential"@,
            ) || class == Doc::Text("prohibited"@)
            &&& action.at("idempotent"@) is Bool
            &&& schemas.get(or_empty(action.text_at("evidence-schema"@))) is Some
            &&& class == Doc::Text("prohibited"@) ==> action.at("degrade"@) == Doc::Null
            &&& class != Doc::Text("read"@) ==> rule == Doc::Null
            &&& class == Doc::Text("read"@) ==> rule.at("sampling"@) is Text && (rule.at(
                "max-samples"@,
            ) matches Doc::Int(n) && 1 <= n <= 16)
        },
{
    let names = ACTION_MEMBERS@;
    assert(names[0]@ == "action"@);
    assert(names[1]@ == "class"@);
    assert(names[2]@ == "evidence-schema"@);
    assert(names[3]@ == "aggregate"@);
    assert(names[4]@ == "idempotent"@);
    assert(names[5]@ == "target-kind"@);
    assert(names[6]@ == "degrade"@);
    let needed = REQUIRED_ACTION_MEMBERS@;
    assert(needed[0]@ == "action"@);
    assert(needed[1]@ == "class"@);
    assert(needed[2]@ == "evidence-schema"@);
    assert(needed[3]@ == "idempotent"@);
    assert(needed[4]@ == "target-kind"@);
    let classes = CLASSES@;
    assert(classes[0]@ == "read"@);
    assert(classes[1]@ == "benign"@);
    assert(classes[2]@ == "consequential"@);
    assert(classes[3]@ == "prohibited"@);
    if let Doc::Record(members) = action {
        crate::json::lemma_strangers_are_found(members, names, 0);
    }
    crate::json::lemma_absences_are_found(action, needed, 0);
    reveal_strlit("read");
    reveal_strlit("benign");
    reveal_strlit("consequential");
    reveal_strlit("prohibited");
    assert("read"@.len() == 4);
    assert("benign"@.len() == 6);
    assert("consequential"@.len() == 13);
    assert("prohibited"@.len() == 10);
    if absent(action, needed, 0) is None {
        assert(action.get(needed[0]@) is Some);
        assert(action.get(needed[1]@) is Some);
        assert(action.get(needed[2]@) is Some);
        assert(action.get(needed[3]@) is Some);
        assert(action.get(needed[4]@) is Some);
    }
}

/// The dimensions that a component may be budgeted by: requests, tokens, tokens in and out, seconds
/// by the clock, and money of a currency of three letters.
pub proof fn lemma_what_a_dimension_is(s: Seq<char>)
    ensures
        is_budget_dimension(s) <==> {
            ||| s == "requests"@
            ||| s == "tokens"@
            ||| s == "tokens-in"@
            ||| s == "tokens-out"@
            ||| s == "wall-clock-seconds"@
            ||| exists|currency: Seq<char>|
                s == #[trigger] ("money-"@ + currency) && currency.len() == 3 && 'a' <= currency[0]
                    && currency[0] <= 'z' && 'a' <= currency[1] && currency[1] <= 'z' && 'a'
                    <= currency[2] && currency[2] <= 'z'
        },
{
    let names = BUDGET_DIMENSIONS@;
    assert(names[0]@ == "requests"@);
    assert(names[1]@ == "tokens"@);
    assert(names[2]@ == "tokens-in"@);
    assert(names[3]@ == "tokens-out"@);
    assert(names[4]@ == "wall-clock-seconds"@);
    reveal_strlit("money-");
    assert("money-"@.len() == 6);
    if begins(s, "money-"@) && s.len() == 9 {
        let currency = s.skip(6);
        assert(s =~= "money-"@ + currency);
        assert(currency[0] == s[6] && currency[1] == s[7] && currency[2] == s[8]);
    }
    assert forall|currency: Seq<char>|
        s == #[trigger] ("money-"@ + currency) && currency.len() == 3 && 'a' <= currency[0]
            && currency[0] <= 'z' && 'a' <= currency[1] && currency[1] <= 'z' && 'a' <= currency[2]
            && currency[2] <= 'z' implies is_budget_dimension(s) by {
        assert(s.take(6) =~= "money-"@);
        assert(s[6] == currency[0] && s[7] == currency[1] && s[8] == currency[2]);
    }
}

proof fn lemma_signers_fault(signers: Seq<Doc>, from: int)
    requires
        0 <= from <= signers.len(),
    ensures
        signers_fault(signers, from) is None <==> forall|i: int|
            from <= i < signers.len() ==> #[trigger] signers[i] == Doc::Text("human"@) || signers[i]
                == Doc::Text("agent"@),
    decreases signers.len() - from,
{
    if from < signers.len() {
        lemma_signers_fault(signers, from + 1);
        assert(signers[from] == signers[from]);
    }
}

/// A transition is declared rightly exactly where it has its four members and no other, lists the
/// states it leaves, and is signed by people, agents or both, and by somebody.
pub proof fn lemma_what_a_transition_declares(d: Doc)
    ensures
        transition_fault(d) is None <==> {
            &&& d matches Doc::Record(members) && forall|i: int|
                0 <= i < members.len() ==> {
                    ||| (#[trigger] members[i]).0 == "transition"@
                    ||| members[i].0 == "from"@
                    ||| members[i].0 == "to"@
                    ||| members[i].0 == "signers"@
                }
            &&& d.get("transition"@) is Some
            &&& d.get("from"@) is Some
            &&& d.get("to"@) is Some
            &&& d.get("signers"@) is Some
            &&& d.at("from"@) is List
            &&& d.at("signers"@) matches Doc::List(signers) && signers.len() > 0 && forall|i: int|
                0 <= i < signers.len() ==> #[trigger] signers[i] == Doc::Text("human"@)
                    || signers[i] == Doc::Text("agent"@)
        },
{
    let names = TRANSITION_MEMBERS@;
    assert(names[0]@ == "transition"@);
    assert(names[1]@ == "from"@);
    assert(names[2]@ == "to"@);
    assert(names[3]@ == "signers"@);
    if let Doc::Record(members) = d {
        crate::json::lemma_strangers_are_found(members, names, 0);
    }
    crate::json::lemma_absences_are_found(d, names, 0);
    if absent(d, names, 0) is None {
        assert(d.get(names[0]@) is Some);
        assert(d.get(names[1]@) is Some);
        assert(d.get(names[2]@) is Some);
        assert(d.get(names[3]@) is Some);
    }
    if let Doc::List(signers) = d.at("signers"@) {
        lemma_signers_fault(signers, 0);
    }
}

proof fn lemma_transitions_fault(transitions: Seq<Doc>, from: int)
    requires
        0 <= from <= transitions.len(),
    ensures
        transitions_fault(transitions, from) is None <==> forall|i: int|
            from <= i < transitions.len() ==> transition_fault(#[trigger] transitions[i]) is None,
    decreases transitions.len() - from,
{
    if from < transitions.len() {
        lemma_transitions_fault(transitions, from + 1);
    }
}

proof fn lemma_objects_fault(objects: Seq<Doc>, from: int)
    requires
        0 <= from <= objects.len(),
    ensures
        objects_fault(objects, from) is None <==> forall|i: int|
            from <= i < objects.len() ==> object_fault(#[trigger] objects[i]) is None,
    decreases objects.len() - from,
{
    if from < objects.len() {
        lemma_objects_fault(objects, from + 1);
    }
}

/// A durable object is declared rightly exactly where it has its three members and no other, and
/// some transitions, every one of them declared rightly; and so are all, exactly where each is.
pub proof fn lemma_what_an_object_declares(d: Doc, objects: Seq<Doc>)
    ensures
        object_fault(d) is None <==> {
            &&& d matches Doc::Record(members) && forall|i: int|
                0 <= i < members.len() ==> {
                    ||| (#[trigger] members[i]).0 == "object-type"@
                    ||| members[i].0 == "id-kind"@
                    ||| members[i].0 == "transitions"@
                }
            &&& d.get("object-type"@) is Some
            &&& d.get("id-kind"@) is Some
            &&& d.get("transitions"@) is Some
            &&& d.at("transitions"@) matches Doc::List(all) && all.len() > 0 && forall|i: int|
                0 <= i < all.len() ==> transition_fault(#[trigger] all[i]) is None
        },
        durable_objects_fault(Doc::List(objects)) is None <==> forall|i: int|
            0 <= i < objects.len() ==> object_fault(#[trigger] objects[i]) is None,
        durable_objects_fault(d) is None ==> d is List,
{
    let names = OBJECT_MEMBERS@;
    assert(names[0]@ == "object-type"@);
    assert(names[1]@ == "id-kind"@);
    assert(names[2]@ == "transitions"@);
    if let Doc::Record(members) = d {
        crate::json::lemma_strangers_are_found(members, names, 0);
    }
    crate::json::lemma_absences_are_found(d, names, 0);
    if absent(d, names, 0) is None {
        assert(d.get(names[0]@) is Some);
        assert(d.get(names[1]@) is Some);
        assert(d.get(names[2]@) is Some);
    }
    if let Doc::List(all) = d.at("transitions"@) {
        lemma_transitions_fault(all, 0);
    }
    lemma_objects_fault(objects, 0);
}

proof fn lemma_schemas_fault(schemas: Seq<(Seq<char>, Doc)>, from: int)
    requires
        0 <= from <= schemas.len(),
    ensures
        schemas_fault(schemas, from) is None <==> forall|i: int|
            from <= i < schemas.len() ==> (#[trigger] schemas[i]).1 is Record && schemas[i].1.at(
                "additionalProperties"@,
            ) == Doc::Bool(false),
    decreases schemas.len() - from,
{
    if from < schemas.len() {
        lemma_schemas_fault(schemas, from + 1);
        assert(schemas[from].1 == schemas[from].1);
    }
}

proof fn lemma_actions_fault(name: Seq<char>, schemas: Doc, actions: Seq<Doc>, from: int)
    requires
        0 <= from <= actions.len(),
    ensures
        actions_fault(name, schemas, actions, from) is None <==> forall|i: int|
            from <= i < actions.len() ==> action_fault(name, schemas, #[trigger] actions[i])
                is None,
    decreases actions.len() - from,
{
    if from < actions.len() {
        lemma_actions_fault(name, schemas, actions, from + 1);
    }
}

proof fn lemma_dimensions_fault(dimensions: Seq<Doc>, from: int)
    requires
        0 <= from <= dimensions.len(),
    ensures
        dimensions_fault(dimensions, from) is None <==> forall|i: int|
            from <= i < dimensions.len() ==> is_budget_dimension(
                or_empty((#[trigger] dimensions[i]).as_text()),
            ),
    decreases dimensions.len() - from,
{
    if from < dimensions.len() {
        lemma_dimensions_fault(dimensions, from + 1);
        assert(dimensions[from] == dimensions[from]);
    }
}

proof fn lemma_head_fault(d: Doc)
    ensures
        head_fault(d) is None <==> {
            &&& d matches Doc::Record(members) && forall|i: int|
                0 <= i < members.len() ==> {
                    ||| (#[trigger] members[i]).0 == "v"@
                    ||| members[i].0 == "kind"@
                    ||| members[i].0 == "name"@
                    ||| members[i].0 == "version"@
                    ||| members[i].0 == "subject-class"@
                    ||| members[i].0 == "description"@
                    ||| members[i].0 == "actions"@
                    ||| members[i].0 == "evidence-schemas"@
                    ||| members[i].0 == "budget-dimensions"@
                    ||| members[i].0 == "durable-objects"@
                    ||| members[i].0 == "conformance"@
                    ||| members[i].0 == "sig"@
                }
            &&& forall|k: int|
                0 <= k < REQUIRED_MEMBERS@.len() ==> d.get(#[trigger] REQUIRED_MEMBERS@[k]@) is Some
            &&& d.at("v"@) == Doc::Text("stozher/0.1"@)
            &&& d.at("kind"@) == Doc::Text("manifest"@)
        },
{
    let names = MEMBERS@;
    assert(names[0]@ == "v"@);
    assert(names[1]@ == "kind"@);
    assert(names[2]@ == "name"@);
    assert(names[3]@ == "version"@);
    assert(names[4]@ == "subject-class"@);
    assert(names[5]@ == "description"@);
    assert(names[6]@ == "actions"@);
    assert(names[7]@ == "evidence-schemas"@);
    assert(names[8]@ == "budget-dimensions"@);
    assert(names[9]@ == "durable-objects"@);
    assert(names[10]@ == "conformance"@);
    assert(names[11]@ == "sig"@);
    if let Doc::Record(members) = d {
        crate::json::lemma_strangers_are_found(members, names, 0);
    }
    crate::json::lemma_absences_are_found(d, REQUIRED_MEMBERS@, 0);
}

proof fn lemma_names_fault(d: Doc)
    ensures
        names_fault(d) is None <==> {
            &&& d.at("name"@) matches Doc::Text(name) && component_name(name)
            &&& d.at("version"@) matches Doc::Text(version) && version.len() > 0
            &&& {
                ||| d.at("subject-class"@) == Doc::Text("tool-proxy"@)
                ||| d.at("subject-class"@) == Doc::Text("browser-agent"@)
                ||| d.at("subject-class"@) == Doc::Text("executor"@)
                ||| d.at("subject-class"@) == Doc::Text("memory"@)
                ||| d.at("subject-class"@) == Doc::Text("orchestrator-bridge"@)
                ||| d.at("subject-class"@) == Doc::Text("kernel"@)
            }
        },
{
    let classes = SUBJECT_CLASSES@;
    assert(classes[0]@ == "tool-proxy"@);
    assert(classes[1]@ == "browser-agent"@);
    assert(classes[2]@ == "executor"@);
    assert(classes[3]@ == "memory"@);
    assert(classes[4]@ == "orchestrator-bridge"@);
    assert(classes[5]@ == "kernel"@);
    let class = or_empty(d.text_at("subject-class"@));
    reveal_strlit("tool-proxy");
    reveal_strlit("browser-agent");
    reveal_strlit("executor");
    reveal_strlit("memory");
    reveal_strlit("orchestrator-bridge");
    reveal_strlit("kernel");
    if named(classes, class) {
        let k = choose|k: int| 0 <= k < classes.len() && #[trigger] classes[k]@ == class;
        assert(k == 0 || k == 1 || k == 2 || k == 3 || k == 4 || k == 5);
        assert(class.len() > 0);
    }
}

proof fn lemma_declarations_fault(d: Doc)
    ensures
        declarations_fault(d) is None <==> {
            &&& d.at("evidence-schemas"@) matches Doc::Record(schemas) && forall|i: int|
                0 <= i < schemas.len() ==> (#[trigger] schemas[i]).1 is Record && schemas[i].1.at(
                    "additionalProperties"@,
                ) == Doc::Bool(false)
            &&& d.at("actions"@) matches Doc::List(actions) && actions.len() > 0 && forall|i: int|
                0 <= i < actions.len() ==> action_fault(
                    or_empty(d.text_at("name"@)),
                    d.at("evidence-schemas"@),
                    #[trigger] actions[i],
                ) is None
            &&& d.at("budget-dimensions"@) matches Doc::List(dimensions) && forall|i: int|
                0 <= i < dimensions.len() ==> is_budget_dimension(
                    or_empty((#[trigger] dimensions[i]).as_text()),
                )
            &&& durable_objects_fault(d.at("durable-objects"@)) is None
            &&& d.at("conformance"@).at("self-test"@) is Text
            &&& d.at("conformance"@).at("vectors-version"@) is Text
        },
{
    let parts = CONFORMANCE_MEMBERS@;
    assert(parts[0]@ == "self-test"@);
    assert(parts[1]@ == "vectors-version"@);
    let name = or_empty(d.text_at("name"@));
    if let Doc::Record(schemas) = d.at("evidence-schemas"@) {
        lemma_schemas_fault(schemas, 0);
    }
    if let Doc::List(actions) = d.at("actions"@) {
        lemma_actions_fault(name, d.at("evidence-schemas"@), actions, 0);
    }
    if let Doc::List(dimensions) = d.at("budget-dimensions"@) {
        lemma_dimensions_fault(dimensions, 0);
    }
    reveal_with_fuel(conformance_fault, 3);
}

/// A manifest is valid exactly where it is signed and hashed, has the members of one and no other,
/// of this version and this kind, a name and a version, what it is, closed schemas, some actions,
/// and every action, dimension and object in it is declared rightly.
pub proof fn lemma_what_a_manifest_is(
    d: Doc,
    signer: Result<KeyId, Error>,
    hash: Result<String, Error>,
)
    ensures
        manifest_fault(d, signer, hash) is None <==> {
            &&& signer is Ok && hash is Ok
            &&& d matches Doc::Record(members) && forall|i: int|
                0 <= i < members.len() ==> {
                    ||| (#[trigger] members[i]).0 == "v"@
                    ||| members[i].0 == "kind"@
                    ||| members[i].0 == "name"@
                    ||| members[i].0 == "version"@
                    ||| members[i].0 == "subject-class"@
                    ||| members[i].0 == "description"@
                    ||| members[i].0 == "actions"@
                    ||| members[i].0 == "evidence-schemas"@
                    ||| members[i].0 == "budget-dimensions"@
                    ||| members[i].0 == "durable-objects"@
                    ||| members[i].0 == "conformance"@
                    ||| members[i].0 == "sig"@
                }
            &&& d.at("v"@) == Doc::Text("stozher/0.1"@)
            &&& d.at("kind"@) == Doc::Text("manifest"@)
            &&& d.at("name"@) matches Doc::Text(name) && component_name(name)
            &&& d.at("version"@) matches Doc::Text(version) && version.len() > 0
            &&& {
                ||| d.at("subject-class"@) == Doc::Text("tool-proxy"@)
                ||| d.at("subject-class"@) == Doc::Text("browser-agent"@)
                ||| d.at("subject-class"@) == Doc::Text("executor"@)
                ||| d.at("subject-class"@) == Doc::Text("memory"@)
                ||| d.at("subject-class"@) == Doc::Text("orchestrator-bridge"@)
                ||| d.at("subject-class"@) == Doc::Text("kernel"@)
            }
            &&& d.at("evidence-schemas"@) matches Doc::Record(schemas) && forall|i: int|
                0 <= i < schemas.len() ==> (#[trigger] schemas[i]).1 is Record && schemas[i].1.at(
                    "additionalProperties"@,
                ) == Doc::Bool(false)
            &&& d.at("actions"@) matches Doc::List(actions) && actions.len() > 0 && forall|i: int|
                0 <= i < actions.len() ==> action_fault(
                    d.at("name"@)->Text_0,
                    d.at("evidence-schemas"@),
                    #[trigger] actions[i],
                ) is None
            &&& d.at("budget-dimensions"@) matches Doc::List(dimensions) && forall|i: int|
                0 <= i < dimensions.len() ==> is_budget_dimension(
                    or_empty((#[trigger] dimensions[i]).as_text()),
                )
            &&& durable_objects_fault(d.at("durable-objects"@)) is None
            &&& d.at("conformance"@).at("self-test"@) is Text
            &&& d.at("conformance"@).at("vectors-version"@) is Text
        },
{
    lemma_head_fault(d);
    lemma_names_fault(d);
    lemma_declarations_fault(d);
    lemma_what_an_object_declares(d.at("durable-objects"@), Seq::empty());
    lemma_members_are_there(d);
}

/// What is a text, a list or a record is there.
proof fn lemma_members_are_there(d: Doc)
    ensures
        d.at("v"@) is Text && d.at("kind"@) is Text && d.at("name"@) is Text && d.at("version"@)
            is Text && d.at("subject-class"@) is Text && d.at("actions"@) is List && d.at(
            "evidence-schemas"@,
        ) is Record && d.at("budget-dimensions"@) is List && d.at("durable-objects"@) is List
            && d.at("conformance"@) is Record ==> forall|k: int|
            0 <= k < REQUIRED_MEMBERS@.len() ==> d.get(#[trigger] REQUIRED_MEMBERS@[k]@) is Some,
{
    let needed = REQUIRED_MEMBERS@;
    assert(needed[0]@ == "v"@);
    assert(needed[1]@ == "kind"@);
    assert(needed[2]@ == "name"@);
    assert(needed[3]@ == "version"@);
    assert(needed[4]@ == "subject-class"@);
    assert(needed[5]@ == "actions"@);
    assert(needed[6]@ == "evidence-schemas"@);
    assert(needed[7]@ == "budget-dimensions"@);
    assert(needed[8]@ == "durable-objects"@);
    assert(needed[9]@ == "conformance"@);
    if d.at("v"@) is Text && d.at("kind"@) is Text && d.at("name"@) is Text && d.at("version"@)
        is Text && d.at("subject-class"@) is Text && d.at("actions"@) is List && d.at(
        "evidence-schemas"@,
    ) is Record && d.at("budget-dimensions"@) is List && d.at("durable-objects"@) is List && d.at(
        "conformance"@,
    ) is Record {
        assert forall|k: int| 0 <= k < needed.len() implies d.get(#[trigger] needed[k]@)
            is Some by {
            assert(k == 0 || k == 1 || k == 2 || k == 3 || k == 4 || k == 5 || k == 6 || k == 7 || k
                == 8 || k == 9);
        }
    }
}

/// What a manifest declares of an action is what its first entry for that action says, wherever that
/// stands, and nothing where it has none.
pub proof fn lemma_what_is_declared_of_an_action(
    m: Manifest,
    action: Seq<char>,
    member: Seq<char>,
    k: int,
)
    ensures
        ({
            let actions = m.doc().at("actions"@).items();
            &&& 0 <= k < actions.len() && actions[k].at("action"@) == Doc::Text(action) && (forall|
                j: int,
            |
                0 <= j < k ==> (#[trigger] actions[j]).at("action"@) != Doc::Text(action))
                ==> m.declared(action, member) == actions[k].text_at(member)
            &&& (forall|j: int|
                0 <= j < actions.len() ==> (#[trigger] actions[j]).at("action"@) != Doc::Text(
                    action,
                )) ==> m.declared(action, member) is None
        }),
{
    let actions = m.doc().at("actions"@).items();
    crate::json::lemma_the_first_entry_is_found(actions, "action"@, action, 0);
    if let Some(entry) = entry_named(actions, "action"@, action, 0) {
        let i = choose|i: int|
            0 <= i < actions.len() && (#[trigger] actions[i]) == entry && entry.at("action"@)
                == Doc::Text(action) && forall|j: int|
                0 <= j < i ==> (#[trigger] actions[j]).at("action"@) != Doc::Text(action);
        if 0 <= k < actions.len() && actions[k].at("action"@) == Doc::Text(action) && k < i {
            assert(actions[k].at("action"@) != Doc::Text(action));
        }
        if 0 <= i < k {
            assert(actions[i].at("action"@) == Doc::Text(action));
        }
    }
}

} // verus!
