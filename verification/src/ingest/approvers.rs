//! Who may approve: enrolled human roots, and humans holding a mandate whose scope covers the
//! action. Never a group, a role or a rotation.

use vstd::prelude::*;

use crate::config::opt_string;
use crate::error::{Error, Fault};
use crate::json::{docs, named, one_of, Doc, Json};
use crate::keys::{is_key_id, KeyId};
use crate::text::{begins, same, starts_with, texts};

verus! {

/// The actions an enrolled human root approves, whatever policy says: policy cannot lower the bar
/// on the mechanism that enforces policy.
pub const ROOT_APPROVED_ACTIONS: [&'static str; 6] = [
    "kernel.publish_policy",
    "kernel.register_component",
    "kernel.enroll_root",
    "kernel.retire_root",
    "kernel.conformance_run",
    "kernel.resume_stream",
];

/// A human root enrolled at some instant.
#[derive(Debug)]
pub struct Root {
    /// Its key.
    pub key: KeyId,
    /// The human it belongs to.
    pub subject: String,
}

/// A key that may approve, and the subject it was resolved from.
#[derive(Debug)]
pub struct Approver {
    /// The key.
    pub key: KeyId,
    /// The subject, where the deployment can name one.
    pub subject: Option<String>,
}

/// A key that may approve, and the subject it was resolved from.
pub struct Permitted {
    /// The key.
    pub key: Seq<char>,
    /// The subject.
    pub subject: Option<Seq<char>>,
}

impl View for Approver {
    type V = Permitted;

    open spec fn view(&self) -> Permitted {
        Permitted { key: self.key@, subject: opt_string(self.subject) }
    }
}

/// What some approvers stand for.
pub open spec fn permitted(approvers: Seq<Approver>) -> Seq<Permitted> {
    Seq::new(approvers.len(), |i: int| approvers[i]@)
}

/// An approver under a subject's name.
pub open spec fn named_approver(key: Seq<char>, subject: Seq<char>) -> Permitted {
    Permitted { key, subject: Some(subject) }
}

/// Every enrolled root as an approver.
pub open spec fn all_roots(roots: Seq<Root>) -> Seq<Permitted> {
    Seq::new(roots.len(), |i: int| named_approver(roots[i].key@, roots[i].subject@))
}

/// Every enrolled root as an approver.
pub fn root_approvers(roots: &Vec<Root>) -> (r: Vec<Approver>)
    ensures
        permitted(r@) == all_roots(roots@),
{
    let mut out: Vec<Approver> = Vec::new();
    let mut i: usize = 0;
    while i < roots.len()
        invariant
            i <= roots@.len(),
            out@.len() == i,
            forall|j: int| 0 <= j < i ==> (#[trigger] permitted(out@)[j]) == all_roots(roots@)[j],
        decreases roots@.len() - i,
    {
        let ghost before = out@;
        out.push(
            Approver { key: roots[i].key.copy(), subject: Some(roots[i].subject.clone()) },
        );
        i += 1;
        assert forall|j: int| 0 <= j < i implies (#[trigger] permitted(out@)[j]) == all_roots(
            roots@,
        )[j] by {
            if j < i - 1 {
                assert(permitted(before)[j] == all_roots(roots@)[j]);
            }
        }
    }
    assert(permitted(out@) =~= all_roots(roots@));
    out
}

/// Whether a pattern of a scope covers an action: everything, the action itself, or what lies
/// under a prefix.
pub open spec fn covers(pattern: Seq<char>, action: Seq<char>) -> bool {
    ||| pattern == "*"@
    ||| pattern == action
    ||| pattern.len() >= 2 && pattern[pattern.len() - 2] == '.' && pattern.last() == '*' && begins(
        action,
        pattern.drop_last(),
    )
}

/// Whether one of some patterns covers an action.
pub open spec fn covered(patterns: Seq<Doc>, action: Seq<char>) -> bool {
    exists|i: int|
        0 <= i < patterns.len() && (#[trigger] patterns[i]).as_text() is Some && covers(
            patterns[i].as_text()->0,
            action,
        )
}

/// Whether the scope of a mandate covers an action; no action in particular is always covered.
pub open spec fn mandate_covers(mandate: Doc, action: Seq<char>) -> bool {
    action.len() == 0 || covered(mandate.at("scope"@).at("actions"@).items(), action)
}

/// Whether a pattern of a scope covers an action.
pub fn pattern_covers(pattern: &str, action: &str) -> (r: bool)
    ensures
        r == covers(pattern@, action@),
{
    if same(pattern, "*") || same(pattern, action) {
        return true;
    }
    let chars = crate::text::chars_of(pattern);
    let n: usize = chars.len();
    if n < 2 || chars[n - 2] != '.' || chars[n - 1] != '*' {
        return false;
    }
    let prefix = vstd::slice::slice_subrange(chars.as_slice(), 0, n - 1);
    let prefix = crate::text::text_of(prefix);
    assert(prefix@ =~= pattern@.drop_last());
    starts_with(action, prefix.as_str())
}

/// Whether the scope of a mandate covers an action.
pub fn scope_covers(mandate: &Json, action: &str) -> (r: bool)
    ensures
        r == mandate_covers(mandate@, action@),
{
    if action.is_empty() {
        return true;
    }
    match mandate.at("scope").at("actions").as_list() {
        None => false,
        Some(patterns) => {
            let mut i: usize = 0;
            while i < patterns.len()
                invariant
                    i <= patterns@.len(),
                    mandate@.at("scope"@).at("actions"@).items() == docs(patterns@),
                    forall|j: int|
                        0 <= j < i ==> !((#[trigger] docs(patterns@)[j]).as_text() is Some
                            && covers(docs(patterns@)[j].as_text()->0, action@)),
                decreases patterns@.len() - i,
            {
                if let Some(pattern) = patterns[i].as_text() {
                    if pattern_covers(pattern, action) {
                        assert(docs(patterns@)[i as int].as_text() == Some(pattern@));
                        return true;
                    }
                }
                i += 1;
            }
            false
        },
    }
}

/// Whether a key is among some approvers.
pub open spec fn approves(approvers: Seq<Permitted>, key: Seq<char>) -> bool {
    exists|i: int| 0 <= i < approvers.len() && (#[trigger] approvers[i]).key == key
}

/// Whether a key is among some approvers.
pub fn is_approver(approvers: &Vec<Approver>, key: &KeyId) -> (r: bool)
    ensures
        r == approves(permitted(approvers@), key@),
{
    let mut i: usize = 0;
    while i < approvers.len()
        invariant
            i <= approvers@.len(),
            forall|j: int| 0 <= j < i ==> (#[trigger] permitted(approvers@)[j]).key != key@,
        decreases approvers@.len() - i,
    {
        if same(approvers[i].key.as_str(), key.as_str()) {
            assert(permitted(approvers@)[i as int].key == key@);
            return true;
        }
        i += 1;
    }
    false
}

/// The subject the first approver with a key was resolved from.
pub open spec fn approver_subject(
    approvers: Seq<Permitted>,
    key: Seq<char>,
    from: int,
) -> Option<Option<Seq<char>>>
    decreases approvers.len() - from,
{
    if from >= approvers.len() {
        None
    } else if approvers[from].key == key {
        Some(approvers[from].subject)
    } else {
        approver_subject(approvers, key, from + 1)
    }
}

/// The first approver with a key.
pub fn find_approver<'a>(approvers: &'a Vec<Approver>, key: &KeyId) -> (r: Option<&'a Approver>)
    ensures
        match approver_subject(permitted(approvers@), key@, 0) {
            Some(subject) => r matches Some(a) && a.key@ == key@ && opt_string(a.subject)
                == subject,
            None => r is None,
        },
{
    let mut i: usize = 0;
    while i < approvers.len()
        invariant
            i <= approvers@.len(),
            approver_subject(permitted(approvers@), key@, 0) == approver_subject(
                permitted(approvers@),
                key@,
                i as int,
            ),
        decreases approvers@.len() - i,
    {
        if same(approvers[i].key.as_str(), key.as_str()) {
            return Some(&approvers[i]);
        }
        i += 1;
    }
    None
}

/// The enrolled roots, up to a place, that a policy names.
pub open spec fn named_roots(roots: Seq<Root>, subjects: Seq<Seq<char>>, upto: int) -> Seq<Permitted>
    decreases upto,
{
    if upto <= 0 {
        Seq::empty()
    } else {
        let before = named_roots(roots, subjects, upto - 1);
        if subjects.contains(roots[upto - 1].subject@) {
            before.push(named_approver(roots[upto - 1].key@, roots[upto - 1].subject@))
        } else {
            before
        }
    }
}

/// The approvers after the holder of a mandate is considered: added once, where the mandate covers
/// the action and names a key.
pub open spec fn with_holder(
    keys: Seq<Permitted>,
    subject: Seq<char>,
    mandate: Doc,
    action: Seq<char>,
) -> Seq<Permitted> {
    match mandate.at("grantee"@).text_at("key"@) {
        Some(key) => if mandate_covers(mandate, action) && is_key_id(key) && !approves(keys, key) {
            keys.push(named_approver(key, subject))
        } else {
            keys
        },
        None => keys,
    }
}

/// The approvers after the mandates of a subject, up to a place, are considered.
pub open spec fn with_holders(
    keys: Seq<Permitted>,
    subject: Seq<char>,
    mandates: Seq<Doc>,
    action: Seq<char>,
    upto: int,
) -> Seq<Permitted>
    decreases upto,
{
    if upto <= 0 {
        keys
    } else {
        with_holder(
            with_holders(keys, subject, mandates, action, upto - 1),
            subject,
            mandates[upto - 1],
            action,
        )
    }
}

/// The approvers after the subjects a policy names, up to a place, are considered, given what
/// asking for the mandates each holds came to. Only a human holds one that counts.
pub open spec fn with_subjects(
    keys: Seq<Permitted>,
    subjects: Seq<Seq<char>>,
    held: Seq<Result<Vec<Json>, Error>>,
    action: Seq<char>,
    upto: int,
) -> Result<Seq<Permitted>, Fault>
    decreases upto,
{
    if upto <= 0 {
        Ok(keys)
    } else {
        match with_subjects(keys, subjects, held, action, upto - 1) {
            Err(f) => Err(f),
            Ok(before) => if !begins(subjects[upto - 1], "human:"@) {
                Ok(before)
            } else {
                match held[upto - 1] {
                    Err(e) => Err(e@),
                    Ok(mandates) => Ok(
                        with_holders(
                            before,
                            subjects[upto - 1],
                            docs(mandates@),
                            action,
                            mandates@.len() as int,
                        ),
                    ),
                }
            },
        }
    }
}

/// The approvers of an action under a rule that names some subjects.
pub open spec fn approvers_named(
    roots: Seq<Root>,
    subjects: Seq<Seq<char>>,
    held: Seq<Result<Vec<Json>, Error>>,
    action: Seq<char>,
) -> Result<Seq<Permitted>, Fault> {
    with_subjects(
        named_roots(roots, subjects, roots.len() as int),
        subjects,
        held,
        action,
        subjects.len() as int,
    )
}

/// Whether a text is one of some texts.
pub fn holds_text(items: &Vec<String>, value: &str) -> (r: bool)
    ensures
        r == texts(items@).contains(value@),
{
    let mut i: usize = 0;
    while i < items.len()
        invariant
            i <= items@.len(),
            forall|j: int| 0 <= j < i ==> (#[trigger] texts(items@)[j]) != value@,
        decreases items@.len() - i,
    {
        if same(items[i].as_str(), value) {
            assert(texts(items@)[i as int] == value@);
            return true;
        }
        i += 1;
    }
    false
}

fn add_holders(
    keys: Vec<Approver>,
    subject: &str,
    mandates: &Vec<Json>,
    action: &str,
) -> (r: Vec<Approver>)
    ensures
        permitted(r@) == with_holders(
            permitted(keys@),
            subject@,
            docs(mandates@),
            action@,
            mandates@.len() as int,
        ),
{
    let ghost start = permitted(keys@);
    let mut out = keys;
    let mut i: usize = 0;
    while i < mandates.len()
        invariant
            i <= mandates@.len(),
            permitted(out@) == with_holders(start, subject@, docs(mandates@), action@, i as int),
        decreases mandates@.len() - i,
    {
        let ghost before = permitted(out@);
        if let Some(key) = mandates[i].at("grantee").text_at("key") {
            if scope_covers(&mandates[i], action) {
                if let Ok(key) = KeyId::parse(key) {
                    if !is_approver(&out, &key) {
                        out.push(Approver { key, subject: Some(subject.to_owned()) });
                        assert(permitted(out@) =~= before.push(named_approver(key@, subject@)));
                    }
                }
            }
        }
        i += 1;
    }
    out
}

/// Resolves the subjects a rule names to the keys permitted to sign: enrolled roots of those
/// names, and humans of those names holding a mandate that covers the action, given what asking
/// for the mandates each subject holds came to.
pub fn approver_keys(
    roots: &Vec<Root>,
    subjects: &Vec<String>,
    held: &Vec<Result<Vec<Json>, Error>>,
    action: &str,
) -> (r: Result<Vec<Approver>, Error>)
    requires
        held@.len() == subjects@.len(),
    ensures
        match approvers_named(roots@, texts(subjects@), held@, action@) {
            Ok(keys) => r matches Ok(v) && permitted(v@) == keys,
            Err(f) => r matches Err(e) && e@ == f,
        },
{
    let mut keys: Vec<Approver> = Vec::new();
    let mut i: usize = 0;
    assert(permitted(keys@) =~= Seq::empty());
    while i < roots.len()
        invariant
            i <= roots@.len(),
            permitted(keys@) == named_roots(roots@, texts(subjects@), i as int),
        decreases roots@.len() - i,
    {
        if holds_text(subjects, roots[i].subject.as_str()) {
            let ghost before = permitted(keys@);
            keys.push(
                Approver { key: roots[i].key.copy(), subject: Some(roots[i].subject.clone()) },
            );
            assert(permitted(keys@) =~= before.push(
                named_approver(roots@[i as int].key@, roots@[i as int].subject@),
            ));
        }
        i += 1;
    }
    let ghost start = permitted(keys@);
    i = 0;
    while i < subjects.len()
        invariant
            i <= subjects@.len() == held@.len(),
            start == named_roots(roots@, texts(subjects@), roots@.len() as int),
            with_subjects(start, texts(subjects@), held@, action@, i as int) == Ok::<
                Seq<Permitted>,
                Fault,
            >(permitted(keys@)),
        decreases subjects@.len() - i,
    {
        if starts_with(subjects[i].as_str(), "human:") {
            match &held[i] {
                Err(e) => {
                    proof {
                        lemma_subjects_fail(
                            start,
                            texts(subjects@),
                            held@,
                            action@,
                            i + 1,
                            subjects@.len() as int,
                        );
                    }
                    return Err(e.copy());
                },
                Ok(mandates) => {
                    keys = add_holders(keys, subjects[i].as_str(), mandates, action);
                },
            }
        }
        i += 1;
    }
    Ok(keys)
}

/// A subject whose mandates could not be asked for stops the resolution there.
proof fn lemma_subjects_fail(
    keys: Seq<Permitted>,
    subjects: Seq<Seq<char>>,
    held: Seq<Result<Vec<Json>, Error>>,
    action: Seq<char>,
    at: int,
    upto: int,
)
    requires
        0 < at <= upto,
        with_subjects(keys, subjects, held, action, at) is Err,
    ensures
        with_subjects(keys, subjects, held, action, upto) == with_subjects(
            keys,
            subjects,
            held,
            action,
            at,
        ),
    decreases upto,
{
    if at < upto {
        lemma_subjects_fail(keys, subjects, held, action, at, upto - 1);
    }
}

// -- resolution by rule -----------------------------------------------------------------------

/// Whether a key is an enrolled root's.
pub open spec fn is_enrolled(roots: Seq<Root>, key: Seq<char>) -> bool {
    exists|i: int| 0 <= i < roots.len() && (#[trigger] roots[i]).key@ == key
}

/// Whether a key is an enrolled root's.
pub fn is_root(roots: &Vec<Root>, key: &KeyId) -> (r: bool)
    ensures
        r == is_enrolled(roots@, key@),
{
    let mut i: usize = 0;
    while i < roots.len()
        invariant
            i <= roots@.len(),
            forall|j: int| 0 <= j < i ==> (#[trigger] roots@[j]).key@ != key@,
        decreases roots@.len() - i,
    {
        if same(roots[i].key.as_str(), key.as_str()) {
            return true;
        }
        i += 1;
    }
    false
}

/// The human the first root with a key, from a place on, belongs to.
pub open spec fn root_subject(roots: Seq<Root>, key: Seq<char>, from: int) -> Option<Seq<char>>
    decreases roots.len() - from,
{
    if from >= roots.len() {
        None
    } else if roots[from].key@ == key {
        Some(roots[from].subject@)
    } else {
        root_subject(roots, key, from + 1)
    }
}

/// The subject a key acts as: the human it is enrolled for, or else the subject that mandates in
/// force grant to it.
pub open spec fn acting_subject(
    roots: Seq<Root>,
    mandated: Result<Option<String>, Error>,
    key: Seq<char>,
) -> Result<Option<Seq<char>>, Fault> {
    match root_subject(roots, key, 0) {
        Some(subject) => Ok(Some(subject)),
        None => match mandated {
            Ok(subject) => Ok(opt_string(subject)),
            Err(e) => Err(e@),
        },
    }
}

/// The subject a key acts as, where the deployment knows one, given what asking for the subject
/// that mandates in force grant to it came to.
pub fn subject_of(
    roots: &Vec<Root>,
    mandated: &Result<Option<String>, Error>,
    key: &KeyId,
) -> (r: Result<Option<String>, Error>)
    ensures
        match acting_subject(roots@, *mandated, key@) {
            Ok(subject) => r matches Ok(s) && opt_string(s) == subject,
            Err(f) => r matches Err(e) && e@ == f,
        },
{
    let mut i: usize = 0;
    while i < roots.len()
        invariant
            i <= roots@.len(),
            root_subject(roots@, key@, 0) == root_subject(roots@, key@, i as int),
        decreases roots@.len() - i,
    {
        if same(roots[i].key.as_str(), key.as_str()) {
            return Ok(Some(roots[i].subject.clone()));
        }
        i += 1;
    }
    match mandated {
        Err(e) => Err(e.copy()),
        Ok(None) => Ok(None),
        Ok(Some(subject)) => Ok(Some(subject.clone())),
    }
}

/// What policy rules for a class.
#[derive(Debug)]
pub enum GateRule {
    /// Whoever the mandate covers may act.
    Allow,
    /// One of some subjects must approve.
    Gate {
        /// The subjects.
        subjects: Vec<String>,
        /// What asking for the mandates each of them holds came to.
        held: Vec<Result<Vec<Json>, Error>>,
    },
    /// Nobody may act.
    Deny,
}

impl GateRule {
    /// Whether what was asked was asked of each subject.
    pub open spec fn is_complete(self) -> bool {
        match self {
            GateRule::Gate { subjects, held } => held@.len() == subjects@.len(),
            _ => true,
        }
    }

    /// The keys that may approve an action under this rule, or others where it names none.
    pub open spec fn approving(
        self,
        roots: Seq<Root>,
        action: Seq<char>,
        others: Seq<Permitted>,
    ) -> Result<Seq<Permitted>, Fault> {
        match self {
            GateRule::Gate { subjects, held } => approvers_named(
                roots,
                texts(subjects@),
                held@,
                action,
            ),
            _ => Ok(others),
        }
    }

    /// The keys that may approve an action under this rule, or others where it names none.
    pub fn approvers(&self, roots: &Vec<Root>, action: &str, others: Vec<Approver>) -> (r: Result<
        Vec<Approver>,
        Error,
    >)
        requires
            self.is_complete(),
        ensures
            match self.approving(roots@, action@, permitted(others@)) {
                Ok(keys) => r matches Ok(v) && permitted(v@) == keys,
                Err(f) => r matches Err(e) && e@ == f,
            },
    {
        match self {
            GateRule::Gate { subjects, held } => approver_keys(roots, subjects, held, action),
            _ => Ok(others),
        }
    }
}

/// The keys that may approve an action, given the rule for its class, where a policy is in force:
/// the enrolled roots, unless the action is none of theirs and the rule names who.
pub open spec fn approving_keys(
    rule: Result<Option<GateRule>, Error>,
    roots: Seq<Root>,
    action: Seq<char>,
) -> Result<Seq<Permitted>, Fault> {
    if named(ROOT_APPROVED_ACTIONS@, action) {
        Ok(all_roots(roots))
    } else {
        match rule {
            Err(e) => Err(e@),
            Ok(None) => Ok(all_roots(roots)),
            Ok(Some(r)) => r.approving(roots, action, all_roots(roots)),
        }
    }
}

/// The keys that may approve an action.
pub fn approvers_for(
    rule: &Result<Option<GateRule>, Error>,
    roots: &Vec<Root>,
    action: &str,
) -> (r: Result<Vec<Approver>, Error>)
    requires
        rule matches Ok(Some(g)) ==> g.is_complete(),
    ensures
        match approving_keys(*rule, roots@, action@) {
            Ok(keys) => r matches Ok(v) && permitted(v@) == keys,
            Err(f) => r matches Err(e) && e@ == f,
        },
{
    let enrolled = root_approvers(roots);
    if one_of(action, &ROOT_APPROVED_ACTIONS) {
        return Ok(enrolled);
    }
    match rule {
        Err(e) => Err(e.copy()),
        Ok(None) => Ok(enrolled),
        Ok(Some(r)) => r.approvers(roots, action, enrolled),
    }
}

/// Whatever policy rules, only enrolled roots approve what is theirs to approve.
pub proof fn lemma_roots_approve_what_is_theirs(
    rule: Result<Option<GateRule>, Error>,
    roots: Seq<Root>,
    action: Seq<char>,
    key: Seq<char>,
)
    requires
        named(ROOT_APPROVED_ACTIONS@, action),
    ensures
        approving_keys(rule, roots, action) is Ok,
        approves(approving_keys(rule, roots, action)->Ok_0, key) == is_enrolled(roots, key),
{
    let keys = all_roots(roots);
    if is_enrolled(roots, key) {
        let i = choose|i: int| 0 <= i < roots.len() && (#[trigger] roots[i]).key@ == key;
        assert(keys[i].key == key);
    }
    if approves(keys, key) {
        let i = choose|i: int| 0 <= i < keys.len() && (#[trigger] keys[i]).key == key;
        assert(roots[i].key@ == key);
    }
}

/// A pattern covers everything where it is an asterisk, the action it spells, and, where it is a
/// name with a point and an asterisk behind it, every action under that name; and nothing else.
pub proof fn lemma_patterns_cover_what_they_say(pattern: Seq<char>, action: Seq<char>)
    ensures
        pattern == "*"@ ==> covers(pattern, action),
        covers(action, action),
        forall|name: Seq<char>, rest: Seq<char>|
            pattern == #[trigger] (name + ".*"@) && action == #[trigger] (name + "."@ + rest)
                ==> covers(pattern, action),
        covers(pattern, action) && pattern != "*"@ && pattern != action ==> exists|
            name: Seq<char>,
            rest: Seq<char>,
        |
            pattern == #[trigger] (name + ".*"@) && action == #[trigger] (name + "."@ + rest),
{
    reveal_strlit("*");
    reveal_strlit(".");
    reveal_strlit(".*");
    assert forall|name: Seq<char>, rest: Seq<char>|
        pattern == #[trigger] (name + ".*"@) && action == #[trigger] (name + "."@
            + rest) implies covers(pattern, action) by {
        assert(pattern.drop_last() =~= name + "."@);
        assert(action.take(pattern.drop_last().len() as int) =~= pattern.drop_last());
    }
    if covers(pattern, action) && pattern != "*"@ && pattern != action {
        let n = pattern.len() as int;
        let name = pattern.take(n - 2);
        let rest = action.skip(n - 1);
        assert(pattern =~= name + ".*"@);
        assert(pattern.drop_last() =~= name + "."@);
        assert(action =~= action.take(n - 1) + rest);
    }
}

/// The scope of a mandate covers an action where any of its patterns does, whichever, and only
/// there; where no action is in question, any mandate will do.
pub proof fn lemma_scopes_cover_by_any_pattern(mandate: Doc, action: Seq<char>)
    ensures
        action == Seq::<char>::empty() ==> mandate_covers(mandate, action),
        action.len() > 0 ==> (mandate_covers(mandate, action) <==> exists|i: int, p: Seq<char>|
            0 <= i < mandate.at("scope"@).at("actions"@).items().len()
                && #[trigger] mandate.at("scope"@).at("actions"@).items()[i] == Doc::Text(p)
                && #[trigger] covers(p, action)),
{
    let patterns = mandate.at("scope"@).at("actions"@).items();
    if action.len() > 0 {
        if mandate_covers(mandate, action) {
            let i = choose|i: int|
                0 <= i < patterns.len() && (#[trigger] patterns[i]).as_text() is Some && covers(
                    patterns[i].as_text()->0,
                    action,
                );
            assert(patterns[i] == Doc::Text(patterns[i].as_text()->0));
        }
        if exists|i: int, p: Seq<char>|
            0 <= i < patterns.len() && #[trigger] patterns[i] == Doc::Text(p) && #[trigger] covers(
                p,
                action,
            ) {
            let (i, p) = choose|i: int, p: Seq<char>|
                0 <= i < patterns.len() && #[trigger] patterns[i] == Doc::Text(p)
                    && #[trigger] covers(p, action);
            assert(patterns[i].as_text() == Some(p));
        }
    }
}

/// A root that any of the subjects names is taken up.
proof fn lemma_named_root(roots: Seq<Root>, subjects: Seq<Seq<char>>, upto: int, i: int, j: int)
    requires
        0 <= i < upto <= roots.len(),
        0 <= j < subjects.len(),
        roots[i].subject@ == subjects[j],
    ensures
        approves(named_roots(roots, subjects, upto), roots[i].key@),
    decreases upto,
{
    let before = named_roots(roots, subjects, upto - 1);
    let keys = named_roots(roots, subjects, upto);
    if i < upto - 1 {
        lemma_named_root(roots, subjects, upto - 1, i, j);
        let k = choose|k: int|
            0 <= k < before.len() && (#[trigger] before[k]).key == roots[i].key@;
        assert(keys[k] == before[k]);
    } else {
        assert(subjects.contains(subjects[j]));
        assert(keys[before.len() as int].key == roots[i].key@);
    }
}

/// What is taken up is a root that one of the subjects names.
proof fn lemma_taken_root(roots: Seq<Root>, subjects: Seq<Seq<char>>, upto: int, k: int) -> (r: (
    int,
    int,
))
    requires
        0 <= upto <= roots.len(),
        0 <= k < named_roots(roots, subjects, upto).len(),
    ensures
        0 <= r.0 < upto,
        0 <= r.1 < subjects.len(),
        roots[r.0].subject@ == subjects[r.1],
        roots[r.0].key@ == named_roots(roots, subjects, upto)[k].key,
        named_roots(roots, subjects, upto)[k].subject == Some(subjects[r.1]),
    decreases upto,
{
    let before = named_roots(roots, subjects, upto - 1);
    if k < before.len() {
        lemma_taken_root(roots, subjects, upto - 1, k)
    } else {
        let j = choose|j: int| 0 <= j < subjects.len() && subjects[j] == roots[upto - 1].subject@;
        (upto - 1, j)
    }
}

/// The holders of a subject's mandates are added behind those that were there: each whose mandate
/// covers the action and names a key, and nobody else.
proof fn lemma_holders(
    keys: Seq<Permitted>,
    subject: Seq<char>,
    mandates: Seq<Doc>,
    action: Seq<char>,
    upto: int,
)
    requires
        0 <= upto <= mandates.len(),
    ensures
        ({
            let out = with_holders(keys, subject, mandates, action, upto);
            &&& keys.len() <= out.len()
            &&& out.take(keys.len() as int) == keys
            &&& forall|n: int, key: Seq<char>|
                0 <= n < upto && (#[trigger] mandates[n]).at("grantee"@).text_at("key"@) == Some(
                    key,
                ) && mandate_covers(mandates[n], action) && #[trigger] is_key_id(key)
                    ==> exists|k: int| 0 <= k < out.len() && (#[trigger] out[k]).key == key
            &&& forall|k: int|
                keys.len() <= k < out.len() ==> (#[trigger] out[k]).subject == Some(subject)
                    && exists|n: int|
                    0 <= n < upto && (#[trigger] mandates[n]).at("grantee"@).text_at("key"@)
                        == Some(out[k].key) && mandate_covers(mandates[n], action)
        }),
    decreases upto,
{
    let out = with_holders(keys, subject, mandates, action, upto);
    if upto > 0 {
        lemma_holders(keys, subject, mandates, action, upto - 1);
        let before = with_holders(keys, subject, mandates, action, upto - 1);
        let last = mandates[upto - 1];
        assert(before.len() <= out.len());
        assert(forall|k: int| 0 <= k < before.len() ==> out[k] == before[k]);
        assert(out.take(keys.len() as int) =~= before.take(keys.len() as int));
        assert forall|n: int, key: Seq<char>|
            0 <= n < upto && (#[trigger] mandates[n]).at("grantee"@).text_at("key"@) == Some(key)
                && mandate_covers(mandates[n], action) && #[trigger] is_key_id(
                key,
            ) implies exists|k: int| 0 <= k < out.len() && (#[trigger] out[k]).key == key by {
            if n < upto - 1 {
                let k = choose|k: int| 0 <= k < before.len() && (#[trigger] before[k]).key == key;
                assert(out[k].key == key);
            } else if approves(before, key) {
                let k = choose|k: int| 0 <= k < before.len() && (#[trigger] before[k]).key == key;
                assert(out[k].key == key);
            } else {
                assert(out[before.len() as int].key == key);
            }
        }
        assert forall|k: int| keys.len() <= k < out.len() implies (#[trigger] out[k]).subject
            == Some(subject) && exists|n: int|
            0 <= n < upto && (#[trigger] mandates[n]).at("grantee"@).text_at("key"@) == Some(
                out[k].key,
            ) && mandate_covers(mandates[n], action) by {
            if k < before.len() {
                assert(before[k].subject == Some(subject));
                let n = choose|n: int|
                    0 <= n < upto - 1 && (#[trigger] mandates[n]).at("grantee"@).text_at("key"@)
                        == Some(before[k].key) && mandate_covers(mandates[n], action);
                assert(mandates[n].at("grantee"@).text_at("key"@) == Some(out[k].key));
            } else {
                assert(last.at("grantee"@).text_at("key"@) == Some(out[k].key));
            }
        }
    } else {
        assert(out.take(keys.len() as int) =~= keys);
    }
}

/// What a resolution comes to, up to a place among the subjects.
proof fn lemma_subjects(
    keys: Seq<Permitted>,
    subjects: Seq<Seq<char>>,
    held: Seq<Result<Vec<Json>, Error>>,
    action: Seq<char>,
    upto: int,
)
    requires
        0 <= upto <= subjects.len() == held.len(),
    ensures
        with_subjects(keys, subjects, held, action, upto) is Ok <==> forall|j: int|
            0 <= j < upto && begins(#[trigger] subjects[j], "human:"@) ==> held[j] is Ok,
        with_subjects(keys, subjects, held, action, upto) matches Ok(out) ==> {
            &&& keys.len() <= out.len()
            &&& out.take(keys.len() as int) == keys
            &&& forall|j: int, n: int, key: Seq<char>|
                0 <= j < upto && begins(subjects[j], "human:"@) && 0 <= n < held[j]->Ok_0@.len()
                    && (#[trigger] held[j]->Ok_0@[n])@.at("grantee"@).text_at("key"@) == Some(key)
                    && mandate_covers(held[j]->Ok_0@[n]@, action) && #[trigger] is_key_id(key)
                    ==> exists|k: int| 0 <= k < out.len() && (#[trigger] out[k]).key == key
            &&& forall|k: int|
                keys.len() <= k < out.len() ==> exists|j: int, n: int|
                    0 <= j < upto && begins(subjects[j], "human:"@) && (
                    #[trigger] out[k]).subject == Some(subjects[j]) && 0 <= n
                        < held[j]->Ok_0@.len() && (#[trigger] held[j]->Ok_0@[n])@.at(
                        "grantee"@,
                    ).text_at("key"@) == Some(out[k].key) && mandate_covers(
                        held[j]->Ok_0@[n]@,
                        action,
                    )
        },
    decreases upto,
{
    let result = with_subjects(keys, subjects, held, action, upto);
    if upto <= 0 {
        assert(keys.take(keys.len() as int) =~= keys);
    } else {
        lemma_subjects(keys, subjects, held, action, upto - 1);
        let earlier = with_subjects(keys, subjects, held, action, upto - 1);
        let at = upto - 1;
        assert(begins(subjects[at], "human:"@) == begins(subjects[at], "human:"@));
        if earlier is Ok && begins(subjects[at], "human:"@) && held[at] is Ok {
            let before = earlier->Ok_0;
            let out = result->Ok_0;
            let mandates = held[at]->Ok_0@;
            lemma_holders(before, subjects[at], docs(mandates), action, mandates.len() as int);
            assert(forall|k: int|
                0 <= k < before.len() ==> out[k] == out.take(before.len() as int)[k]);
            assert(out.take(keys.len() as int) =~= before.take(keys.len() as int));
            assert forall|j: int, n: int, key: Seq<char>|
                0 <= j < upto && begins(subjects[j], "human:"@) && 0 <= n < held[j]->Ok_0@.len()
                    && (#[trigger] held[j]->Ok_0@[n])@.at("grantee"@).text_at("key"@) == Some(key)
                    && mandate_covers(held[j]->Ok_0@[n]@, action) && #[trigger] is_key_id(
                    key,
                ) implies exists|k: int| 0 <= k < out.len() && (#[trigger] out[k]).key == key by {
                if j < at {
                    let k = choose|k: int|
                        0 <= k < before.len() && (#[trigger] before[k]).key == key;
                    assert(out[k].key == key);
                } else {
                    assert(docs(mandates)[n] == mandates[n]@);
                }
            }
            assert forall|k: int| keys.len() <= k < out.len() implies exists|j: int, n: int|
                0 <= j < upto && begins(subjects[j], "human:"@) && (#[trigger] out[k]).subject
                    == Some(subjects[j]) && 0 <= n < held[j]->Ok_0@.len() && (
                #[trigger] held[j]->Ok_0@[n])@.at("grantee"@).text_at("key"@) == Some(out[k].key)
                    && mandate_covers(held[j]->Ok_0@[n]@, action) by {
                if k < before.len() {
                    assert(out[k] == before[k]);
                    let (j, n) = choose|j: int, n: int|
                        0 <= j < at && begins(subjects[j], "human:"@) && before[k].subject == Some(
                            subjects[j],
                        ) && 0 <= n < held[j]->Ok_0@.len() && (#[trigger] held[j]->Ok_0@[n])@.at(
                            "grantee"@,
                        ).text_at("key"@) == Some(before[k].key) && mandate_covers(
                            held[j]->Ok_0@[n]@,
                            action,
                        );
                    assert(held[j]->Ok_0@[n]@.at("grantee"@).text_at("key"@) == Some(out[k].key));
                } else {
                    let n = choose|n: int|
                        0 <= n < mandates.len() && (#[trigger] docs(mandates)[n]).at(
                            "grantee"@,
                        ).text_at("key"@) == Some(out[k].key) && mandate_covers(
                            docs(mandates)[n],
                            action,
                        );
                    assert(held[at]->Ok_0@[n]@ == docs(mandates)[n]);
                }
            }
        }
    }
}

/// Who may approve under a rule that names subjects. Every root of any of those names does, and
/// every key that a mandate grants, where any human among them holds it and its scope covers the
/// action. Nobody else does. The resolution fails only where the mandates of one of those humans
/// could not be asked for.
pub proof fn lemma_who_the_named_subjects_are(
    roots: Seq<Root>,
    subjects: Seq<Seq<char>>,
    held: Seq<Result<Vec<Json>, Error>>,
    action: Seq<char>,
)
    requires
        held.len() == subjects.len(),
    ensures
        approvers_named(roots, subjects, held, action) is Ok <==> forall|j: int|
            0 <= j < subjects.len() && begins(#[trigger] subjects[j], "human:"@) ==> held[j] is Ok,
        approvers_named(roots, subjects, held, action) matches Ok(keys) ==> {
            &&& forall|i: int, j: int|
                0 <= i < roots.len() && 0 <= j < subjects.len() && (#[trigger] roots[i]).subject@
                    == #[trigger] subjects[j] ==> exists|k: int|
                    0 <= k < keys.len() && (#[trigger] keys[k]).key == roots[i].key@
            &&& forall|j: int, n: int, key: Seq<char>|
                0 <= j < subjects.len() && begins(subjects[j], "human:"@) && 0 <= n
                    < held[j]->Ok_0@.len() && (#[trigger] held[j]->Ok_0@[n])@.at(
                    "grantee"@,
                ).text_at("key"@) == Some(key) && mandate_covers(held[j]->Ok_0@[n]@, action)
                    && #[trigger] is_key_id(key) ==> exists|k: int|
                    0 <= k < keys.len() && (#[trigger] keys[k]).key == key
            &&& forall|k: int|
                0 <= k < keys.len() ==> {
                    ||| exists|i: int, j: int|
                        0 <= i < roots.len() && 0 <= j < subjects.len() && (
                        #[trigger] roots[i]).subject@ == #[trigger] subjects[j] && roots[i].key@
                            == (#[trigger] keys[k]).key && keys[k].subject == Some(subjects[j])
                    ||| exists|j: int, n: int|
                        0 <= j < subjects.len() && begins(subjects[j], "human:"@)
                            && keys[k].subject == Some(subjects[j]) && 0 <= n
                            < held[j]->Ok_0@.len() && (#[trigger] held[j]->Ok_0@[n])@.at(
                            "grantee"@,
                        ).text_at("key"@) == Some(keys[k].key) && mandate_covers(
                            held[j]->Ok_0@[n]@,
                            action,
                        )
                }
        },
{
    let start = named_roots(roots, subjects, roots.len() as int);
    lemma_subjects(start, subjects, held, action, subjects.len() as int);
    if approvers_named(roots, subjects, held, action) is Ok {
        let keys = approvers_named(roots, subjects, held, action)->Ok_0;
        assert(forall|k: int|
            0 <= k < start.len() ==> keys[k] == keys.take(start.len() as int)[k]);
        assert forall|i: int, j: int|
            0 <= i < roots.len() && 0 <= j < subjects.len() && (#[trigger] roots[i]).subject@
                == #[trigger] subjects[j] implies exists|k: int|
            0 <= k < keys.len() && (#[trigger] keys[k]).key == roots[i].key@ by {
            lemma_named_root(roots, subjects, roots.len() as int, i, j);
            let k = choose|k: int|
                0 <= k < start.len() && (#[trigger] start[k]).key == roots[i].key@;
            assert(keys[k].key == roots[i].key@);
        }
        assert forall|k: int| 0 <= k < keys.len() implies ({
            ||| exists|i: int, j: int|
                0 <= i < roots.len() && 0 <= j < subjects.len() && (#[trigger] roots[i]).subject@
                    == #[trigger] subjects[j] && roots[i].key@ == (#[trigger] keys[k]).key
                    && keys[k].subject == Some(subjects[j])
            ||| exists|j: int, n: int|
                0 <= j < subjects.len() && begins(subjects[j], "human:"@) && keys[k].subject
                    == Some(subjects[j]) && 0 <= n < held[j]->Ok_0@.len() && (
                #[trigger] held[j]->Ok_0@[n])@.at("grantee"@).text_at("key"@) == Some(keys[k].key)
                    && mandate_covers(held[j]->Ok_0@[n]@, action)
        }) by {
            if k < start.len() {
                assert(keys[k] == start[k]);
                let (i, j) = lemma_taken_root(roots, subjects, roots.len() as int, k);
                assert(roots[i].subject@ == subjects[j]);
            }
        }
    }
}

proof fn lemma_root_subject(roots: Seq<Root>, key: Seq<char>, from: int)
    requires
        0 <= from <= roots.len(),
    ensures
        match root_subject(roots, key, from) {
            Some(subject) => exists|k: int|
                from <= k < roots.len() && (#[trigger] roots[k]).key@ == key && roots[k].subject@
                    == subject && forall|j: int| from <= j < k ==> (#[trigger] roots[j]).key@ != key,
            None => forall|j: int| from <= j < roots.len() ==> (#[trigger] roots[j]).key@ != key,
        },
    decreases roots.len() - from,
{
    if from < roots.len() {
        if roots[from].key@ == key {
            assert(roots[from].subject@ == roots[from].subject@);
        } else {
            lemma_root_subject(roots, key, from + 1);
        }
    }
}

/// A key acts as the human it is enrolled for, wherever among the roots it stands; and where it is
/// no root's, as whom mandates in force grant it to.
pub proof fn lemma_whom_a_key_acts_as(
    roots: Seq<Root>,
    mandated: Result<Option<String>, Error>,
    key: Seq<char>,
)
    ensures
        (exists|i: int| 0 <= i < roots.len() && (#[trigger] roots[i]).key@ == key) ==> exists|
            k: int,
        |
            0 <= k < roots.len() && (#[trigger] roots[k]).key@ == key && acting_subject(
                roots,
                mandated,
                key,
            ) == Ok::<Option<Seq<char>>, Fault>(Some(roots[k].subject@)),
        (forall|i: int| 0 <= i < roots.len() ==> (#[trigger] roots[i]).key@ != key)
            ==> acting_subject(roots, mandated, key) == match mandated {
            Ok(Some(subject)) => Ok::<Option<Seq<char>>, Fault>(Some(subject@)),
            Ok(None) => Ok(None),
            Err(e) => Err(e@),
        },
{
    lemma_root_subject(roots, key, 0);
}

/// The approver found under a key is the first of it, wherever it stands.
pub proof fn lemma_the_first_approver_is_found(
    approvers: Seq<Permitted>,
    key: Seq<char>,
    from: int,
)
    requires
        0 <= from <= approvers.len(),
    ensures
        match approver_subject(approvers, key, from) {
            Some(subject) => exists|k: int|
                from <= k < approvers.len() && (#[trigger] approvers[k]).key == key
                    && approvers[k].subject == subject && forall|j: int|
                    from <= j < k ==> (#[trigger] approvers[j]).key != key,
            None => forall|j: int|
                from <= j < approvers.len() ==> (#[trigger] approvers[j]).key != key,
        },
    decreases approvers.len() - from,
{
    if from < approvers.len() {
        if approvers[from].key == key {
            assert(approvers[from].key == key);
        } else {
            lemma_the_first_approver_is_found(approvers, key, from + 1);
        }
    }
}

/// Who may approve an action: every enrolled root where the action is theirs or no policy is in
/// force, whoever a rule names where one does, and every enrolled root again where the rule names
/// nobody.
pub proof fn lemma_who_approves(
    rule: Result<Option<GateRule>, Error>,
    roots: Seq<Root>,
    action: Seq<char>,
)
    ensures
        ({
            let theirs = {
                ||| action == "kernel.publish_policy"@
                ||| action == "kernel.register_component"@
                ||| action == "kernel.enroll_root"@
                ||| action == "kernel.retire_root"@
                ||| action == "kernel.conformance_run"@
                ||| action == "kernel.resume_stream"@
            };
            let keys = approving_keys(rule, roots, action);
            &&& theirs || rule == Ok::<Option<GateRule>, Error>(None) || (rule matches Ok(Some(r))
                && !(r is Gate)) ==> (keys matches Ok(all) && all.len() == roots.len() && forall|
                i: int,
            |
                0 <= i < roots.len() ==> (#[trigger] all[i]).key == roots[i].key@ && all[i].subject
                    == Some(roots[i].subject@))
            &&& !theirs && rule is Err ==> keys is Err
            &&& !theirs ==> (rule matches Ok(Some(GateRule::Gate { subjects, held })) ==> keys
                == approvers_named(roots, texts(subjects@), held@, action))
        }),
{
    let names = ROOT_APPROVED_ACTIONS@;
    assert(names[0]@ == "kernel.publish_policy"@);
    assert(names[1]@ == "kernel.register_component"@);
    assert(names[2]@ == "kernel.enroll_root"@);
    assert(names[3]@ == "kernel.retire_root"@);
    assert(names[4]@ == "kernel.conformance_run"@);
    assert(names[5]@ == "kernel.resume_stream"@);
}

proof fn lemma_holders_once(
    keys: Seq<Permitted>,
    subject: Seq<char>,
    mandates: Seq<Doc>,
    action: Seq<char>,
    upto: int,
)
    requires
        0 <= upto <= mandates.len(),
    ensures
        ({
            let out = with_holders(keys, subject, mandates, action, upto);
            forall|j: int, k: int|
                0 <= j < k < out.len() && keys.len() <= k ==> (#[trigger] out[j]).key != (
                #[trigger] out[k]).key
        }),
    decreases upto,
{
    if upto > 0 {
        lemma_holders_once(keys, subject, mandates, action, upto - 1);
        let before = with_holders(keys, subject, mandates, action, upto - 1);
        let out = with_holders(keys, subject, mandates, action, upto);
        assert forall|j: int, k: int| 0 <= j < k < out.len() && keys.len() <= k implies (
        #[trigger] out[j]).key != (#[trigger] out[k]).key by {
            if k < before.len() {
                assert(out[j] == before[j] && out[k] == before[k]);
            } else {
                assert(out[j] == before[j]);
            }
        }
    }
}

proof fn lemma_subjects_once(
    keys: Seq<Permitted>,
    subjects: Seq<Seq<char>>,
    held: Seq<Result<Vec<Json>, Error>>,
    action: Seq<char>,
    upto: int,
)
    requires
        0 <= upto <= subjects.len() == held.len(),
        with_subjects(keys, subjects, held, action, upto) is Ok,
    ensures
        ({
            let out = with_subjects(keys, subjects, held, action, upto)->Ok_0;
            forall|j: int, k: int|
                0 <= j < k < out.len() && keys.len() <= k ==> (#[trigger] out[j]).key != (
                #[trigger] out[k]).key
        }),
    decreases upto,
{
    if upto > 0 {
        let at = upto - 1;
        lemma_subjects_once(keys, subjects, held, action, at);
        lemma_subjects(keys, subjects, held, action, at);
        let before = with_subjects(keys, subjects, held, action, at)->Ok_0;
        let out = with_subjects(keys, subjects, held, action, upto)->Ok_0;
        if begins(subjects[at], "human:"@) {
            let mandates = held[at]->Ok_0@;
            lemma_holders_once(
                before,
                subjects[at],
                docs(mandates),
                action,
                mandates.len() as int,
            );
            lemma_holders(before, subjects[at], docs(mandates), action, mandates.len() as int);
            assert forall|j: int, k: int| 0 <= j < k < out.len() && keys.len() <= k implies (
            #[trigger] out[j]).key != (#[trigger] out[k]).key by {
                if k < before.len() {
                    assert(out.take(before.len() as int)[j] == before[j]);
                    assert(out.take(before.len() as int)[k] == before[k]);
                }
            }
        }
    }
}

/// Nobody is taken up twice for holding mandates: a key that is a named root's, or was taken up for
/// another mandate, is not added again.
pub proof fn lemma_nobody_is_taken_up_twice(
    roots: Seq<Root>,
    subjects: Seq<Seq<char>>,
    held: Seq<Result<Vec<Json>, Error>>,
    action: Seq<char>,
)
    requires
        held.len() == subjects.len(),
        approvers_named(roots, subjects, held, action) is Ok,
        forall|i: int, j: int|
            0 <= i < j < roots.len() ==> (#[trigger] roots[i]).key@ != (#[trigger] roots[j]).key@,
    ensures
        ({
            let keys = approvers_named(roots, subjects, held, action)->Ok_0;
            forall|j: int, k: int|
                0 <= j < k < keys.len() ==> (#[trigger] keys[j]).key != (#[trigger] keys[k]).key
        }),
{
    let start = named_roots(roots, subjects, roots.len() as int);
    let keys = approvers_named(roots, subjects, held, action)->Ok_0;
    lemma_subjects_once(start, subjects, held, action, subjects.len() as int);
    lemma_subjects(start, subjects, held, action, subjects.len() as int);
    lemma_roots_once(roots, subjects, roots.len() as int);
    assert forall|j: int, k: int| 0 <= j < k < keys.len() implies (#[trigger] keys[j]).key != (
    #[trigger] keys[k]).key by {
        if k < start.len() {
            assert(keys.take(start.len() as int)[j] == start[j]);
            assert(keys.take(start.len() as int)[k] == start[k]);
        }
    }
}

proof fn lemma_roots_once(roots: Seq<Root>, subjects: Seq<Seq<char>>, upto: int)
    requires
        0 <= upto <= roots.len(),
        forall|i: int, j: int|
            0 <= i < j < roots.len() ==> (#[trigger] roots[i]).key@ != (#[trigger] roots[j]).key@,
    ensures
        ({
            let out = named_roots(roots, subjects, upto);
            forall|j: int, k: int|
                0 <= j < k < out.len() ==> (#[trigger] out[j]).key != (#[trigger] out[k]).key
        }),
    decreases upto,
{
    if upto > 0 {
        lemma_roots_once(roots, subjects, upto - 1);
        let before = named_roots(roots, subjects, upto - 1);
        let out = named_roots(roots, subjects, upto);
        assert forall|j: int, k: int| 0 <= j < k < out.len() implies (#[trigger] out[j]).key != (
        #[trigger] out[k]).key by {
            if k < before.len() {
                assert(out[j] == before[j] && out[k] == before[k]);
            } else {
                assert(out[j] == before[j]);
                let (i, _) = lemma_taken_root(roots, subjects, upto - 1, j);
                assert(roots[i].key@ != roots[upto - 1].key@);
            }
        }
    }
}

} // verus!
