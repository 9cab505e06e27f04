//! Conformance runs: what each group of checks concluded, and when a run is green.
//!
//! A run is green only when every required group has an outcome that satisfies it. The list of
//! groups is fixed here and the default is red: a check can only move a group from red to green,
//! and a group nobody ran can never be forgotten into looking green.

use vstd::prelude::*;

use crate::json::{
    docs, lemma_neighbours_in_order, list, member, member_docs, named, one_of, record, text, Doc,
    Json,
};
use crate::text::{differ_at, join4, precedes, same};

pub mod declared;
pub mod driven;
pub mod vectors;

pub use crate::conformance::declared::{check_durable_objects, check_per_action_emission};

verus! {

/// The groups of checks a run must satisfy, in order.
pub const REQUIRED_GROUPS: [&'static str; 7] = [
    "vectors",
    "per-action-emission",
    "aggregation",
    "negative-cases",
    "offline-behaviour",
    "durable-objects",
    "decay-independence",
];

/// The same groups in the order of their names, as evidence holds them.
pub const GROUP_NAMES: [&'static str; 7] = [
    "aggregation",
    "decay-independence",
    "durable-objects",
    "negative-cases",
    "offline-behaviour",
    "per-action-emission",
    "vectors",
];

/// The groups that may have nothing to check. Every other group applies to every component.
pub const MAY_NOT_APPLY: [&'static str; 1] = ["durable-objects"];

/// What one group concluded.
#[derive(Debug, PartialEq, Eq)]
pub enum GroupResult {
    /// Every check of the group ran and held.
    Passed {
        /// How many checks it made.
        checks: u32,
    },
    /// The group ran and the component failed it.
    Failed {
        /// What went wrong.
        detail: String,
    },
    /// The group does not apply to this component.
    NotApplicable {
        /// Why nothing applied.
        why: String,
    },
    /// The group was not run. Not an outcome, and never green.
    NotRun {
        /// Why not.
        why: String,
    },
}

/// What one group concluded.
pub enum Grade {
    /// Every check, so many of them, ran and held.
    Passed(int),
    /// The component failed, for a reason.
    Failed(Seq<char>),
    /// Nothing applied, for a reason.
    NotApplicable(Seq<char>),
    /// Nothing ran, for a reason.
    NotRun(Seq<char>),
}

impl View for GroupResult {
    type V = Grade;

    open spec fn view(&self) -> Grade {
        match *self {
            GroupResult::Passed { checks } => Grade::Passed(checks as int),
            GroupResult::Failed { detail } => Grade::Failed(detail@),
            GroupResult::NotApplicable { why } => Grade::NotApplicable(why@),
            GroupResult::NotRun { why } => Grade::NotRun(why@),
        }
    }
}

impl Grade {
    /// Whether this satisfies its group.
    pub open spec fn is_satisfied(self) -> bool {
        self is Passed || self is NotApplicable
    }

    /// This as a document.
    pub open spec fn doc(self) -> Doc {
        match self {
            Grade::Passed(checks) => Doc::Record(
                seq![("checks"@, Doc::Int(checks)), ("result"@, Doc::Text("passed"@))],
            ),
            Grade::Failed(detail) => Doc::Record(
                seq![("detail"@, Doc::Text(detail)), ("result"@, Doc::Text("failed"@))],
            ),
            Grade::NotApplicable(why) => Doc::Record(
                seq![("result"@, Doc::Text("not-applicable"@)), ("why"@, Doc::Text(why))],
            ),
            Grade::NotRun(why) => Doc::Record(
                seq![("result"@, Doc::Text("not-run"@)), ("why"@, Doc::Text(why))],
            ),
        }
    }
}

fn pair(a: (String, Json), b: (String, Json)) -> (r: Json)
    ensures
        r@ == Doc::Record(seq![(a.0@, a.1@), (b.0@, b.1@)]),
{
    let ghost expected = seq![(a.0@, a.1@), (b.0@, b.1@)];
    let mut members: Vec<(String, Json)> = Vec::new();
    members.push(a);
    members.push(b);
    assert(member_docs(members@) =~= expected);
    record(members)
}

impl GroupResult {
    /// Whether this result satisfies its group.
    pub fn satisfied(&self) -> (r: bool)
        ensures
            r == self@.is_satisfied(),
    {
        match self {
            GroupResult::Passed { .. } => true,
            GroupResult::NotApplicable { .. } => true,
            _ => false,
        }
    }

    /// This as a document.
    pub fn as_json(&self) -> (r: Json)
        ensures
            r@ == self@.doc(),
    {
        match self {
            GroupResult::Passed { checks } => pair(
                member("checks", Json::Unsigned(*checks as u64)),
                member("result", text("passed")),
            ),
            GroupResult::Failed { detail } => pair(
                member("detail", text(detail.as_str())),
                member("result", text("failed")),
            ),
            GroupResult::NotApplicable { why } => pair(
                member("result", text("not-applicable")),
                member("why", text(why.as_str())),
            ),
            GroupResult::NotRun { why } => pair(
                member("result", text("not-run")),
                member("why", text(why.as_str())),
            ),
        }
    }

    /// The same again.
    pub fn copy(&self) -> (r: GroupResult)
        ensures
            r@ == self@,
    {
        match self {
            GroupResult::Passed { checks } => GroupResult::Passed { checks: *checks },
            GroupResult::Failed { detail } => GroupResult::Failed { detail: detail.clone() },
            GroupResult::NotApplicable { why } => GroupResult::NotApplicable { why: why.clone() },
            GroupResult::NotRun { why } => GroupResult::NotRun { why: why.clone() },
        }
    }
}

/// A failure, for a reason.
pub fn failed(detail: String) -> (r: GroupResult)
    ensures
        r@ == Grade::Failed(detail@),
{
    GroupResult::Failed { detail }
}

/// The result of one run against one manifest.
#[derive(Debug)]
pub struct Run {
    /// The hash of the manifest under test.
    pub manifest_hash: String,
    /// The component's name.
    pub component: String,
    /// When the run finished.
    pub at: String,
    /// What each group that ran concluded, by its name. A group that is absent did not run.
    pub groups: Vec<(String, GroupResult)>,
}

/// What is recorded of a group, from a place on.
pub open spec fn graded(
    groups: Seq<(String, GroupResult)>,
    group: Seq<char>,
    from: int,
) -> Option<Grade>
    decreases groups.len() - from,
{
    if from >= groups.len() {
        None
    } else if groups[from].0@ == group {
        Some(groups[from].1@)
    } else {
        graded(groups, group, from + 1)
    }
}

/// Whether a group may be recorded with a grade: it is one of the required, and applies unless it
/// is one of those that may not.
pub open spec fn is_recordable(group: Seq<char>, grade: Grade) -> bool {
    named(REQUIRED_GROUPS@, group) && (grade is NotApplicable ==> named(MAY_NOT_APPLY@, group))
}

/// Whether a group may be recorded with a result.
pub fn may_record(group: &str, result: &GroupResult) -> (r: bool)
    ensures
        r == is_recordable(group@, result@),
{
    let known = one_of(group, &REQUIRED_GROUPS);
    match result {
        GroupResult::NotApplicable { .. } => known && one_of(group, &MAY_NOT_APPLY),
        _ => known,
    }
}

/// The required groups, up to a place, that are not satisfied.
pub open spec fn unsatisfied(groups: Seq<(String, GroupResult)>, upto: int) -> Seq<Seq<char>>
    decreases upto,
{
    if upto <= 0 {
        Seq::empty()
    } else {
        let before = unsatisfied(groups, upto - 1);
        let group = REQUIRED_GROUPS@[upto - 1]@;
        if graded(groups, group, 0) matches Some(g) && g.is_satisfied() {
            before
        } else {
            before.push(group)
        }
    }
}

/// Why a group that is absent did not run.
pub const NOT_EXECUTED: &'static str = "the harness did not execute this group";

/// What is said of a group: what was recorded, or that it did not run.
pub open spec fn grade_of(groups: Seq<(String, GroupResult)>, group: Seq<char>) -> Grade {
    match graded(groups, group, 0) {
        Some(g) => g,
        None => Grade::NotRun(NOT_EXECUTED@),
    }
}

/// Some texts as documents.
pub open spec fn text_docs(items: Seq<Seq<char>>) -> Seq<Doc> {
    Seq::new(items.len(), |i: int| Doc::Text(items[i]))
}

impl Run {
    /// What is recorded of a group.
    pub open spec fn grade(&self, group: Seq<char>) -> Option<Grade> {
        graded(self.groups@, group, 0)
    }

    /// The required groups that are not satisfied.
    pub open spec fn open_groups(&self) -> Seq<Seq<char>> {
        unsatisfied(self.groups@, REQUIRED_GROUPS@.len() as int)
    }

    /// The run as evidence.
    pub open spec fn evidence_doc(&self) -> Doc {
        Doc::Record(
            seq![
                ("at"@, Doc::Text(self.at@)),
                ("component"@, Doc::Text(self.component@)),
                ("green"@, Doc::Bool(self.open_groups().len() == 0)),
                (
                    "groups"@,
                    Doc::Record(
                        Seq::new(
                            GROUP_NAMES@.len(),
                            |i: int|
                                (
                                    GROUP_NAMES@[i]@,
                                    grade_of(self.groups@, GROUP_NAMES@[i]@).doc(),
                                ),
                        ),
                    ),
                ),
                ("manifest-hash"@, Doc::Text(self.manifest_hash@)),
                ("outstanding"@, Doc::List(text_docs(self.open_groups()))),
                ("schema"@, Doc::Text("kernel.conformance_run.v1"@)),
            ],
        )
    }

    /// A run in which nothing has been checked yet.
    pub fn new(manifest_hash: &str, component: &str, at: &str) -> (r: Run)
        ensures
            r.manifest_hash@ == manifest_hash@,
            r.component@ == component@,
            r.at@ == at@,
            r.groups@ == Seq::<(String, GroupResult)>::empty(),
    {
        Run {
            manifest_hash: manifest_hash.to_owned(),
            component: component.to_owned(),
            at: at.to_owned(),
            groups: Vec::new(),
        }
    }

    /// Records what a group concluded, in place of what was recorded of it before.
    pub fn record(&mut self, group: &str, result: GroupResult)
        requires
            is_recordable(group@, result@),
        ensures
            final(self).grade(group@) == Some(result@),
            forall|other: Seq<char>|
                other != group@ ==> #[trigger] final(self).grade(other) == old(self).grade(other),
            final(self).manifest_hash == old(self).manifest_hash,
            final(self).component == old(self).component,
            final(self).at == old(self).at,
    {
        let ghost before = self.groups@;
        let n: usize = self.groups.len();
        let mut i: usize = 0;
        while i < n
            invariant
                i <= n == before.len(),
                before == self.groups@,
                self.manifest_hash == old(self).manifest_hash,
                self.component == old(self).component,
                self.at == old(self).at,
                old(self).groups@ == before,
                forall|j: int| 0 <= j < i ==> (#[trigger] before[j]).0@ != group@,
            decreases n - i,
        {
            if same(self.groups[i].0.as_str(), group) {
                let name = group.to_owned();
                let ghost entry = (name, result);
                self.groups.set(i, (name, result));
                proof {
                    let after = before.update(i as int, entry);
                    assert(self.groups@ == after);
                    lemma_graded_at(after, i as int);
                    assert forall|other: Seq<char>| other != group@ implies #[trigger] graded(
                        after,
                        other,
                        0,
                    ) == graded(before, other, 0) by {
                        lemma_graded_update(before, i as int, entry, other, 0);
                    }
                    assert forall|other: Seq<char>| other != group@ implies #[trigger] self.grade(
                        other,
                    ) == old(self).grade(other) by {
                        assert(graded(after, other, 0) == graded(before, other, 0));
                    }
                }
                return ;
            }
            i += 1;
        }
        let name = group.to_owned();
        let ghost entry = (name, result);
        self.groups.push((name, result));
        proof {
            let after = before.push(entry);
            assert(self.groups@ == after);
            lemma_graded_at(after, n as int);
            assert forall|other: Seq<char>| other != group@ implies #[trigger] self.grade(other)
                == old(self).grade(other) by {
                lemma_graded_push(before, entry, other, 0);
            }
        }
    }

    /// The groups that are not satisfied, in order. A group nobody recorded is one of them.
    pub fn outstanding(&self) -> (r: Vec<&'static str>)
        ensures
            r@.len() == self.open_groups().len(),
            forall|i: int| 0 <= i < r@.len() ==> (#[trigger] r@[i])@ == self.open_groups()[i],
    {
        let mut out: Vec<&'static str> = Vec::new();
        let mut i: usize = 0;
        while i < REQUIRED_GROUPS.len()
            invariant
                i <= REQUIRED_GROUPS@.len(),
                out@.len() == unsatisfied(self.groups@, i as int).len(),
                forall|j: int|
                    0 <= j < out@.len() ==> (#[trigger] out@[j])@ == unsatisfied(
                        self.groups@,
                        i as int,
                    )[j],
            decreases REQUIRED_GROUPS@.len() - i,
        {
            let group = REQUIRED_GROUPS[i];
            let done = match self.find(group) {
                Some(result) => result.satisfied(),
                None => false,
            };
            if !done {
                out.push(group);
            }
            i += 1;
        }
        out
    }

    /// What is recorded of a group.
    pub fn find(&self, group: &str) -> (r: Option<&GroupResult>)
        ensures
            match self.grade(group@) {
                Some(g) => r matches Some(result) && result@ == g,
                None => r is None,
            },
    {
        let mut i: usize = 0;
        while i < self.groups.len()
            invariant
                i <= self.groups@.len(),
                graded(self.groups@, group@, 0) == graded(self.groups@, group@, i as int),
            decreases self.groups@.len() - i,
        {
            if same(self.groups[i].0.as_str(), group) {
                return Some(&self.groups[i].1);
            }
            i += 1;
        }
        None
    }

    /// Whether this run may be emitted as a green one.
    pub fn is_green(&self) -> (r: bool)
        ensures
            r == (self.open_groups().len() == 0),
    {
        self.outstanding().len() == 0
    }

    /// The run as evidence: every required group appears, whatever happened to it.
    pub fn evidence(&self) -> (r: Json)
        ensures
            r@ == self.evidence_doc(),
    {
        let mut groups: Vec<(String, Json)> = Vec::new();
        let mut i: usize = 0;
        while i < GROUP_NAMES.len()
            invariant
                i <= GROUP_NAMES@.len(),
                groups@.len() == i,
                forall|j: int|
                    0 <= j < i ==> (#[trigger] groups@[j]).0@ == GROUP_NAMES@[j]@
                        && groups@[j].1@ == grade_of(self.groups@, GROUP_NAMES@[j]@).doc(),
            decreases GROUP_NAMES@.len() - i,
        {
            let group = GROUP_NAMES[i];
            let result = match self.find(group) {
                Some(result) => result.as_json(),
                None => (GroupResult::NotRun { why: NOT_EXECUTED.to_owned() }).as_json(),
            };
            groups.push((group.to_owned(), result));
            i += 1;
        }
        let open = self.outstanding();
        let mut names: Vec<Json> = Vec::new();
        i = 0;
        while i < open.len()
            invariant
                i <= open@.len(),
                names@.len() == i,
                open@.len() == self.open_groups().len(),
                forall|j: int|
                    0 <= j < open@.len() ==> (#[trigger] open@[j])@ == self.open_groups()[j],
                forall|j: int|
                    0 <= j < i ==> (#[trigger] names@[j])@ == Doc::Text(self.open_groups()[j]),
            decreases open@.len() - i,
        {
            names.push(text(open[i]));
            i += 1;
        }
        assert(docs(names@) =~= text_docs(self.open_groups()));
        assert(member_docs(groups@) =~= Seq::new(
            GROUP_NAMES@.len(),
            |i: int|
                (GROUP_NAMES@[i]@, grade_of(self.groups@, GROUP_NAMES@[i]@).doc()),
        ));
        let mut members: Vec<(String, Json)> = Vec::new();
        members.push(member("at", text(self.at.as_str())));
        members.push(member("component", text(self.component.as_str())));
        members.push(member("green", Json::Bool(open.len() == 0)));
        members.push(member("groups", record(groups)));
        members.push(member("manifest-hash", text(self.manifest_hash.as_str())));
        members.push(member("outstanding", list(names)));
        members.push(member("schema", text("kernel.conformance_run.v1")));
        assert(member_docs(members@) =~= self.evidence_doc()->Record_0);
        record(members)
    }

    /// The same run again.
    pub fn copy(&self) -> (r: Run)
        ensures
            r.manifest_hash@ == self.manifest_hash@,
            r.component@ == self.component@,
            r.at@ == self.at@,
            r.groups@.len() == self.groups@.len(),
            forall|i: int|
                0 <= i < r.groups@.len() ==> (#[trigger] r.groups@[i]).0@ == self.groups@[i].0@
                    && r.groups@[i].1@ == self.groups@[i].1@,
    {
        let mut groups: Vec<(String, GroupResult)> = Vec::new();
        let mut i: usize = 0;
        while i < self.groups.len()
            invariant
                i <= self.groups@.len(),
                groups@.len() == i,
                forall|j: int|
                    0 <= j < i ==> (#[trigger] groups@[j]).0@ == self.groups@[j].0@
                        && groups@[j].1@ == self.groups@[j].1@,
            decreases self.groups@.len() - i,
        {
            groups.push((self.groups[i].0.clone(), self.groups[i].1.copy()));
            i += 1;
        }
        Run {
            manifest_hash: self.manifest_hash.clone(),
            component: self.component.clone(),
            at: self.at.clone(),
            groups,
        }
    }
}

proof fn lemma_graded_from(groups: Seq<(String, GroupResult)>, at: int, from: int)
    requires
        0 <= from <= at < groups.len(),
        forall|j: int| from <= j < at ==> (#[trigger] groups[j]).0@ != groups[at].0@,
    ensures
        graded(groups, groups[at].0@, from) == Some(groups[at].1@),
    decreases at - from,
{
    if from < at {
        lemma_graded_from(groups, at, from + 1);
    }
}

/// What is recorded of a group first is what is recorded of it.
proof fn lemma_graded_at(groups: Seq<(String, GroupResult)>, at: int)
    requires
        0 <= at < groups.len(),
        forall|j: int| 0 <= j < at ==> (#[trigger] groups[j]).0@ != groups[at].0@,
    ensures
        graded(groups, groups[at].0@, 0) == Some(groups[at].1@),
{
    lemma_graded_from(groups, at, 0);
}

/// To record a group again changes nothing of another.
proof fn lemma_graded_update(
    groups: Seq<(String, GroupResult)>,
    at: int,
    entry: (String, GroupResult),
    other: Seq<char>,
    from: int,
)
    requires
        0 <= at < groups.len(),
        0 <= from <= groups.len(),
        groups[at].0@ == entry.0@,
        entry.0@ != other,
    ensures
        graded(groups.update(at, entry), other, from) == graded(groups, other, from),
    decreases groups.len() - from,
{
    if from < groups.len() {
        lemma_graded_update(groups, at, entry, other, from + 1);
    }
}

/// To record a group for the first time changes nothing of another.
proof fn lemma_graded_push(
    groups: Seq<(String, GroupResult)>,
    entry: (String, GroupResult),
    other: Seq<char>,
    from: int,
)
    requires
        0 <= from <= groups.len(),
        entry.0@ != other,
    ensures
        graded(groups.push(entry), other, from) == graded(groups, other, from),
    decreases groups.len() - from,
{
    if from < groups.len() {
        lemma_graded_push(groups, entry, other, from + 1);
    } else {
        assert(graded(groups.push(entry), other, from + 1) is None);
    }
}

// -- decay ------------------------------------------------------------------------------------

/// What deleting payloads showed: something was deleted, the chain still verifies, and its head is
/// the same.
pub open spec fn decay_grade(
    before: Seq<char>,
    after: Seq<char>,
    verified: bool,
    payloads_deleted: int,
) -> Grade {
    if payloads_deleted == 0 {
        Grade::Failed("no payload was deleted, so nothing about decay was demonstrated"@)
    } else if !verified {
        Grade::Failed("the chain did not verify after payload decay"@)
    } else if before != after {
        Grade::Failed("the head hash moved across decay: "@ + before + " became "@ + after)
    } else {
        Grade::Passed(3)
    }
}

/// After deleting every payload the samples referenced, the chain still verifies and has the same
/// head.
pub fn check_decay_independence(
    before: &str,
    after: &str,
    verified: bool,
    payloads_deleted: usize,
) -> (r: GroupResult)
    ensures
        r@ == decay_grade(before@, after@, verified, payloads_deleted as int),
{
    if payloads_deleted == 0 {
        return failed(
            "no payload was deleted, so nothing about decay was demonstrated".to_owned(),
        );
    }
    if !verified {
        return failed("the chain did not verify after payload decay".to_owned());
    }
    if !same(before, after) {
        return failed(join4("the head hash moved across decay: ", before, " became ", after));
    }
    GroupResult::Passed { checks: 3 }
}

// -- laws -------------------------------------------------------------------------------------

/// Silence is not a pass: a run is green exactly when every required group has an outcome that
/// satisfies it.
pub proof fn lemma_green_means_every_group(run: Run)
    ensures
        run.open_groups().len() == 0 <==> forall|i: int|
            0 <= i < REQUIRED_GROUPS@.len() ==> (run.grade(#[trigger] REQUIRED_GROUPS@[i]@)
                matches Some(g) && g.is_satisfied()),
{
    lemma_unsatisfied(run.groups@, REQUIRED_GROUPS@.len() as int);
    if run.open_groups().len() == 0 {
        assert forall|i: int| 0 <= i < REQUIRED_GROUPS@.len() implies (run.grade(
            #[trigger] REQUIRED_GROUPS@[i]@,
        ) matches Some(g) && g.is_satisfied()) by {
            assert(satisfies(run.groups@, i));
        }
    } else {
        let i = choose|i: int| 0 <= i < REQUIRED_GROUPS@.len() && !satisfies(run.groups@, i);
        assert(!(run.grade(REQUIRED_GROUPS@[i]@) matches Some(g) && g.is_satisfied()));
    }
}

/// Whether the required group at a place is satisfied.
spec fn satisfies(groups: Seq<(String, GroupResult)>, i: int) -> bool {
    graded(groups, REQUIRED_GROUPS@[i]@, 0) matches Some(g) && g.is_satisfied()
}

proof fn lemma_unsatisfied(groups: Seq<(String, GroupResult)>, upto: int)
    requires
        0 <= upto <= REQUIRED_GROUPS@.len(),
    ensures
        unsatisfied(groups, upto).len() == 0 <==> forall|i: int|
            0 <= i < upto ==> #[trigger] satisfies(groups, i),
    decreases upto,
{
    if upto > 0 {
        lemma_unsatisfied(groups, upto - 1);
        if unsatisfied(groups, upto).len() == 0 {
            assert(satisfies(groups, upto - 1));
        } else if forall|i: int| 0 <= i < upto ==> #[trigger] satisfies(groups, i) {
            assert(satisfies(groups, upto - 1));
        }
    }
}

/// A new run is red, and every required group is outstanding.
pub proof fn lemma_a_new_run_is_red(run: Run)
    requires
        run.groups@ == Seq::<(String, GroupResult)>::empty(),
    ensures
        run.open_groups() == Seq::new(REQUIRED_GROUPS@.len(), |i: int| REQUIRED_GROUPS@[i]@),
{
    lemma_all_unsatisfied(run.groups@, REQUIRED_GROUPS@.len() as int);
}

proof fn lemma_all_unsatisfied(groups: Seq<(String, GroupResult)>, upto: int)
    requires
        groups == Seq::<(String, GroupResult)>::empty(),
        0 <= upto <= REQUIRED_GROUPS@.len(),
    ensures
        unsatisfied(groups, upto) == Seq::new(upto as nat, |i: int| REQUIRED_GROUPS@[i]@),
    decreases upto,
{
    if upto > 0 {
        lemma_all_unsatisfied(groups, upto - 1);
    }
    assert(unsatisfied(groups, upto) =~= Seq::new(upto as nat, |i: int| REQUIRED_GROUPS@[i]@));
}

proof fn lemma_group_names()
    ensures
        precedes("aggregation"@, "decay-independence"@),
        precedes("decay-independence"@, "durable-objects"@),
        precedes("durable-objects"@, "negative-cases"@),
        precedes("negative-cases"@, "offline-behaviour"@),
        precedes("offline-behaviour"@, "per-action-emission"@),
        precedes("per-action-emission"@, "vectors"@),
{
    reveal_strlit("aggregation");
    reveal_strlit("decay-independence");
    reveal_strlit("durable-objects");
    reveal_strlit("negative-cases");
    reveal_strlit("offline-behaviour");
    reveal_strlit("per-action-emission");
    reveal_strlit("vectors");
    assert(differ_at("aggregation"@, "decay-independence"@, 0));
    assert(differ_at("decay-independence"@, "durable-objects"@, 1));
    assert(differ_at("durable-objects"@, "negative-cases"@, 0));
    assert(differ_at("negative-cases"@, "offline-behaviour"@, 0));
    assert(differ_at("offline-behaviour"@, "per-action-emission"@, 0));
    assert(differ_at("per-action-emission"@, "vectors"@, 0));
}

proof fn lemma_evidence_names()
    ensures
        precedes("at"@, "component"@),
        precedes("component"@, "green"@),
        precedes("green"@, "groups"@),
        precedes("groups"@, "manifest-hash"@),
        precedes("manifest-hash"@, "outstanding"@),
        precedes("outstanding"@, "schema"@),
{
    reveal_strlit("at");
    reveal_strlit("component");
    reveal_strlit("green");
    reveal_strlit("groups");
    reveal_strlit("manifest-hash");
    reveal_strlit("outstanding");
    reveal_strlit("schema");
    assert(differ_at("at"@, "component"@, 0));
    assert(differ_at("component"@, "green"@, 0));
    assert(differ_at("green"@, "groups"@, 2));
    assert(differ_at("groups"@, "manifest-hash"@, 0));
    assert(differ_at("manifest-hash"@, "outstanding"@, 0));
    assert(differ_at("outstanding"@, "schema"@, 0));
}

proof fn lemma_grade_names()
    ensures
        precedes("checks"@, "result"@),
        precedes("detail"@, "result"@),
        precedes("result"@, "why"@),
{
    reveal_strlit("checks");
    reveal_strlit("result");
    reveal_strlit("why");
    reveal_strlit("detail");
    assert(differ_at("detail"@, "result"@, 0));
    assert(differ_at("checks"@, "result"@, 0));
    assert(differ_at("result"@, "why"@, 0));
}

proof fn lemma_grades_are_well_formed(g: Grade)
    ensures
        g.doc().well_formed(),
{
    reveal_with_fuel(Doc::well_formed, 2);
    lemma_grade_names();
    lemma_neighbours_in_order(g.doc()->Record_0);
}

/// Evidence holds every required group, each once, in a document that is well formed.
pub proof fn lemma_evidence_is_well_formed(run: Run, i: int)
    requires
        0 <= i < REQUIRED_GROUPS@.len(),
    ensures
        run.evidence_doc().well_formed(),
        named(GROUP_NAMES@, REQUIRED_GROUPS@[i]@),
{
    reveal_with_fuel(Doc::well_formed, 2);
    lemma_group_names();
    lemma_evidence_names();
    let members = run.evidence_doc()->Record_0;
    let groups = members[3].1->Record_0;
    assert forall|j: int| 0 <= j < groups.len() - 1 implies precedes(
        (#[trigger] groups[j]).0,
        groups[j + 1].0,
    ) by {
        assert(groups[j].0 == GROUP_NAMES@[j]@ && groups[j + 1].0 == GROUP_NAMES@[j + 1]@);
    }
    lemma_neighbours_in_order(groups);
    assert forall|j: int| 0 <= j < groups.len() implies (#[trigger] groups[j]).1.well_formed() by {
        lemma_grades_are_well_formed(grade_of(run.groups@, GROUP_NAMES@[j]@));
    }
    assert(members[3].1.well_formed());
    let open = members[5].1->List_0;
    assert forall|j: int| 0 <= j < open.len() implies (#[trigger] open[j]).well_formed() by {
        assert(open[j] == Doc::Text(run.open_groups()[j]));
    }
    assert(members[5].1.well_formed());
    lemma_neighbours_in_order(members);
    assert(REQUIRED_GROUPS@[0]@ == GROUP_NAMES@[6]@);
    assert(REQUIRED_GROUPS@[1]@ == GROUP_NAMES@[5]@);
    assert(REQUIRED_GROUPS@[2]@ == GROUP_NAMES@[0]@);
    assert(REQUIRED_GROUPS@[3]@ == GROUP_NAMES@[3]@);
    assert(REQUIRED_GROUPS@[4]@ == GROUP_NAMES@[4]@);
    assert(REQUIRED_GROUPS@[5]@ == GROUP_NAMES@[2]@);
    assert(REQUIRED_GROUPS@[6]@ == GROUP_NAMES@[1]@);
}

/// A run is green exactly where each of the seven groups passed or does not apply; and one that has
/// not run, or that failed, leaves it red whatever the others say.
pub proof fn lemma_what_green_takes(run: Run)
    ensures
        run.open_groups().len() == 0 <==> {
            &&& run.grade("vectors"@) matches Some(g) && (g is Passed || g is NotApplicable)
            &&& run.grade("per-action-emission"@) matches Some(g) && (g is Passed || g is NotApplicable)
            &&& run.grade("aggregation"@) matches Some(g) && (g is Passed || g is NotApplicable)
            &&& run.grade("negative-cases"@) matches Some(g) && (g is Passed || g is NotApplicable)
            &&& run.grade("offline-behaviour"@) matches Some(g) && (g is Passed || g is NotApplicable)
            &&& run.grade("durable-objects"@) matches Some(g) && (g is Passed || g is NotApplicable)
            &&& run.grade("decay-independence"@) matches Some(g) && (g is Passed || g is NotApplicable)
        },
{
    let names = REQUIRED_GROUPS@;
    assert(names[0]@ == "vectors"@);
    assert(names[1]@ == "per-action-emission"@);
    assert(names[2]@ == "aggregation"@);
    assert(names[3]@ == "negative-cases"@);
    assert(names[4]@ == "offline-behaviour"@);
    assert(names[5]@ == "durable-objects"@);
    assert(names[6]@ == "decay-independence"@);
    lemma_green_means_every_group(run);
    if run.open_groups().len() == 0 {
        assert(run.grade(names[0]@) matches Some(g) && g.is_satisfied());
        assert(run.grade(names[1]@) matches Some(g) && g.is_satisfied());
        assert(run.grade(names[2]@) matches Some(g) && g.is_satisfied());
        assert(run.grade(names[3]@) matches Some(g) && g.is_satisfied());
        assert(run.grade(names[4]@) matches Some(g) && g.is_satisfied());
        assert(run.grade(names[5]@) matches Some(g) && g.is_satisfied());
        assert(run.grade(names[6]@) matches Some(g) && g.is_satisfied());
    }
}

/// Only the group of durable objects may be recorded as one that does not apply; and nothing may be
/// recorded of what is no group.
pub proof fn lemma_what_may_be_recorded(group: Seq<char>, grade: Grade)
    ensures
        is_recordable(group, grade) <==> {
            &&& {
                ||| group == "vectors"@
                ||| group == "per-action-emission"@
                ||| group == "aggregation"@
                ||| group == "negative-cases"@
                ||| group == "offline-behaviour"@
                ||| group == "durable-objects"@
                ||| group == "decay-independence"@
            }
            &&& grade is NotApplicable ==> group == "durable-objects"@
        },
{
    let names = REQUIRED_GROUPS@;
    assert(names[0]@ == "vectors"@);
    assert(names[1]@ == "per-action-emission"@);
    assert(names[2]@ == "aggregation"@);
    assert(names[3]@ == "negative-cases"@);
    assert(names[4]@ == "offline-behaviour"@);
    assert(names[5]@ == "durable-objects"@);
    assert(names[6]@ == "decay-independence"@);
    let optional = MAY_NOT_APPLY@;
    assert(optional[0]@ == "durable-objects"@);
}

/// What a run says of a group is the first that was recorded of it, and nothing where nothing was.
pub proof fn lemma_what_a_run_says_of_a_group(
    groups: Seq<(String, GroupResult)>,
    group: Seq<char>,
    from: int,
)
    requires
        0 <= from <= groups.len(),
    ensures
        match graded(groups, group, from) {
            Some(g) => exists|k: int|
                from <= k < groups.len() && (#[trigger] groups[k]).0@ == group && groups[k].1@ == g
                    && forall|j: int| from <= j < k ==> (#[trigger] groups[j]).0@ != group,
            None => forall|j: int| from <= j < groups.len() ==> (#[trigger] groups[j]).0@ != group,
        },
    decreases groups.len() - from,
{
    if from < groups.len() {
        if groups[from].0@ == group {
            assert(groups[from].0@ == group);
        } else {
            lemma_what_a_run_says_of_a_group(groups, group, from + 1);
        }
    }
}

/// Decay is shown to be independent exactly where something was deleted, the chain still verifies
/// and its head has not moved.
pub proof fn lemma_when_decay_is_independent(
    before: Seq<char>,
    after: Seq<char>,
    verified: bool,
    payloads_deleted: int,
)
    ensures
        decay_grade(before, after, verified, payloads_deleted) is Passed <==> payloads_deleted != 0
            && verified && before == after,
        !(decay_grade(before, after, verified, payloads_deleted) is Passed) ==> decay_grade(
            before,
            after,
            verified,
            payloads_deleted,
        ) is Failed,
{
}

} // verus!
