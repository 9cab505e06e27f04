//! The filters of the audit explorer, and the query and the links they make.

use vstd::prelude::*;

use crate::console::encoding::{percent_encode, percent_encoded};
use crate::query::{number_in, number_of, param, param_of, says, EnvelopeQuery};
use crate::text::{join, join3, joined, opt_text, or_empty, texts};

verus! {

/// The filter state of the audit explorer. An empty filter matches everything.
#[derive(Debug, Default)]
pub struct Filters {
    /// The acting subject.
    pub subject: String,
    /// The mandate.
    pub mandate_ref: String,
    /// A mandate and everything delegated beneath it.
    pub mandate_subtree_of: String,
    /// The effective weight class.
    pub classification: String,
    /// The kind.
    pub kind: String,
    /// The action.
    pub action: String,
    /// The emitting component.
    pub component: String,
    /// The stream.
    pub stream: String,
    /// How the execution ended.
    pub outcome: String,
    /// The human the mandate walk reached.
    pub human_root: String,
    /// The durable object.
    pub commitment_id: String,
    /// The correlation reference.
    pub correlation_ref: String,
    /// The earliest instant of emission.
    pub emitted_from: String,
    /// The latest instant of emission.
    pub emitted_to: String,
    /// The most rows.
    pub limit: String,
    /// Only records that confess a violation.
    pub violations_only: bool,
    /// The row the page resumes behind.
    pub after: String,
}

/// Whether some filters are those a request gives.
pub open spec fn are_given(f: Filters, params: Seq<(String, String)>) -> bool {
    &&& f.subject@ == or_empty(param_of(params, "subject"@))
    &&& f.mandate_ref@ == or_empty(param_of(params, "mandate-ref"@))
    &&& f.mandate_subtree_of@ == or_empty(param_of(params, "mandate-subtree-of"@))
    &&& f.classification@ == or_empty(param_of(params, "classification"@))
    &&& f.kind@ == or_empty(param_of(params, "kind"@))
    &&& f.action@ == or_empty(param_of(params, "action"@))
    &&& f.component@ == or_empty(param_of(params, "component"@))
    &&& f.stream@ == or_empty(param_of(params, "stream"@))
    &&& f.outcome@ == or_empty(param_of(params, "outcome"@))
    &&& f.human_root@ == or_empty(param_of(params, "human-root"@))
    &&& f.commitment_id@ == or_empty(param_of(params, "commitment-id"@))
    &&& f.correlation_ref@ == or_empty(param_of(params, "correlation-ref"@))
    &&& f.emitted_from@ == or_empty(param_of(params, "emitted-from"@))
    &&& f.emitted_to@ == or_empty(param_of(params, "emitted-to"@))
    &&& f.limit@ == if or_empty(param_of(params, "limit"@)).len() == 0 {
        "200"@
    } else {
        or_empty(param_of(params, "limit"@))
    }
    &&& f.violations_only == (param_of(params, "violations-only"@) == Some("true"@))
    &&& f.after@ == or_empty(param_of(params, "after"@))
}

/// A filter, where it is set.
pub open spec fn set_filter(value: Seq<char>) -> Option<Seq<char>> {
    if value.len() == 0 {
        None
    } else {
        Some(value)
    }
}

fn set(value: &String) -> (r: Option<&str>)
    ensures
        opt_text(r) == set_filter(value@),
{
    if value.as_str().unicode_len() == 0 {
        None
    } else {
        Some(value.as_str())
    }
}

/// Whether a query asks what some filters say, behind a row where one is given.
pub open spec fn asks(q: EnvelopeQuery, f: Filters, after: Option<Seq<char>>) -> bool {
    &&& opt_text(q.subject) == set_filter(f.subject@)
    &&& opt_text(q.mandate_ref) == set_filter(f.mandate_ref@)
    &&& opt_text(q.mandate_subtree_of) == set_filter(f.mandate_subtree_of@)
    &&& opt_text(q.classification) == set_filter(f.classification@)
    &&& opt_text(q.kind) == set_filter(f.kind@)
    &&& opt_text(q.action) == set_filter(f.action@)
    &&& opt_text(q.component) == set_filter(f.component@)
    &&& opt_text(q.stream) == set_filter(f.stream@)
    &&& opt_text(q.emitted_from) == set_filter(f.emitted_from@)
    &&& opt_text(q.emitted_to) == set_filter(f.emitted_to@)
    &&& opt_text(q.correlation_ref) == set_filter(f.correlation_ref@)
    &&& q.correlation_prefix is None
    &&& opt_text(q.commitment_id) == set_filter(f.commitment_id@)
    &&& opt_text(q.outcome) == set_filter(f.outcome@)
    &&& opt_text(q.human_root) == set_filter(f.human_root@)
    &&& q.violations_only == f.violations_only
    &&& q.limit == number_of(Some(f.limit@), 200)
    &&& q.offset == 0
    &&& opt_text(q.after) == after
}

/// A part of a query string, where its filter is set.
pub open spec fn part(name: Seq<char>, value: Seq<char>) -> Seq<Seq<char>> {
    if value.len() == 0 {
        Seq::empty()
    } else {
        seq![name + "="@ + percent_encoded(value)]
    }
}

/// The filters with their names, but for the one that is a flag and for the page's own position
/// and size.
pub open spec fn named_filters(f: Filters) -> Seq<(Seq<char>, Seq<char>)> {
    seq![
        ("subject"@, f.subject@),
        ("mandate-ref"@, f.mandate_ref@),
        ("mandate-subtree-of"@, f.mandate_subtree_of@),
        ("classification"@, f.classification@),
        ("kind"@, f.kind@),
        ("action"@, f.action@),
        ("component"@, f.component@),
        ("stream"@, f.stream@),
        ("outcome"@, f.outcome@),
        ("human-root"@, f.human_root@),
        ("commitment-id"@, f.commitment_id@),
        ("correlation-ref"@, f.correlation_ref@),
        ("emitted-from"@, f.emitted_from@),
        ("emitted-to"@, f.emitted_to@),
    ]
}

/// The parts of some filters, those before a place.
pub open spec fn parts_of(filters: Seq<(Seq<char>, Seq<char>)>, upto: int) -> Seq<Seq<char>>
    decreases upto,
{
    if upto <= 0 {
        Seq::empty()
    } else {
        parts_of(filters, upto - 1) + part(filters[upto - 1].0, filters[upto - 1].1)
    }
}

/// The flag as a part.
pub open spec fn flag_part(f: Filters) -> Seq<Seq<char>> {
    if f.violations_only {
        seq!["violations-only=true"@]
    } else {
        Seq::empty()
    }
}

/// The parts of the page's query string: the filters, the most rows, and the flag.
pub open spec fn page_parts(f: Filters) -> Seq<Seq<char>> {
    parts_of(named_filters(f), 14) + part("limit"@, f.limit@) + flag_part(f)
}

/// The parts of the export's query string: the filters and the flag. Neither the page's size nor
/// its position is among them: an export holds everything the filters match.
pub open spec fn export_parts(f: Filters) -> Seq<Seq<char>> {
    parts_of(named_filters(f), 14) + flag_part(f)
}

fn push_part(parts: &mut Vec<String>, name: &str, value: &String)
    ensures
        texts(final(parts)@) == texts(old(parts)@) + part(name@, value@),
{
    if value.as_str().unicode_len() > 0 {
        let ghost before = texts(parts@);
        let encoded = percent_encode(value.as_str());
        parts.push(join3(name, "=", encoded.as_str()));
        assert(texts(parts@) =~= before + seq![name@ + "="@ + percent_encoded(value@)]);
    } else {
        assert(texts(parts@) + Seq::<Seq<char>>::empty() =~= texts(parts@));
    }
}

fn given(params: &Vec<(String, String)>, name: &str) -> (r: String)
    ensures
        r@ == or_empty(param_of(params@, name@)),
{
    crate::text::text_or_empty(param(params, name)).to_owned()
}

impl Filters {
    /// The filters a request gives.
    pub fn from_params(params: &Vec<(String, String)>) -> (r: Filters)
        ensures
            are_given(r, params@),
    {
        let asked = given(params, "limit");
        let limit = if asked.as_str().unicode_len() == 0 {
            "200".to_owned()
        } else {
            asked
        };
        Filters {
            subject: given(params, "subject"),
            mandate_ref: given(params, "mandate-ref"),
            mandate_subtree_of: given(params, "mandate-subtree-of"),
            classification: given(params, "classification"),
            kind: given(params, "kind"),
            action: given(params, "action"),
            component: given(params, "component"),
            stream: given(params, "stream"),
            outcome: given(params, "outcome"),
            human_root: given(params, "human-root"),
            commitment_id: given(params, "commitment-id"),
            correlation_ref: given(params, "correlation-ref"),
            emitted_from: given(params, "emitted-from"),
            emitted_to: given(params, "emitted-to"),
            limit,
            violations_only: says(param(params, "violations-only"), "true"),
            after: given(params, "after"),
        }
    }

    /// The row the page resumes behind, given whether the store reads what the request says as
    /// one. A position that is given and is none is refused: starting over would look like a later
    /// page.
    pub fn cursor(&self, is_cursor: bool) -> (r: Result<Option<&str>, ()>)
        ensures
            if self.after@.len() == 0 {
                r == Ok::<Option<&str>, ()>(None)
            } else if is_cursor {
                r matches Ok(Some(t)) && t@ == self.after@
            } else {
                r is Err
            },
    {
        if self.after.as_str().unicode_len() == 0 {
            return Ok(None);
        }
        if is_cursor {
            Ok(Some(self.after.as_str()))
        } else {
            Err(())
        }
    }

    /// The query of the first page.
    pub fn query(&self) -> (r: EnvelopeQuery<'_>)
        ensures
            asks(r, *self, None),
    {
        self.query_from(None)
    }

    /// The query of the page behind a row.
    pub fn query_from<'a>(&'a self, after: Option<&'a str>) -> (r: EnvelopeQuery<'a>)
        ensures
            asks(r, *self, opt_text(after)),
    {
        EnvelopeQuery {
            subject: set(&self.subject),
            mandate_ref: set(&self.mandate_ref),
            mandate_subtree_of: set(&self.mandate_subtree_of),
            classification: set(&self.classification),
            kind: set(&self.kind),
            action: set(&self.action),
            component: set(&self.component),
            stream: set(&self.stream),
            emitted_from: set(&self.emitted_from),
            emitted_to: set(&self.emitted_to),
            correlation_ref: set(&self.correlation_ref),
            correlation_prefix: None,
            commitment_id: set(&self.commitment_id),
            outcome: set(&self.outcome),
            human_root: set(&self.human_root),
            violations_only: self.violations_only,
            limit: number_in(Some(self.limit.as_str()), 200),
            offset: 0,
            after,
        }
    }

    fn filter_parts(&self) -> (r: Vec<String>)
        ensures
            texts(r@) == parts_of(named_filters(*self), 14),
    {
        let mut parts: Vec<String> = Vec::new();
        assert(texts(parts@) =~= Seq::empty());
        proof {
            reveal_with_fuel(parts_of, 15);
        }
        push_part(&mut parts, "subject", &self.subject);
        push_part(&mut parts, "mandate-ref", &self.mandate_ref);
        push_part(&mut parts, "mandate-subtree-of", &self.mandate_subtree_of);
        push_part(&mut parts, "classification", &self.classification);
        push_part(&mut parts, "kind", &self.kind);
        push_part(&mut parts, "action", &self.action);
        push_part(&mut parts, "component", &self.component);
        push_part(&mut parts, "stream", &self.stream);
        push_part(&mut parts, "outcome", &self.outcome);
        push_part(&mut parts, "human-root", &self.human_root);
        push_part(&mut parts, "commitment-id", &self.commitment_id);
        push_part(&mut parts, "correlation-ref", &self.correlation_ref);
        push_part(&mut parts, "emitted-from", &self.emitted_from);
        push_part(&mut parts, "emitted-to", &self.emitted_to);
        parts
    }

    fn push_flag(&self, parts: &mut Vec<String>)
        ensures
            texts(final(parts)@) == texts(old(parts)@) + flag_part(*self),
    {
        let ghost before = texts(parts@);
        if self.violations_only {
            parts.push("violations-only=true".to_owned());
            assert(texts(parts@) =~= before + seq!["violations-only=true"@]);
        } else {
            assert(texts(parts@) =~= before + Seq::<Seq<char>>::empty());
        }
    }

    /// The query string of the export: what the filters say, and nothing of the page.
    pub fn to_export_query_string(&self) -> (r: String)
        ensures
            r@ == joined(export_parts(*self), "&"@),
    {
        let mut parts = self.filter_parts();
        self.push_flag(&mut parts);
        join(&parts, "&")
    }

    /// The query string of a page.
    pub fn to_query_string(&self) -> (r: String)
        ensures
            r@ == joined(page_parts(*self), "&"@),
    {
        let mut parts = self.filter_parts();
        push_part(&mut parts, "limit", &self.limit);
        self.push_flag(&mut parts);
        join(&parts, "&")
    }
}

// -- laws -------------------------------------------------------------------------------------

/// An export does not depend on the page it is asked from: the page's position and size leave its
/// query string as it is.
pub proof fn lemma_exports_ignore_the_page(f: Filters, g: Filters)
    requires
        named_filters(f) == named_filters(g),
        f.violations_only == g.violations_only,
    ensures
        export_parts(f) == export_parts(g),
{
}

/// The links of a page carry what the page shows: the query string of the export is that of the
/// page without its size.
pub proof fn lemma_exports_carry_the_filters(f: Filters)
    ensures
        f.limit@.len() == 0 ==> export_parts(f) == page_parts(f),
        f.limit@.len() > 0 ==> page_parts(f) == parts_of(named_filters(f), 14) + seq![
            "limit="@ + percent_encoded(f.limit@),
        ] + flag_part(f),
{
    assert(parts_of(named_filters(f), 14) + Seq::<Seq<char>>::empty() =~= parts_of(
        named_filters(f),
        14,
    ));
    reveal_strlit("limit");
    reveal_strlit("limit=");
    reveal_strlit("=");
    assert("limit="@ =~= "limit"@ + "="@);
}

/// Every filter that is set narrows the query by its own member, and one that is not narrows
/// nothing.
pub proof fn lemma_set_filters_narrow(q: EnvelopeQuery, f: Filters, after: Option<Seq<char>>)
    requires
        asks(q, f, after),
    ensures
        f.subject@.len() > 0 ==> opt_text(q.subject) == Some(f.subject@),
        f.subject@.len() == 0 ==> q.subject is None,
        f.mandate_ref@.len() > 0 ==> opt_text(q.mandate_ref) == Some(f.mandate_ref@),
        f.mandate_ref@.len() == 0 ==> q.mandate_ref is None,
        f.mandate_subtree_of@.len() > 0 ==> opt_text(q.mandate_subtree_of) == Some(f.mandate_subtree_of@),
        f.mandate_subtree_of@.len() == 0 ==> q.mandate_subtree_of is None,
        f.classification@.len() > 0 ==> opt_text(q.classification) == Some(f.classification@),
        f.classification@.len() == 0 ==> q.classification is None,
        f.kind@.len() > 0 ==> opt_text(q.kind) == Some(f.kind@),
        f.kind@.len() == 0 ==> q.kind is None,
        f.action@.len() > 0 ==> opt_text(q.action) == Some(f.action@),
        f.action@.len() == 0 ==> q.action is None,
        f.component@.len() > 0 ==> opt_text(q.component) == Some(f.component@),
        f.component@.len() == 0 ==> q.component is None,
        f.stream@.len() > 0 ==> opt_text(q.stream) == Some(f.stream@),
        f.stream@.len() == 0 ==> q.stream is None,
        f.emitted_from@.len() > 0 ==> opt_text(q.emitted_from) == Some(f.emitted_from@),
        f.emitted_from@.len() == 0 ==> q.emitted_from is None,
        f.emitted_to@.len() > 0 ==> opt_text(q.emitted_to) == Some(f.emitted_to@),
        f.emitted_to@.len() == 0 ==> q.emitted_to is None,
        f.correlation_ref@.len() > 0 ==> opt_text(q.correlation_ref) == Some(f.correlation_ref@),
        f.correlation_ref@.len() == 0 ==> q.correlation_ref is None,
        f.commitment_id@.len() > 0 ==> opt_text(q.commitment_id) == Some(f.commitment_id@),
        f.commitment_id@.len() == 0 ==> q.commitment_id is None,
        f.outcome@.len() > 0 ==> opt_text(q.outcome) == Some(f.outcome@),
        f.outcome@.len() == 0 ==> q.outcome is None,
        f.human_root@.len() > 0 ==> opt_text(q.human_root) == Some(f.human_root@),
        f.human_root@.len() == 0 ==> q.human_root is None,
        q.violations_only == f.violations_only,
        q.offset == 0,
        opt_text(q.after) == after,
{
}

/// Every filter is read from the parameter of its name, and a page is two hundred where nothing is
/// said of it.
pub proof fn lemma_filters_are_read_by_name(f: Filters, params: Seq<(String, String)>)
    requires
        are_given(f, params),
    ensures
        f.subject@ == or_empty(param_of(params, "subject"@)),
        f.mandate_ref@ == or_empty(param_of(params, "mandate-ref"@)),
        f.mandate_subtree_of@ == or_empty(param_of(params, "mandate-subtree-of"@)),
        f.classification@ == or_empty(param_of(params, "classification"@)),
        f.kind@ == or_empty(param_of(params, "kind"@)),
        f.action@ == or_empty(param_of(params, "action"@)),
        f.component@ == or_empty(param_of(params, "component"@)),
        f.stream@ == or_empty(param_of(params, "stream"@)),
        f.outcome@ == or_empty(param_of(params, "outcome"@)),
        f.human_root@ == or_empty(param_of(params, "human-root"@)),
        f.commitment_id@ == or_empty(param_of(params, "commitment-id"@)),
        f.correlation_ref@ == or_empty(param_of(params, "correlation-ref"@)),
        f.emitted_from@ == or_empty(param_of(params, "emitted-from"@)),
        f.emitted_to@ == or_empty(param_of(params, "emitted-to"@)),
        f.after@ == or_empty(param_of(params, "after"@)),
        f.violations_only <==> param_of(params, "violations-only"@) == Some("true"@),
        param_of(params, "limit"@) is None ==> f.limit@ == "200"@,
        param_of(params, "limit"@) matches Some(t) ==> t.len() > 0 ==> f.limit@ == t,
{
}

/// A filter that is set is part of the link, and one that is not is no part of it.
proof fn lemma_part(filters: Seq<(Seq<char>, Seq<char>)>, upto: int, i: int)
    requires
        0 <= i < upto <= filters.len(),
        filters[i].1.len() > 0,
    ensures
        parts_of(filters, upto).contains(filters[i].0 + "="@ + percent_encoded(filters[i].1)),
    decreases upto,
{
    let before = parts_of(filters, upto - 1);
    let out = parts_of(filters, upto);
    let wanted = filters[i].0 + "="@ + percent_encoded(filters[i].1);
    if i < upto - 1 {
        lemma_part(filters, upto - 1, i);
        let k = choose|k: int| 0 <= k < before.len() && before[k] == wanted;
        assert(out[k] == wanted);
    } else {
        assert(out[before.len() as int] == wanted);
    }
}

/// A link to a page, and one to an export, carries every filter that is set, encoded under its
/// name, and says where only violations are wanted.
pub proof fn lemma_links_carry_every_filter(f: Filters, name: Seq<char>, value: Seq<char>)
    requires
        value.len() > 0,
        ({
            ||| name == "subject"@ && value == f.subject@
            ||| name == "mandate-ref"@ && value == f.mandate_ref@
            ||| name == "mandate-subtree-of"@ && value == f.mandate_subtree_of@
            ||| name == "classification"@ && value == f.classification@
            ||| name == "kind"@ && value == f.kind@
            ||| name == "action"@ && value == f.action@
            ||| name == "component"@ && value == f.component@
            ||| name == "stream"@ && value == f.stream@
            ||| name == "outcome"@ && value == f.outcome@
            ||| name == "human-root"@ && value == f.human_root@
            ||| name == "commitment-id"@ && value == f.commitment_id@
            ||| name == "correlation-ref"@ && value == f.correlation_ref@
            ||| name == "emitted-from"@ && value == f.emitted_from@
            ||| name == "emitted-to"@ && value == f.emitted_to@
        }),
    ensures
        export_parts(f).contains(name + "="@ + percent_encoded(value)),
        page_parts(f).contains(name + "="@ + percent_encoded(value)),
        f.violations_only ==> export_parts(f).last() == "violations-only=true"@
            && page_parts(f).last() == "violations-only=true"@,
{
    let filters = named_filters(f);
    let wanted = name + "="@ + percent_encoded(value);
    let i: int = if name == "subject"@ && value == f.subject@ {
        0
    } else if name == "mandate-ref"@ && value == f.mandate_ref@ {
        1
    } else if name == "mandate-subtree-of"@ && value == f.mandate_subtree_of@ {
        2
    } else if name == "classification"@ && value == f.classification@ {
        3
    } else if name == "kind"@ && value == f.kind@ {
        4
    } else if name == "action"@ && value == f.action@ {
        5
    } else if name == "component"@ && value == f.component@ {
        6
    } else if name == "stream"@ && value == f.stream@ {
        7
    } else if name == "outcome"@ && value == f.outcome@ {
        8
    } else if name == "human-root"@ && value == f.human_root@ {
        9
    } else if name == "commitment-id"@ && value == f.commitment_id@ {
        10
    } else if name == "correlation-ref"@ && value == f.correlation_ref@ {
        11
    } else if name == "emitted-from"@ && value == f.emitted_from@ {
        12
    } else {
        13
    };
    assert(filters[i] == (name, value));
    lemma_part(filters, 14, i);
    let parts = parts_of(filters, 14);
    let k = choose|k: int| 0 <= k < parts.len() && parts[k] == wanted;
    assert(export_parts(f)[k] == wanted);
    assert(page_parts(f)[k] == wanted);
}

} // verus!
