//! JSON documents as plain values, and what is read out of them.
//!
//! A document is well formed where the members of every record in it stand in the order of their
//! names, each name once. What is parsed is, what this crate draws up is, and putting a member in or
//! taking one out keeps it so.

use vstd::prelude::*;

use crate::text::{
    debug_text, decimal_text, is_before, join3, lemma_precedes_is_strict, lemma_precedes_is_total,
    lemma_precedes_is_transitive, precedes, quoted, same, signed, signed_text,
};

verus! {

/// A document, as the rules of this crate speak of it.
pub enum Doc {
    /// `null`.
    Null,
    /// `true` or `false`.
    Bool(bool),
    /// A whole number.
    Int(int),
    /// Any other number, as it is written.
    Number(Seq<char>),
    /// A string.
    Text(Seq<char>),
    /// An array.
    List(Seq<Doc>),
    /// An object.
    Record(Seq<(Seq<char>, Doc)>),
}

/// The value of the first member with a name.
pub open spec fn lookup(members: Seq<(Seq<char>, Doc)>, name: Seq<char>) -> Option<Doc>
    decreases members.len(),
{
    if members.len() == 0 {
        None
    } else if members[0].0 == name {
        Some(members[0].1)
    } else {
        lookup(members.drop_first(), name)
    }
}

impl Doc {
    /// The member of a record with a name; none where there is no such member, or no record.
    pub open spec fn get(self, name: Seq<char>) -> Option<Doc> {
        match self {
            Doc::Record(members) => lookup(members, name),
            _ => None,
        }
    }

    /// The member of a record with a name, and `null` where there is none.
    pub open spec fn at(self, name: Seq<char>) -> Doc {
        match self.get(name) {
            Some(value) => value,
            None => Doc::Null,
        }
    }

    /// The string a document is, where it is one.
    pub open spec fn as_text(self) -> Option<Seq<char>> {
        match self {
            Doc::Text(s) => Some(s),
            _ => None,
        }
    }

    /// The number a document is, where it is a whole one from zero to 2⁶⁴-1.
    pub open spec fn as_u64(self) -> Option<int> {
        match self {
            Doc::Int(n) => if 0 <= n <= u64::MAX {
                Some(n)
            } else {
                None
            },
            _ => None,
        }
    }

    /// The number a document is, where it is a whole one from -2⁶³ to 2⁶³-1.
    pub open spec fn as_i64(self) -> Option<int> {
        match self {
            Doc::Int(n) => if i64::MIN <= n <= i64::MAX {
                Some(n)
            } else {
                None
            },
            _ => None,
        }
    }

    /// The truth value a document is, where it is one.
    pub open spec fn as_bool(self) -> Option<bool> {
        match self {
            Doc::Bool(b) => Some(b),
            _ => None,
        }
    }

    /// The items of a document that is an array.
    pub open spec fn as_list(self) -> Option<Seq<Doc>> {
        match self {
            Doc::List(items) => Some(items),
            _ => None,
        }
    }

    /// The items of a document that is an array, and no items where it is none.
    pub open spec fn items(self) -> Seq<Doc> {
        match self {
            Doc::List(items) => items,
            _ => Seq::empty(),
        }
    }

    /// The members of a document that is a record.
    pub open spec fn as_record(self) -> Option<Seq<(Seq<char>, Doc)>> {
        match self {
            Doc::Record(members) => Some(members),
            _ => None,
        }
    }

    /// The string at a member, where there is one.
    pub open spec fn text_at(self, name: Seq<char>) -> Option<Seq<char>> {
        self.at(name).as_text()
    }

    /// Whether the members of every record in a document stand in the order of their names, each
    /// name once.
    pub open spec fn well_formed(self) -> bool
        decreases self,
    {
        match self {
            Doc::List(items) => forall|i: int|
                0 <= i < items.len() ==> (#[trigger] items[i]).well_formed(),
            Doc::Record(members) => in_order(members) && forall|i: int|
                0 <= i < members.len() ==> (#[trigger] members[i]).1.well_formed(),
            _ => true,
        }
    }
}

/// Whether members stand in the order of their names, each name once.
pub open spec fn in_order(members: Seq<(Seq<char>, Doc)>) -> bool {
    forall|i: int, j: int|
        0 <= i < j < members.len() ==> precedes(
            (#[trigger] members[i]).0,
            (#[trigger] members[j]).0,
        )
}

/// A JSON document.
#[derive(Debug)]
pub enum Json {
    /// `null`.
    Null,
    /// `true` or `false`.
    Bool(bool),
    /// A whole number that is not negative.
    Unsigned(u64),
    /// A whole number below zero.
    Signed(i64),
    /// Any other number, as it is written.
    Number(String),
    /// A string.
    Text(String),
    /// An array.
    List(Vec<Json>),
    /// An object, its members as they are held: in a well formed document in the order of their
    /// names.
    Record(Vec<(String, Json)>),
}

impl Json {
    /// The document a value stands for.
    pub open spec fn doc(self) -> Doc
        decreases self,
    {
        match self {
            Json::Null => Doc::Null,
            Json::Bool(b) => Doc::Bool(b),
            Json::Unsigned(n) => Doc::Int(n as int),
            Json::Signed(n) => Doc::Int(n as int),
            Json::Number(s) => Doc::Number(s@),
            Json::Text(s) => Doc::Text(s@),
            Json::List(items) => Doc::List(
                Seq::new(
                    items@.len(),
                    |i: int|
                        if 0 <= i < items@.len() {
                            items@[i].doc()
                        } else {
                            Doc::Null
                        },
                ),
            ),
            Json::Record(members) => Doc::Record(
                Seq::new(
                    members@.len(),
                    |i: int|
                        if 0 <= i < members@.len() {
                            (members@[i].0@, members@[i].1.doc())
                        } else {
                            (Seq::empty(), Doc::Null)
                        },
                ),
            ),
        }
    }
}

impl View for Json {
    type V = Doc;

    open spec fn view(&self) -> Doc {
        self.doc()
    }
}

/// The documents a list of values stands for.
pub open spec fn docs(items: Seq<Json>) -> Seq<Doc> {
    Seq::new(items.len(), |i: int| items[i]@)
}

impl Json {
    /// The member of a record with a name.
    pub fn get(&self, name: &str) -> (r: Option<&Json>)
        ensures
            match r {
                Some(value) => self@.get(name@) == Some(value@),
                None => self@.get(name@) is None,
            },
    {
        match self {
            Json::Record(members) => {
                let ghost all = self@->Record_0;
                let mut i: usize = 0;
                assert(all.skip(0) == all);
                while i < members.len()
                    invariant
                        *self == Json::Record(*members),
                        all == self@->Record_0,
                        i <= members@.len() == all.len(),
                        lookup(all, name@) == lookup(all.skip(i as int), name@),
                    decreases members@.len() - i,
                {
                    assert(all[i as int] == (members@[i as int].0@, members@[i as int].1@));
                    assert(all.skip(i as int)[0] == all[i as int]);
                    if same(members[i].0.as_str(), name) {
                        return Some(&members[i].1);
                    }
                    assert(all.skip(i as int).drop_first() == all.skip(i + 1));
                    i += 1;
                }
                assert(all.skip(i as int).len() == 0);
                None
            },
            _ => None,
        }
    }

    /// The member of a record with a name, and `null` where there is none.
    pub fn at(&self, name: &str) -> (r: &Json)
        ensures
            r@ == self@.at(name@),
    {
        match self.get(name) {
            Some(value) => value,
            None => &Json::Null,
        }
    }
}

/// Whether a text is one of some names.
pub open spec fn named(names: Seq<&str>, key: Seq<char>) -> bool {
    exists|i: int| 0 <= i < names.len() && #[trigger] names[i]@ == key
}

/// Whether a text is one of some names.
pub fn one_of(key: &str, names: &[&str]) -> (r: bool)
    ensures
        r == named(names@, key@),
{
    let mut i: usize = 0;
    while i < names.len()
        invariant
            i <= names@.len(),
            forall|j: int| 0 <= j < i ==> #[trigger] names@[j]@ != key@,
        decreases names@.len() - i,
    {
        if same(names[i], key) {
            return true;
        }
        i += 1;
    }
    false
}

/// The first member, from a place on, whose name is not one of some names.
pub open spec fn stranger(
    members: Seq<(Seq<char>, Doc)>,
    names: Seq<&str>,
    from: int,
) -> Option<Seq<char>>
    decreases members.len() - from,
{
    if from >= members.len() {
        None
    } else if !named(names, members[from].0) {
        Some(members[from].0)
    } else {
        stranger(members, names, from + 1)
    }
}

/// What the members of a record held as values stand for.
pub open spec fn member_docs(members: Seq<(String, Json)>) -> Seq<(Seq<char>, Doc)> {
    Seq::new(members.len(), |i: int| (members[i].0@, members[i].1@))
}

/// A record value stands for its members.
pub proof fn lemma_record(members: Vec<(String, Json)>)
    ensures
        Json::Record(members)@ == Doc::Record(member_docs(members@)),
{
    assert(Json::Record(members)@->Record_0 =~= member_docs(members@));
}

/// A list value stands for its items.
pub proof fn lemma_list(items: Vec<Json>)
    ensures
        Json::List(items)@ == Doc::List(docs(items@)),
{
    assert(Json::List(items)@->List_0 =~= docs(items@));
}

/// The name of the first member of a record that is not one of some names.
pub fn unknown_member(members: &Vec<(String, Json)>, names: &[&str]) -> (r: Option<String>)
    ensures
        match stranger(member_docs(members@), names@, 0) {
            Some(name) => r matches Some(s) && s@ == name,
            None => r is None,
        },
{
    let mut i: usize = 0;
    while i < members.len()
        invariant
            i <= members@.len(),
            stranger(member_docs(members@), names@, 0) == stranger(
                member_docs(members@),
                names@,
                i as int,
            ),
        decreases members@.len() - i,
    {
        if !one_of(members[i].0.as_str(), names) {
            return Some(members[i].0.clone());
        }
        i += 1;
    }
    None
}

/// The first of some names, from a place on, that a record has no member of.
pub open spec fn absent(d: Doc, names: Seq<&str>, from: int) -> Option<Seq<char>>
    decreases names.len() - from,
{
    if from >= names.len() {
        None
    } else if d.get(names[from]@) is None {
        Some(names[from]@)
    } else {
        absent(d, names, from + 1)
    }
}

/// The first of some names that a record has no member of.
pub fn absent_member(d: &Json, names: &[&str]) -> (r: Option<String>)
    ensures
        match absent(d@, names@, 0) {
            Some(name) => r matches Some(s) && s@ == name,
            None => r is None,
        },
{
    let mut i: usize = 0;
    while i < names.len()
        invariant
            i <= names@.len(),
            absent(d@, names@, 0) == absent(d@, names@, i as int),
        decreases names@.len() - i,
    {
        if d.get(names[i]).is_none() {
            return Some(names[i].to_owned());
        }
        i += 1;
    }
    None
}

/// A named member.
pub fn member(name: &str, value: Json) -> (r: (String, Json))
    ensures
        r.0@ == name@,
        r.1 == value,
{
    (name.to_owned(), value)
}

/// A record with the given members.
pub fn record(members: Vec<(String, Json)>) -> (r: Json)
    ensures
        r@ == Doc::Record(member_docs(members@)),
{
    proof {
        lemma_record(members);
    }
    Json::Record(members)
}

/// An array with the given items.
pub fn list(items: Vec<Json>) -> (r: Json)
    ensures
        r@ == Doc::List(docs(items@)),
{
    proof {
        lemma_list(items);
    }
    Json::List(items)
}

/// A string.
pub fn text(s: &str) -> (r: Json)
    ensures
        r@ == Doc::Text(s@),
{
    Json::Text(s.to_owned())
}

/// A number.
pub fn number(n: i64) -> (r: Json)
    ensures
        r@ == Doc::Int(n as int),
{
    if n < 0 {
        Json::Signed(n)
    } else {
        Json::Unsigned(n as u64)
    }
}

/// What a string, where there is one, stands for as a document.
pub open spec fn text_or_null(s: Option<Seq<char>>) -> Doc {
    match s {
        Some(t) => Doc::Text(t),
        None => Doc::Null,
    }
}

impl Json {
    /// The string a document is, where it is one.
    pub fn as_text(&self) -> (r: Option<&str>)
        ensures
            match r {
                Some(s) => self@.as_text() == Some(s@),
                None => self@.as_text() is None,
            },
    {
        match self {
            Json::Text(s) => Some(s.as_str()),
            _ => None,
        }
    }

    /// The string at a member, where there is one.
    pub fn text_at(&self, name: &str) -> (r: Option<&str>)
        ensures
            match r {
                Some(s) => self@.text_at(name@) == Some(s@),
                None => self@.text_at(name@) is None,
            },
    {
        self.at(name).as_text()
    }

    /// The number a document is, where it is a whole one from zero to 2⁶⁴-1.
    pub fn as_u64(&self) -> (r: Option<u64>)
        ensures
            match r {
                Some(n) => self@.as_u64() == Some(n as int),
                None => self@.as_u64() is None,
            },
    {
        match self {
            Json::Unsigned(n) => Some(*n),
            Json::Signed(n) => if *n >= 0 {
                Some(*n as u64)
            } else {
                None
            },
            _ => None,
        }
    }

    /// The number a document is, where it is a whole one from -2⁶³ to 2⁶³-1.
    pub fn as_i64(&self) -> (r: Option<i64>)
        ensures
            match r {
                Some(n) => self@.as_i64() == Some(n as int),
                None => self@.as_i64() is None,
            },
    {
        match self {
            Json::Unsigned(n) => if *n <= i64::MAX as u64 {
                Some(*n as i64)
            } else {
                None
            },
            Json::Signed(n) => Some(*n),
            _ => None,
        }
    }

    /// The truth value a document is, where it is one.
    pub fn as_bool(&self) -> (r: Option<bool>)
        ensures
            r == self@.as_bool(),
    {
        match self {
            Json::Bool(b) => Some(*b),
            _ => None,
        }
    }

    /// Whether a document is `null`.
    pub fn is_null(&self) -> (r: bool)
        ensures
            r == (self@ == Doc::Null),
    {
        match self {
            Json::Null => true,
            _ => false,
        }
    }

    /// The items of a document that is an array.
    pub fn as_list(&self) -> (r: Option<&Vec<Json>>)
        ensures
            match r {
                Some(items) => self@.as_list() == Some(docs(items@)),
                None => self@.as_list() is None,
            },
    {
        match self {
            Json::List(items) => {
                proof {
                    lemma_list(*items);
                }
                Some(items)
            },
            _ => None,
        }
    }

    /// The members of a document that is a record.
    pub fn as_record(&self) -> (r: Option<&Vec<(String, Json)>>)
        ensures
            match r {
                Some(members) => self@.as_record() == Some(member_docs(members@)),
                None => self@.as_record() is None,
            },
    {
        match self {
            Json::Record(members) => {
                proof {
                    lemma_record(*members);
                }
                Some(members)
            },
            _ => None,
        }
    }

    /// The same document again.
    pub fn copy(&self) -> (r: Json)
        ensures
            r@ == self@,
        decreases self,
    {
        match self {
            Json::Null => Json::Null,
            Json::Bool(b) => Json::Bool(*b),
            Json::Unsigned(n) => Json::Unsigned(*n),
            Json::Signed(n) => Json::Signed(*n),
            Json::Number(s) => Json::Number(s.clone()),
            Json::Text(s) => Json::Text(s.clone()),
            Json::List(items) => {
                let mut out: Vec<Json> = Vec::new();
                let mut i: usize = 0;
                while i < items.len()
                    invariant
                        *self == Json::List(*items),
                        i <= items@.len(),
                        out@.len() == i,
                        forall|j: int| 0 <= j < i ==> (#[trigger] out@[j])@ == items@[j]@,
                    decreases items@.len() - i,
                {
                    assert(decreases_to!(*self => self->List_0));
                    assert(decreases_to!(items => items@[i as int]));
                    let item = items[i].copy();
                    out.push(item);
                    i += 1;
                }
                proof {
                    lemma_list(*items);
                    lemma_list(out);
                    assert(docs(out@) =~= docs(items@));
                }
                Json::List(out)
            },
            Json::Record(members) => {
                let mut out: Vec<(String, Json)> = Vec::new();
                let mut i: usize = 0;
                while i < members.len()
                    invariant
                        *self == Json::Record(*members),
                        i <= members@.len(),
                        out@.len() == i,
                        forall|j: int|
                            0 <= j < i ==> (#[trigger] out@[j]).0@ == members@[j].0@ && out@[j].1@
                                == members@[j].1@,
                    decreases members@.len() - i,
                {
                    assert(decreases_to!(*self => self->Record_0));
                    assert(decreases_to!(members => members@[i as int].1));
                    let value = members[i].1.copy();
                    out.push((members[i].0.clone(), value));
                    i += 1;
                }
                proof {
                    lemma_record(*members);
                    lemma_record(out);
                    assert(member_docs(out@) =~= member_docs(members@));
                }
                Json::Record(out)
            },
        }
    }

    /// Whether two documents are the same.
    pub fn is_same(&self, other: &Json) -> (r: bool)
        ensures
            r == (self@ == other@),
        decreases self,
    {
        match (self, other) {
            (Json::Null, Json::Null) => true,
            (Json::Bool(a), Json::Bool(b)) => *a == *b,
            (Json::Unsigned(a), Json::Unsigned(b)) => *a == *b,
            (Json::Signed(a), Json::Signed(b)) => *a == *b,
            (Json::Unsigned(a), Json::Signed(b)) => *b >= 0 && *a == *b as u64,
            (Json::Signed(a), Json::Unsigned(b)) => *a >= 0 && *b == *a as u64,
            (Json::Number(a), Json::Number(b)) => same(a.as_str(), b.as_str()),
            (Json::Text(a), Json::Text(b)) => same(a.as_str(), b.as_str()),
            (Json::List(a), Json::List(b)) => {
                proof {
                    lemma_list(*a);
                    lemma_list(*b);
                }
                if a.len() != b.len() {
                    assert(docs(a@).len() != docs(b@).len());
                    return false;
                }
                let mut i: usize = 0;
                while i < a.len()
                    invariant
                        *self == Json::List(*a),
                        a@.len() == b@.len(),
                        i <= a@.len(),
                        forall|j: int| 0 <= j < i ==> (#[trigger] a@[j])@ == b@[j]@,
                        self@ == Doc::List(docs(a@)),
                        other@ == Doc::List(docs(b@)),
                    decreases a@.len() - i,
                {
                    if !a[i].is_same(&b[i]) {
                        assert(docs(a@)[i as int] != docs(b@)[i as int]);
                        return false;
                    }
                    i += 1;
                }
                assert(docs(a@) =~= docs(b@));
                true
            },
            (Json::Record(a), Json::Record(b)) => {
                proof {
                    lemma_record(*a);
                    lemma_record(*b);
                }
                if a.len() != b.len() {
                    assert(member_docs(a@).len() != member_docs(b@).len());
                    return false;
                }
                let mut i: usize = 0;
                while i < a.len()
                    invariant
                        *self == Json::Record(*a),
                        a@.len() == b@.len(),
                        i <= a@.len(),
                        forall|j: int|
                            0 <= j < i ==> (#[trigger] a@[j]).0@ == b@[j].0@ && a@[j].1@
                                == b@[j].1@,
                        self@ == Doc::Record(member_docs(a@)),
                        other@ == Doc::Record(member_docs(b@)),
                    decreases a@.len() - i,
                {
                    if !same(a[i].0.as_str(), b[i].0.as_str()) || !a[i].1.is_same(&b[i].1) {
                        assert(member_docs(a@)[i as int] != member_docs(b@)[i as int]);
                        return false;
                    }
                    i += 1;
                }
                assert(member_docs(a@) =~= member_docs(b@));
                true
            },
            _ => false,
        }
    }
}

/// What a string is written as in a JSON text.
pub uninterp spec fn json_quoted(s: Seq<char>) -> Seq<char>;

/// `<serde_json::Value as Display>::fmt` of a string value: the string between double quotes, its
/// special characters escaped. The text is a function of the string alone.
#[verifier::external_body]
fn quote(s: &str) -> (r: String)
    ensures
        r@ == json_quoted(s@),
{
    serde_json::Value::from(s).to_string()
}

/// The compact text of a document: no space between its tokens.
pub open spec fn compact(d: Doc) -> Seq<char>
    decreases d,
{
    match d {
        Doc::Null => "null"@,
        Doc::Bool(b) => if b {
            "true"@
        } else {
            "false"@
        },
        Doc::Int(n) => signed(n),
        Doc::Number(s) => s,
        Doc::Text(s) => json_quoted(s),
        Doc::List(items) => "["@ + compact_items(items) + "]"@,
        Doc::Record(members) => "{"@ + compact_members(members) + "}"@,
    }
}

/// The compact texts of some documents, with commas between.
pub open spec fn compact_items(items: Seq<Doc>) -> Seq<char>
    decreases items,
{
    if items.len() == 0 {
        Seq::empty()
    } else if items.len() == 1 {
        compact(items[0])
    } else {
        compact_items(items.drop_last()) + ","@ + compact(items.last())
    }
}

/// The compact texts of some members, with commas between.
pub open spec fn compact_members(members: Seq<(Seq<char>, Doc)>) -> Seq<char>
    decreases members,
{
    if members.len() == 0 {
        Seq::empty()
    } else if members.len() == 1 {
        json_quoted(members[0].0) + ":"@ + compact(members[0].1)
    } else {
        compact_members(members.drop_last()) + ","@ + (json_quoted(members.last().0) + ":"@
            + compact(members.last().1))
    }
}

impl Json {
    /// The compact text of a document.
    pub fn to_text(&self) -> (r: String)
        ensures
            r@ == compact(self@),
        decreases self,
    {
        match self {
            Json::Null => "null".to_owned(),
            Json::Bool(b) => if *b {
                "true".to_owned()
            } else {
                "false".to_owned()
            },
            Json::Unsigned(n) => decimal_text(*n),
            Json::Signed(n) => signed_text(*n),
            Json::Number(s) => s.clone(),
            Json::Text(s) => quote(s.as_str()),
            Json::List(items) => {
                let mut body = String::new();
                let mut i: usize = 0;
                proof {
                    lemma_list(*items);
                }
                let ghost all = docs(items@);
                while i < items.len()
                    invariant
                        *self == Json::List(*items),
                        all == docs(items@),
                        i <= items@.len(),
                        body@ == compact_items(all.take(i as int)),
                    decreases items@.len() - i,
                {
                    assert(decreases_to!(*self => self->List_0));
                    assert(decreases_to!(items => items@[i as int]));
                    let item = items[i].to_text();
                    proof {
                        assert(all.take(i + 1).drop_last() == all.take(i as int));
                        assert(all.take(i + 1).last() == items@[i as int]@);
                    }
                    if i > 0 {
                        body.push_str(",");
                    }
                    body.push_str(item.as_str());
                    i += 1;
                    assert(body@ =~= compact_items(all.take(i as int)));
                }
                assert(all.take(i as int) == all);
                join3("[", body.as_str(), "]")
            },
            Json::Record(members) => {
                let mut body = String::new();
                let mut i: usize = 0;
                proof {
                    lemma_record(*members);
                }
                let ghost all = member_docs(members@);
                while i < members.len()
                    invariant
                        *self == Json::Record(*members),
                        all == member_docs(members@),
                        i <= members@.len(),
                        body@ == compact_members(all.take(i as int)),
                    decreases members@.len() - i,
                {
                    assert(decreases_to!(*self => self->Record_0));
                    assert(decreases_to!(members => members@[i as int].1));
                    let value = members[i].1.to_text();
                    let name = quote(members[i].0.as_str());
                    proof {
                        assert(all.take(i + 1).drop_last() == all.take(i as int));
                        assert(all.take(i + 1).last() == (
                            members@[i as int].0@,
                            members@[i as int].1@,
                        ));
                    }
                    if i > 0 {
                        body.push_str(",");
                    }
                    let pair = join3(name.as_str(), ":", value.as_str());
                    body.push_str(pair.as_str());
                    i += 1;
                    assert(body@ =~= compact_members(all.take(i as int)));
                }
                assert(all.take(i as int) == all);
                join3("{", body.as_str(), "}")
            },
        }
    }
}

/// A document as `Debug` prints it: each value under the name of its kind.
pub open spec fn debugged(d: Doc) -> Seq<char>
    decreases d,
{
    match d {
        Doc::Null => "Null"@,
        Doc::Bool(b) => if b {
            "Bool(true)"@
        } else {
            "Bool(false)"@
        },
        Doc::Int(n) => "Number("@ + signed(n) + ")"@,
        Doc::Number(s) => "Number("@ + s + ")"@,
        Doc::Text(s) => "String("@ + quoted(s) + ")"@,
        Doc::List(items) => "Array ["@ + debugged_items(items) + "]"@,
        Doc::Record(members) => "Object {"@ + debugged_members(members) + "}"@,
    }
}

/// Some documents as `Debug` prints them, with commas between.
pub open spec fn debugged_items(items: Seq<Doc>) -> Seq<char>
    decreases items,
{
    if items.len() == 0 {
        Seq::empty()
    } else if items.len() == 1 {
        debugged(items[0])
    } else {
        debugged_items(items.drop_last()) + ", "@ + debugged(items.last())
    }
}

/// Some members as `Debug` prints them, with commas between.
pub open spec fn debugged_members(members: Seq<(Seq<char>, Doc)>) -> Seq<char>
    decreases members,
{
    if members.len() == 0 {
        Seq::empty()
    } else if members.len() == 1 {
        quoted(members[0].0) + ": "@ + debugged(members[0].1)
    } else {
        debugged_members(members.drop_last()) + ", "@ + (quoted(members.last().0) + ": "@
            + debugged(members.last().1))
    }
}

impl Json {
    /// A document as `Debug` prints it.
    pub fn to_debug(&self) -> (r: String)
        ensures
            r@ == debugged(self@),
        decreases self,
    {
        match self {
            Json::Null => "Null".to_owned(),
            Json::Bool(b) => if *b {
                "Bool(true)".to_owned()
            } else {
                "Bool(false)".to_owned()
            },
            Json::Unsigned(n) => join3("Number(", decimal_text(*n).as_str(), ")"),
            Json::Signed(n) => join3("Number(", signed_text(*n).as_str(), ")"),
            Json::Number(s) => join3("Number(", s.as_str(), ")"),
            Json::Text(s) => join3("String(", debug_text(s.as_str()).as_str(), ")"),
            Json::List(items) => {
                let mut body = String::new();
                let mut i: usize = 0;
                proof {
                    lemma_list(*items);
                }
                let ghost all = docs(items@);
                while i < items.len()
                    invariant
                        *self == Json::List(*items),
                        all == docs(items@),
                        i <= items@.len(),
                        body@ == debugged_items(all.take(i as int)),
                    decreases items@.len() - i,
                {
                    assert(decreases_to!(*self => self->List_0));
                    assert(decreases_to!(items => items@[i as int]));
                    let item = items[i].to_debug();
                    proof {
                        assert(all.take(i + 1).drop_last() == all.take(i as int));
                        assert(all.take(i + 1).last() == items@[i as int]@);
                    }
                    if i > 0 {
                        body.push_str(", ");
                    }
                    body.push_str(item.as_str());
                    i += 1;
                    assert(body@ =~= debugged_items(all.take(i as int)));
                }
                assert(all.take(i as int) == all);
                join3("Array [", body.as_str(), "]")
            },
            Json::Record(members) => {
                let mut body = String::new();
                let mut i: usize = 0;
                proof {
                    lemma_record(*members);
                }
                let ghost all = member_docs(members@);
                while i < members.len()
                    invariant
                        *self == Json::Record(*members),
                        all == member_docs(members@),
                        i <= members@.len(),
                        body@ == debugged_members(all.take(i as int)),
                    decreases members@.len() - i,
                {
                    assert(decreases_to!(*self => self->Record_0));
                    assert(decreases_to!(members => members@[i as int].1));
                    let value = members[i].1.to_debug();
                    let name = debug_text(members[i].0.as_str());
                    proof {
                        assert(all.take(i + 1).drop_last() == all.take(i as int));
                        assert(all.take(i + 1).last() == (
                            members@[i as int].0@,
                            members@[i as int].1@,
                        ));
                    }
                    if i > 0 {
                        body.push_str(", ");
                    }
                    let pair = join3(name.as_str(), ": ", value.as_str());
                    body.push_str(pair.as_str());
                    i += 1;
                    assert(body@ =~= debugged_members(all.take(i as int)));
                }
                assert(all.take(i as int) == all);
                join3("Object {", body.as_str(), "}")
            },
        }
    }
}

/// The members of a record with one more, or with its value replaced, in the order of names.
pub open spec fn put(
    members: Seq<(Seq<char>, Doc)>,
    name: Seq<char>,
    value: Doc,
) -> Seq<(Seq<char>, Doc)>
    decreases members.len(),
{
    if members.len() == 0 {
        seq![(name, value)]
    } else if members[0].0 == name {
        seq![(name, value)] + members.drop_first()
    } else if precedes(name, members[0].0) {
        seq![(name, value)] + members
    } else {
        seq![members[0]] + put(members.drop_first(), name, value)
    }
}

/// The members of a record without the first of a name.
pub open spec fn removed(
    members: Seq<(Seq<char>, Doc)>,
    name: Seq<char>,
) -> Seq<(Seq<char>, Doc)>
    decreases members.len(),
{
    if members.len() == 0 {
        members
    } else if members[0].0 == name {
        members.drop_first()
    } else {
        seq![members[0]] + removed(members.drop_first(), name)
    }
}

impl Doc {
    /// A record with one more member, or with its value replaced; anything else as it is.
    pub open spec fn with(self, name: Seq<char>, value: Doc) -> Doc {
        match self {
            Doc::Record(members) => Doc::Record(put(members, name, value)),
            _ => self,
        }
    }

    /// A record without a member; anything else as it is.
    pub open spec fn without(self, name: Seq<char>) -> Doc {
        match self {
            Doc::Record(members) => Doc::Record(removed(members, name)),
            _ => self,
        }
    }
}

/// Reading back what was put in gives it, and every other member is as it was.
pub proof fn lemma_put_then_get(
    members: Seq<(Seq<char>, Doc)>,
    name: Seq<char>,
    value: Doc,
    other: Seq<char>,
)
    ensures
        lookup(put(members, name, value), name) == Some(value),
        other != name ==> lookup(put(members, name, value), other) == lookup(members, other),
    decreases members.len(),
{
    reveal_with_fuel(lookup, 2);
    if members.len() > 0 {
        let after = put(members, name, value);
        if members[0].0 == name {
            assert(after.drop_first() == members.drop_first());
        } else if precedes(name, members[0].0) {
            assert(after.drop_first() == members);
        } else {
            lemma_put_then_get(members.drop_first(), name, value, other);
            assert(after.drop_first() == put(members.drop_first(), name, value));
        }
    } else {
        let after = put(members, name, value);
        assert(after.drop_first() == Seq::<(Seq<char>, Doc)>::empty());
    }
}

/// The first member of a name is what is read under it.
pub proof fn lemma_lookup_at(members: Seq<(Seq<char>, Doc)>, name: Seq<char>, i: int)
    requires
        0 <= i < members.len(),
        members[i].0 == name,
        forall|j: int| 0 <= j < i ==> (#[trigger] members[j]).0 != name,
    ensures
        lookup(members, name) == Some(members[i].1),
    decreases i,
{
    if i > 0 {
        let rest = members.drop_first();
        assert(members[0].0 != name);
        assert forall|j: int| 0 <= j < i - 1 implies (#[trigger] rest[j]).0 != name by {
            assert(rest[j] == members[j + 1]);
        }
        lemma_lookup_at(rest, name, i - 1);
    }
}

/// Removing a member leaves every other as it was.
pub proof fn lemma_removed_keeps_others(
    members: Seq<(Seq<char>, Doc)>,
    name: Seq<char>,
    other: Seq<char>,
)
    requires
        other != name,
    ensures
        lookup(removed(members, name), other) == lookup(members, other),
    decreases members.len(),
{
    if members.len() > 0 && members[0].0 != name {
        let after = removed(members, name);
        lemma_removed_keeps_others(members.drop_first(), name, other);
        assert(after.drop_first() == removed(members.drop_first(), name));
    }
}

/// Whether no name occurs twice in a record.
pub open spec fn distinct(members: Seq<(Seq<char>, Doc)>) -> bool {
    forall|i: int, j: int|
        0 <= i < j < members.len() ==> (#[trigger] members[i]).0 != (#[trigger] members[j]).0
}

/// In a record whose members are in order no name occurs twice.
pub proof fn lemma_in_order_is_distinct(members: Seq<(Seq<char>, Doc)>)
    requires
        in_order(members),
    ensures
        distinct(members),
{
    assert forall|i: int, j: int| 0 <= i < j < members.len() implies (#[trigger] members[i]).0 != (
    #[trigger] members[j]).0 by {
        lemma_precedes_is_strict(members[i].0, members[j].0);
    }
}

/// Members of which each stands before the next are in order.
pub proof fn lemma_neighbours_in_order(members: Seq<(Seq<char>, Doc)>)
    requires
        forall|i: int|
            0 <= i < members.len() - 1 ==> precedes(
                (#[trigger] members[i]).0,
                members[i + 1].0,
            ),
    ensures
        in_order(members),
{
    assert forall|i: int, j: int| 0 <= i < j < members.len() implies precedes(
        (#[trigger] members[i]).0,
        (#[trigger] members[j]).0,
    ) by {
        lemma_stands_before(members, i, j);
    }
}

proof fn lemma_stands_before(members: Seq<(Seq<char>, Doc)>, i: int, j: int)
    requires
        forall|k: int|
            0 <= k < members.len() - 1 ==> precedes(
                (#[trigger] members[k]).0,
                members[k + 1].0,
            ),
        0 <= i < j < members.len(),
    ensures
        precedes(members[i].0, members[j].0),
    decreases j - i,
{
    assert(precedes(members[j - 1].0, members[(j - 1) + 1].0));
    if i < j - 1 {
        lemma_stands_before(members, i, j - 1);
        lemma_precedes_is_transitive(members[i].0, members[j - 1].0, members[j].0);
    }
}

/// Members in order stay so when one is put in, and nothing else comes in.
proof fn lemma_put_keeps_order(members: Seq<(Seq<char>, Doc)>, name: Seq<char>, value: Doc)
    requires
        in_order(members),
    ensures
        in_order(put(members, name, value)),
        forall|i: int|
            0 <= i < put(members, name, value).len() ==> #[trigger] put(members, name, value)[i]
                == (name, value) || members.contains(put(members, name, value)[i]),
    decreases members.len(),
{
    let after = put(members, name, value);
    let here = (name, value);
    if members.len() == 0 {
        assert(after[0] == here);
    } else if members[0].0 == name {
        assert forall|i: int, j: int| 0 <= i < j < after.len() implies precedes(
            (#[trigger] after[i]).0,
            (#[trigger] after[j]).0,
        ) by {
            assert(after[j] == members[j]);
            if i > 0 {
                assert(after[i] == members[i]);
            } else {
                assert(precedes(members[0].0, members[j].0));
            }
        }
        assert forall|i: int| 0 <= i < after.len() implies #[trigger] after[i] == here
            || members.contains(after[i]) by {
            if i > 0 {
                assert(after[i] == members[i]);
            }
        }
    } else if precedes(name, members[0].0) {
        assert forall|i: int, j: int| 0 <= i < j < after.len() implies precedes(
            (#[trigger] after[i]).0,
            (#[trigger] after[j]).0,
        ) by {
            assert(after[j] == members[j - 1]);
            if i > 0 {
                assert(after[i] == members[i - 1]);
            } else if j > 1 {
                assert(precedes(members[0].0, members[j - 1].0));
                lemma_precedes_is_transitive(name, members[0].0, members[j - 1].0);
            }
        }
        assert forall|i: int| 0 <= i < after.len() implies #[trigger] after[i] == here
            || members.contains(after[i]) by {
            if i > 0 {
                assert(after[i] == members[i - 1]);
            }
        }
    } else {
        let rest = members.drop_first();
        let tail = put(rest, name, value);
        assert forall|i: int, j: int| 0 <= i < j < rest.len() implies precedes(
            (#[trigger] rest[i]).0,
            (#[trigger] rest[j]).0,
        ) by {
            assert(rest[i] == members[i + 1] && rest[j] == members[j + 1]);
        }
        lemma_put_keeps_order(rest, name, value);
        lemma_precedes_is_total(name, members[0].0);
        assert forall|i: int| 0 <= i < tail.len() implies precedes(
            members[0].0,
            (#[trigger] tail[i]).0,
        ) && (tail[i] == here || members.contains(tail[i])) by {
            if tail[i] != here {
                let k = choose|k: int| 0 <= k < rest.len() && rest[k] == tail[i];
                assert(rest[k] == members[k + 1]);
            }
        }
        assert forall|i: int, j: int| 0 <= i < j < after.len() implies precedes(
            (#[trigger] after[i]).0,
            (#[trigger] after[j]).0,
        ) by {
            assert(after[j] == tail[j - 1]);
            if i > 0 {
                assert(after[i] == tail[i - 1]);
            }
        }
        assert forall|i: int| 0 <= i < after.len() implies #[trigger] after[i] == here
            || members.contains(after[i]) by {
            if i > 0 {
                assert(after[i] == tail[i - 1]);
            } else {
                assert(after[0] == members[0]);
            }
        }
    }
}

proof fn lemma_removed_keeps_order(members: Seq<(Seq<char>, Doc)>, name: Seq<char>)
    requires
        in_order(members),
    ensures
        in_order(removed(members, name)),
        forall|i: int|
            0 <= i < removed(members, name).len() ==> members.contains(
                #[trigger] removed(members, name)[i],
            ),
    decreases members.len(),
{
    let after = removed(members, name);
    if members.len() > 0 {
        let rest = members.drop_first();
        assert forall|i: int, j: int| 0 <= i < j < rest.len() implies precedes(
            (#[trigger] rest[i]).0,
            (#[trigger] rest[j]).0,
        ) by {
            assert(rest[i] == members[i + 1] && rest[j] == members[j + 1]);
        }
        if members[0].0 == name {
            assert forall|i: int| 0 <= i < after.len() implies members.contains(
                #[trigger] after[i],
            ) by {
                assert(after[i] == members[i + 1]);
            }
        } else {
            let tail = removed(rest, name);
            lemma_removed_keeps_order(rest, name);
            assert forall|i: int| 0 <= i < tail.len() implies precedes(
                members[0].0,
                (#[trigger] tail[i]).0,
            ) && members.contains(tail[i]) by {
                let k = choose|k: int| 0 <= k < rest.len() && rest[k] == tail[i];
                assert(rest[k] == members[k + 1]);
            }
            assert forall|i: int, j: int| 0 <= i < j < after.len() implies precedes(
                (#[trigger] after[i]).0,
                (#[trigger] after[j]).0,
            ) by {
                assert(after[j] == tail[j - 1]);
                if i > 0 {
                    assert(after[i] == tail[i - 1]);
                }
            }
            assert forall|i: int| 0 <= i < after.len() implies members.contains(
                #[trigger] after[i],
            ) by {
                if i > 0 {
                    assert(after[i] == tail[i - 1]);
                } else {
                    assert(after[0] == members[0]);
                }
            }
        }
    }
}

/// A well formed document stays well formed when a member is put in, where that is, and when one is
/// taken out.
pub proof fn lemma_documents_stay_well_formed(d: Doc, name: Seq<char>, value: Doc)
    requires
        d.well_formed(),
    ensures
        value.well_formed() ==> d.with(name, value).well_formed(),
        d.without(name).well_formed(),
{
    if let Doc::Record(members) = d {
        lemma_put_keeps_order(members, name, value);
        lemma_removed_keeps_order(members, name);
        let with = put(members, name, value);
        let without = removed(members, name);
        if value.well_formed() {
            assert forall|i: int| 0 <= i < with.len() implies (#[trigger] with[i]).1.well_formed() by {
                if with[i] != (name, value) {
                    let k = choose|k: int| 0 <= k < members.len() && members[k] == with[i];
                    assert(members[k].1.well_formed());
                }
            }
        }
        assert forall|i: int| 0 <= i < without.len() implies (
        #[trigger] without[i]).1.well_formed() by {
            let k = choose|k: int| 0 <= k < members.len() && members[k] == without[i];
            assert(members[k].1.well_formed());
        }
    }
}

/// A name that no member has is not read.
pub proof fn lemma_lookup_absent(members: Seq<(Seq<char>, Doc)>, name: Seq<char>)
    requires
        forall|i: int| 0 <= i < members.len() ==> (#[trigger] members[i]).0 != name,
    ensures
        lookup(members, name) is None,
    decreases members.len(),
{
    if members.len() > 0 {
        let rest = members.drop_first();
        assert(members[0].0 != name);
        assert forall|i: int| 0 <= i < rest.len() implies (#[trigger] rest[i]).0 != name by {
            assert(rest[i] == members[i + 1]);
        }
        lemma_lookup_absent(rest, name);
    }
}

/// A member that was removed from a record in which no name occurs twice is gone, and still no
/// name occurs twice.
pub proof fn lemma_removed_is_gone(members: Seq<(Seq<char>, Doc)>, name: Seq<char>)
    requires
        distinct(members),
    ensures
        distinct(removed(members, name)),
        lookup(removed(members, name), name) is None,
        forall|i: int|
            0 <= i < removed(members, name).len() ==> exists|j: int|
                0 <= j < members.len() && #[trigger] members[j] == #[trigger] removed(
                    members,
                    name,
                )[i],
    decreases members.len(),
{
    if members.len() > 0 {
        let rest = members.drop_first();
        let after = removed(members, name);
        assert forall|i: int, j: int| 0 <= i < j < rest.len() implies (#[trigger] rest[i]).0 != (
        #[trigger] rest[j]).0 by {
            assert(rest[i] == members[i + 1] && rest[j] == members[j + 1]);
        }
        if members[0].0 == name {
            assert forall|i: int| 0 <= i < rest.len() implies (#[trigger] rest[i]).0 != name by {
                assert(rest[i] == members[i + 1]);
            }
            lemma_lookup_absent(rest, name);
            assert forall|i: int| 0 <= i < after.len() implies exists|j: int|
                0 <= j < members.len() && #[trigger] members[j] == #[trigger] after[i] by {
                assert(members[i + 1] == after[i]);
            }
        } else {
            lemma_removed_is_gone(rest, name);
            let tail = removed(rest, name);
            assert(after.drop_first() == tail);
            assert forall|i: int| 0 <= i < after.len() implies exists|j: int|
                0 <= j < members.len() && #[trigger] members[j] == #[trigger] after[i] by {
                if i == 0 {
                    assert(members[0] == after[0]);
                } else {
                    assert(after[i] == tail[i - 1]);
                    let j = choose|j: int|
                        0 <= j < rest.len() && #[trigger] rest[j] == tail[i - 1];
                    assert(members[j + 1] == after[i]);
                }
            }
            assert forall|i: int, j: int| 0 <= i < j < after.len() implies (#[trigger] after[i]).0
                != (#[trigger] after[j]).0 by {
                assert(after[j] == tail[j - 1]);
                if i == 0 {
                    let k = choose|k: int|
                        0 <= k < rest.len() && #[trigger] rest[k] == tail[j - 1];
                    assert(members[k + 1] == rest[k]);
                    assert(members[0].0 != members[k + 1].0);
                } else {
                    assert(after[i] == tail[i - 1]);
                }
            }
        }
    }
}

/// Putting a member in, seen from a place of the record on.
proof fn lemma_put_from(members: Seq<(Seq<char>, Doc)>, i: int, name: Seq<char>, value: Doc)
    requires
        0 <= i <= members.len(),
        forall|j: int|
            0 <= j < i ==> (#[trigger] members[j]).0 != name && !precedes(name, members[j].0),
    ensures
        put(members, name, value) == members.take(i) + put(members.skip(i), name, value),
    decreases i,
{
    if i == 0 {
        assert(members.take(0) + put(members.skip(0), name, value) =~= put(members, name, value)) by {
            assert(members.skip(0) == members);
        }
    } else {
        assert(members[0].0 != name && !precedes(name, members[0].0));
        let tail = members.drop_first();
        assert forall|j: int| 0 <= j < i - 1 implies (#[trigger] tail[j]).0 != name && !precedes(
            name,
            tail[j].0,
        ) by {
            assert(tail[j] == members[j + 1]);
        }
        lemma_put_from(tail, i - 1, name, value);
        assert(tail.skip(i - 1) == members.skip(i));
        assert(seq![members[0]] + tail.take(i - 1) == members.take(i));
        assert(put(members, name, value) =~= members.take(i) + put(members.skip(i), name, value));
    }
}

/// Removing a member, seen from a place of the record on.
proof fn lemma_removed_from(members: Seq<(Seq<char>, Doc)>, i: int, name: Seq<char>)
    requires
        0 <= i <= members.len(),
        forall|j: int| 0 <= j < i ==> (#[trigger] members[j]).0 != name,
    ensures
        removed(members, name) == members.take(i) + removed(members.skip(i), name),
    decreases i,
{
    if i == 0 {
        assert(members.skip(0) == members);
        assert(members.take(0) + removed(members, name) =~= removed(members, name));
    } else {
        assert(members[0].0 != name);
        let tail = members.drop_first();
        assert forall|j: int| 0 <= j < i - 1 implies (#[trigger] tail[j]).0 != name by {
            assert(tail[j] == members[j + 1]);
        }
        lemma_removed_from(tail, i - 1, name);
        assert(tail.skip(i - 1) == members.skip(i));
        assert(seq![members[0]] + tail.take(i - 1) == members.take(i));
        assert(removed(members, name) =~= members.take(i) + removed(members.skip(i), name));
    }
}

impl Json {
    /// A record with one more member, or with its value replaced; anything else as it is.
    pub fn with(self, name: &str, value: Json) -> (r: Json)
        ensures
            r@ == self@.with(name@, value@),
    {
        match self {
            Json::Record(members) => {
                proof {
                    lemma_record(members);
                }
                let ghost before = member_docs(members@);
                let mut list = members;
                let mut i: usize = 0;
                while i < list.len() && !same(list[i].0.as_str(), name) && !is_before(
                    name,
                    list[i].0.as_str(),
                )
                    invariant
                        i <= list@.len(),
                        before == member_docs(list@),
                        forall|j: int|
                            0 <= j < i ==> (#[trigger] before[j]).0 != name@ && !precedes(
                                name@,
                                before[j].0,
                            ),
                    decreases list@.len() - i,
                {
                    i += 1;
                }
                proof {
                    lemma_put_from(before, i as int, name@, value@);
                }
                if i < list.len() && same(list[i].0.as_str(), name) {
                    let _old = list.remove(i);
                }
                list.insert(i, (name.to_owned(), value));
                proof {
                    lemma_record(list);
                    assert(member_docs(list@) =~= put(before, name@, value@));
                }
                Json::Record(list)
            },
            other => other,
        }
    }

    /// A record without a member; anything else as it is.
    pub fn without(self, name: &str) -> (r: Json)
        ensures
            r@ == self@.without(name@),
    {
        match self {
            Json::Record(members) => {
                proof {
                    lemma_record(members);
                }
                let ghost before = member_docs(members@);
                let mut list = members;
                let mut i: usize = 0;
                while i < list.len() && !same(list[i].0.as_str(), name)
                    invariant
                        i <= list@.len(),
                        before == member_docs(list@),
                        forall|j: int| 0 <= j < i ==> (#[trigger] before[j]).0 != name@,
                    decreases list@.len() - i,
                {
                    i += 1;
                }
                proof {
                    lemma_removed_from(before, i as int, name@);
                }
                if i < list.len() {
                    let _old = list.remove(i);
                }
                proof {
                    lemma_record(list);
                    assert(member_docs(list@) =~= removed(before, name@));
                }
                Json::Record(list)
            },
            other => other,
        }
    }
}

/// Whether a document is a given string.
pub fn is_text(d: &Json, s: &str) -> (r: bool)
    ensures
        r == (d@.as_text() == Some(s@)),
{
    match d.as_text() {
        Some(t) => same(t, s),
        None => false,
    }
}

/// The first entry, from a place on, whose member `member` is the string `value`.
pub open spec fn entry_named(
    entries: Seq<Doc>,
    member: Seq<char>,
    value: Seq<char>,
    from: int,
) -> Option<Doc>
    decreases entries.len() - from,
{
    if from >= entries.len() {
        None
    } else if entries[from].text_at(member) == Some(value) {
        Some(entries[from])
    } else {
        entry_named(entries, member, value, from + 1)
    }
}

/// The first of some entries whose member `member` is the string `value`.
pub fn find_in<'a>(entries: &'a Vec<Json>, member: &str, value: &str) -> (r: Option<&'a Json>)
    ensures
        match entry_named(docs(entries@), member@, value@, 0) {
            Some(d) => r matches Some(entry) && entry@ == d,
            None => r is None,
        },
{
    let mut i: usize = 0;
    while i < entries.len()
        invariant
            i <= entries@.len(),
            entry_named(docs(entries@), member@, value@, 0) == entry_named(
                docs(entries@),
                member@,
                value@,
                i as int,
            ),
        decreases entries@.len() - i,
    {
        if is_text(entries[i].at(member), value) {
            return Some(&entries[i]);
        }
        i += 1;
    }
    None
}

/// The first entry of an array whose member `member` is the string `value`.
pub fn find_entry<'a>(entries: &'a Json, member: &str, value: &str) -> (r: Option<&'a Json>)
    ensures
        match entry_named(entries@.items(), member@, value@, 0) {
            Some(d) => r matches Some(entry) && entry@ == d,
            None => r is None,
        },
{
    match entries.as_list() {
        None => None,
        Some(list) => find_in(list, member, value),
    }
}

/// Whether some item is the string `value`.
pub open spec fn lists(items: Seq<Doc>, value: Seq<char>) -> bool {
    exists|i: int| 0 <= i < items.len() && (#[trigger] items[i]).as_text() == Some(value)
}

/// Whether some item is the string `value`.
pub fn list_holds(items: &Vec<Json>, value: &str) -> (r: bool)
    ensures
        r == lists(docs(items@), value@),
{
    let mut i: usize = 0;
    while i < items.len()
        invariant
            i <= items@.len(),
            forall|j: int| 0 <= j < i ==> (#[trigger] docs(items@)[j]).as_text() != Some(value@),
        decreases items@.len() - i,
    {
        if is_text(&items[i], value) {
            assert(docs(items@)[i as int].as_text() == Some(value@));
            return true;
        }
        i += 1;
    }
    false
}

/// The entry that is found is the first whose member is the string; none is found only where there
/// is none.
pub proof fn lemma_the_first_entry_is_found(
    entries: Seq<Doc>,
    member: Seq<char>,
    value: Seq<char>,
    from: int,
)
    requires
        0 <= from <= entries.len(),
    ensures
        match entry_named(entries, member, value, from) {
            Some(entry) => exists|k: int|
                from <= k < entries.len() && (#[trigger] entries[k]) == entry && entry.at(member)
                    == Doc::Text(value) && forall|j: int|
                    from <= j < k ==> (#[trigger] entries[j]).at(member) != Doc::Text(value),
            None => forall|j: int|
                from <= j < entries.len() ==> (#[trigger] entries[j]).at(member) != Doc::Text(
                    value,
                ),
        },
    decreases entries.len() - from,
{
    if from < entries.len() {
        if entries[from].text_at(member) == Some(value) {
            assert(entries[from].at(member) == Doc::Text(value));
        } else {
            lemma_the_first_entry_is_found(entries, member, value, from + 1);
        }
    }
}

/// A member is found under its name wherever it stands in a record, and what is found is the first
/// of that name.
pub proof fn lemma_the_first_member_is_found(members: Seq<(Seq<char>, Doc)>, name: Seq<char>)
    ensures
        match lookup(members, name) {
            Some(value) => exists|k: int|
                0 <= k < members.len() && (#[trigger] members[k]).0 == name && members[k].1
                    == value && forall|j: int|
                    0 <= j < k ==> (#[trigger] members[j]).0 != name,
            None => forall|j: int| 0 <= j < members.len() ==> (#[trigger] members[j]).0 != name,
        },
    decreases members.len(),
{
    if members.len() > 0 {
        let rest = members.drop_first();
        if members[0].0 == name {
            assert(members[0].0 == name);
        } else {
            lemma_the_first_member_is_found(rest, name);
            match lookup(rest, name) {
                Some(value) => {
                    let k = choose|k: int|
                        0 <= k < rest.len() && (#[trigger] rest[k]).0 == name && rest[k].1 == value
                            && forall|j: int| 0 <= j < k ==> (#[trigger] rest[j]).0 != name;
                    assert(members[k + 1] == rest[k]);
                    assert forall|j: int| 0 <= j < k + 1 implies (#[trigger] members[j]).0
                        != name by {
                        if j > 0 {
                            assert(rest[j - 1] == members[j]);
                        }
                    }
                },
                None => {
                    assert forall|j: int| 0 <= j < members.len() implies (#[trigger] members[j]).0
                        != name by {
                        if j > 0 {
                            assert(rest[j - 1] == members[j]);
                        }
                    }
                },
            }
        }
    }
}

/// A record has a stranger among its members exactly where some member, wherever it stands, has a
/// name that is none of those expected.
pub proof fn lemma_strangers_are_found(
    members: Seq<(Seq<char>, Doc)>,
    names: Seq<&str>,
    from: int,
)
    requires
        0 <= from <= members.len(),
    ensures
        match stranger(members, names, from) {
            Some(name) => (exists|i: int|
                from <= i < members.len() && (#[trigger] members[i]).0 == name) && forall|k: int|
                0 <= k < names.len() ==> #[trigger] names[k]@ != name,
            None => forall|i: int|
                from <= i < members.len() ==> exists|k: int|
                    0 <= k < names.len() && #[trigger] names[k]@ == (#[trigger] members[i]).0,
        },
    decreases members.len() - from,
{
    if from < members.len() {
        if named(names, members[from].0) {
            lemma_strangers_are_found(members, names, from + 1);
            if stranger(members, names, from) is None {
                assert forall|i: int| from <= i < members.len() implies exists|k: int|
                    0 <= k < names.len() && #[trigger] names[k]@ == (#[trigger] members[i]).0 by {
                    if i == from {
                        let k = choose|k: int|
                            0 <= k < names.len() && #[trigger] names[k]@ == members[from].0;
                        assert(names[k]@ == members[i].0);
                    }
                }
            }
        } else {
            assert(members[from].0 == members[from].0);
        }
    }
}

/// A record lacks none of some names exactly where it has a member of each.
pub proof fn lemma_absences_are_found(d: Doc, names: Seq<&str>, from: int)
    requires
        0 <= from <= names.len(),
    ensures
        match absent(d, names, from) {
            Some(name) => d.get(name) is None && exists|k: int|
                from <= k < names.len() && #[trigger] names[k]@ == name,
            None => forall|k: int| from <= k < names.len() ==> d.get(#[trigger] names[k]@) is Some,
        },
    decreases names.len() - from,
{
    if from < names.len() {
        if d.get(names[from]@) is Some {
            lemma_absences_are_found(d, names, from + 1);
        } else {
            assert(names[from]@ == names[from]@);
        }
    }
}

/// A text is listed exactly where some item, whichever, is that text.
pub proof fn lemma_what_is_listed(items: Seq<Doc>, value: Seq<char>)
    ensures
        lists(items, value) <==> exists|i: int|
            0 <= i < items.len() && #[trigger] items[i] == Doc::Text(value),
{
    if lists(items, value) {
        let i = choose|i: int|
            0 <= i < items.len() && (#[trigger] items[i]).as_text() == Some(value);
        assert(items[i] == Doc::Text(value));
    }
    assert forall|i: int| 0 <= i < items.len() && #[trigger] items[i] == Doc::Text(
        value,
    ) implies lists(items, value) by {
        assert(items[i].as_text() == Some(value));
    }
}

/// A list in its compact form is its items in theirs, with commas between, and a record its members,
/// each behind its name.
pub proof fn lemma_how_documents_are_written(
    items: Seq<Doc>,
    item: Doc,
    members: Seq<(Seq<char>, Doc)>,
    name: Seq<char>,
)
    ensures
        compact(Doc::List(items)) == "["@ + compact_items(items) + "]"@,
        compact_items(seq![item]) == compact(item),
        items.len() > 0 ==> compact_items(items.push(item)) == compact_items(items) + ","@
            + compact(item),
        compact(Doc::Record(members)) == "{"@ + compact_members(members) + "}"@,
        compact_members(seq![(name, item)]) == json_quoted(name) + ":"@ + compact(item),
        members.len() > 0 ==> compact_members(members.push((name, item))) == compact_members(members)
            + ","@ + (json_quoted(name) + ":"@ + compact(item)),
        compact(Doc::Null) == "null"@,
        compact(Doc::Bool(true)) == "true"@,
        compact(Doc::Bool(false)) == "false"@,
        compact(Doc::Text(name)) == json_quoted(name),
{
    let all = items.push(item);
    assert(all.drop_last() =~= items);
    assert(all.last() == item);
    let more = members.push((name, item));
    assert(more.drop_last() =~= members);
    assert(more.last() == (name, item));
    assert(compact_items(seq![item]) == compact(seq![item][0]));
    assert(compact_members(seq![(name, item)]) == json_quoted(seq![(name, item)][0].0) + ":"@
        + compact(seq![(name, item)][0].1));
}

/// A record with one more member has it, and one without a member is without it where its names are
/// told apart; every other member stays as it was.
pub proof fn lemma_members_come_and_go(
    members: Seq<(Seq<char>, Doc)>,
    name: Seq<char>,
    value: Doc,
    other: Seq<char>,
)
    requires
        distinct(members),
        other != name,
    ensures
        Doc::Record(members).with(name, value).get(name) == Some(value),
        Doc::Record(members).with(name, value).get(other) == Doc::Record(members).get(other),
        Doc::Record(members).without(name).get(name) is None,
        Doc::Record(members).without(name).get(other) == Doc::Record(members).get(other),
{
    lemma_put_then_get(members, name, value, other);
    lemma_removed_is_gone(members, name);
    lemma_removed_keeps_others(members, name, other);
}

} // verus!
