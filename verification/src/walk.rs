//! Walking a mandate up to the human it ends at.

use vstd::prelude::*;

use crate::json::{Doc, Json};
use crate::text::same;

verus! {

/// How far a walk follows the parents of a mandate.
pub const MANDATE_CHAIN_LINKS: u32 = 16;

/// The mandate with an identifier among some, from a place on.
pub open spec fn mandate_from(ancestry: Seq<(String, Json)>, id: Seq<char>, from: int) -> Option<Doc>
    decreases ancestry.len() - from,
{
    if from < 0 || from >= ancestry.len() {
        None
    } else if ancestry[from].0@ == id {
        Some(ancestry[from].1@)
    } else {
        mandate_from(ancestry, id, from + 1)
    }
}

/// The mandate with an identifier among some.
pub fn mandate_in<'a>(ancestry: &'a Vec<(String, Json)>, id: &str) -> (r: Option<&'a Json>)
    ensures
        crate::config::opt_doc(r) == mandate_from(ancestry@, id@, 0),
{
    let mut i: usize = 0;
    while i < ancestry.len()
        invariant
            i <= ancestry@.len(),
            mandate_from(ancestry@, id@, 0) == mandate_from(ancestry@, id@, i as int),
        decreases ancestry@.len() - i,
    {
        if same(ancestry[i].0.as_str(), id) {
            return Some(&ancestry[i].1);
        }
        i += 1;
    }
    None
}

/// The identifiers and the mandates from one up, so many at most: each is the parent of the one
/// before it, and the walk ends at one that has no parent or whose parent is not known.
pub open spec fn chain_from(
    ancestry: Seq<(String, Json)>,
    id: Option<Seq<char>>,
    most: nat,
) -> Seq<(Seq<char>, Doc)>
    decreases most,
{
    if most == 0 || id is None {
        Seq::empty()
    } else {
        match mandate_from(ancestry, id->0, 0) {
            Some(m) => seq![(id->0, m)] + chain_from(
                ancestry,
                m.text_at("parent"@),
                (most - 1) as nat,
            ),
            None => Seq::empty(),
        }
    }
}

/// The links of a walk, as they were met.
pub open spec fn link_views(links: Seq<(String, &Json)>) -> Seq<(Seq<char>, Doc)> {
    Seq::new(links.len(), |i: int| (links[i].0@, links[i].1@))
}

/// The identifiers and the mandates from one up. Identifiers are hashes of what they name, so no
/// mandate is its own ancestor and a walk meets each at most once.
pub fn chain<'a>(ancestry: &'a Vec<(String, Json)>, id: &str) -> (r: Vec<(String, &'a Json)>)
    ensures
        link_views(r@) == chain_from(ancestry@, Some(id@), ancestry@.len()),
{
    let mut out: Vec<(String, &'a Json)> = Vec::new();
    let mut cursor: Option<String> = Some(id.to_owned());
    let mut left: usize = ancestry.len();
    let ghost whole = chain_from(ancestry@, Some(id@), ancestry@.len());
    assert(link_views(out@) + whole =~= whole);
    loop
        invariant
            link_views(out@) + chain_from(
                ancestry@,
                crate::config::opt_string(cursor),
                left as nat,
            ) == whole,
        ensures
            link_views(out@) == whole,
        decreases left,
    {
        let current = match cursor {
            Some(c) => c,
            None => {
                assert(link_views(out@) + Seq::<(Seq<char>, Doc)>::empty() =~= link_views(out@));
                break;
            },
        };
        if left == 0 {
            assert(link_views(out@) + Seq::<(Seq<char>, Doc)>::empty() =~= link_views(out@));
            break;
        }
        let mandate = match mandate_in(ancestry, current.as_str()) {
            Some(m) => m,
            None => {
                assert(link_views(out@) + Seq::<(Seq<char>, Doc)>::empty() =~= link_views(out@));
                break;
            },
        };
        let ghost before = link_views(out@);
        let ghost rest = chain_from(
            ancestry@,
            mandate@.text_at("parent"@),
            (left - 1) as nat,
        );
        let ghost step = (current@, mandate@);
        let parent: Option<String> = match mandate.text_at("parent") {
            Some(p) => Some(p.to_owned()),
            None => None,
        };
        out.push((current, mandate));
        assert(link_views(out@) =~= before + seq![step]);
        assert(before + (seq![step] + rest) =~= link_views(out@) + rest);
        cursor = parent;
        left -= 1;
    }
    out
}

// -- laws -------------------------------------------------------------------------------------

/// Every link of a walk is the parent of the one before it, and the first is the one it began
/// with.
pub proof fn lemma_links_are_parents(
    ancestry: Seq<(String, Json)>,
    id: Option<Seq<char>>,
    most: nat,
    i: int,
)
    requires
        0 <= i < chain_from(ancestry, id, most).len(),
    ensures
        ({
            let links = chain_from(ancestry, id, most);
            &&& mandate_from(ancestry, links[i].0, 0) == Some(links[i].1)
            &&& if i == 0 {
                id == Some(links[i].0)
            } else {
                links[i - 1].1.text_at("parent"@) == Some(links[i].0)
            }
        }),
    decreases most,
{
    let links = chain_from(ancestry, id, most);
    let m = mandate_from(ancestry, id->0, 0)->0;
    let rest = chain_from(ancestry, m.text_at("parent"@), (most - 1) as nat);
    assert(links =~= seq![(id->0, m)] + rest);
    if i > 0 {
        assert(links[i] == rest[i - 1]);
        lemma_links_are_parents(ancestry, m.text_at("parent"@), (most - 1) as nat, i - 1);
        if i > 1 {
            assert(links[i - 1] == rest[i - 2]);
        } else {
            assert(links[0] == (id->0, m));
        }
    }
}

/// A mandate is found exactly where the ancestry has one with its identifier, and what is found is
/// the first of those.
pub proof fn lemma_what_is_known_is_found(ancestry: Seq<(String, Json)>, id: Seq<char>)
    ensures
        mandate_from(ancestry, id, 0) is Some <==> exists|i: int|
            0 <= i < ancestry.len() && (#[trigger] ancestry[i]).0@ == id,
        forall|i: int|
            0 <= i < ancestry.len() && (#[trigger] ancestry[i]).0@ == id && (forall|j: int|
                0 <= j < i ==> (#[trigger] ancestry[j]).0@ != id) ==> mandate_from(
                ancestry,
                id,
                0,
            ) == Some(ancestry[i].1@),
{
    lemma_found_from(ancestry, id, 0);
    if mandate_from(ancestry, id, 0) is Some {
        let k = choose|k: int|
            0 <= k < ancestry.len() && (#[trigger] ancestry[k]).0@ == id && mandate_from(
                ancestry,
                id,
                0,
            ) == Some(ancestry[k].1@) && (forall|j: int|
                0 <= j < k ==> (#[trigger] ancestry[j]).0@ != id);
        assert forall|i: int|
            0 <= i < ancestry.len() && (#[trigger] ancestry[i]).0@ == id && (forall|j: int|
                0 <= j < i ==> (#[trigger] ancestry[j]).0@ != id) implies mandate_from(
            ancestry,
            id,
            0,
        ) == Some(ancestry[i].1@) by {
            if i < k {
                assert(ancestry[i].0@ != id);
            } else if k < i {
                assert(ancestry[k].0@ != id);
            }
        }
    }
}

/// What is found from a place on is the first that has the identifier there.
proof fn lemma_found_from(ancestry: Seq<(String, Json)>, id: Seq<char>, from: int)
    requires
        0 <= from <= ancestry.len(),
    ensures
        match mandate_from(ancestry, id, from) {
            Some(m) => exists|k: int|
                from <= k < ancestry.len() && (#[trigger] ancestry[k]).0@ == id && m
                    == ancestry[k].1@ && (forall|j: int|
                    from <= j < k ==> (#[trigger] ancestry[j]).0@ != id),
            None => forall|j: int|
                from <= j < ancestry.len() ==> (#[trigger] ancestry[j]).0@ != id,
        },
    decreases ancestry.len() - from,
{
    if from < ancestry.len() {
        if ancestry[from].0@ == id {
            assert(mandate_from(ancestry, id, from) == Some(ancestry[from].1@));
        } else {
            lemma_found_from(ancestry, id, from + 1);
        }
    }
}

/// A walk goes all the way: it begins wherever there is something to begin with, and where it is
/// shorter than it may be, its last mandate names no parent, or one that the ancestry does not
/// have.
pub proof fn lemma_walks_go_all_the_way(
    ancestry: Seq<(String, Json)>,
    id: Seq<char>,
    most: nat,
)
    ensures
        ({
            let links = chain_from(ancestry, Some(id), most);
            &&& links.len() <= most
            &&& links.len() > 0 <==> most > 0 && exists|i: int|
                0 <= i < ancestry.len() && (#[trigger] ancestry[i]).0@ == id
            &&& 0 < links.len() < most ==> match links.last().1.text_at("parent"@) {
                Some(parent) => forall|i: int|
                    0 <= i < ancestry.len() ==> (#[trigger] ancestry[i]).0@ != parent,
                None => true,
            }
        }),
    decreases most,
{
    lemma_what_is_known_is_found(ancestry, id);
    let links = chain_from(ancestry, Some(id), most);
    if most > 0 && mandate_from(ancestry, id, 0) is Some {
        let m = mandate_from(ancestry, id, 0)->0;
        let rest = chain_from(ancestry, m.text_at("parent"@), (most - 1) as nat);
        assert(links =~= seq![(id, m)] + rest);
        match m.text_at("parent"@) {
            Some(parent) => {
                lemma_walks_go_all_the_way(ancestry, parent, (most - 1) as nat);
                if rest.len() > 0 {
                    assert(links.last() == rest.last());
                } else {
                    assert(links.last() == (id, m));
                }
            },
            None => {
                assert(links.last() == (id, m));
            },
        }
    }
}

/// How far a walk may go changes only how far it goes: of two walks from one mandate the shorter
/// is how the longer begins.
pub proof fn lemma_walks_agree(
    ancestry: Seq<(String, Json)>,
    id: Option<Seq<char>>,
    fewer: nat,
    more: nat,
)
    requires
        fewer <= more,
    ensures
        ({
            let near = chain_from(ancestry, id, fewer);
            let far = chain_from(ancestry, id, more);
            &&& near.len() == if far.len() < fewer {
                far.len()
            } else {
                fewer
            }
            &&& far.take(near.len() as int) == near
        }),
    decreases fewer,
{
    let near = chain_from(ancestry, id, fewer);
    let far = chain_from(ancestry, id, more);
    if fewer > 0 && id is Some && mandate_from(ancestry, id->0, 0) is Some {
        let m = mandate_from(ancestry, id->0, 0)->0;
        let parent = m.text_at("parent"@);
        lemma_walks_agree(ancestry, parent, (fewer - 1) as nat, (more - 1) as nat);
        let near_rest = chain_from(ancestry, parent, (fewer - 1) as nat);
        let far_rest = chain_from(ancestry, parent, (more - 1) as nat);
        assert(near =~= seq![(id->0, m)] + near_rest);
        assert(far =~= seq![(id->0, m)] + far_rest);
        assert(far.take(near.len() as int) =~= seq![(id->0, m)] + far_rest.take(
            near_rest.len() as int,
        ));
    } else {
        assert(far.take(0) =~= near);
    }
}

} // verus!
