//! Reading the policy in force, drafting the next, and what may be signed.

use vstd::prelude::*;

use crate::json::{text, Doc, Json};
use crate::text::{join2, or_empty, same, text_or_empty};

verus! {

/// The version of the policy in force, in what a kernel answers.
pub fn policy_current(document: Option<&Json>) -> (r: Result<String, String>)
    ensures
        match crate::config::opt_doc(document) {
            Some(d) => match d.text_at("policy-version"@) {
                Some(v) => r matches Ok(s) && s@ == v,
                None => r matches Err(e) && e@
                    == "the kernel's policy document carries no policy-version"@,
            },
            None => r matches Err(e) && e@
                == "the kernel's policy document carries no policy-version"@,
        },
{
    match document {
        Some(d) => match d.text_at("policy-version") {
            Some(v) => Ok(v.to_owned()),
            None => Err("the kernel's policy document carries no policy-version".to_owned()),
        },
        None => Err("the kernel's policy document carries no policy-version".to_owned()),
    }
}

/// The version a document says it is, for a message.
pub open spec fn version_shown(document: Doc) -> Seq<char> {
    match document.text_at("policy-version"@) {
        Some(v) => v,
        None => "<unknown>"@,
    }
}

/// A draft of a version, made of the document in force: without its signature, and with the new
/// version in place of its own.
pub open spec fn draft_of(document: Option<Doc>, version: Seq<char>) -> Result<Doc, Seq<char>> {
    if document is None {
        Err("the kernel's policy document is not JSON"@)
    } else if !(document->0 is Record) {
        Err("the kernel's policy document is not an object"@)
    } else if version_shown(document->0) == version {
        Err(version + " is already in force — a draft of it would replace it with itself"@)
    } else {
        Ok((document->0).without("sig"@).with("policy-version"@, Doc::Text(version)))
    }
}

/// A draft of a version, and the version it was made of.
pub fn policy_draft(document: Option<Json>, version: &str) -> (r: Result<(Json, String), String>)
    ensures
        match draft_of(crate::gatequeue::opt_json(document), version@) {
            Ok(d) => r matches Ok((v, from)) && v@ == d && from@ == version_shown(
                (document->0)@,
            ),
            Err(m) => r matches Err(e) && e@ == m,
        },
{
    let held = match document {
        Some(d) => d,
        None => {
            return Err("the kernel's policy document is not JSON".to_owned());
        },
    };
    if held.as_record().is_none() {
        return Err("the kernel's policy document is not an object".to_owned());
    }
    let in_force = match held.text_at("policy-version") {
        Some(v) => v.to_owned(),
        None => "<unknown>".to_owned(),
    };
    if same(in_force.as_str(), version) {
        return Err(
            join2(version, " is already in force — a draft of it would replace it with itself"),
        );
    }
    let draft = held.without("sig").with("policy-version", text(version));
    Ok((draft, in_force))
}

/// What keeps a document from being signed: a signature it still carries would be signed in as
/// data, and a policy has a version.
pub open spec fn sign_refusal(path: Seq<char>, document: Doc) -> Option<Seq<char>> {
    if document.get("sig"@) is Some {
        Some(path + " still carries a sig — sign the draft, not a published document"@)
    } else if or_empty(document.text_at("policy-version"@)).len() == 0 {
        Some(path + " carries no policy-version"@)
    } else {
        None
    }
}

/// Checks that a document is one to sign.
pub fn policy_sign(path: &str, document: &Json) -> (r: Result<(), String>)
    ensures
        match sign_refusal(path@, document@) {
            Some(m) => r matches Err(e) && e@ == m,
            None => r is Ok,
        },
{
    if document.get("sig").is_some() {
        return Err(
            join2(path, " still carries a sig — sign the draft, not a published document"),
        );
    }
    if text_or_empty(document.text_at("policy-version")).unicode_len() == 0 {
        return Err(join2(path, " carries no policy-version"));
    }
    Ok(())
}

// -- laws -------------------------------------------------------------------------------------

/// What is drafted can be signed, under the version that was asked for: a draft carries no
/// signature, whatever the document in force did.
pub proof fn lemma_drafts_can_be_signed(document: Doc, version: Seq<char>, path: Seq<char>)
    requires
        document.well_formed(),
        draft_of(Some(document), version) is Ok,
        version.len() > 0,
    ensures
        ({
            let draft = draft_of(Some(document), version)->Ok_0;
            &&& draft.text_at("policy-version"@) == Some(version)
            &&& draft.get("sig"@) is None
            &&& sign_refusal(path, draft) is None
        }),
{
    let members = document->Record_0;
    let kept = crate::json::removed(members, "sig"@);
    crate::json::lemma_in_order_is_distinct(members);
    assert("sig"@ != "policy-version"@) by {
        reveal_strlit("sig");
        reveal_strlit("policy-version");
        assert("sig"@.len() != "policy-version"@.len());
    }
    crate::json::lemma_removed_is_gone(members, "sig"@);
    crate::json::lemma_put_then_get(kept, "policy-version"@, Doc::Text(version), "sig"@);
    crate::json::lemma_put_then_get(
        kept,
        "policy-version"@,
        Doc::Text(version),
        "policy-version"@,
    );
}

/// A draft is made of a policy exactly where that is an object of another version; it has the new
/// version and no signature, and everything else as it was.
pub proof fn lemma_what_a_draft_is(document: Doc, version: Seq<char>, other: Seq<char>)
    requires
        other != "sig"@,
        other != "policy-version"@,
    ensures
        draft_of(Some(document), version) is Ok <==> document is Record && match document.at(
            "policy-version"@,
        ) {
            Doc::Text(current) => current != version,
            _ => version != "<unknown>"@,
        },
        draft_of(None, version) is Err,
        draft_of(Some(document), version) matches Ok(draft) ==> {
            &&& draft.get("policy-version"@) == Some(Doc::Text(version))
            &&& draft.get(other) == document.get(other)
        },
{
    if let Doc::Record(members) = document {
        let kept = crate::json::removed(members, "sig"@);
        crate::json::lemma_removed_keeps_others(members, "sig"@, other);
        crate::json::lemma_put_then_get(kept, "policy-version"@, Doc::Text(version), other);
        crate::json::lemma_put_then_get(
            kept,
            "policy-version"@,
            Doc::Text(version),
            "policy-version"@,
        );
    }
}

/// What may be signed is exactly what is not signed yet and gives a version.
pub proof fn lemma_what_may_be_signed(path: Seq<char>, document: Doc)
    ensures
        sign_refusal(path, document) is None <==> document.get("sig"@) is None && (document.at(
            "policy-version"@,
        ) matches Doc::Text(version) && version.len() > 0),
{
}

} // verus!
