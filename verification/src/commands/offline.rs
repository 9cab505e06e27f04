//! The commands that run on the operator's own machine: they open no socket, and what they sign is
//! signed there.

use vstd::prelude::*;

use crate::arguments::{
    flag, flag_i64, flag_list, flag_or, flag_unsigned, integer, list, natural, number_or,
    parse_i64, parse_u32, place_of, present, unsigned_or, value, value_or, within,
};
use crate::clock::{shift, shifted};
use crate::commands::{failed, failing, held64, seconds_in};
use crate::config::opt_string;
use crate::documents::{decision_doc, gate_decision, names_of};
use crate::error::Error;
use crate::genesis::Ceremony;
use crate::json::{member, member_docs, record, text, Doc, Json};
use crate::keys::{bad_key_id, is_key_id, KeyId};
use crate::text::{is_digest, is_digest_hex, opt_text, texts, trim, trimmed};
use crate::vocabulary::VERSION;

verus! {

/// How many minutes an approval lives, where nothing else is said.
pub const DEFAULT_APPROVAL_MINUTES: i64 = 15;

/// How many days a grant lives, where nothing else is said.
pub const DEFAULT_GRANT_DAYS: i64 = 30;

/// The most days whose seconds sixty-four bits hold.
pub const MOST_DAYS: i64 = 106_751_991_167_300;

/// An owned copy of an optional text.
pub fn owned(s: Option<&str>) -> (r: Option<String>)
    ensures
        opt_string(r) == opt_text(s),
{
    match s {
        Some(t) => Some(t.to_owned()),
        None => None,
    }
}

// -- identities -------------------------------------------------------------------------------

/// What `identity` is asked for.
#[derive(Debug)]
pub struct IdentityAsk {
    /// Where the seed lies.
    pub key_path: String,
    /// The role and the index of the one identifier that is wanted; all where there are none.
    pub place: Option<(u32, u32)>,
}

/// What `identity` is asked for.
pub open spec fn identity_asked(args: Seq<Seq<char>>) -> Result<
    (Seq<char>, Option<(int, int)>),
    Seq<char>,
> {
    if flag(args, "--key"@) is None {
        Err("identity requires --key <path>"@)
    } else {
        let path = flag(args, "--key"@)->0;
        match flag(args, "--role"@) {
            None => Ok((path, None)),
            Some(role) => match within(natural(role), 0, u32::MAX as int) {
                None => Err("--role must be a non-negative integer"@),
                Some(n) => Ok(
                    (path, Some((n, flag_unsigned(args, "--index"@, 0, u32::MAX as int)))),
                ),
            },
        }
    }
}

/// What `identity` is asked for.
pub fn identity(arguments: &[String]) -> (r: Result<IdentityAsk, String>)
    ensures
        match identity_asked(texts(arguments@)) {
            Ok((path, place)) => r matches Ok(a) && a.key_path@ == path && match place {
                None => a.place is None,
                Some((role, index)) => a.place == Some((role as u32, index as u32)),
            },
            Err(m) => r matches Err(e) && e@ == m,
        },
{
    let path = match value(arguments, "--key") {
        Some(path) => path,
        None => {
            return Err("identity requires --key <path>".to_owned());
        },
    };
    match value(arguments, "--role") {
        None => Ok(IdentityAsk { key_path: path.to_owned(), place: None }),
        Some(role) => match parse_u32(role) {
            None => Err("--role must be a non-negative integer".to_owned()),
            Some(n) => Ok(
                IdentityAsk {
                    key_path: path.to_owned(),
                    place: Some((n, unsigned_or(arguments, "--index", 0))),
                },
            ),
        },
    }
}

// -- the ceremony -----------------------------------------------------------------------------

/// What `genesis` is asked for.
#[derive(Debug)]
pub struct CeremonyAsk {
    /// Where the seed lies.
    pub key_path: String,
    /// The directory it writes to.
    pub out: String,
    /// What is founded.
    pub ceremony: Ceremony,
    /// The address the kernel will listen on.
    pub bind: String,
    /// Where its store will lie.
    pub database: String,
    /// Where its own seed will lie.
    pub kernel_seed: String,
    /// Where its console will be reached.
    pub console_base_url: String,
    /// The subjects that will call it.
    pub callers: Vec<String>,
}

/// The second root that is named, where one is: its subject and its key together, or neither.
pub open spec fn second_root_asked(args: Seq<Seq<char>>) -> Result<
    Option<(Seq<char>, Seq<char>)>,
    Seq<char>,
> {
    match (flag(args, "--second-root"@), flag(args, "--second-root-key"@)) {
        (Some(subject), Some(key)) => if is_key_id(key) {
            Ok(Some((subject, key)))
        } else {
            Err(failing("--second-root-key"@, bad_key_id(key)))
        },
        (None, None) => Ok(None),
        _ => Err("--second-root and --second-root-key are given together or not at all"@),
    }
}

/// What `genesis` refuses to start with.
pub open spec fn ceremony_refusal(args: Seq<Seq<char>>) -> Option<Seq<char>> {
    if flag(args, "--key"@) is None || flag(args, "--root"@) is None || flag(args, "--out"@)
        is None {
        Some("genesis requires --key <path>, --root <human:name> and --out <dir>"@)
    } else if let Err(m) = second_root_asked(args) {
        Some(m)
    } else {
        None
    }
}

/// Whether a ceremony is the one the arguments describe.
pub open spec fn is_asked_ceremony(c: Ceremony, args: Seq<Seq<char>>, now: Seq<char>) -> bool {
    &&& Some(c.root_subject@) == flag(args, "--root"@)
    &&& c.agent_subject@ == flag_or(args, "--agent"@, "agent:bootstrap"@)
    &&& c.policy_version@ == flag_or(args, "--policy-version"@, "2026.07.1"@)
    &&& match second_root_asked(args) {
        Ok(Some((subject, key))) => c.second_root matches Some((s, k)) && s@ == subject && k@ == key,
        _ => c.second_root is None,
    }
    &&& c.core_stream@ == flag_or(args, "--core-stream"@, "kernel:core"@)
    &&& c.now@ == now
}

/// The caller a deployment has where none is named.
pub const DEFAULT_CALLERS: [&'static str; 1] = ["agent:gateway"];

fn second_root(arguments: &[String]) -> (r: Result<Option<(String, KeyId)>, String>)
    ensures
        match second_root_asked(texts(arguments@)) {
            Ok(Some((subject, key))) => r matches Ok(Some((s, k))) && s@ == subject && k@ == key,
            Ok(None) => r matches Ok(None),
            Err(m) => r matches Err(e) && e@ == m,
        },
{
    match (value(arguments, "--second-root"), value(arguments, "--second-root-key")) {
        (Some(subject), Some(key)) => match KeyId::parse(key) {
            Ok(k) => Ok(Some((subject.to_owned(), k))),
            Err(e) => Err(failed("--second-root-key", &e)),
        },
        (None, None) => Ok(None),
        _ => Err(
            "--second-root and --second-root-key are given together or not at all".to_owned(),
        ),
    }
}

/// What `genesis` is asked for, at an instant of the host's clock.
pub fn ceremony(arguments: &[String], now: &str) -> (r: Result<CeremonyAsk, String>)
    ensures
        match ceremony_refusal(texts(arguments@)) {
            Some(m) => r matches Err(e) && e@ == m,
            None => r matches Ok(a) && {
                let args = texts(arguments@);
                &&& Some(a.key_path@) == flag(args, "--key"@)
                &&& Some(a.out@) == flag(args, "--out"@)
                &&& is_asked_ceremony(a.ceremony, args, now@)
                &&& a.bind@ == flag_or(args, "--bind"@, "0.0.0.0:8787"@)
                &&& a.database@ == flag_or(
                    args,
                    "--database"@,
                    "/var/lib/stozher/data/stozher.db"@,
                )
                &&& a.kernel_seed@ == flag_or(
                    args,
                    "--kernel-seed"@,
                    "/var/lib/stozher/keys/kernel.seed"@,
                )
                &&& a.console_base_url@ == flag_or(
                    args,
                    "--console-url"@,
                    "http://127.0.0.1:8787"@,
                )
                &&& texts(a.callers@) == flag_list(args, "--caller"@, names_of(DEFAULT_CALLERS@))
            },
        },
{
    let (key_path, root_subject, out) = match (
        value(arguments, "--key"),
        value(arguments, "--root"),
        value(arguments, "--out"),
    ) {
        (Some(k), Some(s), Some(o)) => (k, s, o),
        _ => {
            return Err(
                "genesis requires --key <path>, --root <human:name> and --out <dir>".to_owned(),
            );
        },
    };
    let second = second_root(arguments)?;
    let callers = list(arguments, "--caller", &DEFAULT_CALLERS);
    Ok(
        CeremonyAsk {
            key_path: key_path.to_owned(),
            out: out.to_owned(),
            ceremony: Ceremony {
                root_subject: root_subject.to_owned(),
                agent_subject: value_or(arguments, "--agent", "agent:bootstrap").to_owned(),
                policy_version: value_or(arguments, "--policy-version", "2026.07.1").to_owned(),
                second_root: second,
                core_stream: value_or(arguments, "--core-stream", "kernel:core").to_owned(),
                now: now.to_owned(),
            },
            bind: value_or(arguments, "--bind", "0.0.0.0:8787").to_owned(),
            database: value_or(
                arguments,
                "--database",
                "/var/lib/stozher/data/stozher.db",
            ).to_owned(),
            kernel_seed: value_or(
                arguments,
                "--kernel-seed",
                "/var/lib/stozher/keys/kernel.seed",
            ).to_owned(),
            console_base_url: value_or(
                arguments,
                "--console-url",
                "http://127.0.0.1:8787",
            ).to_owned(),
            callers,
        },
    )
}

// -- decisions --------------------------------------------------------------------------------

/// What `decide` is asked to sign.
#[derive(Debug)]
pub struct DecideAsk {
    /// The hash of the request that is answered.
    pub request_hash: String,
    /// Where the approver's seed lies.
    pub key_path: String,
    /// Why it is denied; an approval where there is no reason.
    pub denial: Option<String>,
    /// How many minutes the decision stands.
    pub minutes: i64,
}

/// What `decide` refuses to sign: a decision that is not exactly one of an approval and a denial
/// with a reason is no decision.
pub open spec fn decide_refusal(args: Seq<Seq<char>>) -> Option<Seq<char>> {
    let request = flag(args, "--request"@);
    let denial = flag(args, "--deny"@);
    if request is None || flag(args, "--key"@) is None {
        Some("decide requires --request <64 hex> and --key <path>"@)
    } else if !is_digest(request->0) {
        Some("--request must be 64 lowercase hex digits"@)
    } else if (place_of(args, "--approve"@, 0) is Some) == (denial is Some) {
        Some("decide requires exactly one of --approve or --deny <reason>"@)
    } else if denial is Some && trimmed(denial->0).len() == 0 {
        Some("a denial must state why: the reason is what the calling agent is owed"@)
    } else if flag_i64(args, "--minutes"@, DEFAULT_APPROVAL_MINUTES as int) <= 0 {
        Some("--minutes must be positive"@)
    } else {
        None
    }
}

/// What `decide` is asked to sign.
pub fn decide(arguments: &[String]) -> (r: Result<DecideAsk, String>)
    ensures
        match decide_refusal(texts(arguments@)) {
            Some(m) => r matches Err(e) && e@ == m,
            None => r matches Ok(a) && {
                let args = texts(arguments@);
                &&& Some(a.request_hash@) == flag(args, "--request"@)
                &&& Some(a.key_path@) == flag(args, "--key"@)
                &&& opt_string(a.denial) == flag(args, "--deny"@)
                &&& a.minutes == flag_i64(
                    args,
                    "--minutes"@,
                    DEFAULT_APPROVAL_MINUTES as int,
                )
            },
        },
{
    let (request_hash, key_path) = match (value(arguments, "--request"), value(arguments, "--key")) {
        (Some(h), Some(k)) => (h, k),
        _ => {
            return Err("decide requires --request <64 hex> and --key <path>".to_owned());
        },
    };
    if !is_digest_hex(request_hash) {
        return Err("--request must be 64 lowercase hex digits".to_owned());
    }
    let deny = value(arguments, "--deny");
    if present(arguments, "--approve") == deny.is_some() {
        return Err("decide requires exactly one of --approve or --deny <reason>".to_owned());
    }
    if let Some(reason) = deny {
        if trim(reason).unicode_len() == 0 {
            return Err(
                "a denial must state why: the reason is what the calling agent is owed".to_owned(),
            );
        }
    }
    let minutes: i64 = number_or(arguments, "--minutes", DEFAULT_APPROVAL_MINUTES);
    if minutes <= 0 {
        return Err("--minutes must be positive".to_owned());
    }
    Ok(
        DecideAsk {
            request_hash: request_hash.to_owned(),
            key_path: key_path.to_owned(),
            denial: owned(deny),
            minutes,
        },
    )
}

/// The decision that is signed at an instant, and until when it stands.
pub fn decision(ask: &DecideAsk, now: &str) -> (r: Result<(Json, String), Error>)
    ensures
        match shifted(now@, held64(ask.minutes * 60)) {
            Ok(until) => r matches Ok((d, u)) && u@ == until && d@ == decision_doc(
                ask.request_hash@,
                opt_string(ask.denial),
                now@,
                until,
            ),
            Err(f) => r matches Err(e) && e@ == f,
        },
{
    let until = shift(now, seconds_in(ask.minutes, 60))?;
    let denial = match &ask.denial {
        Some(d) => Some(d.as_str()),
        None => None,
    };
    assert(opt_text(denial) == opt_string(ask.denial));
    Ok((gate_decision(ask.request_hash.as_str(), denial, now, until.as_str()), until))
}

// -- grants -----------------------------------------------------------------------------------

/// What `grant` is asked to sign.
#[derive(Debug)]
pub struct GrantAsk {
    /// Where the root's seed lies.
    pub key_path: String,
    /// The granting root.
    pub root_subject: String,
    /// The subject it is granted to.
    pub grantee: String,
    /// The key it is granted to.
    pub grantee_key: KeyId,
    /// Where the mandate is written.
    pub out: String,
    /// How many days it lives.
    pub days: i64,
    /// The components.
    pub components: Vec<String>,
    /// The actions.
    pub actions: Vec<String>,
    /// The weight classes.
    pub classes: Vec<String>,
    /// The resources.
    pub resources: Vec<String>,
}

/// How many days a grant is asked to live: a positive number of them, whose seconds sixty-four
/// bits hold.
pub open spec fn days_asked(args: Seq<Seq<char>>) -> Option<int> {
    match flag(args, "--days"@) {
        None => Some(DEFAULT_GRANT_DAYS as int),
        Some(d) => within(integer(d), 1, MOST_DAYS as int),
    }
}

/// What `grant` refuses to sign.
pub open spec fn grant_refusal(args: Seq<Seq<char>>) -> Option<Seq<char>> {
    let key = flag(args, "--grantee-key"@);
    if flag(args, "--key"@) is None || flag(args, "--root"@) is None || flag(args, "--grantee"@)
        is None || key is None || flag(args, "--out"@) is None {
        Some(
            "grant requires --key <path>, --root <human:name>, --grantee <subject>, --grantee-key <ed25519:...> and --out <path>"@,
        )
    } else if !is_key_id(key->0) {
        Some(failing("--grantee-key"@, bad_key_id(key->0)))
    } else if days_asked(args) is None {
        Some("--days must be a positive integer"@)
    } else {
        None
    }
}

/// The components a grant reaches where none is named.
pub const DEFAULT_COMPONENTS: [&'static str; 1] = ["gateway"];

/// The actions and the resources a grant reaches where none is named.
pub const EVERYTHING: [&'static str; 1] = ["*"];

/// The weight classes a grant reaches where none is named.
pub const EVERY_CLASS: [&'static str; 4] = ["read", "benign", "consequential", "prohibited"];

fn days(arguments: &[String]) -> (r: Option<i64>)
    ensures
        match days_asked(texts(arguments@)) {
            Some(d) => r == Some(d as i64),
            None => r is None,
        },
{
    match value(arguments, "--days") {
        None => Some(DEFAULT_GRANT_DAYS),
        Some(d) => match parse_i64(d) {
            Some(n) => if 1 <= n && n <= MOST_DAYS {
                Some(n)
            } else {
                None
            },
            None => None,
        },
    }
}

/// What `grant` is asked to sign.
pub fn grant(arguments: &[String]) -> (r: Result<GrantAsk, String>)
    ensures
        match grant_refusal(texts(arguments@)) {
            Some(m) => r matches Err(e) && e@ == m,
            None => r matches Ok(a) && {
                let args = texts(arguments@);
                &&& Some(a.key_path@) == flag(args, "--key"@)
                &&& Some(a.root_subject@) == flag(args, "--root"@)
                &&& Some(a.grantee@) == flag(args, "--grantee"@)
                &&& Some(a.grantee_key@) == flag(args, "--grantee-key"@)
                &&& Some(a.out@) == flag(args, "--out"@)
                &&& Some(a.days as int) == days_asked(args)
                &&& a.days * 86_400 <= i64::MAX
                &&& texts(a.components@) == flag_list(
                    args,
                    "--components"@,
                    names_of(DEFAULT_COMPONENTS@),
                )
                &&& texts(a.actions@) == flag_list(args, "--actions"@, names_of(EVERYTHING@))
                &&& texts(a.classes@) == flag_list(args, "--classes"@, names_of(EVERY_CLASS@))
                &&& texts(a.resources@) == flag_list(args, "--resources"@, names_of(EVERYTHING@))
            },
        },
{
    let (key_path, root_subject, grantee, grantee_key, out) = match (
        value(arguments, "--key"),
        value(arguments, "--root"),
        value(arguments, "--grantee"),
        value(arguments, "--grantee-key"),
        value(arguments, "--out"),
    ) {
        (Some(k), Some(s), Some(g), Some(gk), Some(o)) => (k, s, g, gk, o),
        _ => {
            return Err(
                "grant requires --key <path>, --root <human:name>, --grantee <subject>, --grantee-key <ed25519:...> and --out <path>".to_owned(),
            );
        },
    };
    let grantee_key = match KeyId::parse(grantee_key) {
        Ok(k) => k,
        Err(e) => {
            return Err(failed("--grantee-key", &e));
        },
    };
    let days: i64 = match days(arguments) {
        Some(d) => d,
        None => {
            return Err("--days must be a positive integer".to_owned());
        },
    };
    Ok(
        GrantAsk {
            key_path: key_path.to_owned(),
            root_subject: root_subject.to_owned(),
            grantee: grantee.to_owned(),
            grantee_key,
            out: out.to_owned(),
            days,
            components: list(arguments, "--components", &DEFAULT_COMPONENTS),
            actions: list(arguments, "--actions", &EVERYTHING),
            classes: list(arguments, "--classes", &EVERY_CLASS),
            resources: list(arguments, "--resources", &EVERYTHING),
        },
    )
}

// -- revocations ------------------------------------------------------------------------------

/// What `revoke` is asked to sign.
#[derive(Debug)]
pub struct RevokeAsk {
    /// The mandate that is revoked.
    pub mandate: String,
    /// Where the revoker's seed lies.
    pub key_path: String,
    /// Why, where it is said.
    pub reason: Option<String>,
}

/// What `revoke` refuses to sign.
pub open spec fn revoke_refusal(args: Seq<Seq<char>>) -> Option<Seq<char>> {
    let mandate = flag(args, "--mandate"@);
    let reason = flag(args, "--reason"@);
    if mandate is None || flag(args, "--key"@) is None {
        Some("revoke requires --mandate <64 hex> and --key <path>"@)
    } else if !is_digest(mandate->0) {
        Some("--mandate must be 64 lowercase hex digits"@)
    } else if reason is Some && trimmed(reason->0).len() == 0 {
        Some("--reason, if given, must say something"@)
    } else {
        None
    }
}

/// What `revoke` is asked to sign.
pub fn revoke(arguments: &[String]) -> (r: Result<RevokeAsk, String>)
    ensures
        match revoke_refusal(texts(arguments@)) {
            Some(m) => r matches Err(e) && e@ == m,
            None => r matches Ok(a) && {
                let args = texts(arguments@);
                &&& Some(a.mandate@) == flag(args, "--mandate"@)
                &&& Some(a.key_path@) == flag(args, "--key"@)
                &&& opt_string(a.reason) == flag(args, "--reason"@)
            },
        },
{
    let (mandate, key_path) = match (value(arguments, "--mandate"), value(arguments, "--key")) {
        (Some(m), Some(k)) => (m, k),
        _ => {
            return Err("revoke requires --mandate <64 hex> and --key <path>".to_owned());
        },
    };
    if !is_digest_hex(mandate) {
        return Err("--mandate must be 64 lowercase hex digits".to_owned());
    }
    let reason = value(arguments, "--reason");
    if let Some(t) = reason {
        if trim(t).unicode_len() == 0 {
            return Err("--reason, if given, must say something".to_owned());
        }
    }
    Ok(
        RevokeAsk {
            mandate: mandate.to_owned(),
            key_path: key_path.to_owned(),
            reason: owned(reason),
        },
    )
}

/// A revocation, unsigned: it has a reason exactly where one is given, and is dated now.
pub open spec fn revocation_doc(mandate: Seq<char>, reason: Option<Seq<char>>, now: Seq<char>) -> Doc {
    let head = seq![("kind"@, Doc::Text("revocation"@))];
    let rest = seq![
        ("revoked-at"@, Doc::Text(now)),
        ("revokes"@, Doc::Text(mandate)),
        ("v"@, Doc::Text(VERSION@)),
    ];
    match reason {
        Some(t) => Doc::Record(head + seq![("reason"@, Doc::Text(t))] + rest),
        None => Doc::Record(head + rest),
    }
}

/// The revocation that is signed at an instant.
pub fn revocation(ask: &RevokeAsk, now: &str) -> (r: Json)
    ensures
        r@ == revocation_doc(ask.mandate@, opt_string(ask.reason), now@),
{
    let mut out: Vec<(String, Json)> = Vec::new();
    out.push(member("kind", text("revocation")));
    if let Some(reason) = &ask.reason {
        out.push(member("reason", text(reason.as_str())));
    }
    out.push(member("revoked-at", text(now)));
    out.push(member("revokes", text(ask.mandate.as_str())));
    out.push(member("v", text(VERSION)));
    assert(member_docs(out@) =~= revocation_doc(
        ask.mandate@,
        opt_string(ask.reason),
        now@,
    )->Record_0);
    record(out)
}

// -- laws -------------------------------------------------------------------------------------

/// A decision is never assumed: without an approval that is stated or a denial with a reason,
/// nothing is signed.
pub proof fn lemma_decisions_are_stated(args: Seq<Seq<char>>)
    requires
        decide_refusal(args) is None,
    ensures
        place_of(args, "--approve"@, 0) is Some <==> flag(args, "--deny"@) is None,
        flag(args, "--deny"@) matches Some(reason) ==> trimmed(reason).len() > 0,
{
}

/// A request may be decided exactly where it and the key are given, and it is approved or denied,
/// not both, with a reason where it is denied, for a time that is not empty.
pub proof fn lemma_what_deciding_takes(args: Seq<Seq<char>>)
    ensures
        decide_refusal(args) is None <==> {
            &&& flag(args, "--request"@) matches Some(hash) && is_digest(hash)
            &&& flag(args, "--key"@) is Some
            &&& {
                ||| flag(args, "--deny"@) is None && place_of(args, "--approve"@, 0) is Some
                ||| place_of(args, "--approve"@, 0) is None && (flag(args, "--deny"@) matches Some(
                    why,
                ) && trimmed(why).len() > 0)
            }
            &&& flag_i64(args, "--minutes"@, 15) > 0
        },
{
}

/// A grant may be drawn up exactly where everything it takes is given, the grantee's key is one, and
/// it lasts for days; thirty of them where nothing else is said.
pub proof fn lemma_what_granting_takes(args: Seq<Seq<char>>)
    ensures
        grant_refusal(args) is None <==> {
            &&& flag(args, "--key"@) is Some
            &&& flag(args, "--root"@) is Some
            &&& flag(args, "--grantee"@) is Some
            &&& flag(args, "--out"@) is Some
            &&& flag(args, "--grantee-key"@) matches Some(key) && is_key_id(key)
            &&& days_asked(args) is Some
        },
        flag(args, "--days"@) is None ==> days_asked(args) == Some(30int),
        flag(args, "--days"@) matches Some(t) ==> (days_asked(args) is Some <==> (integer(
            t,
        ) matches Some(n) && 1 <= n <= 106_751_991_167_300)),
        flag(args, "--days"@) matches Some(t) ==> days_asked(args) is Some ==> days_asked(args)
            == integer(t),
{
}

/// A mandate may be revoked exactly where it is named by its digest and the key is given, and a
/// reason that is given says something.
pub proof fn lemma_what_revoking_takes(args: Seq<Seq<char>>)
    ensures
        revoke_refusal(args) is None <==> {
            &&& flag(args, "--mandate"@) matches Some(mandate) && is_digest(mandate)
            &&& flag(args, "--key"@) is Some
            &&& flag(args, "--reason"@) matches Some(why) ==> trimmed(why).len() > 0
        },
{
}

/// A ceremony may be held exactly where the key, the root and the place are given, and a second root
/// is given whole or not at all.
pub proof fn lemma_what_a_ceremony_takes(args: Seq<Seq<char>>)
    ensures
        ceremony_refusal(args) is None <==> {
            &&& flag(args, "--key"@) is Some
            &&& flag(args, "--root"@) is Some
            &&& flag(args, "--out"@) is Some
            &&& flag(args, "--second-root"@) is Some <==> flag(args, "--second-root-key"@) is Some
            &&& flag(args, "--second-root-key"@) matches Some(key) ==> is_key_id(key)
        },
{
}

/// A revocation says which mandate ends, when, and why where there is a reason.
pub proof fn lemma_what_a_revocation_says(
    mandate: Seq<char>,
    reason: Option<Seq<char>>,
    now: Seq<char>,
)
    ensures
        ({
            let d = revocation_doc(mandate, reason, now);
            &&& d.get("kind"@) == Some(Doc::Text("revocation"@))
            &&& d.get("revoked-at"@) == Some(Doc::Text(now))
            &&& d.get("revokes"@) == Some(Doc::Text(mandate))
            &&& d.get("v"@) == Some(Doc::Text("stozher/0.1"@))
            &&& d.get("reason"@) == match reason {
                Some(t) => Some(Doc::Text(t)),
                None => None,
            }
        }),
{
    reveal_strlit("kind");
    reveal_strlit("reason");
    reveal_strlit("revoked-at");
    reveal_strlit("revokes");
    reveal_strlit("v");
    assert("kind"@.len() == 4);
    assert("reason"@.len() == 6);
    assert("revoked-at"@.len() == 10);
    assert("revokes"@.len() == 7);
    assert("v"@.len() == 1);
    let members = revocation_doc(mandate, reason, now)->Record_0;
    crate::json::lemma_lookup_at(members, "kind"@, 0);
    if reason is Some {
        crate::json::lemma_lookup_at(members, "reason"@, 1);
        crate::json::lemma_lookup_at(members, "revoked-at"@, 2);
        crate::json::lemma_lookup_at(members, "revokes"@, 3);
        crate::json::lemma_lookup_at(members, "v"@, 4);
    } else {
        crate::json::lemma_lookup_absent(members, "reason"@);
        crate::json::lemma_lookup_at(members, "revoked-at"@, 1);
        crate::json::lemma_lookup_at(members, "revokes"@, 2);
        crate::json::lemma_lookup_at(members, "v"@, 3);
    }
}

/// The ceremony that is held is the one that was asked for, with what stands in where nothing was
/// said.
pub proof fn lemma_which_ceremony_is_held(c: Ceremony, args: Seq<Seq<char>>, now: Seq<char>)
    requires
        is_asked_ceremony(c, args, now),
        ceremony_refusal(args) is None,
    ensures
        flag(args, "--root"@) == Some(c.root_subject@),
        flag(args, "--agent"@) is None ==> c.agent_subject@ == "agent:bootstrap"@,
        flag(args, "--agent"@) matches Some(a) ==> c.agent_subject@ == a,
        flag(args, "--policy-version"@) is None ==> c.policy_version@ == "2026.07.1"@,
        flag(args, "--policy-version"@) matches Some(v) ==> c.policy_version@ == v,
        flag(args, "--core-stream"@) is None ==> c.core_stream@ == "kernel:core"@,
        flag(args, "--core-stream"@) matches Some(s) ==> c.core_stream@ == s,
        c.second_root is Some <==> flag(args, "--second-root"@) is Some,
        c.second_root matches Some((subject, key)) ==> flag(args, "--second-root"@) == Some(
            subject@,
        ) && flag(args, "--second-root-key"@) == Some(key@),
        c.now@ == now,
{
}

/// An identity is asked for by a key's path and, where a role is given, by the role and the place.
pub proof fn lemma_what_asking_for_an_identity_takes(args: Seq<Seq<char>>)
    ensures
        identity_asked(args) is Ok <==> flag(args, "--key"@) is Some && (flag(
            args,
            "--role"@,
        ) matches Some(role) ==> (natural(role) matches Some(n) && 0 <= n <= u32::MAX)),
        identity_asked(args) matches Ok((path, place)) ==> {
            &&& flag(args, "--key"@) == Some(path)
            &&& place is Some <==> flag(args, "--role"@) is Some
            &&& place matches Some((role, _)) ==> natural(flag(args, "--role"@)->0) == Some(role)
        },
{
}

} // verus!
