//! The kernel's configuration: a closed document that holds no secret.
//!
//! Callers appear by the digest of their token, and notification channels by the names of the
//! environment variables that hold their credentials.

use vstd::prelude::*;
use vstd::string::*;

use crate::clock::{bad_timestamp, duration, is_timestamp, parse_duration_seconds, parse_timestamp};
use crate::codes::CALLER_UNAUTHENTICATED;
use crate::crypto::{constant_time_eq, sha256_hex, sha256_hex_of};
use crate::error::{fault, refusal, Error, Fault};
use crate::json::{docs, stranger, unknown_member, Doc, Json};
use crate::keys::{bad_key_id, is_key_id, KeyId};
use crate::text::{
    begins, debug_text, decimal, decimal_text, is_digest, is_digest_hex, join2, join3, join4,
    opt_text, or_empty, quoted, same, starts_with, text_or_empty, texts,
};

verus! {

/// Every member a configuration may have.
pub const MEMBERS: [&'static str; 14] = [
    "bind",
    "database",
    "kernel-seed",
    "policy-key",
    "kernel-core-stream",
    "checkpoint-stream",
    "rejection-stream",
    "max-future-skew-seconds",
    "roots",
    "callers",
    "notifications",
    "console-base-url",
    "gate-rate-limit",
    "decay-interval",
];

/// The members of a rate limit.
pub const RATE_LIMIT_MEMBERS: [&'static str; 2] = ["per-subject", "window"];

/// The members of a `slack` channel.
pub const SLACK_MEMBERS: [&'static str; 2] = ["channel", "webhook-url-env"];

/// The members of a `webhook` channel.
pub const WEBHOOK_MEMBERS: [&'static str; 3] = ["channel", "url-env", "token-env"];

/// The members of an `smtp` channel.
pub const SMTP_MEMBERS: [&'static str; 7] = [
    "channel",
    "host",
    "port",
    "from",
    "to",
    "username",
    "password-env",
];

/// How often payload decay runs where nothing is said about it: once a day.
pub const DEFAULT_DECAY_INTERVAL_SECONDS: i64 = 86_400;

/// The cap and the window of gate requests where nothing is said about them.
pub const DEFAULT_PER_SUBJECT: u32 = 30;

/// The window of gate requests where nothing is said about it, in seconds.
pub const DEFAULT_WINDOW_SECONDS: i64 = 300;

// -- types ------------------------------------------------------------------------------------

/// A human root the deployment trusts.
#[derive(Debug)]
pub struct ConfiguredRoot {
    /// The root's key.
    pub key: KeyId,
    /// Its named human, of the form `human:<name>`.
    pub subject: String,
    /// When it was enrolled.
    pub enrolled_at: String,
}

/// A component permitted to talk to the kernel.
#[derive(Debug)]
pub struct ConfiguredCaller {
    /// The subject its credential resolves to.
    pub subject: String,
    /// The SHA-256 digest of its token, in lowercase hexadecimal.
    pub token_sha256: String,
}

/// How many gate requests one subject may park in one window.
#[derive(Debug, Clone, Copy)]
pub struct RateLimit {
    /// Requests one subject may park in a window.
    pub per_subject: u32,
    /// The window, in seconds.
    pub window_seconds: i64,
}

impl Default for RateLimit {
    fn default() -> (r: RateLimit)
        ensures
            r.per_subject == DEFAULT_PER_SUBJECT,
            r.window_seconds == DEFAULT_WINDOW_SECONDS,
    {
        RateLimit { per_subject: DEFAULT_PER_SUBJECT, window_seconds: DEFAULT_WINDOW_SECONDS }
    }
}

/// One configured notification channel. Credentials appear as the names of environment variables.
#[derive(Debug)]
pub enum ConfiguredChannel {
    /// A Slack incoming webhook, whose URL is its credential.
    Slack {
        /// The variable holding the URL.
        url_env: String,
    },
    /// A webhook receiving the ping as JSON.
    Webhook {
        /// The variable holding the URL.
        url_env: String,
        /// The variable holding a bearer token, where the endpoint wants one.
        token_env: Option<String>,
    },
    /// Mail through a relay.
    Smtp {
        /// The relay's host.
        host: String,
        /// The relay's port.
        port: u16,
        /// The sender.
        from: String,
        /// The recipients.
        to: Vec<String>,
        /// The user name, where the relay wants one.
        username: Option<String>,
        /// The variable holding the password.
        password_env: Option<String>,
    },
}

/// What a configured channel is.
pub enum Channel {
    /// A Slack incoming webhook.
    Slack {
        /// The variable holding the URL.
        url_env: Seq<char>,
    },
    /// A webhook.
    Webhook {
        /// The variable holding the URL.
        url_env: Seq<char>,
        /// The variable holding a bearer token.
        token_env: Option<Seq<char>>,
    },
    /// Mail through a relay.
    Smtp {
        /// The relay's host.
        host: Seq<char>,
        /// The relay's port.
        port: int,
        /// The sender.
        from: Seq<char>,
        /// The recipients.
        to: Seq<Seq<char>>,
        /// The user name.
        username: Option<Seq<char>>,
        /// The variable holding the password.
        password_env: Option<Seq<char>>,
    },
}

/// The text an optional string stands for.
pub open spec fn opt_string(s: Option<String>) -> Option<Seq<char>> {
    match s {
        Some(t) => Some(t@),
        None => None,
    }
}

impl View for ConfiguredChannel {
    type V = Channel;

    open spec fn view(&self) -> Channel {
        match self {
            ConfiguredChannel::Slack { url_env } => Channel::Slack { url_env: url_env@ },
            ConfiguredChannel::Webhook { url_env, token_env } => Channel::Webhook {
                url_env: url_env@,
                token_env: opt_string(*token_env),
            },
            ConfiguredChannel::Smtp { host, port, from, to, username, password_env } => Channel::Smtp {
                host: host@,
                port: *port as int,
                from: from@,
                to: texts(to@),
                username: opt_string(*username),
                password_env: opt_string(*password_env),
            },
        }
    }
}

/// The kernel's configuration.
#[derive(Debug)]
pub struct Config {
    /// The address to serve on.
    pub bind: String,
    /// The path of the database.
    pub database: String,
    /// The path of the kernel's seed.
    pub kernel_seed: String,
    /// The organization's policy key.
    pub policy_key: KeyId,
    /// The kernel's own stream.
    pub kernel_core_stream: String,
    /// The stream checkpoints live in.
    pub checkpoint_stream: String,
    /// The stream rejection records live in.
    pub rejection_stream: String,
    /// How far into the future an envelope may be dated, in seconds.
    pub max_future_skew_seconds: i64,
    /// The enrolled human roots.
    pub roots: Vec<ConfiguredRoot>,
    /// The permitted callers.
    pub callers: Vec<ConfiguredCaller>,
    /// The notification channels.
    pub notifications: Vec<ConfiguredChannel>,
    /// Where the console answers.
    pub console_base_url: Option<String>,
    /// The bound on parked gate requests.
    pub gate_rate_limit: RateLimit,
    /// How often payload decay runs, in seconds.
    pub decay_interval_seconds: i64,
}

// -- rate limit and decay interval ------------------------------------------------------------

/// A rate limit, as a cap and a window in seconds.
pub struct Limit {
    /// The cap.
    pub per_subject: int,
    /// The window.
    pub window_seconds: int,
}

/// What a rate limit comes to: both its members have a default, and neither may be zero.
pub open spec fn rate_limit(entry: Option<Doc>) -> Result<Limit, Fault> {
    match entry {
        None => Ok(
            Limit {
                per_subject: DEFAULT_PER_SUBJECT as int,
                window_seconds: DEFAULT_WINDOW_SECONDS as int,
            },
        ),
        Some(d) => {
            let count = d.at("per-subject"@).as_u64();
            let window = d.text_at("window"@);
            if d.as_record() is None {
                Err(fault("config-malformed"@, "gate-rate-limit must be an object"@))
            } else if let Some(key) = stranger(d->Record_0, RATE_LIMIT_MEMBERS@, 0) {
                Err(fault("config-malformed"@, "gate-rate-limit has no member "@ + quoted(key)))
            } else if d.get("per-subject"@) is Some && !(count is Some && count->0 <= u32::MAX) {
                Err(
                    fault(
                        "config-malformed"@,
                        "gate-rate-limit.per-subject must be a positive integer"@,
                    ),
                )
            } else if count == Some(0int) {
                Err(
                    fault(
                        "config-malformed"@,
                        "gate-rate-limit.per-subject must be at least 1 — a cap is required, and a cap of zero refuses every gate rather than bounding a flood"@,
                    ),
                )
            } else if d.get("window"@) is Some && window is None {
                Err(
                    fault(
                        "config-malformed"@,
                        "gate-rate-limit.window must be an ISO 8601 duration"@,
                    ),
                )
            } else if d.get("window"@) is Some && duration(window->0) is Err {
                Err(duration(window->0)->Err_0)
            } else if d.get("window"@) is Some && duration(window->0)->Ok_0 <= 0 {
                Err(
                    fault(
                        "config-malformed"@,
                        "gate-rate-limit.window must be a positive duration"@,
                    ),
                )
            } else {
                Ok(
                    Limit {
                        per_subject: match d.get("per-subject"@) {
                            Some(_) => count->0,
                            None => DEFAULT_PER_SUBJECT as int,
                        },
                        window_seconds: match d.get("window"@) {
                            Some(_) => duration(window->0)->Ok_0,
                            None => DEFAULT_WINDOW_SECONDS as int,
                        },
                    },
                )
            }
        },
    }
}

/// A document that may be absent.
pub open spec fn opt_doc(d: Option<&Json>) -> Option<Doc> {
    match d {
        Some(j) => Some(j@),
        None => None,
    }
}

fn parse_rate_limit(entry: Option<&Json>) -> (r: Result<RateLimit, Error>)
    ensures
        match rate_limit(opt_doc(entry)) {
            Ok(limit) => r matches Ok(v) && v.per_subject == limit.per_subject && v.window_seconds
                == limit.window_seconds,
            Err(f) => r matches Err(e) && e@ == f,
        },
{
    let entry = match entry {
        None => {
            return Ok(RateLimit::default());
        },
        Some(entry) => entry,
    };
    let members = match entry.as_record() {
        Some(members) => members,
        None => {
            return Err(refusal("config-malformed", "gate-rate-limit must be an object"));
        },
    };
    if let Some(key) = unknown_member(members, &RATE_LIMIT_MEMBERS) {
        return Err(
            Error::new(
                "config-malformed",
                join2("gate-rate-limit has no member ", debug_text(key.as_str()).as_str()),
            ),
        );
    }
    let per_subject: u32 = match entry.get("per-subject") {
        None => DEFAULT_PER_SUBJECT,
        Some(value) => {
            let count: u64 = match value.as_u64() {
                Some(count) => count,
                None => {
                    return Err(
                        refusal(
                            "config-malformed",
                            "gate-rate-limit.per-subject must be a positive integer",
                        ),
                    );
                },
            };
            if count > u32::MAX as u64 {
                return Err(
                    refusal(
                        "config-malformed",
                        "gate-rate-limit.per-subject must be a positive integer",
                    ),
                );
            }
            if count == 0 {
                return Err(
                    refusal(
                        "config-malformed",
                        "gate-rate-limit.per-subject must be at least 1 — a cap is required, and a cap of zero refuses every gate rather than bounding a flood",
                    ),
                );
            }
            count as u32
        },
    };
    let window_seconds: i64 = match entry.get("window") {
        None => DEFAULT_WINDOW_SECONDS,
        Some(value) => {
            let text = match value.as_text() {
                Some(text) => text,
                None => {
                    return Err(
                        refusal(
                            "config-malformed",
                            "gate-rate-limit.window must be an ISO 8601 duration",
                        ),
                    );
                },
            };
            let seconds: i64 = parse_duration_seconds(text)?;
            if seconds <= 0 {
                return Err(
                    refusal(
                        "config-malformed",
                        "gate-rate-limit.window must be a positive duration",
                    ),
                );
            }
            seconds
        },
    };
    Ok(RateLimit { per_subject, window_seconds })
}

/// What a decay interval comes to in seconds: a positive duration, and a day where nothing is said.
pub open spec fn decay_interval(entry: Option<Doc>) -> Result<int, Fault> {
    match entry {
        None => Ok(DEFAULT_DECAY_INTERVAL_SECONDS as int),
        Some(d) => match d.as_text() {
            None => Err(
                fault("config-malformed"@, "decay-interval must be an ISO 8601 duration"@),
            ),
            Some(text) => match duration(text) {
                Err(f) => Err(f),
                Ok(seconds) => if seconds <= 0 {
                    Err(
                        fault(
                            "config-malformed"@,
                            "decay-interval must be a positive duration. There is no way to switch decay off: retention is policy's to decide, and a kernel that never sweeps does not extend it, it only stops enforcing it"@,
                        ),
                    )
                } else {
                    Ok(seconds)
                },
            },
        },
    }
}

fn parse_decay_interval(entry: Option<&Json>) -> (r: Result<i64, Error>)
    ensures
        match decay_interval(opt_doc(entry)) {
            Ok(seconds) => r matches Ok(v) && v == seconds,
            Err(f) => r matches Err(e) && e@ == f,
        },
{
    let entry = match entry {
        None => {
            return Ok(DEFAULT_DECAY_INTERVAL_SECONDS);
        },
        Some(entry) => entry,
    };
    let text = match entry.as_text() {
        Some(text) => text,
        None => {
            return Err(
                refusal("config-malformed", "decay-interval must be an ISO 8601 duration"),
            );
        },
    };
    let seconds: i64 = parse_duration_seconds(text)?;
    if seconds <= 0 {
        return Err(
            refusal(
                "config-malformed",
                "decay-interval must be a positive duration. There is no way to switch decay off: retention is policy's to decide, and a kernel that never sweeps does not extend it, it only stops enforcing it",
            ),
        );
    }
    Ok(seconds)
}

// -- channels ---------------------------------------------------------------------------------

/// The refusal of a channel that lacks something it needs.
pub open spec fn channel_lacks(channel: Seq<char>, name: Seq<char>) -> Fault {
    fault(
        "config-malformed"@,
        "notifications[] "@ + channel + " channel requires "@ + name,
    )
}

/// The strings of a list, in order, up to a place; anything else in it is passed over.
pub open spec fn strings(items: Seq<Doc>, upto: int) -> Seq<Seq<char>>
    decreases upto,
{
    if upto <= 0 {
        Seq::empty()
    } else {
        match items[upto - 1].as_text() {
            Some(s) => strings(items, upto - 1).push(s),
            None => strings(items, upto - 1),
        }
    }
}

/// What a `slack` entry comes to.
pub open spec fn slack_channel(d: Doc) -> Result<Channel, Fault> {
    let url = or_empty(d.text_at("webhook-url-env"@));
    if url.len() == 0 {
        Err(channel_lacks("slack"@, "webhook-url-env"@))
    } else {
        Ok(Channel::Slack { url_env: url })
    }
}

/// What a `webhook` entry comes to.
pub open spec fn webhook_channel(d: Doc) -> Result<Channel, Fault> {
    let url = or_empty(d.text_at("url-env"@));
    if url.len() == 0 {
        Err(channel_lacks("webhook"@, "url-env"@))
    } else {
        Ok(Channel::Webhook { url_env: url, token_env: d.text_at("token-env"@) })
    }
}

/// What an `smtp` entry comes to: at least one recipient, a host, a port that is one, a sender.
pub open spec fn smtp_channel(d: Doc) -> Result<Channel, Fault> {
    let items = d.at("to"@).items();
    let to = strings(items, items.len() as int);
    let host = or_empty(d.text_at("host"@));
    let from = or_empty(d.text_at("from"@));
    let port = match d.at("port"@).as_u64() {
        Some(port) => port,
        None => 25,
    };
    if to.len() == 0 {
        Err(
            fault(
                "config-malformed"@,
                "notifications[] smtp channel requires at least one recipient in to"@,
            ),
        )
    } else if host.len() == 0 {
        Err(channel_lacks("smtp"@, "host"@))
    } else if port > u16::MAX {
        Err(fault("config-malformed"@, "notifications[] port "@ + decimal(port as nat)))
    } else if from.len() == 0 {
        Err(channel_lacks("smtp"@, "from"@))
    } else {
        Ok(
            Channel::Smtp {
                host,
                port,
                from,
                to,
                username: d.text_at("username"@),
                password_env: d.text_at("password-env"@),
            },
        )
    }
}

/// The refusal of a member a channel does not have.
pub open spec fn channel_has_no(channel: Seq<char>, key: Seq<char>) -> Fault {
    fault(
        "config-malformed"@,
        "notifications[] "@ + channel + " channel has no member "@ + quoted(key),
    )
}

/// What a notification entry comes to. There are three channels, each with its own closed members.
pub open spec fn channel(d: Doc) -> Result<Channel, Fault> {
    if d.as_record() is None {
        Err(fault("config-malformed"@, "notifications[] entries must be objects"@))
    } else {
        match d.text_at("channel"@) {
            None => Err(fault("config-malformed"@, "notifications[].channel is required"@)),
            Some(name) => if name == "slack"@ {
                match stranger(d->Record_0, SLACK_MEMBERS@, 0) {
                    Some(key) => Err(channel_has_no(name, key)),
                    None => slack_channel(d),
                }
            } else if name == "webhook"@ {
                match stranger(d->Record_0, WEBHOOK_MEMBERS@, 0) {
                    Some(key) => Err(channel_has_no(name, key)),
                    None => webhook_channel(d),
                }
            } else if name == "smtp"@ {
                match stranger(d->Record_0, SMTP_MEMBERS@, 0) {
                    Some(key) => Err(channel_has_no(name, key)),
                    None => smtp_channel(d),
                }
            } else {
                Err(
                    fault(
                        "config-malformed"@,
                        "notifications[].channel "@ + quoted(name)
                            + " is not one of slack, smtp, webhook — Stozher owns exactly one outbound and exactly these three channels"@,
                    ),
                )
            },
        }
    }
}

fn required(d: &Json, channel: &str, name: &str) -> (r: Result<String, Error>)
    ensures
        or_empty(d@.text_at(name@)).len() == 0 ==> (r matches Err(e) && e@ == channel_lacks(
            channel@,
            name@,
        )),
        or_empty(d@.text_at(name@)).len() > 0 ==> (r matches Ok(s) && s@ == or_empty(
            d@.text_at(name@),
        )),
{
    let value = text_or_empty(d.text_at(name));
    if value.is_empty() {
        return Err(
            Error::new(
                "config-malformed",
                join4("notifications[] ", channel, " channel requires ", name),
            ),
        );
    }
    Ok(value.to_owned())
}

fn optional(d: &Json, name: &str) -> (r: Option<String>)
    ensures
        opt_string(r) == d@.text_at(name@),
{
    match d.text_at(name) {
        Some(s) => Some(s.to_owned()),
        None => None,
    }
}

/// The strings of a list, in order; anything else in it is passed over.
pub fn string_items(d: &Json) -> (r: Vec<String>)
    ensures
        texts(r@) == strings(d@.items(), d@.items().len() as int),
{
    let mut out: Vec<String> = Vec::new();
    assert(texts(out@) =~= Seq::empty());
    if let Some(items) = d.as_list() {
        let mut i: usize = 0;
        while i < items.len()
            invariant
                i <= items@.len(),
                texts(out@) == strings(docs(items@), i as int),
            decreases items@.len() - i,
        {
            let ghost before = texts(out@);
            if let Some(s) = items[i].as_text() {
                out.push(s.to_owned());
                assert(texts(out@) =~= before.push(s@));
            }
            i += 1;
        }
    }
    out
}

fn no_member(channel: &str, key: String) -> (r: Error)
    ensures
        r@ == channel_has_no(channel@, key@),
{
    Error::new(
        "config-malformed",
        join4(
            "notifications[] ",
            channel,
            " channel has no member ",
            debug_text(key.as_str()).as_str(),
        ),
    )
}

fn parse_smtp(entry: &Json) -> (r: Result<ConfiguredChannel, Error>)
    ensures
        match smtp_channel(entry@) {
            Ok(c) => r matches Ok(v) && v@ == c,
            Err(f) => r matches Err(e) && e@ == f,
        },
{
    let to = string_items(entry.at("to"));
    assert(texts(to@).len() == to@.len());
    if to.len() == 0 {
        return Err(
            refusal(
                "config-malformed",
                "notifications[] smtp channel requires at least one recipient in to",
            ),
        );
    }
    let port: u64 = match entry.at("port").as_u64() {
        Some(port) => port,
        None => 25,
    };
    let host = required(entry, "smtp", "host")?;
    if port > u16::MAX as u64 {
        return Err(
            Error::new(
                "config-malformed",
                join2("notifications[] port ", decimal_text(port).as_str()),
            ),
        );
    }
    let from = required(entry, "smtp", "from")?;
    Ok(
        ConfiguredChannel::Smtp {
            host,
            port: port as u16,
            from,
            to,
            username: optional(entry, "username"),
            password_env: optional(entry, "password-env"),
        },
    )
}

/// Reads one notification entry.
pub fn parse_channel(entry: &Json) -> (r: Result<ConfiguredChannel, Error>)
    ensures
        match channel(entry@) {
            Ok(c) => r matches Ok(v) && v@ == c,
            Err(f) => r matches Err(e) && e@ == f,
        },
{
    let members = match entry.as_record() {
        Some(members) => members,
        None => {
            return Err(refusal("config-malformed", "notifications[] entries must be objects"));
        },
    };
    let name = match entry.text_at("channel") {
        Some(name) => name,
        None => {
            return Err(refusal("config-malformed", "notifications[].channel is required"));
        },
    };
    if same(name, "slack") {
        if let Some(key) = unknown_member(members, &SLACK_MEMBERS) {
            return Err(no_member(name, key));
        }
        let url_env = required(entry, "slack", "webhook-url-env")?;
        return Ok(ConfiguredChannel::Slack { url_env });
    }
    if same(name, "webhook") {
        if let Some(key) = unknown_member(members, &WEBHOOK_MEMBERS) {
            return Err(no_member(name, key));
        }
        let url_env = required(entry, "webhook", "url-env")?;
        return Ok(
            ConfiguredChannel::Webhook { url_env, token_env: optional(entry, "token-env") },
        );
    }
    if same(name, "smtp") {
        if let Some(key) = unknown_member(members, &SMTP_MEMBERS) {
            return Err(no_member(name, key));
        }
        return parse_smtp(entry);
    }
    Err(
        Error::new(
            "config-malformed",
            join3(
                "notifications[].channel ",
                debug_text(name).as_str(),
                " is not one of slack, smtp, webhook — Stozher owns exactly one outbound and exactly these three channels",
            ),
        ),
    )
}

// -- the whole document -----------------------------------------------------------------------

/// Whether a text names a human: `human:` and at least one character.
pub open spec fn names_human(s: Seq<char>) -> bool {
    begins(s, "human:"@) && s.len() > 6
}

/// What is wrong with a root entry.
pub open spec fn root_fault(entry: Doc) -> Option<Fault> {
    let key = entry.text_at("key"@);
    let at = entry.text_at("enrolled-at"@);
    if key is None {
        Some(fault("config-malformed"@, "roots[].key is required"@))
    } else if !is_key_id(key->0) {
        Some(bad_key_id(key->0))
    } else if !names_human(or_empty(entry.text_at("subject"@))) {
        Some(
            fault(
                "config-malformed"@,
                "roots[].subject must be a named human, of the form human:<name>"@,
            ),
        )
    } else if at is None {
        Some(fault("config-malformed"@, "roots[].enrolled-at is required"@))
    } else if !is_timestamp(at->0) {
        Some(bad_timestamp(at->0))
    } else {
        None
    }
}

/// The refusal of the first root entry, from a place on, that cannot stand.
pub open spec fn roots_fault(entries: Seq<Doc>, from: int) -> Option<Fault>
    decreases entries.len() - from,
{
    if from >= entries.len() {
        None
    } else if let Some(f) = root_fault(entries[from]) {
        Some(f)
    } else {
        roots_fault(entries, from + 1)
    }
}

/// What is wrong with a caller entry.
pub open spec fn caller_fault(entry: Doc) -> Option<Fault> {
    if entry.text_at("subject"@) is None {
        Some(fault("config-malformed"@, "callers[].subject is required"@))
    } else if !is_digest(or_empty(entry.text_at("token-sha256"@))) {
        Some(
            fault(
                "config-malformed"@,
                "callers[].token-sha256 must be 64 lowercase hex digits — configuration never holds a token in the clear"@,
            ),
        )
    } else {
        None
    }
}

/// The refusal of the first caller entry, from a place on, that cannot stand.
pub open spec fn callers_fault(entries: Seq<Doc>, from: int) -> Option<Fault>
    decreases entries.len() - from,
{
    if from >= entries.len() {
        None
    } else if let Some(f) = caller_fault(entries[from]) {
        Some(f)
    } else {
        callers_fault(entries, from + 1)
    }
}

/// The refusal of the first notification entry, from a place on, that cannot stand.
pub open spec fn channels_fault(entries: Seq<Doc>, from: int) -> Option<Fault>
    decreases entries.len() - from,
{
    if from >= entries.len() {
        None
    } else if let Err(f) = channel(entries[from]) {
        Some(f)
    } else {
        channels_fault(entries, from + 1)
    }
}

/// What is wrong with a configuration: the first of its faults in the order its parts are read.
pub open spec fn config_fault(d: Doc) -> Option<Fault> {
    let key = d.text_at("policy-key"@);
    if d.as_record() is None {
        Some(fault("config-malformed"@, "configuration must be an object"@))
    } else if let Some(name) = stranger(d->Record_0, MEMBERS@, 0) {
        Some(fault("config-malformed"@, "unknown configuration member "@ + quoted(name)))
    } else if key is None {
        Some(fault("config-malformed"@, "policy-key is required"@))
    } else if !is_key_id(key->0) {
        Some(bad_key_id(key->0))
    } else if let Some(f) = roots_fault(d.at("roots"@).items(), 0) {
        Some(f)
    } else if let Some(f) = callers_fault(d.at("callers"@).items(), 0) {
        Some(f)
    } else if let Some(f) = channels_fault(d.at("notifications"@).items(), 0) {
        Some(f)
    } else if let Err(f) = rate_limit(d.get("gate-rate-limit"@)) {
        Some(f)
    } else if let Err(f) = decay_interval(d.get("decay-interval"@)) {
        Some(f)
    } else {
        None
    }
}

/// A string member, or a default where there is none.
pub open spec fn text_or(d: Doc, name: Seq<char>, default: Seq<char>) -> Seq<char> {
    match d.text_at(name) {
        Some(s) => s,
        None => default,
    }
}

/// Whether a root is the one an entry describes.
pub open spec fn is_root(root: ConfiguredRoot, entry: Doc) -> bool {
    &&& Some(root.key@) == entry.text_at("key"@)
    &&& Some(root.subject@) == entry.text_at("subject"@)
    &&& Some(root.enrolled_at@) == entry.text_at("enrolled-at"@)
}

/// Whether a caller is the one an entry describes.
pub open spec fn is_caller(caller: ConfiguredCaller, entry: Doc) -> bool {
    &&& Some(caller.subject@) == entry.text_at("subject"@)
    &&& Some(caller.token_sha256@) == entry.text_at("token-sha256"@)
}

/// Whether a configuration is the one a document describes.
pub open spec fn is_config(c: Config, d: Doc) -> bool {
    let roots = d.at("roots"@).items();
    let callers = d.at("callers"@).items();
    let channels = d.at("notifications"@).items();
    &&& c.bind@ == text_or(d, "bind"@, "127.0.0.1:8787"@)
    &&& c.database@ == text_or(d, "database"@, "var/stozher.db"@)
    &&& c.kernel_seed@ == text_or(d, "kernel-seed"@, "keys/kernel.seed"@)
    &&& Some(c.policy_key@) == d.text_at("policy-key"@)
    &&& c.kernel_core_stream@ == text_or(d, "kernel-core-stream"@, "kernel:core"@)
    &&& c.checkpoint_stream@ == text_or(d, "checkpoint-stream"@, "kernel:checkpoints"@)
    &&& c.rejection_stream@ == text_or(d, "rejection-stream"@, "kernel:rejections"@)
    &&& c.max_future_skew_seconds == (match d.at("max-future-skew-seconds"@).as_i64() {
        Some(n) => n,
        None => 300,
    })
    &&& c.roots@.len() == roots.len()
    &&& forall|i: int| 0 <= i < roots.len() ==> is_root(#[trigger] c.roots@[i], roots[i])
    &&& c.callers@.len() == callers.len()
    &&& forall|i: int| 0 <= i < callers.len() ==> is_caller(#[trigger] c.callers@[i], callers[i])
    &&& c.notifications@.len() == channels.len()
    &&& forall|i: int|
        0 <= i < channels.len() ==> Ok::<Channel, Fault>((#[trigger] c.notifications@[i])@)
            == channel(channels[i])
    &&& opt_string(c.console_base_url) == d.text_at("console-base-url"@)
    &&& rate_limit(d.get("gate-rate-limit"@)) == Ok::<Limit, Fault>(
        Limit {
            per_subject: c.gate_rate_limit.per_subject as int,
            window_seconds: c.gate_rate_limit.window_seconds as int,
        },
    )
    &&& decay_interval(d.get("decay-interval"@)) == Ok::<int, Fault>(
        c.decay_interval_seconds as int,
    )
}

/// Whether a text names a human.
pub fn is_human(s: &str) -> (r: bool)
    ensures
        r == names_human(s@),
{
    starts_with(s, "human:") && s.unicode_len() > 6
}

fn parse_root(entry: &Json) -> (r: Result<ConfiguredRoot, Error>)
    ensures
        match root_fault(entry@) {
            Some(f) => r matches Err(e) && e@ == f,
            None => r matches Ok(root) && is_root(root, entry@),
        },
{
    let key = match entry.text_at("key") {
        Some(key) => key,
        None => {
            return Err(refusal("config-malformed", "roots[].key is required"));
        },
    };
    let key = KeyId::parse(key)?;
    let subject = text_or_empty(entry.text_at("subject"));
    if !is_human(subject) {
        return Err(
            refusal(
                "config-malformed",
                "roots[].subject must be a named human, of the form human:<name>",
            ),
        );
    }
    let enrolled_at = match entry.text_at("enrolled-at") {
        Some(at) => at,
        None => {
            return Err(refusal("config-malformed", "roots[].enrolled-at is required"));
        },
    };
    let _instant: i64 = parse_timestamp(enrolled_at)?;
    Ok(
        ConfiguredRoot {
            key,
            subject: subject.to_owned(),
            enrolled_at: enrolled_at.to_owned(),
        },
    )
}

fn parse_caller(entry: &Json) -> (r: Result<ConfiguredCaller, Error>)
    ensures
        match caller_fault(entry@) {
            Some(f) => r matches Err(e) && e@ == f,
            None => r matches Ok(caller) && is_caller(caller, entry@),
        },
{
    let subject = match entry.text_at("subject") {
        Some(subject) => subject,
        None => {
            return Err(refusal("config-malformed", "callers[].subject is required"));
        },
    };
    let digest = text_or_empty(entry.text_at("token-sha256"));
    if !is_digest_hex(digest) {
        return Err(
            refusal(
                "config-malformed",
                "callers[].token-sha256 must be 64 lowercase hex digits — configuration never holds a token in the clear",
            ),
        );
    }
    Ok(ConfiguredCaller { subject: subject.to_owned(), token_sha256: digest.to_owned() })
}

/// The items of an array, and none where the document is none.
pub fn items_of(d: &Json) -> (r: Vec<&Json>)
    ensures
        r@.len() == d@.items().len(),
        forall|i: int| 0 <= i < r@.len() ==> (#[trigger] r@[i])@ == d@.items()[i],
{
    let mut out: Vec<&Json> = Vec::new();
    if let Some(items) = d.as_list() {
        let mut i: usize = 0;
        while i < items.len()
            invariant
                i <= items@.len(),
                out@.len() == i,
                forall|j: int| 0 <= j < i ==> (#[trigger] out@[j])@ == items@[j]@,
            decreases items@.len() - i,
        {
            out.push(&items[i]);
            i += 1;
        }
    }
    out
}

fn parse_roots(entries: &Json) -> (r: Result<Vec<ConfiguredRoot>, Error>)
    ensures
        match roots_fault(entries@.items(), 0) {
            Some(f) => r matches Err(e) && e@ == f,
            None => r matches Ok(v) && v@.len() == entries@.items().len() && (forall|i: int|
                0 <= i < v@.len() ==> is_root(#[trigger] v@[i], entries@.items()[i])),
        },
{
    let items = items_of(entries);
    let mut out: Vec<ConfiguredRoot> = Vec::new();
    let ghost all = entries@.items();
    let mut i: usize = 0;
    while i < items.len()
        invariant
            i <= items@.len() == all.len(),
            all == entries@.items(),
            forall|j: int| 0 <= j < items@.len() ==> (#[trigger] items@[j])@ == all[j],
            out@.len() == i,
            roots_fault(all, 0) == roots_fault(all, i as int),
            forall|j: int| 0 <= j < i ==> is_root(#[trigger] out@[j], all[j]),
        decreases items@.len() - i,
    {
        let root = parse_root(items[i])?;
        out.push(root);
        i += 1;
    }
    Ok(out)
}

fn parse_callers(entries: &Json) -> (r: Result<Vec<ConfiguredCaller>, Error>)
    ensures
        match callers_fault(entries@.items(), 0) {
            Some(f) => r matches Err(e) && e@ == f,
            None => r matches Ok(v) && v@.len() == entries@.items().len() && (forall|i: int|
                0 <= i < v@.len() ==> is_caller(#[trigger] v@[i], entries@.items()[i])),
        },
{
    let items = items_of(entries);
    let mut out: Vec<ConfiguredCaller> = Vec::new();
    let ghost all = entries@.items();
    let mut i: usize = 0;
    while i < items.len()
        invariant
            i <= items@.len() == all.len(),
            all == entries@.items(),
            forall|j: int| 0 <= j < items@.len() ==> (#[trigger] items@[j])@ == all[j],
            out@.len() == i,
            callers_fault(all, 0) == callers_fault(all, i as int),
            forall|j: int| 0 <= j < i ==> is_caller(#[trigger] out@[j], all[j]),
        decreases items@.len() - i,
    {
        let caller = parse_caller(items[i])?;
        out.push(caller);
        i += 1;
    }
    Ok(out)
}

fn parse_channels(entries: &Json) -> (r: Result<Vec<ConfiguredChannel>, Error>)
    ensures
        match channels_fault(entries@.items(), 0) {
            Some(f) => r matches Err(e) && e@ == f,
            None => r matches Ok(v) && v@.len() == entries@.items().len() && (forall|i: int|
                0 <= i < v@.len() ==> Ok::<Channel, Fault>((#[trigger] v@[i])@) == channel(
                    entries@.items()[i],
                )),
        },
{
    let items = items_of(entries);
    let mut out: Vec<ConfiguredChannel> = Vec::new();
    let ghost all = entries@.items();
    let mut i: usize = 0;
    while i < items.len()
        invariant
            i <= items@.len() == all.len(),
            all == entries@.items(),
            forall|j: int| 0 <= j < items@.len() ==> (#[trigger] items@[j])@ == all[j],
            out@.len() == i,
            channels_fault(all, 0) == channels_fault(all, i as int),
            forall|j: int|
                0 <= j < i ==> Ok::<Channel, Fault>((#[trigger] out@[j])@) == channel(all[j]),
        decreases items@.len() - i,
    {
        let entry = parse_channel(items[i])?;
        out.push(entry);
        i += 1;
    }
    Ok(out)
}

fn text_member(d: &Json, name: &str, default: &str) -> (r: String)
    ensures
        r@ == text_or(d@, name@, default@),
{
    match d.text_at(name) {
        Some(s) => s.to_owned(),
        None => default.to_owned(),
    }
}

/// Which of some callers, up to a place, a digest resolves to: the last with that digest.
pub open spec fn caller_with(
    callers: Seq<ConfiguredCaller>,
    digest: Seq<char>,
    upto: int,
) -> Option<Seq<char>>
    decreases upto,
{
    if upto <= 0 {
        None
    } else if callers[upto - 1].token_sha256@ == digest {
        Some(callers[upto - 1].subject@)
    } else {
        caller_with(callers, digest, upto - 1)
    }
}

/// The refusal of a credential that resolves to nobody.
pub open spec fn unresolved() -> Fault {
    fault(
        CALLER_UNAUTHENTICATED@,
        "the presented credential does not resolve to a configured caller"@,
    )
}

impl Config {
    /// Validates a configuration document.
    pub fn parse(document: &Json) -> (r: Result<Config, Error>)
        ensures
            match config_fault(document@) {
                Some(f) => r matches Err(e) && e@ == f,
                None => r matches Ok(c) && is_config(c, document@),
            },
    {
        let members = match document.as_record() {
            Some(members) => members,
            None => {
                return Err(refusal("config-malformed", "configuration must be an object"));
            },
        };
        if let Some(key) = unknown_member(members, &MEMBERS) {
            return Err(
                Error::new(
                    "config-malformed",
                    join2("unknown configuration member ", debug_text(key.as_str()).as_str()),
                ),
            );
        }
        let policy_key = match document.text_at("policy-key") {
            Some(key) => key,
            None => {
                return Err(refusal("config-malformed", "policy-key is required"));
            },
        };
        let policy_key = KeyId::parse(policy_key)?;
        let roots = parse_roots(document.at("roots"))?;
        let callers = parse_callers(document.at("callers"))?;
        let notifications = parse_channels(document.at("notifications"))?;
        let gate_rate_limit = parse_rate_limit(document.get("gate-rate-limit"))?;
        let decay_interval_seconds: i64 = parse_decay_interval(document.get("decay-interval"))?;
        Ok(
            Config {
                bind: text_member(document, "bind", "127.0.0.1:8787"),
                database: text_member(document, "database", "var/stozher.db"),
                kernel_seed: text_member(document, "kernel-seed", "keys/kernel.seed"),
                policy_key,
                kernel_core_stream: text_member(document, "kernel-core-stream", "kernel:core"),
                checkpoint_stream: text_member(
                    document,
                    "checkpoint-stream",
                    "kernel:checkpoints",
                ),
                rejection_stream: text_member(document, "rejection-stream", "kernel:rejections"),
                max_future_skew_seconds: match document.at("max-future-skew-seconds").as_i64() {
                    Some(n) => n,
                    None => 300,
                },
                roots,
                callers,
                notifications,
                console_base_url: optional(document, "console-base-url"),
                gate_rate_limit,
                decay_interval_seconds,
            },
        )
    }

    /// Resolves a bearer token to its caller, comparing every configured digest whatever it finds.
    pub fn authenticate(&self, token: &str) -> (r: Result<&str, Error>)
        ensures
            match caller_with(
                self.callers@,
                sha256_hex_of(vstd::utf8::encode_utf8(token@)),
                self.callers@.len() as int,
            ) {
                Some(subject) => r matches Ok(s) && s@ == subject,
                None => r matches Err(e) && e@ == unresolved(),
            },
    {
        let presented = sha256_hex(token.as_bytes());
        self.resolve_digest(presented.as_str())
    }

    /// Resolves the digest of a bearer token to its caller, comparing every configured digest
    /// whatever it finds.
    pub fn resolve_digest(&self, presented: &str) -> (r: Result<&str, Error>)
        ensures
            match caller_with(self.callers@, presented@, self.callers@.len() as int) {
                Some(subject) => r matches Ok(s) && s@ == subject,
                None => r matches Err(e) && e@ == unresolved(),
            },
    {
        let mut found: Option<&str> = None;
        let mut i: usize = 0;
        while i < self.callers.len()
            invariant
                i <= self.callers@.len(),
                opt_text(found) == caller_with(self.callers@, presented@, i as int),
            decreases self.callers@.len() - i,
        {
            let digest = self.callers[i].token_sha256.as_str();
            proof {
                crate::text::lemma_same_bytes(digest@, presented@);
            }
            if constant_time_eq(digest.as_bytes(), presented.as_bytes()) {
                found = Some(self.callers[i].subject.as_str());
            }
            i += 1;
        }
        match found {
            Some(subject) => Ok(subject),
            None => Err(
                refusal(
                    CALLER_UNAUTHENTICATED,
                    "the presented credential does not resolve to a configured caller",
                ),
            ),
        }
    }
}

// -- laws -------------------------------------------------------------------------------------

/// A configuration is closed: a document with a member no configuration has is refused.
pub proof fn lemma_unknown_members_are_refused(d: Doc, i: int)
    requires
        d is Record,
        0 <= i < d->Record_0.len(),
        !crate::json::named(MEMBERS@, d->Record_0[i].0),
    ensures
        config_fault(d) matches Some(f) && f.code == "config-malformed"@,
{
    lemma_stranger_found(d->Record_0, MEMBERS@, 0, i);
}

/// A member that has no name among those allowed is found, or one before it is.
proof fn lemma_stranger_found(
    members: Seq<(Seq<char>, Doc)>,
    names: Seq<&str>,
    from: int,
    i: int,
)
    requires
        0 <= from <= i < members.len(),
        !crate::json::named(names, members[i].0),
    ensures
        stranger(members, names, from) is Some,
    decreases i - from,
{
    if from < i && crate::json::named(names, members[from].0) {
        lemma_stranger_found(members, names, from + 1, i);
    }
}

/// The bounds of a configuration cannot be switched off: a rate limit that is accepted has a cap
/// of at least one and a window of at least a second, and decay always comes round.
pub proof fn lemma_bounds_are_positive(d: Doc)
    requires
        config_fault(d) is None,
    ensures
        rate_limit(d.get("gate-rate-limit"@)) matches Ok(l) && l.per_subject >= 1
            && l.window_seconds >= 1,
        decay_interval(d.get("decay-interval"@)) matches Ok(s) && s >= 1,
{
}

/// A digest resolves to somebody exactly where some caller is configured with it, and then to a
/// caller with it.
pub proof fn lemma_resolves_exactly_configured_digests(
    callers: Seq<ConfiguredCaller>,
    digest: Seq<char>,
    upto: int,
)
    requires
        0 <= upto <= callers.len(),
    ensures
        caller_with(callers, digest, upto) is Some <==> exists|i: int|
            0 <= i < upto && (#[trigger] callers[i]).token_sha256@ == digest,
        caller_with(callers, digest, upto) matches Some(s) ==> exists|i: int|
            0 <= i < upto && (#[trigger] callers[i]).token_sha256@ == digest
                && callers[i].subject@ == s,
    decreases upto,
{
    if upto > 0 {
        lemma_resolves_exactly_configured_digests(callers, digest, upto - 1);
        if callers[upto - 1].token_sha256@ == digest {
            assert(callers[upto - 1].token_sha256@ == digest);
        }
    }
}

/// A cap on how often a subject may ask is accepted exactly where it is an object of nothing but a
/// count from one up and a duration that lasts. Where it is left out, or a part of it, thirty
/// requests in five minutes stand in for that.
pub proof fn lemma_what_a_rate_limit_is(d: Doc)
    ensures
        rate_limit(None) == Ok::<Limit, Fault>(Limit { per_subject: 30, window_seconds: 300 }),
        rate_limit(Some(d)) is Ok <==> {
            &&& d matches Doc::Record(members) && forall|i: int|
                0 <= i < members.len() ==> (#[trigger] members[i]).0 == "per-subject"@
                    || members[i].0 == "window"@
            &&& d.get("per-subject"@) matches Some(count) ==> (count matches Doc::Int(n) && 1 <= n
                <= u32::MAX)
            &&& d.get("window"@) matches Some(window) ==> (window matches Doc::Text(t) && (duration(
                t,
            ) matches Ok(seconds) && seconds > 0))
        },
        rate_limit(Some(d)) matches Ok(limit) ==> {
            &&& limit.per_subject == match d.get("per-subject"@) {
                Some(count) => count->Int_0,
                None => 30,
            }
            &&& limit.window_seconds == match d.get("window"@) {
                Some(window) => duration(window->Text_0)->Ok_0,
                None => 300,
            }
        },
{
    let names = RATE_LIMIT_MEMBERS@;
    assert(names[0]@ == "per-subject"@);
    assert(names[1]@ == "window"@);
    if let Doc::Record(members) = d {
        crate::json::lemma_strangers_are_found(members, names, 0);
    }
}

/// How often payloads decay is given by a duration that lasts, and is once a day where it is not
/// given.
pub proof fn lemma_what_a_decay_interval_is(d: Doc)
    ensures
        decay_interval(None) == Ok::<int, Fault>(86_400),
        decay_interval(Some(d)) is Ok <==> (d matches Doc::Text(t) && (duration(t) matches Ok(
            seconds,
        ) && seconds > 0)),
        decay_interval(Some(d)) matches Ok(s) ==> duration(d->Text_0) == Ok::<int, Fault>(s),
{
}

/// Among the strings of a list is each that stands in it, wherever it stands.
proof fn lemma_listed_string(items: Seq<Doc>, upto: int, i: int, s: Seq<char>)
    requires
        0 <= i < upto <= items.len(),
        items[i] == Doc::Text(s),
    ensures
        strings(items, upto).contains(s),
    decreases upto,
{
    let before = strings(items, upto - 1);
    let out = strings(items, upto);
    if i < upto - 1 {
        lemma_listed_string(items, upto - 1, i, s);
        let k = choose|k: int| 0 <= k < before.len() && before[k] == s;
        assert(out[k] == s);
    } else {
        assert(out[before.len() as int] == s);
    }
}

/// A string of a list stands in it.
proof fn lemma_string_is_listed(items: Seq<Doc>, upto: int, k: int) -> (r: int)
    requires
        0 <= upto <= items.len(),
        0 <= k < strings(items, upto).len(),
    ensures
        0 <= r < upto,
        items[r] == Doc::Text(strings(items, upto)[k]),
    decreases upto,
{
    let before = strings(items, upto - 1);
    if k < before.len() {
        lemma_string_is_listed(items, upto - 1, k)
    } else {
        upto - 1
    }
}

/// The strings of a list are exactly its items that are strings.
pub proof fn lemma_which_strings_are_listed(items: Seq<Doc>, s: Seq<char>)
    ensures
        strings(items, items.len() as int).contains(s) <==> exists|i: int|
            0 <= i < items.len() && #[trigger] items[i] == Doc::Text(s),
        strings(items, items.len() as int).len() > 0 <==> exists|i: int|
            0 <= i < items.len() && (#[trigger] items[i]) is Text,
{
    let n = items.len() as int;
    let out = strings(items, n);
    if out.contains(s) {
        let k = choose|k: int| 0 <= k < out.len() && out[k] == s;
        let i = lemma_string_is_listed(items, n, k);
        assert(items[i] == Doc::Text(s));
    }
    assert forall|i: int| 0 <= i < items.len() && #[trigger] items[i] == Doc::Text(
        s,
    ) implies out.contains(s) by {
        lemma_listed_string(items, n, i, s);
    }
    if out.len() > 0 {
        let i = lemma_string_is_listed(items, n, 0);
        assert(items[i] is Text);
    }
    assert forall|i: int| 0 <= i < items.len() && (#[trigger] items[i]) is Text implies out.len()
        > 0 by {
        lemma_listed_string(items, n, i, items[i]->Text_0);
    }
}

/// A channel is one of three, each of nothing but its own members: Slack and webhooks by the name of
/// the variable that holds the address, never by the address itself, and mail by a host, a sender
/// and somebody to send to.
pub proof fn lemma_what_a_channel_is(d: Doc)
    ensures
        channel(d) is Ok <==> d is Record && {
            ||| {
                &&& d.at("channel"@) == Doc::Text("slack"@)
                &&& d.at("webhook-url-env"@) matches Doc::Text(t) && t.len() > 0
                &&& forall|i: int|
                    0 <= i < d->Record_0.len() ==> (#[trigger] d->Record_0[i]).0 == "channel"@
                        || d->Record_0[i].0 == "webhook-url-env"@
            }
            ||| {
                &&& d.at("channel"@) == Doc::Text("webhook"@)
                &&& d.at("url-env"@) matches Doc::Text(t) && t.len() > 0
                &&& forall|i: int|
                    0 <= i < d->Record_0.len() ==> (#[trigger] d->Record_0[i]).0 == "channel"@
                        || d->Record_0[i].0 == "url-env"@ || d->Record_0[i].0 == "token-env"@
            }
            ||| {
                &&& d.at("channel"@) == Doc::Text("smtp"@)
                &&& d.at("host"@) matches Doc::Text(t) && t.len() > 0
                &&& d.at("from"@) matches Doc::Text(t) && t.len() > 0
                &&& !(d.at("port"@) matches Doc::Int(port) && u16::MAX < port <= u64::MAX)
                &&& exists|i: int|
                    0 <= i < d.at("to"@).items().len() && (#[trigger] d.at("to"@).items()[i])
                        is Text
                &&& forall|i: int|
                    0 <= i < d->Record_0.len() ==> {
                        ||| (#[trigger] d->Record_0[i]).0 == "channel"@
                        ||| d->Record_0[i].0 == "host"@
                        ||| d->Record_0[i].0 == "port"@
                        ||| d->Record_0[i].0 == "from"@
                        ||| d->Record_0[i].0 == "to"@
                        ||| d->Record_0[i].0 == "username"@
                        ||| d->Record_0[i].0 == "password-env"@
                    }
            }
        },
        channel(d) matches Ok(Channel::Slack { url_env }) ==> d.at("channel"@) == Doc::Text("slack"@)
            && d.at("webhook-url-env"@) == Doc::Text(url_env),
        channel(d) matches Ok(Channel::Webhook { url_env, token_env }) ==> d.at("channel"@)
            == Doc::Text("webhook"@) && d.at("url-env"@) == Doc::Text(url_env) && token_env
            == d.text_at("token-env"@),
        channel(d) matches Ok(Channel::Smtp { host, port, from, to, username, password_env }) ==> {
            &&& d.at("channel"@) == Doc::Text("smtp"@)
            &&& d.at("host"@) == Doc::Text(host) && d.at("from"@) == Doc::Text(from)
            &&& port == if d.at("port"@) matches Doc::Int(n) && 0 <= n {
                d.at("port"@)->Int_0
            } else {
                25
            } || (d.at("port"@) matches Doc::Int(n) && n > u64::MAX && port == 25)
            &&& to == strings(d.at("to"@).items(), d.at("to"@).items().len() as int)
            &&& username == d.text_at("username"@) && password_env == d.text_at("password-env"@)
        },
{
    reveal_strlit("slack");
    reveal_strlit("webhook");
    reveal_strlit("smtp");
    assert("slack"@.len() == 5);
    assert("webhook"@.len() == 7);
    assert("smtp"@.len() == 4);
    let slack = SLACK_MEMBERS@;
    assert(slack[0]@ == "channel"@);
    assert(slack[1]@ == "webhook-url-env"@);
    let webhook = WEBHOOK_MEMBERS@;
    assert(webhook[0]@ == "channel"@);
    assert(webhook[1]@ == "url-env"@);
    assert(webhook[2]@ == "token-env"@);
    let smtp = SMTP_MEMBERS@;
    assert(smtp[0]@ == "channel"@);
    assert(smtp[1]@ == "host"@);
    assert(smtp[2]@ == "port"@);
    assert(smtp[3]@ == "from"@);
    assert(smtp[4]@ == "to"@);
    assert(smtp[5]@ == "username"@);
    assert(smtp[6]@ == "password-env"@);
    if let Doc::Record(members) = d {
        crate::json::lemma_strangers_are_found(members, slack, 0);
        crate::json::lemma_strangers_are_found(members, webhook, 0);
        crate::json::lemma_strangers_are_found(members, smtp, 0);
    }
    lemma_which_strings_are_listed(d.at("to"@).items(), Seq::empty());
}

proof fn lemma_roots_fault(entries: Seq<Doc>, from: int)
    requires
        0 <= from <= entries.len(),
    ensures
        roots_fault(entries, from) is None <==> forall|i: int|
            from <= i < entries.len() ==> root_fault(#[trigger] entries[i]) is None,
    decreases entries.len() - from,
{
    if from < entries.len() {
        lemma_roots_fault(entries, from + 1);
    }
}

proof fn lemma_callers_fault(entries: Seq<Doc>, from: int)
    requires
        0 <= from <= entries.len(),
    ensures
        callers_fault(entries, from) is None <==> forall|i: int|
            from <= i < entries.len() ==> caller_fault(#[trigger] entries[i]) is None,
    decreases entries.len() - from,
{
    if from < entries.len() {
        lemma_callers_fault(entries, from + 1);
    }
}

proof fn lemma_channels_fault(entries: Seq<Doc>, from: int)
    requires
        0 <= from <= entries.len(),
    ensures
        channels_fault(entries, from) is None <==> forall|i: int|
            from <= i < entries.len() ==> channel(#[trigger] entries[i]) is Ok,
    decreases entries.len() - from,
{
    if from < entries.len() {
        lemma_channels_fault(entries, from + 1);
    }
}

/// A configuration is accepted exactly where it is an object of nothing but what a configuration
/// says, gives the key of the policy, and every root in it has a key, a human and an instant, every
/// caller a subject and the digest of a token, every channel its own form, and every bound lasts.
pub proof fn lemma_what_a_configuration_is(d: Doc)
    ensures
        config_fault(d) is None <==> {
            &&& d matches Doc::Record(members) && forall|i: int|
                0 <= i < members.len() ==> {
                    ||| (#[trigger] members[i]).0 == "bind"@
                    ||| members[i].0 == "database"@
                    ||| members[i].0 == "kernel-seed"@
                    ||| members[i].0 == "policy-key"@
                    ||| members[i].0 == "kernel-core-stream"@
                    ||| members[i].0 == "checkpoint-stream"@
                    ||| members[i].0 == "rejection-stream"@
                    ||| members[i].0 == "max-future-skew-seconds"@
                    ||| members[i].0 == "roots"@
                    ||| members[i].0 == "callers"@
                    ||| members[i].0 == "notifications"@
                    ||| members[i].0 == "console-base-url"@
                    ||| members[i].0 == "gate-rate-limit"@
                    ||| members[i].0 == "decay-interval"@
                }
            &&& d.at("policy-key"@) matches Doc::Text(key) && is_key_id(key)
            &&& forall|i: int|
                0 <= i < d.at("roots"@).items().len() ==> {
                    let root = #[trigger] d.at("roots"@).items()[i];
                    &&& root.at("key"@) matches Doc::Text(key) && is_key_id(key)
                    &&& root.at("subject"@) matches Doc::Text(who) && who.len() > 6 && who.take(6)
                        == "human:"@
                    &&& root.at("enrolled-at"@) matches Doc::Text(at) && is_timestamp(at)
                }
            &&& forall|i: int|
                0 <= i < d.at("callers"@).items().len() ==> {
                    let caller = #[trigger] d.at("callers"@).items()[i];
                    &&& caller.at("subject"@) is Text
                    &&& caller.at("token-sha256"@) matches Doc::Text(digest) && is_digest(digest)
                }
            &&& forall|i: int|
                0 <= i < d.at("notifications"@).items().len() ==> channel(
                    #[trigger] d.at("notifications"@).items()[i],
                ) is Ok
            &&& rate_limit(d.get("gate-rate-limit"@)) is Ok
            &&& decay_interval(d.get("decay-interval"@)) is Ok
        },
{
    let names = MEMBERS@;
    assert(names[0]@ == "bind"@);
    assert(names[1]@ == "database"@);
    assert(names[2]@ == "kernel-seed"@);
    assert(names[3]@ == "policy-key"@);
    assert(names[4]@ == "kernel-core-stream"@);
    assert(names[5]@ == "checkpoint-stream"@);
    assert(names[6]@ == "rejection-stream"@);
    assert(names[7]@ == "max-future-skew-seconds"@);
    assert(names[8]@ == "roots"@);
    assert(names[9]@ == "callers"@);
    assert(names[10]@ == "notifications"@);
    assert(names[11]@ == "console-base-url"@);
    assert(names[12]@ == "gate-rate-limit"@);
    assert(names[13]@ == "decay-interval"@);
    if let Doc::Record(members) = d {
        crate::json::lemma_strangers_are_found(members, names, 0);
    }
    reveal_strlit("human:");
    assert("human:"@.len() == 6);
    let roots = d.at("roots"@).items();
    let callers = d.at("callers"@).items();
    lemma_roots_fault(roots, 0);
    lemma_callers_fault(callers, 0);
    lemma_channels_fault(d.at("notifications"@).items(), 0);
    assert forall|i: int| 0 <= i < roots.len() implies (root_fault(#[trigger] roots[i]) is None
        <==> {
        let root = roots[i];
        &&& root.at("key"@) matches Doc::Text(key) && is_key_id(key)
        &&& root.at("subject"@) matches Doc::Text(who) && who.len() > 6 && who.take(6) == "human:"@
        &&& root.at("enrolled-at"@) matches Doc::Text(at) && is_timestamp(at)
    }) by {}
    assert forall|i: int| 0 <= i < callers.len() implies (caller_fault(#[trigger] callers[i])
        is None <==> {
        let caller = callers[i];
        &&& caller.at("subject"@) is Text
        &&& caller.at("token-sha256"@) matches Doc::Text(digest) && is_digest(digest)
    }) by {}
}

/// What a configuration comes to: each member as it is given, its default where it is not, and every
/// root, caller and channel in its place.
pub proof fn lemma_what_a_configuration_gives(c: Config, d: Doc)
    requires
        is_config(c, d),
    ensures
        c.bind@ == match d.at("bind"@) {
            Doc::Text(t) => t,
            _ => "127.0.0.1:8787"@,
        },
        c.database@ == match d.at("database"@) {
            Doc::Text(t) => t,
            _ => "var/stozher.db"@,
        },
        c.kernel_seed@ == match d.at("kernel-seed"@) {
            Doc::Text(t) => t,
            _ => "keys/kernel.seed"@,
        },
        d.at("policy-key"@) == Doc::Text(c.policy_key@),
        c.kernel_core_stream@ == match d.at("kernel-core-stream"@) {
            Doc::Text(t) => t,
            _ => "kernel:core"@,
        },
        c.checkpoint_stream@ == match d.at("checkpoint-stream"@) {
            Doc::Text(t) => t,
            _ => "kernel:checkpoints"@,
        },
        c.rejection_stream@ == match d.at("rejection-stream"@) {
            Doc::Text(t) => t,
            _ => "kernel:rejections"@,
        },
        d.get("max-future-skew-seconds"@) is None ==> c.max_future_skew_seconds == 300,
        d.at("max-future-skew-seconds"@) matches Doc::Int(n) ==> i64::MIN <= n <= i64::MAX
            ==> c.max_future_skew_seconds == n,
        c.roots@.len() == d.at("roots"@).items().len(),
        forall|i: int|
            0 <= i < c.roots@.len() ==> {
                let entry = d.at("roots"@).items()[i];
                &&& entry.at("key"@) == Doc::Text((#[trigger] c.roots@[i]).key@)
                &&& entry.at("subject"@) == Doc::Text(c.roots@[i].subject@)
                &&& entry.at("enrolled-at"@) == Doc::Text(c.roots@[i].enrolled_at@)
            },
        c.callers@.len() == d.at("callers"@).items().len(),
        forall|i: int|
            0 <= i < c.callers@.len() ==> {
                let entry = d.at("callers"@).items()[i];
                &&& entry.at("subject"@) == Doc::Text((#[trigger] c.callers@[i]).subject@)
                &&& entry.at("token-sha256"@) == Doc::Text(c.callers@[i].token_sha256@)
            },
        c.notifications@.len() == d.at("notifications"@).items().len(),
        d.get("gate-rate-limit"@) is None ==> c.gate_rate_limit.per_subject == 30
            && c.gate_rate_limit.window_seconds == 300,
        d.get("decay-interval"@) is None ==> c.decay_interval_seconds == 86_400,
{
    assert forall|i: int| 0 <= i < c.roots@.len() implies ({
        let entry = d.at("roots"@).items()[i];
        &&& entry.at("key"@) == Doc::Text((#[trigger] c.roots@[i]).key@)
        &&& entry.at("subject"@) == Doc::Text(c.roots@[i].subject@)
        &&& entry.at("enrolled-at"@) == Doc::Text(c.roots@[i].enrolled_at@)
    }) by {
        assert(is_root(c.roots@[i], d.at("roots"@).items()[i]));
    }
    assert forall|i: int| 0 <= i < c.callers@.len() implies ({
        let entry = d.at("callers"@).items()[i];
        &&& entry.at("subject"@) == Doc::Text((#[trigger] c.callers@[i]).subject@)
        &&& entry.at("token-sha256"@) == Doc::Text(c.callers@[i].token_sha256@)
    }) by {
        assert(is_caller(c.callers@[i], d.at("callers"@).items()[i]));
    }
}

} // verus!
