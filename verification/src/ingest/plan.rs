//! What an accepted envelope will write: everything derived while validating it.

use vstd::prelude::*;

use crate::budget::{figures, Amounts};
use crate::config::opt_string;
use crate::gatequeue::GateDecision;
use crate::ingest::changes::{
    Install, PolicyInstall, Registered, Registration, Resume, RootChange, SetChange, StreamResume,
};
use crate::json::{Doc, Json};
use crate::text::texts;

verus! {

/// A payload to store.
#[derive(Debug)]
pub struct PayloadRow {
    /// The hash that commits to it.
    pub payload_hash: String,
    /// Its media type.
    pub media_type: String,
    /// Its bytes.
    pub bytes: Vec<u8>,
    /// Until when it is kept.
    pub retain_until: String,
}

/// A payload to store.
pub struct Stored {
    /// The hash that commits to it.
    pub payload_hash: Seq<char>,
    /// Its media type.
    pub media_type: Seq<char>,
    /// Its bytes.
    pub bytes: Seq<u8>,
    /// Until when it is kept.
    pub retain_until: Seq<char>,
}

impl View for PayloadRow {
    type V = Stored;

    open spec fn view(&self) -> Stored {
        Stored {
            payload_hash: self.payload_hash@,
            media_type: self.media_type@,
            bytes: self.bytes@,
            retain_until: self.retain_until@,
        }
    }
}

/// What some payloads to store are.
pub open spec fn stored(rows: Seq<PayloadRow>) -> Seq<Stored> {
    Seq::new(rows.len(), |i: int| rows[i]@)
}

/// An approval that an envelope uses up.
#[derive(Debug)]
pub struct GateUse {
    /// The request it approved.
    pub request_hash: String,
    /// The key that approved.
    pub decided_by: String,
    /// Whether it may be used once only.
    pub single_use: bool,
    /// Until when it holds.
    pub not_after: String,
}

/// An approval that an envelope uses up.
pub struct Use {
    /// The request it approved.
    pub request_hash: Seq<char>,
    /// The key that approved.
    pub decided_by: Seq<char>,
    /// Whether it may be used once only.
    pub single_use: bool,
    /// Until when it holds.
    pub not_after: Seq<char>,
}

impl View for GateUse {
    type V = Use;

    open spec fn view(&self) -> Use {
        Use {
            request_hash: self.request_hash@,
            decided_by: self.decided_by@,
            single_use: self.single_use,
            not_after: self.not_after@,
        }
    }
}

/// What an envelope charges, and to which mandates.
#[derive(Debug)]
pub struct SpendAccrual {
    /// The citing mandate and every ancestor of it.
    pub mandates: Vec<String>,
    /// The figures, by dimension.
    pub amounts: Amounts,
}

/// What an envelope charges, and to which mandates.
pub struct Spend {
    /// The citing mandate and every ancestor of it.
    pub mandates: Seq<Seq<char>>,
    /// The figures, by dimension.
    pub amounts: Seq<(Seq<char>, Seq<char>)>,
}

impl View for SpendAccrual {
    type V = Spend;

    open spec fn view(&self) -> Spend {
        Spend { mandates: texts(self.mandates@), amounts: figures(self.amounts@) }
    }
}

/// A checkpoint to record.
#[derive(Debug)]
pub struct CheckpointRow {
    /// The stream it attests.
    pub stream: String,
    /// The first position of the attested range.
    pub from_seq: u64,
    /// The last position of the attested range.
    pub to_seq: u64,
    /// The hash at the last position.
    pub head_hash: String,
    /// When it was observed.
    pub observed_at: String,
}

/// A checkpoint to record.
pub struct Attested {
    /// The stream it attests.
    pub stream: Seq<char>,
    /// The first position of the attested range.
    pub from_seq: int,
    /// The last position of the attested range.
    pub to_seq: int,
    /// The hash at the last position.
    pub head_hash: Seq<char>,
    /// When it was observed.
    pub observed_at: Seq<char>,
}

impl View for CheckpointRow {
    type V = Attested;

    open spec fn view(&self) -> Attested {
        Attested {
            stream: self.stream@,
            from_seq: self.from_seq as int,
            to_seq: self.to_seq as int,
            head_hash: self.head_hash@,
            observed_at: self.observed_at@,
        }
    }
}

/// An object recorded under an identifier.
#[derive(Debug)]
pub struct Recorded {
    /// The identifier.
    pub id: String,
    /// The object.
    pub object: Json,
}

/// An object recorded under an identifier.
pub struct Entry {
    /// The identifier.
    pub id: Seq<char>,
    /// The object.
    pub object: Doc,
}

impl View for Recorded {
    type V = Entry;

    open spec fn view(&self) -> Entry {
        Entry { id: self.id@, object: self.object@ }
    }
}

/// The answer to a request, to record.
pub struct Answer {
    /// The request.
    pub request_hash: Seq<char>,
    /// `approve` or `deny`.
    pub verdict: Seq<char>,
    /// Why.
    pub reason: Option<Seq<char>>,
    /// The key that decided.
    pub decided_by: Seq<char>,
    /// When.
    pub decided_at: Seq<char>,
    /// The signed object.
    pub decision: Doc,
}

impl View for GateDecision {
    type V = Answer;

    open spec fn view(&self) -> Answer {
        Answer {
            request_hash: self.request_hash@,
            verdict: self.verdict@,
            reason: opt_string(self.reason),
            decided_by: self.decided_by@,
            decided_at: self.decided_at@,
            decision: self.decision@,
        }
    }
}

/// What an accepted envelope changes beside the chain itself.
#[derive(Debug)]
pub struct Projections {
    /// A mandate granted.
    pub mandate: Option<Recorded>,
    /// A policy version coming into force.
    pub policy: Option<PolicyInstall>,
    /// A component registered.
    pub manifest: Option<Registration>,
    /// A change of the root set.
    pub root: Option<RootChange>,
    /// A revocation.
    pub revocation: Option<Recorded>,
    /// An answer to a queued request.
    pub gate_decision: Option<GateDecision>,
    /// A checkpoint.
    pub checkpoint: Option<CheckpointRow>,
    /// A stream that may continue.
    pub stream_resume: Option<StreamResume>,
}

/// What an accepted envelope changes beside the chain itself.
pub struct Changes {
    /// A mandate granted.
    pub mandate: Option<Entry>,
    /// A policy version coming into force.
    pub policy: Option<Install>,
    /// A component registered.
    pub manifest: Option<Registered>,
    /// A change of the root set.
    pub root: Option<SetChange>,
    /// A revocation.
    pub revocation: Option<Entry>,
    /// An answer to a queued request.
    pub gate_decision: Option<Answer>,
    /// A checkpoint.
    pub checkpoint: Option<Attested>,
    /// A stream that may continue.
    pub stream_resume: Option<Resume>,
}

/// What an optional value stands for.
pub open spec fn opt_view<T: View>(value: Option<T>) -> Option<T::V> {
    match value {
        Some(v) => Some(v@),
        None => None,
    }
}

impl View for Projections {
    type V = Changes;

    open spec fn view(&self) -> Changes {
        Changes {
            mandate: opt_view(self.mandate),
            policy: opt_view(self.policy),
            manifest: opt_view(self.manifest),
            root: opt_view(self.root),
            revocation: opt_view(self.revocation),
            gate_decision: opt_view(self.gate_decision),
            checkpoint: opt_view(self.checkpoint),
            stream_resume: opt_view(self.stream_resume),
        }
    }
}

/// No change at all.
pub open spec fn no_changes() -> Changes {
    Changes {
        mandate: None,
        policy: None,
        manifest: None,
        root: None,
        revocation: None,
        gate_decision: None,
        checkpoint: None,
        stream_resume: None,
    }
}

impl Projections {
    /// No change at all.
    pub fn none() -> (r: Projections)
        ensures
            r@ == no_changes(),
    {
        Projections {
            mandate: None,
            policy: None,
            manifest: None,
            root: None,
            revocation: None,
            gate_decision: None,
            checkpoint: None,
            stream_resume: None,
        }
    }
}

/// What an accepted envelope will write.
#[derive(Debug)]
pub struct Plan {
    /// The human its mandate chain reaches.
    pub human_root: Option<String>,
    /// The class policy computed for it.
    pub effective_class: Option<String>,
    /// What it confesses to, where policy did not permit what it did.
    pub policy_violation: Option<String>,
    /// The payloads to store.
    pub payloads: Vec<PayloadRow>,
    /// The approval it uses up.
    pub gate_use: Option<GateUse>,
    /// What it changes.
    pub projections: Projections,
    /// What it charges.
    pub spend: Option<SpendAccrual>,
}

/// What an accepted envelope will write.
pub struct Written {
    /// The human its mandate chain reaches.
    pub human_root: Option<Seq<char>>,
    /// The class policy computed for it.
    pub effective_class: Option<Seq<char>>,
    /// What it confesses to.
    pub policy_violation: Option<Seq<char>>,
    /// The payloads to store.
    pub payloads: Seq<Stored>,
    /// The approval it uses up.
    pub gate_use: Option<Use>,
    /// What it changes.
    pub projections: Changes,
    /// What it charges.
    pub spend: Option<Spend>,
}

impl View for Plan {
    type V = Written;

    open spec fn view(&self) -> Written {
        Written {
            human_root: opt_string(self.human_root),
            effective_class: opt_string(self.effective_class),
            policy_violation: opt_string(self.policy_violation),
            payloads: stored(self.payloads@),
            gate_use: opt_view(self.gate_use),
            projections: self.projections@,
            spend: opt_view(self.spend),
        }
    }
}

/// Nothing to write beside the chain itself.
pub open spec fn bare() -> Written {
    Written {
        human_root: None,
        effective_class: None,
        policy_violation: None,
        payloads: Seq::empty(),
        gate_use: None,
        projections: no_changes(),
        spend: None,
    }
}

impl Plan {
    /// Nothing to write beside the chain itself.
    pub fn bare() -> (r: Plan)
        ensures
            r@ == bare(),
    {
        let r = Plan {
            human_root: None,
            effective_class: None,
            policy_violation: None,
            payloads: Vec::new(),
            gate_use: None,
            projections: Projections::none(),
            spend: None,
        };
        assert(stored(r.payloads@) =~= Seq::empty());
        r
    }
}

} // verus!
