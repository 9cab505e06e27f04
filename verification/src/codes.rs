//! Reason codes: those that refuse a submitted object, and those that report the kernel's own state.
//!
//! A code that starts with `x-` refuses nothing: it says that the kernel could not answer, or that
//! a caller presented no credential. Every other code is a verdict about an object.

use vstd::prelude::*;

verus! {

/// A policy that lets a gated class through while the kernel is out of reach.
pub const POLICY_OFFLINE_ALLOWS_GATED: &'static str = "policy-offline-allows-gated";

/// A policy change whose target is not the version of the document it installs.
pub const POLICY_CHANGE_TARGET_MISMATCH: &'static str = "policy-change-target-mismatch";

/// A policy change whose arguments do not commit to the document it installs.
pub const POLICY_CHANGE_DOCUMENT_UNBOUND: &'static str = "policy-change-document-unbound";

/// An aggregation window longer than policy allows.
pub const AGGREGATE_WINDOW_TOO_LONG: &'static str = "aggregate-window-too-long";

/// An aggregation window that ends before it begins.
pub const AGGREGATE_WINDOW_INVERTED: &'static str = "aggregate-window-inverted";

/// A checkpoint of a stream the store does not hold.
pub const CHECKPOINT_STREAM_UNKNOWN: &'static str = "checkpoint-stream-unknown";

/// A manifest that is not a well-formed manifest at all.
pub const MANIFEST_MALFORMED: &'static str = "manifest-malformed";

/// A change of the root set that names no well-formed key or no named human.
pub const ROOT_ENROLLMENT_MALFORMED: &'static str = "root-enrollment-malformed";

/// A second answer to a request a named human has already answered.
pub const GATE_DECISION_ALREADY_RECORDED: &'static str = "gate-decision-already-recorded";

/// A stream resume whose document its approval does not commit to.
pub const STREAM_RESUME_UNBOUND: &'static str = "stream-resume-unbound";

/// A stream resume whose document is not one.
pub const STREAM_RESUME_MALFORMED: &'static str = "stream-resume-malformed";

/// The store could not answer. Not a rejection: it says nothing about what was submitted.
pub const STORE_UNAVAILABLE: &'static str = "x-store-unavailable";

/// Too many gate requests from one subject in one window.
pub const GATE_RATE_LIMITED: &'static str = "gate-rate-limited";

/// An aggregation record that counts more actions than a consumer should have to walk.
pub const AGGREGATE_CARDINALITY: &'static str = "aggregate-cardinality";

/// An aggregation record with a negative count.
pub const AGGREGATE_COUNT_NEGATIVE: &'static str = "aggregate-count-negative";

/// A checkpoint whose attested range begins elsewhere than the range it is checked against.
pub const CHECKPOINT_RANGE_MISMATCH: &'static str = "checkpoint-range-mismatch";

/// A payload of a media type the kernel will not serve.
pub const MEDIA_TYPE_NOT_ALLOWED: &'static str = "media-type-not-allowed";

/// An approver ping that reached no channel.
pub const NOTIFY_FAILED: &'static str = "notify-failed";

/// The caller presented no credential, or one that does not resolve.
pub const CALLER_UNAUTHENTICATED: &'static str = "x-caller-unauthenticated";

/// An effect reported as applied past a budget in its mandate chain: a mark, not a rejection.
pub const BUDGET_EXCEEDED_APPLIED: &'static str = "x-budget-exceeded-applied";

/// The store is of a later schema than this build understands.
pub const SCHEMA_VERSION_AHEAD: &'static str = "x-schema-version-ahead";

/// A migration step failed, or append-only enforcement was not intact after it.
pub const SCHEMA_MIGRATION_FAILED: &'static str = "x-schema-migration-failed";

/// The component under test could not be driven.
pub const CONFORMANCE_DRIVER_FAILED: &'static str = "x-conformance-driver-failed";

/// The harness could not build the kernel a run is performed against.
pub const CONFORMANCE_HARNESS_FAILED: &'static str = "x-conformance-harness-failed";

/// The codes that report a condition of the kernel, not a verdict about an object.
pub const REGISTER: [&'static str; 7] = [
    STORE_UNAVAILABLE,
    CALLER_UNAUTHENTICATED,
    BUDGET_EXCEEDED_APPLIED,
    SCHEMA_VERSION_AHEAD,
    SCHEMA_MIGRATION_FAILED,
    CONFORMANCE_DRIVER_FAILED,
    CONFORMANCE_HARNESS_FAILED,
];

/// The codes that refuse an object and are part of the wire contract.
pub const ADOPTED: [&'static str; 15] = [
    POLICY_OFFLINE_ALLOWS_GATED,
    POLICY_CHANGE_TARGET_MISMATCH,
    POLICY_CHANGE_DOCUMENT_UNBOUND,
    AGGREGATE_WINDOW_TOO_LONG,
    AGGREGATE_WINDOW_INVERTED,
    CHECKPOINT_STREAM_UNKNOWN,
    MANIFEST_MALFORMED,
    ROOT_ENROLLMENT_MALFORMED,
    GATE_DECISION_ALREADY_RECORDED,
    GATE_RATE_LIMITED,
    AGGREGATE_CARDINALITY,
    AGGREGATE_COUNT_NEGATIVE,
    CHECKPOINT_RANGE_MISMATCH,
    MEDIA_TYPE_NOT_ALLOWED,
    NOTIFY_FAILED,
];

/// Whether a code is marked as reporting the kernel's own state.
pub open spec fn is_local(code: Seq<char>) -> bool {
    code.len() >= 2 && code[0] == 'x' && code[1] == '-'
}

/// Every code of the register is marked as the kernel's own, and no adopted code is; so no code is
/// in both.
pub proof fn lemma_codes_say_which_they_are()
    ensures
        forall|i: int| 0 <= i < REGISTER@.len() ==> is_local(#[trigger] REGISTER@[i]@),
        forall|i: int| 0 <= i < ADOPTED@.len() ==> !is_local(#[trigger] ADOPTED@[i]@),
        forall|i: int, j: int|
            0 <= i < REGISTER@.len() && 0 <= j < ADOPTED@.len() ==> (#[trigger] REGISTER@[i])@ != (
            #[trigger] ADOPTED@[j])@,
{
    reveal_strlit("x-store-unavailable");
    reveal_strlit("x-caller-unauthenticated");
    reveal_strlit("x-budget-exceeded-applied");
    reveal_strlit("x-schema-version-ahead");
    reveal_strlit("x-schema-migration-failed");
    reveal_strlit("x-conformance-driver-failed");
    reveal_strlit("x-conformance-harness-failed");
    reveal_strlit("policy-offline-allows-gated");
    reveal_strlit("policy-change-target-mismatch");
    reveal_strlit("policy-change-document-unbound");
    reveal_strlit("aggregate-window-too-long");
    reveal_strlit("aggregate-window-inverted");
    reveal_strlit("checkpoint-stream-unknown");
    reveal_strlit("manifest-malformed");
    reveal_strlit("root-enrollment-malformed");
    reveal_strlit("gate-decision-already-recorded");
    reveal_strlit("gate-rate-limited");
    reveal_strlit("aggregate-cardinality");
    reveal_strlit("aggregate-count-negative");
    reveal_strlit("checkpoint-range-mismatch");
    reveal_strlit("media-type-not-allowed");
    reveal_strlit("notify-failed");
    assert forall|i: int| 0 <= i < REGISTER@.len() implies is_local(#[trigger] REGISTER@[i]@) by {
        assert(i == 0 || i == 1 || i == 2 || i == 3 || i == 4 || i == 5 || i == 6);
    }
    assert forall|i: int| 0 <= i < ADOPTED@.len() implies !is_local(#[trigger] ADOPTED@[i]@) by {
        assert(i == 0 || i == 1 || i == 2 || i == 3 || i == 4 || i == 5 || i == 6 || i == 7 || i
            == 8 || i == 9 || i == 10 || i == 11 || i == 12 || i == 13 || i == 14);
    }
}

} // verus!
