//! The closed vocabularies of the wire form.

use vstd::prelude::*;

verus! {

/// The version every object of the wire form names.
pub const VERSION: &'static str = "stozher/0.1";

/// The weight classes, from the lightest to the heaviest.
pub const CLASSES: [&'static str; 4] = ["read", "benign", "consequential", "prohibited"];

/// The kind of a stream that holds what was received from outside.
pub const STREAM_KIND_SIGNAL: &'static str = "signal";

/// The kind of a stream that holds everything else.
pub const STREAM_KIND_EFFECT: &'static str = "effect";

} // verus!
