//! Error taxonomy of a collection run.  Every fatal condition carries
//! enough to name the offending input or feed; nothing is ever folded
//! into a default numeric value.

use vstd::prelude::*;

verus! {

/// How a feed's frame violated its wire contract.
#[derive(Clone, Copy, Debug, PartialEq, Eq, Structural)]
pub enum ProtocolFault {
    /// The frame is not parseable as structured data at all.
    Unparseable,
    /// The feed's own error envelope is present.
    ErrorEnvelope,
    /// The frame looks like a tick but its pair identifier has no
    /// recognizable shape.
    BadShape,
    /// A price field is present but is not a plain decimal number.
    BadPrice,
}

/// A fatal condition of the run.
#[derive(Clone, Debug, PartialEq, Eq)]
pub enum WSError {
    /// A raw pair token does not split into two non-empty components.
    InvalidPair { token: String },
    /// A connection failed, a send failed, a stream ended early, or a
    /// frame arrived that is not text.
    Transport { feed: String },
    /// A feed broke its wire contract.
    Protocol { feed: String, fault: ProtocolFault },
    /// A decoded tick names a pair key outside the requested set.
    Integrity { feed: String, key: String },
    /// An accumulated sum left the fixed-point range.
    Overflow,
}

} // verus!
