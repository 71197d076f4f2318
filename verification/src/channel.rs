//! Channels of a session.

use vstd::prelude::*;
use crate::ordering::{MapKey, Position, number_position};

verus! {

/// The number of the channel that carries link control, not data.
pub const CONTROL_CHANNEL_ID: u32 = 0;

/// A channel of a session.
#[derive(Clone, Copy, Debug, Eq, Hash, Ord, PartialEq, PartialOrd, Structural)]
pub struct ChannelId(pub u32);

impl View for ChannelId {
    type V = u32;

    open spec fn view(&self) -> u32 {
        self.0
    }
}

/// Ordered by number.
impl MapKey for ChannelId {
    open spec fn rank(v: u32) -> Seq<int> {
        seq![v as int]
    }

    proof fn rank_injective(a: u32, b: u32) {
        assert(Self::rank(a)[0] == a as int);
        assert(Self::rank(b)[0] == b as int);
    }

    fn position(&self, other: &Self) -> (p: Position) {
        number_position(self.0 as u64, other.0 as u64)
    }
}

/// How often a channel number has been handed out; never zero.
#[derive(Clone, Copy, Debug, Eq, Hash, Ord, PartialEq, PartialOrd, Structural)]
pub struct ChannelGeneration(pub u32);

impl ChannelGeneration {
    /// The generation of a channel number in its first use.
    #[verifier::allow_in_spec]
    pub fn initial() -> Self
        returns
            ChannelGeneration(1),
    {
        ChannelGeneration(1)
    }
}

/// The traffic pattern of a channel.
#[derive(Clone, Copy, Debug, Eq, PartialEq, Structural)]
pub enum ChannelMode {
    RequestResponse,
    Event,
    Stream,
}

/// Marks on a data frame.
#[derive(Clone, Copy, Debug, Eq, PartialEq, Structural)]
pub struct EnvelopeFlags {
    pub end_of_stream: bool,
    pub cancelled: bool,
}

impl Default for EnvelopeFlags {
    fn default() -> (none: Self)
        ensures
            none == (EnvelopeFlags { end_of_stream: false, cancelled: false }),
    {
        EnvelopeFlags { end_of_stream: false, cancelled: false }
    }
}

} // verus!
