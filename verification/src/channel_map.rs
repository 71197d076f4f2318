//! The channels of a session, by the protocol that uses them.

use vstd::prelude::*;
use crate::channel::{ChannelGeneration, ChannelId};
use crate::control::{AcceptChannel, LinkControlError};
use crate::ordering::{
    MapKey, Position, byte_position, byte_rank, byte_rank_injective, number_position, precedes, precedes_after_prefix,
};
use crate::protocol_ids::{ProtocolChannelId, ProtocolStableId};
use crate::sorted_map::SortedMap;

verus! {

pub const MAX_SESSION_CHANNEL_MAPPINGS: usize = 128;

/// A channel of a protocol.
#[derive(Clone, Copy, Debug, Eq, PartialEq)]
pub struct ProtocolChannelKey {
    pub protocol_id: ProtocolStableId,
    pub channel_id: ProtocolChannelId,
}

impl View for ProtocolChannelKey {
    type V = (Seq<u8>, u16);

    open spec fn view(&self) -> (Seq<u8>, u16) {
        (self.protocol_id@, self.channel_id.0)
    }
}

proof fn lemma_decided_before_suffix(a: Seq<int>, b: Seq<int>, x: Seq<int>, y: Seq<int>)
    requires
        a.len() == b.len(),
        a != b,
    ensures
        precedes(a + x, b + y) == precedes(a, b),
        a + x != b + y,
    decreases a.len(),
{
    if a.len() == 0 {
        assert(a =~= b);
    } else {
        assert((a + x)[0] == a[0]);
        assert((b + y)[0] == b[0]);
        if a[0] == b[0] {
            if a.drop_first() == b.drop_first() {
                assert(a =~= seq![a[0]] + a.drop_first());
                assert(b =~= seq![b[0]] + b.drop_first());
            }
            lemma_decided_before_suffix(a.drop_first(), b.drop_first(), x, y);
            assert((a + x).drop_first() =~= a.drop_first() + x);
            assert((b + y).drop_first() =~= b.drop_first() + y);
        }
    }
}

/// Ordered by protocol, then by channel.
impl MapKey for ProtocolChannelKey {
    open spec fn rank(v: (Seq<u8>, u16)) -> Seq<int> {
        byte_rank(v.0) + seq![v.1 as int]
    }

    proof fn rank_injective(a: (Seq<u8>, u16), b: (Seq<u8>, u16)) {
        let ra = Self::rank(a);
        let rb = Self::rank(b);
        assert(ra.last() == a.1 as int);
        assert(rb.last() == b.1 as int);
        assert(ra.drop_last() =~= byte_rank(a.0));
        assert(rb.drop_last() =~= byte_rank(b.0));
        byte_rank_injective(a.0, b.0);
    }

    fn position(&self, other: &Self) -> (p: Position) {
        let ghost a = byte_rank(self@.0);
        let ghost b = byte_rank(other@.0);
        let ghost x = seq![self@.1 as int];
        let ghost y = seq![other@.1 as int];
        match byte_position(&self.protocol_id.0, &other.protocol_id.0) {
            Position::Same => {
                proof {
                    precedes_after_prefix(a, x, y);
                    if a + x == b + y {
                        assert((a + x)[a.len() as int] == x[0]);
                        assert((b + y)[a.len() as int] == y[0]);
                        assert(x =~= y);
                    }
                }
                number_position(self.channel_id.0 as u64, other.channel_id.0 as u64)
            },
            decided => {
                proof {
                    lemma_decided_before_suffix(a, b, x, y);
                }
                decided
            },
        }
    }
}

/// The channel of a session that a protocol channel is bound to.
#[derive(Clone, Copy, Debug, Eq, PartialEq, Structural)]
pub struct SessionChannelBinding {
    pub channel_id: ChannelId,
    pub generation: ChannelGeneration,
}

/// The protocol channel that a channel of a session is bound to.
#[derive(Clone, Copy, Debug, Eq, PartialEq)]
pub struct ProtocolChannelBinding {
    pub protocol_id: ProtocolStableId,
    pub protocol_channel_id: ProtocolChannelId,
    pub generation: ChannelGeneration,
}

/// Authenticated, session-local mapping consumed by the compact data envelope.
/// Both indexes are maintained together so neither a protocol channel nor a
/// session channel can be silently rebound by a repeated remote control frame.
#[derive(Clone, Debug)]
pub struct SessionChannelMap {
    maximum: usize,
    by_protocol: SortedMap<ProtocolChannelKey, SessionChannelBinding>,
    by_session: SortedMap<ChannelId, ProtocolChannelBinding>,
    retired: SortedMap<ChannelId, ()>,
}

/// Both directions of the mapping, and the channel numbers that are used up.
#[verifier::ext_equal]
pub struct ChannelMapView {
    pub maximum: usize,
    pub by_protocol: Map<(Seq<u8>, u16), SessionChannelBinding>,
    pub by_session: Map<u32, ProtocolChannelBinding>,
    pub retired: Set<u32>,
}

impl ChannelMapView {
    /// Whether the two directions say the same, and used-up numbers stay unbound.
    pub open spec fn consistent(self) -> bool {
        &&& 0 < self.maximum <= MAX_SESSION_CHANNEL_MAPPINGS
        &&& self.by_protocol.dom().finite()
        &&& self.by_session.dom().finite()
        &&& self.retired.finite()
        &&& self.by_protocol.dom().len() + self.retired.len() <= self.maximum
        &&& forall|k: (Seq<u8>, u16)| #[trigger]
            self.by_protocol.contains_key(k) ==> {
                let b = self.by_protocol[k];
                &&& self.by_session.contains_key(b.channel_id.0)
                &&& self.by_session[b.channel_id.0].protocol_id@ == k.0
                &&& self.by_session[b.channel_id.0].protocol_channel_id.0 == k.1
                &&& self.by_session[b.channel_id.0].generation == b.generation
            }
        &&& forall|s: u32| #[trigger]
            self.by_session.contains_key(s) ==> {
                let b = self.by_session[s];
                let k = (b.protocol_id@, b.protocol_channel_id.0);
                &&& self.by_protocol.contains_key(k)
                &&& self.by_protocol[k] == SessionChannelBinding {
                    channel_id: ChannelId(s),
                    generation: b.generation,
                }
                &&& !self.retired.contains(s)
                &&& s != 0
                &&& k.1 != 0
            }
    }

    /// Why a binding would be refused.
    pub open spec fn refusal(self, accepted: AcceptChannel) -> Option<LinkControlError> {
        if accepted.protocol_channel_id.0 == 0 || accepted.session_channel_id.0 == 0 {
            Some(LinkControlError::invalid_channel_mapping())
        } else if self.by_protocol.contains_key(
            (accepted.protocol_id@, accepted.protocol_channel_id.0),
        ) || self.by_session.contains_key(accepted.session_channel_id.0) || self.retired.contains(
            accepted.session_channel_id.0,
        ) {
            Some(LinkControlError::duplicate_channel_mapping())
        } else if self.by_protocol.dom().len() + self.retired.len() >= self.maximum {
            Some(LinkControlError::channel_mapping_limit())
        } else {
            None
        }
    }

    /// The mapping with one more binding.
    pub open spec fn bound(self, accepted: AcceptChannel) -> ChannelMapView {
        ChannelMapView {
            by_protocol: self.by_protocol.insert(
                (accepted.protocol_id@, accepted.protocol_channel_id.0),
                SessionChannelBinding {
                    channel_id: accepted.session_channel_id,
                    generation: ChannelGeneration::initial(),
                },
            ),
            by_session: self.by_session.insert(
                accepted.session_channel_id.0,
                ProtocolChannelBinding {
                    protocol_id: accepted.protocol_id,
                    protocol_channel_id: accepted.protocol_channel_id,
                    generation: ChannelGeneration::initial(),
                },
            ),
            ..self
        }
    }

    /// The mapping with the binding of a channel gone and its number used up.
    pub open spec fn unbound(self, channel: u32) -> ChannelMapView {
        let b = self.by_session[channel];
        ChannelMapView {
            by_protocol: self.by_protocol.remove((b.protocol_id@, b.protocol_channel_id.0)),
            by_session: self.by_session.remove(channel),
            retired: self.retired.insert(channel),
            ..self
        }
    }
}

impl View for SessionChannelMap {
    type V = ChannelMapView;

    closed spec fn view(&self) -> ChannelMapView {
        ChannelMapView {
            maximum: self.maximum,
            by_protocol: self.by_protocol@,
            by_session: self.by_session@,
            retired: self.retired@.dom(),
        }
    }
}

impl SessionChannelMap {
    /// Whether the mapping is consistent.
    pub closed spec fn wf(&self) -> bool {
        &&& self.by_protocol.wf()
        &&& self.by_session.wf()
        &&& self.retired.wf()
        &&& self@.consistent()
    }

    /// What every mapping keeps to.
    pub proof fn lemma_consistent(&self)
        requires
            self.wf(),
        ensures
            self@.consistent(),
    {
    }

    pub fn new(maximum: usize) -> (map: Result<Self, LinkControlError>)
        ensures
            match map {
                Ok(m) => {
                    &&& 0 < maximum <= MAX_SESSION_CHANNEL_MAPPINGS
                    &&& m.wf()
                    &&& m@ == (ChannelMapView {
                        maximum,
                        by_protocol: Map::empty(),
                        by_session: Map::empty(),
                        retired: Set::empty(),
                    })
                },
                Err(e) => {
                    &&& (maximum == 0 || maximum > MAX_SESSION_CHANNEL_MAPPINGS)
                    &&& e == LinkControlError::limit_exceeded()
                },
            },
    {
        if maximum == 0 || maximum > MAX_SESSION_CHANNEL_MAPPINGS {
            return Err(LinkControlError::limit_exceeded());
        }
        let map = SessionChannelMap {
            maximum,
            by_protocol: SortedMap::new(),
            by_session: SortedMap::new(),
            retired: SortedMap::new(),
        };
        assert(map.retired@.dom() =~= Set::<u32>::empty());
        Ok(map)
    }

    /// Binds the channel that a peer accepted.
    pub fn bind(&mut self, accepted: AcceptChannel) -> (binding: Result<
        SessionChannelBinding,
        LinkControlError,
    >)
        requires
            old(self).wf(),
        ensures
            final(self).wf(),
            match binding {
                Ok(b) => {
                    &&& old(self)@.refusal(accepted) is None
                    &&& b == (SessionChannelBinding {
                        channel_id: accepted.session_channel_id,
                        generation: ChannelGeneration::initial(),
                    })
                    &&& final(self)@ == old(self)@.bound(accepted)
                },
                Err(e) => old(self)@.refusal(accepted) == Some(e) && final(self)@ == old(self)@,
            },
    {
        self.validate_bind(accepted)?;
        Ok(self.bind_validated(accepted))
    }

    fn bind_validated(&mut self, accepted: AcceptChannel) -> (binding: SessionChannelBinding)
        requires
            old(self).wf(),
            old(self)@.refusal(accepted) is None,
        ensures
            final(self).wf(),
            binding == (SessionChannelBinding {
                channel_id: accepted.session_channel_id,
                generation: ChannelGeneration::initial(),
            }),
            final(self)@ == old(self)@.bound(accepted),
    {
        let binding = SessionChannelBinding {
            channel_id: accepted.session_channel_id,
            generation: ChannelGeneration::initial(),
        };
        let key = ProtocolChannelKey {
            protocol_id: accepted.protocol_id,
            channel_id: accepted.protocol_channel_id,
        };
        self.by_protocol.insert(key, binding);
        self.by_session.insert(
            accepted.session_channel_id,
            ProtocolChannelBinding {
                protocol_id: accepted.protocol_id,
                protocol_channel_id: accepted.protocol_channel_id,
                generation: binding.generation,
            },
        );
        binding
    }

    fn validate_bind(&self, accepted: AcceptChannel) -> (verdict: Result<(), LinkControlError>)
        requires
            self.wf(),
        ensures
            verdict == (match self@.refusal(accepted) {
                Some(e) => Err::<(), LinkControlError>(e),
                None => Ok(()),
            }),
    {
        if accepted.protocol_channel_id.0 == 0 || accepted.session_channel_id.0 == 0 {
            return Err(LinkControlError::invalid_channel_mapping());
        }
        let key = ProtocolChannelKey {
            protocol_id: accepted.protocol_id,
            channel_id: accepted.protocol_channel_id,
        };
        if self.by_protocol.contains_key(&key) || self.by_session.contains_key(
            &accepted.session_channel_id,
        ) || self.retired.contains_key(&accepted.session_channel_id) {
            return Err(LinkControlError::duplicate_channel_mapping());
        }
        if self.by_protocol.len().saturating_add(self.retired.len()) >= self.maximum {
            return Err(LinkControlError::channel_mapping_limit());
        }
        Ok(())
    }

    /// The channel of the session that a protocol channel is bound to.
    pub fn session_channel(
        &self,
        protocol_id: ProtocolStableId,
        protocol_channel_id: ProtocolChannelId,
    ) -> (channel: Option<ChannelId>)
        requires
            self.wf(),
        ensures
            match channel {
                Some(c) => {
                    &&& self@.by_protocol.contains_key((protocol_id@, protocol_channel_id.0))
                    &&& c == self@.by_protocol[(protocol_id@, protocol_channel_id.0)].channel_id
                },
                None => !self@.by_protocol.contains_key((protocol_id@, protocol_channel_id.0)),
            },
    {
        match self.binding(protocol_id, protocol_channel_id) {
            Some(binding) => Some(binding.channel_id),
            None => None,
        }
    }

    /// The channel and generation that a protocol channel is bound to.
    pub fn binding(
        &self,
        protocol_id: ProtocolStableId,
        protocol_channel_id: ProtocolChannelId,
    ) -> (binding: Option<SessionChannelBinding>)
        requires
            self.wf(),
        ensures
            match binding {
                Some(b) => {
                    &&& self@.by_protocol.contains_key((protocol_id@, protocol_channel_id.0))
                    &&& b == self@.by_protocol[(protocol_id@, protocol_channel_id.0)]
                },
                None => !self@.by_protocol.contains_key((protocol_id@, protocol_channel_id.0)),
            },
    {
        match self.by_protocol.get(
            &ProtocolChannelKey { protocol_id, channel_id: protocol_channel_id },
        ) {
            Some(binding) => Some(*binding),
            None => None,
        }
    }

    /// The protocol channel that a channel of the session is bound to.
    pub fn protocol_channel(&self, session_channel_id: ChannelId) -> (channel: Option<
        (ProtocolStableId, ProtocolChannelId),
    >)
        requires
            self.wf(),
        ensures
            match channel {
                Some(c) => {
                    &&& self@.by_session.contains_key(session_channel_id.0)
                    &&& c.0 == self@.by_session[session_channel_id.0].protocol_id
                    &&& c.1 == self@.by_session[session_channel_id.0].protocol_channel_id
                },
                None => !self@.by_session.contains_key(session_channel_id.0),
            },
    {
        match self.by_session.get(&session_channel_id) {
            Some(b) => Some((b.protocol_id, b.protocol_channel_id)),
            None => None,
        }
    }

    /// The protocol channel and generation that a channel of the session is bound to.
    pub fn session_binding(&self, session_channel_id: ChannelId) -> (binding: Option<
        (ProtocolStableId, ProtocolChannelId, ChannelGeneration),
    >)
        requires
            self.wf(),
        ensures
            match binding {
                Some(b) => {
                    &&& self@.by_session.contains_key(session_channel_id.0)
                    &&& b.0 == self@.by_session[session_channel_id.0].protocol_id
                    &&& b.1 == self@.by_session[session_channel_id.0].protocol_channel_id
                    &&& b.2 == self@.by_session[session_channel_id.0].generation
                },
                None => !self@.by_session.contains_key(session_channel_id.0),
            },
    {
        match self.by_session.get(&session_channel_id) {
            Some(b) => Some((b.protocol_id, b.protocol_channel_id, b.generation)),
            None => None,
        }
    }

    /// Gives a channel up. Its number is not handed out again.
    pub fn unbind(&mut self, session_channel_id: ChannelId) -> (channel: Option<
        (ProtocolStableId, ProtocolChannelId),
    >)
        requires
            old(self).wf(),
        ensures
            final(self).wf(),
            match channel {
                Some(c) => {
                    &&& old(self)@.by_session.contains_key(session_channel_id.0)
                    &&& c.0 == old(self)@.by_session[session_channel_id.0].protocol_id
                    &&& c.1 == old(self)@.by_session[session_channel_id.0].protocol_channel_id
                    &&& final(self)@ == old(self)@.unbound(session_channel_id.0)
                },
                None => {
                    &&& !old(self)@.by_session.contains_key(session_channel_id.0)
                    &&& final(self)@ == old(self)@
                },
            },
    {
        match self.by_session.remove(&session_channel_id) {
            None => {
                assert(self.by_session@ =~= old(self).by_session@);
                None
            },
            Some(binding) => {
                let key = ProtocolChannelKey {
                    protocol_id: binding.protocol_id,
                    channel_id: binding.protocol_channel_id,
                };
                proof {
                    assert(old(self)@.by_session.contains_key(session_channel_id.0));
                    assert(old(self)@.by_protocol.contains_key(key@));
                }
                self.by_protocol.remove(&key);
                self.retired.insert(session_channel_id, ());
                proof {
                    let before = old(self)@;
                    let after = self@;
                    assert(after.retired =~= before.retired.insert(session_channel_id.0));
                    assert(after.by_protocol.dom() =~= before.by_protocol.dom().remove(key@));
                    assert forall|s: u32| #[trigger] after.by_session.contains_key(s) implies {
                        let b = after.by_session[s];
                        let k = (b.protocol_id@, b.protocol_channel_id.0);
                        after.by_protocol.contains_key(k)
                    } by {
                        assert(before.by_session.contains_key(s));
                    }
                    assert forall|k: (Seq<u8>, u16)| #[trigger] after.by_protocol.contains_key(
                        k,
                    ) implies after.by_session.contains_key(after.by_protocol[k].channel_id.0) by {
                        assert(before.by_protocol.contains_key(k));
                    }
                }
                Some((binding.protocol_id, binding.protocol_channel_id))
            },
        }
    }

    /// How many channels are bound.
    pub fn len(&self) -> (n: usize)
        requires
            self.wf(),
        ensures
            n == self@.by_protocol.dom().len(),
    {
        self.by_protocol.len()
    }

    /// Whether no channel is bound.
    pub fn is_empty(&self) -> (empty: bool)
        requires
            self.wf(),
        ensures
            empty == (self@.by_protocol == Map::<(Seq<u8>, u16), SessionChannelBinding>::empty()),
    {
        self.by_protocol.is_empty()
    }
}

/// A protocol channel is bound to a channel of the session exactly if that
/// channel is bound to the protocol channel.
pub proof fn channel_mapping_is_bijective(map: ChannelMapView, id: ProtocolStableId, channel: u16, session: u32)
    requires
        map.consistent(),
    ensures
        (map.by_protocol.contains_key((id@, channel)) && map.by_protocol[(id@, channel)].channel_id.0
            == session) <==> (map.by_session.contains_key(session)
            && map.by_session[session].protocol_id@ == id@
            && map.by_session[session].protocol_channel_id.0 == channel),
{
}

/// A repeated or conflicting binding is refused, so no binding is overwritten.
pub proof fn channel_bindings_are_never_overwritten(map: ChannelMapView, accepted: AcceptChannel)
    requires
        map.consistent(),
        map.refusal(accepted) is None,
    ensures
        map.bound(accepted).consistent(),
        forall|s: u32| #[trigger]
            map.by_session.contains_key(s) ==> map.bound(accepted).by_session.contains_key(s)
                && map.bound(accepted).by_session[s] == map.by_session[s],
        map.bound(accepted).refusal(accepted) == Some(LinkControlError::duplicate_channel_mapping()),
{
}

/// A channel number that was given up is refused from then on.
pub proof fn retired_channels_stay_retired(map: ChannelMapView, session: u32, accepted: AcceptChannel)
    requires
        map.consistent(),
        map.by_session.contains_key(session),
        accepted.protocol_channel_id.0 != 0,
        accepted.session_channel_id.0 == session,
    ensures
        map.unbound(session).refusal(accepted) == Some(LinkControlError::duplicate_channel_mapping()),
{
}

/// A binding is accepted exactly where both numbers are positive, neither is bound, the
/// channel number was never given up, and fewer numbers are used up than the maximum.
pub proof fn fresh_bindings_are_accepted(map: ChannelMapView, accepted: AcceptChannel)
    ensures
        map.refusal(accepted) is None <==> {
            &&& accepted.protocol_channel_id.0 >= 1
            &&& accepted.session_channel_id.0 >= 1
            &&& !map.by_protocol.contains_key((accepted.protocol_id@, accepted.protocol_channel_id.0))
            &&& !map.by_session.contains_key(accepted.session_channel_id.0)
            &&& !map.retired.contains(accepted.session_channel_id.0)
            &&& map.by_protocol.dom().len() + map.retired.len() + 1 <= map.maximum
        },
{
}

/// A channel that was bound is found both ways, other bindings stay, and no number is given
/// up by it.
pub proof fn bound_channels_are_found(map: ChannelMapView, accepted: AcceptChannel, other: (Seq<u8>, u16))
    requires
        map.refusal(accepted) is None,
    ensures
        ({
            let after = map.bound(accepted);
            let key = (accepted.protocol_id@, accepted.protocol_channel_id.0);
            &&& after.by_protocol.contains_key(key)
            &&& after.by_protocol[key].channel_id == accepted.session_channel_id
            &&& after.by_session.contains_key(accepted.session_channel_id.0)
            &&& after.by_session[accepted.session_channel_id.0].protocol_id == accepted.protocol_id
            &&& after.by_session[accepted.session_channel_id.0].protocol_channel_id
                == accepted.protocol_channel_id
            &&& after.by_protocol[key].generation
                == after.by_session[accepted.session_channel_id.0].generation
            &&& after.retired == map.retired
            &&& after.maximum == map.maximum
            &&& other != key ==> after.by_protocol.contains_key(other) == map.by_protocol.contains_key(
                other,
            ) && after.by_protocol[other] == map.by_protocol[other]
        }),
{
}

/// A channel that is given up is found neither way; the others stay, and its protocol
/// channel may be bound again, to a number that was never used.
pub proof fn unbound_channels_are_gone(map: ChannelMapView, session: u32, other: u32, accepted: AcceptChannel)
    requires
        map.consistent(),
        map.by_session.contains_key(session),
        other != session,
    ensures
        ({
            let after = map.unbound(session);
            let gone = map.by_session[session];
            &&& !after.by_session.contains_key(session)
            &&& !after.by_protocol.contains_key((gone.protocol_id@, gone.protocol_channel_id.0))
            &&& after.retired.contains(session)
            &&& after.by_session.contains_key(other) == map.by_session.contains_key(other)
            &&& after.by_session[other] == map.by_session[other]
            &&& accepted.protocol_id == gone.protocol_id && accepted.protocol_channel_id
                == gone.protocol_channel_id && accepted.session_channel_id.0 == other && other != 0
                && !map.by_session.contains_key(other) && !map.retired.contains(other)
                && map.by_protocol.dom().len() + map.retired.len() < map.maximum ==> after.refusal(accepted)
                is None
        }),
{
}

/// A channel that was bound is found from either side until it is unbound, which hands back
/// what it was bound to; after that it is found from neither.
pub proof fn bound_channels_are_found_from_either_side(
    before: SessionChannelMap,
    accepted: AcceptChannel,
)
    requires
        before.wf(),
    ensures
        forall|
            lent: &mut SessionChannelMap,
            again: &mut SessionChannelMap,
            bound: Result<SessionChannelBinding, LinkControlError>,
            unbound: Option<(ProtocolStableId, ProtocolChannelId)>,
        |
            {
                &&& *lent == before
                &&& #[trigger] call_ensures(SessionChannelMap::bind, (lent, accepted), bound)
                &&& bound is Ok
                &&& *again == *final(lent)
                &&& #[trigger] call_ensures(
                    SessionChannelMap::unbind,
                    (again, accepted.session_channel_id),
                    unbound,
                )
            } ==> {
                let key = (accepted.protocol_id@, accepted.protocol_channel_id.0);
                let number = accepted.session_channel_id.0;
                let during = final(lent)@;
                &&& bound->Ok_0.channel_id == accepted.session_channel_id
                &&& during.by_protocol.contains_key(key)
                &&& during.by_protocol[key].channel_id == accepted.session_channel_id
                &&& during.by_session.contains_key(number)
                &&& during.by_session[number].protocol_id == accepted.protocol_id
                &&& during.by_session[number].protocol_channel_id == accepted.protocol_channel_id
                &&& unbound == Some((accepted.protocol_id, accepted.protocol_channel_id))
                &&& !final(again)@.by_protocol.contains_key(key)
                &&& !final(again)@.by_session.contains_key(number)
            },
{
}

} // verus!
