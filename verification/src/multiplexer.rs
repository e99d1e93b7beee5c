//! The multiplexer: a connection on which several protocols can be run, and the handshake of the
//! primary protocol, which turns it into a satellite stream.

use vstd::prelude::*;

use crate::capability;
use crate::capability::{
    Capability, SharedCapabilities, SharedCapability, UnsupportedCapabilityError,
};
use crate::p2p::P2PStream;
use crate::protocol::ProtocolStream;
use crate::proxy::ProtocolProxy;
use crate::satellite::RlpxSatelliteStream;

verus! {

/// Wraps a connection and multiplexes the message ids of the protocols that are installed on it.
pub struct RlpxProtocolMultiplexer<St, S> {
    conn: P2PStream<St>,
    protocols: Vec<ProtocolStream<S>>,
}

impl<St, S> RlpxProtocolMultiplexer<St, S> {
    /// The connection.
    pub closed spec fn spec_conn(&self) -> P2PStream<St> {
        self.conn
    }

    /// The protocols that are installed, in the order in which they were.
    pub closed spec fn spec_protocols(&self) -> Seq<ProtocolStream<S>> {
        self.protocols@
    }

    /// The shared capability with the name and version of `cap`, if there is one.
    pub open spec fn spec_matching(&self, cap: Capability) -> Option<SharedCapability> {
        capability::matching(self.spec_conn().shared_capabilities@, cap@)
    }

    /// Every installed protocol speaks a capability that the peers share.
    pub open spec fn all_shared(&self) -> bool {
        forall|i: int|
            0 <= i < self.spec_protocols().len()
                ==> self.spec_conn().shared_capabilities@.contains(
                (#[trigger] self.spec_protocols()[i]).cap,
            )
    }

    /// Wraps the connection. No protocol is installed yet.
    pub fn new(conn: P2PStream<St>) -> (multiplexer: Self)
        ensures
            multiplexer.spec_conn() == conn,
            multiplexer.spec_protocols() == Seq::<ProtocolStream<S>>::empty(),
            multiplexer.all_shared(),
    {
        RlpxProtocolMultiplexer { conn, protocols: Vec::new() }
    }

    /// Installs a new protocol on top of the connection: `st` is the way to it.
    ///
    /// Fails, and changes nothing, if the capability is not shared.
    pub fn install_protocol(&mut self, cap: Capability, st: S) -> (res: Result<
        (),
        UnsupportedCapabilityError,
    >)
        ensures
            match old(self).spec_matching(cap) {
                Some(shared) => {
                    &&& res is Ok
                    &&& final(self).spec_conn() == old(self).spec_conn()
                    &&& final(self).spec_protocols() == old(self).spec_protocols().push(
                        ProtocolStream { cap: shared, handle: st },
                    )
                },
                None => {
                    &&& res matches Err(err)
                    &&& err.capability == cap
                    &&& *final(self) == *old(self)
                },
            },
            res is Ok <==> exists|i: int|
                0 <= i < old(self).spec_conn().shared_capabilities@.len() && ({
                    let shared = #[trigger] old(self).spec_conn().shared_capabilities@[i];
                    shared.capability.name@ == cap.name@ && shared.capability.version
                        == cap.version
                }),
            old(self).all_shared() ==> final(self).all_shared(),
    {
        proof {
            capability::law_matching_is_shared(self.conn.shared_capabilities@, cap@);
        }
        let shared_cap = match self.shared_capabilities().ensure_matching_capability(&cap) {
            Ok(shared) => shared.clone(),
            Err(err) => return Err(err),
        };
        self.protocols.push(ProtocolStream { cap: shared_cap, handle: st });
        Ok(())
    }

    /// The connection.
    pub fn conn(&self) -> (conn: &P2PStream<St>)
        ensures
            *conn == self.spec_conn(),
    {
        &self.conn
    }

    /// The protocols that are installed, in the order in which they were.
    pub fn protocols(&self) -> (protocols: &Vec<ProtocolStream<S>>)
        ensures
            protocols@ == self.spec_protocols(),
    {
        &self.protocols
    }

    /// The capabilities that are shared on the connection.
    pub fn shared_capabilities(&self) -> (shared: &SharedCapabilities)
        ensures
            *shared == self.spec_conn().shared_capabilities,
    {
        self.conn.shared_capabilities()
    }

    /// Starts the conversion into a satellite stream whose primary protocol speaks `cap`. The
    /// handshake of the primary protocol is still to be done.
    ///
    /// Gives the multiplexer back as it was if the capability is not shared.
    pub fn into_satellite_stream_with_handshake(self, cap: &Capability) -> (res: Result<
        SatelliteHandshake<St, S>,
        Self,
    >)
        ensures
            match self.spec_matching(*cap) {
                Some(shared) => {
                    &&& res matches Ok(handshake)
                    &&& handshake.spec_multiplexer() == self
                    &&& handshake.spec_capability() == shared
                    &&& handshake.listening() == (Listening { wire: true, primary: true })
                },
                None => res == Err::<SatelliteHandshake<St, S>, Self>(self),
            },
            res is Ok <==> exists|i: int|
                0 <= i < self.spec_conn().shared_capabilities@.len() && ({
                    let shared = #[trigger] self.spec_conn().shared_capabilities@[i];
                    shared.capability.name@ == cap.name@ && shared.capability.version
                        == cap.version
                }),
    {
        proof {
            capability::law_matching_is_shared(self.conn.shared_capabilities@, cap@);
        }
        let shared_cap = match self.shared_capabilities().ensure_matching_capability(cap) {
            Ok(shared) => shared.clone(),
            Err(_) => return Err(self),
        };
        Ok(
            SatelliteHandshake {
                multiplexer: self,
                shared_cap,
                listening: Listening { wire: true, primary: true },
            },
        )
    }
}

/// The capability that a multiplexer finds for a name and version is the first that is shared with
/// that name and version: the one listed at `i`, if all before it differ, and none, if all differ.
pub proof fn law_multiplexer_finds_first_match<St, S>(
    multiplexer: RlpxProtocolMultiplexer<St, S>,
    cap: Capability,
    i: int,
)
    requires
        0 <= i <= multiplexer.spec_conn().shared_capabilities@.len(),
        forall|j: int|
            0 <= j < i ==> {
                let shared = #[trigger] multiplexer.spec_conn().shared_capabilities@[j];
                shared.capability.name@ != cap.name@ || shared.capability.version != cap.version
            },
        i < multiplexer.spec_conn().shared_capabilities@.len() ==> {
            let shared = multiplexer.spec_conn().shared_capabilities@[i];
            shared.capability.name@ == cap.name@ && shared.capability.version == cap.version
        },
    ensures
        multiplexer.spec_matching(cap) == (if i
            < multiplexer.spec_conn().shared_capabilities@.len() {
            Some(multiplexer.spec_conn().shared_capabilities@[i])
        } else {
            None
        }),
{
    capability::law_first_match_is_found(
        multiplexer.spec_conn().shared_capabilities@,
        cap.name@,
        cap.version,
        i,
    );
}

/// Which of the two sources of messages are listened to.
#[derive(Debug, Clone, Copy, PartialEq, Eq, Structural)]
pub struct Listening {
    /// The connection.
    pub wire: bool,
    /// The channel from the primary protocol.
    pub primary: bool,
}

/// What happened while the handshake was going on. `B` is a message to the connection, `M` one
/// from it, and `E` an error of the connection.
#[derive(Debug)]
pub enum HandshakeEvent<B, M, E> {
    /// The connection gave a message or an error, or it ended.
    FromWire(Option<Result<M, E>>),
    /// The channel from the primary protocol gave a message, or it ended.
    FromPrimary(Option<B>),
}

/// What to do about it.
#[derive(Debug, PartialEq, Eq)]
pub enum HandshakeAction<B, M> {
    /// Pass the message to the primary protocol.
    ForwardToPrimary(M),
    /// Send the message over the connection.
    SendToWire(B),
    /// Nothing.
    Wait,
}

/// Whether a handshake that is listening to `l` can meet with the event `e`.
pub open spec fn listens_for<B, M, E>(l: Listening, e: HandshakeEvent<B, M, E>) -> bool {
    match e {
        HandshakeEvent::FromWire(_) => l.wire,
        HandshakeEvent::FromPrimary(_) => l.primary,
    }
}

/// What a handshake that is listening to `l` does on the event `e`.
///
/// A message is relayed as it is, and both sources are listened to again. A source that gives no
/// message is not listened to until the other has given one.
pub open spec fn next_in_handshake<B, M, E>(l: Listening, e: HandshakeEvent<B, M, E>) -> (
    Listening,
    HandshakeAction<B, M>,
) {
    match e {
        HandshakeEvent::FromWire(Some(Ok(msg))) => (
            Listening { wire: true, primary: true },
            HandshakeAction::ForwardToPrimary(msg),
        ),
        HandshakeEvent::FromWire(_) => (Listening { wire: false, ..l }, HandshakeAction::Wait),
        HandshakeEvent::FromPrimary(Some(msg)) => (
            Listening { wire: true, primary: true },
            HandshakeAction::SendToWire(msg),
        ),
        HandshakeEvent::FromPrimary(None) => (
            Listening { primary: false, ..l },
            HandshakeAction::Wait,
        ),
    }
}

/// A handshake of the primary protocol that is going on. Until it is done, messages are relayed
/// between the connection and the primary protocol.
pub struct SatelliteHandshake<St, S> {
    multiplexer: RlpxProtocolMultiplexer<St, S>,
    shared_cap: SharedCapability,
    listening: Listening,
}

impl<St, S> SatelliteHandshake<St, S> {
    /// The multiplexer that is being converted.
    pub closed spec fn spec_multiplexer(&self) -> RlpxProtocolMultiplexer<St, S> {
        self.multiplexer
    }

    /// The capability of the primary protocol.
    pub closed spec fn spec_capability(&self) -> SharedCapability {
        self.shared_cap
    }

    /// The sources that are listened to.
    pub closed spec fn listening(&self) -> Listening {
        self.listening
    }

    /// The proxy through which the primary protocol reaches the connection.
    pub fn proxy(&self) -> (proxy: ProtocolProxy)
        ensures
            proxy.cap == self.spec_capability(),
    {
        ProtocolProxy::new(self.shared_cap.clone())
    }

    /// The raw stream under the connection, to receive from and to send over.
    pub fn stream_mut(&mut self) -> (inner: &mut St)
        ensures
            *inner == old(self).spec_multiplexer().spec_conn().inner,
            final(self).spec_multiplexer().spec_conn() == (P2PStream {
                inner: *final(inner),
                shared_capabilities: old(
                    self,
                ).spec_multiplexer().spec_conn().shared_capabilities,
            }),
            final(self).spec_multiplexer().spec_protocols() == old(
                self,
            ).spec_multiplexer().spec_protocols(),
            final(self).spec_capability() == old(self).spec_capability(),
            final(self).listening() == old(self).listening(),
    {
        &mut self.multiplexer.conn.inner
    }

    /// The sources to listen to now.
    pub fn listens_to(&self) -> (listening: Listening)
        ensures
            listening == self.listening(),
    {
        self.listening
    }

    /// One step of the handshake: takes what happened, and says what to do about it.
    pub fn on_event<B, M, E>(&mut self, event: HandshakeEvent<B, M, E>) -> (action: HandshakeAction<
        B,
        M,
    >)
        requires
            listens_for(old(self).listening(), event),
        ensures
            (final(self).listening(), action) == next_in_handshake(old(self).listening(), event),
            final(self).spec_multiplexer() == old(self).spec_multiplexer(),
            final(self).spec_capability() == old(self).spec_capability(),
    {
        match event {
            HandshakeEvent::FromWire(Some(Ok(msg))) => {
                self.listening = Listening { wire: true, primary: true };
                HandshakeAction::ForwardToPrimary(msg)
            },
            HandshakeEvent::FromWire(_) => {
                self.listening.wire = false;
                HandshakeAction::Wait
            },
            HandshakeEvent::FromPrimary(Some(msg)) => {
                self.listening = Listening { wire: true, primary: true };
                HandshakeAction::SendToWire(msg)
            },
            HandshakeEvent::FromPrimary(None) => {
                self.listening.primary = false;
                HandshakeAction::Wait
            },
        }
    }

    /// Ends the handshake: with the primary protocol it gave, the multiplexer becomes a satellite
    /// stream that has the installed protocols as its satellites. If the handshake failed, the
    /// multiplexer is given back.
    pub fn finish<Primary, E>(self, res: Result<Primary, E>) -> (done: Result<
        RlpxSatelliteStream<St, Primary, S>,
        RlpxProtocolMultiplexer<St, S>,
    >)
        ensures
            match res {
                Ok(primary) => {
                    &&& done matches Ok(stream)
                    &&& stream.spec_conn() == self.spec_multiplexer().spec_conn()
                    &&& stream.spec_primary() == primary
                    &&& stream@.primary_capability == self.spec_capability()
                    &&& stream@.satellites == self.spec_multiplexer().spec_protocols()
                    &&& stream@.out_buffer == Seq::<Seq<u8>>::empty()
                    &&& stream@.phase == crate::model::Phase::<S>::Idle
                    &&& stream@.wf()
                },
                Err(_) => done == Err::<
                    RlpxSatelliteStream<St, Primary, S>,
                    RlpxProtocolMultiplexer<St, S>,
                >(self.spec_multiplexer()),
            },
    {
        match res {
            Ok(primary) => Ok(
                RlpxSatelliteStream::new(
                    self.multiplexer.conn,
                    primary,
                    self.shared_cap,
                    self.multiplexer.protocols,
                ),
            ),
            Err(_) => Err(self.multiplexer),
        }
    }
}

/// After an event that carries a message, from either source, both sources are listened to. A
/// source stops being listened to only by an event of its own that carries no message, which
/// leaves the other as it was.
pub proof fn law_a_message_opens_both<B, M, E>(l: Listening, e: HandshakeEvent<B, M, E>)
    ensures
        ({
            let after = next_in_handshake(l, e).0;
            &&& (e matches HandshakeEvent::FromWire(Some(Ok(_)))) ==> after.wire && after.primary
            &&& (e matches HandshakeEvent::FromPrimary(Some(_))) ==> after.wire && after.primary
            &&& (e matches HandshakeEvent::FromWire(Some(Err(_)))) ==> !after.wire && after.primary
                == l.primary
            &&& e == HandshakeEvent::<B, M, E>::FromWire(None) ==> !after.wire && after.primary
                == l.primary
            &&& e == HandshakeEvent::<B, M, E>::FromPrimary(None) ==> !after.primary && after.wire
                == l.wire
        }),
        e is FromWire ==> (listens_for(l, e) <==> l.wire),
        e is FromPrimary ==> (listens_for(l, e) <==> l.primary),
{
}

/// An event with a message has that message relayed to the other side; an event without one has
/// nothing done.
pub proof fn law_a_message_is_relayed<B, M, E>(l: Listening, e: HandshakeEvent<B, M, E>)
    ensures
        forall|msg: M|
            next_in_handshake(l, e).1 == HandshakeAction::<B, M>::ForwardToPrimary(msg) <==> e
                == HandshakeEvent::<B, M, E>::FromWire(Some(Ok(msg))),
        forall|msg: B|
            next_in_handshake(l, e).1 == HandshakeAction::<B, M>::SendToWire(msg) <==> e
                == HandshakeEvent::<B, M, E>::FromPrimary(Some(msg)),
{
}

/// Whether a handshake that starts out listening to `listening[0]` goes on to listen to the others
/// as it meets with `events`, and asks for `actions`.
pub open spec fn is_handshake<B, M, E>(
    listening: Seq<Listening>,
    events: Seq<HandshakeEvent<B, M, E>>,
    actions: Seq<HandshakeAction<B, M>>,
) -> bool {
    &&& listening.len() == events.len() + 1
    &&& actions.len() == events.len()
    &&& forall|k: int|
        #![trigger events[k]]
        0 <= k < events.len() ==> {
            &&& listens_for(listening[k], events[k])
            &&& (listening[k + 1], actions[k]) == next_in_handshake(listening[k], events[k])
        }
}

/// The messages that came from the connection, first to last.
pub open spec fn from_wire<B, M, E>(events: Seq<HandshakeEvent<B, M, E>>) -> Seq<M>
    decreases events.len(),
{
    if events.len() == 0 {
        Seq::empty()
    } else {
        match events.last() {
            HandshakeEvent::FromWire(Some(Ok(msg))) => from_wire(events.drop_last()).push(msg),
            _ => from_wire(events.drop_last()),
        }
    }
}

/// The messages that came from the primary protocol, first to last.
pub open spec fn from_primary<B, M, E>(events: Seq<HandshakeEvent<B, M, E>>) -> Seq<B>
    decreases events.len(),
{
    if events.len() == 0 {
        Seq::empty()
    } else {
        match events.last() {
            HandshakeEvent::FromPrimary(Some(msg)) => from_primary(events.drop_last()).push(msg),
            _ => from_primary(events.drop_last()),
        }
    }
}

/// The messages passed to the primary protocol, first to last.
pub open spec fn to_primary<B, M>(actions: Seq<HandshakeAction<B, M>>) -> Seq<M>
    decreases actions.len(),
{
    if actions.len() == 0 {
        Seq::empty()
    } else {
        match actions.last() {
            HandshakeAction::ForwardToPrimary(msg) => to_primary(actions.drop_last()).push(msg),
            _ => to_primary(actions.drop_last()),
        }
    }
}

/// The messages sent over the connection, first to last.
pub open spec fn to_wire<B, M>(actions: Seq<HandshakeAction<B, M>>) -> Seq<B>
    decreases actions.len(),
{
    if actions.len() == 0 {
        Seq::empty()
    } else {
        match actions.last() {
            HandshakeAction::SendToWire(msg) => to_wire(actions.drop_last()).push(msg),
            _ => to_wire(actions.drop_last()),
        }
    }
}

/// Until the handshake is done, every message is relayed, once, as it is and in order, both ways.
pub proof fn law_handshake_relays<B, M, E>(
    listening: Seq<Listening>,
    events: Seq<HandshakeEvent<B, M, E>>,
    actions: Seq<HandshakeAction<B, M>>,
)
    requires
        is_handshake(listening, events, actions),
    ensures
        to_primary(actions) == from_wire(events),
        to_wire(actions) == from_primary(events),
    decreases events.len(),
{
    if events.len() > 0 {
        let es = events.drop_last();
        assert forall|k: int| 0 <= k < es.len() implies #[trigger] es[k] == events[k] by {}
        law_handshake_relays(listening.drop_last(), es, actions.drop_last());
        assert(events[events.len() - 1] == events.last());
    }
}

/// Whether the last that was heard of the connection is that it gave no message, and no message
/// came from the primary protocol since.
pub open spec fn wire_fell_silent<B, M, E>(events: Seq<HandshakeEvent<B, M, E>>) -> bool
    decreases events.len(),
{
    events.len() > 0 && match events.last() {
        HandshakeEvent::FromWire(Some(Ok(_))) => false,
        HandshakeEvent::FromWire(_) => true,
        HandshakeEvent::FromPrimary(Some(_)) => false,
        HandshakeEvent::FromPrimary(None) => wire_fell_silent(events.drop_last()),
    }
}

/// Whether the last that was heard of the primary protocol is that it gave no message, and no
/// message came from the connection since.
pub open spec fn primary_fell_silent<B, M, E>(events: Seq<HandshakeEvent<B, M, E>>) -> bool
    decreases events.len(),
{
    events.len() > 0 && match events.last() {
        HandshakeEvent::FromPrimary(Some(_)) => false,
        HandshakeEvent::FromPrimary(None) => true,
        HandshakeEvent::FromWire(Some(Ok(_))) => false,
        HandshakeEvent::FromWire(_) => primary_fell_silent(events.drop_last()),
    }
}

/// A handshake that starts out listening to both sources goes on listening to each, unless it has
/// fallen silent.
pub proof fn law_handshake_listens<B, M, E>(
    listening: Seq<Listening>,
    events: Seq<HandshakeEvent<B, M, E>>,
    actions: Seq<HandshakeAction<B, M>>,
)
    requires
        is_handshake(listening, events, actions),
        listening[0].wire,
        listening[0].primary,
    ensures
        listening.last().wire <==> !wire_fell_silent(events),
        listening.last().primary <==> !primary_fell_silent(events),
    decreases events.len(),
{
    if events.len() > 0 {
        let es = events.drop_last();
        assert forall|k: int| 0 <= k < es.len() implies #[trigger] es[k] == events[k] by {}
        law_handshake_listens(listening.drop_last(), es, actions.drop_last());
        assert(events[events.len() - 1] == events.last());
    }
}

} // verus!
