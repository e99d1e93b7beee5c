//! What a satellite stream does, as a state machine.
//!
//! Polling the stream means polling, in a fixed order, everything that it is made of: the primary
//! protocol, the connection, the channel from the primary protocol, and every satellite. The
//! machine decides; whoever drives it performs the action that the machine asks for and hands back
//! the event that came of it, until the machine asks to return.
//!
//! Events and actions carry messages. In the executable code those are buffers; here they are
//! sequences of bytes.

use bytes::{Bytes, BytesMut};
use vstd::prelude::*;

use crate::buffer;
use crate::capability::SharedCapability;
use crate::message;
use crate::polled::Polled;
use crate::protocol::ProtocolStream;
use crate::routing;

verus! {

/// What came of an action. `B` is a message that goes to the connection, `M` one that comes from
/// it or from a satellite, `T` an item of the primary protocol and `E` an error.
#[derive(Debug)]
pub enum PollEvent<B, M, T, E> {
    /// The stream is being polled.
    Wake,
    /// The primary protocol was polled.
    Primary(Polled<Option<Result<T, E>>>),
    /// The connection was polled for whether it takes a message.
    ConnReady(Polled<Result<(), E>>),
    /// A message was handed to the connection.
    Sent(Result<(), E>),
    /// The channel from the primary protocol was polled.
    FromPrimary(Polled<Option<B>>),
    /// The stream of what a satellite sends was polled.
    FromSatellite(Polled<Option<M>>),
    /// The connection was polled for a message.
    FromConn(Polled<Option<Result<M, E>>>),
    /// A message was passed on to the protocol that it is for.
    Delegated,
}

/// What the driver of a satellite stream is to do next. The parameters are those of
/// [`PollEvent`].
#[derive(Debug, PartialEq, Eq)]
pub enum PollAction<B, M, T, E> {
    /// Poll the primary protocol.
    PollPrimary,
    /// Poll whether the connection takes a message.
    PollConnReady,
    /// Hand this message to the connection.
    StartSend(B),
    /// Poll the channel from the primary protocol.
    PollFromPrimary,
    /// Poll the stream of what the satellite being advanced sends.
    PollSatellite,
    /// Poll the connection for a message.
    PollConn,
    /// Pass this message, already unmasked, to the satellite at this index.
    DelegateToSatellite(usize, M),
    /// Pass this message, as it came, to the primary protocol.
    DelegateToPrimary(M),
    /// Return this from the poll of the stream.
    Return(Polled<Option<Result<T, E>>>),
}

impl<T, E> View for PollEvent<Bytes, BytesMut, T, E> {
    type V = PollEvent<Seq<u8>, Seq<u8>, T, E>;

    open spec fn view(&self) -> PollEvent<Seq<u8>, Seq<u8>, T, E> {
        match *self {
            PollEvent::Wake => PollEvent::Wake,
            PollEvent::Primary(polled) => PollEvent::Primary(polled),
            PollEvent::ConnReady(polled) => PollEvent::ConnReady(polled),
            PollEvent::Sent(res) => PollEvent::Sent(res),
            PollEvent::FromPrimary(polled) => PollEvent::FromPrimary(
                match polled {
                    Polled::Ready(Some(msg)) => Polled::Ready(Some(buffer::bytes_contents(msg))),
                    Polled::Ready(None) => Polled::Ready(None),
                    Polled::Pending => Polled::Pending,
                },
            ),
            PollEvent::FromSatellite(polled) => PollEvent::FromSatellite(
                match polled {
                    Polled::Ready(Some(msg)) => Polled::Ready(
                        Some(buffer::bytes_mut_contents(msg)),
                    ),
                    Polled::Ready(None) => Polled::Ready(None),
                    Polled::Pending => Polled::Pending,
                },
            ),
            PollEvent::FromConn(polled) => PollEvent::FromConn(
                match polled {
                    Polled::Ready(Some(Ok(msg))) => Polled::Ready(
                        Some(Ok(buffer::bytes_mut_contents(msg))),
                    ),
                    Polled::Ready(Some(Err(err))) => Polled::Ready(Some(Err(err))),
                    Polled::Ready(None) => Polled::Ready(None),
                    Polled::Pending => Polled::Pending,
                },
            ),
            PollEvent::Delegated => PollEvent::Delegated,
        }
    }
}

impl<T, E> View for PollAction<Bytes, BytesMut, T, E> {
    type V = PollAction<Seq<u8>, Seq<u8>, T, E>;

    open spec fn view(&self) -> PollAction<Seq<u8>, Seq<u8>, T, E> {
        match *self {
            PollAction::PollPrimary => PollAction::PollPrimary,
            PollAction::PollConnReady => PollAction::PollConnReady,
            PollAction::StartSend(msg) => PollAction::StartSend(buffer::bytes_contents(msg)),
            PollAction::PollFromPrimary => PollAction::PollFromPrimary,
            PollAction::PollSatellite => PollAction::PollSatellite,
            PollAction::PollConn => PollAction::PollConn,
            PollAction::DelegateToSatellite(i, msg) => PollAction::DelegateToSatellite(
                i,
                buffer::bytes_mut_contents(msg),
            ),
            PollAction::DelegateToPrimary(msg) => PollAction::DelegateToPrimary(
                buffer::bytes_mut_contents(msg),
            ),
            PollAction::Return(polled) => PollAction::Return(polled),
        }
    }
}

/// An event is seen as what it is: the same kind of event, with the same outcome, item or error,
/// and with the bytes of the message that it carries.
pub proof fn law_events_as_they_are<T, E>(e: PollEvent<Bytes, BytesMut, T, E>)
    ensures
        e is Wake <==> e@ is Wake,
        e is Delegated <==> e@ is Delegated,
        forall|p: Polled<Option<Result<T, E>>>|
            e == PollEvent::<Bytes, BytesMut, T, E>::Primary(p) <==> e@ == PollEvent::<
                Seq<u8>,
                Seq<u8>,
                T,
                E,
            >::Primary(p),
        forall|p: Polled<Result<(), E>>|
            e == PollEvent::<Bytes, BytesMut, T, E>::ConnReady(p) <==> e@ == PollEvent::<
                Seq<u8>,
                Seq<u8>,
                T,
                E,
            >::ConnReady(p),
        forall|r: Result<(), E>|
            e == PollEvent::<Bytes, BytesMut, T, E>::Sent(r) <==> e@ == PollEvent::<
                Seq<u8>,
                Seq<u8>,
                T,
                E,
            >::Sent(r),
        e is FromPrimary <==> e@ is FromPrimary,
        e matches PollEvent::FromPrimary(Polled::Ready(Some(msg))) ==> e@
            == PollEvent::<Seq<u8>, Seq<u8>, T, E>::FromPrimary(
            Polled::Ready(Some(buffer::bytes_contents(msg))),
        ),
        e == PollEvent::<Bytes, BytesMut, T, E>::FromPrimary(Polled::Ready(None)) <==> e@
            == PollEvent::<Seq<u8>, Seq<u8>, T, E>::FromPrimary(Polled::Ready(None)),
        e == PollEvent::<Bytes, BytesMut, T, E>::FromPrimary(Polled::Pending) <==> e@
            == PollEvent::<Seq<u8>, Seq<u8>, T, E>::FromPrimary(Polled::Pending),
        e is FromSatellite <==> e@ is FromSatellite,
        e matches PollEvent::FromSatellite(Polled::Ready(Some(msg))) ==> e@
            == PollEvent::<Seq<u8>, Seq<u8>, T, E>::FromSatellite(
            Polled::Ready(Some(buffer::bytes_mut_contents(msg))),
        ),
        e == PollEvent::<Bytes, BytesMut, T, E>::FromSatellite(Polled::Ready(None)) <==> e@
            == PollEvent::<Seq<u8>, Seq<u8>, T, E>::FromSatellite(Polled::Ready(None)),
        e == PollEvent::<Bytes, BytesMut, T, E>::FromSatellite(Polled::Pending) <==> e@
            == PollEvent::<Seq<u8>, Seq<u8>, T, E>::FromSatellite(Polled::Pending),
        e is FromConn <==> e@ is FromConn,
        e matches PollEvent::FromConn(Polled::Ready(Some(Ok(msg)))) ==> e@
            == PollEvent::<Seq<u8>, Seq<u8>, T, E>::FromConn(
            Polled::Ready(Some(Ok(buffer::bytes_mut_contents(msg)))),
        ),
        forall|err: E|
            e == PollEvent::<Bytes, BytesMut, T, E>::FromConn(Polled::Ready(Some(Err(err)))) <==> e@
                == PollEvent::<Seq<u8>, Seq<u8>, T, E>::FromConn(Polled::Ready(Some(Err(err)))),
        e == PollEvent::<Bytes, BytesMut, T, E>::FromConn(Polled::Ready(None)) <==> e@
            == PollEvent::<Seq<u8>, Seq<u8>, T, E>::FromConn(Polled::Ready(None)),
        e == PollEvent::<Bytes, BytesMut, T, E>::FromConn(Polled::Pending) <==> e@ == PollEvent::<
            Seq<u8>,
            Seq<u8>,
            T,
            E,
        >::FromConn(Polled::Pending),
{
}

/// An action is seen as what it is: the same kind of action, with the same index or result, and
/// with the bytes of the message that it carries.
pub proof fn law_actions_as_they_are<T, E>(a: PollAction<Bytes, BytesMut, T, E>)
    ensures
        a is PollPrimary <==> a@ is PollPrimary,
        a is PollConnReady <==> a@ is PollConnReady,
        a is PollFromPrimary <==> a@ is PollFromPrimary,
        a is PollSatellite <==> a@ is PollSatellite,
        a is PollConn <==> a@ is PollConn,
        a is StartSend <==> a@ is StartSend,
        a matches PollAction::StartSend(msg) ==> a@->StartSend_0 == buffer::bytes_contents(msg),
        a is DelegateToSatellite <==> a@ is DelegateToSatellite,
        a matches PollAction::DelegateToSatellite(i, msg) ==> a@->DelegateToSatellite_0 == i
            && a@->DelegateToSatellite_1 == buffer::bytes_mut_contents(msg),
        a is DelegateToPrimary <==> a@ is DelegateToPrimary,
        a matches PollAction::DelegateToPrimary(msg) ==> a@->DelegateToPrimary_0
            == buffer::bytes_mut_contents(msg),
        forall|p: Polled<Option<Result<T, E>>>|
            a == PollAction::<Bytes, BytesMut, T, E>::Return(p) <==> a@ == PollAction::<
                Seq<u8>,
                Seq<u8>,
                T,
                E,
            >::Return(p),
{
}

/// Where in a poll a satellite stream is.
pub enum Phase<S> {
    /// The stream is not being polled.
    Idle,
    /// The primary protocol is being polled.
    Primary,
    /// The connection is being polled for whether it takes a message.
    Drain,
    /// A message has been handed to the connection.
    Sending,
    /// The channel from the primary protocol is being polled.
    Collect {
        /// Whether the connection took all that was queued.
        out_ready: bool,
    },
    /// A satellite, taken out of the list of satellites, is being polled.
    Advance {
        /// Whether the connection took all that was queued.
        out_ready: bool,
        /// How many satellites are still to be polled after this one.
        left: usize,
        /// The satellite.
        proto: ProtocolStream<S>,
    },
    /// The connection is being polled for a message.
    Receive {
        /// Whether the connection took all that was queued.
        out_ready: bool,
        /// Whether a message came from the connection since the satellites were polled.
        delegated: bool,
    },
    /// A message from the connection is being passed on.
    Delegate {
        /// Whether the connection took all that was queued.
        out_ready: bool,
    },
}

/// The state of a satellite stream.
pub struct State<S> {
    /// The capability of the primary protocol.
    pub primary_capability: SharedCapability,
    /// The satellites, but for the one that is being polled.
    pub satellites: Seq<ProtocolStream<S>>,
    /// The messages queued for the connection, oldest first.
    pub out_buffer: Seq<Seq<u8>>,
    /// Where in a poll the stream is.
    pub phase: Phase<S>,
}

impl<S> State<S> {
    /// All satellites, the one that is being polled included, fit into a list; and while one is
    /// being polled, those that are still to be polled are in the list.
    pub open spec fn wf(self) -> bool {
        match self.phase {
            Phase::Advance { left, .. } => {
                &&& left <= self.satellites.len()
                &&& self.satellites.len() < usize::MAX
            },
            _ => self.satellites.len() <= usize::MAX,
        }
    }

    /// The state with `msg` queued behind all others.
    pub open spec fn queue(self, msg: Seq<u8>) -> State<S> {
        State { out_buffer: self.out_buffer.push(msg), ..self }
    }

    /// The state in the given phase.
    pub open spec fn at(self, phase: Phase<S>) -> State<S> {
        State { phase, ..self }
    }
}

/// Whether `e` is what can come of the action that a stream in the state `s` has asked for, and
/// the message that it carries, if any, can be handled.
///
/// A message that a satellite sends must have an id that can be masked. A message from the
/// connection must have an id, and one that can be unmasked if it is for a satellite.
pub open spec fn accepts<S, T, E>(s: State<S>, e: PollEvent<Seq<u8>, Seq<u8>, T, E>) -> bool {
    match (s.phase, e) {
        (Phase::Idle, PollEvent::Wake) => true,
        (Phase::Primary, PollEvent::Primary(_)) => true,
        (Phase::Drain, PollEvent::ConnReady(_)) => true,
        (Phase::Sending, PollEvent::Sent(_)) => true,
        (Phase::Collect { .. }, PollEvent::FromPrimary(_)) => true,
        (
            Phase::Advance { proto, .. },
            PollEvent::FromSatellite(Polled::Ready(Some(msg))),
        ) => message::maskable(msg, proto.cap.offset),
        (Phase::Advance { .. }, PollEvent::FromSatellite(_)) => true,
        (Phase::Receive { .. }, PollEvent::FromConn(Polled::Ready(Some(Ok(msg))))) => {
            &&& msg.len() > 0
            &&& destination(s, msg) matches Some(i) ==> message::unmaskable(
                msg,
                s.satellites[i].cap.offset,
            )
        },
        (Phase::Receive { .. }, PollEvent::FromConn(_)) => true,
        (Phase::Delegate { .. }, PollEvent::Delegated) => true,
        _ => false,
    }
}

/// The satellite that a message from the connection is for, `None` standing for the primary
/// protocol.
pub open spec fn destination<S>(s: State<S>, msg: Seq<u8>) -> Option<int> {
    routing::destination(s.satellites, s.primary_capability.offset, msg[0])
}

/// Goes on to the last of the first `left` satellites, or, if `left` is zero, to the connection.
///
/// The satellite is taken out of the list, and the last in the list takes its place.
pub open spec fn advance<S, T, E>(s: State<S>, out_ready: bool, left: int) -> (
    State<S>,
    PollAction<Seq<u8>, Seq<u8>, T, E>,
) {
    if left <= 0 {
        (s.at(Phase::Receive { out_ready, delegated: false }), PollAction::PollConn)
    } else {
        (
            State {
                satellites: s.satellites.update(left - 1, s.satellites.last()).drop_last(),
                phase: Phase::Advance {
                    out_ready,
                    left: (left - 1) as usize,
                    proto: s.satellites[left - 1],
                },
                ..s
            },
            PollAction::PollSatellite,
        )
    }
}

/// What a stream in the state `s` does on the event `e`: the state that it goes to and the action
/// that it asks for.
pub open spec fn next<S, T, E>(s: State<S>, e: PollEvent<Seq<u8>, Seq<u8>, T, E>) -> (
    State<S>,
    PollAction<Seq<u8>, Seq<u8>, T, E>,
) {
    match (s.phase, e) {
        (Phase::Idle, PollEvent::Wake) => (s.at(Phase::Primary), PollAction::PollPrimary),
        // An item of the primary protocol is returned at once.
        (Phase::Primary, PollEvent::Primary(Polled::Ready(Some(item)))) => (
            s.at(Phase::Idle),
            PollAction::Return(Polled::Ready(Some(item))),
        ),
        (Phase::Primary, PollEvent::Primary(_)) => (
            s.at(Phase::Drain),
            PollAction::PollConnReady,
        ),
        // As long as the connection is ready, it is given what is queued, oldest first. That it
        // is ready with an error does not count: handing it a message will tell.
        (Phase::Drain, PollEvent::ConnReady(Polled::Ready(_))) => if s.out_buffer.len() > 0 {
            (
                State { out_buffer: s.out_buffer.skip(1), phase: Phase::Sending, ..s },
                PollAction::StartSend(s.out_buffer[0]),
            )
        } else {
            (s.at(Phase::Collect { out_ready: true }), PollAction::PollFromPrimary)
        },
        (Phase::Drain, PollEvent::ConnReady(Polled::Pending)) => (
            s.at(Phase::Collect { out_ready: false }),
            PollAction::PollFromPrimary,
        ),
        (Phase::Sending, PollEvent::Sent(Ok(_))) => (
            s.at(Phase::Drain),
            PollAction::PollConnReady,
        ),
        (Phase::Sending, PollEvent::Sent(Err(err))) => (
            s.at(Phase::Idle),
            PollAction::Return(Polled::Ready(Some(Err(err)))),
        ),
        // All that the primary protocol sends is queued; its end is the end of the stream.
        (Phase::Collect { .. }, PollEvent::FromPrimary(Polled::Ready(Some(msg)))) => (
            s.queue(msg),
            PollAction::PollFromPrimary,
        ),
        (Phase::Collect { .. }, PollEvent::FromPrimary(Polled::Ready(None))) => (
            s.at(Phase::Idle),
            PollAction::Return(Polled::Ready(None)),
        ),
        (Phase::Collect { out_ready }, PollEvent::FromPrimary(Polled::Pending)) => advance(
            s,
            out_ready,
            s.satellites.len() as int,
        ),
        // All that a satellite sends is queued, masked; its end is the end of the stream, and it
        // is not put back.
        (
            Phase::Advance { proto, .. },
            PollEvent::FromSatellite(Polled::Ready(Some(msg))),
        ) => (s.queue(message::masked(msg, proto.cap.offset)), PollAction::PollSatellite),
        (Phase::Advance { .. }, PollEvent::FromSatellite(Polled::Ready(None))) => (
            s.at(Phase::Idle),
            PollAction::Return(Polled::Ready(None)),
        ),
        (
            Phase::Advance { out_ready, left, proto },
            PollEvent::FromSatellite(Polled::Pending),
        ) => advance(
            State { satellites: s.satellites.push(proto), ..s },
            out_ready,
            left as int,
        ),
        // Every message from the connection is passed on; its end and its errors are the
        // stream's.
        (
            Phase::Receive { out_ready, .. },
            PollEvent::FromConn(Polled::Ready(Some(Ok(msg)))),
        ) => (
            s.at(Phase::Delegate { out_ready }),
            match destination(s, msg) {
                Some(i) => PollAction::DelegateToSatellite(
                    i as usize,
                    message::unmasked(msg, s.satellites[i].cap.offset),
                ),
                None => PollAction::DelegateToPrimary(msg),
            },
        ),
        (Phase::Receive { .. }, PollEvent::FromConn(Polled::Ready(Some(Err(err))))) => (
            s.at(Phase::Idle),
            PollAction::Return(Polled::Ready(Some(Err(err)))),
        ),
        (Phase::Receive { .. }, PollEvent::FromConn(Polled::Ready(None))) => (
            s.at(Phase::Idle),
            PollAction::Return(Polled::Ready(None)),
        ),
        // There is more to do only if something was passed on, and the connection took all that
        // was queued before and more has been queued since.
        (
            Phase::Receive { out_ready, delegated },
            PollEvent::FromConn(Polled::Pending),
        ) => if delegated && out_ready && s.out_buffer.len() > 0 {
            (s.at(Phase::Primary), PollAction::PollPrimary)
        } else {
            (s.at(Phase::Idle), PollAction::Return(Polled::Pending))
        },
        (Phase::Delegate { out_ready }, PollEvent::Delegated) => (
            s.at(Phase::Receive { out_ready, delegated: true }),
            PollAction::PollConn,
        ),
        // No other event is accepted.
        _ => (s, PollAction::Return(Polled::Pending)),
    }
}

} // verus!
