//! The satellite stream: a primary protocol and its satellites on one connection.

use std::collections::VecDeque;

use bytes::{Bytes, BytesMut};
use vstd::prelude::*;

use crate::buffer;
use crate::capability::SharedCapability;
use crate::model;
use crate::model::{Phase, PollAction, PollEvent, State};
use crate::p2p::P2PStream;
use crate::polled::Polled;
use crate::protocol::ProtocolStream;
use crate::routing::find_destination;

verus! {

/// A stream that drives a primary protocol (such as `eth`) over a connection, and the satellite
/// protocols that share the connection with it.
pub struct RlpxSatelliteStream<St, Primary, S> {
    conn: P2PStream<St>,
    primary: Primary,
    primary_capability: SharedCapability,
    satellites: Vec<ProtocolStream<S>>,
    out_buffer: VecDeque<Bytes>,
    phase: Phase<S>,
}

/// What came of asking whether an item can be taken.
#[derive(Debug)]
pub enum ReadyEvent<E> {
    /// The stream is being asked.
    Ask,
    /// The connection was polled for whether it takes a message.
    Conn(Polled<Result<(), E>>),
    /// The primary protocol was polled for whether it takes an item.
    Primary(Polled<Result<(), E>>),
}

/// What to do next to find out whether an item can be taken.
#[derive(Debug, PartialEq, Eq)]
pub enum ReadyAction<E> {
    /// Poll whether the connection takes a message.
    PollConnReady,
    /// Poll whether the primary protocol takes an item.
    PollPrimaryReady,
    /// Return this.
    Return(Polled<Result<(), E>>),
}

/// What is done on the event `e` when the stream is asked whether it takes an item: first the
/// connection must be ready, then the primary protocol.
pub open spec fn next_ready<E>(e: ReadyEvent<E>) -> ReadyAction<E> {
    match e {
        ReadyEvent::Ask => ReadyAction::PollConnReady,
        ReadyEvent::Conn(Polled::Ready(Ok(_))) => ReadyAction::PollPrimaryReady,
        ReadyEvent::Conn(polled) => ReadyAction::Return(polled),
        ReadyEvent::Primary(polled) => ReadyAction::Return(polled),
    }
}

/// What comes back from asking whether an item can be taken, when polling the connection would
/// give `conn` and polling the primary protocol `primary`: each action is performed and its outcome
/// handed back, starting with `e`, until the action is to return. No more than `steps` actions are
/// performed; `None` stands for more.
pub open spec fn ready_outcome<E>(
    e: ReadyEvent<E>,
    conn: Polled<Result<(), E>>,
    primary: Polled<Result<(), E>>,
    steps: nat,
) -> Option<Polled<Result<(), E>>>
    decreases steps,
{
    match next_ready(e) {
        ReadyAction::Return(polled) => Some(polled),
        _ if steps == 0 => None,
        ReadyAction::PollConnReady => ready_outcome(
            ReadyEvent::Conn(conn),
            conn,
            primary,
            (steps - 1) as nat,
        ),
        ReadyAction::PollPrimaryReady => ready_outcome(
            ReadyEvent::Primary(primary),
            conn,
            primary,
            (steps - 1) as nat,
        ),
    }
}

/// The stream asks the connection first. It takes an item exactly if both the connection and the
/// primary protocol are ready. If the connection is not, what it gave is the answer, and the
/// primary protocol is not asked; else what the primary protocol gave is the answer.
pub proof fn law_ready<E>(conn: Polled<Result<(), E>>, primary: Polled<Result<(), E>>)
    ensures
        next_ready(ReadyEvent::<E>::Ask) is PollConnReady,
        ({
            let ready = Polled::<Result<(), E>>::Ready(Ok(()));
            let outcome = ready_outcome(ReadyEvent::Ask, conn, primary, 2);
            &&& outcome == Some(ready) <==> conn == ready && primary == ready
            &&& conn != ready ==> {
                &&& outcome == Some(conn)
                &&& ready_outcome(ReadyEvent::Ask, conn, primary, 1) == Some(conn)
            }
            &&& conn == ready ==> outcome == Some(primary)
        }),
{
    reveal_with_fuel(ready_outcome, 3);
    // there is one value of the unit type
    if let Polled::Ready(Ok(unit)) = conn {
        assert(unit == ());
    }
    if let Polled::Ready(Ok(unit)) = primary {
        assert(unit == ());
    }
}

/// The contents of queued messages.
spec fn contents(queue: Seq<Bytes>) -> Seq<Seq<u8>> {
    queue.map_values(|b: Bytes| buffer::bytes_contents(b))
}

impl<St, Primary, S> View for RlpxSatelliteStream<St, Primary, S> {
    type V = State<S>;

    closed spec fn view(&self) -> State<S> {
        State {
            primary_capability: self.primary_capability,
            satellites: self.satellites@,
            out_buffer: contents(self.out_buffer@),
            phase: self.phase,
        }
    }
}

impl<St, Primary, S> RlpxSatelliteStream<St, Primary, S> {
    /// The connection.
    pub closed spec fn spec_conn(&self) -> P2PStream<St> {
        self.conn
    }

    /// The primary protocol.
    pub closed spec fn spec_primary(&self) -> Primary {
        self.primary
    }

    /// A stream that has not been polled yet, with nothing queued.
    pub fn new(
        conn: P2PStream<St>,
        primary: Primary,
        primary_capability: SharedCapability,
        satellites: Vec<ProtocolStream<S>>,
    ) -> (stream: Self)
        ensures
            stream.spec_conn() == conn,
            stream.spec_primary() == primary,
            stream@.primary_capability == primary_capability,
            stream@.satellites == satellites@,
            stream@.out_buffer == Seq::<Seq<u8>>::empty(),
            stream@.phase == Phase::<S>::Idle,
            stream@.wf(),
    {
        assert(satellites@.len() == satellites.len());
        let out_buffer: VecDeque<Bytes> = VecDeque::new();
        assert(contents(out_buffer@) =~= Seq::<Seq<u8>>::empty());
        RlpxSatelliteStream {
            conn,
            primary,
            primary_capability,
            satellites,
            out_buffer,
            phase: Phase::Idle,
        }
    }

    /// The raw stream under the connection, to be polled.
    pub fn stream_mut(&mut self) -> (inner: &mut St)
        ensures
            *inner == old(self).spec_conn().inner,
            final(self).spec_conn() == (P2PStream {
                inner: *final(inner),
                shared_capabilities: old(self).spec_conn().shared_capabilities,
            }),
            final(self).spec_primary() == old(self).spec_primary(),
            final(self)@ == old(self)@,
    {
        &mut self.conn.inner
    }

    /// The primary protocol, to be polled.
    pub fn primary_mut(&mut self) -> (primary: &mut Primary)
        ensures
            *primary == old(self).spec_primary(),
            final(self).spec_primary() == *final(primary),
            final(self).spec_conn() == old(self).spec_conn(),
            final(self)@ == old(self)@,
    {
        &mut self.primary
    }

    /// The connection.
    pub fn conn(&self) -> (conn: &P2PStream<St>)
        ensures
            *conn == self.spec_conn(),
    {
        &self.conn
    }

    /// The primary protocol.
    pub fn primary(&self) -> (primary: &Primary)
        ensures
            *primary == self.spec_primary(),
    {
        &self.primary
    }

    /// The capability of the primary protocol.
    pub fn primary_capability(&self) -> (cap: &SharedCapability)
        ensures
            *cap == self@.primary_capability,
    {
        &self.primary_capability
    }

    /// The satellites, but for the one that is being polled.
    pub fn satellites(&self) -> (satellites: &Vec<ProtocolStream<S>>)
        ensures
            satellites@ == self@.satellites,
    {
        &self.satellites
    }

    /// The messages queued for the connection, oldest first.
    pub fn out_buffer(&self) -> (queue: &VecDeque<Bytes>)
        ensures
            queue@.map_values(|b: Bytes| buffer::bytes_contents(b)) == self@.out_buffer,
    {
        &self.out_buffer
    }

    /// The way to the satellite that is being polled, if one is.
    pub fn advancing_mut(&mut self) -> (handle: Option<&mut S>)
        ensures
            final(self).spec_conn() == old(self).spec_conn(),
            final(self).spec_primary() == old(self).spec_primary(),
            match old(self)@.phase {
                Phase::Advance { out_ready, left, proto } => {
                    &&& handle matches Some(h)
                    &&& *h == proto.handle
                    &&& final(self)@ == (State {
                        phase: Phase::Advance {
                            out_ready,
                            left,
                            proto: ProtocolStream { cap: proto.cap, handle: *final(h) },
                        },
                        ..old(self)@
                    })
                },
                _ => handle is None && final(self)@ == old(self)@,
            },
    {
        match &mut self.phase {
            Phase::Advance { proto, .. } => Some(&mut proto.handle),
            _ => None,
        }
    }

    /// Goes on to the last of the first `left` satellites, or to the connection if `left` is zero.
    fn advance<T, E>(&mut self, out_ready: bool, left: usize) -> (action: PollAction<
        Bytes,
        BytesMut,
        T,
        E,
    >)
        requires
            left <= old(self)@.satellites.len() <= usize::MAX,
        ensures
            final(self).spec_conn() == old(self).spec_conn(),
            final(self).spec_primary() == old(self).spec_primary(),
            (final(self)@, action@) == model::advance::<S, T, E>(
                old(self)@,
                out_ready,
                left as int,
            ),
            final(self)@.wf(),
    {
        if left == 0 {
            self.phase = Phase::Receive { out_ready, delegated: false };
            PollAction::PollConn
        } else {
            let proto = self.satellites.swap_remove(left - 1);
            self.phase = Phase::Advance { out_ready, left: left - 1, proto };
            PollAction::PollSatellite
        }
    }

    /// One step of polling the stream: takes what came of the last action, and says what to do
    /// next.
    pub fn poll_next<T, E>(&mut self, event: PollEvent<Bytes, BytesMut, T, E>) -> (action:
        PollAction<Bytes, BytesMut, T, E>)
        requires
            old(self)@.wf(),
            model::accepts(old(self)@, event@),
        ensures
            final(self)@.wf(),
            (final(self)@, action@) == model::next(old(self)@, event@),
            final(self).spec_conn() == old(self).spec_conn(),
            final(self).spec_primary() == old(self).spec_primary(),
    {
        let mut phase: Phase<S> = Phase::Idle;
        core::mem::swap(&mut phase, &mut self.phase);
        match (phase, event) {
            (Phase::Idle, PollEvent::Wake) => {
                self.phase = Phase::Primary;
                PollAction::PollPrimary
            },
            // first drain the primary stream
            (Phase::Primary, PollEvent::Primary(Polled::Ready(Some(item)))) => PollAction::Return(
                Polled::Ready(Some(item)),
            ),
            (Phase::Primary, PollEvent::Primary(_)) => {
                self.phase = Phase::Drain;
                PollAction::PollConnReady
            },
            (Phase::Drain, PollEvent::ConnReady(Polled::Ready(_))) => {
                if let Some(msg) = self.out_buffer.pop_front() {
                    assert(contents(self.out_buffer@) =~= contents(old(self).out_buffer@).skip(1));
                    self.phase = Phase::Sending;
                    PollAction::StartSend(msg)
                } else {
                    self.phase = Phase::Collect { out_ready: true };
                    PollAction::PollFromPrimary
                }
            },
            (Phase::Drain, PollEvent::ConnReady(Polled::Pending)) => {
                self.phase = Phase::Collect { out_ready: false };
                PollAction::PollFromPrimary
            },
            (Phase::Sending, PollEvent::Sent(Ok(_))) => {
                self.phase = Phase::Drain;
                PollAction::PollConnReady
            },
            (Phase::Sending, PollEvent::Sent(Err(err))) => PollAction::Return(
                Polled::Ready(Some(Err(err))),
            ),
            // advance primary out
            (
                Phase::Collect { out_ready },
                PollEvent::FromPrimary(Polled::Ready(Some(msg))),
            ) => {
                self.phase = Phase::Collect { out_ready };
                self.queue(msg);
                PollAction::PollFromPrimary
            },
            (Phase::Collect { .. }, PollEvent::FromPrimary(Polled::Ready(None))) => {
                // primary closed
                PollAction::Return(Polled::Ready(None))
            },
            (Phase::Collect { out_ready }, PollEvent::FromPrimary(Polled::Pending)) => {
                let left: usize = self.satellites.len();
                self.advance(out_ready, left)
            },
            // advance all satellites
            (Phase::Advance { out_ready, left, proto }, PollEvent::FromSatellite(polled)) => {
                match proto.poll_next(polled) {
                    Polled::Ready(Some(msg)) => {
                        self.phase = Phase::Advance { out_ready, left, proto };
                        self.queue(msg);
                        PollAction::PollSatellite
                    },
                    Polled::Ready(None) => PollAction::Return(Polled::Ready(None)),
                    Polled::Pending => {
                        self.satellites.push(proto);
                        self.advance(out_ready, left)
                    },
                }
            },
            // pull messages from connection
            (
                Phase::Receive { out_ready, .. },
                PollEvent::FromConn(Polled::Ready(Some(Ok(msg)))),
            ) => {
                self.phase = Phase::Delegate { out_ready };
                let offset: u8 = msg[0];
                match find_destination(&self.satellites, &self.primary_capability, offset) {
                    Some(idx) => {
                        // delegate to satellite
                        let unmasked = self.satellites[idx].unmask_id(msg);
                        PollAction::DelegateToSatellite(idx, unmasked)
                    },
                    // delegate to primary
                    None => PollAction::DelegateToPrimary(msg),
                }
            },
            (Phase::Receive { .. }, PollEvent::FromConn(Polled::Ready(Some(Err(err))))) => {
                PollAction::Return(Polled::Ready(Some(Err(err))))
            },
            (Phase::Receive { .. }, PollEvent::FromConn(Polled::Ready(None))) => {
                // connection closed
                PollAction::Return(Polled::Ready(None))
            },
            (
                Phase::Receive { out_ready, delegated },
                PollEvent::FromConn(Polled::Pending),
            ) => {
                if !delegated || !out_ready || self.out_buffer.len() == 0 {
                    PollAction::Return(Polled::Pending)
                } else {
                    self.phase = Phase::Primary;
                    PollAction::PollPrimary
                }
            },
            (Phase::Delegate { out_ready }, PollEvent::Delegated) => {
                self.phase = Phase::Receive { out_ready, delegated: true };
                PollAction::PollConn
            },
            _ => vstd::pervasive::unreached(),
        }
    }

    /// Whether `event` is what can come of the last action, and carries no message that cannot be
    /// handled.
    pub fn accepts<T, E>(&self, event: &PollEvent<Bytes, BytesMut, T, E>) -> (yes: bool)
        ensures
            yes == model::accepts(self@, event@),
    {
        match (&self.phase, event) {
            (Phase::Idle, PollEvent::Wake) => true,
            (Phase::Primary, PollEvent::Primary(_)) => true,
            (Phase::Drain, PollEvent::ConnReady(_)) => true,
            (Phase::Sending, PollEvent::Sent(_)) => true,
            (Phase::Collect { .. }, PollEvent::FromPrimary(_)) => true,
            (
                Phase::Advance { proto, .. },
                PollEvent::FromSatellite(Polled::Ready(Some(msg))),
            ) => proto.can_mask(msg),
            (Phase::Advance { .. }, PollEvent::FromSatellite(_)) => true,
            (Phase::Receive { .. }, PollEvent::FromConn(Polled::Ready(Some(Ok(msg))))) => {
                let bytes: &[u8] = msg;
                if bytes.len() == 0 {
                    false
                } else {
                    match find_destination(&self.satellites, &self.primary_capability, bytes[0]) {
                        Some(idx) => self.satellites[idx].can_unmask(msg),
                        None => true,
                    }
                }
            },
            (Phase::Receive { .. }, PollEvent::FromConn(_)) => true,
            (Phase::Delegate { .. }, PollEvent::Delegated) => true,
            _ => false,
        }
    }

    /// One step of polling whether the stream takes an item: takes what came of the last action,
    /// and says what to do next. It starts with [`ReadyEvent::Ask`].
    pub fn poll_ready<E>(&self, event: ReadyEvent<E>) -> (action: ReadyAction<E>)
        ensures
            action == next_ready(event),
            event is Ask ==> action is PollConnReady,
            event matches ReadyEvent::Conn(polled) ==> match polled {
                Polled::Ready(Ok(_)) => action is PollPrimaryReady,
                _ => action == ReadyAction::Return(polled),
            },
            event matches ReadyEvent::Primary(polled) ==> action == ReadyAction::Return(polled),
    {
        match event {
            ReadyEvent::Ask => ReadyAction::PollConnReady,
            ReadyEvent::Conn(Polled::Ready(Ok(_))) => ReadyAction::PollPrimaryReady,
            ReadyEvent::Conn(polled) => ReadyAction::Return(polled),
            ReadyEvent::Primary(polled) => ReadyAction::Return(polled),
        }
    }

    /// Queues a message for the connection, behind all others.
    fn queue(&mut self, msg: Bytes)
        ensures
            final(self)@ == old(self)@.queue(buffer::bytes_contents(msg)),
            final(self).spec_conn() == old(self).spec_conn(),
            final(self).spec_primary() == old(self).spec_primary(),
    {
        self.out_buffer.push_back(msg);
        assert(contents(self.out_buffer@) =~= contents(old(self).out_buffer@).push(
            buffer::bytes_contents(msg),
        ));
    }
}

} // verus!
