//! What holds of a satellite stream over any number of steps.

use vstd::multiset::Multiset;
use vstd::prelude::*;

use crate::capability::SharedCapability;
use crate::message;
use crate::model;
use crate::model::{Phase, PollAction, PollEvent, State};
use crate::polled::Polled;
use crate::protocol::ProtocolStream;
use crate::routing;

verus! {

/// Whether two states differ at most in the handle of the satellite that is being polled. Polling
/// it may change the handle, and nothing else.
pub open spec fn same_but_handle<S>(s: State<S>, t: State<S>) -> bool {
    &&& t.primary_capability == s.primary_capability
    &&& t.satellites == s.satellites
    &&& t.out_buffer == s.out_buffer
    &&& match s.phase {
        Phase::Advance { out_ready, left, proto } => {
            &&& t.phase matches Phase::Advance { out_ready: t_ready, left: t_left, proto: t_proto }
            &&& t_ready == out_ready
            &&& t_left == left
            &&& t_proto.cap == proto.cap
        },
        _ => t.phase == s.phase,
    }
}

/// Whether a stream that starts in `states[0]` meets with `events` and asks for `actions`, and is
/// in `states[k]` after the first `k` of them. States after those are not spoken of.
pub open spec fn is_run<S, T, E>(
    states: Seq<State<S>>,
    events: Seq<PollEvent<Seq<u8>, Seq<u8>, T, E>>,
    actions: Seq<PollAction<Seq<u8>, Seq<u8>, T, E>>,
) -> bool {
    &&& states.len() > events.len()
    &&& actions.len() == events.len()
    &&& states[0].wf()
    &&& forall|k: int|
        #![trigger events[k]]
        0 <= k < events.len() ==> {
            &&& model::accepts(states[k], events[k])
            &&& actions[k] == model::next(states[k], events[k]).1
            &&& same_but_handle(model::next(states[k], events[k]).0, states[k + 1])
        }
}

/// Whether nothing but the steps themselves changed the states of a run: the driver left the
/// handles of the satellites as they were.
pub open spec fn undisturbed<S, T, E>(
    states: Seq<State<S>>,
    events: Seq<PollEvent<Seq<u8>, Seq<u8>, T, E>>,
) -> bool {
    forall|k: int|
        #![trigger events[k]]
        0 <= k < events.len() ==> states[k + 1] == model::next(states[k], events[k]).0
}

/// A run without its last step is a run.
proof fn lemma_shorter_run<S, T, E>(
    states: Seq<State<S>>,
    events: Seq<PollEvent<Seq<u8>, Seq<u8>, T, E>>,
    actions: Seq<PollAction<Seq<u8>, Seq<u8>, T, E>>,
)
    requires
        is_run(states, events, actions),
        events.len() > 0,
    ensures
        is_run(states, events.drop_last(), actions.drop_last()),
        model::accepts(states[events.len() - 1], events.last()),
        actions.last() == model::next(states[events.len() - 1], events.last()).1,
        same_but_handle(
            model::next(states[events.len() - 1], events.last()).0,
            states[events.len() as int],
        ),
        undisturbed(states, events) ==> {
            &&& undisturbed(states, events.drop_last())
            &&& states[events.len() as int] == model::next(
                states[events.len() - 1],
                events.last(),
            ).0
        },
{
    assert forall|k: int| 0 <= k < events.len() - 1 implies #[trigger] events.drop_last()[k]
        == events[k] by {}
    assert(events[events.len() - 1] == events.last());
}

/// Every state of a run is well formed.
pub proof fn law_well_formed<S, T, E>(
    states: Seq<State<S>>,
    events: Seq<PollEvent<Seq<u8>, Seq<u8>, T, E>>,
    actions: Seq<PollAction<Seq<u8>, Seq<u8>, T, E>>,
)
    requires
        is_run(states, events, actions),
    ensures
        states[events.len() as int].wf(),
    decreases events.len(),
{
    if events.len() > 0 {
        lemma_shorter_run(states, events, actions);
        law_well_formed(states, events.drop_last(), actions.drop_last());
    }
}

/// The capability of the primary protocol never changes.
pub proof fn law_primary_stays<S, T, E>(
    states: Seq<State<S>>,
    events: Seq<PollEvent<Seq<u8>, Seq<u8>, T, E>>,
    actions: Seq<PollAction<Seq<u8>, Seq<u8>, T, E>>,
)
    requires
        is_run(states, events, actions),
    ensures
        states[events.len() as int].primary_capability == states[0].primary_capability,
    decreases events.len(),
{
    if events.len() > 0 {
        lemma_shorter_run(states, events, actions);
        law_primary_stays(states, events.drop_last(), actions.drop_last());
    }
}

/// The message that a stream in the state `s` queues on the event `e`, if any: what the primary
/// protocol sends, and what a satellite sends, masked.
pub open spec fn queued_by<S, T, E>(
    s: State<S>,
    e: PollEvent<Seq<u8>, Seq<u8>, T, E>,
) -> Option<Seq<u8>> {
    match (s.phase, e) {
        (_, PollEvent::FromPrimary(Polled::Ready(Some(msg)))) => Some(msg),
        (
            Phase::Advance { proto, .. },
            PollEvent::FromSatellite(Polled::Ready(Some(msg))),
        ) => Some(message::masked(msg, proto.cap.offset)),
        _ => None,
    }
}

/// The messages queued in the course of a run, oldest first.
pub open spec fn queued<S, T, E>(
    states: Seq<State<S>>,
    events: Seq<PollEvent<Seq<u8>, Seq<u8>, T, E>>,
) -> Seq<Seq<u8>>
    decreases events.len(),
{
    if events.len() == 0 {
        Seq::empty()
    } else {
        let before = queued(states, events.drop_last());
        match queued_by(states[events.len() - 1], events.last()) {
            Some(msg) => before.push(msg),
            None => before,
        }
    }
}

/// The messages handed to the connection in the course of a run, first to last.
pub open spec fn handed_over<T, E>(
    actions: Seq<PollAction<Seq<u8>, Seq<u8>, T, E>>,
) -> Seq<Seq<u8>>
    decreases actions.len(),
{
    if actions.len() == 0 {
        Seq::empty()
    } else {
        let before = handed_over(actions.drop_last());
        match actions.last() {
            PollAction::StartSend(msg) => before.push(msg),
            _ => before,
        }
    }
}

/// Messages go out in the order in which they were queued: none is lost, doubled, overtaken or
/// made up. What was handed to the connection, followed by what is still queued, is what was
/// queued at the start, followed by what was queued since.
pub proof fn law_first_in_first_out<S, T, E>(
    states: Seq<State<S>>,
    events: Seq<PollEvent<Seq<u8>, Seq<u8>, T, E>>,
    actions: Seq<PollAction<Seq<u8>, Seq<u8>, T, E>>,
)
    requires
        is_run(states, events, actions),
    ensures
        handed_over(actions) + states[events.len() as int].out_buffer == states[0].out_buffer + queued(
            states,
            events,
        ),
    decreases events.len(),
{
    if events.len() == 0 {
        assert(handed_over(actions) + states[events.len() as int].out_buffer =~= states[0].out_buffer + queued(
            states,
            events,
        ));
    } else {
        let (es, aa) = (events.drop_last(), actions.drop_last());
        lemma_shorter_run(states, events, actions);
        law_first_in_first_out(states, es, aa);
        let s = states[events.len() - 1];
        let t = model::next(s, events.last()).0;
        match actions.last() {
            PollAction::StartSend(msg) => {
                assert(s.out_buffer =~= seq![msg] + t.out_buffer);
                assert(handed_over(actions) + t.out_buffer =~= handed_over(aa) + s.out_buffer);
            },
            _ => {
                match queued_by(s, events.last()) {
                    Some(msg) => {
                        assert(t.out_buffer == s.out_buffer.push(msg));
                        assert(handed_over(actions) + t.out_buffer =~= (handed_over(aa)
                            + s.out_buffer).push(msg));
                        assert(states[0].out_buffer + queued(states, events) =~= (
                        states[0].out_buffer + queued(states, es)).push(msg));
                    },
                    None => {
                        assert(t.out_buffer == s.out_buffer);
                    },
                }
            },
        }
    }
}

/// The messages that came from the connection, first to last.
pub open spec fn received<T, E>(
    events: Seq<PollEvent<Seq<u8>, Seq<u8>, T, E>>,
) -> Seq<Seq<u8>>
    decreases events.len(),
{
    if events.len() == 0 {
        Seq::empty()
    } else {
        let before = received(events.drop_last());
        match events.last() {
            PollEvent::FromConn(Polled::Ready(Some(Ok(msg)))) => before.push(msg),
            _ => before,
        }
    }
}

/// A message that was passed on.
pub struct PassedOn<S> {
    /// The state that the stream was in when the message came.
    pub at: State<S>,
    /// The index at which the satellite it was passed to was listed then, or `None` if it was
    /// passed to the primary protocol.
    pub to: Option<usize>,
    /// The message as it was passed on.
    pub msg: Seq<u8>,
}

/// The messages that were passed on in the course of a run, first to last.
pub open spec fn passed_on<S, T, E>(
    states: Seq<State<S>>,
    actions: Seq<PollAction<Seq<u8>, Seq<u8>, T, E>>,
) -> Seq<PassedOn<S>>
    decreases actions.len(),
{
    if actions.len() == 0 {
        Seq::empty()
    } else {
        let before = passed_on(states, actions.drop_last());
        let at = states[actions.len() - 1];
        match actions.last() {
            PollAction::DelegateToSatellite(i, msg) => before.push(
                PassedOn { at, to: Some(i), msg },
            ),
            PollAction::DelegateToPrimary(msg) => before.push(PassedOn { at, to: None, msg }),
            _ => before,
        }
    }
}

/// Whether `passed` is the right thing to do with the message `msg` from the connection: the first
/// satellite whose offset is the id of the message, if there is one below the primary protocol,
/// gets it with the id zero and the payload untouched; else the primary protocol gets it as it
/// came.
pub open spec fn rightly_passed_on<S>(msg: Seq<u8>, passed: PassedOn<S>) -> bool {
    match passed.to {
        Some(i) => {
            &&& i < passed.at.satellites.len()
            &&& passed.at.satellites[i as int].cap.offset == msg[0]
            &&& msg[0] < passed.at.primary_capability.offset
            &&& forall|j: int|
                0 <= j < i ==> (#[trigger] passed.at.satellites[j]).cap.offset != msg[0]
            &&& passed.msg == msg.update(0, 0u8)
        },
        None => {
            &&& passed.msg == msg
            &&& forall|j: int|
                0 <= j < passed.at.satellites.len() && (
                #[trigger] passed.at.satellites[j]).cap.offset == msg[0] ==> msg[0]
                    >= passed.at.primary_capability.offset
        },
    }
}

/// Every message from the connection is passed on, once, in the order in which it came, and to
/// the protocol that it is for.
pub proof fn law_every_message_is_passed_on<S, T, E>(
    states: Seq<State<S>>,
    events: Seq<PollEvent<Seq<u8>, Seq<u8>, T, E>>,
    actions: Seq<PollAction<Seq<u8>, Seq<u8>, T, E>>,
)
    requires
        is_run(states, events, actions),
    ensures
        passed_on(states, actions).len() == received(events).len(),
        forall|k: int|
            0 <= k < passed_on(states, actions).len() ==> rightly_passed_on(
                received(events)[k],
                #[trigger] passed_on(states, actions)[k],
            ),
    decreases events.len(),
{
    if events.len() > 0 {
        let (es, aa) = (events.drop_last(), actions.drop_last());
        lemma_shorter_run(states, events, actions);
        law_every_message_is_passed_on(states, es, aa);
        law_well_formed(states, es, aa);
        let s = states[events.len() - 1];
        if let PollEvent::FromConn(Polled::Ready(Some(Ok(msg)))) = events.last() {
            law_delegation::<S, T, E>(s, msg);
        }
        assert forall|k: int|
            0 <= k < passed_on(states, actions).len() implies rightly_passed_on(
            received(events)[k],
            #[trigger] passed_on(states, actions)[k],
        ) by {
            if k < passed_on(states, aa).len() {
                assert(passed_on(states, actions)[k] == passed_on(states, aa)[k]);
                assert(received(events)[k] == received(es)[k]);
            }
        }
    }
}

/// A message from the connection is passed on in the very next step, and to the protocol that it
/// is for.
pub proof fn law_delegation<S, T, E>(s: State<S>, msg: Seq<u8>)
    requires
        s.wf(),
        model::accepts::<S, T, E>(s, PollEvent::FromConn(Polled::Ready(Some(Ok(msg))))),
    ensures
        match model::next::<S, T, E>(s, PollEvent::FromConn(Polled::Ready(Some(Ok(msg))))).1 {
            PollAction::DelegateToSatellite(i, passed) => rightly_passed_on(
                msg,
                PassedOn { at: s, to: Some(i), msg: passed },
            ),
            PollAction::DelegateToPrimary(passed) => rightly_passed_on(
                msg,
                PassedOn { at: s, to: None, msg: passed },
            ),
            _ => false,
        },
{
    routing::law_destination(s.satellites, s.primary_capability.offset, msg[0]);
}

/// All satellites, the one that is being polled included.
pub open spec fn all_satellites<S>(s: State<S>) -> Multiset<ProtocolStream<S>> {
    match s.phase {
        Phase::Advance { proto, .. } => s.satellites.to_multiset().insert(proto),
        _ => s.satellites.to_multiset(),
    }
}

/// The capabilities of all satellites, the one that is being polled included.
pub open spec fn capabilities<S>(s: State<S>) -> Multiset<SharedCapability> {
    let listed = s.satellites.map_values(|p: ProtocolStream<S>| p.cap).to_multiset();
    match s.phase {
        Phase::Advance { proto, .. } => listed.insert(proto.cap),
        _ => listed,
    }
}

/// The satellite that a stream in the state `s` loses on the event `e`: the one that is being
/// polled, if that is its end.
pub open spec fn lost<S, T, E>(
    s: State<S>,
    e: PollEvent<Seq<u8>, Seq<u8>, T, E>,
) -> Option<ProtocolStream<S>> {
    match (s.phase, e) {
        (Phase::Advance { proto, .. }, PollEvent::FromSatellite(Polled::Ready(None))) => Some(
            proto,
        ),
        _ => None,
    }
}

/// A step keeps all satellites as they are, with the way to each; only a satellite that ends is
/// lost, and then it alone.
pub proof fn law_step_keeps_satellites<S, T, E>(
    s: State<S>,
    e: PollEvent<Seq<u8>, Seq<u8>, T, E>,
)
    requires
        s.wf(),
        model::accepts(s, e),
    ensures
        match lost(s, e) {
            None => {
                &&& all_satellites(model::next(s, e).0) == all_satellites(s)
                &&& capabilities(model::next(s, e).0) == capabilities(s)
            },
            Some(proto) => {
                &&& all_satellites(s) == all_satellites(model::next(s, e).0).insert(proto)
                &&& capabilities(s) == capabilities(model::next(s, e).0).insert(proto.cap)
            },
        },
{
    let caps = |p: ProtocolStream<S>| p.cap;
    match (s.phase, e) {
        (Phase::Collect { out_ready }, PollEvent::FromPrimary(Polled::Pending)) => {
            lemma_advance_keeps_satellites::<S, T, E>(s, out_ready, s.satellites.len() as int);
        },
        (
            Phase::Advance { out_ready, left, proto },
            PollEvent::FromSatellite(Polled::Pending),
        ) => {
            let back = State { satellites: s.satellites.push(proto), ..s };
            s.satellites.to_multiset_ensures();
            s.satellites.map_values(caps).to_multiset_ensures();
            assert(back.satellites.map_values(caps) =~= s.satellites.map_values(caps).push(
                proto.cap,
            ));
            lemma_advance_keeps_satellites::<S, T, E>(
                back.at(Phase::Collect { out_ready }),
                out_ready,
                left as int,
            );
        },
        _ => {},
    }
}

proof fn lemma_advance_keeps_satellites<S, T, E>(s: State<S>, out_ready: bool, left: int)
    requires
        0 <= left <= s.satellites.len(),
        !(s.phase is Advance),
    ensures
        all_satellites(model::advance::<S, T, E>(s, out_ready, left).0) == all_satellites(s),
        capabilities(model::advance::<S, T, E>(s, out_ready, left).0) == capabilities(s),
{
    if left > 0 {
        let f = |p: ProtocolStream<S>| p.cap;
        let caps = s.satellites.map_values(f);
        lemma_swap_remove(s.satellites, left - 1);
        lemma_swap_remove(caps, left - 1);
        assert(s.satellites.update(left - 1, s.satellites.last()).drop_last().map_values(f)
            =~= caps.update(left - 1, caps.last()).drop_last());
    }
}

/// Taking out the item at `i`, and putting the last in its place, takes out that item alone.
proof fn lemma_swap_remove<A>(items: Seq<A>, i: int)
    requires
        0 <= i < items.len(),
    ensures
        items.update(i, items.last()).drop_last().to_multiset().insert(items[i])
            == items.to_multiset(),
{
    let moved = items.update(i, items.last());
    assert(moved.drop_last().push(moved.last()) =~= moved);
    items.to_multiset_ensures();
    moved.drop_last().to_multiset_ensures();
    vstd::seq_lib::to_multiset_update(items, i, items.last());
    let rest = moved.drop_last().to_multiset();
    let all = items.to_multiset();
    assert(rest.insert(items.last()) == all.insert(items.last()).remove(items[i]));
    assert(all.count(items[i]) > 0);
    assert forall|item: A| rest.insert(items[i]).count(item) == all.count(item) by {
        assert(rest.insert(items.last()).count(item) == all.insert(items.last()).remove(
            items[i],
        ).count(item));
    }
    assert(rest.insert(items[i]) =~= all);
}

/// The satellites that ended in the course of a run, each as it was when it ended.
pub open spec fn ended<S, T, E>(
    states: Seq<State<S>>,
    events: Seq<PollEvent<Seq<u8>, Seq<u8>, T, E>>,
) -> Multiset<ProtocolStream<S>>
    decreases events.len(),
{
    if events.len() == 0 {
        Multiset::empty()
    } else {
        let before = ended(states, events.drop_last());
        match lost(states[events.len() - 1], events.last()) {
            Some(proto) => before.insert(proto),
            None => before,
        }
    }
}

/// The capabilities of the satellites that ended in the course of a run.
pub open spec fn ended_capabilities<S, T, E>(
    states: Seq<State<S>>,
    events: Seq<PollEvent<Seq<u8>, Seq<u8>, T, E>>,
) -> Multiset<SharedCapability>
    decreases events.len(),
{
    if events.len() == 0 {
        Multiset::empty()
    } else {
        let before = ended_capabilities(states, events.drop_last());
        match lost(states[events.len() - 1], events.last()) {
            Some(proto) => before.insert(proto.cap),
            None => before,
        }
    }
}

/// Satellites stay, over any run: those at the start are those at the end and those that ended,
/// each counted as often as it was there. This holds of the satellites themselves where the driver
/// leaves their handles as they are, and of their capabilities in any case.
pub proof fn law_satellites_stay<S, T, E>(
    states: Seq<State<S>>,
    events: Seq<PollEvent<Seq<u8>, Seq<u8>, T, E>>,
    actions: Seq<PollAction<Seq<u8>, Seq<u8>, T, E>>,
)
    requires
        is_run(states, events, actions),
    ensures
        capabilities(states[0]) == capabilities(states[events.len() as int]).add(
            ended_capabilities(states, events),
        ),
        undisturbed(states, events) ==> all_satellites(states[0]) == all_satellites(
            states[events.len() as int],
        ).add(ended(states, events)),
    decreases events.len(),
{
    let end = states[events.len() as int];
    if events.len() == 0 {
        assert(capabilities(end) =~= capabilities(end).add(ended_capabilities(states, events)));
        assert(all_satellites(end) =~= all_satellites(end).add(ended(states, events)));
    } else {
        let (es, aa) = (events.drop_last(), actions.drop_last());
        lemma_shorter_run(states, events, actions);
        law_satellites_stay(states, es, aa);
        law_well_formed(states, es, aa);
        let s = states[events.len() - 1];
        law_step_keeps_satellites(s, events.last());
        assert(capabilities(end).add(ended_capabilities(states, events)) =~= capabilities(s).add(
            ended_capabilities(states, es),
        ));
        if undisturbed(states, events) {
            assert(all_satellites(end).add(ended(states, events)) =~= all_satellites(s).add(
                ended(states, es),
            ));
        }
    }
}

/// As long as no satellite ends, polling loses none and adds none.
pub proof fn law_no_satellite_is_lost<S, T, E>(
    states: Seq<State<S>>,
    events: Seq<PollEvent<Seq<u8>, Seq<u8>, T, E>>,
    actions: Seq<PollAction<Seq<u8>, Seq<u8>, T, E>>,
)
    requires
        is_run(states, events, actions),
        forall|k: int|
            0 <= k < events.len() ==> #[trigger] events[k] != PollEvent::<
                Seq<u8>,
                Seq<u8>,
                T,
                E,
            >::FromSatellite(Polled::Ready(None)),
    ensures
        capabilities(states[events.len() as int]) == capabilities(states[0]),
        undisturbed(states, events) ==> all_satellites(states[events.len() as int])
            == all_satellites(states[0]),
{
    let end = states[events.len() as int];
    law_satellites_stay(states, events, actions);
    lemma_none_ended(states, events);
    assert(capabilities(end).add(Multiset::empty()) =~= capabilities(end));
    assert(all_satellites(end).add(Multiset::empty()) =~= all_satellites(end));
}

proof fn lemma_none_ended<S, T, E>(
    states: Seq<State<S>>,
    events: Seq<PollEvent<Seq<u8>, Seq<u8>, T, E>>,
)
    requires
        forall|k: int|
            0 <= k < events.len() ==> #[trigger] events[k] != PollEvent::<
                Seq<u8>,
                Seq<u8>,
                T,
                E,
            >::FromSatellite(Polled::Ready(None)),
    ensures
        ended(states, events) == Multiset::<ProtocolStream<S>>::empty(),
        ended_capabilities(states, events) == Multiset::<SharedCapability>::empty(),
    decreases events.len(),
{
    if events.len() > 0 {
        assert forall|k: int| 0 <= k < events.len() - 1 implies #[trigger] events.drop_last()[k]
            != PollEvent::<Seq<u8>, Seq<u8>, T, E>::FromSatellite(Polled::Ready(None)) by {
            assert(events.drop_last()[k] == events[k]);
        }
        lemma_none_ended(states, events.drop_last());
        assert(events[events.len() - 1] == events.last());
    }
}

/// When a satellite ends, it is lost and no other: what was there before is what is left and that
/// satellite.
pub proof fn law_ended_satellite_alone_is_lost<S, T, E>(
    states: Seq<State<S>>,
    events: Seq<PollEvent<Seq<u8>, Seq<u8>, T, E>>,
    actions: Seq<PollAction<Seq<u8>, Seq<u8>, T, E>>,
)
    requires
        is_run(states, events, actions),
        events.len() > 0,
        events.last() == PollEvent::<Seq<u8>, Seq<u8>, T, E>::FromSatellite(Polled::Ready(None)),
        forall|k: int|
            0 <= k < events.len() - 1 ==> #[trigger] events[k] != PollEvent::<
                Seq<u8>,
                Seq<u8>,
                T,
                E,
            >::FromSatellite(Polled::Ready(None)),
    ensures
        ({
            let end = states[events.len() as int];
            &&& states[events.len() - 1].phase matches Phase::Advance { proto, .. }
            &&& capabilities(states[0]) == capabilities(end).insert(proto.cap)
            &&& undisturbed(states, events) ==> all_satellites(states[0]) == all_satellites(
                end,
            ).insert(proto)
        }),
{
    let (es, aa) = (events.drop_last(), actions.drop_last());
    lemma_shorter_run(states, events, actions);
    law_well_formed(states, es, aa);
    assert forall|k: int| 0 <= k < es.len() implies #[trigger] es[k] != PollEvent::<
        Seq<u8>,
        Seq<u8>,
        T,
        E,
    >::FromSatellite(Polled::Ready(None)) by {
        assert(es[k] == events[k]);
    }
    law_no_satellite_is_lost(states, es, aa);
    law_step_keeps_satellites(states[events.len() - 1], events.last());
}

/// How many of the events say that a satellite has nothing more to send for now.
pub open spec fn satellites_done<T, E>(events: Seq<PollEvent<Seq<u8>, Seq<u8>, T, E>>) -> nat
    decreases events.len(),
{
    if events.len() == 0 {
        0
    } else {
        satellites_done(events.drop_last()) + if events.last() == PollEvent::<
            Seq<u8>,
            Seq<u8>,
            T,
            E,
        >::FromSatellite(Polled::Pending) {
            1nat
        } else {
            0nat
        }
    }
}

/// Every satellite gets its turn, exactly once, from the last to the first, and keeps it until it
/// has nothing more to send: when `n` satellites are listed and `k` of them are done, it is the
/// turn of the one that was listed at `n - 1 - k`, and the others are listed as before. When all
/// are done, it is the connection's turn, and the first satellite has become the last.
///
/// A satellite that has not had its turn yet is as it was; one that has had it speaks the same
/// capability, and is as it was if the driver left the handles alone.
pub proof fn law_each_satellite_has_its_turn<S, T, E>(
    states: Seq<State<S>>,
    events: Seq<PollEvent<Seq<u8>, Seq<u8>, T, E>>,
    actions: Seq<PollAction<Seq<u8>, Seq<u8>, T, E>>,
)
    requires
        is_run(states, events, actions),
        events.len() > 0,
        states[0].phase is Collect,
        events[0] == PollEvent::<Seq<u8>, Seq<u8>, T, E>::FromPrimary(Polled::Pending),
        forall|k: int|
            1 <= k < events.len() ==> (#[trigger] events[k]) is FromSatellite && events[k]
                != PollEvent::<Seq<u8>, Seq<u8>, T, E>::FromSatellite(Polled::Ready(None)),
    ensures
        ({
            let before = states[0].satellites;
            let now = states[events.len() as int].satellites;
            let n = before.len();
            let k = satellites_done(events);
            &&& k <= n
            &&& k < n ==> {
                &&& states[events.len() as int].phase matches Phase::Advance { left, proto, .. }
                &&& left == n - 1 - k
                &&& proto.cap == before[n - 1 - k].cap
                &&& undisturbed(states, events) ==> proto == before[n - 1 - k]
                &&& actions.last() is PollSatellite
                &&& now.len() == n - 1
                &&& now.take(left as int) == before.take(left as int)
                &&& forall|j: int| left <= j < n - 1 ==> (#[trigger] now[j]).cap == before[j + 1].cap
                &&& undisturbed(states, events) ==> forall|j: int|
                    left <= j < n - 1 ==> #[trigger] now[j] == before[j + 1]
            }
            &&& k == n ==> {
                &&& states[events.len() as int].phase is Receive
                &&& actions.last() is PollConn
                &&& now.len() == n
                &&& forall|j: int| 0 <= j < n - 1 ==> (#[trigger] now[j]).cap == before[j + 1].cap
                &&& n > 0 ==> now[n - 1].cap == before[0].cap
                &&& undisturbed(states, events) ==> {
                    &&& forall|j: int| 0 <= j < n - 1 ==> #[trigger] now[j] == before[j + 1]
                    &&& n > 0 ==> now[n - 1] == before[0]
                }
            }
        }),
    decreases events.len(),
{
    lemma_shorter_run(states, events, actions);
    let (es, aa) = (events.drop_last(), actions.drop_last());
    let s = states[events.len() - 1];
    let init = states[0].satellites;
    let n = init.len();
    if events.len() == 1 {
        assert(es.len() == 0);
        assert(satellites_done(es) == 0);
        assert(events.last() == events[0]);
        assert(s == states[0]);
        if n > 0 {
            let now = model::next(s, events.last()).0;
            assert(now.satellites.take(n - 1) =~= init.take(n - 1));
        }
    } else {
        assert forall|k: int| 1 <= k < es.len() implies (#[trigger] es[k]) is FromSatellite
            && es[k] != PollEvent::<Seq<u8>, Seq<u8>, T, E>::FromSatellite(Polled::Ready(None)) by {
            assert(es[k] == events[k]);
        }
        law_each_satellite_has_its_turn(states, es, aa);
        assert(events[events.len() - 1] == events.last());
        let now = model::next(s, events.last()).0;
        assert(s.phase is Advance);
        if let PollEvent::FromSatellite(Polled::Pending) = events.last() {
            if let Phase::Advance { left, proto, .. } = s.phase {
                let back = s.satellites.push(proto);
                assert forall|j: int| 0 <= j < left implies #[trigger] s.satellites[j]
                    == init[j] by {
                    assert(s.satellites.take(left as int)[j] == init.take(left as int)[j]);
                }
                if left > 0 {
                    assert(now.satellites == back.update(left - 1, proto).drop_last());
                    assert(now.satellites.take(left - 1) =~= init.take(left - 1));
                } else {
                    assert(now.satellites == back);
                }
            }
        }
    }
}

/// A stream that asks to return is at rest, and a stream at rest has asked to return: every poll
/// starts over with the primary protocol.
pub proof fn law_at_rest_between_polls<S, T, E>(
    s: State<S>,
    e: PollEvent<Seq<u8>, Seq<u8>, T, E>,
)
    requires
        model::accepts(s, e),
    ensures
        model::next(s, e).1 is Return <==> model::next(s, e).0.phase is Idle,
        e is Wake ==> model::next(s, e).1 is PollPrimary,
{
}

/// A poll stays pending only when the connection has no message, and then only if the connection
/// gave none since the satellites were polled, or it did not take all that was queued, or nothing
/// is queued.
pub proof fn law_pending<S, T, E>(s: State<S>, e: PollEvent<Seq<u8>, Seq<u8>, T, E>)
    requires
        model::accepts(s, e),
    ensures
        model::next(s, e).1 == PollAction::<Seq<u8>, Seq<u8>, T, E>::Return(Polled::Pending) <==> {
            &&& e == PollEvent::<Seq<u8>, Seq<u8>, T, E>::FromConn(Polled::Pending)
            &&& s.phase matches Phase::Receive { out_ready, delegated }
            &&& !delegated || !out_ready || s.out_buffer.len() == 0
        },
{
}

/// The stream ends exactly when the channel from the primary protocol, a satellite or the
/// connection does.
pub proof fn law_end<S, T, E>(s: State<S>, e: PollEvent<Seq<u8>, Seq<u8>, T, E>)
    requires
        model::accepts(s, e),
    ensures
        model::next(s, e).1 == PollAction::<Seq<u8>, Seq<u8>, T, E>::Return(Polled::Ready(None))
            <==> {
            ||| e == PollEvent::<Seq<u8>, Seq<u8>, T, E>::FromPrimary(Polled::Ready(None))
            ||| e == PollEvent::<Seq<u8>, Seq<u8>, T, E>::FromSatellite(Polled::Ready(None))
            ||| e == PollEvent::<Seq<u8>, Seq<u8>, T, E>::FromConn(Polled::Ready(None))
        },
{
}

/// The stream gives an item exactly when the primary protocol gives it, handing a message to the
/// connection fails or the connection fails; and it is that item or that error.
pub proof fn law_item<S, T, E>(
    s: State<S>,
    e: PollEvent<Seq<u8>, Seq<u8>, T, E>,
    item: Result<T, E>,
)
    requires
        model::accepts(s, e),
    ensures
        model::next(s, e).1 == PollAction::<Seq<u8>, Seq<u8>, T, E>::Return(
            Polled::Ready(Some(item)),
        ) <==> {
            ||| e == PollEvent::<Seq<u8>, Seq<u8>, T, E>::Primary(Polled::Ready(Some(item)))
            ||| item matches Err(err) && {
                ||| e == PollEvent::<Seq<u8>, Seq<u8>, T, E>::Sent(Err(err))
                ||| e == PollEvent::<Seq<u8>, Seq<u8>, T, E>::FromConn(
                    Polled::Ready(Some(Err(err))),
                )
            }
        },
{
}

/// The connection counts as having taken all that was queued only if nothing was left.
pub proof fn law_drained<S, T, E>(s: State<S>, e: PollEvent<Seq<u8>, Seq<u8>, T, E>)
    requires
        model::accepts(s, e),
        s.phase is Drain,
    ensures
        model::next(s, e).0.phase == (Phase::<S>::Collect { out_ready: true }) <==> e
            != PollEvent::<Seq<u8>, Seq<u8>, T, E>::ConnReady(Polled::Pending)
            && s.out_buffer.len() == 0,
{
}

/// Which events a stream takes: what can come of the action that it last asked for. A message of a
/// satellite must have an id that stays a byte when the satellite's offset is added. A message of
/// the connection must have an id; and if any satellite has an offset from that id up to, but not
/// including, the offset of the primary protocol, one must have the id itself as its offset.
pub proof fn law_accepted_events<S, T, E>(s: State<S>, e: PollEvent<Seq<u8>, Seq<u8>, T, E>)
    ensures
        e is Wake ==> (model::accepts(s, e) <==> s.phase is Idle),
        e is Primary ==> (model::accepts(s, e) <==> s.phase is Primary),
        e is ConnReady ==> (model::accepts(s, e) <==> s.phase is Drain),
        e is Sent ==> (model::accepts(s, e) <==> s.phase is Sending),
        e is FromPrimary ==> (model::accepts(s, e) <==> s.phase is Collect),
        e matches PollEvent::FromSatellite(polled) ==> (model::accepts(s, e) <==> {
            &&& s.phase matches Phase::Advance { proto, .. }
            &&& polled matches Polled::Ready(Some(msg)) ==> msg.len() > 0 && msg[0] as int
                + proto.cap.offset as int <= 255
        }),
        e matches PollEvent::FromConn(polled) ==> (model::accepts(s, e) <==> {
            &&& s.phase is Receive
            &&& polled matches Polled::Ready(Some(Ok(msg))) ==> msg.len() > 0 && ((exists|j: int|
                0 <= j < s.satellites.len() && msg[0] <= (
                #[trigger] s.satellites[j]).cap.offset < s.primary_capability.offset) ==> exists|
                j: int,
            |
                0 <= j < s.satellites.len() && (#[trigger] s.satellites[j]).cap.offset == msg[0])
        }),
        e is Delegated ==> (model::accepts(s, e) <==> s.phase is Delegate),
{
    if let PollEvent::FromConn(Polled::Ready(Some(Ok(msg)))) = e {
        routing::law_destination(s.satellites, s.primary_capability.offset, msg[0]);
    }
}

/// When the stream asks for which action. In particular, as long as the connection is ready and
/// something is queued, the oldest message is handed over and the connection is asked again; the
/// channel from the primary protocol is polled until it gives nothing; and the connection is
/// polled for messages only when no satellite is left to be polled.
pub proof fn law_when_asked<S, T, E>(s: State<S>, e: PollEvent<Seq<u8>, Seq<u8>, T, E>)
    requires
        s.wf(),
        model::accepts(s, e),
    ensures
        model::next(s, e).1 is PollPrimary <==> e is Wake || {
            &&& e == PollEvent::<Seq<u8>, Seq<u8>, T, E>::FromConn(Polled::Pending)
            &&& s.phase matches Phase::Receive { out_ready, delegated }
            &&& delegated
            &&& out_ready
            &&& s.out_buffer.len() > 0
        },
        model::next(s, e).1 is PollConnReady <==> {
            ||| e == PollEvent::<Seq<u8>, Seq<u8>, T, E>::Primary(Polled::Ready(None))
            ||| e == PollEvent::<Seq<u8>, Seq<u8>, T, E>::Primary(Polled::Pending)
            ||| e == PollEvent::<Seq<u8>, Seq<u8>, T, E>::Sent(Ok(()))
        },
        forall|msg: Seq<u8>|
            model::next(s, e).1 == PollAction::<Seq<u8>, Seq<u8>, T, E>::StartSend(msg) <==> {
                &&& e is ConnReady
                &&& e != PollEvent::<Seq<u8>, Seq<u8>, T, E>::ConnReady(Polled::Pending)
                &&& s.out_buffer.len() > 0
                &&& msg == s.out_buffer[0]
            },
        model::next(s, e).1 is PollFromPrimary <==> {
            ||| e == PollEvent::<Seq<u8>, Seq<u8>, T, E>::ConnReady(Polled::Pending)
            ||| e is ConnReady && s.out_buffer.len() == 0
            ||| e matches PollEvent::FromPrimary(Polled::Ready(Some(_)))
        },
        model::next(s, e).1 is PollSatellite <==> {
            ||| e == PollEvent::<Seq<u8>, Seq<u8>, T, E>::FromPrimary(Polled::Pending)
                && s.satellites.len() > 0
            ||| e matches PollEvent::FromSatellite(Polled::Ready(Some(_)))
            ||| e == PollEvent::<Seq<u8>, Seq<u8>, T, E>::FromSatellite(Polled::Pending)
                && s.phase->left > 0
        },
        model::next(s, e).1 is PollConn <==> {
            ||| e == PollEvent::<Seq<u8>, Seq<u8>, T, E>::FromPrimary(Polled::Pending)
                && s.satellites.len() == 0
            ||| e == PollEvent::<Seq<u8>, Seq<u8>, T, E>::FromSatellite(Polled::Pending)
                && s.phase->left == 0
            ||| e is Delegated
        },
        (model::next(s, e).1 is DelegateToSatellite || model::next(s, e).1 is DelegateToPrimary)
            <==> (e matches PollEvent::FromConn(Polled::Ready(Some(Ok(_))))),
{
    if let PollEvent::Sent(Ok(unit)) = e {
        // there is one value of the unit type
        assert(unit == ());
    }
}

/// The phase of a stream says what it has asked for, and nothing else: the next event that it
/// takes is what comes of that.
pub proof fn law_phase_awaits_the_action<S, T, E>(
    s: State<S>,
    e: PollEvent<Seq<u8>, Seq<u8>, T, E>,
)
    requires
        s.wf(),
        model::accepts(s, e),
    ensures
        ({
            let (t, action) = model::next(s, e);
            &&& action is PollPrimary <==> t.phase is Primary
            &&& action is PollConnReady <==> t.phase is Drain
            &&& action is StartSend <==> t.phase is Sending
            &&& action is PollFromPrimary <==> t.phase is Collect
            &&& action is PollSatellite <==> t.phase is Advance
            &&& action is PollConn <==> t.phase is Receive
            &&& (action is DelegateToSatellite || action is DelegateToPrimary)
                <==> t.phase is Delegate
            &&& action is Return <==> t.phase is Idle
        }),
{
}

/// The list of satellites changes only when one is taken out for its turn or put back after it:
/// when the channel from the primary protocol, or a satellite, has nothing more to send.
pub proof fn law_list_stays<S, T, E>(s: State<S>, e: PollEvent<Seq<u8>, Seq<u8>, T, E>)
    requires
        model::accepts(s, e),
        e != PollEvent::<Seq<u8>, Seq<u8>, T, E>::FromPrimary(Polled::Pending),
        e != PollEvent::<Seq<u8>, Seq<u8>, T, E>::FromSatellite(Polled::Pending),
    ensures
        model::next(s, e).0.satellites == s.satellites,
        model::next(s, e).0.primary_capability == s.primary_capability,
{
}

/// A satellite that has sent a message keeps its turn: it is the same satellite, as many are left
/// to be polled after it, and only the queue has grown, by its message with the offset added to
/// the id.
pub proof fn law_satellite_keeps_its_turn<S, T, E>(s: State<S>, msg: Seq<u8>)
    requires
        model::accepts::<S, T, E>(s, PollEvent::FromSatellite(Polled::Ready(Some(msg)))),
    ensures
        ({
            let t = model::next::<S, T, E>(
                s,
                PollEvent::FromSatellite(Polled::Ready(Some(msg))),
            ).0;
            &&& t.phase == s.phase
            &&& t.out_buffer.len() == s.out_buffer.len() + 1
            &&& t.out_buffer.drop_last() == s.out_buffer
            &&& t.out_buffer.last().len() == msg.len()
            &&& t.out_buffer.last()[0] as int == msg[0] as int + s.phase->proto.cap.offset as int
            &&& t.out_buffer.last().skip(1) == msg.skip(1)
        }),
{
    let t = model::next::<S, T, E>(s, PollEvent::FromSatellite(Polled::Ready(Some(msg)))).0;
    assert(t.out_buffer.drop_last() =~= s.out_buffer);
    assert(t.out_buffer.last().skip(1) =~= msg.skip(1));
}

/// A drain goes on: as long as the connection is ready, every send succeeds and something is
/// queued, the queued messages are handed over one after the other, oldest first. After `n` of
/// them, those are gone from the queue and the connection is being asked again.
#[verifier::rlimit(40)]
pub proof fn law_drain_goes_on<S, T, E>(
    states: Seq<State<S>>,
    events: Seq<PollEvent<Seq<u8>, Seq<u8>, T, E>>,
    actions: Seq<PollAction<Seq<u8>, Seq<u8>, T, E>>,
    n: nat,
)
    requires
        is_run(states, events, actions),
        states[0].phase is Drain,
        n <= states[0].out_buffer.len(),
        events.len() == 2 * n,
        forall|k: int|
            0 <= k < 2 * n ==> if k % 2 == 0 {
                (#[trigger] events[k]) is ConnReady && events[k] != PollEvent::<
                    Seq<u8>,
                    Seq<u8>,
                    T,
                    E,
                >::ConnReady(Polled::Pending)
            } else {
                events[k] == PollEvent::<Seq<u8>, Seq<u8>, T, E>::Sent(Ok(()))
            },
    ensures
        handed_over(actions) == states[0].out_buffer.take(n as int),
        states[2 * n as int].out_buffer == states[0].out_buffer.skip(n as int),
        states[2 * n as int].phase is Drain,
        n > 0 ==> actions.last() is PollConnReady,
    decreases n,
{
    let queue = states[0].out_buffer;
    if n == 0 {
        assert(handed_over(actions) =~= queue.take(0));
        assert(queue.skip(0) =~= queue);
    } else {
        let (e1, a1) = (events.drop_last(), actions.drop_last());
        let (e2, a2) = (e1.drop_last(), a1.drop_last());
        lemma_shorter_run(states, events, actions);
        lemma_shorter_run(states, e1, a1);
        assert forall|k: int| 0 <= k < 2 * (n - 1) implies #[trigger] e2[k] == events[k] by {}
        law_drain_goes_on(states, e2, a2, (n - 1) as nat);
        assert(events[2 * n - 1] == events.last());
        assert(events[2 * n - 2] == e1.last());
        let s = states[2 * n - 2];
        assert(s.out_buffer[0] == queue[n - 1]);
        assert(a1.last() == PollAction::<Seq<u8>, Seq<u8>, T, E>::StartSend(queue[n - 1]));
        assert(actions.last() is PollConnReady);
        assert(handed_over(a1) == handed_over(a2).push(queue[n - 1]));
        assert(handed_over(actions) == handed_over(a1));
        assert(queue.take(n - 1).push(queue[n - 1]) =~= queue.take(n as int));
        assert(s.out_buffer.skip(1) =~= queue.skip(n as int));
    }
}

/// Collecting goes on: as long as the primary protocol has messages in its channel, they are
/// queued one after the other and the channel is polled again.
pub proof fn law_collecting_goes_on<S, T, E>(
    states: Seq<State<S>>,
    events: Seq<PollEvent<Seq<u8>, Seq<u8>, T, E>>,
    actions: Seq<PollAction<Seq<u8>, Seq<u8>, T, E>>,
    msgs: Seq<Seq<u8>>,
)
    requires
        is_run(states, events, actions),
        states[0].phase is Collect,
        events.len() == msgs.len(),
        forall|k: int|
            0 <= k < events.len() ==> #[trigger] events[k] == PollEvent::<
                Seq<u8>,
                Seq<u8>,
                T,
                E,
            >::FromPrimary(Polled::Ready(Some(msgs[k]))),
    ensures
        states[events.len() as int].phase == states[0].phase,
        states[events.len() as int].out_buffer == states[0].out_buffer + msgs,
        states[events.len() as int].satellites == states[0].satellites,
        events.len() > 0 ==> actions.last() is PollFromPrimary,
    decreases events.len(),
{
    if events.len() == 0 {
        assert(states[0].out_buffer + msgs =~= states[0].out_buffer);
    } else {
        let (es, aa) = (events.drop_last(), actions.drop_last());
        lemma_shorter_run(states, events, actions);
        assert forall|k: int| 0 <= k < es.len() implies #[trigger] es[k] == PollEvent::<
            Seq<u8>,
            Seq<u8>,
            T,
            E,
        >::FromPrimary(Polled::Ready(Some(msgs.drop_last()[k]))) by {
            assert(es[k] == events[k]);
        }
        law_collecting_goes_on(states, es, aa, msgs.drop_last());
        assert(events[events.len() - 1] == events.last());
        assert((states[0].out_buffer + msgs.drop_last()).push(msgs.last())
            =~= states[0].out_buffer + msgs);
    }
}

/// Whether the connection was ready the last time it was asked whether it takes a message.
pub open spec fn was_ready<T, E>(events: Seq<PollEvent<Seq<u8>, Seq<u8>, T, E>>) -> bool
    decreases events.len(),
{
    events.len() > 0 && match events.last() {
        PollEvent::ConnReady(Polled::Ready(_)) => true,
        PollEvent::ConnReady(Polled::Pending) => false,
        _ => was_ready(events.drop_last()),
    }
}

/// Whether the last events are messages from the connection, passed on, and at least one.
pub open spec fn just_received<T, E>(events: Seq<PollEvent<Seq<u8>, Seq<u8>, T, E>>) -> bool
    decreases events.len(),
{
    events.len() > 0 && match events.last() {
        PollEvent::FromConn(Polled::Ready(Some(Ok(_)))) => true,
        PollEvent::Delegated => just_received(events.drop_last()),
        _ => false,
    }
}

/// Whether the channel from the primary protocol has had nothing more to send in this round, that
/// is since the primary protocol was last polled.
pub open spec fn collected<T, E>(events: Seq<PollEvent<Seq<u8>, Seq<u8>, T, E>>) -> bool
    decreases events.len(),
{
    events.len() > 0 && match events.last() {
        PollEvent::Primary(_) => false,
        PollEvent::FromPrimary(Polled::Pending) => true,
        _ => collected(events.drop_last()),
    }
}

/// How many satellites have had nothing more to send in this round, that is since the primary
/// protocol was last polled.
pub open spec fn turns<T, E>(events: Seq<PollEvent<Seq<u8>, Seq<u8>, T, E>>) -> nat
    decreases events.len(),
{
    if events.len() == 0 {
        0
    } else {
        match events.last() {
            PollEvent::Primary(_) => 0,
            PollEvent::FromSatellite(Polled::Pending) => turns(events.drop_last()) + 1,
            _ => turns(events.drop_last()),
        }
    }
}

/// What a stream that started at rest remembers of a round is what happened in it. Whether the
/// connection took all that was queued is whether it was ready the last time it was asked, however
/// many satellites were polled and messages passed on since; and whether something was passed on
/// is whether a message came from the connection since the satellites were polled.
pub proof fn law_what_is_remembered<S, T, E>(
    states: Seq<State<S>>,
    events: Seq<PollEvent<Seq<u8>, Seq<u8>, T, E>>,
    actions: Seq<PollAction<Seq<u8>, Seq<u8>, T, E>>,
)
    requires
        is_run(states, events, actions),
        states[0].phase is Idle,
    ensures
        match states[events.len() as int].phase {
            Phase::Collect { out_ready } => out_ready == was_ready(events),
            Phase::Advance { out_ready, .. } => out_ready == was_ready(events),
            Phase::Receive { out_ready, delegated } => {
                &&& out_ready == was_ready(events)
                &&& delegated == just_received(events)
            },
            Phase::Delegate { out_ready } => {
                &&& out_ready == was_ready(events)
                &&& just_received(events)
            },
            _ => true,
        },
    decreases events.len(),
{
    if events.len() > 0 {
        lemma_shorter_run(states, events, actions);
        law_what_is_remembered(states, events.drop_last(), actions.drop_last());
    }
}

/// When the connection has no more messages, the stream goes round again exactly if the connection
/// was ready the last time it was asked, a message came from it since the satellites were polled,
/// and something is queued; else the poll stays pending.
pub proof fn law_goes_round_again<S, T, E>(
    states: Seq<State<S>>,
    events: Seq<PollEvent<Seq<u8>, Seq<u8>, T, E>>,
    actions: Seq<PollAction<Seq<u8>, Seq<u8>, T, E>>,
)
    requires
        is_run(states, events, actions),
        states[0].phase is Idle,
        events.len() > 0,
        events.last() == PollEvent::<Seq<u8>, Seq<u8>, T, E>::FromConn(Polled::Pending),
    ensures
        actions.last() == if was_ready(events) && just_received(events.drop_last())
            && states[events.len() as int].out_buffer.len() > 0 {
            PollAction::<Seq<u8>, Seq<u8>, T, E>::PollPrimary
        } else {
            PollAction::<Seq<u8>, Seq<u8>, T, E>::Return(Polled::Pending)
        },
{
    lemma_shorter_run(states, events, actions);
    law_what_is_remembered(states, events.drop_last(), actions.drop_last());
}

/// The connection is polled for messages only after, in the same round, the channel from the
/// primary protocol and each of the satellites had nothing more to send.
pub proof fn law_all_are_polled_before_the_connection<S, T, E>(
    states: Seq<State<S>>,
    events: Seq<PollEvent<Seq<u8>, Seq<u8>, T, E>>,
    actions: Seq<PollAction<Seq<u8>, Seq<u8>, T, E>>,
)
    requires
        is_run(states, events, actions),
        states[0].phase is Idle,
        events.len() > 0,
    ensures
        actions.last() is PollConn ==> {
            &&& collected(events)
            &&& turns(events) == states[events.len() as int].satellites.len()
        },
        actions.last() is PollSatellite ==> collected(events),
{
    lemma_shorter_run(states, events, actions);
    lemma_polled_so_far(states, events, actions);
    let s = states[events.len() - 1];
    law_well_formed(states, events.drop_last(), actions.drop_last());
    law_phase_awaits_the_action(s, events.last());
}

proof fn lemma_polled_so_far<S, T, E>(
    states: Seq<State<S>>,
    events: Seq<PollEvent<Seq<u8>, Seq<u8>, T, E>>,
    actions: Seq<PollAction<Seq<u8>, Seq<u8>, T, E>>,
)
    requires
        is_run(states, events, actions),
        states[0].phase is Idle,
    ensures
        ({
            let s = states[events.len() as int];
            match s.phase {
                Phase::Idle | Phase::Primary => true,
                Phase::Drain | Phase::Sending | Phase::Collect { .. } => turns(events) == 0,
                Phase::Advance { left, .. } => collected(events) && turns(events) + left
                    == s.satellites.len(),
                Phase::Receive { .. } | Phase::Delegate { .. } => collected(events) && turns(events)
                    == s.satellites.len(),
            }
        }),
    decreases events.len(),
{
    if events.len() > 0 {
        lemma_shorter_run(states, events, actions);
        lemma_polled_so_far(states, events.drop_last(), actions.drop_last());
        law_well_formed(states, events.drop_last(), actions.drop_last());
    }
}

} // verus!
