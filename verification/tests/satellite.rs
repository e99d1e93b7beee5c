use std::collections::VecDeque;

use bytes::{Bytes, BytesMut};
use rlpx_multiplex::capability::{Capability, SharedCapabilities, SharedCapability};
use rlpx_multiplex::model::{PollAction, PollEvent};
use rlpx_multiplex::p2p::P2PStream;
use rlpx_multiplex::polled::Polled;
use rlpx_multiplex::protocol::ProtocolStream;
use rlpx_multiplex::routing::find_destination;
use rlpx_multiplex::satellite::{ReadyAction, ReadyEvent, RlpxSatelliteStream};

type Item = &'static str;
type Event = PollEvent<Bytes, BytesMut, Item, &'static str>;
type Action = PollAction<Bytes, BytesMut, Item, &'static str>;
type Stream = RlpxSatelliteStream<(), (), &'static str>;

fn shared(name: &str, offset: u8) -> SharedCapability {
    SharedCapability::new(Capability::new(name.to_string(), 1), offset)
}

fn satellite(handle: &'static str, offset: u8) -> ProtocolStream<&'static str> {
    ProtocolStream { cap: shared(handle, offset), handle }
}

fn stream(satellites: Vec<ProtocolStream<&'static str>>, primary_offset: u8) -> Stream {
    let conn = P2PStream::new((), SharedCapabilities::new(vec![]));
    RlpxSatelliteStream::new(conn, (), shared("eth", primary_offset), satellites)
}

fn step(stream: &mut Stream, event: Event) -> Action {
    assert!(stream.accepts(&event), "{:?} is not accepted", event);
    stream.poll_next(event)
}

fn wire(bytes: &[u8]) -> Event {
    PollEvent::FromConn(Polled::Ready(Some(Ok(BytesMut::from(bytes)))))
}

/// Takes a stream through a poll up to the point where the connection is polled for messages.
fn up_to_conn(stream: &mut Stream, satellites: usize) {
    assert_eq!(step(stream, PollEvent::Wake), PollAction::PollPrimary);
    assert_eq!(
        step(stream, PollEvent::Primary(Polled::Pending)),
        PollAction::PollConnReady
    );
    assert_eq!(
        step(stream, PollEvent::ConnReady(Polled::Ready(Ok(())))),
        PollAction::PollFromPrimary
    );
    let mut action = step(stream, PollEvent::FromPrimary(Polled::Pending));
    for _ in 0..satellites {
        assert_eq!(action, PollAction::PollSatellite);
        action = step(stream, PollEvent::FromSatellite(Polled::Pending));
    }
    assert_eq!(action, PollAction::PollConn);
}

/// What the parts of a stream will give when they are polled, and what was done to them.
#[derive(Default)]
struct World {
    primary: VecDeque<Item>,
    conn_room: usize,
    from_primary: VecDeque<Bytes>,
    from_satellite: VecDeque<(&'static str, BytesMut)>,
    from_conn: VecDeque<BytesMut>,
    sent: Vec<Bytes>,
    turns: Vec<&'static str>,
    to_primary: Vec<BytesMut>,
    to_satellite: Vec<(&'static str, BytesMut)>,
}

impl World {
    fn poll(&mut self, stream: &mut Stream) -> Polled<Option<Result<Item, &'static str>>> {
        let mut event: Event = PollEvent::Wake;
        loop {
            event = match step(stream, event) {
                PollAction::PollPrimary => PollEvent::Primary(match self.primary.pop_front() {
                    Some(item) => Polled::Ready(Some(Ok(item))),
                    None => Polled::Pending,
                }),
                PollAction::PollConnReady => PollEvent::ConnReady(if self.conn_room > 0 {
                    Polled::Ready(Ok(()))
                } else {
                    Polled::Pending
                }),
                PollAction::StartSend(msg) => {
                    self.conn_room -= 1;
                    self.sent.push(msg);
                    PollEvent::Sent(Ok(()))
                }
                PollAction::PollFromPrimary => {
                    PollEvent::FromPrimary(match self.from_primary.pop_front() {
                        Some(msg) => Polled::Ready(Some(msg)),
                        None => Polled::Pending,
                    })
                }
                PollAction::PollSatellite => {
                    let name = *stream.advancing_mut().unwrap();
                    let at = self.from_satellite.iter().position(|(to, _)| *to == name);
                    PollEvent::FromSatellite(match at {
                        Some(at) => Polled::Ready(Some(self.from_satellite.remove(at).unwrap().1)),
                        None => {
                            self.turns.push(name);
                            Polled::Pending
                        }
                    })
                }
                PollAction::PollConn => PollEvent::FromConn(match self.from_conn.pop_front() {
                    Some(msg) => Polled::Ready(Some(Ok(msg))),
                    None => Polled::Pending,
                }),
                PollAction::DelegateToSatellite(idx, msg) => {
                    self.to_satellite.push((stream.satellites()[idx].handle, msg));
                    PollEvent::Delegated
                }
                PollAction::DelegateToPrimary(msg) => {
                    self.to_primary.push(msg);
                    PollEvent::Delegated
                }
                PollAction::Return(polled) => return polled,
            };
        }
    }
}

#[test]
fn item_of_primary_comes_first() {
    let mut stream = stream(vec![], 16);
    assert_eq!(step(&mut stream, PollEvent::Wake), PollAction::PollPrimary);
    let event = PollEvent::Primary(Polled::Ready(Some(Ok("block"))));
    let returned = step(&mut stream, event);
    assert_eq!(returned, PollAction::Return(Polled::Ready(Some(Ok("block")))));
    assert_eq!(step(&mut stream, PollEvent::Wake), PollAction::PollPrimary);
    let event = PollEvent::Primary(Polled::Ready(Some(Err("bad block"))));
    let returned = step(&mut stream, event);
    assert_eq!(returned, PollAction::Return(Polled::Ready(Some(Err("bad block")))));
}

#[test]
fn end_of_primary_items_is_not_the_end() {
    let mut stream = stream(vec![], 16);
    step(&mut stream, PollEvent::Wake);
    let action = step(&mut stream, PollEvent::Primary(Polled::Ready(None)));
    assert_eq!(action, PollAction::PollConnReady);
}

#[test]
fn messages_go_out_in_order() {
    let mut stream = stream(vec![satellite("snap", 40)], 16);
    let mut world = World::default();
    world.from_primary.push_back(Bytes::from_static(&[16, 1]));
    world.from_primary.push_back(Bytes::from_static(&[17, 2]));
    world.from_satellite.push_back(("snap", BytesMut::from(&[2u8, 3][..])));
    assert_eq!(world.poll(&mut stream), Polled::Pending);
    assert!(world.sent.is_empty());
    let queued: Vec<&[u8]> = stream.out_buffer().iter().map(|msg| &msg[..]).collect();
    assert_eq!(queued, vec![&[16u8, 1][..], &[17, 2], &[42, 3]]);

    world.from_primary.push_back(Bytes::from_static(&[18, 4]));
    world.conn_room = 2;
    assert_eq!(world.poll(&mut stream), Polled::Pending);
    assert_eq!(world.sent, vec![Bytes::from_static(&[16, 1]), Bytes::from_static(&[17, 2])]);

    world.conn_room = 9;
    assert_eq!(world.poll(&mut stream), Polled::Pending);
    assert_eq!(
        world.sent,
        vec![
            Bytes::from_static(&[16, 1]),
            Bytes::from_static(&[17, 2]),
            Bytes::from_static(&[42, 3]),
            Bytes::from_static(&[18, 4]),
        ]
    );
}

#[test]
fn every_satellite_has_one_turn_per_poll() {
    let all = vec![satellite("a", 1), satellite("b", 2), satellite("c", 3), satellite("d", 4)];
    let mut stream = stream(all, 16);
    let mut world = World::default();
    assert_eq!(world.poll(&mut stream), Polled::Pending);
    assert_eq!(world.turns, vec!["d", "c", "b", "a"]);

    let mut listed: Vec<&str> = (0..4).map(|i| stream.satellites()[i].handle).collect();
    world.turns.clear();
    assert_eq!(world.poll(&mut stream), Polled::Pending);
    listed.reverse();
    assert_eq!(world.turns, listed);
    let mut names = world.turns.clone();
    names.sort();
    assert_eq!(names, vec!["a", "b", "c", "d"]);
}

#[test]
fn satellite_keeps_its_turn_until_it_is_done() {
    let mut stream = stream(vec![satellite("a", 1), satellite("b", 2)], 16);
    let mut world = World::default();
    world.from_satellite.push_back(("b", BytesMut::from(&[0u8][..])));
    world.from_satellite.push_back(("a", BytesMut::from(&[0u8][..])));
    world.from_satellite.push_back(("b", BytesMut::from(&[1u8][..])));
    assert_eq!(world.poll(&mut stream), Polled::Pending);
    world.conn_room = 3;
    assert_eq!(world.poll(&mut stream), Polled::Pending);
    let sent: Vec<u8> = world.sent.iter().map(|msg| msg[0]).collect();
    assert_eq!(sent, vec![2, 3, 1]);
}

#[test]
fn handle_of_polled_satellite_can_be_changed() {
    let mut stream = stream(vec![satellite("a", 1)], 16);
    assert!(stream.advancing_mut().is_none());
    step(&mut stream, PollEvent::Wake);
    step(&mut stream, PollEvent::Primary(Polled::Pending));
    step(&mut stream, PollEvent::ConnReady(Polled::Pending));
    step(&mut stream, PollEvent::FromPrimary(Polled::Pending));
    *stream.advancing_mut().unwrap() = "a, polled";
    step(&mut stream, PollEvent::FromSatellite(Polled::Pending));
    assert!(stream.advancing_mut().is_none());
    assert_eq!(stream.satellites()[0].handle, "a, polled");
    assert_eq!(stream.satellites()[0].cap.relative_message_id_offset(), 1);
}

#[test]
fn messages_are_passed_on_to_where_they_belong() {
    let mut stream = stream(vec![satellite("low", 3), satellite("high", 9)], 16);
    let mut world = World::default();
    world.from_conn.push_back(BytesMut::from(&[16u8, 1][..]));
    world.from_conn.push_back(BytesMut::from(&[9u8, 2][..]));
    world.from_conn.push_back(BytesMut::from(&[3u8, 3][..]));
    world.from_conn.push_back(BytesMut::from(&[200u8, 4][..]));
    assert_eq!(world.poll(&mut stream), Polled::Pending);
    assert_eq!(
        world.to_primary,
        vec![BytesMut::from(&[16u8, 1][..]), BytesMut::from(&[200u8, 4][..])]
    );
    assert_eq!(
        world.to_satellite,
        vec![
            ("high", BytesMut::from(&[0u8, 2][..])),
            ("low", BytesMut::from(&[0u8, 3][..])),
        ]
    );
}

#[test]
fn destination_is_the_lowest_offset_not_below_the_id() {
    let eth = shared("eth", 16);
    let all = vec![satellite("a", 12), satellite("b", 5), satellite("c", 5), satellite("d", 20)];
    assert_eq!(find_destination(&all, &eth, 0), Some(1));
    assert_eq!(find_destination(&all, &eth, 5), Some(1));
    assert_eq!(find_destination(&all, &eth, 6), Some(0));
    assert_eq!(find_destination(&all, &eth, 12), Some(0));
    // the lowest that is left is not below the primary protocol
    assert_eq!(find_destination(&all, &eth, 13), None);
    assert_eq!(find_destination(&all, &eth, 20), None);
    assert_eq!(find_destination(&all, &eth, 21), None);
}

#[test]
fn ids_from_the_offset_of_the_primary_on_are_the_primarys() {
    let all = vec![satellite("a", 0), satellite("b", 15), satellite("c", 16), satellite("d", 255)];
    for id in 16..=255 {
        assert_eq!(find_destination(&all, &shared("eth", 16), id), None);
    }
}

#[test]
fn without_satellites_the_primary_gets_all() {
    let none: Vec<ProtocolStream<()>> = vec![];
    for id in 0..=255 {
        assert_eq!(find_destination(&none, &shared("eth", 255), id), None);
    }
}

#[test]
fn message_that_cannot_be_handled_is_not_accepted() {
    let mut stream = stream(vec![satellite("snap", 9)], 16);
    step(&mut stream, PollEvent::Wake);
    step(&mut stream, PollEvent::Primary(Polled::Pending));
    step(&mut stream, PollEvent::ConnReady(Polled::Pending));
    step(&mut stream, PollEvent::FromPrimary(Polled::Pending));
    let from_satellite = |msg: &[u8]| -> Event {
        PollEvent::FromSatellite(Polled::Ready(Some(BytesMut::from(msg))))
    };
    assert!(!stream.accepts(&from_satellite(&[])));
    assert!(!stream.accepts(&from_satellite(&[247])));
    assert!(stream.accepts(&from_satellite(&[246])));
    step(&mut stream, PollEvent::FromSatellite(Polled::Pending));
    assert!(!stream.accepts(&wire(&[])));
    // for the satellite, but below its offset
    assert!(!stream.accepts(&wire(&[8])));
    assert!(stream.accepts(&wire(&[9])));
    assert!(stream.accepts(&wire(&[10])));
}

#[test]
fn event_out_of_turn_is_not_accepted() {
    let mut stream = stream(vec![], 16);
    assert!(!stream.accepts::<Item, &str>(&PollEvent::Primary(Polled::Pending)));
    assert!(!stream.accepts::<Item, &str>(&PollEvent::Delegated));
    step(&mut stream, PollEvent::Wake);
    assert!(!stream.accepts::<Item, &str>(&PollEvent::Wake));
    assert!(!stream.accepts::<Item, &str>(&wire(&[1])));
    assert!(stream.accepts::<Item, &str>(&PollEvent::Primary(Polled::Pending)));
}

#[test]
fn failed_send_is_returned() {
    let mut stream = stream(vec![], 16);
    let mut world = World::default();
    world.from_primary.push_back(Bytes::from_static(&[16, 1]));
    world.from_primary.push_back(Bytes::from_static(&[17, 2]));
    assert_eq!(world.poll(&mut stream), Polled::Pending);

    step(&mut stream, PollEvent::Wake);
    step(&mut stream, PollEvent::Primary(Polled::Pending));
    // an error of being ready does not count
    let action = step(&mut stream, PollEvent::ConnReady(Polled::Ready(Err("closing"))));
    assert_eq!(action, PollAction::StartSend(Bytes::from_static(&[16, 1])));
    let action = step(&mut stream, PollEvent::Sent(Err("closed")));
    assert_eq!(action, PollAction::Return(Polled::Ready(Some(Err("closed")))));

    world.conn_room = 1;
    assert_eq!(world.poll(&mut stream), Polled::Pending);
    assert_eq!(world.sent, vec![Bytes::from_static(&[17, 2])]);
}

#[test]
fn error_of_connection_is_returned() {
    let mut stream = stream(vec![], 16);
    up_to_conn(&mut stream, 0);
    let action = step(&mut stream, PollEvent::FromConn(Polled::Ready(Some(Err("reset")))));
    assert_eq!(action, PollAction::Return(Polled::Ready(Some(Err("reset")))));
    assert_eq!(step(&mut stream, PollEvent::Wake), PollAction::PollPrimary);
}

#[test]
fn end_of_connection_is_the_end() {
    let mut stream = stream(vec![satellite("a", 1)], 16);
    up_to_conn(&mut stream, 1);
    let action = step(&mut stream, PollEvent::FromConn(Polled::Ready(None)));
    assert_eq!(action, PollAction::Return(Polled::Ready(None)));
}

#[test]
fn end_of_primary_channel_is_the_end() {
    let mut stream = stream(vec![], 16);
    step(&mut stream, PollEvent::Wake);
    step(&mut stream, PollEvent::Primary(Polled::Pending));
    step(&mut stream, PollEvent::ConnReady(Polled::Pending));
    let action = step(&mut stream, PollEvent::FromPrimary(Polled::Ready(None)));
    assert_eq!(action, PollAction::Return(Polled::Ready(None)));
}

#[test]
fn end_of_satellite_is_the_end_and_takes_it_off_the_list() {
    let mut stream = stream(vec![satellite("a", 1), satellite("b", 2)], 16);
    step(&mut stream, PollEvent::Wake);
    step(&mut stream, PollEvent::Primary(Polled::Pending));
    step(&mut stream, PollEvent::ConnReady(Polled::Pending));
    step(&mut stream, PollEvent::FromPrimary(Polled::Pending));
    let action = step(&mut stream, PollEvent::FromSatellite(Polled::Ready(None)));
    assert_eq!(action, PollAction::Return(Polled::Ready(None)));

    let left: Vec<&str> = stream.satellites().iter().map(|proto| proto.handle).collect();
    assert_eq!(left, vec!["a"]);

    let mut world = World::default();
    assert_eq!(world.poll(&mut stream), Polled::Pending);
    assert_eq!(world.turns, vec!["a"]);
}

#[test]
fn another_round_only_if_it_can_get_on() {
    // passed on, taken and queued again: another round
    let mut stream = stream(vec![], 16);
    step(&mut stream, PollEvent::Wake);
    step(&mut stream, PollEvent::Primary(Polled::Pending));
    step(&mut stream, PollEvent::ConnReady(Polled::Ready(Ok(()))));
    let msg = Bytes::from_static(&[16]);
    step(&mut stream, PollEvent::FromPrimary(Polled::Ready(Some(msg))));
    step(&mut stream, PollEvent::FromPrimary(Polled::Pending));
    let action = step(&mut stream, wire(&[20, 1]));
    assert_eq!(action, PollAction::DelegateToPrimary(BytesMut::from(&[20u8, 1][..])));
    assert_eq!(step(&mut stream, PollEvent::Delegated), PollAction::PollConn);
    let action = step(&mut stream, PollEvent::FromConn(Polled::Pending));
    assert_eq!(action, PollAction::PollPrimary);

    // queued, but the connection is not ready: no other round
    step(&mut stream, PollEvent::Primary(Polled::Pending));
    step(&mut stream, PollEvent::ConnReady(Polled::Pending));
    step(&mut stream, PollEvent::FromPrimary(Polled::Pending));
    step(&mut stream, wire(&[20, 1]));
    step(&mut stream, PollEvent::Delegated);
    let action = step(&mut stream, PollEvent::FromConn(Polled::Pending));
    assert_eq!(action, PollAction::Return(Polled::Pending));
}

#[test]
fn no_other_round_if_nothing_was_passed_on() {
    let mut stream = stream(vec![], 16);
    step(&mut stream, PollEvent::Wake);
    step(&mut stream, PollEvent::Primary(Polled::Pending));
    step(&mut stream, PollEvent::ConnReady(Polled::Ready(Ok(()))));
    let msg = Bytes::from_static(&[16]);
    step(&mut stream, PollEvent::FromPrimary(Polled::Ready(Some(msg))));
    step(&mut stream, PollEvent::FromPrimary(Polled::Pending));
    let action = step(&mut stream, PollEvent::FromConn(Polled::Pending));
    assert_eq!(action, PollAction::Return(Polled::Pending));
}

#[test]
fn no_other_round_if_nothing_is_queued() {
    let mut stream = stream(vec![], 16);
    up_to_conn(&mut stream, 0);
    step(&mut stream, wire(&[20]));
    step(&mut stream, PollEvent::Delegated);
    let action = step(&mut stream, PollEvent::FromConn(Polled::Pending));
    assert_eq!(action, PollAction::Return(Polled::Pending));
}

#[test]
fn connection_must_be_ready_before_primary() {
    let stream = stream(vec![], 16);
    let action = stream.poll_ready::<&str>(ReadyEvent::Ask);
    assert_eq!(action, ReadyAction::PollConnReady);
    let action = stream.poll_ready::<&str>(ReadyEvent::Conn(Polled::Ready(Ok(()))));
    assert_eq!(action, ReadyAction::PollPrimaryReady);
    let action = stream.poll_ready::<&str>(ReadyEvent::Conn(Polled::Pending));
    assert_eq!(action, ReadyAction::Return(Polled::Pending));
    let action = stream.poll_ready(ReadyEvent::Conn(Polled::Ready(Err("io"))));
    assert_eq!(action, ReadyAction::Return(Polled::Ready(Err("io"))));
    let action = stream.poll_ready::<&str>(ReadyEvent::Primary(Polled::Ready(Ok(()))));
    assert_eq!(action, ReadyAction::Return(Polled::Ready(Ok(()))));
    let action = stream.poll_ready::<&str>(ReadyEvent::Primary(Polled::Pending));
    assert_eq!(action, ReadyAction::Return(Polled::Pending));
    let action = stream.poll_ready(ReadyEvent::Primary(Polled::Ready(Err("full"))));
    assert_eq!(action, ReadyAction::Return(Polled::Ready(Err("full"))));
}

#[test]
fn parts_can_be_reached() {
    let conn = P2PStream::new(1u32, SharedCapabilities::new(vec![]));
    let mut stream: RlpxSatelliteStream<u32, u8, ()> =
        RlpxSatelliteStream::new(conn, 2u8, shared("eth", 16), vec![]);
    *stream.stream_mut() += 10;
    *stream.primary_mut() += 20;
    assert_eq!(stream.conn().inner, 11);
    assert_eq!(*stream.primary(), 22);
    assert_eq!(stream.primary_capability().relative_message_id_offset(), 16);
    assert!(stream.satellites().is_empty());
    assert!(stream.out_buffer().is_empty());
}

#[test]
fn primary_message_survives_the_trip() {
    let eth = rlpx_multiplex::proxy::ProtocolProxy::new(shared("eth", 16));
    let mut stream = stream(vec![satellite("low", 3), satellite("high", 20)], 16);
    let mut world = World::default();
    for id in [0u8, 4, 239] {
        let wire = eth.mask_msg_id(Bytes::copy_from_slice(&[id, 7, 8]));
        world.from_conn.push_back(BytesMut::from(&wire[..]));
        assert_eq!(world.poll(&mut stream), Polled::Pending);
        let back = eth.unmask_id(world.to_primary.pop().unwrap());
        assert_eq!(&back[..], &[id, 7, 8]);
    }
    assert!(world.to_satellite.is_empty());
}

#[test]
fn first_id_of_satellite_survives_the_trip() {
    let mut stream = stream(vec![satellite("low", 3), satellite("high", 9)], 16);
    let mut world = World::default();
    let wire = satellite("high", 9).mask_msg_id(BytesMut::from(&[0u8, 7, 8][..]));
    world.from_conn.push_back(BytesMut::from(&wire[..]));
    assert_eq!(world.poll(&mut stream), Polled::Pending);
    assert_eq!(world.to_satellite, vec![("high", BytesMut::from(&[0u8, 7, 8][..]))]);
    assert!(world.to_primary.is_empty());
}

#[test]
fn later_ids_of_satellite_go_elsewhere() {
    let all = vec![satellite("low", 3), satellite("high", 9)];
    let wire = all[0].mask_msg_id(BytesMut::from(&[1u8][..]));
    assert_eq!(find_destination(&all, &shared("eth", 16), wire[0]), Some(1));
    let wire = all[1].mask_msg_id(BytesMut::from(&[1u8][..]));
    assert_eq!(find_destination(&all, &shared("eth", 16), wire[0]), None);
}

#[test]
fn reordered_satellites_still_get_their_messages() {
    let mut stream = stream(vec![satellite("a", 1), satellite("b", 2), satellite("c", 3)], 16);
    let mut world = World::default();
    assert_eq!(world.poll(&mut stream), Polled::Pending);
    let listed: Vec<&str> = stream.satellites().iter().map(|proto| proto.handle).collect();
    assert_eq!(listed, vec!["b", "c", "a"]);
    for id in 1..=3u8 {
        world.from_conn.push_back(BytesMut::from(&[id, 10 + id][..]));
    }
    assert_eq!(world.poll(&mut stream), Polled::Pending);
    assert_eq!(
        world.to_satellite,
        vec![
            ("a", BytesMut::from(&[0u8, 11][..])),
            ("b", BytesMut::from(&[0u8, 12][..])),
            ("c", BytesMut::from(&[0u8, 13][..])),
        ]
    );
}

#[test]
fn item_is_taken_only_if_both_are_ready() {
    let stream = stream(vec![], 16);
    let outcomes = || [Polled::Ready(Ok(())), Polled::Ready(Err("io")), Polled::Pending];
    for (c, conn) in outcomes().into_iter().enumerate() {
        for (p, primary) in outcomes().into_iter().enumerate() {
            let mut polls = vec![];
            let mut event = ReadyEvent::Ask;
            let answer = loop {
                event = match stream.poll_ready(event) {
                    ReadyAction::PollConnReady => {
                        polls.push("conn");
                        ReadyEvent::Conn(outcomes().into_iter().nth(c).unwrap())
                    }
                    ReadyAction::PollPrimaryReady => {
                        polls.push("primary");
                        ReadyEvent::Primary(outcomes().into_iter().nth(p).unwrap())
                    }
                    ReadyAction::Return(answer) => break answer,
                };
            };
            if conn == Polled::Ready(Ok(())) {
                assert_eq!(polls, vec!["conn", "primary"]);
                assert_eq!(answer, primary);
            } else {
                assert_eq!(polls, vec!["conn"]);
                assert_eq!(answer, conn);
            }
        }
    }
}

#[test]
fn satellites_of_one_capability_are_told_apart() {
    let mut stream = stream(vec![satellite("a", 1), satellite("b", 1), satellite("c", 1)], 16);
    let mut world = World::default();
    for _ in 0..4 {
        assert_eq!(world.poll(&mut stream), Polled::Pending);
        let mut handles: Vec<&str> = stream.satellites().iter().map(|p| p.handle).collect();
        handles.sort();
        assert_eq!(handles, vec!["a", "b", "c"]);
    }
}
