use rlpx_multiplex::capability::{Capability, SharedCapabilities, SharedCapability};
use rlpx_multiplex::model::{PollAction, PollEvent};
use rlpx_multiplex::multiplexer::{
    HandshakeAction, HandshakeEvent, Listening, RlpxProtocolMultiplexer,
};
use rlpx_multiplex::p2p::P2PStream;
use rlpx_multiplex::polled::Polled;

use bytes::{Bytes, BytesMut};

fn cap(name: &str, version: usize) -> Capability {
    Capability::new(name.to_string(), version)
}

fn conn() -> P2PStream<u32> {
    P2PStream::new(
        7,
        SharedCapabilities::new(vec![
            SharedCapability::new(cap("snap", 1), 0),
            SharedCapability::new(cap("eth", 67), 8),
            SharedCapability::new(cap("eth", 68), 25),
            SharedCapability::new(cap("eth", 68), 99),
        ]),
    )
}

#[test]
fn capability_is_found_by_name_and_version() {
    let multiplexer = RlpxProtocolMultiplexer::<u32, ()>::new(conn());
    let shared = multiplexer.shared_capabilities();
    let eth = shared.ensure_matching_capability(&cap("eth", 67)).unwrap();
    assert_eq!(eth.relative_message_id_offset(), 8);
    assert_eq!(eth.capability.name, "eth");
    assert_eq!(eth.capability.version, 67);
}

#[test]
fn first_matching_capability_is_taken() {
    let conn = conn();
    let eth = conn.shared_capabilities().ensure_matching_capability(&cap("eth", 68)).unwrap();
    assert_eq!(eth.relative_message_id_offset(), 25);
}

#[test]
fn unsupported_capability_is_named() {
    let conn = conn();
    let err = conn.shared_capabilities().ensure_matching_capability(&cap("eth", 66)).unwrap_err();
    assert_eq!(err.capability.name, "eth");
    assert_eq!(err.capability.version, 66);
    assert!(conn.shared_capabilities().ensure_matching_capability(&cap("les", 68)).is_err());
}

#[test]
fn installed_protocols_become_satellites() {
    let mut multiplexer = RlpxProtocolMultiplexer::new(conn());
    assert!(multiplexer.install_protocol(cap("snap", 1), "snap").is_ok());
    assert!(multiplexer.install_protocol(cap("eth", 67), "old eth").is_ok());
    assert_eq!(multiplexer.conn().inner, 7);
    let handles: Vec<&str> = multiplexer.protocols().iter().map(|proto| proto.handle).collect();
    assert_eq!(handles, vec!["snap", "old eth"]);
    let handshake =
        multiplexer.into_satellite_stream_with_handshake(&cap("eth", 68)).ok().unwrap();
    let stream = handshake.finish(Ok::<&str, ()>("primary")).ok().unwrap();
    assert_eq!(stream.satellites()[0].handle, "snap");
    assert_eq!(stream.satellites()[0].cap.relative_message_id_offset(), 0);
    assert_eq!(stream.satellites()[1].handle, "old eth");
    assert_eq!(stream.satellites()[1].cap.relative_message_id_offset(), 8);
}

#[test]
fn unsupported_protocol_is_not_installed() {
    let mut multiplexer = RlpxProtocolMultiplexer::new(conn());
    let err = multiplexer.install_protocol(cap("snap", 2), "snap").unwrap_err();
    assert_eq!(err.capability.name, "snap");
    assert_eq!(err.capability.version, 2);
    assert!(multiplexer.protocols().is_empty());
    let handshake =
        multiplexer.into_satellite_stream_with_handshake(&cap("eth", 68)).ok().unwrap();
    let mut stream = handshake.finish(Ok::<&str, ()>("primary")).ok().unwrap();
    // without satellites, the connection is polled right after the channel from the primary
    let _ = stream.poll_next::<(), ()>(PollEvent::Wake);
    let _ = stream.poll_next::<(), ()>(PollEvent::Primary(Polled::Pending));
    let _ = stream.poll_next::<(), ()>(PollEvent::ConnReady(Polled::Pending));
    let action = stream.poll_next::<(), ()>(PollEvent::FromPrimary(Polled::Pending));
    assert_eq!(action, PollAction::PollConn);
}

#[test]
fn multiplexer_comes_back_if_primary_is_unsupported() {
    let mut multiplexer = RlpxProtocolMultiplexer::new(conn());
    assert!(multiplexer.install_protocol(cap("snap", 1), "snap").is_ok());
    let multiplexer =
        multiplexer.into_satellite_stream_with_handshake(&cap("eth", 1)).err().unwrap();
    assert!(multiplexer.shared_capabilities().ensure_matching_capability(&cap("eth", 68)).is_ok());
    let handshake =
        multiplexer.into_satellite_stream_with_handshake(&cap("eth", 68)).ok().unwrap();
    let stream = handshake.finish(Ok::<(), ()>(())).ok().unwrap();
    assert_eq!(stream.satellites()[0].handle, "snap");
}

#[test]
fn multiplexer_comes_back_if_handshake_fails() {
    let multiplexer = RlpxProtocolMultiplexer::<u32, ()>::new(conn());
    let mut handshake =
        multiplexer.into_satellite_stream_with_handshake(&cap("eth", 68)).ok().unwrap();
    *handshake.stream_mut() += 1;
    let multiplexer = handshake.finish(Err::<(), &str>("no status")).err().unwrap();
    let mut handshake =
        multiplexer.into_satellite_stream_with_handshake(&cap("eth", 68)).ok().unwrap();
    assert_eq!(*handshake.stream_mut(), 8);
}

#[test]
fn handshake_relays_messages_both_ways() {
    let multiplexer = RlpxProtocolMultiplexer::<u32, ()>::new(conn());
    let mut handshake =
        multiplexer.into_satellite_stream_with_handshake(&cap("eth", 68)).ok().unwrap();
    let action = handshake.on_event::<&str, &str, ()>(HandshakeEvent::FromWire(Some(Ok("hi"))));
    assert_eq!(action, HandshakeAction::ForwardToPrimary("hi"));
    let action = handshake.on_event::<&str, &str, ()>(HandshakeEvent::FromPrimary(Some("ho")));
    assert_eq!(action, HandshakeAction::SendToWire("ho"));
    assert_eq!(handshake.listens_to(), Listening { wire: true, primary: true });
}

#[test]
fn silent_source_is_left_alone_until_the_other_speaks() {
    let multiplexer = RlpxProtocolMultiplexer::<u32, ()>::new(conn());
    let mut handshake =
        multiplexer.into_satellite_stream_with_handshake(&cap("eth", 68)).ok().unwrap();
    assert_eq!(handshake.listens_to(), Listening { wire: true, primary: true });
    let action = handshake.on_event::<&str, &str, &str>(HandshakeEvent::FromWire(Some(Err("io"))));
    assert_eq!(action, HandshakeAction::Wait);
    assert_eq!(handshake.listens_to(), Listening { wire: false, primary: true });
    let action = handshake.on_event::<&str, &str, &str>(HandshakeEvent::FromPrimary(None));
    assert_eq!(action, HandshakeAction::Wait);
    assert_eq!(handshake.listens_to(), Listening { wire: false, primary: false });

    let multiplexer = handshake.finish(Err::<(), ()>(())).err().unwrap();
    let mut handshake =
        multiplexer.into_satellite_stream_with_handshake(&cap("eth", 68)).ok().unwrap();
    let action = handshake.on_event::<&str, &str, &str>(HandshakeEvent::FromWire(None));
    assert_eq!(action, HandshakeAction::Wait);
    assert_eq!(handshake.listens_to(), Listening { wire: false, primary: true });
    let action = handshake.on_event::<&str, &str, &str>(HandshakeEvent::FromPrimary(Some("ho")));
    assert_eq!(action, HandshakeAction::SendToWire("ho"));
    assert_eq!(handshake.listens_to(), Listening { wire: true, primary: true });
}

/// The `eth` handshake on a connection that shares nothing but `eth`: each side sends its status
/// through a proxy, and the multiplexer becomes a satellite stream.
#[test]
fn eth_satellite() {
    let conn = P2PStream::new(
        (),
        SharedCapabilities::new(vec![SharedCapability::new(cap("eth", 67), 0)]),
    );
    let eth = conn
        .shared_capabilities()
        .ensure_matching_capability(&cap("eth", 67))
        .unwrap()
        .capability
        .clone();
    let multiplexer = RlpxProtocolMultiplexer::<(), ()>::new(conn);

    let mut handshake = multiplexer.into_satellite_stream_with_handshake(&eth).ok().unwrap();
    let proxy = handshake.proxy();

    let status = proxy.start_send(Bytes::from_static(&[0, 1, 2, 3]));
    let action = handshake.on_event::<Bytes, BytesMut, ()>(HandshakeEvent::FromPrimary(Some(
        status,
    )));
    assert_eq!(action, HandshakeAction::SendToWire(Bytes::from_static(&[0, 1, 2, 3])));

    let other_status = BytesMut::from(&[0u8, 4, 5, 6][..]);
    let action =
        handshake.on_event::<Bytes, BytesMut, ()>(HandshakeEvent::FromWire(Some(Ok(other_status))));
    let received = match action {
        HandshakeAction::ForwardToPrimary(msg) => proxy.poll_next(Polled::Ready(Some(msg))),
        _ => panic!("the status was not forwarded"),
    };
    assert_eq!(received, Polled::Ready(Some(Ok(BytesMut::from(&[0u8, 4, 5, 6][..])))));

    let _satellite = handshake.finish(Ok::<&str, ()>("eth")).ok().unwrap();
}
