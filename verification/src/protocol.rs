//! Satellite protocols: the subprotocols that share a connection with the primary one.

use bytes::{Bytes, BytesMut};
use vstd::prelude::*;

use crate::buffer;
use crate::capability::SharedCapability;
use crate::message;
use crate::polled::Polled;

verus! {

/// A subprotocol on a multiplexed connection.
///
/// `S` is the way to the protocol itself, such as a channel to it and the stream of what it sends.
/// Nothing is decided by it.
pub struct ProtocolStream<S> {
    /// The capability that the protocol speaks.
    pub cap: SharedCapability,
    /// The way to the protocol.
    pub handle: S,
}

impl<S> ProtocolStream<S> {
    /// Whether `msg` has an id, and one that stays a byte when it is shifted up.
    pub fn can_mask(&self, msg: &BytesMut) -> (yes: bool)
        ensures
            yes == message::maskable(buffer::bytes_mut_contents(*msg), self.cap.offset),
    {
        message::can_mask(msg, self.cap.relative_message_id_offset())
    }

    /// Whether `msg` has an id, and one that is not below the offset of the protocol.
    pub fn can_unmask(&self, msg: &BytesMut) -> (yes: bool)
        ensures
            yes == message::unmaskable(buffer::bytes_mut_contents(*msg), self.cap.offset),
    {
        message::can_unmask(msg, self.cap.relative_message_id_offset())
    }

    /// The message as it goes over the wire: its id shifted up.
    pub fn mask_msg_id(&self, msg: BytesMut) -> (masked: Bytes)
        requires
            message::maskable(buffer::bytes_mut_contents(msg), self.cap.offset),
        ensures
            buffer::bytes_contents(masked) == message::masked(
                buffer::bytes_mut_contents(msg),
                self.cap.offset,
            ),
    {
        let mut msg = msg;
        let bytes = buffer::bytes_mut_as_mut_slice(&mut msg);
        bytes[0] = bytes[0] + self.cap.relative_message_id_offset();
        msg.freeze()
    }

    /// The message as the protocol sees it, which is how it is passed on to it: its id shifted
    /// down.
    pub fn unmask_id(&self, msg: BytesMut) -> (unmasked: BytesMut)
        requires
            message::unmaskable(buffer::bytes_mut_contents(msg), self.cap.offset),
        ensures
            buffer::bytes_mut_contents(unmasked) == message::unmasked(
                buffer::bytes_mut_contents(msg),
                self.cap.offset,
            ),
    {
        let mut msg = msg;
        let bytes = buffer::bytes_mut_as_mut_slice(&mut msg);
        bytes[0] = bytes[0] - self.cap.relative_message_id_offset();
        msg
    }

    /// What a poll of the protocol gives, when a poll of the stream of what it sends gave
    /// `from_satellite`: a message comes out masked, and the protocol ends where the stream does.
    pub fn poll_next(&self, from_satellite: Polled<Option<BytesMut>>) -> (polled: Polled<
        Option<Bytes>,
    >)
        requires
            from_satellite matches Polled::Ready(Some(msg)) ==> message::maskable(
                buffer::bytes_mut_contents(msg),
                self.cap.offset,
            ),
        ensures
            match from_satellite {
                Polled::Ready(Some(msg)) => {
                    &&& polled matches Polled::Ready(Some(item))
                    &&& buffer::bytes_contents(item) == message::masked(
                        buffer::bytes_mut_contents(msg),
                        self.cap.offset,
                    )
                },
                Polled::Ready(None) => polled == Polled::<Option<Bytes>>::Ready(None),
                Polled::Pending => polled == Polled::<Option<Bytes>>::Pending,
            },
    {
        match from_satellite {
            Polled::Ready(Some(msg)) => Polled::Ready(Some(self.mask_msg_id(msg))),
            Polled::Ready(None) => Polled::Ready(None),
            Polled::Pending => Polled::Pending,
        }
    }
}

} // verus!
