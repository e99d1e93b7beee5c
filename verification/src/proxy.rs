//! The primary protocol's end of a multiplexed connection.

use bytes::{Bytes, BytesMut};
use vstd::prelude::*;

use crate::buffer;
use crate::capability::SharedCapability;
use crate::message;
use crate::polled::Polled;

verus! {

/// Why a message could not be passed on.
#[derive(Debug, Clone, Copy, PartialEq, Eq, Structural)]
pub enum ProxyError {
    /// The other end of the connection is gone.
    BrokenPipe,
}

/// Stands between the primary protocol and the wire: it takes the offset of the primary protocol
/// off the messages that come from the wire, and puts it on those that go there.
pub struct ProtocolProxy {
    /// The capability that the primary protocol speaks.
    pub cap: SharedCapability,
}

impl ProtocolProxy {
    /// A proxy for the protocol of the capability `cap`.
    pub fn new(cap: SharedCapability) -> (proxy: Self)
        ensures
            proxy.cap == cap,
    {
        ProtocolProxy { cap }
    }

    /// Whether `msg` has an id, and one that stays a byte when it is shifted up.
    pub fn can_mask(&self, msg: &Bytes) -> (yes: bool)
        ensures
            yes == message::maskable(buffer::bytes_contents(*msg), self.cap.offset),
    {
        message::can_mask(msg, self.cap.relative_message_id_offset())
    }

    /// Whether `msg` has an id, and one that is not below the offset of the protocol.
    pub fn can_unmask(&self, msg: &BytesMut) -> (yes: bool)
        ensures
            yes == message::unmaskable(buffer::bytes_mut_contents(*msg), self.cap.offset),
    {
        message::can_unmask(msg, self.cap.relative_message_id_offset())
    }

    /// The message as it goes over the wire: its id shifted up.
    pub fn mask_msg_id(&self, msg: Bytes) -> (masked: Bytes)
        requires
            message::maskable(buffer::bytes_contents(msg), self.cap.offset),
        ensures
            buffer::bytes_contents(masked) == message::masked(
                buffer::bytes_contents(msg),
                self.cap.offset,
            ),
    {
        let source: &[u8] = &msg;
        let mut masked_bytes = BytesMut::zeroed(source.len());
        let target = buffer::bytes_mut_as_mut_slice(&mut masked_bytes);
        target[0] = source[0] + self.cap.relative_message_id_offset();
        let mut i: usize = 1;
        while i < source.len()
            invariant
                1 <= i <= source@.len(),
                target@.len() == source@.len(),
                target@[0] == source@[0] + self.cap.offset,
                forall|j: int| 1 <= j < i ==> target@[j] == source@[j],
            decreases source@.len() - i,
        {
            target[i] = source[i];
            i = i + 1;
        }
        assert(target@ =~= message::masked(source@, self.cap.offset));
        masked_bytes.freeze()
    }

    /// The message as the protocol sees it: its id shifted down.
    pub fn unmask_id(&self, msg: BytesMut) -> (unmasked: BytesMut)
        requires
            message::unmaskable(buffer::bytes_mut_contents(msg), self.cap.offset),
        ensures
            buffer::bytes_mut_contents(unmasked) == message::unmasked(
                buffer::bytes_mut_contents(msg),
                self.cap.offset,
            ),
    {
        let mut msg = msg;
        let bytes = buffer::bytes_mut_as_mut_slice(&mut msg);
        bytes[0] = bytes[0] - self.cap.relative_message_id_offset();
        msg
    }

    /// What a poll of the proxy gives, when a poll of the channel from the wire gave `from_wire`:
    /// a message comes out unmasked, and the proxy ends where the channel does.
    pub fn poll_next(&self, from_wire: Polled<Option<BytesMut>>) -> (polled: Polled<
        Option<Result<BytesMut, ProxyError>>,
    >)
        requires
            from_wire matches Polled::Ready(Some(msg)) ==> message::unmaskable(
                buffer::bytes_mut_contents(msg),
                self.cap.offset,
            ),
        ensures
            match from_wire {
                Polled::Ready(Some(msg)) => {
                    &&& polled matches Polled::Ready(Some(Ok(item)))
                    &&& buffer::bytes_mut_contents(item) == message::unmasked(
                        buffer::bytes_mut_contents(msg),
                        self.cap.offset,
                    )
                },
                Polled::Ready(None) => polled == Polled::<
                    Option<Result<BytesMut, ProxyError>>,
                >::Ready(None),
                Polled::Pending => polled == Polled::<
                    Option<Result<BytesMut, ProxyError>>,
                >::Pending,
            },
    {
        match from_wire {
            Polled::Ready(Some(msg)) => Polled::Ready(Some(Ok(self.unmask_id(msg)))),
            Polled::Ready(None) => Polled::Ready(None),
            Polled::Pending => Polled::Pending,
        }
    }

    /// A message can be sent at any time: the channel to the wire has no bound.
    pub fn poll_ready(&self) -> (polled: Polled<Result<(), ProxyError>>)
        ensures
            polled == Polled::<Result<(), ProxyError>>::Ready(Ok(())),
    {
        Polled::Ready(Ok(()))
    }

    /// The message to hand to the channel to the wire for sending `item`.
    pub fn start_send(&self, item: Bytes) -> (to_wire: Bytes)
        requires
            message::maskable(buffer::bytes_contents(item), self.cap.offset),
        ensures
            buffer::bytes_contents(to_wire) == message::masked(
                buffer::bytes_contents(item),
                self.cap.offset,
            ),
    {
        self.mask_msg_id(item)
    }

    /// How sending a message ended, when the channel to the wire answered `reply`: a channel that
    /// refuses a message has lost its other end.
    pub fn finish_send<R>(&self, reply: Result<(), R>) -> (res: Result<(), ProxyError>)
        ensures
            reply is Ok ==> res == Ok::<(), ProxyError>(()),
            reply is Err ==> res == Err::<(), ProxyError>(ProxyError::BrokenPipe),
    {
        match reply {
            Ok(_) => Ok(()),
            Err(_) => Err(ProxyError::BrokenPipe),
        }
    }

    /// There is nothing to flush: a message is with the channel as soon as it is sent.
    pub fn poll_flush(&self) -> (polled: Polled<Result<(), ProxyError>>)
        ensures
            polled == Polled::<Result<(), ProxyError>>::Ready(Ok(())),
    {
        Polled::Ready(Ok(()))
    }

    /// Closing takes no effort and does not fail.
    pub fn poll_close(&self) -> (polled: Polled<Result<(), ProxyError>>)
        ensures
            polled == Polled::<Result<(), ProxyError>>::Ready(Ok(())),
    {
        Polled::Ready(Ok(()))
    }

    /// Disconnecting does not fail, whatever the reason; the connection itself is left alone.
    pub fn disconnect<Reason>(&mut self, _reason: Reason) -> (res: Result<(), ProxyError>)
        ensures
            res == Ok::<(), ProxyError>(()),
            *final(self) == *old(self),
    {
        Ok(())
    }
}

} // verus!
