//! Message ids on the wire.
//!
//! The first byte of every message is its id. A subprotocol counts its ids from zero; on the wire
//! they are shifted up by the offset that the subprotocol was given when the connection was set
//! up. Masking shifts an id up, unmasking shifts it down again; the rest of the message is left
//! alone.

use vstd::prelude::*;

verus! {

/// Whether `msg` can be masked by `offset`: it has an id, and the shifted id is still a byte.
pub open spec fn maskable(msg: Seq<u8>, offset: u8) -> bool {
    msg.len() > 0 && msg[0] + offset <= u8::MAX
}

/// Whether `msg` can be unmasked by `offset`: it has an id, which is not below the offset.
pub open spec fn unmaskable(msg: Seq<u8>, offset: u8) -> bool {
    msg.len() > 0 && msg[0] >= offset
}

/// `msg` with its id shifted up by `offset`.
pub open spec fn masked(msg: Seq<u8>, offset: u8) -> Seq<u8> {
    msg.update(0, (msg[0] + offset) as u8)
}

/// `msg` with its id shifted down by `offset`.
pub open spec fn unmasked(msg: Seq<u8>, offset: u8) -> Seq<u8> {
    msg.update(0, (msg[0] - offset) as u8)
}

/// Whether the bytes of a message can be masked by `offset`.
pub fn can_mask(msg: &[u8], offset: u8) -> (yes: bool)
    ensures
        yes == maskable(msg@, offset),
{
    msg.len() > 0 && msg[0] <= u8::MAX - offset
}

/// Whether the bytes of a message can be unmasked by `offset`.
pub fn can_unmask(msg: &[u8], offset: u8) -> (yes: bool)
    ensures
        yes == unmaskable(msg@, offset),
{
    msg.len() > 0 && msg[0] >= offset
}

/// Masking adds the offset to the id, as numbers, and leaves every other byte as it is. A message
/// can be masked exactly if it has an id for which that sum is a byte.
pub proof fn law_masking_adds_the_offset(msg: Seq<u8>, offset: u8)
    ensures
        maskable(msg, offset) <==> msg.len() > 0 && msg[0] as int + offset as int <= 255,
        maskable(msg, offset) ==> {
            &&& masked(msg, offset).len() == msg.len()
            &&& masked(msg, offset)[0] as int == msg[0] as int + offset as int
            &&& forall|i: int| 0 < i < msg.len() ==> masked(msg, offset)[i] == #[trigger] msg[i]
        },
{
}

/// Unmasking takes the offset off the id, as numbers, and leaves every other byte as it is. A
/// message can be unmasked exactly if it has an id that is not below the offset.
pub proof fn law_unmasking_subtracts_the_offset(msg: Seq<u8>, offset: u8)
    ensures
        unmaskable(msg, offset) <==> msg.len() > 0 && msg[0] as int - offset as int >= 0,
        unmaskable(msg, offset) ==> {
            &&& unmasked(msg, offset).len() == msg.len()
            &&& unmasked(msg, offset)[0] as int == msg[0] as int - offset as int
            &&& forall|i: int| 0 < i < msg.len() ==> unmasked(msg, offset)[i] == #[trigger] msg[i]
        },
{
}

/// Ids keep their distance when they are masked: two messages of one protocol are as far apart on
/// the wire as they were before.
pub proof fn law_masking_keeps_distances(msg: Seq<u8>, other: Seq<u8>, offset: u8)
    requires
        maskable(msg, offset),
        maskable(other, offset),
    ensures
        masked(msg, offset)[0] - masked(other, offset)[0] == msg[0] - other[0],
{
}

/// Unmasking undoes masking: the receiving side gets the message that the sending side was given.
pub proof fn law_unmask_undoes_mask(msg: Seq<u8>, offset: u8)
    requires
        maskable(msg, offset),
    ensures
        unmaskable(masked(msg, offset), offset),
        unmasked(masked(msg, offset), offset) == msg,
{
    assert(unmasked(masked(msg, offset), offset) =~= msg);
}

/// Masking undoes unmasking.
pub proof fn law_mask_undoes_unmask(msg: Seq<u8>, offset: u8)
    requires
        unmaskable(msg, offset),
    ensures
        maskable(unmasked(msg, offset), offset),
        masked(unmasked(msg, offset), offset) == msg,
{
    assert(masked(unmasked(msg, offset), offset) =~= msg);
}

/// Masking and unmasking touch the id alone: length and payload stay as they are.
pub proof fn law_payload_untouched(msg: Seq<u8>, offset: u8)
    requires
        msg.len() > 0,
    ensures
        masked(msg, offset).len() == msg.len(),
        unmasked(msg, offset).len() == msg.len(),
        masked(msg, offset).skip(1) == msg.skip(1),
        unmasked(msg, offset).skip(1) == msg.skip(1),
{
    assert(masked(msg, offset).skip(1) =~= msg.skip(1));
    assert(unmasked(msg, offset).skip(1) =~= msg.skip(1));
}

} // verus!
