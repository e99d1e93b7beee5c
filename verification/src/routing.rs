//! Which protocol a message from the wire is for.

use vstd::prelude::*;

use crate::capability::SharedCapability;
use crate::message;
use crate::protocol::ProtocolStream;

verus! {

/// Whether the protocol at `i` has the lowest offset of those whose offset is not below `id`; of
/// several such protocols, it is the first.
pub open spec fn is_lowest_not_below<S>(
    satellites: Seq<ProtocolStream<S>>,
    id: u8,
    i: int,
) -> bool {
    &&& 0 <= i < satellites.len()
    &&& satellites[i].cap.offset >= id
    &&& forall|j: int|
        0 <= j < satellites.len() && (#[trigger] satellites[j]).cap.offset >= id
            ==> satellites[i].cap.offset <= satellites[j].cap.offset
    &&& forall|j: int|
        0 <= j < i && (#[trigger] satellites[j]).cap.offset >= id ==> satellites[i].cap.offset
            < satellites[j].cap.offset
}

/// The satellite that a message with the id `id` is for, or `None` if it is for the primary
/// protocol. It is for the satellite with the lowest offset that is not below the id, unless that
/// offset is not below the one of the primary protocol.
pub open spec fn destination<S>(
    satellites: Seq<ProtocolStream<S>>,
    primary_offset: u8,
    id: u8,
) -> Option<int> {
    if exists|i: int|
        is_lowest_not_below(satellites, id, i) && satellites[i].cap.offset < primary_offset {
        Some(
            choose|i: int|
                is_lowest_not_below(satellites, id, i) && satellites[i].cap.offset
                    < primary_offset,
        )
    } else {
        None
    }
}

/// Finds the satellite that a message with the id `id` is for, `None` standing for the primary
/// protocol.
pub fn find_destination<S>(
    satellites: &Vec<ProtocolStream<S>>,
    primary: &SharedCapability,
    id: u8,
) -> (found: Option<usize>)
    ensures
        match found {
            Some(i) => destination(satellites@, primary.offset, id) == Some(i as int),
            None => destination(satellites@, primary.offset, id) is None,
        },
{
    let mut lowest_satellite: Option<(usize, u8)> = None;
    let mut i: usize = 0;
    while i < satellites.len()
        invariant
            i <= satellites@.len(),
            match lowest_satellite {
                Some((k, offset)) => {
                    &&& k < i
                    &&& offset == satellites@[k as int].cap.offset
                    &&& is_lowest_not_below(satellites@.take(i as int), id, k as int)
                },
                None => forall|j: int|
                    0 <= j < i ==> (#[trigger] satellites@[j]).cap.offset < id,
            },
        decreases satellites@.len() - i,
    {
        let proto_offset: u8 = satellites[i].cap.relative_message_id_offset();
        if proto_offset >= id {
            if let Some((_, lowest_offset)) = lowest_satellite {
                if proto_offset < lowest_offset {
                    lowest_satellite = Some((i, proto_offset));
                }
            } else {
                lowest_satellite = Some((i, proto_offset));
            }
        }
        i = i + 1;
    }
    assert(satellites@.take(i as int) =~= satellites@);
    if let Some((idx, lowest_offset)) = lowest_satellite {
        if lowest_offset < primary.relative_message_id_offset() {
            return Some(idx);
        }
    }
    None
}

/// A message is for a satellite exactly if some satellite has an offset that is not below the id
/// of the message but below that of the primary protocol. The satellite it is for has such an
/// offset, no other satellite has a lower one that is not below the id, and of several with the
/// same offset it is the first.
pub proof fn law_destination<S>(satellites: Seq<ProtocolStream<S>>, primary_offset: u8, id: u8)
    ensures
        destination(satellites, primary_offset, id) is Some <==> exists|j: int|
            0 <= j < satellites.len() && id <= (#[trigger] satellites[j]).cap.offset
                < primary_offset,
        destination(satellites, primary_offset, id) matches Some(i) ==> {
            &&& 0 <= i < satellites.len()
            &&& id <= satellites[i].cap.offset < primary_offset
            &&& forall|j: int|
                0 <= j < satellites.len() && id <= (#[trigger] satellites[j]).cap.offset
                    ==> satellites[i].cap.offset <= satellites[j].cap.offset
            &&& forall|j: int|
                0 <= j < i ==> (#[trigger] satellites[j]).cap.offset != satellites[i].cap.offset
        },
{
    if exists|j: int|
        0 <= j < satellites.len() && id <= (#[trigger] satellites[j]).cap.offset
            < primary_offset {
        let j = choose|j: int|
            0 <= j < satellites.len() && id <= (#[trigger] satellites[j]).cap.offset
                < primary_offset;
        lemma_lowest_exists(satellites, id);
        let i = choose|i: int| is_lowest_not_below(satellites, id, i);
        assert(satellites[i].cap.offset <= satellites[j].cap.offset);
    }
}

proof fn lemma_lowest_exists<S>(satellites: Seq<ProtocolStream<S>>, id: u8)
    requires
        exists|j: int| 0 <= j < satellites.len() && (#[trigger] satellites[j]).cap.offset >= id,
    ensures
        exists|i: int| is_lowest_not_below(satellites, id, i),
    decreases satellites.len(),
{
    let rest = satellites.drop_last();
    let last = satellites.len() - 1;
    if exists|j: int| 0 <= j < rest.len() && (#[trigger] rest[j]).cap.offset >= id {
        lemma_lowest_exists(rest, id);
        let i = choose|i: int| is_lowest_not_below(rest, id, i);
        assert forall|j: int| 0 <= j < last implies rest[j] == #[trigger] satellites[j] by {}
        if id <= satellites[last].cap.offset < satellites[i].cap.offset {
            assert(is_lowest_not_below(satellites, id, last));
        } else {
            assert(is_lowest_not_below(satellites, id, i));
        }
    } else {
        assert forall|j: int| 0 <= j < last implies (#[trigger] satellites[j]).cap.offset < id by {
            assert(rest[j] == satellites[j]);
        }
        assert(is_lowest_not_below(satellites, id, last));
    }
}

/// The ids from the offset of the primary protocol on are the primary protocol's, whatever
/// satellites there are.
pub proof fn law_primary_keeps_its_ids<S>(
    satellites: Seq<ProtocolStream<S>>,
    primary_offset: u8,
    id: u8,
)
    requires
        id >= primary_offset,
    ensures
        destination(satellites, primary_offset, id) is None,
{
}

/// Without satellites, every message is for the primary protocol.
pub proof fn law_alone_primary_gets_all<S>(
    satellites: Seq<ProtocolStream<S>>,
    primary_offset: u8,
    id: u8,
)
    requires
        satellites.len() == 0,
    ensures
        destination(satellites, primary_offset, id) is None,
{
}

/// A message of the primary protocol survives the trip over the wire, whatever satellites there
/// are: masked by one peer, it is passed to the primary protocol by the other, and unmasking gives
/// back what was sent.
pub proof fn law_primary_round_trip<S>(
    satellites: Seq<ProtocolStream<S>>,
    primary_offset: u8,
    msg: Seq<u8>,
)
    requires
        message::maskable(msg, primary_offset),
    ensures
        ({
            let wire = message::masked(msg, primary_offset);
            &&& destination(satellites, primary_offset, wire[0]) is None
            &&& message::unmaskable(wire, primary_offset)
            &&& message::unmasked(wire, primary_offset) == msg
        }),
{
    message::law_unmask_undoes_mask(msg, primary_offset);
}

/// A message with the first id of a satellite below the primary protocol survives the trip over
/// the wire: masked by one peer, it is passed by the other to a satellite with the same offset,
/// which is the same satellite if no other has that offset, and unmasking gives back what was
/// sent.
pub proof fn law_satellite_round_trip<S>(
    satellites: Seq<ProtocolStream<S>>,
    primary_offset: u8,
    k: int,
    msg: Seq<u8>,
)
    requires
        0 <= k < satellites.len(),
        satellites[k].cap.offset < primary_offset,
        msg.len() > 0,
        msg[0] == 0,
    ensures
        ({
            let wire = message::masked(msg, satellites[k].cap.offset);
            &&& destination(satellites, primary_offset, wire[0]) matches Some(i)
            &&& 0 <= i < satellites.len()
            &&& satellites[i].cap.offset == satellites[k].cap.offset
            &&& (forall|j: int|
                0 <= j < satellites.len() && j != k ==> (#[trigger] satellites[j]).cap.offset
                    != satellites[k].cap.offset) ==> i == k
            &&& message::unmaskable(wire, satellites[i].cap.offset)
            &&& message::unmasked(wire, satellites[i].cap.offset) == msg
        }),
{
    let offset = satellites[k].cap.offset;
    law_destination(satellites, primary_offset, offset);
    message::law_unmask_undoes_mask(msg, offset);
}

/// A limit of the routing: it goes by the offsets alone and does not know how many ids a satellite
/// has. So only the first id of a satellite leads to it; a message with a later one is passed to a
/// satellite with a higher offset, or to the primary protocol.
pub proof fn law_later_ids_miss_satellite<S>(
    satellites: Seq<ProtocolStream<S>>,
    primary_offset: u8,
    k: int,
    msg: Seq<u8>,
)
    requires
        0 <= k < satellites.len(),
        message::maskable(msg, satellites[k].cap.offset),
        msg[0] > 0,
    ensures
        destination(
            satellites,
            primary_offset,
            message::masked(msg, satellites[k].cap.offset)[0],
        ) matches Some(i) ==> satellites[i].cap.offset > satellites[k].cap.offset,
{
}

} // verus!
