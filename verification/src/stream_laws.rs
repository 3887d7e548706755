//! What a receiver makes of the shards that a sender cuts packets into.

use crate::buffer::{be_bytes_32, buffer_bytes, lemma_be_number_of_bytes};
use crate::stream_socket::{
    all_bytes, chunks_count, first_gap, index_after, is_at_or_after, joined, lemma_chunk_position,
    shard_map, shard_of_bytes, shard_payload, shard_prefix, PacketModel, Progress, ReceivedPacket,
    ReceiverModel, Reception, Shard, ShardMap, StreamSender, HALF_OF_INDICES, SHARD_PREFIX_SIZE,
};
use bytes::BytesMut;
use vstd::prelude::*;

verus! {

/// A packet that a sender can send: its shards are small enough to hold anything, and can be
/// counted in the four bytes that the shards have for it.
pub open spec fn is_sendable(sender: StreamSender, buffer: Seq<u8>) -> bool {
    &&& sender.max_packet_size > SHARD_PREFIX_SIZE
    &&& sender.shards_count(buffer) <= u32::MAX
}

/// A shard of the next packet of a sender, as the receiver of the stream gets it: the stream ID
/// has been taken off.
pub open spec fn arriving_shard(
    sender: StreamSender,
    header: Seq<u8>,
    buffer: Seq<u8>,
    index: int,
) -> Seq<u8> {
    sender.packet_shards(header, buffer)[index].skip(2)
}

/// The chunks of a sequence of bytes, from the first one on, make up its beginning.
proof fn lemma_chunks_joined(
    shards: ShardMap,
    header: Seq<u8>,
    buffer: Seq<u8>,
    size: nat,
    count: nat,
)
    requires
        size > 0,
        1 <= count <= chunks_count(buffer.len(), size) + 1,
        count <= u32::MAX,
        forall|i: usize|
            i < count ==> #[trigger] shards[i] == shard_payload(header, buffer, size, i as int),
    ensures
        joined(shards, count) == header + buffer.subrange(
            0,
            if (count - 1) * size <= buffer.len() {
                (count - 1) * size
            } else {
                buffer.len() as int
            },
        ),
    decreases count,
{
    reveal_with_fuel(joined, 2);
    assert(0 * size == 0) by (nonlinear_arith);
    let last = (count - 1) as usize;
    assert(shards[last] == shard_payload(header, buffer, size, last as int));
    if count == 1 {
        assert(joined(shards, 1) =~= header + buffer.subrange(0, 0));
    } else {
        lemma_chunks_joined(shards, header, buffer, size, (count - 1) as nat);
        lemma_chunk_starts_inside(buffer.len(), size, (count - 2) as nat);
        lemma_chunk_position(buffer.len(), size, (count - 2) as nat);
        assert(joined(shards, count) =~= header + buffer.subrange(
            0,
            if (count - 1) * size <= buffer.len() {
                (count - 1) * size
            } else {
                buffer.len() as int
            },
        ));
    }
}

/// Every chunk starts inside the bytes.
proof fn lemma_chunk_starts_inside(len: nat, size: nat, index: nat)
    requires
        size > 0,
        index < chunks_count(len, size),
    ensures
        index * size < len,
{
    vstd::arithmetic::div_mod::lemma_fundamental_div_mod(len as int, size as int);
    let full = len as int / size as int;
    let rest = len as int % size as int;
    assert(index * size < len) by (nonlinear_arith)
        requires
            len == size * full + rest,
            size > 0,
            rest >= 0,
            index < full || (index == full && rest > 0),
    ;
}

/// Nothing is lost or added when a packet is cut: the payloads of all the shards, one after the
/// other, are the header and the buffer.
pub proof fn law_payloads_make_up_packet(
    sender: StreamSender,
    header: Seq<u8>,
    buffer: Seq<u8>,
    shards: ShardMap,
)
    requires
        is_sendable(sender, buffer),
        forall|i: usize|
            i < sender.shards_count(buffer) ==> #[trigger] shards[i] == shard_payload(
                header,
                buffer,
                sender.max_payload_size(),
                i as int,
            ),
    ensures
        joined(shards, sender.shards_count(buffer)) == header + buffer,
{
    let size = sender.max_payload_size();
    let count = sender.shards_count(buffer);
    lemma_chunks_joined(shards, header, buffer, size, count);
    vstd::arithmetic::div_mod::lemma_fundamental_div_mod(buffer.len() as int, size as int);
    let full = buffer.len() as int / size as int;
    assert((count - 1) * size >= buffer.len()) by (nonlinear_arith)
        requires
            buffer.len() == size * full + buffer.len() % size,
            count - 1 == if buffer.len() % size == 0 { full } else { full + 1 },
            buffer.len() % size < size,
            size > 0,
    ;
    assert(buffer.subrange(0, buffer.len() as int) =~= buffer);
}

/// No shard of the buffer is larger than the largest packet that may be sent. Only the header,
/// which is never cut, can make a shard larger.
pub proof fn law_shards_respect_packet_size(
    sender: StreamSender,
    header: Seq<u8>,
    buffer: Seq<u8>,
    index: int,
)
    requires
        sender.max_packet_size > SHARD_PREFIX_SIZE,
        0 <= index < sender.shards_count(buffer),
    ensures
        index > 0 ==> sender.packet_shards(header, buffer)[index].len() <= sender.max_packet_size,
        index == 0 ==> sender.packet_shards(header, buffer)[index].len() == SHARD_PREFIX_SIZE
            + header.len(),
{
    if index > 0 {
        lemma_chunk_starts_inside(
            buffer.len(),
            sender.max_payload_size(),
            (index - 1) as nat,
        );
    }
}

/// A shard is read as what it was written as.
pub proof fn law_shard_is_read_as_written(
    sender: StreamSender,
    header: Seq<u8>,
    buffer: Seq<u8>,
    index: int,
)
    requires
        is_sendable(sender, buffer),
        0 <= index < sender.shards_count(buffer),
    ensures
        arriving_shard(sender, header, buffer, index).len() >= SHARD_PREFIX_SIZE - 2,
        shard_of_bytes(arriving_shard(sender, header, buffer, index)) == (Shard {
            packet_index: sender.next_packet_index,
            shards_count: sender.shards_count(buffer) as usize,
            index: index as usize,
            payload: shard_payload(header, buffer, sender.max_payload_size(), index),
        }),
{
    let bytes = arriving_shard(sender, header, buffer, index);
    let count = sender.shards_count(buffer) as u32;
    let payload = shard_payload(header, buffer, sender.max_payload_size(), index);
    let third = be_bytes_32(index as u32) + payload;
    let second = be_bytes_32(count) + third;
    assert(sender.packet_shards(header, buffer)[index] == shard_prefix(
        sender.stream_id,
        sender.next_packet_index,
        count,
        index as u32,
    ) + payload);
    lemma_be_number_of_bytes(sender.next_packet_index, second);
    lemma_be_number_of_bytes(count, third);
    lemma_be_number_of_bytes(index as u32, payload);
    assert(bytes =~= be_bytes_32(sender.next_packet_index) + second);
    assert(bytes.skip(4) =~= second);
    assert(bytes.skip(8) =~= third);
    assert(bytes.skip(12) =~= payload);
}

/// A receiver has some of the shards of a packet, and nothing else in their place.
pub open spec fn holds_part_of(
    packet: PacketModel,
    sender: StreamSender,
    header: Seq<u8>,
    buffer: Seq<u8>,
) -> bool {
    let count = sender.shards_count(buffer);
    &&& packet.index == sender.next_packet_index
    &&& packet.shards.dom().finite()
    &&& packet.shards_count == Some(count as usize) || (packet.shards_count is None
        && packet.shards.dom().is_empty())
    &&& forall|i: usize| #[trigger]
        packet.shards.contains_key(i) ==> i < count && packet.shards[i] == shard_payload(
            header,
            buffer,
            sender.max_payload_size(),
            i as int,
        )
}

/// All the shards of a packet have arrived.
pub open spec fn has_every_shard(
    packet: PacketModel,
    sender: StreamSender,
    buffer: Seq<u8>,
) -> bool {
    forall|i: usize|
        i < sender.shards_count(buffer) ==> #[trigger] packet.shards.contains_key(i)
}

/// As long as a shard is missing, nothing is handed out. When the last one has arrived, in
/// whatever order they came, the packet is handed out just as it was sent, and is not reported
/// as lost.
pub proof fn law_packet_is_restored(
    reception: Reception,
    sender: StreamSender,
    header: Seq<u8>,
    buffer: Seq<u8>,
)
    requires
        is_sendable(sender, buffer),
        holds_part_of(reception.packet, sender, header, buffer),
    ensures
        reception.packet.is_ready() <==> has_every_shard(reception.packet, sender, buffer),
        has_every_shard(reception.packet, sender, buffer) ==> reception.settle() == (Reception {
            buffer: ReceivedPacket {
                bytes: header + buffer,
                had_packet_loss: reception.buffer.had_packet_loss,
            },
            ..reception
        }),
        !has_every_shard(reception.packet, sender, buffer) ==> reception.settle() == reception,
{
    let packet = reception.packet;
    let count = sender.shards_count(buffer);
    let indices = Set::<usize>::range(0, count as usize);
    vstd::set_lib::range_set_properties::<usize>(0, count as usize);
    assert(packet.shards.dom().subset_of(indices));
    if has_every_shard(packet, sender, buffer) {
        assert(packet.shards.dom() =~= indices);
        assert(packet.shards.contains_key(0));
        assert(packet.is_ready());
        lemma_no_gap(packet.shards, count, 0);
        assert forall|i: usize| i < count implies #[trigger] packet.shards[i] == shard_payload(
            header,
            buffer,
            sender.max_payload_size(),
            i as int,
        ) by {
            assert(packet.shards.contains_key(i));
        }
        law_payloads_make_up_packet(sender, header, buffer, packet.shards);
    } else {
        let missing = choose|i: usize| i < count && !packet.shards.contains_key(i);
        packet.shards.dom().lemma_subset_not_in_lt(indices, missing);
    }
}

/// Where no shard is missing no gap is found.
proof fn lemma_no_gap(shards: ShardMap, count: nat, from: nat)
    requires
        count <= u32::MAX,
        forall|i: usize| i < count ==> #[trigger] shards.contains_key(i),
    ensures
        first_gap(shards, count, from) == count,
    decreases count - from,
{
    if from < count {
        assert(shards.contains_key(from as usize));
        lemma_no_gap(shards, count, from + 1);
    }
}

/// A shard of the packet being received is added to what the receiver has of it. Nothing else
/// changes.
pub proof fn law_shard_is_added(
    reception: Reception,
    sender: StreamSender,
    header: Seq<u8>,
    buffer: Seq<u8>,
    index: int,
)
    requires
        is_sendable(sender, buffer),
        holds_part_of(reception.packet, sender, header, buffer),
        0 <= index < sender.shards_count(buffer),
    ensures
        ({
            let after = reception.take(
                shard_of_bytes(arriving_shard(sender, header, buffer, index)),
            );
            &&& holds_part_of(after.packet, sender, header, buffer)
            &&& after.packet.shards.dom() == reception.packet.shards.dom().insert(index as usize)
            &&& after.receiver == reception.receiver
            &&& after.buffer == reception.buffer
        }),
{
    law_shard_is_read_as_written(sender, header, buffer, index);
    let after = reception.take(shard_of_bytes(arriving_shard(sender, header, buffer, index)));
    assert(after.packet.shards.dom() =~= reception.packet.shards.dom().insert(index as usize));
}

/// A shard of the packet after the one being received is kept. The packet being received goes on
/// undisturbed unless the later one is now whole, in which case the receiver turns to the later
/// one and reports a loss.
pub proof fn law_early_shard_is_kept(
    reception: Reception,
    sender: StreamSender,
    header: Seq<u8>,
    buffer: Seq<u8>,
    index: int,
)
    requires
        is_sendable(sender, buffer),
        holds_part_of(reception.receiver.next_packet(), sender, header, buffer),
        reception.packet.index != sender.next_packet_index,
        0 <= index < sender.shards_count(buffer),
    ensures
        ({
            let after = reception.take(
                shard_of_bytes(arriving_shard(sender, header, buffer, index)),
            );
            let kept = reception.receiver.next_shards.dom().insert(index as usize);
            if kept.len() < sender.shards_count(buffer) {
                &&& holds_part_of(after.receiver.next_packet(), sender, header, buffer)
                &&& after.receiver.next_shards.dom() == kept
                &&& after.packet == reception.packet
                &&& after.buffer == reception.buffer
            } else {
                &&& holds_part_of(after.packet, sender, header, buffer)
                &&& has_every_shard(after.packet, sender, buffer)
                &&& after.buffer.had_packet_loss
            }
        }),
{
    law_shard_is_read_as_written(sender, header, buffer, index);
    let count = sender.shards_count(buffer);
    let shard = shard_of_bytes(arriving_shard(sender, header, buffer, index));
    let after = reception.take(shard);
    let kept = reception.receiver.next_shards.dom().insert(index as usize);
    let next = reception.receiver.keep(shard);
    assert(next.next_shards.dom() =~= kept);
    let indices = Set::<usize>::range(0, count as usize);
    vstd::set_lib::range_set_properties::<usize>(0, count as usize);
    assert(kept.subset_of(indices));
    vstd::set_lib::lemma_len_subset(kept, indices);
    if kept.len() == count {
        vstd::set_lib::lemma_subset_equality(kept, indices);
    }
}

/// A shard of a packet beyond the next one makes the receiver skip to that packet. A loss is
/// reported, and all that was kept of other packets is dropped.
pub proof fn law_receiver_skips_to_later_packet(reception: Reception, shard: Shard)
    requires
        shard.packet_index != reception.packet.index,
        shard.packet_index != reception.receiver.next_index,
        is_at_or_after(shard.packet_index, reception.receiver.next_index),
    ensures
        reception.take(shard) == (Reception {
            receiver: ReceiverModel {
                next_shards: Map::empty(),
                next_shards_count: None,
                next_index: index_after(shard.packet_index),
            },
            packet: PacketModel {
                index: shard.packet_index,
                shards: map![shard.index => shard.payload],
                shards_count: Some(shard.shards_count),
            },
            buffer: ReceivedPacket { bytes: reception.buffer.bytes, had_packet_loss: true },
        }),
{
    assert(Map::<usize, Seq<u8>>::empty().insert(shard.index, shard.payload) =~= map![
        shard.index => shard.payload
    ]);
}

/// A packet that a sender sends after another counts as later, also when its index has begun anew
/// at 0 in between, as long as fewer packets lie between them than half of the number of indices.
pub proof fn law_overflowing_index_counts_as_later(index: u32, ahead: u32)
    requires
        0 < ahead < HALF_OF_INDICES,
    ensures
        is_at_or_after(((index + ahead) % (2 * HALF_OF_INDICES as int)) as u32, index),
        !is_at_or_after(index, ((index + ahead) % (2 * HALF_OF_INDICES as int)) as u32),
        is_at_or_after(index, index),
        is_at_or_after(index_after(index), index),
{
}

/// Indices that are close to each other are in their usual order.
pub proof fn law_close_indices_are_in_order(index: u32, other: u32)
    requires
        -HALF_OF_INDICES < index - other < HALF_OF_INDICES,
    ensures
        is_at_or_after(index, other) <==> index >= other,
{
}

/// The receiver is ready for the packet that comes right after the one it is working on.
pub open spec fn expects_next_packet(reception: Reception) -> bool {
    reception.receiver.next_index == index_after(reception.packet.index)
}

/// Packets are handed out in the order of their indices: whatever arrives, the receiver goes on
/// with the same packet or with a later one, and after a packet has been put together it turns
/// to the next one.
pub proof fn law_packets_come_in_order(reception: Reception, bytes: Seq<u8>)
    requires
        expects_next_packet(reception),
    ensures
        ({
            let after = reception.take(shard_of_bytes(bytes));
            let index = reception.packet.index;
            &&& expects_next_packet(after)
            &&& after.packet.index == index || is_at_or_after(
                after.packet.index,
                index_after(index),
            )
            &&& index < HALF_OF_INDICES && shard_of_bytes(bytes).packet_index < HALF_OF_INDICES
                ==> index <= after.packet.index
        }),
        expects_next_packet(reception.settle()),
        ({
            let settled = reception.settle();
            let next = Reception::turn(settled.receiver, settled.buffer);
            &&& expects_next_packet(next)
            &&& next.packet.index == index_after(reception.packet.index)
        }),
{
}

/// A packet of which every shard has arrived is put together from them, whatever their payloads
/// are, and no loss is reported of it.
pub proof fn law_whole_packet_is_joined(reception: Reception)
    requires
        reception.packet.shards.dom().finite(),
        reception.packet.shards_count matches Some(count) && count <= u32::MAX,
        forall|i: usize| #[trigger]
            reception.packet.shards.contains_key(i) <==> i < reception.packet.shards_count->0,
    ensures
        reception.settle() == (Reception {
            buffer: ReceivedPacket {
                bytes: joined(
                    reception.packet.shards,
                    reception.packet.shards_count->0 as nat,
                ),
                had_packet_loss: reception.buffer.had_packet_loss,
            },
            ..reception
        }),
{
    let count = reception.packet.shards_count->0;
    vstd::set_lib::range_set_properties::<usize>(0, count);
    assert(reception.packet.shards.dom() =~= Set::<usize>::range(0, count));
    lemma_no_gap(reception.packet.shards, count as nat, 0);
}

/// Two shards of the packet being received can arrive in either order.
pub proof fn law_order_of_shards_does_not_matter(reception: Reception, one: Shard, other: Shard)
    requires
        one.packet_index == reception.packet.index,
        other.packet_index == reception.packet.index,
        one.shards_count == other.shards_count,
        one.index != other.index,
    ensures
        reception.take(one).take(other) == reception.take(other).take(one),
{
    assert(reception.take(one).take(other).packet.shards =~= reception.take(other).take(
        one,
    ).packet.shards);
}

/// A shard of a packet that came before the one being received changes nothing.
pub proof fn law_old_shard_is_ignored(reception: Reception, shard: Shard)
    requires
        shard.packet_index != reception.packet.index,
        !is_at_or_after(shard.packet_index, reception.receiver.next_index),
    ensures
        reception.take(shard) == reception,
{
}

/// A packet that is put together without one of its shards is reported as damaged.
pub proof fn law_missing_shard_is_reported(reception: Reception, missing: usize)
    requires
        reception.packet.is_ready(),
        missing < reception.packet.shards_count->0,
        !reception.packet.shards.contains_key(missing),
    ensures
        reception.settle().buffer.had_packet_loss,
{
    lemma_gap_is_found(
        reception.packet.shards,
        reception.packet.shards_count->0 as nat,
        0,
        missing,
    );
}

/// A gap is found no later than where a shard is missing.
proof fn lemma_gap_is_found(shards: ShardMap, count: nat, from: nat, missing: usize)
    requires
        from <= missing < count,
        !shards.contains_key(missing),
    ensures
        first_gap(shards, count, from) <= missing,
    decreases count - from,
{
    if from < missing && shards.contains_key(from as usize) {
        lemma_gap_is_found(shards, count, from + 1, missing);
    }
}

/// Each of the shards has arrived as a shard of that packet.
pub open spec fn came_from(shards: ShardMap, packet_index: u32, arrivals: Seq<Seq<u8>>) -> bool {
    forall|index: usize| #[trigger]
        shards.contains_key(index) ==> exists|i: int|
            0 <= i < arrivals.len() && is_arrival(
                #[trigger] arrivals[i],
                packet_index,
                index,
                shards[index],
            )
}

/// The bytes are that shard of that packet.
pub open spec fn is_arrival(
    bytes: Seq<u8>,
    packet_index: u32,
    index: usize,
    payload: Seq<u8>,
) -> bool {
    let shard = shard_of_bytes(bytes);
    shard.packet_index == packet_index && shard.index == index && shard.payload == payload
}

/// The receiver has nothing but shards of the packet it is working on, and of one that comes
/// later.
pub open spec fn is_unmixed(reception: Reception, arrivals: Seq<Seq<u8>>) -> bool {
    &&& came_from(reception.packet.shards, reception.packet.index, arrivals)
    &&& came_from(reception.receiver.next_shards, reception.receiver.next_index, arrivals)
}

/// The shards of different packets are never mixed, whatever arrives.
pub proof fn law_packets_are_not_mixed(
    reception: Reception,
    arrivals: Seq<Seq<u8>>,
    bytes: Seq<u8>,
)
    requires
        is_unmixed(reception, arrivals),
    ensures
        is_unmixed(reception.take(shard_of_bytes(bytes)), arrivals.push(bytes)),
        is_unmixed(reception.settle(), arrivals),
        is_unmixed(
            Reception::turn(reception.settle().receiver, reception.settle().buffer),
            arrivals,
        ),
{
    let shard = shard_of_bytes(bytes);
    let packet = reception.packet;
    let receiver = reception.receiver;
    lemma_more_arrivals(packet.shards, packet.index, arrivals, bytes);
    lemma_more_arrivals(receiver.next_shards, receiver.next_index, arrivals, bytes);
    if shard.packet_index == packet.index {
        lemma_arrival_is_added(packet.shards, packet.index, arrivals, bytes);
    } else if shard.packet_index == receiver.next_index {
        lemma_arrival_is_added(receiver.next_shards, receiver.next_index, arrivals, bytes);
    } else {
        lemma_arrival_is_added(Map::empty(), shard.packet_index, arrivals, bytes);
    }
}

/// A shard that has arrived stays one that has when more do.
proof fn lemma_more_arrivals(
    shards: ShardMap,
    packet_index: u32,
    arrivals: Seq<Seq<u8>>,
    bytes: Seq<u8>,
)
    requires
        came_from(shards, packet_index, arrivals),
    ensures
        came_from(shards, packet_index, arrivals.push(bytes)),
{
    let more = arrivals.push(bytes);
    assert forall|index: usize| #[trigger] shards.contains_key(index) implies exists|i: int|
        0 <= i < more.len() && is_arrival(
            #[trigger] more[i],
            packet_index,
            index,
            shards[index],
        ) by {
        let i = choose|i: int|
            0 <= i < arrivals.len() && is_arrival(
                #[trigger] arrivals[i],
                packet_index,
                index,
                shards[index],
            );
        assert(more[i] == arrivals[i]);
    }
}

/// A shard of a packet joins others of the same packet.
proof fn lemma_arrival_is_added(
    shards: ShardMap,
    packet_index: u32,
    arrivals: Seq<Seq<u8>>,
    bytes: Seq<u8>,
)
    requires
        came_from(shards, packet_index, arrivals),
        shard_of_bytes(bytes).packet_index == packet_index,
    ensures
        came_from(
            shards.insert(shard_of_bytes(bytes).index, shard_of_bytes(bytes).payload),
            packet_index,
            arrivals.push(bytes),
        ),
{
    let shard = shard_of_bytes(bytes);
    let more = arrivals.push(bytes);
    let added = shards.insert(shard.index, shard.payload);
    lemma_more_arrivals(shards, packet_index, arrivals, bytes);
    assert forall|index: usize| #[trigger] added.contains_key(index) implies exists|i: int|
        0 <= i < more.len() && is_arrival(
            #[trigger] more[i],
            packet_index,
            index,
            added[index],
        ) by {
        if index == shard.index {
            assert(is_arrival(more[arrivals.len() as int], packet_index, index, added[index]));
        } else {
            assert(shards.contains_key(index));
        }
    }
}

/// What a number of shards, arriving one after the other, come to as long as the packet is not
/// ready.
pub open spec fn take_all(reception: Reception, arrivals: Seq<Seq<u8>>) -> Reception
    decreases arrivals.len(),
{
    if arrivals.len() == 0 {
        reception
    } else {
        take_all(reception, arrivals.drop_last()).take(shard_of_bytes(arrivals.last()))
    }
}

/// The bytes are a shard of the next packet of a sender.
pub open spec fn is_shard_of(
    bytes: Seq<u8>,
    sender: StreamSender,
    header: Seq<u8>,
    buffer: Seq<u8>,
) -> bool {
    exists|index: int|
        0 <= index < sender.shards_count(buffer) && bytes == #[trigger] arriving_shard(
            sender,
            header,
            buffer,
            index,
        )
}

/// All that arrives is shards of a packet, and shards of packets that came before it.
pub open spec fn arrivals_are_own_or_old(
    start: Reception,
    sender: StreamSender,
    header: Seq<u8>,
    buffer: Seq<u8>,
    arrivals: Seq<Seq<u8>>,
) -> bool {
    forall|i: int|
        0 <= i < arrivals.len() ==> is_shard_of(#[trigger] arrivals[i], sender, header, buffer) || (
        shard_of_bytes(arrivals[i]).packet_index != start.packet.index && !is_at_or_after(
            shard_of_bytes(arrivals[i]).packet_index,
            start.receiver.next_index,
        ))
}

/// Each shard of a packet is among the arrivals.
pub open spec fn every_shard_arrived(
    sender: StreamSender,
    header: Seq<u8>,
    buffer: Seq<u8>,
    arrivals: Seq<Seq<u8>>,
) -> bool {
    forall|index: int|
        0 <= index < sender.shards_count(buffer) ==> arrivals.contains(
            #[trigger] arriving_shard(sender, header, buffer, index),
        )
}

/// Whatever the order in which the shards of a packet arrive, however often each of them does, and
/// whatever old shards arrive in between: the packet is ready exactly when each of its shards has
/// arrived, and is then handed out just as it was sent.
pub proof fn law_arrival_order_does_not_matter(
    start: Reception,
    sender: StreamSender,
    header: Seq<u8>,
    buffer: Seq<u8>,
    arrivals: Seq<Seq<u8>>,
)
    requires
        is_sendable(sender, buffer),
        holds_part_of(start.packet, sender, header, buffer),
        start.packet.shards.dom().is_empty(),
        arrivals_are_own_or_old(start, sender, header, buffer, arrivals),
    ensures
        ({
            let after = take_all(start, arrivals);
            let arrived = every_shard_arrived(sender, header, buffer, arrivals);
            &&& after.packet.is_ready() <==> arrived
            &&& arrived ==> after.settle().buffer == (ReceivedPacket {
                bytes: header + buffer,
                had_packet_loss: start.buffer.had_packet_loss,
            })
            &&& !arrived ==> after.settle().buffer == start.buffer
        }),
{
    let after = take_all(start, arrivals);
    lemma_taken_shards(start, sender, header, buffer, arrivals);
    lemma_every_shard_arrived(after.packet, sender, header, buffer, arrivals);
    law_packet_is_restored(after, sender, header, buffer);
}

/// A receiver that has put a packet together waits for the one that its sender sends next, and has
/// kept nothing of the one before.
pub proof fn law_receiver_keeps_up_with_sender(
    receiver: ReceiverModel,
    received: ReceivedPacket,
    sender: StreamSender,
    header: Seq<u8>,
    buffer: Seq<u8>,
    arrivals: Seq<Seq<u8>>,
)
    requires
        is_sendable(sender, buffer),
        receiver.next_index == sender.next_packet_index,
        receiver.next_shards == Map::<usize, Seq<u8>>::empty(),
        receiver.next_shards_count is None,
        arrivals_are_own_or_old(
            Reception::turn(receiver, received),
            sender,
            header,
            buffer,
            arrivals,
        ),
        every_shard_arrived(sender, header, buffer, arrivals),
    ensures
        ({
            let after = take_all(Reception::turn(receiver, received), arrivals).settle();
            &&& after.buffer.bytes == header + buffer
            &&& after.receiver == (ReceiverModel {
                next_shards: Map::empty(),
                next_shards_count: None,
                next_index: index_after(sender.next_packet_index),
            })
        }),
{
    let start = Reception::turn(receiver, received);
    assert(holds_part_of(start.packet, sender, header, buffer));
    assert(start.packet.shards.dom().is_empty());
    law_arrival_order_does_not_matter(start, sender, header, buffer, arrivals);
    lemma_taken_shards(start, sender, header, buffer, arrivals);
    lemma_every_shard_arrived(
        take_all(start, arrivals).packet,
        sender,
        header,
        buffer,
        arrivals,
    );
    law_packet_is_restored(take_all(start, arrivals), sender, header, buffer);
}

/// The packet holds a shard just when it has arrived.
pub open spec fn holds_what_arrived(
    packet: PacketModel,
    sender: StreamSender,
    header: Seq<u8>,
    buffer: Seq<u8>,
    arrivals: Seq<Seq<u8>>,
) -> bool {
    forall|i: usize|
        i < sender.shards_count(buffer) ==> (#[trigger] packet.shards.contains_key(i)
            <==> arrivals.contains(arriving_shard(sender, header, buffer, i as int)))
}

proof fn lemma_every_shard_arrived(
    packet: PacketModel,
    sender: StreamSender,
    header: Seq<u8>,
    buffer: Seq<u8>,
    arrivals: Seq<Seq<u8>>,
)
    requires
        is_sendable(sender, buffer),
        holds_what_arrived(packet, sender, header, buffer, arrivals),
    ensures
        has_every_shard(packet, sender, buffer) <==> every_shard_arrived(
            sender,
            header,
            buffer,
            arrivals,
        ),
{
    let count = sender.shards_count(buffer);
    if every_shard_arrived(sender, header, buffer, arrivals) {
        assert forall|i: usize| i < count implies #[trigger] packet.shards.contains_key(i) by {
            assert(arrivals.contains(arriving_shard(sender, header, buffer, i as int)));
        }
    }
    if has_every_shard(packet, sender, buffer) {
        assert forall|index: int| 0 <= index < count implies arrivals.contains(
            #[trigger] arriving_shard(sender, header, buffer, index),
        ) by {
            assert(packet.shards.contains_key(index as usize));
        }
    }
}

/// The receiver has just the shards that have arrived.
proof fn lemma_taken_shards(
    start: Reception,
    sender: StreamSender,
    header: Seq<u8>,
    buffer: Seq<u8>,
    arrivals: Seq<Seq<u8>>,
)
    requires
        is_sendable(sender, buffer),
        holds_part_of(start.packet, sender, header, buffer),
        start.packet.shards.dom().is_empty(),
        arrivals_are_own_or_old(start, sender, header, buffer, arrivals),
    ensures
        ({
            let after = take_all(start, arrivals);
            &&& holds_part_of(after.packet, sender, header, buffer)
            &&& after.receiver == start.receiver
            &&& after.buffer == start.buffer
            &&& holds_what_arrived(after.packet, sender, header, buffer, arrivals)
        }),
    decreases arrivals.len(),
{
    if arrivals.len() > 0 {
        let before = take_all(start, arrivals.drop_last());
        let after = take_all(start, arrivals);
        assert(arrivals_are_own_or_old(start, sender, header, buffer, arrivals.drop_last())) by {
            assert(forall|i: int|
                0 <= i < arrivals.drop_last().len() ==> #[trigger] arrivals.drop_last()[i]
                    == arrivals[i]);
        }
        lemma_taken_shards(start, sender, header, buffer, arrivals.drop_last());
        let last = arrivals.last();
        assert(arrivals =~= arrivals.drop_last().push(last));
        assert(arrivals[arrivals.len() - 1] == last);
        if is_shard_of(last, sender, header, buffer) {
            let arrived = choose|index: int|
                0 <= index < sender.shards_count(buffer) && last == #[trigger] arriving_shard(
                    sender,
                    header,
                    buffer,
                    index,
                );
            law_shard_is_added(before, sender, header, buffer, arrived);
            law_shard_is_read_as_written(sender, header, buffer, arrived);
        }
        assert forall|i: usize| i < sender.shards_count(buffer) implies (
        #[trigger] after.packet.shards.contains_key(i) <==> arrivals.contains(
            arriving_shard(sender, header, buffer, i as int),
        )) by {
            let bytes = arriving_shard(sender, header, buffer, i as int);
            law_shard_is_read_as_written(sender, header, buffer, i as int);
            lemma_contains_last(arrivals, bytes);
            assert(before.packet.shards.contains_key(i) <==> arrivals.drop_last().contains(bytes));
        }
    }
}

/// A sequence contains what comes before its last element, and that.
proof fn lemma_contains_last(arrivals: Seq<Seq<u8>>, bytes: Seq<u8>)
    requires
        arrivals.len() > 0,
    ensures
        arrivals.contains(bytes) <==> arrivals.drop_last().contains(bytes) || arrivals.last()
            == bytes,
{
    if arrivals.drop_last().contains(bytes) {
        let i = choose|i: int| 0 <= i < arrivals.len() - 1 && arrivals.drop_last()[i] == bytes;
        assert(arrivals[i] == bytes);
    }
    if arrivals.last() == bytes {
        assert(arrivals[arrivals.len() - 1] == bytes);
    }
    if arrivals.contains(bytes) && arrivals.last() != bytes {
        let i = choose|i: int| 0 <= i < arrivals.len() && arrivals[i] == bytes;
        assert(arrivals.drop_last()[i] == bytes);
    }
}

/// The four bytes of a sequence from a place on stand for a number, the highest byte first.
pub open spec fn number_at(bytes: Seq<u8>, at: int) -> int {
    ((bytes[at] * 256 + bytes[at + 1]) * 256 + bytes[at + 2]) * 256 + bytes[at + 3]
}

/// In front of the payload of a shard stand the stream ID in two bytes and the packet index, the
/// number of shards and the index of the shard in four bytes each, the highest byte first. A
/// receiver, which gets the shard without the stream ID, reads them from there.
pub proof fn law_shard_has_its_layout(
    sender: StreamSender,
    header: Seq<u8>,
    buffer: Seq<u8>,
    index: int,
    bytes: Seq<u8>,
)
    requires
        is_sendable(sender, buffer),
        0 <= index < sender.shards_count(buffer),
        bytes.len() >= 12,
    ensures
        ({
            let shard = sender.packet_shards(header, buffer)[index];
            &&& shard.len() >= 14
            &&& shard[0] * 256 + shard[1] == sender.stream_id
            &&& number_at(shard, 2) == sender.next_packet_index
            &&& number_at(shard, 6) == sender.packet_shards(header, buffer).len()
            &&& number_at(shard, 10) == index
            &&& index == 0 ==> shard.skip(14) == header
            &&& index > 0 ==> shard.skip(14) == buffer.subrange(
                (index - 1) * (sender.max_packet_size - 14),
                if index * (sender.max_packet_size - 14) <= buffer.len() {
                    index * (sender.max_packet_size - 14)
                } else {
                    buffer.len() as int
                },
            )
        }),
        shard_of_bytes(bytes) == (Shard {
            packet_index: number_at(bytes, 0) as u32,
            shards_count: number_at(bytes, 4) as usize,
            index: number_at(bytes, 8) as usize,
            payload: bytes.skip(12),
        }),
{
    let count = sender.shards_count(buffer);
    let payload = shard_payload(header, buffer, sender.max_payload_size(), index);
    let shard = sender.packet_shards(header, buffer)[index];
    assert(shard == shard_prefix(
        sender.stream_id,
        sender.next_packet_index,
        count as u32,
        index as u32,
    ) + payload);
    lemma_number_at(sender.next_packet_index);
    lemma_number_at(count as u32);
    lemma_number_at(index as u32);
    let first = be_bytes_32(sender.next_packet_index);
    let second = be_bytes_32(count as u32);
    let third = be_bytes_32(index as u32);
    assert(shard[2] == first[0] && shard[3] == first[1] && shard[4] == first[2] && shard[5]
        == first[3]);
    assert(shard[6] == second[0] && shard[7] == second[1] && shard[8] == second[2] && shard[9]
        == second[3]);
    assert(shard[10] == third[0] && shard[11] == third[1] && shard[12] == third[2] && shard[13]
        == third[3]);
    assert(shard.skip(14) =~= payload);
    if index > 0 {
        let size = sender.max_payload_size();
        assert((index - 1) * size + size == index * size) by (nonlinear_arith);
        assert(size == sender.max_packet_size - 14);
    }
    assert(bytes.skip(4)[0] == bytes[4] && bytes.skip(4)[1] == bytes[5] && bytes.skip(4)[2]
        == bytes[6] && bytes.skip(4)[3] == bytes[7]);
    assert(bytes.skip(8)[0] == bytes[8] && bytes.skip(8)[1] == bytes[9] && bytes.skip(8)[2]
        == bytes[10] && bytes.skip(8)[3] == bytes[11]);
}

/// The bytes of a number stand for it.
proof fn lemma_number_at(n: u32)
    ensures
        number_at(be_bytes_32(n), 0) == n,
{
    lemma_be_number_of_bytes(n, Seq::empty());
    assert(be_bytes_32(n) + Seq::<u8>::empty() =~= be_bytes_32(n));
}

/// A packet is cut into no more shards than it takes: one for the header, and as many as are filled
/// by the buffer, of which only the last one may not be full.
pub proof fn law_shards_are_full(sender: StreamSender, header: Seq<u8>, buffer: Seq<u8>, index: int)
    requires
        is_sendable(sender, buffer),
    ensures
        ({
            let shards = sender.packet_shards(header, buffer);
            let size = sender.max_packet_size - 14;
            &&& shards.len() >= 1
            &&& (shards.len() - 1) * size >= buffer.len()
            &&& shards.len() > 1 ==> (shards.len() - 2) * size < buffer.len()
            &&& 0 < index < shards.len() - 1 ==> shards[index].len() == sender.max_packet_size
            &&& 0 < index < shards.len() ==> shards[index].len() > 14
        }),
{
    let size = sender.max_payload_size();
    let count = sender.shards_count(buffer);
    vstd::arithmetic::div_mod::lemma_fundamental_div_mod(buffer.len() as int, size as int);
    let full = buffer.len() as int / size as int;
    assert((count - 1) * size >= buffer.len()) by (nonlinear_arith)
        requires
            buffer.len() == size * full + buffer.len() % size,
            count - 1 == if buffer.len() % size == 0 { full } else { full + 1 },
            buffer.len() % size < size,
            size > 0,
    ;
    if count > 1 {
        lemma_chunk_starts_inside(buffer.len(), size, (count - 2) as nat);
    }
    if 0 < index < count {
        lemma_chunk_starts_inside(buffer.len(), size, (index - 1) as nat);
        lemma_chunk_position(buffer.len(), size, (index - 1) as nat);
        if index < count - 1 {
            lemma_chunk_starts_inside(buffer.len(), size, index as nat);
        }
    }
}

/// A sender counts its packets, and begins anew at 0 after the last index.
pub proof fn law_sender_counts_its_packets(index: u32)
    ensures
        index_after(index) == (index + 1) % 0x1_0000_0000,
{
}

/// A packet that is put together without one of its shards holds those before the first one that is
/// missing, and nothing after it. What was kept of the next packet is dropped with it.
pub proof fn law_damaged_packet_keeps_its_beginning(reception: Reception, missing: usize)
    requires
        reception.packet.is_ready(),
        missing < reception.packet.shards_count->0,
        !reception.packet.shards.contains_key(missing),
        forall|i: usize| i < missing ==> #[trigger] reception.packet.shards.contains_key(i),
    ensures
        reception.settle().buffer == (ReceivedPacket {
            bytes: joined(reception.packet.shards, missing as nat),
            had_packet_loss: true,
        }),
        reception.settle().receiver == (ReceiverModel {
            next_shards: Map::empty(),
            ..reception.receiver
        }),
        reception.settle().packet == reception.packet,
{
    let shards = reception.packet.shards;
    let count = reception.packet.shards_count->0 as nat;
    lemma_first_gap(shards, count, 0, missing);
}

/// The gap is found where the first shard is missing.
proof fn lemma_first_gap(shards: ShardMap, count: nat, from: nat, to: usize)
    requires
        from <= to < count,
        !shards.contains_key(to),
        forall|i: usize| from <= i < to ==> #[trigger] shards.contains_key(i),
    ensures
        first_gap(shards, count, from) == to,
    decreases count - from,
{
    if from < to {
        assert(shards.contains_key(from as usize));
        lemma_first_gap(shards, count, from + 1, to);
    }
}

/// The payloads of shards are joined one after the other, each of them as it is.
pub proof fn law_payloads_are_joined_in_order(shards: ShardMap, count: nat)
    requires
        count < usize::MAX,
    ensures
        joined(shards, 0) == Seq::<u8>::empty(),
        joined(shards, count + 1) == joined(shards, count) + shards[count as usize],
{
}

/// A packet is put together as soon as as many shards have arrived as it has, and not before. Until
/// then nothing changes.
pub proof fn law_packet_is_put_together_when_ready(reception: Reception)
    ensures
        reception.packet.shards_count is Some && reception.packet.shards.len()
            >= reception.packet.shards_count->0 <==> reception.packet.is_ready(),
        !reception.packet.is_ready() ==> reception.settle() == reception,
{
}

/// A shard of the packet being received takes its place in it, and that of an earlier one with the
/// same index. Its count of shards is that of the packet. Nothing else changes.
pub proof fn law_shard_takes_its_place(reception: Reception, shard: Shard, index: usize)
    requires
        shard.packet_index == reception.packet.index,
    ensures
        ({
            let after = reception.take(shard);
            &&& after.packet.index == reception.packet.index
            &&& after.packet.shards_count == Some(shard.shards_count)
            &&& after.packet.shards.contains_key(index) <==> index == shard.index
                || reception.packet.shards.contains_key(index)
            &&& after.packet.shards[shard.index] == shard.payload
            &&& index != shard.index && reception.packet.shards.contains_key(index)
                ==> after.packet.shards[index] == reception.packet.shards[index]
            &&& after.receiver == reception.receiver
            &&& after.buffer == reception.buffer
        }),
{
}

/// A shard of the next packet is kept with those that were kept of it. Once as many are kept as the
/// packet has, the receiver turns to it and a loss is reported; until then the packet being
/// received goes on as it is.
pub proof fn law_shard_of_the_next_packet_is_kept(reception: Reception, shard: Shard)
    requires
        shard.packet_index == reception.receiver.next_index,
        shard.packet_index != reception.packet.index,
    ensures
        ({
            let after = reception.take(shard);
            let kept = reception.receiver.next_shards.insert(shard.index, shard.payload);
            if kept.len() == shard.shards_count {
                after == (Reception {
                    receiver: ReceiverModel {
                        next_shards: Map::empty(),
                        next_shards_count: None,
                        next_index: index_after(shard.packet_index),
                    },
                    packet: PacketModel {
                        index: shard.packet_index,
                        shards: kept,
                        shards_count: Some(shard.shards_count),
                    },
                    buffer: ReceivedPacket {
                        bytes: reception.buffer.bytes,
                        had_packet_loss: true,
                    },
                })
            } else {
                after == (Reception {
                    receiver: ReceiverModel {
                        next_shards: kept,
                        next_shards_count: Some(shard.shards_count),
                        next_index: shard.packet_index,
                    },
                    ..reception
                })
            }
        }),
{
}

/// A packet counts as the same as another, or as later, if it is reached from it by counting on
/// fewer than 2^31 times, where 0 follows 2^32 - 1.
pub proof fn law_half_of_the_indices_are_later(index: u32, other: u32)
    ensures
        is_at_or_after(index, other) <==> (index - other) % 0x1_0000_0000 < 0x8000_0000,
{
}

/// A receiver that turns to the next packet has what it kept of it, and is then ready for the
/// packet after that, of which it has nothing.
pub proof fn law_next_packet_is_what_was_kept(receiver: ReceiverModel, buffer: ReceivedPacket)
    ensures
        Reception::turn(receiver, buffer).packet.index == receiver.next_index,
        Reception::turn(receiver, buffer).packet.shards == receiver.next_shards,
        Reception::turn(receiver, buffer).packet.shards_count == receiver.next_shards_count,
        Reception::turn(receiver, buffer).receiver.next_index == (receiver.next_index + 1)
            % 0x1_0000_0000,
        Reception::turn(receiver, buffer).receiver.next_shards == Map::<usize, Seq<u8>>::empty(),
        Reception::turn(receiver, buffer).receiver.next_shards_count is None,
        Reception::turn(receiver, buffer).buffer == buffer,
{
}

/// The receiver says that a packet is complete if enough shards have arrived, and hands out what
/// they make up. Otherwise it says that it waits, with the packet and all else as it is.
pub proof fn law_progress_is_that_of_the_packet(
    progress: Progress,
    reception: Reception,
    receiver: ReceiverModel,
    buffer: ReceivedPacket,
)
    requires
        progress.follows(reception, receiver, buffer),
    ensures
        progress is Complete <==> reception.packet.shards_count is Some
            && reception.packet.shards.len() >= reception.packet.shards_count->0,
        progress is Complete ==> receiver == reception.put_together().receiver && buffer
            == reception.put_together().buffer,
        progress is Waiting ==> progress->Waiting_0@ == reception.packet && receiver
            == reception.receiver && buffer == reception.buffer,
{
}

/// The bytes of buffers are those of each of them, in their order or under their index.
pub proof fn law_bytes_are_those_of_the_buffers(
    buffers: Seq<BytesMut>,
    table: Map<usize, BytesMut>,
)
    ensures
        all_bytes(buffers).len() == buffers.len(),
        forall|i: int|
            0 <= i < buffers.len() ==> #[trigger] all_bytes(buffers)[i] == buffer_bytes(buffers[i]),
        shard_map(table).dom() == table.dom(),
        forall|index: usize|
            table.contains_key(index) ==> #[trigger] shard_map(table)[index] == buffer_bytes(
                table[index],
            ),
{
    assert(shard_map(table).dom() =~= table.dom());
}

} // verus!
