//! Packets of a stream: cutting a packet into shards and putting it together again.

use crate::buffer::{
    as_slice, be_bytes_16, be_bytes_32, be_number_32, buffer_bytes, buffer_with_capacity, clear,
    get_u32, new_buffer, put_slice, put_u16, put_u32, split,
};
use bytes::BytesMut;
use std::collections::HashMap;
use vstd::prelude::*;
use vstd::slice::slice_subrange;

verus! {

broadcast use vstd::std_specs::hash::group_hash_axioms;

/// Bytes in front of the payload of every shard:
/// `[ 2B (stream ID) | 4B (packet index) | 4B (packet shard count) | 4B (shard index) ]`.
/// Length delimited coding is not part of it.
pub const SHARD_PREFIX_SIZE: usize = 14;

/// The bytes in front of the payload of a shard.
pub open spec fn shard_prefix(
    stream_id: u16,
    packet_index: u32,
    shards_count: u32,
    shard_index: u32,
) -> Seq<u8> {
    be_bytes_16(stream_id) + be_bytes_32(packet_index) + be_bytes_32(shards_count) + be_bytes_32(
        shard_index,
    )
}

/// How many chunks of `size` bytes cover `len` bytes; the last one may be shorter.
pub open spec fn chunks_count(len: nat, size: nat) -> nat {
    if len % size == 0 {
        len / size
    } else {
        len / size + 1
    }
}

/// The chunk at `index` when `bytes` is cut every `size` bytes.
pub open spec fn chunk(bytes: Seq<u8>, size: nat, index: int) -> Seq<u8> {
    let start = index * size;
    let end = start + size;
    bytes.subrange(start, if end <= bytes.len() { end } else { bytes.len() as int })
}

/// A chunk that starts inside the bytes is one of the chunks, and it is the last one just when
/// no more than `size` bytes are left.
pub proof fn lemma_chunk_position(len: nat, size: nat, index: nat)
    requires
        size > 0,
        index * size < len,
    ensures
        index < chunks_count(len, size),
        len - index * size <= size <==> index + 1 == chunks_count(len, size),
        (index + 1) * size == index * size + size,
{
    vstd::arithmetic::div_mod::lemma_fundamental_div_mod(len as int, size as int);
    let full = len as int / size as int;
    let rest = len as int % size as int;
    assert((index + 1) * size == index * size + size) by (nonlinear_arith);
    assert(index <= full) by (nonlinear_arith)
        requires
            index * size < size * full + rest,
            rest < size,
            size > 0,
    ;
    if index < full {
        assert((index + 1) * size <= size * full) by (nonlinear_arith)
            requires
                index + 1 <= full,
                size > 0,
        ;
        if index + 1 < full {
            assert((index + 1) * size + size <= size * full) by (nonlinear_arith)
                requires
                    index + 2 <= full,
                    size > 0,
            ;
        } else {
            assert((index + 1) * size == size * full) by (nonlinear_arith)
                requires
                    index + 1 == full,
            ;
        }
    } else {
        assert(index * size == size * full) by (nonlinear_arith)
            requires
                index == full,
        ;
    }
}

/// What a shard carries: the header comes first, in a shard of its own, and then the buffer.
pub open spec fn shard_payload(
    header: Seq<u8>,
    buffer: Seq<u8>,
    max_payload_size: nat,
    index: int,
) -> Seq<u8> {
    if index == 0 {
        header
    } else {
        chunk(buffer, max_payload_size, index - 1)
    }
}

/// The packet index after `index`.
pub open spec fn index_after(index: u32) -> u32 {
    if index == u32::MAX {
        0
    } else {
        (index + 1) as u32
    }
}

/// The bytes that each of several buffers holds.
pub open spec fn all_bytes(buffers: Seq<BytesMut>) -> Seq<Seq<u8>> {
    buffers.map_values(|buffer: BytesMut| buffer_bytes(buffer))
}

/// Sends the packets of one stream.
pub struct StreamSender {
    pub stream_id: u16,
    pub max_packet_size: usize,
    /// If the packet index overflows the worst that happens is a false positive packet loss.
    pub next_packet_index: u32,
}

impl StreamSender {
    /// The largest payload of a shard.
    pub open spec fn max_payload_size(&self) -> nat {
        (self.max_packet_size - SHARD_PREFIX_SIZE) as nat
    }

    /// The number of shards of a packet.
    pub open spec fn shards_count(&self, buffer: Seq<u8>) -> nat {
        chunks_count(buffer.len(), self.max_payload_size()) + 1
    }

    /// The shards of the next packet, in the order in which they are sent.
    pub open spec fn packet_shards(&self, header: Seq<u8>, buffer: Seq<u8>) -> Seq<Seq<u8>> {
        let count = self.shards_count(buffer);
        Seq::new(
            count,
            |i: int|
                shard_prefix(self.stream_id, self.next_packet_index, count as u32, i as u32)
                    + shard_payload(header, buffer, self.max_payload_size(), i),
        )
    }

    /// A sender that has yet to send its first packet.
    pub fn new(stream_id: u16, max_packet_size: usize) -> (sender: StreamSender)
        ensures
            sender == (StreamSender { stream_id, max_packet_size, next_packet_index: 0 }),
    {
        StreamSender { stream_id, max_packet_size, next_packet_index: 0 }
    }

    /// Cuts a packet, made of a serialized header and a buffer, into the shards to be sent.
    pub fn send(&self, header: &[u8], buffer: Vec<u8>) -> (shards: Vec<BytesMut>)
        requires
            self.max_packet_size > SHARD_PREFIX_SIZE,
            header@.len() + buffer@.len() + self.shards_count(buffer@) * SHARD_PREFIX_SIZE
                <= isize::MAX,
        ensures
            all_bytes(shards@) == self.packet_shards(header@, buffer@),
    {
        let max_payload_size: usize = self.max_packet_size - SHARD_PREFIX_SIZE;
        let len: usize = buffer.len();
        let full_chunks: usize = len / max_payload_size;
        let ghost count: nat = self.shards_count(buffer@);
        assert(full_chunks <= len) by (nonlinear_arith)
            requires
                full_chunks == len / max_payload_size,
                max_payload_size > 0,
        ;
        let shards_count: usize = if len % max_payload_size == 0 {
            full_chunks + 1
        } else {
            full_chunks + 2
        };
        assert(shards_count == count);

        let mut shards: Vec<BytesMut> = Vec::new();
        let mut shards_buffer = buffer_with_capacity(
            header.len() + len + shards_count * SHARD_PREFIX_SIZE,
        );

        put_u16(&mut shards_buffer, self.stream_id);
        put_u32(&mut shards_buffer, self.next_packet_index);
        put_u32(&mut shards_buffer, shards_count as u32);
        put_u32(&mut shards_buffer, 0);
        put_slice(&mut shards_buffer, header);
        shards.push(split(&mut shards_buffer));

        let mut start: usize = 0;
        assert(len == 0 ==> len / max_payload_size == 0 && len % max_payload_size == 0)
            by (nonlinear_arith)
            requires
                max_payload_size > 0,
        ;
        while start < len
            invariant
                buffer_bytes(shards_buffer) == Seq::<u8>::empty(),
                self.max_packet_size > SHARD_PREFIX_SIZE,
                max_payload_size == self.max_payload_size(),
                len == buffer@.len(),
                len + shards_count * SHARD_PREFIX_SIZE <= isize::MAX,
                shards_count == count,
                count == self.shards_count(buffer@),
                start <= len,
                shards@.len() >= 1,
                start < len ==> start == (shards@.len() - 1) * max_payload_size,
                start == len ==> shards@.len() == count,
                forall|i: int|
                    0 <= i < shards@.len() ==> #[trigger] buffer_bytes(shards@[i])
                        == self.packet_shards(header@, buffer@)[i],
            decreases len - start,
        {
            proof {
                lemma_chunk_position(
                    len as nat,
                    max_payload_size as nat,
                    (shards@.len() - 1) as nat,
                );
            }
            let end: usize = if len - start <= max_payload_size {
                len
            } else {
                start + max_payload_size
            };
            put_u16(&mut shards_buffer, self.stream_id);
            put_u32(&mut shards_buffer, self.next_packet_index);
            put_u32(&mut shards_buffer, shards_count as u32);
            put_u32(&mut shards_buffer, shards.len() as u32);
            put_slice(&mut shards_buffer, slice_subrange(buffer.as_slice(), start, end));
            shards.push(split(&mut shards_buffer));
            start = end;
        }
        assert(all_bytes(shards@) =~= self.packet_shards(header@, buffer@));
        shards
    }

    /// To be called when all the shards of a packet have been sent: moves on to the next packet.
    pub fn packet_sent(&mut self)
        ensures
            final(self).stream_id == old(self).stream_id,
            final(self).max_packet_size == old(self).max_packet_size,
            final(self).next_packet_index == index_after(old(self).next_packet_index),
    {
        self.next_packet_index = self.next_packet_index.wrapping_add(1);
    }
}

/// Half of the number of packet indices.
pub const HALF_OF_INDICES: u32 = 0x8000_0000;

/// How many packets the packet `to` comes after the packet `from`. After the last index the
/// indices begin anew at 0.
pub open spec fn packets_ahead(from: u32, to: u32) -> int {
    if from <= to {
        to - from
    } else {
        to - from + 2 * HALF_OF_INDICES
    }
}

/// A packet is the same as another or comes after it. Packets that are further apart than half
/// of the number of indices are taken to be so because the indices have begun anew.
pub open spec fn is_at_or_after(index: u32, other: u32) -> bool {
    packets_ahead(other, index) < HALF_OF_INDICES
}

/// The shards of a packet that have arrived, by their index.
pub type ShardMap = Map<usize, Seq<u8>>;

/// The shards that a table holds, as byte sequences.
pub open spec fn shard_map(shards: Map<usize, BytesMut>) -> ShardMap {
    shards.map_values(|shard: BytesMut| buffer_bytes(shard))
}

/// The first index from `from` on, below `count`, at which a shard is missing; `count` if there
/// is none.
pub open spec fn first_gap(shards: ShardMap, count: nat, from: nat) -> nat
    decreases count - from,
{
    if from >= count {
        count
    } else if !shards.contains_key(from as usize) {
        from
    } else {
        first_gap(shards, count, from + 1)
    }
}

/// The payloads of the first `count` shards, one after the other.
pub open spec fn joined(shards: ShardMap, count: nat) -> Seq<u8>
    decreases count,
{
    if count == 0 {
        Seq::empty()
    } else {
        joined(shards, (count - 1) as nat) + shards[(count - 1) as usize]
    }
}

/// A packet as it is handed to the reader of a stream: its bytes, and whether packets were lost.
pub struct ReceivedPacket {
    pub bytes: Seq<u8>,
    pub had_packet_loss: bool,
}

/// Stores and manages a received packet.
pub struct ReceiverBuffer {
    inner: BytesMut,
    had_packet_loss: bool,
}

impl View for ReceiverBuffer {
    type V = ReceivedPacket;

    closed spec fn view(&self) -> ReceivedPacket {
        ReceivedPacket { bytes: buffer_bytes(self.inner), had_packet_loss: self.had_packet_loss }
    }
}

impl ReceiverBuffer {
    pub fn new() -> (buffer: ReceiverBuffer)
        ensures
            buffer@ == (ReceivedPacket { bytes: Seq::empty(), had_packet_loss: false }),
    {
        ReceiverBuffer { inner: new_buffer(), had_packet_loss: false }
    }

    pub fn had_packet_loss(&self) -> (loss: bool)
        ensures
            loss == self@.had_packet_loss,
    {
        self.had_packet_loss
    }

    /// The bytes of the packet: the serialized header and, after it, the buffer that was sent.
    pub fn get(&self) -> (bytes: &[u8])
        ensures
            bytes@ == self@.bytes,
    {
        as_slice(&self.inner)
    }
}

/// What a receiver knows of the packet after the one it is working on.
pub struct ReceiverModel {
    pub next_shards: ShardMap,
    pub next_shards_count: Option<usize>,
    pub next_index: u32,
}

/// What a receiver knows of the packet it is working on.
pub struct PacketModel {
    pub index: u32,
    pub shards: ShardMap,
    pub shards_count: Option<usize>,
}

impl PacketModel {
    /// Enough shards have arrived to put the packet together.
    pub open spec fn is_ready(self) -> bool {
        self.shards_count matches Some(count) && self.shards.len() >= count
    }

    /// The number of leading shards that have arrived.
    pub open spec fn leading_shards(self) -> nat {
        first_gap(self.shards, self.shards_count->0 as nat, 0)
    }

    /// If the packet is put together now, its bytes fit in a buffer.
    pub open spec fn fits(self) -> bool {
        self.is_ready() ==> joined(self.shards, self.leading_shards()).len() <= isize::MAX
    }
}

impl ReceiverModel {
    /// The packet that the receiver turns to.
    pub open spec fn next_packet(self) -> PacketModel {
        PacketModel {
            index: self.next_index,
            shards: self.next_shards,
            shards_count: self.next_shards_count,
        }
    }

    /// The receiver once it has turned to the next packet.
    pub open spec fn after_next_packet(self) -> ReceiverModel {
        ReceiverModel {
            next_shards: Map::empty(),
            next_shards_count: None,
            next_index: index_after(self.next_index),
        }
    }

    /// The receiver once it has kept a shard of a packet that comes later.
    pub open spec fn keep(self, shard: Shard) -> ReceiverModel {
        let shards = if shard.packet_index == self.next_index {
            self.next_shards
        } else {
            Map::empty()
        };
        ReceiverModel {
            next_shards: shards.insert(shard.index, shard.payload),
            next_shards_count: Some(shard.shards_count),
            next_index: shard.packet_index,
        }
    }

    /// All the shards of the kept packet seem to have arrived.
    pub open spec fn kept_packet_is_whole(self) -> bool {
        self.next_shards_count matches Some(count) && self.next_shards.len() == count
    }
}

/// A shard as a receiver sees it. The stream ID has been taken off.
pub struct Shard {
    pub packet_index: u32,
    pub shards_count: usize,
    pub index: usize,
    pub payload: Seq<u8>,
}

/// Reads the bytes of a shard from which the stream ID has been taken off.
pub open spec fn shard_of_bytes(bytes: Seq<u8>) -> Shard {
    Shard {
        packet_index: be_number_32(bytes) as u32,
        shards_count: be_number_32(bytes.skip(4)) as usize,
        index: be_number_32(bytes.skip(8)) as usize,
        payload: bytes.skip(12),
    }
}

/// The receiver, the packet it is working on and the packet last handed out.
pub struct Reception {
    pub receiver: ReceiverModel,
    pub packet: PacketModel,
    pub buffer: ReceivedPacket,
}

impl Reception {
    /// Turns to the next packet. Used both to begin, and when the current packet is given up.
    pub open spec fn turn(receiver: ReceiverModel, buffer: ReceivedPacket) -> Reception {
        Reception {
            receiver: receiver.after_next_packet(),
            packet: receiver.next_packet(),
            buffer,
        }
    }

    /// What the arrival of a shard changes, before the packet is put together:
    /// a shard of the current packet is added to it, a shard of a later packet is kept for later,
    /// and a shard of an earlier packet is dropped. The current packet is given up, and counts as
    /// lost, once the next one is whole, or as soon as a shard arrives of a packet beyond the
    /// next one.
    pub open spec fn take(self, shard: Shard) -> Reception {
        if shard.packet_index == self.packet.index {
            Reception {
                packet: PacketModel {
                    index: self.packet.index,
                    shards: self.packet.shards.insert(shard.index, shard.payload),
                    shards_count: Some(shard.shards_count),
                },
                ..self
            }
        } else if is_at_or_after(shard.packet_index, self.receiver.next_index) {
            let receiver = self.receiver.keep(shard);
            if shard.packet_index != self.receiver.next_index || receiver.kept_packet_is_whole() {
                Reception::turn(
                    receiver,
                    ReceivedPacket { bytes: self.buffer.bytes, had_packet_loss: true },
                )
            } else {
                Reception { receiver, ..self }
            }
        } else {
            self
        }
    }

    /// Puts the current packet together: its leading shards are joined, and it counts as
    /// damaged, as does what was kept for later, if a shard is missing.
    pub open spec fn put_together(self) -> Reception {
        let count = self.packet.shards_count->0 as nat;
        let leading = self.packet.leading_shards();
        let bytes = joined(self.packet.shards, leading);
        if leading < count {
            Reception {
                receiver: ReceiverModel { next_shards: Map::empty(), ..self.receiver },
                packet: self.packet,
                buffer: ReceivedPacket { bytes, had_packet_loss: true },
            }
        } else {
            Reception {
                buffer: ReceivedPacket {
                    bytes,
                    had_packet_loss: self.buffer.had_packet_loss,
                },
                ..self
            }
        }
    }

    /// The packet is put together as soon as it is ready.
    pub open spec fn settle(self) -> Reception {
        if self.packet.is_ready() {
            self.put_together()
        } else {
            self
        }
    }
}

/// The packet that a receiver is working on.
pub struct PartialPacket {
    index: u32,
    shards: HashMap<usize, BytesMut>,
    shards_count: Option<usize>,
}

impl View for PartialPacket {
    type V = PacketModel;

    closed spec fn view(&self) -> PacketModel {
        PacketModel {
            index: self.index,
            shards: shard_map(self.shards@),
            shards_count: self.shards_count,
        }
    }
}

/// How far the reception of a packet has come.
pub enum Progress {
    /// The packet is in the buffer.
    Complete,
    /// More shards are needed.
    Waiting(PartialPacket),
}

impl Progress {
    /// The receiver, the buffer and the progress are what `reception` comes to when its packet is
    /// put together as soon as it is ready.
    pub open spec fn follows(
        self,
        reception: Reception,
        receiver: ReceiverModel,
        buffer: ReceivedPacket,
    ) -> bool {
        &&& receiver == reception.settle().receiver
        &&& buffer == reception.settle().buffer
        &&& match self {
            Progress::Complete => reception.packet.is_ready(),
            Progress::Waiting(packet) => {
                &&& !reception.packet.is_ready()
                &&& packet@ == reception.packet
            },
        }
    }
}

/// A table of shards has as many entries as there are shards.
proof fn lemma_shard_map_len(shards: Map<usize, BytesMut>)
    ensures
        shard_map(shards).len() == shards.len(),
{
    assert(shard_map(shards).dom() =~= shards.dom());
}

/// No gap is found before the index at which the search begins.
proof fn lemma_first_gap_at_least(shards: ShardMap, count: nat, from: nat)
    requires
        from <= count,
    ensures
        from <= first_gap(shards, count, from) <= count,
    decreases count - from,
{
    if from < count {
        lemma_first_gap_at_least(shards, count, from + 1);
    }
}

/// More shards make no fewer bytes.
proof fn lemma_joined_len(shards: ShardMap, fewer: nat, more: nat)
    requires
        fewer <= more,
    ensures
        joined(shards, fewer).len() <= joined(shards, more).len(),
    decreases more,
{
    if fewer < more {
        lemma_joined_len(shards, fewer, (more - 1) as nat);
    }
}

/// Receives the packets of one stream. It puts packets together from their shards and checks
/// whether shards are missing. It can store at most shards from two packets; if the reordering
/// entropy is too high, packets will never be successfully reconstructed.
pub struct StreamReceiver {
    next_packet_shards: HashMap<usize, BytesMut>,
    next_packet_shards_count: Option<usize>,
    next_packet_index: u32,
}

impl View for StreamReceiver {
    type V = ReceiverModel;

    closed spec fn view(&self) -> ReceiverModel {
        ReceiverModel {
            next_shards: shard_map(self.next_packet_shards@),
            next_shards_count: self.next_packet_shards_count,
            next_index: self.next_packet_index,
        }
    }
}

impl StreamReceiver {
    /// A receiver that waits for the first packet.
    pub fn new() -> (receiver: StreamReceiver)
        ensures
            receiver@ == (ReceiverModel {
                next_shards: Map::empty(),
                next_shards_count: None,
                next_index: 0,
            }),
    {
        let receiver = StreamReceiver {
            next_packet_shards: HashMap::new(),
            next_packet_shards_count: None,
            next_packet_index: 0,
        };
        assert(receiver@.next_shards =~= Map::empty());
        receiver
    }

    fn next_packet(&mut self) -> (packet: PartialPacket)
        ensures
            packet@ == old(self)@.next_packet(),
            final(self)@ == old(self)@.after_next_packet(),
    {
        let index: u32 = self.next_packet_index;
        self.next_packet_index = index.wrapping_add(1);
        let mut shards: HashMap<usize, BytesMut> = HashMap::new();
        std::mem::swap(&mut shards, &mut self.next_packet_shards);
        let shards_count: Option<usize> = self.next_packet_shards_count.take();
        assert(self@.next_shards =~= Map::empty());
        PartialPacket { index, shards, shards_count }
    }

    /// Puts the packet together in `buffer` if it is ready.
    fn settle(&mut self, packet: PartialPacket, buffer: &mut ReceiverBuffer) -> (progress: Progress)
        requires
            packet@.fits(),
        ensures
            ({
                let before = Reception {
                    receiver: old(self)@,
                    packet: packet@,
                    buffer: old(buffer)@,
                };
                progress.follows(before, final(self)@, final(buffer)@)
            }),
    {
        proof {
            lemma_shard_map_len(packet.shards@);
        }
        if let Some(count) = packet.shards_count {
            if packet.shards.len() >= count {
                clear(&mut buffer.inner);
                let mut i: usize = 0;
                let ghost shards = packet@.shards;
                while i < count
                    invariant_except_break
                        buffer.had_packet_loss == old(buffer).had_packet_loss,
                        self@ == old(self)@,
                    invariant
                        i <= count,
                        shards == shard_map(packet.shards@),
                        packet@.shards == shards,
                        packet@.shards_count == Some(count),
                        packet@.is_ready(),
                        packet@.fits(),
                        first_gap(shards, count as nat, 0) == first_gap(
                            shards,
                            count as nat,
                            i as nat,
                        ),
                        buffer_bytes(buffer.inner) == joined(shards, i as nat),
                    ensures
                        ({
                            let before = Reception {
                                receiver: old(self)@,
                                packet: packet@,
                                buffer: old(buffer)@,
                            };
                            &&& self@ == before.put_together().receiver
                            &&& buffer@ == before.put_together().buffer
                        }),
                    decreases count - i,
                {
                    proof {
                        lemma_first_gap_at_least(shards, count as nat, i as nat);
                    }
                    match packet.shards.get(&i) {
                        Some(shard) => {
                            proof {
                                lemma_first_gap_at_least(shards, count as nat, (i + 1) as nat);
                                lemma_joined_len(
                                    shards,
                                    (i + 1) as nat,
                                    first_gap(shards, count as nat, 0),
                                );
                            }
                            put_slice(&mut buffer.inner, as_slice(shard));
                            i += 1;
                        },
                        None => {
                            buffer.had_packet_loss = true;
                            self.next_packet_shards.clear();
                            assert(self@.next_shards =~= Map::empty());
                            break;
                        },
                    }
                }
                return Progress::Complete;
            }
        }
        Progress::Waiting(packet)
    }

    /// Begins to receive a packet. The shards of it that have already come in are used.
    pub fn begin(&mut self, buffer: &mut ReceiverBuffer) -> (progress: Progress)
        requires
            old(self)@.next_packet().fits(),
        ensures
            progress.follows(
                Reception::turn(
                    old(self)@,
                    ReceivedPacket { bytes: old(buffer)@.bytes, had_packet_loss: false },
                ),
                final(self)@,
                final(buffer)@,
            ),
    {
        buffer.had_packet_loss = false;
        let packet = self.next_packet();
        self.settle(packet, buffer)
    }

    /// Goes on receiving a packet with a shard that has come in. The stream ID has been taken off
    /// the shard.
    pub fn recv_buffer(
        &mut self,
        packet: PartialPacket,
        shard: BytesMut,
        buffer: &mut ReceiverBuffer,
    ) -> (progress: Progress)
        requires
            buffer_bytes(shard).len() >= SHARD_PREFIX_SIZE - 2,
            ({
                let before = Reception {
                    receiver: old(self)@,
                    packet: packet@,
                    buffer: old(buffer)@,
                };
                before.take(shard_of_bytes(buffer_bytes(shard))).packet.fits()
            }),
        ensures
            ({
                let before = Reception {
                    receiver: old(self)@,
                    packet: packet@,
                    buffer: old(buffer)@,
                };
                progress.follows(
                    before.take(shard_of_bytes(buffer_bytes(shard))),
                    final(self)@,
                    final(buffer)@,
                )
            }),
    {
        let ghost bytes = buffer_bytes(shard);
        let ghost info = shard_of_bytes(bytes);
        let ghost shards_before = packet@.shards;
        let mut packet = packet;
        let mut shard = shard;
        let shard_packet_index: u32 = get_u32(&mut shard);
        let shards_count: usize = get_u32(&mut shard) as usize;
        let shard_index: usize = get_u32(&mut shard) as usize;
        assert(bytes.skip(4).skip(4) =~= bytes.skip(8));
        assert(bytes.skip(8).skip(4) =~= bytes.skip(12));
        assert(info.payload == buffer_bytes(shard));

        if shard_packet_index == packet.index {
            packet.shards.insert(shard_index, shard);
            packet.shards_count = Some(shards_count);
            assert(packet@.shards =~= shards_before.insert(shard_index, info.payload));
        } else if shard_packet_index.wrapping_sub(self.next_packet_index) < HALF_OF_INDICES {
            let is_beyond_next: bool = shard_packet_index != self.next_packet_index;
            if is_beyond_next {
                self.next_packet_shards.clear();
            }
            self.next_packet_shards.insert(shard_index, shard);
            self.next_packet_shards_count = Some(shards_count);
            self.next_packet_index = shard_packet_index;
            proof {
                lemma_shard_map_len(self.next_packet_shards@);
                assert(self@.next_shards =~= old(self)@.keep(info).next_shards);
            }
            if is_beyond_next || self.next_packet_shards.len() == shards_count {
                // The current packet is given up.
                buffer.had_packet_loss = true;
                packet = self.next_packet();
            }
        }
        self.settle(packet, buffer)
    }
}

} // verus!
