use alvr_core::stream_socket::{
    PartialPacket, Progress, ReceiverBuffer, StreamReceiver, StreamSender,
};
use bytes::BytesMut;

fn sender() -> StreamSender {
    StreamSender::new(3, 18)
}

/// The shards of the next packet, without the stream ID, as a receiver gets them.
fn arriving(sender: &mut StreamSender, header: &[u8], buffer: Vec<u8>) -> Vec<BytesMut> {
    let shards = sender.send(header, buffer);
    sender.packet_sent();
    shards.iter().map(|shard| BytesMut::from(&shard[2..])).collect()
}

fn waiting(progress: Progress) -> PartialPacket {
    match progress {
        Progress::Waiting(packet) => packet,
        Progress::Complete => panic!("the packet is complete"),
    }
}

fn is_complete(progress: &Progress) -> bool {
    matches!(progress, Progress::Complete)
}

#[test]
fn header_travels_in_a_shard_of_its_own() {
    let sender = StreamSender { stream_id: 3, max_packet_size: 18, next_packet_index: 7 };
    let shards = sender.send(&[1, 2], vec![10, 11, 12, 13, 14]);
    let bytes: Vec<Vec<u8>> = shards.iter().map(|shard| shard.to_vec()).collect();
    assert_eq!(bytes.len(), 3);
    assert_eq!(bytes[0], vec![0, 3, 0, 0, 0, 7, 0, 0, 0, 3, 0, 0, 0, 0, 1, 2]);
    assert_eq!(bytes[1], vec![0, 3, 0, 0, 0, 7, 0, 0, 0, 3, 0, 0, 0, 1, 10, 11, 12, 13]);
    assert_eq!(bytes[2], vec![0, 3, 0, 0, 0, 7, 0, 0, 0, 3, 0, 0, 0, 2, 14]);
}

#[test]
fn numbers_are_written_with_their_highest_byte_first() {
    let sender =
        StreamSender { stream_id: 0x1234, max_packet_size: 100, next_packet_index: 0x89ab_cdef };
    let shards = sender.send(&[], vec![]);
    assert_eq!(shards.len(), 1);
    assert_eq!(
        shards[0].to_vec(),
        vec![0x12, 0x34, 0x89, 0xab, 0xcd, 0xef, 0, 0, 0, 1, 0, 0, 0, 0]
    );
}

#[test]
fn no_shard_is_larger_than_a_packet() {
    let sender = sender();
    for len in 0..20usize {
        let buffer: Vec<u8> = (0..len as u8).collect();
        let shards = sender.send(&[9, 9], buffer.clone());
        assert_eq!(shards.len(), (len + 3) / 4 + 1);
        assert!(shards.iter().all(|shard| shard.len() <= 18));
        let payload: Vec<u8> =
            shards[1..].iter().flat_map(|shard| shard[14..].to_vec()).collect();
        assert_eq!(payload, buffer);
    }
}

#[test]
fn packet_index_starts_anew() {
    let mut sender = StreamSender { next_packet_index: u32::MAX, ..sender() };
    sender.packet_sent();
    assert_eq!(sender.next_packet_index, 0);
    sender.packet_sent();
    assert_eq!(sender.next_packet_index, 1);
}

#[test]
fn packet_is_put_together_in_any_order() {
    let orders: [[usize; 3]; 6] =
        [[0, 1, 2], [0, 2, 1], [1, 0, 2], [1, 2, 0], [2, 0, 1], [2, 1, 0]];
    for order in orders {
        let mut sender = sender();
        let shards = arriving(&mut sender, &[1, 2], vec![10, 11, 12, 13, 14]);
        let mut receiver = StreamReceiver::new();
        let mut buffer = ReceiverBuffer::new();
        let packet = waiting(receiver.begin(&mut buffer));
        let packet =
            waiting(receiver.recv_buffer(packet, shards[order[0]].clone(), &mut buffer));
        let packet =
            waiting(receiver.recv_buffer(packet, shards[order[1]].clone(), &mut buffer));
        let progress = receiver.recv_buffer(packet, shards[order[2]].clone(), &mut buffer);
        assert!(is_complete(&progress));
        assert_eq!(buffer.get(), &[1, 2, 10, 11, 12, 13, 14]);
        assert!(!buffer.had_packet_loss());
    }
}

#[test]
fn receiver_keeps_up_with_sender() {
    let mut sender = sender();
    let mut receiver = StreamReceiver::new();
    let mut buffer = ReceiverBuffer::new();
    for n in 0..5u8 {
        let shards = arriving(&mut sender, &[n], vec![n; 3]);
        let packet = waiting(receiver.begin(&mut buffer));
        let packet = waiting(receiver.recv_buffer(packet, shards[0].clone(), &mut buffer));
        assert!(is_complete(&receiver.recv_buffer(packet, shards[1].clone(), &mut buffer)));
        assert_eq!(buffer.get(), &[n, n, n, n]);
        assert!(!buffer.had_packet_loss());
    }
}

#[test]
fn early_shard_is_kept_for_the_next_packet() {
    let mut sender = sender();
    let first = arriving(&mut sender, &[1], vec![10]);
    let second = arriving(&mut sender, &[2], vec![20]);
    let mut receiver = StreamReceiver::new();
    let mut buffer = ReceiverBuffer::new();
    let packet = waiting(receiver.begin(&mut buffer));
    let packet = waiting(receiver.recv_buffer(packet, first[0].clone(), &mut buffer));
    let packet = waiting(receiver.recv_buffer(packet, second[0].clone(), &mut buffer));
    assert!(is_complete(&receiver.recv_buffer(packet, first[1].clone(), &mut buffer)));
    assert_eq!(buffer.get(), &[1, 10]);

    let packet = waiting(receiver.begin(&mut buffer));
    assert!(is_complete(&receiver.recv_buffer(packet, second[1].clone(), &mut buffer)));
    assert_eq!(buffer.get(), &[2, 20]);
    assert!(!buffer.had_packet_loss());
}

#[test]
fn packet_is_given_up_once_the_next_one_is_whole() {
    let mut sender = sender();
    let first = arriving(&mut sender, &[1], vec![10]);
    let second = arriving(&mut sender, &[2], vec![20]);
    let mut receiver = StreamReceiver::new();
    let mut buffer = ReceiverBuffer::new();
    let packet = waiting(receiver.begin(&mut buffer));
    let packet = waiting(receiver.recv_buffer(packet, first[0].clone(), &mut buffer));
    let packet = waiting(receiver.recv_buffer(packet, second[1].clone(), &mut buffer));
    assert!(is_complete(&receiver.recv_buffer(packet, second[0].clone(), &mut buffer)));
    assert_eq!(buffer.get(), &[2, 20]);
    assert!(buffer.had_packet_loss());

    let third = arriving(&mut sender, &[3], vec![30]);
    let packet = waiting(receiver.begin(&mut buffer));
    assert!(!buffer.had_packet_loss());
    let packet = waiting(receiver.recv_buffer(packet, third[0].clone(), &mut buffer));
    assert!(is_complete(&receiver.recv_buffer(packet, third[1].clone(), &mut buffer)));
    assert_eq!(buffer.get(), &[3, 30]);
}

#[test]
fn later_packet_takes_the_place_of_the_kept_one() {
    let mut sender = sender();
    let _first = arriving(&mut sender, &[1], vec![10]);
    let second = arriving(&mut sender, &[2], vec![20]);
    let third = arriving(&mut sender, &[3], vec![30]);
    let mut receiver = StreamReceiver::new();
    let mut buffer = ReceiverBuffer::new();
    let packet = waiting(receiver.begin(&mut buffer));
    let packet = waiting(receiver.recv_buffer(packet, second[0].clone(), &mut buffer));
    let packet = waiting(receiver.recv_buffer(packet, third[0].clone(), &mut buffer));
    assert!(is_complete(&receiver.recv_buffer(packet, third[1].clone(), &mut buffer)));
    assert_eq!(buffer.get(), &[3, 30]);
    assert!(buffer.had_packet_loss());
}

/// A shard without the stream ID.
fn shard(packet_index: u32, shards_count: u32, index: u32, payload: &[u8]) -> BytesMut {
    let mut bytes = vec![];
    bytes.extend(packet_index.to_be_bytes());
    bytes.extend(shards_count.to_be_bytes());
    bytes.extend(index.to_be_bytes());
    bytes.extend(payload);
    BytesMut::from(&bytes[..])
}

#[test]
fn receiver_skips_to_a_packet_beyond_the_next_one() {
    let mut receiver = StreamReceiver::new();
    let mut buffer = ReceiverBuffer::new();
    let packet = waiting(receiver.begin(&mut buffer));
    let packet = waiting(receiver.recv_buffer(packet, shard(2, 2, 0, b"a"), &mut buffer));
    assert!(buffer.had_packet_loss());
    let packet = waiting(receiver.recv_buffer(packet, shard(0, 1, 0, b"x"), &mut buffer));
    assert!(is_complete(&receiver.recv_buffer(packet, shard(2, 2, 1, b"b"), &mut buffer)));
    assert_eq!(buffer.get(), b"ab");
    assert!(buffer.had_packet_loss());

    let packet = waiting(receiver.begin(&mut buffer));
    assert!(is_complete(&receiver.recv_buffer(packet, shard(3, 1, 0, b"c"), &mut buffer)));
    assert_eq!(buffer.get(), b"c");
    assert!(!buffer.had_packet_loss());
}

#[test]
fn indices_that_begin_anew_count_as_later() {
    let mut receiver = StreamReceiver::new();
    let mut buffer = ReceiverBuffer::new();
    for index in [0x7fff_ffff, 0xffff_fffd, 0xffff_ffff] {
        let packet = waiting(receiver.begin(&mut buffer));
        let progress = receiver.recv_buffer(packet, shard(index, 1, 0, b"a"), &mut buffer);
        assert!(is_complete(&progress));
        assert!(buffer.had_packet_loss());
    }
    let packet = waiting(receiver.begin(&mut buffer));
    assert!(is_complete(&receiver.recv_buffer(packet, shard(0, 1, 0, b"b"), &mut buffer)));
    assert_eq!(buffer.get(), b"b");
    assert!(!buffer.had_packet_loss());

    // A late shard from before the indices began anew is old.
    let packet = waiting(receiver.begin(&mut buffer));
    let late = shard(u32::MAX, 1, 0, b"z");
    let packet = waiting(receiver.recv_buffer(packet, late, &mut buffer));
    assert!(is_complete(&receiver.recv_buffer(packet, shard(1, 1, 0, b"c"), &mut buffer)));
    assert_eq!(buffer.get(), b"c");
    assert!(!buffer.had_packet_loss());
}

#[test]
fn packets_lost_around_the_last_index_are_skipped() {
    let mut receiver = StreamReceiver::new();
    let mut buffer = ReceiverBuffer::new();
    for index in [0x7fff_ffff, 0xffff_fffd] {
        let packet = waiting(receiver.begin(&mut buffer));
        let progress = receiver.recv_buffer(packet, shard(index, 1, 0, b"a"), &mut buffer);
        assert!(is_complete(&progress));
    }
    // The packets 0xffff_fffe, 0xffff_ffff and 0 are lost.
    let packet = waiting(receiver.begin(&mut buffer));
    let packet = waiting(receiver.recv_buffer(packet, shard(1, 2, 1, b"c"), &mut buffer));
    assert!(is_complete(&receiver.recv_buffer(packet, shard(1, 2, 0, b"b"), &mut buffer)));
    assert_eq!(buffer.get(), b"bc");
    assert!(buffer.had_packet_loss());
}

#[test]
fn shards_of_any_size_are_joined() {
    let mut receiver = StreamReceiver::new();
    let mut buffer = ReceiverBuffer::new();
    let packet = waiting(receiver.begin(&mut buffer));
    let packet = waiting(receiver.recv_buffer(packet, shard(0, 3, 2, b"defg"), &mut buffer));
    let packet = waiting(receiver.recv_buffer(packet, shard(0, 3, 0, b"abc"), &mut buffer));
    assert!(is_complete(&receiver.recv_buffer(packet, shard(0, 3, 1, b""), &mut buffer)));
    assert_eq!(buffer.get(), b"abcdefg");
    assert!(!buffer.had_packet_loss());
}

#[test]
fn old_shard_is_ignored() {
    let mut sender = sender();
    let first = arriving(&mut sender, &[1], vec![]);
    let second = arriving(&mut sender, &[2], vec![20]);
    let mut receiver = StreamReceiver::new();
    let mut buffer = ReceiverBuffer::new();
    let packet = waiting(receiver.begin(&mut buffer));
    assert!(is_complete(&receiver.recv_buffer(packet, first[0].clone(), &mut buffer)));
    let packet = waiting(receiver.begin(&mut buffer));
    let packet = waiting(receiver.recv_buffer(packet, first[0].clone(), &mut buffer));
    let packet = waiting(receiver.recv_buffer(packet, second[0].clone(), &mut buffer));
    assert!(is_complete(&receiver.recv_buffer(packet, second[1].clone(), &mut buffer)));
    assert_eq!(buffer.get(), &[2, 20]);
}

#[test]
fn missing_shard_is_reported() {
    // Three shards are said to belong to the packet, and the one in the middle has a wrong index.
    let shard = |index: u32, payload: u8| shard(0, 3, index, &[payload]);
    let mut receiver = StreamReceiver::new();
    let mut buffer = ReceiverBuffer::new();
    let packet = waiting(receiver.begin(&mut buffer));
    let packet = waiting(receiver.recv_buffer(packet, shard(0, 10), &mut buffer));
    let packet = waiting(receiver.recv_buffer(packet, shard(5, 11), &mut buffer));
    assert!(is_complete(&receiver.recv_buffer(packet, shard(2, 12), &mut buffer)));
    assert_eq!(buffer.get(), &[10]);
    assert!(buffer.had_packet_loss());
}

#[test]
fn buffer_starts_empty() {
    let buffer = ReceiverBuffer::new();
    assert!(buffer.get().is_empty());
    assert!(!buffer.had_packet_loss());
}
