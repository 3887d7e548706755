//! What a client does while a stream is running.

use crate::connection::{StartReply, SERVER_DISCONNECTED_MESSAGE, SERVER_RESTART_MESSAGE};
use crate::packets::ServerControlPacket;
use crate::time::Instant;
use vstd::prelude::*;

verus! {

/// How often the streamer is told that the client is there, in nanoseconds.
pub const NETWORK_KEEPALIVE_INTERVAL_NANOS: i64 = 1_000_000_000;

/// How often the battery is looked at, in nanoseconds.
pub const BATTERY_POLL_INTERVAL_NANOS: i64 = 60_000_000_000;

/// Decides which frames the decoder gets.
#[derive(Clone, Copy, Debug, PartialEq, Eq, Structural)]
pub struct VideoFilter {
    /// The picture is broken until the next frame that needs no other.
    pub stream_corrupted: bool,
    /// A broken picture is not shown.
    pub avoid_video_glitching: bool,
}

/// What becomes of a frame.
#[derive(Clone, Copy, Debug, PartialEq, Eq, Structural)]
pub struct FrameDecision {
    /// A frame that needs no other is asked for.
    pub request_idr: bool,
    /// The frame goes to the decoder.
    pub push: bool,
}

impl VideoFilter {
    /// The filter after a frame has come. One that needs no other mends the picture, and one before
    /// which something was lost breaks it.
    pub open spec fn after_frame(self, is_idr: bool, had_packet_loss: bool) -> VideoFilter {
        VideoFilter {
            stream_corrupted: !is_idr && (had_packet_loss || self.stream_corrupted),
            ..self
        }
    }

    /// The filter after a frame has gone to the decoder. One that the decoder has no room for
    /// breaks the picture.
    pub open spec fn after_push(self, accepted: bool) -> VideoFilter {
        VideoFilter { stream_corrupted: self.stream_corrupted || !accepted, ..self }
    }

    /// A frame goes to the decoder.
    pub open spec fn is_open(self) -> bool {
        !self.stream_corrupted || !self.avoid_video_glitching
    }

    pub fn new(avoid_video_glitching: bool) -> (filter: VideoFilter)
        ensures
            filter == (VideoFilter { stream_corrupted: false, avoid_video_glitching }),
    {
        VideoFilter { stream_corrupted: false, avoid_video_glitching }
    }

    /// Takes note of a frame.
    pub fn frame_received(&mut self, is_idr: bool, had_packet_loss: bool) -> (decision:
        FrameDecision)
        ensures
            *final(self) == old(self).after_frame(is_idr, had_packet_loss),
            decision == (FrameDecision {
                request_idr: !is_idr && had_packet_loss,
                push: final(self).is_open(),
            }),
    {
        let mut request_idr: bool = false;
        if is_idr {
            self.stream_corrupted = false;
        } else if had_packet_loss {
            self.stream_corrupted = true;
            request_idr = true;
        }
        FrameDecision {
            request_idr,
            push: !self.stream_corrupted || !self.avoid_video_glitching,
        }
    }

    /// Takes note of whether the decoder took a frame, and tells whether a frame that needs no
    /// other is asked for.
    pub fn frame_pushed(&mut self, accepted: bool) -> (request_idr: bool)
        ensures
            *final(self) == (VideoFilter {
                stream_corrupted: old(self).stream_corrupted || !accepted,
                ..*old(self)
            }),
            *final(self) == old(self).after_push(accepted),
            request_idr == !accepted,
    {
        if !accepted {
            self.stream_corrupted = true;
        }
        !accepted
    }
}

/// A frame, and whether the decoder takes it if it gets it.
pub struct FrameModel {
    pub is_idr: bool,
    pub had_packet_loss: bool,
    pub accepted: bool,
}

/// The filter after a frame has come and gone to the decoder or not.
pub open spec fn after_one(filter: VideoFilter, frame: FrameModel) -> VideoFilter {
    let later = filter.after_frame(frame.is_idr, frame.had_packet_loss);
    if later.is_open() {
        later.after_push(frame.accepted)
    } else {
        later
    }
}

/// The filter after a number of frames.
pub open spec fn after_all(filter: VideoFilter, frames: Seq<FrameModel>) -> VideoFilter
    decreases frames.len(),
{
    if frames.len() == 0 {
        filter
    } else {
        after_one(after_all(filter, frames.drop_last()), frames.last())
    }
}

/// Where a broken picture is not to be shown, the decoder gets nothing until a frame comes that
/// needs no other.
pub proof fn law_nothing_is_shown_of_a_broken_picture(filter: VideoFilter, frames: Seq<FrameModel>)
    requires
        filter.avoid_video_glitching,
        filter.stream_corrupted,
        forall|i: int| 0 <= i < frames.len() ==> !(#[trigger] frames[i]).is_idr,
    ensures
        after_all(filter, frames).stream_corrupted,
        after_all(filter, frames).avoid_video_glitching,
        !after_all(filter, frames).is_open(),
    decreases frames.len(),
{
    if frames.len() > 0 {
        let before = frames.drop_last();
        assert forall|i: int| 0 <= i < before.len() implies !(#[trigger] before[i]).is_idr by {
            assert(before[i] == frames[i]);
        }
        law_nothing_is_shown_of_a_broken_picture(filter, before);
        assert(!frames[frames.len() - 1].is_idr);
    }
}

/// A frame that needs no other always goes to the decoder, and mends the picture if the decoder
/// takes it.
pub proof fn law_idr_mends_the_picture(filter: VideoFilter, had_packet_loss: bool)
    ensures
        filter.after_frame(true, had_packet_loss).is_open(),
        !after_one(
            filter,
            (FrameModel { is_idr: true, had_packet_loss, accepted: true }),
        ).stream_corrupted,
{
}

/// What a packet of the streamer calls for.
#[derive(Debug)]
pub enum ControlReaction {
    /// Make a decoder from that configuration.
    CreateDecoder(Vec<u8>),
    Ignore,
    /// Show a message and end the stream.
    Disconnect { message: String },
}

/// What was heard from the streamer.
pub enum ControlReply {
    Packet(ServerControlPacket),
    /// The streamer cannot be heard any more.
    Lost,
    /// Nothing, for a while.
    Silence,
}

/// Says what the client does about what it heard from the streamer.
pub fn react(reply: ControlReply) -> (reaction: ControlReaction)
    ensures
        match reply {
            ControlReply::Packet(ServerControlPacket::InitializeDecoder { config_buffer }) => {
                reaction == ControlReaction::CreateDecoder(config_buffer)
            },
            ControlReply::Packet(ServerControlPacket::Restarting) => {
                reaction is Disconnect && reaction->message@ == SERVER_RESTART_MESSAGE@
            },
            ControlReply::Lost => {
                reaction is Disconnect && reaction->message@ == SERVER_DISCONNECTED_MESSAGE@
            },
            _ => reaction is Ignore,
        },
{
    match reply {
        ControlReply::Packet(ServerControlPacket::InitializeDecoder { config_buffer }) => {
            ControlReaction::CreateDecoder(config_buffer)
        },
        ControlReply::Packet(ServerControlPacket::Restarting) => {
            ControlReaction::Disconnect { message: SERVER_RESTART_MESSAGE.to_owned() }
        },
        ControlReply::Lost => {
            ControlReaction::Disconnect { message: SERVER_DISCONNECTED_MESSAGE.to_owned() }
        },
        _ => ControlReaction::Ignore,
    }
}

/// What the streamer said when the stream was to start.
pub fn start_reply(reply: &ControlReply) -> (start: StartReply)
    ensures
        start == match reply {
            ControlReply::Packet(ServerControlPacket::StartStream) => StartReply::StartStream,
            ControlReply::Packet(ServerControlPacket::Restarting) => StartReply::Restarting,
            ControlReply::Packet(_) => StartReply::Unexpected,
            ControlReply::Lost | ControlReply::Silence => StartReply::Nothing,
        },
{
    match reply {
        ControlReply::Packet(ServerControlPacket::StartStream) => StartReply::StartStream,
        ControlReply::Packet(ServerControlPacket::Restarting) => StartReply::Restarting,
        ControlReply::Packet(_) => StartReply::Unexpected,
        ControlReply::Lost | ControlReply::Silence => StartReply::Nothing,
    }
}

/// What is done to keep a connection up.
#[derive(Clone, Copy, Debug, PartialEq, Eq, Structural)]
pub enum KeepAliveAction {
    /// Tell the streamer that the client is there.
    Send,
    /// Look again in a while.
    Wait,
    Stop,
}

/// Decides when to tell the streamer that the client is there.
#[derive(Clone, Copy)]
pub struct KeepAlive {
    pub deadline: Instant,
}

impl KeepAlive {
    pub fn new(now: Instant) -> (timer: KeepAlive)
        ensures
            timer.deadline == now,
    {
        KeepAlive { deadline: now }
    }

    /// Looks at the clock.
    pub fn poll(&mut self, streaming: bool, now: Instant) -> (action: KeepAliveAction)
        requires
            now.nanos <= i64::MAX - NETWORK_KEEPALIVE_INTERVAL_NANOS,
        ensures
            action == if !streaming {
                KeepAliveAction::Stop
            } else if now.nanos < old(self).deadline.nanos {
                KeepAliveAction::Wait
            } else {
                KeepAliveAction::Send
            },
            final(self).deadline.nanos == if action is Send {
                old(self).deadline.nanos + NETWORK_KEEPALIVE_INTERVAL_NANOS
            } else {
                old(self).deadline.nanos as int
            },
            streaming ==> keepalives(old(self).deadline.nanos as int, seq![now.nanos as int]) == (
                if action is Send {
                    1nat
                } else {
                    0
                },
                final(self).deadline.nanos as int,
            ),
    {
        proof {
            reveal_with_fuel(keepalives, 2);
            let times = seq![now.nanos as int];
            assert(times.drop_last() =~= Seq::empty());
        }
        if !streaming {
            KeepAliveAction::Stop
        } else if now.nanos < self.deadline.nanos {
            KeepAliveAction::Wait
        } else {
            self.deadline = Instant {
                nanos: self.deadline.nanos + NETWORK_KEEPALIVE_INTERVAL_NANOS,
            };
            KeepAliveAction::Send
        }
    }
}

/// How often the streamer is told that the client is there, when the clock is looked at these
/// times, and the deadline after that.
pub open spec fn keepalives(deadline: int, times: Seq<int>) -> (nat, int)
    decreases times.len(),
{
    if times.len() == 0 {
        (0, deadline)
    } else {
        let (count, next) = keepalives(deadline, times.drop_last());
        if times.last() < next {
            (count, next)
        } else {
            (count + 1, next + NETWORK_KEEPALIVE_INTERVAL_NANOS)
        }
    }
}

/// The streamer is told at once, and from then on once in each interval at most.
pub proof fn law_keepalives_are_spaced(start: int, times: Seq<int>)
    requires
        times.len() > 0,
        times[0] == start,
        forall|i: int, j: int| 0 <= i <= j < times.len() ==> times[i] <= times[j],
    ensures
        ({
            let (count, deadline) = keepalives(start, times);
            &&& count >= 1
            &&& deadline == start + count * NETWORK_KEEPALIVE_INTERVAL_NANOS
            &&& start + (count - 1) * NETWORK_KEEPALIVE_INTERVAL_NANOS <= times.last()
        }),
    decreases times.len(),
{
    let before = times.drop_last();
    if before.len() > 0 {
        law_keepalives_are_spaced(start, before);
        assert(before.last() == times[times.len() - 2]);
        assert(times[times.len() - 2] <= times[times.len() - 1]);
    } else {
        assert(keepalives(start, before) == (0nat, start));
    }
}

/// Decides when to look at the battery.
#[derive(Clone, Copy)]
pub struct BatteryTimer {
    pub deadline: Instant,
}

impl BatteryTimer {
    pub fn new(now: Instant) -> (timer: BatteryTimer)
        ensures
            timer.deadline == now,
    {
        BatteryTimer { deadline: now }
    }

    /// Tells whether the battery is to be looked at.
    pub fn poll(&mut self, now: Instant) -> (due: bool)
        requires
            now.nanos <= i64::MAX - BATTERY_POLL_INTERVAL_NANOS,
        ensures
            due == (old(self).deadline.nanos < now.nanos),
            final(self).deadline.nanos == if due {
                old(self).deadline.nanos + BATTERY_POLL_INTERVAL_NANOS
            } else {
                old(self).deadline.nanos as int
            },
            battery_looks(old(self).deadline.nanos as int, seq![now.nanos as int]) == (
                if due {
                    1nat
                } else {
                    0
                },
                final(self).deadline.nanos as int,
            ),
    {
        proof {
            reveal_with_fuel(battery_looks, 2);
            let times = seq![now.nanos as int];
            assert(times.drop_last() =~= Seq::empty());
        }
        if self.deadline.nanos < now.nanos {
            self.deadline = Instant { nanos: self.deadline.nanos + BATTERY_POLL_INTERVAL_NANOS };
            true
        } else {
            false
        }
    }
}

/// Tells whether a stream goes on.
pub fn goes_on(streaming: bool, resumed: bool, alive: bool) -> (on: bool)
    ensures
        on == (streaming && resumed && alive),
{
    streaming && resumed && alive
}

/// How often the battery is looked at, when the clock is looked at these times, and the deadline
/// after that.
pub open spec fn battery_looks(deadline: int, times: Seq<int>) -> (nat, int)
    decreases times.len(),
{
    if times.len() == 0 {
        (0, deadline)
    } else {
        let (count, next) = battery_looks(deadline, times.drop_last());
        if next < times.last() {
            (count + 1, next + BATTERY_POLL_INTERVAL_NANOS)
        } else {
            (count, next)
        }
    }
}

/// The battery is looked at once the start has passed, and from then on once in each minute at
/// most. The deadline moves on by a minute each time, so that a look that comes late makes the
/// others no later.
pub proof fn law_battery_looks_are_spaced(start: int, times: Seq<int>)
    requires
        forall|i: int, j: int| 0 <= i <= j < times.len() ==> times[i] <= times[j],
    ensures
        ({
            let (count, deadline) = battery_looks(start, times);
            &&& deadline == start + count * 60_000_000_000
            &&& count > 0 ==> times.len() > 0 && start + (count - 1) * 60_000_000_000
                < times.last()
            &&& times.len() > 0 && times.last() > start ==> count > 0
        }),
    decreases times.len(),
{
    if times.len() > 0 {
        let before = times.drop_last();
        law_battery_looks_are_spaced(start, before);
        if before.len() > 0 {
            assert(before.last() == times[times.len() - 2]);
            assert(times[times.len() - 2] <= times[times.len() - 1]);
        }
    }
}

/// The streamer is told whenever the deadline has come, and not before; from one time to the next
/// the deadline moves on by a second.
pub proof fn law_keepalives_come_when_due(deadline: int, time: int)
    ensures
        keepalives(deadline, seq![time]) == if time >= deadline {
            (1nat, deadline + 1_000_000_000)
        } else {
            (0nat, deadline)
        },
{
    reveal_with_fuel(keepalives, 2);
    assert(seq![time].drop_last() =~= Seq::empty());
}

/// A frame before which something was lost breaks the picture if it needs others, a frame that
/// needs no other mends it, and any other frame leaves it as it is. A frame that the decoder has no
/// room for breaks it. Whether a broken picture is shown is never changed.
pub proof fn law_loss_breaks_the_picture(filter: VideoFilter, had_packet_loss: bool)
    ensures
        filter.after_frame(false, true).stream_corrupted,
        filter.after_frame(false, false) == filter,
        !filter.after_frame(true, had_packet_loss).stream_corrupted,
        filter.after_push(false).stream_corrupted,
        filter.after_push(true) == filter,
        filter.after_frame(false, had_packet_loss).avoid_video_glitching
            == filter.avoid_video_glitching,
        filter.after_frame(true, had_packet_loss).avoid_video_glitching
            == filter.avoid_video_glitching,
        filter.after_push(false).avoid_video_glitching == filter.avoid_video_glitching,
{
}

/// The decoder gets every frame of a picture that is not broken, and every frame at all where a
/// broken picture is shown. Of a broken picture that is not shown it gets none.
pub proof fn law_decoder_gets_what_is_shown(filter: VideoFilter)
    ensures
        !filter.stream_corrupted ==> filter.is_open(),
        !filter.avoid_video_glitching ==> filter.is_open(),
        filter.stream_corrupted && filter.avoid_video_glitching ==> !filter.is_open(),
{
}

/// As long as nothing is lost and the decoder takes every frame, a picture that is not broken stays
/// so, and the decoder gets every frame.
pub proof fn law_unbroken_picture_is_shown(filter: VideoFilter, frames: Seq<FrameModel>)
    requires
        !filter.stream_corrupted,
        forall|i: int|
            0 <= i < frames.len() ==> !(#[trigger] frames[i]).had_packet_loss
                && frames[i].accepted,
    ensures
        !after_all(filter, frames).stream_corrupted,
        after_all(filter, frames).is_open(),
    decreases frames.len(),
{
    if frames.len() > 0 {
        let before = frames.drop_last();
        assert forall|i: int| 0 <= i < before.len() implies !(
        #[trigger] before[i]).had_packet_loss && before[i].accepted by {
            assert(before[i] == frames[i]);
        }
        law_unbroken_picture_is_shown(filter, before);
        assert(frames.last() == frames[frames.len() - 1]);
    }
}

} // verus!
