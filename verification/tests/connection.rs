use alvr_core::connection::{
    begin_round, end_round, hud_message, Connection, ConnectionAction, ConnectionError,
    ConnectionEvent, LifecycleAction, Outcome, Stage, StartReply, StreamEnd, INITIAL_MESSAGE,
};
use alvr_core::packets::ServerControlPacket;
use alvr_core::socket_buffers::{
    set_socket_buffers, BufferCall, BufferStage, SocketBufferSize, SocketBuffers,
};
use alvr_core::streaming::{
    goes_on, react, start_reply, BatteryTimer, ControlReaction, ControlReply, FrameDecision,
    KeepAlive, KeepAliveAction, VideoFilter,
};
use alvr_core::time::Instant;
use std::time::Duration;

fn shown(actions: &[ConnectionAction]) -> String {
    format!("{actions:?}")
}

fn step(connection: &mut Connection, event: ConnectionEvent) -> String {
    assert!(connection.expects(&event));
    shown(&connection.handle(event))
}

fn done() -> ConnectionEvent {
    ConnectionEvent::Finished(Outcome::Done)
}

fn failed() -> ConnectionEvent {
    ConnectionEvent::Finished(Outcome::Failed("cause".into()))
}

fn timed_out() -> ConnectionEvent {
    ConnectionEvent::Finished(Outcome::TimedOut)
}

fn at_stage(stage: Stage) -> Connection {
    Connection { stage }
}

#[test]
fn message_has_a_heading() {
    assert_eq!(
        hud_message("20.0.0", "1234.client.alvr", "192.168.1.2", "Hello"),
        "ALVR v20.0.0\nhostname: 1234.client.alvr\nIP: 192.168.1.2\n\nHello"
    );
    assert_eq!(
        INITIAL_MESSAGE,
        "Searching for streamer...\nOpen ALVR on your PC then click \"Trust\"\nnext to the client entry"
    );
}

#[test]
fn sleeping_device_does_not_connect() {
    assert!(matches!(begin_round(true, true), LifecycleAction::Connect));
    assert!(matches!(begin_round(true, false), LifecycleAction::Pause { message: None }));
    for resumed in [false, true] {
        assert!(matches!(
            begin_round(false, resumed),
            LifecycleAction::Return(Err(ConnectionError::Interrupted))
        ));
    }
}

#[test]
fn connection_errors_are_shown() {
    assert!(matches!(end_round(Ok(())), LifecycleAction::Pause { message: None }));
    assert!(matches!(
        end_round(Err(ConnectionError::Interrupted)),
        LifecycleAction::Return(Ok(()))
    ));
    match end_round(Err(ConnectionError::Other("no route".into()))) {
        LifecycleAction::Pause { message: Some(message) } => assert_eq!(
            message,
            "Connection error:\nno route\nCheck the PC for more details"
        ),
        other => panic!("{other:?}"),
    }
}

#[test]
fn stream_is_set_up_step_by_step() {
    let mut connection = Connection::new();
    assert_eq!(step(&mut connection, ConnectionEvent::Liveness { alive: true }), "[Broadcast]");
    assert_eq!(
        step(&mut connection, ConnectionEvent::Broadcast { sent: true }),
        "[Attempt { timeout_ms: 500 }]"
    );
    assert_eq!(
        step(&mut connection, ConnectionEvent::Attempt { connected: false }),
        "[CheckLiveness]"
    );
    step(&mut connection, ConnectionEvent::Liveness { alive: true });
    step(&mut connection, ConnectionEvent::Broadcast { sent: true });
    assert_eq!(
        step(&mut connection, ConnectionEvent::Attempt { connected: true }),
        "[SendAcceptance]"
    );
    assert_eq!(step(&mut connection, done()), "[ReceiveConfig { timeout_ms: 1000 }]");
    assert_eq!(step(&mut connection, done()), "[ReadConfig]");
    assert_eq!(step(&mut connection, done()), "[ReceiveStart { timeout_ms: 1000 }]");
    assert_eq!(
        step(&mut connection, ConnectionEvent::Start(StartReply::StartStream)),
        "[ShowMessage(\"The stream will begin soon\\nPlease wait...\"), BindStream { timeout_ms: 1000 }]"
    );
    assert_eq!(step(&mut connection, done()), "[SendReady]");
    assert_eq!(step(&mut connection, done()), "[AcceptStream { timeout_ms: 2000 }]");
    assert_eq!(step(&mut connection, done()), "[OpenAudio]");
    assert_eq!(step(&mut connection, done()), "[BeginStreaming, AwaitEnd]");
    assert_eq!(
        step(&mut connection, ConnectionEvent::StreamEnded(StreamEnd::Disconnected)),
        "[EndStreaming, Return(Ok(()))]"
    );
    assert_eq!(connection.stage, Stage::Ended);
    assert!(!connection.expects(&done()));
}

#[test]
fn discovery_can_end() {
    let mut connection = Connection::new();
    assert_eq!(
        step(&mut connection, ConnectionEvent::Liveness { alive: false }),
        "[Return(Err(Interrupted))]"
    );
    let mut connection = at_stage(Stage::Broadcasting);
    assert_eq!(
        step(&mut connection, ConnectionEvent::Broadcast { sent: false }),
        format!(
            "[ShowMessage(\"Cannot connect to the internet\"), Sleep {{ millis: 1000 }}, ShowMessage({INITIAL_MESSAGE:?}), Return(Ok(()))]"
        )
    );
}

#[test]
fn failures_are_returned() {
    for stage in [
        Stage::SendingAcceptance,
        Stage::ReceivingConfig,
        Stage::ReadingConfig,
        Stage::Binding,
        Stage::AcceptingStream,
        Stage::OpeningAudio,
    ] {
        assert_eq!(step(&mut at_stage(stage), failed()), "[Return(Err(Other(\"cause\")))]");
    }
    assert_eq!(
        step(&mut at_stage(Stage::SendingReady), failed()),
        "[ShowMessage(\"The streamer has disconnected.\"), Return(Ok(()))]"
    );
}

#[test]
fn timeouts_have_their_own_errors() {
    assert_eq!(
        step(&mut at_stage(Stage::ReceivingConfig), timed_out()),
        "[Return(Err(Other(\"Timeout waiting for stream config\")))]"
    );
    assert_eq!(
        step(&mut at_stage(Stage::Binding), timed_out()),
        "[Return(Err(Other(\"Timeout while binding stream socket\")))]"
    );
    assert_eq!(
        step(&mut at_stage(Stage::AcceptingStream), timed_out()),
        "[Return(Err(Other(\"Timeout while setting up streams\")))]"
    );
    assert!(!at_stage(Stage::SendingReady).expects(&timed_out()));
}

#[test]
fn streamer_may_not_start() {
    let reply = |start| step(&mut at_stage(Stage::AwaitingStart), ConnectionEvent::Start(start));
    assert_eq!(
        reply(StartReply::Restarting),
        "[ShowMessage(\"The streamer is restarting\\nPlease wait...\"), Return(Ok(()))]"
    );
    assert_eq!(
        reply(StartReply::Nothing),
        "[ShowMessage(\"The streamer has disconnected.\"), Return(Ok(()))]"
    );
    assert_eq!(
        reply(StartReply::Unexpected),
        "[ShowMessage(\"Unexpected packet\"), Return(Ok(()))]"
    );
}

#[test]
fn stream_is_always_ended() {
    let end = |end| step(&mut at_stage(Stage::Streaming), ConnectionEvent::StreamEnded(end));
    assert_eq!(
        end(StreamEnd::Stream),
        "[ShowMessage(\"The streamer has disconnected.\"), EndStreaming, Return(Ok(()))]"
    );
    assert_eq!(end(StreamEnd::Sound(Ok(()))), "[EndStreaming, Return(Ok(()))]");
    assert_eq!(
        end(StreamEnd::Sound(Err("device".into()))),
        "[EndStreaming, Return(Err(Other(\"device\")))]"
    );
}

#[test]
fn broken_picture_is_not_shown() {
    let mut filter = VideoFilter::new(true);
    let push = FrameDecision { request_idr: false, push: true };
    let hold = FrameDecision { request_idr: false, push: false };
    assert_eq!(filter.frame_received(false, false), push);
    assert_eq!(
        filter.frame_received(false, true),
        FrameDecision { request_idr: true, push: false }
    );
    assert_eq!(filter.frame_received(false, false), hold);
    assert_eq!(filter.frame_received(true, true), push);
    assert!(!filter.frame_pushed(true));
    assert_eq!(filter.frame_received(false, false), push);
    assert!(filter.frame_pushed(false));
    assert_eq!(filter.frame_received(false, false), hold);
    assert_eq!(filter.frame_received(true, false), push);
}

#[test]
fn broken_picture_may_be_shown() {
    let mut filter = VideoFilter::new(false);
    assert_eq!(
        filter.frame_received(false, true),
        FrameDecision { request_idr: true, push: true }
    );
    assert!(filter.stream_corrupted);
    assert_eq!(
        filter.frame_received(false, false),
        FrameDecision { request_idr: false, push: true }
    );
}

#[test]
fn packets_of_the_streamer_call_for_reactions() {
    let packet = |packet| react(ControlReply::Packet(packet));
    assert!(matches!(
        packet(ServerControlPacket::InitializeDecoder { config_buffer: vec![1, 2] }),
        ControlReaction::CreateDecoder(config) if config == vec![1, 2]
    ));
    assert!(matches!(
        packet(ServerControlPacket::Restarting),
        ControlReaction::Disconnect { message } if message == "The streamer is restarting\nPlease wait..."
    ));
    assert!(matches!(packet(ServerControlPacket::KeepAlive), ControlReaction::Ignore));
    assert!(matches!(
        packet(ServerControlPacket::ServerPredictionAverage(Duration::ZERO)),
        ControlReaction::Ignore
    ));
    assert!(matches!(
        react(ControlReply::Lost),
        ControlReaction::Disconnect { message } if message == "The streamer has disconnected."
    ));
    assert!(matches!(react(ControlReply::Silence), ControlReaction::Ignore));
}

#[test]
fn first_packet_tells_whether_the_stream_starts() {
    let packet = |packet| start_reply(&ControlReply::Packet(packet));
    assert_eq!(packet(ServerControlPacket::StartStream), StartReply::StartStream);
    assert_eq!(packet(ServerControlPacket::Restarting), StartReply::Restarting);
    assert_eq!(packet(ServerControlPacket::Reserved("x".into())), StartReply::Unexpected);
    assert_eq!(start_reply(&ControlReply::Lost), StartReply::Nothing);
    assert_eq!(start_reply(&ControlReply::Silence), StartReply::Nothing);
}

fn at(millis: i64) -> Instant {
    Instant { nanos: millis * 1_000_000 }
}

#[test]
fn streamer_hears_of_the_client_every_second() {
    let mut timer = KeepAlive::new(at(0));
    assert_eq!(timer.poll(true, at(0)), KeepAliveAction::Send);
    assert_eq!(timer.poll(true, at(500)), KeepAliveAction::Wait);
    assert_eq!(timer.poll(true, at(999)), KeepAliveAction::Wait);
    assert_eq!(timer.poll(true, at(1000)), KeepAliveAction::Send);
    assert_eq!(timer.poll(false, at(5000)), KeepAliveAction::Stop);
    assert_eq!(timer.poll(true, at(5000)), KeepAliveAction::Send);
    assert_eq!(timer.deadline.nanos, 3_000_000_000);
}

#[test]
fn battery_is_looked_at_every_minute() {
    let mut timer = BatteryTimer::new(at(0));
    assert!(!timer.poll(at(0)));
    assert!(timer.poll(at(1)));
    assert!(!timer.poll(at(5001)));
    assert!(!timer.poll(at(60_000)));
    assert!(timer.poll(at(60_001)));
}

#[test]
fn stream_goes_on_while_the_client_does() {
    assert!(goes_on(true, true, true));
    assert!(!goes_on(false, true, true));
    assert!(!goes_on(true, false, true));
    assert!(!goes_on(true, true, false));
}

/// The calls that are made, and the stage in which they end. A call succeeds unless it is told to
/// fail.
fn run(mut buffers: SocketBuffers, fails: &[BufferCall]) -> (Vec<BufferCall>, BufferStage) {
    let mut calls = vec![];
    while let Some(call) = buffers.call() {
        buffers.called(!fails.contains(&call));
        calls.push(call);
    }
    (calls, buffers.stage)
}

#[test]
fn buffers_are_left_alone() {
    let buffers = set_socket_buffers(SocketBufferSize::Default, SocketBufferSize::Default);
    assert_eq!(
        run(buffers, &[]),
        (vec![BufferCall::ReadSendSize, BufferCall::ReadRecvSize], BufferStage::Finished)
    );
}

#[test]
fn buffers_are_set() {
    let buffers = set_socket_buffers(SocketBufferSize::Maximum, SocketBufferSize::Custom(9));
    assert_eq!(
        run(buffers, &[]),
        (
            vec![
                BufferCall::ReadSendSize,
                BufferCall::ReadRecvSize,
                BufferCall::SetSendSize(u32::MAX),
                BufferCall::ReadSendSize,
                BufferCall::SetRecvSize(9),
                BufferCall::ReadRecvSize,
            ],
            BufferStage::Finished
        )
    );
}

#[test]
fn size_that_cannot_be_set_is_passed_over() {
    let buffers = set_socket_buffers(SocketBufferSize::Custom(5), SocketBufferSize::Custom(6));
    assert_eq!(
        run(buffers, &[BufferCall::SetSendSize(5), BufferCall::SetRecvSize(6)]),
        (
            vec![
                BufferCall::ReadSendSize,
                BufferCall::ReadRecvSize,
                BufferCall::SetSendSize(5),
                BufferCall::SetRecvSize(6),
            ],
            BufferStage::Finished
        )
    );
}

#[test]
fn size_that_cannot_be_read_is_a_failure() {
    let buffers = set_socket_buffers(SocketBufferSize::Default, SocketBufferSize::Default);
    assert_eq!(
        run(buffers, &[BufferCall::ReadSendSize]),
        (vec![BufferCall::ReadSendSize], BufferStage::Failed)
    );
    assert_eq!(run(buffers, &[BufferCall::ReadRecvSize]).1, BufferStage::Failed);
}
