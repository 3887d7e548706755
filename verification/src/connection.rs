//! How a client finds the streamer, agrees with it on a stream, and ends the stream.

use vstd::prelude::*;

verus! {

pub const INITIAL_MESSAGE: &'static str = "Searching for streamer...
Open ALVR on your PC then click \"Trust\"
next to the client entry";

pub const NETWORK_UNREACHABLE_MESSAGE: &'static str = "Cannot connect to the internet";

pub const STREAM_STARTING_MESSAGE: &'static str = "The stream will begin soon\nPlease wait...";

pub const SERVER_RESTART_MESSAGE: &'static str = "The streamer is restarting\nPlease wait...";

pub const SERVER_DISCONNECTED_MESSAGE: &'static str = "The streamer has disconnected.";

pub const UNEXPECTED_PACKET_MESSAGE: &'static str = "Unexpected packet";

pub const CONFIG_TIMEOUT_ERROR: &'static str = "Timeout waiting for stream config";

pub const BIND_TIMEOUT_ERROR: &'static str = "Timeout while binding stream socket";

pub const STREAMS_TIMEOUT_ERROR: &'static str = "Timeout while setting up streams";

pub const DISCOVERY_RETRY_PAUSE_MS: u64 = 500;

pub const RETRY_CONNECT_MIN_INTERVAL_MS: u64 = 1000;

pub const CONNECTION_RETRY_INTERVAL_MS: u64 = 1000;

/// How long the streamer may take to say what it wants, in milliseconds.
pub const REPLY_TIMEOUT_MS: u64 = 1000;

/// How long setting up the streams may take, in milliseconds.
pub const STREAMS_TIMEOUT_MS: u64 = 2000;

/// The text that is shown to the user, with the version, the host name and the address before it.
pub open spec fn hud_text(
    version: Seq<char>,
    hostname: Seq<char>,
    ip: Seq<char>,
    message: Seq<char>,
) -> Seq<char> {
    "ALVR v"@ + version + "\nhostname: "@ + hostname + "\nIP: "@ + ip + "\n\n"@ + message
}

/// The text that is shown to the user, with the version, the host name and the address before it.
pub fn hud_message(version: &str, hostname: &str, ip: &str, message: &str) -> (text: String)
    ensures
        text@ == hud_text(version@, hostname@, ip@, message@),
{
    let mut text = "ALVR v".to_owned();
    text.append(version);
    text.append("\nhostname: ");
    text.append(hostname);
    text.append("\nIP: ");
    text.append(ip);
    text.append("\n\n");
    text.append(message);
    text
}

/// Why a connection ended, or did not come about.
#[derive(Debug)]
pub enum ConnectionError {
    /// It was interrupted, as when the client is being closed. This is no failure.
    Interrupted,
    /// Anything else.
    Other(String),
}

/// How a connection ended.
pub enum ResultModel {
    Success,
    Interrupted,
    Other(Seq<char>),
}

/// How a connection ended.
pub open spec fn result_model(result: Result<(), ConnectionError>) -> ResultModel {
    match result {
        Ok(()) => ResultModel::Success,
        Err(ConnectionError::Interrupted) => ResultModel::Interrupted,
        Err(ConnectionError::Other(cause)) => ResultModel::Other(cause@),
    }
}

/// What a client does next while it looks for a streamer.
#[derive(Debug)]
pub enum LifecycleAction {
    /// Stop looking, with that result.
    Return(Result<(), ConnectionError>),
    /// Look for a streamer.
    Connect,
    /// Show a message if there is one, and pause.
    Pause { message: Option<String> },
}

/// Says what a client does at the start of each round. A device that sleeps does not connect.
pub fn begin_round(alive: bool, resumed: bool) -> (action: LifecycleAction)
    ensures
        !alive ==> action is Return && result_model(action->Return_0) == ResultModel::Interrupted,
        alive && resumed ==> action is Connect,
        alive && !resumed ==> action == (LifecycleAction::Pause { message: None }),
{
    if !alive {
        LifecycleAction::Return(Err(ConnectionError::Interrupted))
    } else if resumed {
        LifecycleAction::Connect
    } else {
        LifecycleAction::Pause { message: None }
    }
}

/// Says what a client does after a connection has ended.
pub fn end_round(result: Result<(), ConnectionError>) -> (action: LifecycleAction)
    ensures
        match result_model(result) {
            ResultModel::Success => action == (LifecycleAction::Pause { message: None }),
            ResultModel::Interrupted => {
                action is Return && result_model(action->Return_0) == ResultModel::Success
            },
            ResultModel::Other(cause) => {
                action is Pause && action->message is Some && action->message->0@
                    == "Connection error:\n"@ + cause + "\nCheck the PC for more details"@
            },
        },
{
    match result {
        Ok(()) => LifecycleAction::Pause { message: None },
        Err(ConnectionError::Interrupted) => LifecycleAction::Return(Ok(())),
        Err(ConnectionError::Other(cause)) => {
            let mut message = "Connection error:\n".to_owned();
            message.append(cause.as_str());
            message.append("\nCheck the PC for more details");
            LifecycleAction::Pause { message: Some(message) }
        },
    }
}

/// How far a connection is.
#[derive(Clone, Copy, Debug, PartialEq, Eq, Structural)]
pub enum Stage {
    CheckingLiveness,
    Broadcasting,
    Attempting,
    SendingAcceptance,
    ReceivingConfig,
    ReadingConfig,
    AwaitingStart,
    Binding,
    SendingReady,
    AcceptingStream,
    OpeningAudio,
    Streaming,
    Ended,
}

/// How something that was to be done went.
#[derive(Debug)]
pub enum Outcome {
    Done,
    /// With the reason.
    Failed(String),
    TimedOut,
}

/// What the streamer said when the stream was to start.
#[derive(Clone, Copy, Debug, PartialEq, Eq, Structural)]
pub enum StartReply {
    StartStream,
    Restarting,
    /// Some other packet.
    Unexpected,
    /// Nothing, in time or at all.
    Nothing,
}

/// What ended a stream.
#[derive(Debug)]
pub enum StreamEnd {
    /// The stream itself has ended.
    Stream,
    /// The sound has ended, with that result.
    Sound(Result<(), String>),
    /// The client or the streamer has asked to end it.
    Disconnected,
}

/// What a connection hears of.
#[derive(Debug)]
pub enum ConnectionEvent {
    Liveness { alive: bool },
    Broadcast { sent: bool },
    Attempt { connected: bool },
    Finished(Outcome),
    Start(StartReply),
    StreamEnded(StreamEnd),
}

/// What a connection does. The last thing to be done leads to the next event.
#[derive(Debug)]
pub enum ConnectionAction {
    CheckLiveness,
    Broadcast,
    Attempt { timeout_ms: u64 },
    SendAcceptance,
    ReceiveConfig { timeout_ms: u64 },
    ReadConfig,
    ReceiveStart { timeout_ms: u64 },
    BindStream { timeout_ms: u64 },
    SendReady,
    AcceptStream { timeout_ms: u64 },
    OpenAudio,
    BeginStreaming,
    AwaitEnd,
    EndStreaming,
    ShowMessage(String),
    Sleep { millis: u64 },
    Return(Result<(), ConnectionError>),
}

/// What a connection does, with its text.
pub enum ActionModel {
    CheckLiveness,
    Broadcast,
    Attempt { timeout_ms: u64 },
    SendAcceptance,
    ReceiveConfig { timeout_ms: u64 },
    ReadConfig,
    ReceiveStart { timeout_ms: u64 },
    BindStream { timeout_ms: u64 },
    SendReady,
    AcceptStream { timeout_ms: u64 },
    OpenAudio,
    BeginStreaming,
    AwaitEnd,
    EndStreaming,
    ShowMessage(Seq<char>),
    Sleep { millis: u64 },
    Return(ResultModel),
}

impl View for ConnectionAction {
    type V = ActionModel;

    open spec fn view(&self) -> ActionModel {
        match self {
            ConnectionAction::CheckLiveness => ActionModel::CheckLiveness,
            ConnectionAction::Broadcast => ActionModel::Broadcast,
            ConnectionAction::Attempt { timeout_ms } => ActionModel::Attempt {
                timeout_ms: *timeout_ms,
            },
            ConnectionAction::SendAcceptance => ActionModel::SendAcceptance,
            ConnectionAction::ReceiveConfig { timeout_ms } => ActionModel::ReceiveConfig {
                timeout_ms: *timeout_ms,
            },
            ConnectionAction::ReadConfig => ActionModel::ReadConfig,
            ConnectionAction::ReceiveStart { timeout_ms } => ActionModel::ReceiveStart {
                timeout_ms: *timeout_ms,
            },
            ConnectionAction::BindStream { timeout_ms } => ActionModel::BindStream {
                timeout_ms: *timeout_ms,
            },
            ConnectionAction::SendReady => ActionModel::SendReady,
            ConnectionAction::AcceptStream { timeout_ms } => ActionModel::AcceptStream {
                timeout_ms: *timeout_ms,
            },
            ConnectionAction::OpenAudio => ActionModel::OpenAudio,
            ConnectionAction::BeginStreaming => ActionModel::BeginStreaming,
            ConnectionAction::AwaitEnd => ActionModel::AwaitEnd,
            ConnectionAction::EndStreaming => ActionModel::EndStreaming,
            ConnectionAction::ShowMessage(message) => ActionModel::ShowMessage(message@),
            ConnectionAction::Sleep { millis } => ActionModel::Sleep { millis: *millis },
            ConnectionAction::Return(result) => ActionModel::Return(result_model(*result)),
        }
    }
}

/// The models of actions.
pub open spec fn action_models(actions: Seq<ConnectionAction>) -> Seq<ActionModel> {
    actions.map_values(|action: ConnectionAction| action@)
}

/// The connection ends with an error.
pub open spec fn failure(cause: Seq<char>) -> (Stage, Seq<ActionModel>) {
    (Stage::Ended, seq![ActionModel::Return(ResultModel::Other(cause))])
}

/// The connection ends with a message.
pub open spec fn farewell(message: Seq<char>) -> (Stage, Seq<ActionModel>) {
    (
        Stage::Ended,
        seq![ActionModel::ShowMessage(message), ActionModel::Return(ResultModel::Success)],
    )
}

/// The error when something takes too long.
pub open spec fn timeout_error(stage: Stage) -> Seq<char> {
    match stage {
        Stage::ReceivingConfig => CONFIG_TIMEOUT_ERROR@,
        Stage::Binding => BIND_TIMEOUT_ERROR@,
        _ => STREAMS_TIMEOUT_ERROR@,
    }
}

/// What comes after something was done.
pub open spec fn after_success(stage: Stage) -> (Stage, Seq<ActionModel>) {
    match stage {
        Stage::SendingAcceptance => (
            Stage::ReceivingConfig,
            seq![ActionModel::ReceiveConfig { timeout_ms: REPLY_TIMEOUT_MS }],
        ),
        Stage::ReceivingConfig => (Stage::ReadingConfig, seq![ActionModel::ReadConfig]),
        Stage::ReadingConfig => (
            Stage::AwaitingStart,
            seq![ActionModel::ReceiveStart { timeout_ms: REPLY_TIMEOUT_MS }],
        ),
        Stage::Binding => (Stage::SendingReady, seq![ActionModel::SendReady]),
        Stage::SendingReady => (
            Stage::AcceptingStream,
            seq![ActionModel::AcceptStream { timeout_ms: STREAMS_TIMEOUT_MS }],
        ),
        Stage::AcceptingStream => (Stage::OpeningAudio, seq![ActionModel::OpenAudio]),
        _ => (Stage::Streaming, seq![ActionModel::BeginStreaming, ActionModel::AwaitEnd]),
    }
}

/// The event is one that the connection waits for.
pub open spec fn is_expected(stage: Stage, event: ConnectionEvent) -> bool {
    match event {
        ConnectionEvent::Liveness { .. } => stage is CheckingLiveness,
        ConnectionEvent::Broadcast { .. } => stage is Broadcasting,
        ConnectionEvent::Attempt { .. } => stage is Attempting,
        ConnectionEvent::Finished(Outcome::TimedOut) => {
            stage is ReceivingConfig || stage is Binding || stage is AcceptingStream
        },
        ConnectionEvent::Finished(_) => {
            ||| stage is SendingAcceptance
            ||| stage is ReceivingConfig
            ||| stage is ReadingConfig
            ||| stage is Binding
            ||| stage is SendingReady
            ||| stage is AcceptingStream
            ||| stage is OpeningAudio
        },
        ConnectionEvent::Start(_) => stage is AwaitingStart,
        ConnectionEvent::StreamEnded(_) => stage is Streaming,
    }
}

/// How far a connection is after an event, and what it does.
pub open spec fn step(stage: Stage, event: ConnectionEvent) -> (Stage, Seq<ActionModel>) {
    match event {
        ConnectionEvent::Liveness { alive } => if alive {
            (Stage::Broadcasting, seq![ActionModel::Broadcast])
        } else {
            (Stage::Ended, seq![ActionModel::Return(ResultModel::Interrupted)])
        },
        ConnectionEvent::Broadcast { sent } => if sent {
            (
                Stage::Attempting,
                seq![ActionModel::Attempt { timeout_ms: DISCOVERY_RETRY_PAUSE_MS }],
            )
        } else {
            (
                Stage::Ended,
                seq![
                    ActionModel::ShowMessage(NETWORK_UNREACHABLE_MESSAGE@),
                    ActionModel::Sleep { millis: RETRY_CONNECT_MIN_INTERVAL_MS },
                    ActionModel::ShowMessage(INITIAL_MESSAGE@),
                    ActionModel::Return(ResultModel::Success),
                ],
            )
        },
        ConnectionEvent::Attempt { connected } => if connected {
            (Stage::SendingAcceptance, seq![ActionModel::SendAcceptance])
        } else {
            (Stage::CheckingLiveness, seq![ActionModel::CheckLiveness])
        },
        ConnectionEvent::Finished(Outcome::Done) => after_success(stage),
        ConnectionEvent::Finished(Outcome::Failed(cause)) => if stage is SendingReady {
            farewell(SERVER_DISCONNECTED_MESSAGE@)
        } else {
            failure(cause@)
        },
        ConnectionEvent::Finished(Outcome::TimedOut) => failure(timeout_error(stage)),
        ConnectionEvent::Start(StartReply::StartStream) => (
            Stage::Binding,
            seq![
                ActionModel::ShowMessage(STREAM_STARTING_MESSAGE@),
                ActionModel::BindStream { timeout_ms: REPLY_TIMEOUT_MS },
            ],
        ),
        ConnectionEvent::Start(StartReply::Restarting) => farewell(SERVER_RESTART_MESSAGE@),
        ConnectionEvent::Start(StartReply::Nothing) => farewell(SERVER_DISCONNECTED_MESSAGE@),
        ConnectionEvent::Start(StartReply::Unexpected) => farewell(UNEXPECTED_PACKET_MESSAGE@),
        ConnectionEvent::StreamEnded(StreamEnd::Stream) => (
            Stage::Ended,
            seq![
                ActionModel::ShowMessage(SERVER_DISCONNECTED_MESSAGE@),
                ActionModel::EndStreaming,
                ActionModel::Return(ResultModel::Success),
            ],
        ),
        ConnectionEvent::StreamEnded(StreamEnd::Sound(Err(cause))) => (
            Stage::Ended,
            seq![
                ActionModel::EndStreaming,
                ActionModel::Return(ResultModel::Other(cause@)),
            ],
        ),
        ConnectionEvent::StreamEnded(_) => (
            Stage::Ended,
            seq![ActionModel::EndStreaming, ActionModel::Return(ResultModel::Success)],
        ),
    }
}

/// A connection to a streamer.
pub struct Connection {
    pub stage: Stage,
}

impl Connection {
    /// A connection that has yet to be made. Whether the client is alive is to be checked first.
    pub fn new() -> (connection: Connection)
        ensures
            connection.stage is CheckingLiveness,
    {
        Connection { stage: Stage::CheckingLiveness }
    }

    /// Tells whether the event is one that the connection waits for.
    pub fn expects(&self, event: &ConnectionEvent) -> (expected: bool)
        ensures
            expected == is_expected(self.stage, *event),
    {
        match event {
            ConnectionEvent::Liveness { .. } => matches!(self.stage, Stage::CheckingLiveness),
            ConnectionEvent::Broadcast { .. } => matches!(self.stage, Stage::Broadcasting),
            ConnectionEvent::Attempt { .. } => matches!(self.stage, Stage::Attempting),
            ConnectionEvent::Finished(Outcome::TimedOut) => matches!(
                self.stage,
                Stage::ReceivingConfig | Stage::Binding | Stage::AcceptingStream
            ),
            ConnectionEvent::Finished(_) => matches!(
                self.stage,
                Stage::SendingAcceptance
                | Stage::ReceivingConfig
                | Stage::ReadingConfig
                | Stage::Binding
                | Stage::SendingReady
                | Stage::AcceptingStream
                | Stage::OpeningAudio
            ),
            ConnectionEvent::Start(_) => matches!(self.stage, Stage::AwaitingStart),
            ConnectionEvent::StreamEnded(_) => matches!(self.stage, Stage::Streaming),
        }
    }

    /// Ends the connection with an error.
    fn fail(&mut self, cause: String) -> (actions: Vec<ConnectionAction>)
        ensures
            (final(self).stage, action_models(actions@)) == failure(cause@),
    {
        self.stage = Stage::Ended;
        let mut actions: Vec<ConnectionAction> = Vec::new();
        actions.push(ConnectionAction::Return(Err(ConnectionError::Other(cause))));
        assert(action_models(actions@) =~= failure(cause@).1);
        actions
    }

    /// Ends the connection with a message.
    fn leave(&mut self, message: &str) -> (actions: Vec<ConnectionAction>)
        ensures
            (final(self).stage, action_models(actions@)) == farewell(message@),
    {
        self.stage = Stage::Ended;
        let mut actions: Vec<ConnectionAction> = Vec::new();
        actions.push(ConnectionAction::ShowMessage(message.to_owned()));
        actions.push(ConnectionAction::Return(Ok(())));
        assert(action_models(actions@) =~= farewell(message@).1);
        actions
    }

    /// Goes on after something was done.
    fn proceed(&mut self) -> (actions: Vec<ConnectionAction>)
        ensures
            (final(self).stage, action_models(actions@)) == after_success(old(self).stage),
    {
        let mut actions: Vec<ConnectionAction> = Vec::new();
        self.stage = match self.stage {
            Stage::SendingAcceptance => {
                actions.push(ConnectionAction::ReceiveConfig { timeout_ms: REPLY_TIMEOUT_MS });
                Stage::ReceivingConfig
            },
            Stage::ReceivingConfig => {
                actions.push(ConnectionAction::ReadConfig);
                Stage::ReadingConfig
            },
            Stage::ReadingConfig => {
                actions.push(ConnectionAction::ReceiveStart { timeout_ms: REPLY_TIMEOUT_MS });
                Stage::AwaitingStart
            },
            Stage::Binding => {
                actions.push(ConnectionAction::SendReady);
                Stage::SendingReady
            },
            Stage::SendingReady => {
                actions.push(ConnectionAction::AcceptStream { timeout_ms: STREAMS_TIMEOUT_MS });
                Stage::AcceptingStream
            },
            Stage::AcceptingStream => {
                actions.push(ConnectionAction::OpenAudio);
                Stage::OpeningAudio
            },
            _ => {
                actions.push(ConnectionAction::BeginStreaming);
                actions.push(ConnectionAction::AwaitEnd);
                Stage::Streaming
            },
        };
        assert(action_models(actions@) =~= after_success(old(self).stage).1);
        actions
    }

    /// Ends the stream.
    fn end_stream(&mut self, end: StreamEnd) -> (actions: Vec<ConnectionAction>)
        ensures
            (final(self).stage, action_models(actions@)) == step(
                old(self).stage,
                ConnectionEvent::StreamEnded(end),
            ),
    {
        let ghost event = ConnectionEvent::StreamEnded(end);
        self.stage = Stage::Ended;
        let mut actions: Vec<ConnectionAction> = Vec::new();
        match end {
            StreamEnd::Stream => {
                actions.push(ConnectionAction::ShowMessage(SERVER_DISCONNECTED_MESSAGE.to_owned()));
                actions.push(ConnectionAction::EndStreaming);
                actions.push(ConnectionAction::Return(Ok(())));
            },
            StreamEnd::Sound(Err(cause)) => {
                actions.push(ConnectionAction::EndStreaming);
                actions.push(ConnectionAction::Return(Err(ConnectionError::Other(cause))));
            },
            StreamEnd::Sound(Ok(())) | StreamEnd::Disconnected => {
                actions.push(ConnectionAction::EndStreaming);
                actions.push(ConnectionAction::Return(Ok(())));
            },
        }
        assert(action_models(actions@) =~= step(old(self).stage, event).1);
        actions
    }

    /// Takes an event, and says what to do.
    pub fn handle(&mut self, event: ConnectionEvent) -> (actions: Vec<ConnectionAction>)
        requires
            is_expected(old(self).stage, event),
        ensures
            (final(self).stage, action_models(actions@)) == step(old(self).stage, event),
    {
        let mut actions: Vec<ConnectionAction> = Vec::new();
        match event {
            ConnectionEvent::Liveness { alive } => {
                if alive {
                    self.stage = Stage::Broadcasting;
                    actions.push(ConnectionAction::Broadcast);
                } else {
                    self.stage = Stage::Ended;
                    actions.push(ConnectionAction::Return(Err(ConnectionError::Interrupted)));
                }
            },
            ConnectionEvent::Broadcast { sent } => {
                if sent {
                    self.stage = Stage::Attempting;
                    actions.push(
                        ConnectionAction::Attempt { timeout_ms: DISCOVERY_RETRY_PAUSE_MS },
                    );
                } else {
                    self.stage = Stage::Ended;
                    actions.push(
                        ConnectionAction::ShowMessage(NETWORK_UNREACHABLE_MESSAGE.to_owned()),
                    );
                    actions.push(
                        ConnectionAction::Sleep { millis: RETRY_CONNECT_MIN_INTERVAL_MS },
                    );
                    actions.push(ConnectionAction::ShowMessage(INITIAL_MESSAGE.to_owned()));
                    actions.push(ConnectionAction::Return(Ok(())));
                }
            },
            ConnectionEvent::Attempt { connected } => {
                if connected {
                    self.stage = Stage::SendingAcceptance;
                    actions.push(ConnectionAction::SendAcceptance);
                } else {
                    self.stage = Stage::CheckingLiveness;
                    actions.push(ConnectionAction::CheckLiveness);
                }
            },
            ConnectionEvent::Finished(Outcome::Done) => {
                return self.proceed();
            },
            ConnectionEvent::Finished(Outcome::Failed(cause)) => {
                return match self.stage {
                    Stage::SendingReady => self.leave(SERVER_DISCONNECTED_MESSAGE),
                    _ => self.fail(cause),
                };
            },
            ConnectionEvent::Finished(Outcome::TimedOut) => {
                return match self.stage {
                    Stage::ReceivingConfig => self.fail(CONFIG_TIMEOUT_ERROR.to_owned()),
                    Stage::Binding => self.fail(BIND_TIMEOUT_ERROR.to_owned()),
                    _ => self.fail(STREAMS_TIMEOUT_ERROR.to_owned()),
                };
            },
            ConnectionEvent::Start(StartReply::StartStream) => {
                self.stage = Stage::Binding;
                actions.push(ConnectionAction::ShowMessage(STREAM_STARTING_MESSAGE.to_owned()));
                actions.push(ConnectionAction::BindStream { timeout_ms: REPLY_TIMEOUT_MS });
            },
            ConnectionEvent::Start(StartReply::Restarting) => {
                return self.leave(SERVER_RESTART_MESSAGE);
            },
            ConnectionEvent::Start(StartReply::Nothing) => {
                return self.leave(SERVER_DISCONNECTED_MESSAGE);
            },
            ConnectionEvent::Start(StartReply::Unexpected) => {
                return self.leave(UNEXPECTED_PACKET_MESSAGE);
            },
            ConnectionEvent::StreamEnded(end) => {
                return self.end_stream(end);
            },
        }
        assert(action_models(actions@) =~= step(old(self).stage, event).1);
        actions
    }
}

/// Whether a stream is running after some actions.
pub open spec fn is_streaming(before: bool, actions: Seq<ActionModel>) -> bool
    decreases actions.len(),
{
    if actions.len() == 0 {
        before
    } else {
        match actions.last() {
            ActionModel::BeginStreaming => true,
            ActionModel::EndStreaming => false,
            _ => is_streaming(before, actions.drop_last()),
        }
    }
}

/// A stream runs in the streaming stage and in no other: whatever ends it, it is not left
/// running.
pub proof fn law_stream_is_always_ended(stage: Stage, was_streaming: bool, event: ConnectionEvent)
    requires
        is_expected(stage, event),
        was_streaming == (stage is Streaming),
    ensures
        is_streaming(was_streaming, step(stage, event).1) == (step(stage, event).0 is Streaming),
{
    reveal_with_fuel(is_streaming, 5);
}

/// The action leads to an event, or ends the connection.
pub open spec fn is_decisive(action: ActionModel) -> bool {
    match action {
        ActionModel::ShowMessage(_) | ActionModel::Sleep { .. } | ActionModel::BeginStreaming
        | ActionModel::EndStreaming => false,
        _ => true,
    }
}

/// Of the things that a connection does after an event, the last one and no other leads to the
/// next event, which is one that the connection waits for; a connection that has ended has
/// returned.
pub proof fn law_connection_goes_on(stage: Stage, event: ConnectionEvent)
    requires
        is_expected(stage, event),
    ensures
        step(stage, event).1.len() > 0,
        forall|i: int|
            0 <= i < step(stage, event).1.len() - 1 ==> !is_decisive(
                #[trigger] step(stage, event).1[i],
            ),
        match step(stage, event).1.last() {
            ActionModel::CheckLiveness => step(stage, event).0 is CheckingLiveness,
            ActionModel::Broadcast => step(stage, event).0 is Broadcasting,
            ActionModel::Attempt { .. } => step(stage, event).0 is Attempting,
            ActionModel::SendAcceptance => step(stage, event).0 is SendingAcceptance,
            ActionModel::ReceiveConfig { .. } => step(stage, event).0 is ReceivingConfig,
            ActionModel::ReadConfig => step(stage, event).0 is ReadingConfig,
            ActionModel::ReceiveStart { .. } => step(stage, event).0 is AwaitingStart,
            ActionModel::BindStream { .. } => step(stage, event).0 is Binding,
            ActionModel::SendReady => step(stage, event).0 is SendingReady,
            ActionModel::AcceptStream { .. } => step(stage, event).0 is AcceptingStream,
            ActionModel::OpenAudio => step(stage, event).0 is OpeningAudio,
            ActionModel::AwaitEnd => step(stage, event).0 is Streaming,
            ActionModel::Return(_) => step(stage, event).0 is Ended,
            _ => false,
        },
{
}

/// A stream begins only when all that it needs has been set up.
pub proof fn law_stream_begins_after_setup(stage: Stage, event: ConnectionEvent)
    requires
        is_expected(stage, event),
    ensures
        step(stage, event).1.contains(ActionModel::BeginStreaming) ==> stage is OpeningAudio
            && event == ConnectionEvent::Finished(Outcome::Done),
{
    let actions = step(stage, event).1;
    if actions.contains(ActionModel::BeginStreaming) {
        let i = actions.index_of(ActionModel::BeginStreaming);
        assert(actions[i] == ActionModel::BeginStreaming);
    }
}

/// Something that fails ends the connection with its reason, whatever that is, and nothing else is
/// done. Only if the streamer cannot be told that the client is ready, the streamer is taken to
/// have disconnected.
pub proof fn law_failure_is_returned_with_its_reason(stage: Stage, cause: String)
    ensures
        ({
            let (after, actions) = step(stage, ConnectionEvent::Finished(Outcome::Failed(cause)));
            &&& after is Ended
            &&& !(stage is SendingReady) ==> actions == seq![
                ActionModel::Return(ResultModel::Other(cause@)),
            ]
            &&& stage is SendingReady ==> actions == seq![
                ActionModel::ShowMessage("The streamer has disconnected."@),
                ActionModel::Return(ResultModel::Success),
            ]
        }),
{
}

/// What takes too long ends the connection with an error that says what it was.
pub proof fn law_timeout_is_returned(stage: Stage)
    requires
        is_expected(stage, ConnectionEvent::Finished(Outcome::TimedOut)),
    ensures
        ({
            let (after, actions) = step(stage, ConnectionEvent::Finished(Outcome::TimedOut));
            let cause = if stage is ReceivingConfig {
                "Timeout waiting for stream config"@
            } else if stage is Binding {
                "Timeout while binding stream socket"@
            } else {
                "Timeout while setting up streams"@
            };
            &&& after is Ended
            &&& actions == seq![ActionModel::Return(ResultModel::Other(cause))]
        }),
{
}

/// How a stream ends: whatever ended it, the streaming is ended before the connection returns. An
/// error of the sound is returned with its reason. The user is told if the stream itself has ended.
pub proof fn law_end_of_stream_is_returned(stage: Stage, end: StreamEnd)
    ensures
        ({
            let (after, actions) = step(stage, ConnectionEvent::StreamEnded(end));
            &&& after is Ended
            &&& match end {
                StreamEnd::Stream => actions == seq![
                    ActionModel::ShowMessage("The streamer has disconnected."@),
                    ActionModel::EndStreaming,
                    ActionModel::Return(ResultModel::Success),
                ],
                StreamEnd::Sound(Err(cause)) => actions == seq![
                    ActionModel::EndStreaming,
                    ActionModel::Return(ResultModel::Other(cause@)),
                ],
                StreamEnd::Sound(Ok(())) | StreamEnd::Disconnected => actions == seq![
                    ActionModel::EndStreaming,
                    ActionModel::Return(ResultModel::Success),
                ],
            }
        }),
{
}

/// How far a connection is after a number of events, one after the other.
pub open spec fn after_events(stage: Stage, events: Seq<ConnectionEvent>) -> Stage
    decreases events.len(),
{
    if events.len() == 0 {
        stage
    } else {
        step(after_events(stage, events.drop_last()), events.last()).0
    }
}

/// Each of the events is one that the connection waits for when it comes.
pub open spec fn expects_all(stage: Stage, events: Seq<ConnectionEvent>) -> bool
    decreases events.len(),
{
    events.len() == 0 || (expects_all(stage, events.drop_last()) && is_expected(
        after_events(stage, events.drop_last()),
        events.last(),
    ))
}

/// The steps that lead up to a stream, in their order.
pub open spec fn rank(stage: Stage) -> int {
    match stage {
        Stage::CheckingLiveness => 0,
        Stage::Broadcasting => 1,
        Stage::Attempting => 2,
        Stage::SendingAcceptance => 3,
        Stage::ReceivingConfig => 4,
        Stage::ReadingConfig => 5,
        Stage::AwaitingStart => 6,
        Stage::Binding => 7,
        Stage::SendingReady => 8,
        Stage::AcceptingStream => 9,
        Stage::OpeningAudio => 10,
        Stage::Streaming => 11,
        Stage::Ended => 12,
    }
}

/// The event says that all is well: the client is alive, what was tried went well, and the streamer
/// wants to start.
pub open spec fn is_good(event: ConnectionEvent) -> bool {
    match event {
        ConnectionEvent::Liveness { alive } => alive,
        ConnectionEvent::Broadcast { sent } => sent,
        ConnectionEvent::Attempt { connected } => connected,
        ConnectionEvent::Finished(outcome) => outcome is Done,
        ConnectionEvent::Start(reply) => reply is StartStream,
        ConnectionEvent::StreamEnded(_) => false,
    }
}

/// As long as all is well, the connection takes one step after the other, and leaves none out. What
/// is not well ends the connection, but for a streamer that did not answer: then it all begins
/// anew.
pub proof fn law_connection_takes_every_step(stage: Stage, event: ConnectionEvent)
    requires
        is_expected(stage, event),
    ensures
        is_good(event) ==> rank(step(stage, event).0) == rank(stage) + 1,
        !is_good(event) && !(event is Attempt) ==> step(stage, event).0 is Ended,
        !is_good(event) && event is Attempt ==> step(stage, event).0 is CheckingLiveness
            && step(stage, event).1 == seq![ActionModel::CheckLiveness],
{
}

/// A stream runs only after a run of events that all went well from the last time on that the
/// client was found alive, each of the steps having been taken.
pub proof fn law_stream_needs_every_step(events: Seq<ConnectionEvent>)
    requires
        expects_all(Stage::CheckingLiveness, events),
    ensures
        ({
            let reached = rank(after_events(Stage::CheckingLiveness, events));
            reached <= 11 ==> {
                &&& reached <= events.len()
                &&& forall|i: int|
                    events.len() - reached <= i < events.len() ==> is_good(#[trigger] events[i])
            }
        }),
    decreases events.len(),
{
    if events.len() > 0 {
        let before = events.drop_last();
        law_stream_needs_every_step(before);
        let stage = after_events(Stage::CheckingLiveness, before);
        law_connection_takes_every_step(stage, events.last());
        assert(events[events.len() - 1] == events.last());
        let reached = rank(after_events(Stage::CheckingLiveness, events));
        assert forall|i: int|
            reached <= 11 && events.len() - reached <= i < events.len() implies is_good(
            #[trigger] events[i],
        ) by {
            if i < before.len() {
                assert(before[i] == events[i]);
            }
        }
    }
}

/// What the streamer says when the stream is to start: if it wants to start, the user is told, and
/// the stream is bound; otherwise the user is told why not, and the connection ends without an
/// error.
pub proof fn law_reply_of_the_streamer_is_heeded(stage: Stage, reply: StartReply)
    ensures
        ({
            let (after, actions) = step(stage, ConnectionEvent::Start(reply));
            match reply {
                StartReply::StartStream => after is Binding && actions == seq![
                    ActionModel::ShowMessage("The stream will begin soon\nPlease wait..."@),
                    ActionModel::BindStream { timeout_ms: 1000 },
                ],
                StartReply::Restarting => after is Ended && actions == seq![
                    ActionModel::ShowMessage("The streamer is restarting\nPlease wait..."@),
                    ActionModel::Return(ResultModel::Success),
                ],
                StartReply::Nothing => after is Ended && actions == seq![
                    ActionModel::ShowMessage("The streamer has disconnected."@),
                    ActionModel::Return(ResultModel::Success),
                ],
                StartReply::Unexpected => after is Ended && actions == seq![
                    ActionModel::ShowMessage("Unexpected packet"@),
                    ActionModel::Return(ResultModel::Success),
                ],
            }
        }),
{
}

/// A client that is not alive is interrupted, and one whose broadcast cannot be sent tells the
/// user, waits for a second, and returns without an error.
pub proof fn law_client_that_cannot_connect_returns(stage: Stage)
    ensures
        step(stage, ConnectionEvent::Liveness { alive: false }) == (
            Stage::Ended,
            seq![ActionModel::Return(ResultModel::Interrupted)],
        ),
        step(stage, ConnectionEvent::Broadcast { sent: false }) == (
            Stage::Ended,
            seq![
                ActionModel::ShowMessage("Cannot connect to the internet"@),
                ActionModel::Sleep { millis: 1000 },
                ActionModel::ShowMessage(INITIAL_MESSAGE@),
                ActionModel::Return(ResultModel::Success),
            ],
        ),
{
}

/// What is waited for is not waited for longer than it may take.
pub proof fn law_waiting_has_its_limits(stage: Stage, event: ConnectionEvent, i: int)
    requires
        is_expected(stage, event),
        0 <= i < step(stage, event).1.len(),
    ensures
        match step(stage, event).1[i] {
            ActionModel::Attempt { timeout_ms } => timeout_ms == 500,
            ActionModel::ReceiveConfig { timeout_ms } => timeout_ms == 1000,
            ActionModel::ReceiveStart { timeout_ms } => timeout_ms == 1000,
            ActionModel::BindStream { timeout_ms } => timeout_ms == 1000,
            ActionModel::AcceptStream { timeout_ms } => timeout_ms == 2000,
            _ => true,
        },
{
}

/// The user is shown the version, the host name, the address and the message, each as it is given,
/// and in this order.
pub proof fn law_user_is_shown_all_that_is_given(
    version: Seq<char>,
    hostname: Seq<char>,
    ip: Seq<char>,
    message: Seq<char>,
)
    ensures
        ({
            let text = hud_text(version, hostname, ip, message);
            let first = "ALVR v"@ + version;
            let second = first + "\nhostname: "@ + hostname;
            let third = second + "\nIP: "@ + ip;
            &&& first.is_prefix_of(text)
            &&& second.is_prefix_of(text)
            &&& third.is_prefix_of(text)
            &&& text == third + "\n\n"@ + message
        }),
{
    let text = hud_text(version, hostname, ip, message);
    let first = "ALVR v"@ + version;
    let second = first + "\nhostname: "@ + hostname;
    let third = second + "\nIP: "@ + ip;
    assert(text =~= third + "\n\n"@ + message);
    assert(first =~= text.subrange(0, first.len() as int));
    assert(second =~= text.subrange(0, second.len() as int));
    assert(third =~= text.subrange(0, third.len() as int));
}

/// Whatever comes of what a connection does, it is ready to hear of it, and of nothing else. Once
/// it has ended it hears of nothing.
pub proof fn law_every_outcome_is_expected(stage: Stage, event: ConnectionEvent)
    ensures
        is_expected(stage, event) <==> match stage {
            Stage::CheckingLiveness => event is Liveness,
            Stage::Broadcasting => event is Broadcast,
            Stage::Attempting => event is Attempt,
            Stage::ReceivingConfig | Stage::Binding | Stage::AcceptingStream => event is Finished,
            Stage::SendingAcceptance | Stage::ReadingConfig | Stage::SendingReady
            | Stage::OpeningAudio => event is Finished && !(event->Finished_0 is TimedOut),
            Stage::AwaitingStart => event is Start,
            Stage::Streaming => event is StreamEnded,
            Stage::Ended => false,
        },
{
}

/// A result has a model that says whether the connection was interrupted, and what else went wrong
/// in the same words.
pub proof fn law_model_says_how_it_ended(result: Result<(), ConnectionError>)
    ensures
        result_model(result) is Success <==> result is Ok,
        result_model(result) is Interrupted <==> result == Err::<(), ConnectionError>(
            ConnectionError::Interrupted,
        ),
        result matches Err(ConnectionError::Other(cause)) ==> result_model(result)
            == ResultModel::Other(cause@),
{
}

/// There is one model for each action, in their order. It tells the actions apart, and has the same
/// limits and pauses, the same text and the same result.
pub proof fn law_models_are_those_of_the_actions(actions: Seq<ConnectionAction>, i: int)
    requires
        0 <= i < actions.len(),
    ensures
        action_models(actions).len() == actions.len(),
        ({
            let (action, model) = (actions[i], action_models(actions)[i]);
            &&& model is CheckLiveness <==> action is CheckLiveness
            &&& model is Broadcast <==> action is Broadcast
            &&& model is SendAcceptance <==> action is SendAcceptance
            &&& model is ReadConfig <==> action is ReadConfig
            &&& model is SendReady <==> action is SendReady
            &&& model is OpenAudio <==> action is OpenAudio
            &&& model is BeginStreaming <==> action is BeginStreaming
            &&& model is AwaitEnd <==> action is AwaitEnd
            &&& model is EndStreaming <==> action is EndStreaming
            &&& model is Attempt <==> action is Attempt
            &&& action is Attempt ==> model->Attempt_timeout_ms == action->Attempt_timeout_ms
            &&& model is ReceiveConfig <==> action is ReceiveConfig
            &&& action is ReceiveConfig ==> model->ReceiveConfig_timeout_ms
                == action->ReceiveConfig_timeout_ms
            &&& model is ReceiveStart <==> action is ReceiveStart
            &&& action is ReceiveStart ==> model->ReceiveStart_timeout_ms
                == action->ReceiveStart_timeout_ms
            &&& model is BindStream <==> action is BindStream
            &&& action is BindStream ==> model->BindStream_timeout_ms
                == action->BindStream_timeout_ms
            &&& model is AcceptStream <==> action is AcceptStream
            &&& action is AcceptStream ==> model->AcceptStream_timeout_ms
                == action->AcceptStream_timeout_ms
            &&& model is ShowMessage <==> action is ShowMessage
            &&& action is ShowMessage ==> model->ShowMessage_0 == action->ShowMessage_0@
            &&& model is Sleep <==> action is Sleep
            &&& action is Sleep ==> model->millis == action->millis
            &&& model is Return <==> action is Return
            &&& action is Return ==> model->Return_0 == result_model(action->Return_0)
        }),
{
}

} // verus!
