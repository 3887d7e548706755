//! How the dashboard finds the server, loses it, and finds it again.

use vstd::prelude::*;

verus! {

/// The pause before the server is looked for again, in milliseconds.
pub const RETRY_PAUSE_MS: u64 = 100;

/// The pause between two rounds of work, in milliseconds.
pub const WORK_PAUSE_MS: u64 = 10;

/// What the worker waits for.
pub enum Phase {
    /// Whether the server can be reached.
    Probing,
    /// What the user interface has sent while the server cannot be reached, and why it cannot.
    Draining(String),
    /// The next event of the server.
    PollingEvents,
    /// The next message of the user interface.
    HandlingMessages,
    /// The end of a pause.
    Sleeping,
    /// Nothing more.
    Stopped,
}

/// What the worker hears of.
pub enum WorkerEvent {
    ServerReachable,
    /// With the reason.
    ServerUnreachable(String),
    /// All waiting messages were taken; they are given up, but for one that asks to quit.
    MessagesDrained { quit: bool },
    EventReceived,
    NoEvent,
    EventStreamClosed,
    NoMessage,
    MessageHandled { quit: bool },
    /// A request failed, with the reason.
    MessageFailed(String),
    Slept,
}

/// What the worker does. The last thing to be done leads to the next event.
pub enum WorkerAction {
    Probe,
    OpenEventStream,
    CloseEventStream,
    SendConnected,
    SendLostConnection(String),
    DrainMessages,
    PollEvent,
    ForwardEvent,
    HandleNextMessage,
    Sleep { millis: u64 },
    Stop,
}

/// What the worker does, with its text.
pub enum ActionModel {
    Probe,
    OpenEventStream,
    CloseEventStream,
    SendConnected,
    SendLostConnection(Seq<char>),
    DrainMessages,
    PollEvent,
    ForwardEvent,
    HandleNextMessage,
    Sleep { millis: u64 },
    Stop,
}

impl View for WorkerAction {
    type V = ActionModel;

    open spec fn view(&self) -> ActionModel {
        match self {
            WorkerAction::Probe => ActionModel::Probe,
            WorkerAction::OpenEventStream => ActionModel::OpenEventStream,
            WorkerAction::CloseEventStream => ActionModel::CloseEventStream,
            WorkerAction::SendConnected => ActionModel::SendConnected,
            WorkerAction::SendLostConnection(why) => ActionModel::SendLostConnection(why@),
            WorkerAction::DrainMessages => ActionModel::DrainMessages,
            WorkerAction::PollEvent => ActionModel::PollEvent,
            WorkerAction::ForwardEvent => ActionModel::ForwardEvent,
            WorkerAction::HandleNextMessage => ActionModel::HandleNextMessage,
            WorkerAction::Sleep { millis } => ActionModel::Sleep { millis: *millis },
            WorkerAction::Stop => ActionModel::Stop,
        }
    }
}

/// The models of actions.
pub open spec fn action_models(actions: Seq<WorkerAction>) -> Seq<ActionModel> {
    actions.map_values(|action: WorkerAction| action@)
}

/// The worker.
pub struct HttpWorker {
    pub connected: bool,
    pub phase: Phase,
}

impl HttpWorker {
    /// The event is one that the worker waits for.
    pub open spec fn expects(self, event: WorkerEvent) -> bool {
        match event {
            WorkerEvent::ServerReachable | WorkerEvent::ServerUnreachable(_) => {
                self.phase is Probing
            },
            WorkerEvent::MessagesDrained { .. } => self.phase is Draining,
            WorkerEvent::EventReceived | WorkerEvent::NoEvent | WorkerEvent::EventStreamClosed => {
                self.phase is PollingEvents
            },
            WorkerEvent::NoMessage | WorkerEvent::MessageHandled { .. }
            | WorkerEvent::MessageFailed(_) => self.phase is HandlingMessages,
            WorkerEvent::Slept => self.phase is Sleeping,
        }
    }

    /// The worker after an event.
    pub open spec fn after(self, event: WorkerEvent) -> HttpWorker {
        match event {
            WorkerEvent::ServerReachable => HttpWorker {
                connected: true,
                phase: Phase::PollingEvents,
            },
            WorkerEvent::ServerUnreachable(why) => HttpWorker {
                connected: false,
                phase: Phase::Draining(why),
            },
            WorkerEvent::MessagesDrained { quit } => HttpWorker {
                phase: if quit {
                    Phase::Stopped
                } else {
                    Phase::Sleeping
                },
                ..self
            },
            WorkerEvent::EventReceived => self,
            WorkerEvent::NoEvent | WorkerEvent::EventStreamClosed => HttpWorker {
                phase: Phase::HandlingMessages,
                ..self
            },
            WorkerEvent::NoMessage => HttpWorker { phase: Phase::Sleeping, ..self },
            WorkerEvent::MessageHandled { quit } => if quit {
                HttpWorker { phase: Phase::Stopped, ..self }
            } else {
                self
            },
            WorkerEvent::MessageFailed(_) => HttpWorker { connected: false, ..self },
            WorkerEvent::Slept => HttpWorker { phase: Phase::Probing, ..self },
        }
    }

    /// What the worker does after an event.
    pub open spec fn actions(self, event: WorkerEvent) -> Seq<ActionModel> {
        match event {
            WorkerEvent::ServerReachable => if self.connected {
                seq![ActionModel::PollEvent]
            } else {
                seq![
                    ActionModel::OpenEventStream,
                    ActionModel::SendConnected,
                    ActionModel::PollEvent,
                ]
            },
            WorkerEvent::ServerUnreachable(_) => seq![
                ActionModel::CloseEventStream,
                ActionModel::DrainMessages,
            ],
            WorkerEvent::MessagesDrained { quit } => if quit {
                seq![ActionModel::CloseEventStream, ActionModel::Stop]
            } else {
                seq![
                    ActionModel::SendLostConnection(self.phase->Draining_0@),
                    ActionModel::Sleep { millis: RETRY_PAUSE_MS },
                ]
            },
            WorkerEvent::EventReceived => seq![ActionModel::ForwardEvent, ActionModel::PollEvent],
            WorkerEvent::NoEvent | WorkerEvent::EventStreamClosed => seq![
                ActionModel::HandleNextMessage,
            ],
            WorkerEvent::NoMessage => seq![ActionModel::Sleep { millis: WORK_PAUSE_MS }],
            WorkerEvent::MessageHandled { quit } => if quit {
                seq![ActionModel::CloseEventStream, ActionModel::Stop]
            } else {
                seq![ActionModel::HandleNextMessage]
            },
            WorkerEvent::MessageFailed(why) => seq![
                ActionModel::CloseEventStream,
                ActionModel::SendLostConnection(why@),
                ActionModel::HandleNextMessage,
            ],
            WorkerEvent::Slept => seq![ActionModel::Probe],
        }
    }

    /// A worker that has yet to find the server, which is to be probed first.
    pub fn new() -> (worker: HttpWorker)
        ensures
            worker == (HttpWorker { connected: false, phase: Phase::Probing }),
    {
        HttpWorker { connected: false, phase: Phase::Probing }
    }

    /// Takes an event, and says what to do.
    pub fn handle(&mut self, event: WorkerEvent) -> (actions: Vec<WorkerAction>)
        requires
            old(self).expects(event),
        ensures
            *final(self) == old(self).after(event),
            action_models(actions@) == old(self).actions(event),
    {
        let mut actions: Vec<WorkerAction> = Vec::new();
        match event {
            WorkerEvent::ServerReachable => {
                if !self.connected {
                    actions.push(WorkerAction::OpenEventStream);
                    actions.push(WorkerAction::SendConnected);
                    self.connected = true;
                }
                actions.push(WorkerAction::PollEvent);
                self.phase = Phase::PollingEvents;
            },
            WorkerEvent::ServerUnreachable(why) => {
                actions.push(WorkerAction::CloseEventStream);
                actions.push(WorkerAction::DrainMessages);
                self.connected = false;
                self.phase = Phase::Draining(why);
            },
            WorkerEvent::MessagesDrained { quit } => {
                if quit {
                    actions.push(WorkerAction::CloseEventStream);
                    actions.push(WorkerAction::Stop);
                    self.phase = Phase::Stopped;
                } else {
                    if let Phase::Draining(why) = &self.phase {
                        actions.push(WorkerAction::SendLostConnection(why.clone()));
                    }
                    actions.push(WorkerAction::Sleep { millis: RETRY_PAUSE_MS });
                    self.phase = Phase::Sleeping;
                }
            },
            WorkerEvent::EventReceived => {
                actions.push(WorkerAction::ForwardEvent);
                actions.push(WorkerAction::PollEvent);
            },
            WorkerEvent::NoEvent | WorkerEvent::EventStreamClosed => {
                actions.push(WorkerAction::HandleNextMessage);
                self.phase = Phase::HandlingMessages;
            },
            WorkerEvent::NoMessage => {
                actions.push(WorkerAction::Sleep { millis: WORK_PAUSE_MS });
                self.phase = Phase::Sleeping;
            },
            WorkerEvent::MessageHandled { quit } => {
                if quit {
                    actions.push(WorkerAction::CloseEventStream);
                    actions.push(WorkerAction::Stop);
                    self.phase = Phase::Stopped;
                } else {
                    actions.push(WorkerAction::HandleNextMessage);
                }
            },
            WorkerEvent::MessageFailed(why) => {
                actions.push(WorkerAction::CloseEventStream);
                actions.push(WorkerAction::SendLostConnection(why));
                actions.push(WorkerAction::HandleNextMessage);
                self.connected = false;
            },
            WorkerEvent::Slept => {
                actions.push(WorkerAction::Probe);
                self.phase = Phase::Probing;
            },
        }
        assert(action_models(actions@) =~= old(self).actions(event));
        actions
    }

    /// Tells whether the event is one that the worker waits for.
    pub fn is_expected(&self, event: &WorkerEvent) -> (expected: bool)
        ensures
            expected == self.expects(*event),
    {
        match event {
            WorkerEvent::ServerReachable | WorkerEvent::ServerUnreachable(_) => {
                matches!(self.phase, Phase::Probing)
            },
            WorkerEvent::MessagesDrained { .. } => matches!(self.phase, Phase::Draining(_)),
            WorkerEvent::EventReceived | WorkerEvent::NoEvent | WorkerEvent::EventStreamClosed => {
                matches!(self.phase, Phase::PollingEvents)
            },
            WorkerEvent::NoMessage | WorkerEvent::MessageHandled { .. }
            | WorkerEvent::MessageFailed(_) => matches!(self.phase, Phase::HandlingMessages),
            WorkerEvent::Slept => matches!(self.phase, Phase::Sleeping),
        }
    }
}

/// What the user interface knows of the connection after some actions.
pub open spec fn announced(before: bool, actions: Seq<ActionModel>) -> bool
    decreases actions.len(),
{
    if actions.len() == 0 {
        before
    } else {
        match actions.last() {
            ActionModel::SendConnected => true,
            ActionModel::SendLostConnection(_) => false,
            _ => announced(before, actions.drop_last()),
        }
    }
}

/// Whether the event stream is open after some actions.
pub open spec fn stream_open(before: bool, actions: Seq<ActionModel>) -> bool
    decreases actions.len(),
{
    if actions.len() == 0 {
        before
    } else {
        match actions.last() {
            ActionModel::OpenEventStream => true,
            ActionModel::CloseEventStream => false,
            _ => stream_open(before, actions.drop_last()),
        }
    }
}

/// What the user interface knows of the connection, and whether the event stream is open, is in
/// step with the connection, except between the loss of the connection and the message about it.
/// Events are only polled while there is a connection.
pub open spec fn is_in_step(worker: HttpWorker, announced: bool, stream_open: bool) -> bool {
    match worker.phase {
        Phase::Draining(_) => !worker.connected && !stream_open,
        Phase::Stopped => !stream_open,
        Phase::PollingEvents => worker.connected && announced && stream_open,
        _ => worker.connected == announced && worker.connected == stream_open,
    }
}

/// An action is in order, given what the user interface knows of the connection and whether the
/// event stream is open: a connection is announced, and the event stream opened, only when there
/// is none; events are polled and forwarded only while a connection is announced and the event
/// stream is open.
pub open spec fn is_in_order(action: ActionModel, announced: bool, stream_open: bool) -> bool {
    match action {
        ActionModel::OpenEventStream => !announced && !stream_open,
        ActionModel::SendConnected => !announced && stream_open,
        ActionModel::PollEvent | ActionModel::ForwardEvent => announced && stream_open,
        _ => true,
    }
}

/// Each of the actions is in order.
pub open spec fn are_in_order(
    actions: Seq<ActionModel>,
    was_announced: bool,
    was_open: bool,
) -> bool {
    forall|i: int| #![trigger actions[i]]
        0 <= i < actions.len() ==> is_in_order(
            actions[i],
            announced(was_announced, actions.take(i)),
            stream_open(was_open, actions.take(i)),
        )
}

/// What the user interface is told, and whether the event stream is open, keeps in step with the
/// connection, and what is done is in order; when the worker stops, the event stream is closed.
pub proof fn law_worker_keeps_in_step(
    worker: HttpWorker,
    was_announced: bool,
    was_open: bool,
    event: WorkerEvent,
)
    requires
        worker.expects(event),
        is_in_step(worker, was_announced, was_open),
    ensures
        is_in_step(
            worker.after(event),
            announced(was_announced, worker.actions(event)),
            stream_open(was_open, worker.actions(event)),
        ),
        are_in_order(worker.actions(event), was_announced, was_open),
{
    reveal_with_fuel(announced, 4);
    reveal_with_fuel(stream_open, 4);
    let actions = worker.actions(event);
    assert(actions.take(0) =~= Seq::empty());
    if actions.len() >= 1 {
        assert(actions.take(1).drop_last() =~= actions.take(0));
        assert(actions.take(1).last() == actions[0]);
    }
    if actions.len() >= 2 {
        assert(actions.take(2).drop_last() =~= actions.take(1));
        assert(actions.take(2).last() == actions[1]);
    }
    assert(actions.len() <= 3);
}

/// The worker after a number of events, one after the other.
pub open spec fn after_events(worker: HttpWorker, events: Seq<WorkerEvent>) -> HttpWorker
    decreases events.len(),
{
    if events.len() == 0 {
        worker
    } else {
        after_events(worker, events.drop_last()).after(events.last())
    }
}

/// Each of the events is one that the worker waits for when it comes.
pub open spec fn expects_all(worker: HttpWorker, events: Seq<WorkerEvent>) -> bool
    decreases events.len(),
{
    events.len() == 0 || (expects_all(worker, events.drop_last()) && after_events(
        worker,
        events.drop_last(),
    ).expects(events.last()))
}

/// All that the worker does for a number of events.
pub open spec fn all_actions(worker: HttpWorker, events: Seq<WorkerEvent>) -> Seq<ActionModel>
    decreases events.len(),
{
    if events.len() == 0 {
        Seq::empty()
    } else {
        all_actions(worker, events.drop_last()) + after_events(worker, events.drop_last()).actions(
            events.last(),
        )
    }
}

/// Whatever happens from the beginning on: a connection is announced only when none is, and events
/// are polled and forwarded only while one is and the event stream is open.
pub proof fn law_worker_does_things_in_order(events: Seq<WorkerEvent>)
    requires
        expects_all(HttpWorker { connected: false, phase: Phase::Probing }, events),
    ensures
        ({
            let start = HttpWorker { connected: false, phase: Phase::Probing };
            let actions = all_actions(start, events);
            &&& are_in_order(actions, false, false)
            &&& is_in_step(
                after_events(start, events),
                announced(false, actions),
                stream_open(false, actions),
            )
        }),
    decreases events.len(),
{
    let start = HttpWorker { connected: false, phase: Phase::Probing };
    if events.len() > 0 {
        let before = events.drop_last();
        law_worker_does_things_in_order(before);
        let worker = after_events(start, before);
        let done = all_actions(start, before);
        let more = worker.actions(events.last());
        let was_announced = announced(false, done);
        let was_open = stream_open(false, done);
        law_worker_keeps_in_step(worker, was_announced, was_open, events.last());
        lemma_more_actions(done, more);
        let all = done + more;
        assert forall|i: int| #![trigger all[i]] 0 <= i < all.len() implies is_in_order(
            all[i],
            announced(false, all.take(i)),
            stream_open(false, all.take(i)),
        ) by {
            if i < done.len() {
                assert(all.take(i) =~= done.take(i));
                assert(all[i] == done[i]);
            } else {
                let k = i - done.len();
                assert(all.take(i) =~= done + more.take(k));
                lemma_more_actions(done, more.take(k));
                assert(all[i] == more[k]);
            }
        }
    }
}

/// What comes of actions can be worked out in two parts.
proof fn lemma_more_actions(done: Seq<ActionModel>, more: Seq<ActionModel>)
    ensures
        announced(false, done + more) == announced(announced(false, done), more),
        stream_open(false, done + more) == stream_open(stream_open(false, done), more),
    decreases more.len(),
{
    if more.len() == 0 {
        assert(done + more =~= done);
    } else {
        assert((done + more).drop_last() =~= done + more.drop_last());
        lemma_more_actions(done, more.drop_last());
    }
}

/// While the worker is not stopped, the last thing that it does leads to an event that it waits
/// for.
pub proof fn law_worker_goes_on(worker: HttpWorker, event: WorkerEvent)
    requires
        worker.expects(event),
    ensures
        worker.actions(event).len() > 0,
        match worker.actions(event).last() {
            ActionModel::Probe => worker.after(event).phase is Probing,
            ActionModel::DrainMessages => worker.after(event).phase is Draining,
            ActionModel::PollEvent => worker.after(event).phase is PollingEvents,
            ActionModel::HandleNextMessage => worker.after(event).phase is HandlingMessages,
            ActionModel::Sleep { .. } => worker.after(event).phase is Sleeping,
            ActionModel::Stop => worker.after(event).phase is Stopped,
            _ => false,
        },
{
}

/// Why the server cannot be reached is passed on as it is: at once where a request has failed, and
/// where the server could not be found once the waiting messages are out of the way. In the first
/// case the next message follows, in the second a pause of a tenth of a second.
pub proof fn law_reasons_are_passed_on(worker: HttpWorker, why: String)
    ensures
        worker.phase is HandlingMessages ==> ({
            let event = WorkerEvent::MessageFailed(why);
            &&& worker.expects(event)
            &&& worker.actions(event) == seq![
                ActionModel::CloseEventStream,
                ActionModel::SendLostConnection(why@),
                ActionModel::HandleNextMessage,
            ]
            &&& !worker.after(event).connected
        }),
        worker.phase is Probing ==> ({
            let event = WorkerEvent::ServerUnreachable(why);
            let later = worker.after(event);
            let drained = WorkerEvent::MessagesDrained { quit: false };
            &&& worker.expects(event)
            &&& worker.actions(event) == seq![
                ActionModel::CloseEventStream,
                ActionModel::DrainMessages,
            ]
            &&& !later.connected
            &&& later.expects(drained)
            &&& later.actions(drained) == seq![
                ActionModel::SendLostConnection(why@),
                ActionModel::Sleep { millis: 100 },
            ]
        }),
{
}

/// The worker stops just if a message asks for it, whether the server can be reached or not.
pub proof fn law_worker_stops_when_asked(worker: HttpWorker, event: WorkerEvent)
    requires
        worker.expects(event),
    ensures
        worker.after(event).phase is Stopped <==> event == (WorkerEvent::MessageHandled {
            quit: true,
        }) || event == (WorkerEvent::MessagesDrained { quit: true }),
        worker.actions(event).last() is Stop <==> worker.after(event).phase is Stopped,
        worker.after(event).phase is Stopped ==> worker.actions(event) == seq![
            ActionModel::CloseEventStream,
            ActionModel::Stop,
        ],
{
}

/// A round of work: the server is probed, its events are taken until there are none, then the
/// messages of the user interface, then there is a pause of a hundredth of a second, and the server
/// is probed again. A server that is found is announced only if it was not connected.
pub proof fn law_work_goes_round(connected: bool)
    ensures
        ({
            let worker = HttpWorker { connected, phase: Phase::Probing };
            let polling = worker.after(WorkerEvent::ServerReachable);
            let working = polling.after(WorkerEvent::NoEvent);
            let sleeping = working.after(WorkerEvent::NoMessage);
            &&& polling == (HttpWorker { connected: true, phase: Phase::PollingEvents })
            &&& worker.actions(WorkerEvent::ServerReachable) == if connected {
                seq![ActionModel::PollEvent]
            } else {
                seq![
                    ActionModel::OpenEventStream,
                    ActionModel::SendConnected,
                    ActionModel::PollEvent,
                ]
            }
            &&& polling.after(WorkerEvent::EventReceived) == polling
            &&& polling.actions(WorkerEvent::EventReceived) == seq![
                ActionModel::ForwardEvent,
                ActionModel::PollEvent,
            ]
            &&& working == (HttpWorker { connected: true, phase: Phase::HandlingMessages })
            &&& polling.after(WorkerEvent::EventStreamClosed) == working
            &&& polling.actions(WorkerEvent::NoEvent) == seq![ActionModel::HandleNextMessage]
            &&& polling.actions(WorkerEvent::EventStreamClosed) == seq![
                ActionModel::HandleNextMessage,
            ]
            &&& working.after(WorkerEvent::MessageHandled { quit: false }) == working
            &&& working.actions(WorkerEvent::MessageHandled { quit: false }) == seq![
                ActionModel::HandleNextMessage,
            ]
            &&& working.actions(WorkerEvent::NoMessage) == seq![ActionModel::Sleep { millis: 10 }]
            &&& sleeping == (HttpWorker { connected: true, phase: Phase::Sleeping })
            &&& sleeping.after(WorkerEvent::Slept) == (HttpWorker {
                connected: true,
                phase: Phase::Probing,
            })
            &&& sleeping.actions(WorkerEvent::Slept) == seq![ActionModel::Probe]
        }),
{
}

/// Whatever comes of what the worker does, it is ready to hear of it, and of nothing else. Once it
/// has stopped it hears of nothing.
pub proof fn law_every_outcome_is_expected(worker: HttpWorker, event: WorkerEvent)
    ensures
        worker.expects(event) <==> match worker.phase {
            Phase::Probing => event is ServerReachable || event is ServerUnreachable,
            Phase::Draining(_) => event is MessagesDrained,
            Phase::PollingEvents => event is EventReceived || event is NoEvent
                || event is EventStreamClosed,
            Phase::HandlingMessages => event is NoMessage || event is MessageHandled
                || event is MessageFailed,
            Phase::Sleeping => event is Slept,
            Phase::Stopped => false,
        },
{
}

/// There is one model for each action, in their order. It tells the actions apart, and has the same
/// reason and the same pause.
pub proof fn law_models_are_those_of_the_actions(actions: Seq<WorkerAction>, i: int)
    requires
        0 <= i < actions.len(),
    ensures
        action_models(actions).len() == actions.len(),
        ({
            let (action, model) = (actions[i], action_models(actions)[i]);
            &&& model is Probe <==> action is Probe
            &&& model is OpenEventStream <==> action is OpenEventStream
            &&& model is CloseEventStream <==> action is CloseEventStream
            &&& model is SendConnected <==> action is SendConnected
            &&& model is DrainMessages <==> action is DrainMessages
            &&& model is PollEvent <==> action is PollEvent
            &&& model is ForwardEvent <==> action is ForwardEvent
            &&& model is HandleNextMessage <==> action is HandleNextMessage
            &&& model is Stop <==> action is Stop
            &&& model is SendLostConnection <==> action is SendLostConnection
            &&& action is SendLostConnection ==> model->SendLostConnection_0
                == action->SendLostConnection_0@
            &&& model is Sleep <==> action is Sleep
            &&& action is Sleep ==> model->millis == action->millis
        }),
{
}

} // verus!
