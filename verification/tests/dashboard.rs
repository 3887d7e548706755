use alvr_core::dashboard::{
    after_request, events_url, first_step, handle_msg, AnswerUse, DashboardResponse,
    DriverResponse, FirewallRulesResponse, GuiMsg, Method, MsgStep, RequestOutcome, BASE_URL,
};
use alvr_core::worker::{HttpWorker, Phase, WorkerAction, WorkerEvent};

fn requests(msg: GuiMsg) -> Vec<(String, Option<String>, AnswerUse)> {
    let plan = handle_msg(&msg);
    assert!(!plan.quit);
    plan.requests
        .into_iter()
        .map(|request| {
            assert_eq!(request.method, Method::Get);
            (request.url, request.body, request.answer)
        })
        .collect()
}

/// The places of the requests that are made and of those whose answers are handed on, and the
/// result.
fn run(
    msg: GuiMsg,
    outcomes: Vec<RequestOutcome>,
) -> (Vec<usize>, Vec<usize>, Result<bool, String>) {
    let plan = handle_msg(&msg);
    let (mut made, mut handed_on) = (vec![], vec![]);
    let mut outcomes = outcomes.into_iter();
    let mut step = first_step(&plan);
    loop {
        match step {
            MsgStep::Make { index } => {
                made.push(index);
                let (hand_on, next) = after_request(&plan, index, outcomes.next().unwrap());
                if hand_on {
                    handed_on.push(index);
                }
                step = next;
            }
            MsgStep::Fail(why) => return (made, handed_on, Err(why)),
            MsgStep::Finish { quit } => return (made, handed_on, Ok(quit)),
        }
    }
}

fn failed() -> RequestOutcome {
    RequestOutcome::Failed("offline".into())
}

#[test]
fn only_a_failed_request_is_an_error() {
    let offline = || Err("offline".to_owned());
    assert_eq!(run(GuiMsg::Quit, vec![]), (vec![], vec![], Ok(true)));
    for msg in [|| GuiMsg::GetSession, || GuiMsg::GetDrivers] {
        assert_eq!(run(msg(), vec![RequestOutcome::Answered]), (vec![0], vec![0], Ok(false)));
        assert_eq!(run(msg(), vec![RequestOutcome::Unreadable]), (vec![0], vec![], Ok(false)));
        assert_eq!(run(msg(), vec![failed()]), (vec![0], vec![], offline()));
    }
    let restart = || GuiMsg::Dashboard(DashboardResponse::RestartSteamVR);
    assert_eq!(run(restart(), vec![RequestOutcome::Answered]), (vec![0], vec![], Ok(false)));
    assert_eq!(run(restart(), vec![failed()]), (vec![0], vec![], offline()));
    let other = GuiMsg::Dashboard(DashboardResponse::Other);
    assert_eq!(run(other, vec![]), (vec![], vec![], Ok(false)));
}

#[test]
fn nothing_is_asked_after_a_failure() {
    for path in ["", "/a b"] {
        let msg = || {
            let driver = if path.is_empty() {
                DriverResponse::RegisterAlvr
            } else {
                DriverResponse::Unregister(path.into())
            };
            GuiMsg::Dashboard(DashboardResponse::Driver(driver))
        };
        assert_eq!(run(msg(), vec![failed()]), (vec![0], vec![], Err("offline".into())));
        assert_eq!(
            run(msg(), vec![RequestOutcome::Answered, failed()]),
            (vec![0, 1], vec![], Err("offline".into()))
        );
        assert_eq!(
            run(msg(), vec![RequestOutcome::Answered, RequestOutcome::Answered]),
            (vec![0, 1], vec![1], Ok(false))
        );
        assert_eq!(
            run(msg(), vec![RequestOutcome::Answered, RequestOutcome::Unreadable]),
            (vec![0, 1], vec![], Ok(false))
        );
    }
}

fn url(path: &str) -> String {
    format!("{BASE_URL}{path}")
}

#[test]
fn quitting_asks_for_nothing() {
    let plan = handle_msg(&GuiMsg::Quit);
    assert!(plan.quit);
    assert!(plan.requests.is_empty());
}

#[test]
fn session_is_loaded_and_stored() {
    assert_eq!(
        requests(GuiMsg::GetSession),
        vec![("http://localhost:8082/api/session/load".into(), None, AnswerUse::Session)]
    );
    assert_eq!(
        requests(GuiMsg::Dashboard(DashboardResponse::SessionUpdated("{\"a\":1}".into()))),
        vec![(
            url("/api/session/store"),
            Some("{\"session\": {\"a\":1}}".into()),
            AnswerUse::Ignored
        )]
    );
}

#[test]
fn drivers_are_listed_after_a_change() {
    let list = (url("/api/driver/list"), None, AnswerUse::Drivers);
    assert_eq!(requests(GuiMsg::GetDrivers), vec![list.clone()]);
    assert_eq!(
        requests(GuiMsg::Dashboard(DashboardResponse::Driver(DriverResponse::RegisterAlvr))),
        vec![(url("/api/driver/register"), None, AnswerUse::Ignored), list.clone()]
    );
    assert_eq!(
        requests(GuiMsg::Dashboard(DashboardResponse::Driver(DriverResponse::Unregister(
            "/a b".into()
        )))),
        vec![(url("/api/driver/unregister"), Some("\"/a b\"".into()), AnswerUse::Ignored), list]
    );
}

#[test]
fn other_orders_are_passed_on() {
    let order = |path: &str| vec![(url(path), None, AnswerUse::Ignored)];
    assert_eq!(
        requests(GuiMsg::Dashboard(DashboardResponse::RestartSteamVR)),
        order("/restart-steamvr")
    );
    assert_eq!(
        requests(GuiMsg::Dashboard(DashboardResponse::Firewall(FirewallRulesResponse::Add))),
        order("/api/firewall-rules/add")
    );
    assert_eq!(
        requests(GuiMsg::Dashboard(DashboardResponse::Firewall(FirewallRulesResponse::Remove))),
        order("/api/firewall-rules/remove")
    );
    assert!(requests(GuiMsg::Dashboard(DashboardResponse::Other)).is_empty());
}

#[test]
fn events_have_a_url() {
    assert_eq!(events_url().unwrap(), "ws://localhost:8082/api/events");
    assert_eq!(
        events_url().unwrap(),
        String::from(url::Url::parse("ws://localhost:8082/api/events").unwrap())
    );
}

fn names(actions: &[WorkerAction]) -> Vec<String> {
    actions
        .iter()
        .map(|action| match action {
            WorkerAction::Probe => "probe".into(),
            WorkerAction::OpenEventStream => "open".into(),
            WorkerAction::CloseEventStream => "close".into(),
            WorkerAction::SendConnected => "connected".into(),
            WorkerAction::SendLostConnection(why) => format!("lost {why}"),
            WorkerAction::DrainMessages => "drain".into(),
            WorkerAction::PollEvent => "poll".into(),
            WorkerAction::ForwardEvent => "forward".into(),
            WorkerAction::HandleNextMessage => "handle".into(),
            WorkerAction::Sleep { millis } => format!("sleep {millis}"),
            WorkerAction::Stop => "stop".into(),
        })
        .collect()
}

fn step(worker: &mut HttpWorker, event: WorkerEvent) -> Vec<String> {
    assert!(worker.is_expected(&event));
    names(&worker.handle(event))
}

#[test]
fn server_is_found_once() {
    let mut worker = HttpWorker::new();
    assert!(!worker.connected);
    assert_eq!(step(&mut worker, WorkerEvent::ServerReachable), ["open", "connected", "poll"]);
    assert_eq!(step(&mut worker, WorkerEvent::EventReceived), ["forward", "poll"]);
    assert_eq!(step(&mut worker, WorkerEvent::NoEvent), ["handle"]);
    assert_eq!(step(&mut worker, WorkerEvent::MessageHandled { quit: false }), ["handle"]);
    assert_eq!(step(&mut worker, WorkerEvent::NoMessage), ["sleep 10"]);
    assert_eq!(step(&mut worker, WorkerEvent::Slept), ["probe"]);
    assert_eq!(step(&mut worker, WorkerEvent::ServerReachable), ["poll"]);
    assert_eq!(step(&mut worker, WorkerEvent::EventStreamClosed), ["handle"]);
    assert_eq!(step(&mut worker, WorkerEvent::MessageHandled { quit: true }), ["close", "stop"]);
    assert!(matches!(worker.phase, Phase::Stopped));
    assert!(!worker.is_expected(&WorkerEvent::Slept));
}

#[test]
fn events_are_forwarded_only_while_connected() {
    let mut worker = HttpWorker::new();
    assert!(!worker.is_expected(&WorkerEvent::EventReceived));
    for _ in 0..2 {
        let actions = step(&mut worker, WorkerEvent::ServerReachable);
        assert_eq!(actions, ["open", "connected", "poll"]);
        assert_eq!(step(&mut worker, WorkerEvent::EventReceived), ["forward", "poll"]);
        step(&mut worker, WorkerEvent::NoEvent);
        assert!(!worker.is_expected(&WorkerEvent::EventReceived));
        step(&mut worker, WorkerEvent::MessageFailed("x".into()));
        assert!(!worker.is_expected(&WorkerEvent::EventReceived));
        step(&mut worker, WorkerEvent::NoMessage);
        step(&mut worker, WorkerEvent::Slept);
    }
}

#[test]
fn lost_server_is_looked_for_again() {
    let mut worker = HttpWorker::new();
    step(&mut worker, WorkerEvent::ServerReachable);
    step(&mut worker, WorkerEvent::NoEvent);
    assert_eq!(
        step(&mut worker, WorkerEvent::MessageFailed("x".into())),
        ["close", "lost x", "handle"]
    );
    assert!(!worker.connected);
    step(&mut worker, WorkerEvent::NoMessage);
    step(&mut worker, WorkerEvent::Slept);
    assert_eq!(
        step(&mut worker, WorkerEvent::ServerUnreachable("y".into())),
        ["close", "drain"]
    );
    assert_eq!(
        step(&mut worker, WorkerEvent::MessagesDrained { quit: false }),
        ["lost y", "sleep 100"]
    );
    step(&mut worker, WorkerEvent::Slept);
    step(&mut worker, WorkerEvent::ServerUnreachable("z".into()));
    assert_eq!(
        step(&mut worker, WorkerEvent::MessagesDrained { quit: true }),
        ["close", "stop"]
    );
}
