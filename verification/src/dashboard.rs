//! The requests that the dashboard makes, and how it keeps up the connection to the server.

use url::Url;
use vstd::prelude::*;

verus! {

pub const BASE_URL: &'static str = "http://localhost:8082";

pub const BASE_WS_URL: &'static str = "ws://localhost:8082";

/// What parsing a text as a URL gives: the URL in its normal form, or why it is none.
pub uninterp spec fn parsed_url(text: Seq<char>) -> Result<Seq<char>, Seq<char>>;

/// `Url::parse`: the URL in its normal form, as `String::from` gives it, or the text of the error.
#[verifier::external_body]
fn parse_url(text: &str) -> (url: Result<String, String>)
    ensures
        match url {
            Ok(url) => parsed_url(text@) == Ok::<Seq<char>, Seq<char>>(url@),
            Err(error) => parsed_url(text@) == Err::<Seq<char>, Seq<char>>(error@),
        },
{
    match Url::parse(text) {
        Ok(url) => Ok(String::from(url)),
        Err(error) => Err(format!("{}", error)),
    }
}

/// One text after another.
fn joined(first: &str, second: &str) -> (text: String)
    ensures
        text@ == first@ + second@,
{
    let mut text = first.to_owned();
    text.append(second);
    text
}

/// The URL of the events of the server.
pub fn events_url() -> (url: Result<String, String>)
    ensures
        match url {
            Ok(url) => parsed_url(BASE_WS_URL@ + "/api/events"@) == Ok::<Seq<char>, Seq<char>>(
                url@,
            ),
            Err(error) => parsed_url(BASE_WS_URL@ + "/api/events"@) == Err::<
                Seq<char>,
                Seq<char>,
            >(error@),
        },
{
    parse_url(joined(BASE_WS_URL, "/api/events").as_str())
}

/// What the user wants with the drivers.
pub enum DriverResponse {
    RegisterAlvr,
    Unregister(String),
}

/// What the user wants with the firewall rules.
pub enum FirewallRulesResponse {
    Add,
    Remove,
}

/// What the user wants.
pub enum DashboardResponse {
    /// A session to be stored, as JSON text.
    SessionUpdated(String),
    RestartSteamVR,
    Driver(DriverResponse),
    Firewall(FirewallRulesResponse),
    /// Anything that the server is not asked for.
    Other,
}

/// A message from the user interface.
pub enum GuiMsg {
    Quit,
    GetSession,
    GetDrivers,
    Dashboard(DashboardResponse),
}

/// What becomes of the answer to a request.
#[derive(Clone, Copy, Debug, PartialEq, Eq, Structural)]
pub enum AnswerUse {
    /// It is not looked at.
    Ignored,
    /// It is handed to the user interface if it is a session.
    Session,
    /// It is handed to the user interface if it is a list of drivers.
    Drivers,
}

/// The method of a request. The server is only ever asked with GET.
#[derive(Clone, Copy, Debug, PartialEq, Eq, Structural)]
pub enum Method {
    Get,
}

/// A request to the server.
#[derive(Debug)]
pub struct Request {
    pub method: Method,
    pub url: String,
    pub body: Option<String>,
    pub answer: AnswerUse,
}

/// A request to the server.
pub struct RequestModel {
    pub method: Method,
    pub url: Seq<char>,
    pub body: Option<Seq<char>>,
    pub answer: AnswerUse,
}

impl View for Request {
    type V = RequestModel;

    open spec fn view(&self) -> RequestModel {
        RequestModel {
            method: self.method,
            url: self.url@,
            body: match self.body {
                Some(body) => Some(body@),
                None => None,
            },
            answer: self.answer,
        }
    }
}

/// What a message calls for: requests, one after the other until one fails, and whether to quit.
/// What each of them leads to is said by `after_request`.
#[derive(Debug)]
pub struct MsgPlan {
    pub requests: Vec<Request>,
    pub quit: bool,
}

/// The URL of a resource of the server.
pub open spec fn resource(path: Seq<char>) -> Seq<char> {
    BASE_URL@ + path
}

/// A request whose answer is not looked at.
pub open spec fn order(path: Seq<char>) -> RequestModel {
    RequestModel {
        method: Method::Get,
        url: resource(path),
        body: None,
        answer: AnswerUse::Ignored,
    }
}

/// A request for the list of drivers.
pub open spec fn driver_list() -> RequestModel {
    RequestModel {
        method: Method::Get,
        url: resource("/api/driver/list"@),
        body: None,
        answer: AnswerUse::Drivers,
    }
}

/// The requests that a message calls for.
pub open spec fn requests_for(msg: GuiMsg) -> Seq<RequestModel> {
    match msg {
        GuiMsg::Quit => seq![],
        GuiMsg::GetSession => seq![
            RequestModel {
                method: Method::Get,
                url: resource("/api/session/load"@),
                body: None,
                answer: AnswerUse::Session,
            },
        ],
        GuiMsg::GetDrivers => seq![driver_list()],
        GuiMsg::Dashboard(response) => match response {
            DashboardResponse::SessionUpdated(session) => seq![
                RequestModel {
                    method: Method::Get,
                    url: resource("/api/session/store"@),
                    body: Some("{\"session\": "@ + session@ + "}"@),
                    answer: AnswerUse::Ignored,
                },
            ],
            DashboardResponse::RestartSteamVR => seq![order("/restart-steamvr"@)],
            DashboardResponse::Driver(DriverResponse::RegisterAlvr) => seq![
                order("/api/driver/register"@),
                driver_list(),
            ],
            DashboardResponse::Driver(DriverResponse::Unregister(path)) => seq![
                RequestModel {
                    method: Method::Get,
                    url: resource("/api/driver/unregister"@),
                    body: Some("\""@ + path@ + "\""@),
                    answer: AnswerUse::Ignored,
                },
                driver_list(),
            ],
            DashboardResponse::Firewall(FirewallRulesResponse::Add) => seq![
                order("/api/firewall-rules/add"@),
            ],
            DashboardResponse::Firewall(FirewallRulesResponse::Remove) => seq![
                order("/api/firewall-rules/remove"@),
            ],
            DashboardResponse::Other => seq![],
        },
    }
}

/// The models of requests.
pub open spec fn request_models(requests: Seq<Request>) -> Seq<RequestModel> {
    requests.map_values(|request: Request| request@)
}

/// Adds a request.
fn add_request(requests: &mut Vec<Request>, path: &str, body: Option<String>, answer: AnswerUse)
    ensures
        request_models(final(requests)@) == request_models(old(requests)@).push(
            RequestModel {
                method: Method::Get,
                url: resource(path@),
                body: match body {
                    Some(body) => Some(body@),
                    None => None,
                },
                answer,
            },
        ),
{
    let request = Request { method: Method::Get, url: joined(BASE_URL, path), body, answer };
    let ghost before = requests@;
    let ghost added = request@;
    requests.push(request);
    assert(request_models(requests@) =~= request_models(before).push(added));
}

/// One text between two others.
fn enclosed(first: &str, text: &str, last: &str) -> (whole: String)
    ensures
        whole@ == first@ + text@ + last@,
{
    let mut whole = joined(first, text);
    whole.append(last);
    whole
}

/// Says what a message from the user interface calls for.
pub fn handle_msg(msg: &GuiMsg) -> (plan: MsgPlan)
    ensures
        request_models(plan.requests@) == requests_for(*msg),
        plan.quit == (msg is Quit),
{
    let mut requests: Vec<Request> = Vec::new();
    assert(request_models(requests@) =~= seq![]);
    let quit: bool = match msg {
        GuiMsg::Quit => true,
        GuiMsg::GetSession => {
            add_request(&mut requests, "/api/session/load", None, AnswerUse::Session);
            false
        },
        GuiMsg::GetDrivers => {
            add_request(&mut requests, "/api/driver/list", None, AnswerUse::Drivers);
            false
        },
        GuiMsg::Dashboard(response) => {
            match response {
                DashboardResponse::SessionUpdated(session) => {
                    let body = enclosed("{\"session\": ", session.as_str(), "}");
                    add_request(
                        &mut requests,
                        "/api/session/store",
                        Some(body),
                        AnswerUse::Ignored,
                    );
                },
                DashboardResponse::RestartSteamVR => {
                    add_request(&mut requests, "/restart-steamvr", None, AnswerUse::Ignored);
                },
                DashboardResponse::Driver(driver) => {
                    match driver {
                        DriverResponse::RegisterAlvr => {
                            add_request(
                                &mut requests,
                                "/api/driver/register",
                                None,
                                AnswerUse::Ignored,
                            );
                        },
                        DriverResponse::Unregister(path) => {
                            let body = enclosed("\"", path.as_str(), "\"");
                            add_request(
                                &mut requests,
                                "/api/driver/unregister",
                                Some(body),
                                AnswerUse::Ignored,
                            );
                        },
                    }
                    add_request(&mut requests, "/api/driver/list", None, AnswerUse::Drivers);
                },
                DashboardResponse::Firewall(FirewallRulesResponse::Add) => {
                    add_request(
                        &mut requests,
                        "/api/firewall-rules/add",
                        None,
                        AnswerUse::Ignored,
                    );
                },
                DashboardResponse::Firewall(FirewallRulesResponse::Remove) => {
                    add_request(
                        &mut requests,
                        "/api/firewall-rules/remove",
                        None,
                        AnswerUse::Ignored,
                    );
                },
                DashboardResponse::Other => {},
            }
            false
        },
    };
    assert(request_models(requests@) =~= requests_for(*msg));
    MsgPlan { requests, quit }
}

/// What a request has come to.
#[derive(Debug)]
pub enum RequestOutcome {
    /// It could not be sent, with the reason.
    Failed(String),
    /// It was answered, but the answer is not what it should be.
    Unreadable,
    /// It was answered, and the answer can be used.
    Answered,
}

/// What a request has come to, with its text.
pub enum OutcomeModel {
    Failed(Seq<char>),
    Unreadable,
    Answered,
}

impl View for RequestOutcome {
    type V = OutcomeModel;

    open spec fn view(&self) -> OutcomeModel {
        match self {
            RequestOutcome::Failed(why) => OutcomeModel::Failed(why@),
            RequestOutcome::Unreadable => OutcomeModel::Unreadable,
            RequestOutcome::Answered => OutcomeModel::Answered,
        }
    }
}

/// What is done next for a message.
#[derive(Debug)]
pub enum MsgStep {
    /// The request at that place of the plan is made.
    Make { index: usize },
    /// The work ends with an error: the server cannot be reached, for that reason.
    Fail(String),
    /// The work is done.
    Finish { quit: bool },
}

/// What is done next for a message, with its text.
pub enum StepModel {
    Make { index: nat },
    Fail(Seq<char>),
    Finish { quit: bool },
}

impl View for MsgStep {
    type V = StepModel;

    open spec fn view(&self) -> StepModel {
        match self {
            MsgStep::Make { index } => StepModel::Make { index: *index as nat },
            MsgStep::Fail(why) => StepModel::Fail(why@),
            MsgStep::Finish { quit } => StepModel::Finish { quit: *quit },
        }
    }
}

/// The request at that place is made, and the work is done if there is none.
pub open spec fn step_at(index: nat, count: nat, quit: bool) -> StepModel {
    if index < count {
        StepModel::Make { index }
    } else {
        StepModel::Finish { quit }
    }
}

/// What is done after a request. One that could not be sent ends the work with an error. An answer
/// that cannot be read is none: errors are reserved for a server that cannot be reached.
pub open spec fn step_after(made: nat, count: nat, quit: bool, outcome: OutcomeModel) -> StepModel {
    match outcome {
        OutcomeModel::Failed(why) => StepModel::Fail(why),
        _ => step_at(made + 1, count, quit),
    }
}

/// The answer is handed to the user interface. Whether the user interface still takes it changes
/// nothing.
pub open spec fn is_handed_on(answer: AnswerUse, outcome: OutcomeModel) -> bool {
    outcome is Answered && answer != AnswerUse::Ignored
}

/// Says what is done first for a message.
pub fn first_step(plan: &MsgPlan) -> (step: MsgStep)
    ensures
        step@ == step_at(0, plan.requests@.len(), plan.quit),
{
    step_from(plan, 0)
}

/// Says whether the answer to the request at the place `made` is handed to the user interface, and
/// what is done next.
pub fn after_request(plan: &MsgPlan, made: usize, outcome: RequestOutcome) -> (step: (
    bool,
    MsgStep,
))
    requires
        made < plan.requests@.len(),
    ensures
        step.0 == is_handed_on(plan.requests@[made as int].answer, outcome@),
        step.1@ == step_after(made as nat, plan.requests@.len(), plan.quit, outcome@),
{
    let count: usize = plan.requests.len();
    assert(made < count);
    match outcome {
        RequestOutcome::Failed(why) => (false, MsgStep::Fail(why)),
        RequestOutcome::Unreadable => (false, step_from(plan, made + 1)),
        RequestOutcome::Answered => {
            let hand_on: bool = match plan.requests[made].answer {
                AnswerUse::Ignored => false,
                _ => true,
            };
            (hand_on, step_from(plan, made + 1))
        },
    }
}

/// The request at that place is made, and the work is done if there is none.
fn step_from(plan: &MsgPlan, index: usize) -> (step: MsgStep)
    ensures
        step@ == step_at(index as nat, plan.requests@.len(), plan.quit),
{
    if index < plan.requests.len() {
        MsgStep::Make { index }
    } else {
        MsgStep::Finish { quit: plan.quit }
    }
}

} // verus!
