//! The request state machine of the stdio protocol server.
//!
//! The server starts uninitialized; an `initialize` request initializes it,
//! and until then every other request is refused with an "invalid request"
//! error while the server keeps reading. Once initialized, `tools/list`
//! answers the tool catalog and `tools/call` is turned into a plan for one of
//! the two tools, which the caller carries out (credential, fetch, render)
//! and answers with one of the reply builders below.
use crate::auth::{text_eq, AccountError, Accounts, Cal2PromptError, CalendarServiceError};
use vstd::prelude::*;
use vstd::string::StringExecFns;

verus! {

/// The error codes of JSON-RPC responses, with the server's own codes.
#[derive(Debug, Clone, Copy, PartialEq, Eq, Structural)]
pub enum JsonRpcErrorCode {
    ParseError,
    InvalidRequest,
    MethodNotFound,
    InvalidParams,
    InternalError,
    /// The loopback port of the authorization flow is taken.
    PortInUse,
    AccountNotFound,
    CalendarIdNotFound,
}

impl JsonRpcErrorCode {
    pub open spec fn spec_code(&self) -> int {
        match self {
            JsonRpcErrorCode::ParseError => -32700,
            JsonRpcErrorCode::InvalidRequest => -32600,
            JsonRpcErrorCode::MethodNotFound => -32601,
            JsonRpcErrorCode::InvalidParams => -32602,
            JsonRpcErrorCode::InternalError => -32603,
            JsonRpcErrorCode::PortInUse => -32000,
            JsonRpcErrorCode::AccountNotFound => -32001,
            JsonRpcErrorCode::CalendarIdNotFound => -32002,
        }
    }

    /// The numeric code sent on the wire.
    pub fn code(&self) -> (r: i32)
        ensures
            r as int == self.spec_code(),
    {
        match self {
            JsonRpcErrorCode::ParseError => -32700,
            JsonRpcErrorCode::InvalidRequest => -32600,
            JsonRpcErrorCode::MethodNotFound => -32601,
            JsonRpcErrorCode::InvalidParams => -32602,
            JsonRpcErrorCode::InternalError => -32603,
            JsonRpcErrorCode::PortInUse => -32000,
            JsonRpcErrorCode::AccountNotFound => -32001,
            JsonRpcErrorCode::CalendarIdNotFound => -32002,
        }
    }
}

/// Failures of the transport that carries the messages.
#[derive(Debug, Clone)]
pub enum Error {
    Io(String),
    Serialization(String),
    Other(String),
}

/// The `params` of a `tools/call` request: the tool's name and the
/// arguments that have string values, in order.
#[derive(Debug)]
pub struct ToolCall {
    pub name: Option<String>,
    pub arguments: Vec<(String, String)>,
}

/// An incoming message.
#[derive(Debug)]
pub enum Message {
    Request { id: u64, method: String, params: Option<ToolCall> },
    Notification { method: String },
    Response { id: u64 },
}

/// What a response carries.
#[derive(Debug)]
pub enum ReplyBody {
    /// The server's capabilities, answering `initialize`.
    Initialize,
    /// The tool catalog, answering `tools/list`.
    ToolList,
    /// A tool's text result.
    Text(String),
    /// An error.
    Failure { code: JsonRpcErrorCode, message: String },
}

/// A response to the request `id`.
#[derive(Debug)]
pub struct Reply {
    pub id: u64,
    pub body: ReplyBody,
}

/// What the server does with a message.
#[derive(Debug)]
pub enum Plan {
    /// Send this response.
    Send(Reply),
    /// Obtain a credential for account `account`, fetch and render the days
    /// `[since, until]`, and answer `list_events_reply`.
    ListEvents { id: u64, account: usize, since: String, until: String },
    /// Obtain a credential for account `account`, create the event, and
    /// answer `insert_event_reply`.
    InsertEvent {
        id: u64,
        account: usize,
        summary: String,
        description: Option<String>,
        start: String,
        end: String,
    },
    /// Nothing is sent.
    Nothing,
}

pub ghost enum BodyView {
    Initialize,
    ToolList,
    Text(Seq<char>),
    Failure(JsonRpcErrorCode, Seq<char>),
}

pub ghost enum PlanView {
    Send(u64, BodyView),
    ListEvents(u64, int, Seq<char>, Seq<char>),
    InsertEvent(u64, int, Seq<char>, Option<Seq<char>>, Seq<char>, Seq<char>),
    Nothing,
}

impl View for ReplyBody {
    type V = BodyView;

    open spec fn view(&self) -> BodyView {
        match self {
            ReplyBody::Initialize => BodyView::Initialize,
            ReplyBody::ToolList => BodyView::ToolList,
            ReplyBody::Text(t) => BodyView::Text(t@),
            ReplyBody::Failure { code, message } => BodyView::Failure(*code, message@),
        }
    }
}

impl View for Plan {
    type V = PlanView;

    open spec fn view(&self) -> PlanView {
        match self {
            Plan::Send(r) => PlanView::Send(r.id, r.body@),
            Plan::ListEvents { id, account, since, until } => PlanView::ListEvents(*id, *account as int, since@, until@),
            Plan::InsertEvent { id, account, summary, description, start, end } => PlanView::InsertEvent(
                *id,
                *account as int,
                summary@,
                crate::timeline::opt_text(*description),
                start@,
                end@,
            ),
            Plan::Nothing => PlanView::Nothing,
        }
    }
}

pub open spec fn not_initialized_message() -> Seq<char> {
    "Server not initialized. Send 'initialize' request first."@
}

pub open spec fn port_in_use_message() -> Seq<char> {
    "Port 9004 is already in use. Another instance of cal2prompt or Windsurf may be running."@
}

/// The value of the first argument named `key`, looking from position `i` on.
pub open spec fn arg_from(args: Seq<(String, String)>, key: Seq<char>, i: int) -> Option<Seq<char>>
    decreases args.len() - i,
{
    if i < 0 || i >= args.len() {
        None
    } else if args[i].0@ == key {
        Some(args[i].1@)
    } else {
        arg_from(args, key, i + 1)
    }
}

pub open spec fn arg_value(args: Seq<(String, String)>, key: Seq<char>) -> Option<Seq<char>> {
    arg_from(args, key, 0)
}

/// The account a tool call names: its `account` argument, else its `profile` argument.
pub open spec fn requested_account(params: Option<ToolCall>) -> Option<Seq<char>> {
    match params {
        Some(p) => match arg_value(p.arguments@, "account"@) {
            Some(a) => Some(a),
            None => arg_value(p.arguments@, "profile"@),
        },
        None => None,
    }
}

pub open spec fn failure(id: u64, code: JsonRpcErrorCode, message: Seq<char>) -> PlanView {
    PlanView::Send(id, BodyView::Failure(code, message))
}

pub open spec fn missing(name: Seq<char>) -> Seq<char> {
    "Missing '"@ + name + "' parameter"@
}

/// The plan for a `tools/call` request `id` on an initialized server.
pub open spec fn tool_call_plan(accounts: Accounts, id: u64, params: Option<ToolCall>) -> PlanView {
    let requested = requested_account(params);
    let selected = match requested {
        None => if accounts.entries().len() > 0 { Some(0int) } else { None },
        Some(n) => accounts.position_spec(n),
    };
    match selected {
        None => match requested {
            Some(n) => failure(id, JsonRpcErrorCode::AccountNotFound, "Account '"@ + n + "' not found"@),
            None => failure(id, JsonRpcErrorCode::AccountNotFound, "No account is configured"@),
        },
        Some(account) => match params {
            None => failure(id, JsonRpcErrorCode::InvalidParams, missing("name"@)),
            Some(p) => {
                let args = p.arguments@;
                match p.name {
                    None => failure(id, JsonRpcErrorCode::InvalidParams, missing("name"@)),
                    Some(name) => if name@ == "list_calendar_events"@ {
                        match (arg_value(args, "since"@), arg_value(args, "until"@)) {
                            (Some(since), Some(until)) => PlanView::ListEvents(id, account, since, until),
                            (None, _) => failure(id, JsonRpcErrorCode::InvalidParams, missing("since"@)),
                            (_, None) => failure(id, JsonRpcErrorCode::InvalidParams, missing("until"@)),
                        }
                    } else if name@ == "insert_calendar_event"@ {
                        match (arg_value(args, "summary"@), arg_value(args, "start"@), arg_value(args, "end"@)) {
                            (Some(summary), Some(start), Some(end)) => PlanView::InsertEvent(
                                id,
                                account,
                                summary,
                                arg_value(args, "description"@),
                                start,
                                end,
                            ),
                            (None, _, _) => failure(id, JsonRpcErrorCode::InvalidParams, missing("summary"@)),
                            (_, None, _) => failure(id, JsonRpcErrorCode::InvalidParams, missing("start"@)),
                            (_, _, None) => failure(id, JsonRpcErrorCode::InvalidParams, missing("end"@)),
                        }
                    } else {
                        failure(id, JsonRpcErrorCode::MethodNotFound, "Unknown tool: "@ + name@)
                    },
                }
            },
        },
    }
}

/// The server's next state and plan for the message `msg`, in state `initialized`.
pub open spec fn step(initialized: bool, accounts: Accounts, msg: Message) -> (bool, PlanView) {
    match msg {
        Message::Request { id, method, params } => if method@ == "initialize"@ {
            (true, PlanView::Send(id, BodyView::Initialize))
        } else if !initialized {
            (false, failure(id, JsonRpcErrorCode::InvalidRequest, not_initialized_message()))
        } else if method@ == "tools/list"@ {
            (true, PlanView::Send(id, BodyView::ToolList))
        } else if method@ == "tools/call"@ {
            (true, tool_call_plan(accounts, id, params))
        } else {
            (true, failure(id, JsonRpcErrorCode::MethodNotFound, "Method not found: "@ + method@))
        },
        _ => (initialized, PlanView::Nothing),
    }
}

/// Until an `initialize` request arrives, every other request is answered
/// with the "not initialized" error and the server stays uninitialized;
/// notifications and responses are not answered.
pub proof fn lemma_uninitialized_refuses_requests(accounts: Accounts, msg: Message)
    requires
        !(msg matches Message::Request { method, .. } && method@ == "initialize"@),
    ensures
        step(false, accounts, msg).0 == false,
        msg matches Message::Request { id, .. } ==> step(false, accounts, msg).1 == failure(
            id,
            JsonRpcErrorCode::InvalidRequest,
            not_initialized_message(),
        ),
        !(msg is Request) ==> step(false, accounts, msg).1 == PlanView::Nothing,
{
}

/// An `initialize` request initializes the server from any state.
pub proof fn lemma_initialize_always_initializes(initialized: bool, accounts: Accounts, id: u64, method: String, params: Option<ToolCall>)
    requires
        method@ == "initialize"@,
    ensures
        step(initialized, accounts, Message::Request { id, method, params }) == (true, PlanView::Send(id, BodyView::Initialize)),
{
}

/// The value of the first argument named `key`.
pub fn argument(args: &Vec<(String, String)>, key: &str) -> (r: Option<String>)
    ensures
        crate::timeline::opt_text(r) == arg_value(args@, key@),
{
    let mut i: usize = 0;
    while i < args.len()
        invariant
            i <= args@.len(),
            arg_value(args@, key@) == arg_from(args@, key@, i as int),
        decreases args@.len() - i,
    {
        if text_eq(args[i].0.as_str(), key) {
            return Some(args[i].1.clone());
        }
        i = i + 1;
    }
    None
}

fn fail(id: u64, code: JsonRpcErrorCode, message: String) -> (r: Plan)
    ensures
        r@ == failure(id, code, message@),
{
    Plan::Send(Reply { id, body: ReplyBody::Failure { code, message } })
}

fn missing_parameter(id: u64, name: &str) -> (r: Plan)
    ensures
        r@ == failure(id, JsonRpcErrorCode::InvalidParams, missing(name@)),
{
    fail(id, JsonRpcErrorCode::InvalidParams, String::from_str("Missing '").concat(name).concat("' parameter"))
}

/// The handler of the server's messages; it remembers whether the server
/// has been initialized.
pub struct McpHandler {
    initialized: bool,
}

impl McpHandler {
    pub closed spec fn spec_initialized(&self) -> bool {
        self.initialized
    }

    /// A handler of a server that has not been initialized.
    pub fn new() -> (r: McpHandler)
        ensures
            !r.spec_initialized(),
    {
        McpHandler { initialized: false }
    }

    pub fn is_initialized(&self) -> (r: bool)
        ensures
            r == self.spec_initialized(),
    {
        self.initialized
    }

    /// Handles one message: moves to the next state and says what to do.
    pub fn handle_message(&mut self, accounts: &Accounts, msg: &Message) -> (r: Plan)
        requires
            accounts.wf(),
        ensures
            (final(self).spec_initialized(), r@) == step(old(self).spec_initialized(), *accounts, *msg),
    {
        match msg {
            Message::Request { id, method, params } => {
                let id = *id;
                if text_eq(method.as_str(), "initialize") {
                    self.initialized = true;
                    return Plan::Send(Reply { id, body: ReplyBody::Initialize });
                }
                if !self.initialized {
                    return fail(
                        id,
                        JsonRpcErrorCode::InvalidRequest,
                        String::from_str("Server not initialized. Send 'initialize' request first."),
                    );
                }
                if text_eq(method.as_str(), "tools/list") {
                    Plan::Send(Reply { id, body: ReplyBody::ToolList })
                } else if text_eq(method.as_str(), "tools/call") {
                    Self::plan_tool_call(accounts, id, params)
                } else {
                    fail(id, JsonRpcErrorCode::MethodNotFound, String::from_str("Method not found: ").concat(method.as_str()))
                }
            },
            _ => Plan::Nothing,
        }
    }

    fn plan_tool_call(accounts: &Accounts, id: u64, params: &Option<ToolCall>) -> (r: Plan)
        requires
            accounts.wf(),
        ensures
            r@ == tool_call_plan(*accounts, id, *params),
    {
        let requested = match params {
            Some(p) => match argument(&p.arguments, "account") {
                Some(a) => Some(a),
                None => argument(&p.arguments, "profile"),
            },
            None => None,
        };
        let account = match &requested {
            Some(n) => accounts.select(Some(n.as_str())),
            None => accounts.select(None),
        };
        let account = match account {
            Ok(i) => i,
            Err(AccountError::NotFound(n)) => {
                return fail(
                    id,
                    JsonRpcErrorCode::AccountNotFound,
                    String::from_str("Account '").concat(n.as_str()).concat("' not found"),
                );
            },
            Err(AccountError::NoAccounts) => {
                return fail(id, JsonRpcErrorCode::AccountNotFound, String::from_str("No account is configured"));
            },
        };
        let p = match params {
            Some(p) => p,
            None => return missing_parameter(id, "name"),
        };
        let name = match &p.name {
            Some(n) => n,
            None => return missing_parameter(id, "name"),
        };
        let args = &p.arguments;
        if text_eq(name.as_str(), "list_calendar_events") {
            let since = match argument(args, "since") {
                Some(v) => v,
                None => return missing_parameter(id, "since"),
            };
            let until = match argument(args, "until") {
                Some(v) => v,
                None => return missing_parameter(id, "until"),
            };
            Plan::ListEvents { id, account, since, until }
        } else if text_eq(name.as_str(), "insert_calendar_event") {
            let summary = match argument(args, "summary") {
                Some(v) => v,
                None => return missing_parameter(id, "summary"),
            };
            let start = match argument(args, "start") {
                Some(v) => v,
                None => return missing_parameter(id, "start"),
            };
            let end = match argument(args, "end") {
                Some(v) => v,
                None => return missing_parameter(id, "end"),
            };
            let description = argument(args, "description");
            Plan::InsertEvent { id, account, summary, description, start, end }
        } else {
            fail(id, JsonRpcErrorCode::MethodNotFound, String::from_str("Unknown tool: ").concat(name.as_str()))
        }
    }
}

/// The response to a `list_calendar_events` call: the rendered days, or the
/// failure of the fetch or the rendering as an internal error.
pub fn list_events_reply(id: u64, outcome: Result<String, String>) -> (r: Reply)
    ensures
        r.id == id,
        match outcome {
            Ok(text) => r.body@ == BodyView::Text(text@),
            Err(m) => r.body@ == BodyView::Failure(
                JsonRpcErrorCode::InternalError,
                "Failed to fetch calendar events: "@ + m@,
            ),
        },
{
    match outcome {
        Ok(text) => Reply { id, body: ReplyBody::Text(text) },
        Err(m) => Reply {
            id,
            body: ReplyBody::Failure {
                code: JsonRpcErrorCode::InternalError,
                message: String::from_str("Failed to fetch calendar events: ").concat(m.as_str()),
            },
        },
    }
}

/// Why an event creation failed.
#[derive(Debug)]
pub enum InsertFailure {
    /// The account has no calendar, or is unknown.
    Calendar(CalendarServiceError),
    /// The times given or the provider's request failed.
    Other(String),
}

/// The response to an `insert_calendar_event` call: a confirmation with the
/// provider's link, or the failure with a code that tells its cause.
pub fn insert_event_reply(id: u64, outcome: Result<Option<String>, InsertFailure>) -> (r: Reply)
    ensures
        r.id == id,
        match outcome {
            Ok(Some(link)) => r.body@ == BodyView::Text("Event created successfully!\nLink: "@ + link@),
            Ok(None) => r.body@ == BodyView::Text("Event created successfully!\nLink: "@ + "No link available"@),
            Err(InsertFailure::Calendar(CalendarServiceError::NoCalendarId)) => r.body@ == BodyView::Failure(
                JsonRpcErrorCode::InvalidParams,
                "No calendar ID configured"@,
            ),
            Err(InsertFailure::Calendar(CalendarServiceError::ProfileNotFound(n))) => r.body@ == BodyView::Failure(
                JsonRpcErrorCode::AccountNotFound,
                "Account '"@ + n@ + "' not found"@,
            ),
            Err(InsertFailure::Other(m)) => r.body@ == BodyView::Failure(
                JsonRpcErrorCode::InternalError,
                "Unexpected error: "@ + m@,
            ),
        },
{
    let body = match outcome {
        Ok(Some(link)) => ReplyBody::Text(String::from_str("Event created successfully!\nLink: ").concat(link.as_str())),
        Ok(None) => ReplyBody::Text(String::from_str("Event created successfully!\nLink: ").concat("No link available")),
        Err(InsertFailure::Calendar(CalendarServiceError::NoCalendarId)) => ReplyBody::Failure {
            code: JsonRpcErrorCode::InvalidParams,
            message: String::from_str("No calendar ID configured"),
        },
        Err(InsertFailure::Calendar(CalendarServiceError::ProfileNotFound(n))) => ReplyBody::Failure {
            code: JsonRpcErrorCode::AccountNotFound,
            message: String::from_str("Account '").concat(n.as_str()).concat("' not found"),
        },
        Err(InsertFailure::Other(m)) => ReplyBody::Failure {
            code: JsonRpcErrorCode::InternalError,
            message: String::from_str("Unexpected error: ").concat(m.as_str()),
        },
    };
    Reply { id, body }
}

/// The response when no credential could be obtained: the port-in-use case
/// has its own code, anything else is an internal error.
pub fn auth_failure_reply(id: u64, err: Cal2PromptError) -> (r: Reply)
    ensures
        r.id == id,
        match err {
            Cal2PromptError::OAuth2PortInUse => r.body@ == BodyView::Failure(JsonRpcErrorCode::PortInUse, port_in_use_message()),
            Cal2PromptError::Other(m) => r.body@ == BodyView::Failure(
                JsonRpcErrorCode::InternalError,
                "Failed to authenticate: "@ + m@,
            ),
        },
{
    let body = match err {
        Cal2PromptError::OAuth2PortInUse => ReplyBody::Failure {
            code: JsonRpcErrorCode::PortInUse,
            message: String::from_str(
                "Port 9004 is already in use. Another instance of cal2prompt or Windsurf may be running.",
            ),
        },
        Cal2PromptError::Other(m) => ReplyBody::Failure {
            code: JsonRpcErrorCode::InternalError,
            message: String::from_str("Failed to authenticate: ").concat(m.as_str()),
        },
    };
    Reply { id, body }
}


} // verus!
