use cal2prompt::auth::{Accounts, Cal2PromptError, CalendarServiceError};
use cal2prompt::mcp::{
    argument, auth_failure_reply, insert_event_reply, list_events_reply, InsertFailure, JsonRpcErrorCode, McpHandler,
    Message, Plan, ReplyBody, ToolCall,
};

fn accounts() -> Accounts {
    let mut a = Accounts::new();
    a.add("work", vec!["work@example.com".to_string()], "me@work.example".to_string(), "/tmp/oauth2");
    a.add("private", vec!["me@example.com".to_string()], "me@example.com".to_string(), "/tmp/oauth2");
    a
}

fn request(id: u64, method: &str, params: Option<ToolCall>) -> Message {
    Message::Request { id, method: method.to_string(), params }
}

fn call(name: &str, args: &[(&str, &str)]) -> Option<ToolCall> {
    Some(ToolCall {
        name: Some(name.to_string()),
        arguments: args.iter().map(|(k, v)| (k.to_string(), v.to_string())).collect(),
    })
}

fn failure(plan: &Plan) -> (u64, JsonRpcErrorCode, String) {
    match plan {
        Plan::Send(r) => match &r.body {
            ReplyBody::Failure { code, message } => (r.id, *code, message.clone()),
            other => panic!("not a failure: {:?}", other),
        },
        other => panic!("not a reply: {:?}", other),
    }
}

#[test]
fn tools_call_before_initialize_is_refused_and_server_keeps_going() {
    let accounts = accounts();
    let mut h = McpHandler::new();
    let plan = h.handle_message(&accounts, &request(1, "tools/call", call("list_calendar_events", &[])));
    let (id, code, message) = failure(&plan);
    assert_eq!(id, 1);
    assert_eq!(code, JsonRpcErrorCode::InvalidRequest);
    assert_eq!(code.code(), -32600);
    assert_eq!(message, "Server not initialized. Send 'initialize' request first.");
    assert!(!h.is_initialized());

    let plan = h.handle_message(&accounts, &request(2, "initialize", None));
    assert!(matches!(plan, Plan::Send(ref r) if r.id == 2 && matches!(r.body, ReplyBody::Initialize)));
    assert!(h.is_initialized());
    let plan = h.handle_message(&accounts, &request(3, "tools/list", None));
    assert!(matches!(plan, Plan::Send(ref r) if r.id == 3 && matches!(r.body, ReplyBody::ToolList)));
}

#[test]
fn insert_without_account_targets_first_configured_account() {
    let accounts = accounts();
    let mut h = McpHandler::new();
    h.handle_message(&accounts, &request(1, "initialize", None));
    let plan = h.handle_message(
        &accounts,
        &request(
            7,
            "tools/call",
            call("insert_calendar_event", &[("summary", "Lunch"), ("start", "2025-01-05 12:00"), ("end", "2025-01-05 13:00")]),
        ),
    );
    match plan {
        Plan::InsertEvent { id, account, summary, description, start, end } => {
            assert_eq!(id, 7);
            assert_eq!(account, 0);
            assert_eq!(accounts.account(account).account_name, "work");
            assert_eq!(summary, "Lunch");
            assert_eq!(description, None);
            assert_eq!(start, "2025-01-05 12:00");
            assert_eq!(end, "2025-01-05 13:00");
        },
        other => panic!("unexpected {:?}", other),
    }
}

#[test]
fn list_with_named_account_and_missing_parameters() {
    let accounts = accounts();
    let mut h = McpHandler::new();
    h.handle_message(&accounts, &request(1, "initialize", None));
    let plan = h.handle_message(
        &accounts,
        &request(2, "tools/call", call("list_calendar_events", &[("since", "2025-01-05"), ("until", "2025-01-06"), ("account", "private")])),
    );
    assert!(matches!(plan, Plan::ListEvents { id: 2, account: 1, ref since, ref until } if since == "2025-01-05" && until == "2025-01-06"));

    let plan = h.handle_message(&accounts, &request(3, "tools/call", call("list_calendar_events", &[("since", "2025-01-05")])));
    assert_eq!(failure(&plan), (3, JsonRpcErrorCode::InvalidParams, "Missing 'until' parameter".to_string()));

    let plan = h.handle_message(&accounts, &request(4, "tools/call", call("list_calendar_events", &[("profile", "home")])));
    assert_eq!(failure(&plan), (4, JsonRpcErrorCode::AccountNotFound, "Account 'home' not found".to_string()));
    assert_eq!(JsonRpcErrorCode::AccountNotFound.code(), -32001);

    let plan = h.handle_message(&accounts, &request(5, "tools/call", call("delete_everything", &[])));
    assert_eq!(failure(&plan), (5, JsonRpcErrorCode::MethodNotFound, "Unknown tool: delete_everything".to_string()));

    let plan = h.handle_message(&accounts, &request(6, "resources/list", None));
    assert_eq!(failure(&plan), (6, JsonRpcErrorCode::MethodNotFound, "Method not found: resources/list".to_string()));
}

#[test]
fn notifications_and_responses_are_not_answered() {
    let accounts = accounts();
    let mut h = McpHandler::new();
    assert!(matches!(h.handle_message(&accounts, &Message::Notification { method: "initialized".to_string() }), Plan::Nothing));
    assert!(matches!(h.handle_message(&accounts, &Message::Response { id: 9 }), Plan::Nothing));
    assert!(!h.is_initialized());
}

#[test]
fn no_accounts_configured() {
    let accounts = Accounts::new();
    let mut h = McpHandler::new();
    h.handle_message(&accounts, &request(1, "initialize", None));
    let plan = h.handle_message(&accounts, &request(2, "tools/call", call("list_calendar_events", &[])));
    assert_eq!(failure(&plan).1, JsonRpcErrorCode::AccountNotFound);
}

#[test]
fn first_argument_of_a_name_wins() {
    let args = vec![("a".to_string(), "1".to_string()), ("a".to_string(), "2".to_string())];
    assert_eq!(argument(&args, "a"), Some("1".to_string()));
    assert_eq!(argument(&args, "b"), None);
}

#[test]
fn replies_for_outcomes() {
    let r = list_events_reply(3, Ok("schedule".to_string()));
    assert!(matches!(r.body, ReplyBody::Text(ref t) if t == "schedule"));
    let r = list_events_reply(3, Err("boom".to_string()));
    assert!(matches!(r.body, ReplyBody::Failure { code: JsonRpcErrorCode::InternalError, ref message } if message == "Failed to fetch calendar events: boom"));

    let r = insert_event_reply(4, Ok(Some("https://x".to_string())));
    assert!(matches!(r.body, ReplyBody::Text(ref t) if t == "Event created successfully!\nLink: https://x"));
    let r = insert_event_reply(4, Ok(None));
    assert!(matches!(r.body, ReplyBody::Text(ref t) if t == "Event created successfully!\nLink: No link available"));
    let r = insert_event_reply(4, Err(InsertFailure::Calendar(CalendarServiceError::NoCalendarId)));
    assert!(matches!(r.body, ReplyBody::Failure { code: JsonRpcErrorCode::InvalidParams, ref message } if message == "No calendar ID configured"));
    let r = insert_event_reply(4, Err(InsertFailure::Calendar(CalendarServiceError::ProfileNotFound("x".to_string()))));
    assert!(matches!(r.body, ReplyBody::Failure { code: JsonRpcErrorCode::AccountNotFound, ref message } if message == "Account 'x' not found"));
    let r = insert_event_reply(4, Err(InsertFailure::Other("bad".to_string())));
    assert!(matches!(r.body, ReplyBody::Failure { code: JsonRpcErrorCode::InternalError, ref message } if message == "Unexpected error: bad"));

    let r = auth_failure_reply(5, Cal2PromptError::OAuth2PortInUse);
    assert!(matches!(r.body, ReplyBody::Failure { code: JsonRpcErrorCode::PortInUse, .. }));
    assert_eq!(JsonRpcErrorCode::PortInUse.code(), -32000);
    let r = auth_failure_reply(5, Cal2PromptError::Other("denied".to_string()));
    assert!(matches!(r.body, ReplyBody::Failure { code: JsonRpcErrorCode::InternalError, ref message } if message == "Failed to authenticate: denied"));
}
