use cal2prompt::auth::{Accounts, Cal2PromptError, CalendarServiceError, CredentialStep, FlowState, Token};
use cal2prompt::redirect::authorization_code;

fn token(expires_at: Option<i64>, refresh: Option<&str>) -> Token {
    Token {
        access_token: "access".to_string(),
        refresh_token: refresh.map(|r| r.to_string()),
        expires_at,
    }
}

fn store() -> Accounts {
    let mut a = Accounts::new();
    a.add("work", vec!["cal-1".to_string(), "cal-2".to_string()], "me@work.example".to_string(), "/data/oauth2");
    a.add("empty", vec![], "me@example.com".to_string(), "/data/oauth2");
    a
}

#[test]
fn expiry_is_inclusive_and_absent_expiry_never_expires() {
    assert!(token(Some(100), None).is_expired_at(100));
    assert!(!token(Some(100), None).is_expired_at(99));
    assert!(!token(None, None).is_expired_at(u64::MAX));
    assert!(!token(None, None).is_expired());
    assert!(token(Some(0), None).is_expired());
}

#[test]
fn grant_expiry_counts_from_now() {
    let t = Token::from_token_response("a".to_string(), Some("r".to_string()), Some(3600), 1_000);
    assert_eq!(t.expires_at, Some(4_600));
    assert_eq!(t.refresh_token.as_deref(), Some("r"));
    let t = Token::from_token_response("a".to_string(), None, None, 1_000);
    assert_eq!(t.expires_at, None);
    let t = Token::from_token_response("a".to_string(), None, Some(u64::MAX), 1);
    assert_eq!(t.expires_at, Some(i64::MAX));
}

#[test]
fn accounts_keep_configuration_order_and_paths() {
    let a = store();
    assert_eq!(a.len(), 2);
    assert_eq!(a.account(0).account_name, "work");
    assert_eq!(a.account(0).path, "/data/oauth2/work");
    assert_eq!(a.position("empty"), Some(1));
    assert_eq!(a.position("other"), None);
    assert_eq!(a.select(None), Ok(0));
}

#[test]
fn credential_steps_follow_the_held_token() {
    let mut a = store();
    assert!(matches!(a.credential_step(0, 50), CredentialStep::LoadFromDisk));
    assert!(matches!(a.after_disk_read(0, None, 50), CredentialStep::Authorize));
    assert!(matches!(a.after_disk_read(0, Some(token(Some(10), Some("rt"))), 50), CredentialStep::Refresh(ref r) if r == "rt"));
    assert!(a.account(0).token.is_none());
    assert!(matches!(a.after_disk_read(0, Some(token(Some(10), None)), 50), CredentialStep::Authorize));
    assert!(matches!(a.after_disk_read(0, Some(token(Some(100), None)), 50), CredentialStep::Ready));
    assert!(a.account(0).token.is_some());
    assert!(matches!(a.credential_step(0, 50), CredentialStep::Ready));
    assert!(matches!(a.credential_step(0, 100), CredentialStep::Authorize));
}

#[test]
fn only_one_flow_per_account_at_a_time() {
    let mut a = store();
    assert!(a.begin_flow(0, FlowState::Authorizing));
    assert!(!a.begin_flow(0, FlowState::Authorizing));
    assert!(!a.begin_flow(0, FlowState::Refreshing));
    assert!(a.begin_flow(1, FlowState::Refreshing));
    assert!(a.finish_flow(0, Ok(token(None, Some("r")))).is_ok());
    assert!(a.account(0).token.is_some());
    assert!(a.begin_flow(0, FlowState::Refreshing));
    assert!(matches!(a.finish_flow(0, Err(Cal2PromptError::OAuth2PortInUse)), Err(Cal2PromptError::OAuth2PortInUse)));
    assert_eq!(a.account(0).token.as_ref().unwrap().refresh_token.as_deref(), Some("r"));
    assert!(a.begin_flow(0, FlowState::Refreshing));
    assert!(matches!(a.finish_flow(0, Err(Cal2PromptError::Other("denied".to_string()))), Err(Cal2PromptError::Other(_))));
    assert!(a.account(0).token.is_none());
    assert!(a.begin_flow(0, FlowState::Authorizing));
}

#[test]
fn first_calendar_receives_new_events() {
    let a = store();
    assert_eq!(a.calendar_for_insert(0).unwrap(), "cal-1");
    assert!(matches!(a.calendar_for_insert(1), Err(CalendarServiceError::NoCalendarId)));
}

#[test]
fn replacing_an_account_keeps_its_place() {
    let mut a = store();
    a.add("work", vec!["cal-9".to_string()], "x".to_string(), "/elsewhere");
    assert_eq!(a.len(), 2);
    assert_eq!(a.account(0).calendar_ids, vec!["cal-9".to_string()]);
    assert_eq!(a.account(0).path, "/elsewhere/work");
}

#[test]
fn authorization_code_of_redirect_request() {
    let code = authorization_code("GET /?state=xyz&code=4%2F0Ab-c&scope=cal HTTP/1.1\r\n").unwrap();
    assert_eq!(code, "4/0Ab-c");
    let code = authorization_code("GET /?code=first&code=second HTTP/1.1").unwrap();
    assert_eq!(code, "first");
    assert!(matches!(authorization_code("GET /?error=access_denied HTTP/1.1"), Err(Cal2PromptError::Other(_))));
    assert!(matches!(authorization_code("GET"), Err(Cal2PromptError::Other(_))));
    assert!(matches!(authorization_code("   GET   "), Err(Cal2PromptError::Other(_))));
    assert_eq!(authorization_code("  GET \t /?code=spaced\tHTTP/1.1").unwrap(), "spaced");
}
