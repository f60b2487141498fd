use cal2prompt::config::{
    accounts_of, AccountConfig, Config, ConfigError, GetEvents, GoogleOAuth2, GoogleSource, InsertEvent, Mcp, Prompt,
    Settings, Source,
};
use cal2prompt::template::STANDARD;

fn account(name: &str, ids: &[&str]) -> AccountConfig {
    AccountConfig {
        name: name.to_string(),
        calendar_ids: ids.iter().map(|s| s.to_string()).collect(),
        authorize_account: format!("{}@example.com", name),
    }
}

fn config(accounts: Vec<AccountConfig>) -> Config {
    Config {
        source: Source {
            google: GoogleSource {
                oauth2: GoogleOAuth2 {
                    client_id: "test_client_id".to_string(),
                    client_secret: "test_client_secret".to_string(),
                    redirect_url: "http://127.0.0.1:9004".to_string(),
                    scopes: vec!["https://www.googleapis.com/auth/calendar.events".to_string()],
                },
                accounts,
            },
        },
        prompt: Prompt { template: STANDARD.to_string(), calendar_ids: vec![] },
        settings: Settings { tz: "UTC".to_string(), oauth2_path: "/home/me/.local/share/cal2prompt/oauth2".to_string() },
        mcp: Mcp { insert_event: InsertEvent { target: vec![] }, get_events: GetEvents { calendar_ids: vec![] } },
    }
}

#[test]
fn accounts_follow_configuration_order() {
    let c = config(vec![account("work", &["w1"]), account("private", &["p1", "p2"])]);
    let a = accounts_of(&c);
    assert_eq!(a.len(), 2);
    assert_eq!(a.account(0).account_name, "work");
    assert_eq!(a.account(1).account_name, "private");
    assert_eq!(a.account(1).path, "/home/me/.local/share/cal2prompt/oauth2/private");
    assert_eq!(a.account(1).calendar_ids, vec!["p1".to_string(), "p2".to_string()]);
    assert!(a.account(0).token.is_none());
    assert_eq!(a.select(None), Ok(0));
}

#[test]
fn configuration_error_messages() {
    assert_eq!(
        ConfigError::ConfigFileNotFoundError("~/.config/cal2prompt/config.lua".to_string()).message(),
        "Config file not found; please check if '~/.config/cal2prompt/config.lua' exists."
    );
    assert_eq!(
        ConfigError::RequiredFieldNotFound("source".to_string(), "~/c.lua".to_string()).message(),
        "Required field 'source' is not found; please set 'source' in '~/c.lua'."
    );
    assert_eq!(
        ConfigError::HomeEnvironmentNotFoundError.message(),
        "The $HOME environment variable is not set; please set it."
    );
    assert_eq!(ConfigError::LuaRuntimeError("boom".to_string()).message(), "Lua runtime error: boom");
}

#[test]
fn standard_template_starts_with_summary_line() {
    assert!(STANDARD.starts_with("Here is your schedule summary."));
}

#[test]
fn default_account_is_first_in_configuration_order() {
    let c = config(vec![account("zeta", &["z1"]), account("alpha", &["a1"])]);
    let a = accounts_of(&c);
    let first = a.select(None).unwrap();
    assert_eq!(a.account(first).account_name, "zeta");
    assert_eq!(a.calendar_for_insert(first).unwrap(), "z1");
}
