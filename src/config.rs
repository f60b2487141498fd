//! The validated configuration, as the configuration loader produces it.
use crate::auth::Accounts;
use vstd::prelude::*;
use vstd::string::StringExecFns;

verus! {

#[derive(Debug, Clone)]
pub struct Config {
    pub source: Source,
    pub prompt: Prompt,
    pub settings: Settings,
    pub mcp: Mcp,
}

#[derive(Debug, Clone)]
pub struct Settings {
    /// IANA name of the display time zone.
    pub tz: String,
    /// Directory of the persisted credentials.
    pub oauth2_path: String,
}

#[derive(Debug, Clone)]
pub struct Source {
    pub google: GoogleSource,
}

#[derive(Debug, Clone)]
pub struct Prompt {
    pub template: String,
    pub calendar_ids: Vec<String>,
}

#[derive(Debug, Clone)]
pub struct GoogleSource {
    pub oauth2: GoogleOAuth2,
    pub accounts: Vec<AccountConfig>,
}

#[derive(Debug, Clone)]
pub struct GoogleOAuth2 {
    pub client_id: String,
    pub client_secret: String,
    pub redirect_url: String,
    pub scopes: Vec<String>,
}

/// An account as configured.
#[derive(Debug, Clone)]
pub struct AccountConfig {
    pub name: String,
    pub calendar_ids: Vec<String>,
    pub authorize_account: String,
}

#[derive(Debug, Clone)]
pub struct Mcp {
    pub insert_event: InsertEvent,
    pub get_events: GetEvents,
}

#[derive(Debug, Clone)]
pub struct InsertEvent {
    pub target: Vec<Target>,
}

#[derive(Debug, Clone)]
pub struct Target {
    pub nickname: String,
    pub calendar_id: String,
}

#[derive(Debug, Clone)]
pub struct GetEvents {
    pub calendar_ids: Vec<String>,
}

/// Why the configuration could not be loaded.
#[derive(Debug)]
pub enum ConfigError {
    ConfigFileNotFoundError(String),
    RequiredFieldNotFound(String, String),
    HomeEnvironmentNotFoundError,
    LuaRuntimeError(String),
}

impl ConfigError {
    pub open spec fn spec_message(&self) -> Seq<char> {
        match self {
            ConfigError::ConfigFileNotFoundError(p) => "Config file not found; please check if '"@ + p@ + "' exists."@,
            ConfigError::RequiredFieldNotFound(f, p) => "Required field '"@ + f@ + "' is not found; please set '"@ + f@
                + "' in '"@ + p@ + "'."@,
            ConfigError::HomeEnvironmentNotFoundError => "The $HOME environment variable is not set; please set it."@,
            ConfigError::LuaRuntimeError(m) => "Lua runtime error: "@ + m@,
        }
    }

    /// The message shown to the user.
    pub fn message(&self) -> (r: String)
        ensures
            r@ == self.spec_message(),
    {
        match self {
            ConfigError::ConfigFileNotFoundError(p) => String::from_str("Config file not found; please check if '")
                .concat(p.as_str()).concat("' exists."),
            ConfigError::RequiredFieldNotFound(f, p) => String::from_str("Required field '").concat(f.as_str()).concat(
                "' is not found; please set '",
            ).concat(f.as_str()).concat("' in '").concat(p.as_str()).concat("'."),
            ConfigError::HomeEnvironmentNotFoundError => String::from_str(
                "The $HOME environment variable is not set; please set it.",
            ),
            ConfigError::LuaRuntimeError(m) => String::from_str("Lua runtime error: ").concat(m.as_str()),
        }
    }
}

/// No two configured accounts share a name.
pub open spec fn configured_names_distinct(accounts: Seq<AccountConfig>) -> bool {
    forall|i: int, j: int| 0 <= i < j < accounts.len() ==> #[trigger] accounts[i].name@ != #[trigger] accounts[j].name@
}

fn copy_texts(v: &Vec<String>) -> (r: Vec<String>)
    ensures
        r@ == v@,
{
    let mut r: Vec<String> = Vec::new();
    let mut i: usize = 0;
    while i < v.len()
        invariant
            i <= v@.len(),
            r@ == v@.take(i as int),
        decreases v@.len() - i,
    {
        r.push(v[i].clone());
        proof {
            assert(r@ =~= v@.take(i + 1));
        }
        i = i + 1;
    }
    proof {
        assert(v@.take(v@.len() as int) =~= v@);
    }
    r
}

/// The account store of a configuration: no credential held yet, and every
/// configured name present. When the configured names are distinct, the
/// store holds the configured accounts in configured order, each with its
/// calendars and its credential persisted at `<oauth2_path>/<name>`.
pub fn accounts_of(config: &Config) -> (r: Accounts)
    ensures
        r.wf(),
        forall|i: int| 0 <= i < r.entries().len() ==> (#[trigger] r.entries()[i]).token is None,
        forall|i: int| 0 <= i < config.source.google.accounts@.len()
            ==> r.position_spec((#[trigger] config.source.google.accounts@[i]).name@) is Some,
        configured_names_distinct(config.source.google.accounts@) ==> {
            &&& r.entries().len() == config.source.google.accounts@.len()
            &&& forall|i: int| #![trigger r.entries()[i]] 0 <= i < r.entries().len() ==> {
                let c = config.source.google.accounts@[i];
                let a = r.entries()[i];
                &&& a.account_name@ == c.name@
                &&& a.calendar_ids@ == c.calendar_ids@
                &&& a.authorize_account == c.authorize_account
                &&& a.path@ == config.settings.oauth2_path@ + "/"@ + c.name@
            }
        },
{
    let configured = &config.source.google.accounts;
    let ghost distinct = configured_names_distinct(configured@);
    let mut accounts = Accounts::new();
    let mut i: usize = 0;
    while i < configured.len()
        invariant
            i <= configured@.len(),
            distinct == configured_names_distinct(configured@),
            accounts.wf(),
            forall|k: int| 0 <= k < accounts.entries().len() ==> (#[trigger] accounts.entries()[k]).token is None,
            forall|j: int| 0 <= j < i ==> accounts.position_spec((#[trigger] configured@[j]).name@) is Some,
            distinct ==> accounts.entries().len() == i,
            distinct ==> forall|k: int| #![trigger accounts.entries()[k]] 0 <= k < i ==> {
                let c = configured@[k];
                let a = accounts.entries()[k];
                &&& a.account_name@ == c.name@
                &&& a.calendar_ids@ == c.calendar_ids@
                &&& a.authorize_account == c.authorize_account
                &&& a.path@ == config.settings.oauth2_path@ + "/"@ + c.name@
            },
        decreases configured@.len() - i,
    {
        let a = &configured[i];
        let ghost before = accounts;
        proof {
            if distinct {
                assert forall|k: int| 0 <= k < before.entries().len() implies #[trigger] before.entries()[k].account_name@ != a.name@ by {
                    assert(configured@[k].name@ != configured@[i as int].name@);
                }
            }
        }
        accounts.add(
            a.name.as_str(),
            copy_texts(&a.calendar_ids),
            a.authorize_account.clone(),
            config.settings.oauth2_path.as_str(),
        );
        proof {
            assert forall|k: int| 0 <= k < accounts.entries().len() implies (#[trigger] accounts.entries()[k]).token is None by {
                if k < before.entries().len() && accounts.entries()[k] == before.entries()[k] {
                    assert(before.entries()[k].token is None);
                }
            }
            assert forall|j: int| 0 <= j < i + 1 implies accounts.position_spec((#[trigger] configured@[j]).name@) is Some by {
                if j < i {
                    let n = configured@[j].name@;
                    let p = choose|p: int| 0 <= p < before.entries().len() && #[trigger] before.entries()[p].account_name@ == n;
                    if n != a.name@ {
                        assert(accounts.entries()[p] == before.entries()[p]);
                        assert(accounts.entries()[p].account_name@ == n);
                    }
                }
            }
            if distinct {
                assert(before.position_spec(a.name@) is None);
                assert(accounts.position_spec(a.name@) == Some(i as int));
            }
        }
        i = i + 1;
    }
    accounts
}

} // verus!
