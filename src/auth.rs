//! Credentials and the per-account store that the token manager drives.
//!
//! The store decides, for an account, what to do next to obtain a valid
//! credential (use it, read the persisted file, refresh, or authorize), and
//! admits at most one authorization or refresh flow per account at a time.
//! The flows themselves (browser, loopback listener, token endpoint, file
//! I/O) are performed by the caller, which reports their outcome back.
use vstd::prelude::*;
use vstd::pervasive::VecAdditionalExecFns;
use vstd::string::StringExecFns;

verus! {

/// Relies on `SystemTime::now` and `duration_since(UNIX_EPOCH)`: the whole
/// seconds elapsed since 1970-01-01T00:00:00Z (zero if the clock is earlier).
#[verifier::external_body]
pub(crate) fn unix_seconds_now() -> (r: u64) {
    std::time::SystemTime::now().duration_since(std::time::UNIX_EPOCH).unwrap_or_default().as_secs()
}

/// An access token with its optional refresh token and optional expiry
/// (Unix seconds; absent means it never expires).
#[derive(Debug)]
pub struct Token {
    pub access_token: String,
    pub refresh_token: Option<String>,
    pub expires_at: Option<i64>,
}

impl Token {
    pub open spec fn expired_at(&self, now: int) -> bool {
        self.expires_at matches Some(e) && e <= now
    }

    /// Whether the token has expired at the instant `now` (Unix seconds).
    pub fn is_expired_at(&self, now: u64) -> (r: bool)
        ensures
            r == self.expired_at(now as int),
    {
        match self.expires_at {
            Some(e) => (e as i128) <= (now as i128),
            None => false,
        }
    }

    /// Whether the token has expired by the system clock.
    pub fn is_expired(&self) -> (r: bool)
        ensures
            self.expires_at is None ==> !r,
            r ==> exists|now: int| now >= 0 && self.expired_at(now),
    {
        self.is_expired_at(unix_seconds_now())
    }

    /// A copy of the token with the same fields.
    pub fn duplicate(&self) -> (r: Token)
        ensures
            r.access_token@ == self.access_token@,
            crate::timeline::opt_text(r.refresh_token) == crate::timeline::opt_text(self.refresh_token),
            r.expires_at == self.expires_at,
    {
        Token {
            access_token: self.access_token.clone(),
            refresh_token: match &self.refresh_token {
                Some(t) => Some(t.clone()),
                None => None,
            },
            expires_at: self.expires_at,
        }
    }

    /// The expiry instant of a grant that lasts `expires_in` seconds from `now`
    /// (saturated at the largest instant).
    pub open spec fn expiry_of(expires_in: Option<u64>, now: u64) -> Option<i64> {
        match expires_in {
            Some(d) => Some(
                if now + d <= i64::MAX {
                    (now + d) as i64
                } else {
                    i64::MAX
                },
            ),
            None => None,
        }
    }

    /// The credential granted by a token endpoint answer received at `now`
    /// (Unix seconds): the tokens as given, and an expiry `expires_in`
    /// seconds after `now` when the answer gives a lifetime.
    pub fn from_token_response(
        access_token: String,
        refresh_token: Option<String>,
        expires_in: Option<u64>,
        now: u64,
    ) -> (r: Token)
        ensures
            r.access_token == access_token,
            r.refresh_token == refresh_token,
            r.expires_at == Self::expiry_of(expires_in, now),
    {
        let expires_at = match expires_in {
            Some(d) => {
                let total = (now as u128) + (d as u128);
                if total <= i64::MAX as u128 {
                    Some(total as i64)
                } else {
                    Some(i64::MAX)
                }
            },
            None => None,
        };
        Token { access_token, refresh_token, expires_at }
    }
}

/// Why a credential could not be obtained.
#[derive(Debug)]
pub enum Cal2PromptError {
    /// The loopback port of the authorization flow is already bound.
    OAuth2PortInUse,
    /// Any other failure of the flow, the refresh or the persistence.
    Other(String),
}

/// One configured account, with the credential currently held for it.
#[derive(Debug)]
pub struct AccountConfig {
    pub account_name: String,
    pub calendar_ids: Vec<String>,
    pub authorize_account: String,
    pub token: Option<Token>,
    /// Where the account's credential is persisted.
    pub path: String,
}

/// The flow in progress for an account.
#[derive(Debug, Clone, Copy, PartialEq, Eq, Structural)]
pub enum FlowState {
    Idle,
    Authorizing,
    Refreshing,
}

/// What to do next to obtain a valid credential for an account.
#[derive(Debug)]
pub enum CredentialStep {
    /// The credential held is valid: use it.
    Ready,
    /// Nothing is held: read the persisted file.
    LoadFromDisk,
    /// The credential has expired: exchange this refresh token.
    Refresh(String),
    /// Run the browser authorization flow.
    Authorize,
}

/// Why an account could not be selected.
#[derive(Debug, PartialEq, Eq)]
pub enum AccountError {
    /// No account is configured.
    NoAccounts,
    /// No account has the requested name.
    NotFound(String),
}

/// The configured accounts in configuration order, with their credentials.
pub struct Accounts {
    accounts: Vec<AccountConfig>,
    flows: Vec<FlowState>,
}

pub open spec fn names_distinct(accounts: Seq<AccountConfig>) -> bool {
    forall|i: int, j: int|
        0 <= i < j < accounts.len() ==> #[trigger] accounts[i].account_name@ != #[trigger] accounts[j].account_name@
}

impl Accounts {
    /// The flow table matches the accounts, and no two accounts share a name.
    pub closed spec fn wf(&self) -> bool {
        &&& self.flows@.len() == self.accounts@.len()
        &&& names_distinct(self.accounts@)
    }

    pub closed spec fn entries(&self) -> Seq<AccountConfig> {
        self.accounts@
    }

    pub closed spec fn flows(&self) -> Seq<FlowState> {
        self.flows@
    }

    /// An empty store.
    pub fn new() -> (r: Accounts)
        ensures
            r.wf(),
            r.entries().len() == 0,
    {
        Accounts { accounts: Vec::new(), flows: Vec::new() }
    }

    pub fn len(&self) -> (r: usize)
        ensures
            r == self.entries().len(),
    {
        self.accounts.len()
    }

    /// The position of the account named `name`, if any.
    pub fn position(&self, name: &str) -> (r: Option<usize>)
        ensures
            r matches Some(i) ==> i < self.entries().len() && self.entries()[i as int].account_name@ == name@,
            r is None ==> forall|i: int| 0 <= i < self.entries().len() ==> #[trigger] self.entries()[i].account_name@ != name@,
    {
        let mut i: usize = 0;
        while i < self.accounts.len()
            invariant
                i <= self.accounts@.len(),
                forall|j: int| 0 <= j < i ==> #[trigger] self.accounts@[j].account_name@ != name@,
            decreases self.accounts@.len() - i,
        {
            if text_eq(self.accounts[i].account_name.as_str(), name) {
                return Some(i);
            }
            i = i + 1;
        }
        None
    }

    /// Adds an account from configuration, its credential persisted at
    /// `<credential_dir>/<name>`. An account of the same name is replaced in place.
    pub fn add(&mut self, name: &str, calendar_ids: Vec<String>, authorize_account: String, credential_dir: &str)
        requires
            old(self).wf(),
        ensures
            final(self).wf(),
            old(self).position_spec(name@) is None ==> final(self).entries().len() == old(self).entries().len() + 1,
            old(self).position_spec(name@) is Some ==> final(self).entries().len() == old(self).entries().len(),
            old(self).position_spec(name@) is None ==> final(self).position_spec(name@) == Some(
                old(self).entries().len() as int,
            ),
            final(self).position_spec(name@) matches Some(i) && {
                let a = final(self).entries()[i];
                &&& a.account_name@ == name@
                &&& a.calendar_ids == calendar_ids
                &&& a.authorize_account == authorize_account
                &&& a.token is None
                &&& a.path@ == credential_dir@ + "/"@ + name@
            },
            forall|j: int| 0 <= j < old(self).entries().len() && old(self).entries()[j].account_name@ != name@
                ==> #[trigger] final(self).entries()[j] == old(self).entries()[j],
            forall|j: int| 0 <= j < old(self).entries().len() ==> #[trigger] final(self).flows()[j] == old(self).flows()[j],
            forall|j: int| 0 <= j < final(self).entries().len() ==> (#[trigger] final(self).entries()[j]).token is None
                || (j < old(self).entries().len() && final(self).entries()[j] == old(self).entries()[j]),
    {
        let path = String::from_str(credential_dir).concat("/").concat(name);
        let entry = AccountConfig {
            account_name: String::from_str(name),
            calendar_ids,
            authorize_account,
            token: None,
            path,
        };
        match self.position(name) {
            Some(i) => {
                let ghost before = self.accounts@;
                let mut slot = entry;
                self.accounts.set_and_swap(i, &mut slot);
                proof {
                    assert forall|a: int, b: int| 0 <= a < b < self.accounts@.len() implies
                        #[trigger] self.accounts@[a].account_name@ != #[trigger] self.accounts@[b].account_name@ by {
                        if a != i && b != i {
                            assert(before[a].account_name@ != before[b].account_name@);
                        }
                    }
                    lemma_position_unique(self.accounts@, i as int, name@);
                }
            },
            None => {
                let ghost before = self.accounts@;
                self.accounts.push(entry);
                self.flows.push(FlowState::Idle);
                proof {
                    assert forall|a: int, b: int| 0 <= a < b < self.accounts@.len() implies
                        #[trigger] self.accounts@[a].account_name@ != #[trigger] self.accounts@[b].account_name@ by {
                        if b < before.len() {
                            assert(before[a].account_name@ != before[b].account_name@);
                        }
                    }
                    lemma_position_unique(self.accounts@, before.len() as int, name@);
                }
            },
        }
    }

    /// The position of the account named `name`, if any.
    pub open spec fn position_spec(&self, name: Seq<char>) -> Option<int> {
        if exists|i: int| 0 <= i < self.entries().len() && #[trigger] self.entries()[i].account_name@ == name {
            Some(choose|i: int| 0 <= i < self.entries().len() && #[trigger] self.entries()[i].account_name@ == name)
        } else {
            None
        }
    }

    /// The account a request targets: the one named `requested`, or the first
    /// configured account when no name is given.
    pub fn select(&self, requested: Option<&str>) -> (r: Result<usize, AccountError>)
        requires
            self.wf(),
        ensures
            requested matches Some(n) ==> (match r {
                Ok(i) => self.position_spec(n@) == Some(i as int),
                Err(_) => self.position_spec(n@) is None,
            }),
            requested is None ==> (if self.entries().len() > 0 {
                r == Ok::<usize, AccountError>(0)
            } else {
                r == Err::<usize, AccountError>(AccountError::NoAccounts)
            }),
            requested matches Some(n) ==> match r {
                Ok(i) => i < self.entries().len() && self.entries()[i as int].account_name@ == n@,
                Err(e) => (e matches AccountError::NotFound(m) && m@ == n@) && self.position_spec(n@) is None,
            },
    {
        match requested {
            None => {
                if self.accounts.len() > 0 {
                    Ok(0)
                } else {
                    Err(AccountError::NoAccounts)
                }
            },
            Some(n) => match self.position(n) {
                Some(i) => {
                    proof {
                        lemma_position_unique(self.accounts@, i as int, n@);
                    }
                    Ok(i)
                },
                None => Err(AccountError::NotFound(n.to_owned())),
            },
        }
    }

    pub fn account(&self, i: usize) -> (r: &AccountConfig)
        requires
            i < self.entries().len(),
        ensures
            *r == self.entries()[i as int],
    {
        &self.accounts[i]
    }

    /// What to do next for account `i` at the instant `now` (Unix seconds).
    pub fn credential_step(&self, i: usize, now: u64) -> (r: CredentialStep)
        requires
            i < self.entries().len(),
        ensures
            ({
                let held = self.entries()[i as int].token;
                match held {
                    None => r is LoadFromDisk,
                    Some(t) => if !t.expired_at(now as int) {
                        r is Ready
                    } else {
                        match t.refresh_token {
                            Some(rt) => r matches CredentialStep::Refresh(s) && s@ == rt@,
                            None => r is Authorize,
                        }
                    },
                }
            }),
    {
        Self::step_for(&self.accounts[i].token, now)
    }

    fn step_for(held: &Option<Token>, now: u64) -> (r: CredentialStep)
        ensures
            match *held {
                None => r is LoadFromDisk,
                Some(t) => if !t.expired_at(now as int) {
                    r is Ready
                } else {
                    match t.refresh_token {
                        Some(rt) => r matches CredentialStep::Refresh(s) && s@ == rt@,
                        None => r is Authorize,
                    }
                },
            },
    {
        match held {
            None => CredentialStep::LoadFromDisk,
            Some(t) => {
                if !t.is_expired_at(now) {
                    CredentialStep::Ready
                } else {
                    match &t.refresh_token {
                        Some(rt) => CredentialStep::Refresh(rt.clone()),
                        None => CredentialStep::Authorize,
                    }
                }
            },
        }
    }

    /// Takes in what was read from account `i`'s credential file (`None` when
    /// it is absent or unreadable). A valid credential is held from now on;
    /// an expired one is to be refreshed, or replaced by authorization.
    pub fn after_disk_read(&mut self, i: usize, loaded: Option<Token>, now: u64) -> (r: CredentialStep)
        requires
            old(self).wf(),
            i < old(self).entries().len(),
        ensures
            final(self).wf(),
            final(self).flows() == old(self).flows(),
            final(self).entries().len() == old(self).entries().len(),
            match loaded {
                None => r is Authorize && final(self).entries() == old(self).entries(),
                Some(t) => if !t.expired_at(now as int) {
                    &&& r is Ready
                    &&& final(self).entries() == old(self).entries().update(
                        i as int,
                        AccountConfig { token: Some(t), ..old(self).entries()[i as int] },
                    )
                } else {
                    &&& final(self).entries() == old(self).entries()
                    &&& match t.refresh_token {
                        Some(rt) => r matches CredentialStep::Refresh(s) && s@ == rt@,
                        None => r is Authorize,
                    }
                },
            },
    {
        match loaded {
            None => CredentialStep::Authorize,
            Some(t) => {
                if !t.is_expired_at(now) {
                    self.set_token(i, Some(t));
                    CredentialStep::Ready
                } else {
                    match &t.refresh_token {
                        Some(rt) => CredentialStep::Refresh(rt.clone()),
                        None => CredentialStep::Authorize,
                    }
                }
            },
        }
    }

    fn set_token(&mut self, i: usize, token: Option<Token>)
        requires
            old(self).wf(),
            i < old(self).entries().len(),
        ensures
            final(self).wf(),
            final(self).flows() == old(self).flows(),
            final(self).entries() == old(self).entries().update(
                i as int,
                AccountConfig { token, ..old(self).entries()[i as int] },
            ),
    {
        let mut slot = AccountConfig {
            account_name: String::new(),
            calendar_ids: Vec::new(),
            authorize_account: String::new(),
            token: None,
            path: String::new(),
        };
        let ghost before = self.accounts@;
        self.accounts.set_and_swap(i, &mut slot);
        slot.token = token;
        self.accounts.set_and_swap(i, &mut slot);
        proof {
            assert(self.accounts@ =~= before.update(i as int, AccountConfig { token, ..before[i as int] }));
            assert forall|a: int, b: int| 0 <= a < b < self.accounts@.len() implies
                #[trigger] self.accounts@[a].account_name@ != #[trigger] self.accounts@[b].account_name@ by {
                assert(before[a].account_name@ != before[b].account_name@);
            }
        }
    }

    /// Starts a flow of kind `kind` (not `Idle`) for account `i`, unless one is
    /// already in progress for it; returns whether it was started.
    pub fn begin_flow(&mut self, i: usize, kind: FlowState) -> (started: bool)
        requires
            old(self).wf(),
            i < old(self).entries().len(),
            kind != FlowState::Idle,
        ensures
            final(self).wf(),
            begins(old(self).flows(), final(self).flows(), i as int, kind, started),
            final(self).entries() == old(self).entries(),
    {
        if self.flows[i] != FlowState::Idle {
            return false;
        }
        self.flows.set(i, kind);
        true
    }

    /// Ends the flow in progress for account `i` with its outcome: a granted
    /// credential is held from now on. A bound loopback port is recoverable
    /// and leaves the accounts as they were; any other failure leaves the
    /// account without a credential. Either way the account can start a new flow.
    pub fn finish_flow(&mut self, i: usize, outcome: Result<Token, Cal2PromptError>) -> (r: Result<(), Cal2PromptError>)
        requires
            old(self).wf(),
            i < old(self).entries().len(),
        ensures
            final(self).wf(),
            final(self).flows() == old(self).flows().update(i as int, FlowState::Idle),
            final(self).entries().len() == old(self).entries().len(),
            match outcome {
                Ok(t) => r is Ok && final(self).entries() == old(self).entries().update(
                    i as int,
                    AccountConfig { token: Some(t), ..old(self).entries()[i as int] },
                ),
                Err(Cal2PromptError::OAuth2PortInUse) => r == Err::<(), Cal2PromptError>(
                    Cal2PromptError::OAuth2PortInUse,
                ) && final(self).entries() == old(self).entries(),
                Err(Cal2PromptError::Other(m)) => r == Err::<(), Cal2PromptError>(Cal2PromptError::Other(m))
                    && final(self).entries() == old(self).entries().update(
                    i as int,
                    AccountConfig { token: None, ..old(self).entries()[i as int] },
                ),
            },
    {
        self.flows.set(i, FlowState::Idle);
        match outcome {
            Ok(t) => {
                self.set_token(i, Some(t));
                Ok(())
            },
            Err(Cal2PromptError::OAuth2PortInUse) => Err(Cal2PromptError::OAuth2PortInUse),
            Err(e) => {
                self.set_token(i, None);
                Err(e)
            },
        }
    }

    /// In a well-formed store the flow table has one entry per account and
    /// no two accounts share a name.
    pub proof fn lemma_flow_table(&self)
        requires
            self.wf(),
        ensures
            self.flows().len() == self.entries().len(),
            names_distinct(self.entries()),
    {
    }

    /// The calendar that new events of account `i` go to: its first configured calendar.
    pub fn calendar_for_insert(&self, i: usize) -> (r: Result<&String, CalendarServiceError>)
        requires
            i < self.entries().len(),
        ensures
            self.entries()[i as int].calendar_ids@.len() == 0 ==> r matches Err(CalendarServiceError::NoCalendarId),
            self.entries()[i as int].calendar_ids@.len() > 0 ==> (r matches Ok(c) && *c == self.entries()[i as int].calendar_ids@[0]),
    {
        if self.accounts[i].calendar_ids.len() == 0 {
            Err(CalendarServiceError::NoCalendarId)
        } else {
            Ok(&self.accounts[i].calendar_ids[0])
        }
    }
}

/// Why an event could not be inserted for an account.
#[derive(Debug)]
pub enum CalendarServiceError {
    NoCalendarId,
    ProfileNotFound(String),
}

/// The flow states `after` follow from `before` by a request to start a flow
/// of kind `kind` for account `i`, which answered `started`.
pub open spec fn begins(before: Seq<FlowState>, after: Seq<FlowState>, i: int, kind: FlowState, started: bool) -> bool {
    &&& started == (before[i] == FlowState::Idle)
    &&& after == if started { before.update(i, kind) } else { before }
}

/// While a flow is in progress for an account, a second request to start one
/// for the same account is refused and changes nothing; other accounts are
/// not affected by the first.
pub proof fn lemma_one_flow_per_account(
    s0: Seq<FlowState>,
    s1: Seq<FlowState>,
    s2: Seq<FlowState>,
    i: int,
    first: FlowState,
    second: FlowState,
    started_first: bool,
    started_second: bool,
)
    requires
        0 <= i < s0.len(),
        first != FlowState::Idle,
        begins(s0, s1, i, first, started_first),
        started_first,
        begins(s1, s2, i, second, started_second),
    ensures
        !started_second,
        s2 == s1,
        s1[i] == first,
        forall|j: int| 0 <= j < s0.len() && j != i ==> #[trigger] s1[j] == s0[j],
{
}

/// For the accounts of a store: while a flow started by `begin_flow` is in
/// progress for account `i`, a second `begin_flow` for `i` is refused and
/// leaves the flow table unchanged.
pub proof fn lemma_no_second_flow_for_account(
    a0: Accounts,
    a1: Accounts,
    a2: Accounts,
    i: int,
    first: FlowState,
    second: FlowState,
    started_first: bool,
    started_second: bool,
)
    requires
        a0.wf(),
        0 <= i < a0.entries().len(),
        first != FlowState::Idle,
        begins(a0.flows(), a1.flows(), i, first, started_first),
        started_first,
        begins(a1.flows(), a2.flows(), i, second, started_second),
    ensures
        !started_second,
        a2.flows() == a1.flows(),
        a1.flows()[i] == first,
{
    a0.lemma_flow_table();
    lemma_one_flow_per_account(a0.flows(), a1.flows(), a2.flows(), i, first, second, started_first, started_second);
}

proof fn lemma_position_unique(accounts: Seq<AccountConfig>, i: int, name: Seq<char>)
    requires
        names_distinct(accounts),
        0 <= i < accounts.len(),
        accounts[i].account_name@ == name,
    ensures
        (choose|j: int| 0 <= j < accounts.len() && #[trigger] accounts[j].account_name@ == name) == i,
{
    let j = choose|j: int| 0 <= j < accounts.len() && #[trigger] accounts[j].account_name@ == name;
    if j != i {
        if j < i {
            assert(accounts[j].account_name@ != accounts[i].account_name@);
        } else {
            assert(accounts[i].account_name@ != accounts[j].account_name@);
        }
    }
}

/// Relies on `str`'s `==`: equal exactly when the characters are.
#[verifier::external_body]
pub(crate) fn text_eq(a: &str, b: &str) -> (r: bool)
    ensures
        r == (a@ == b@),
{
    a == b
}

} // verus!
