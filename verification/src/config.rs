//! Connection configuration: what identifies a connection, what only tunes a
//! pool, and what the driver is told.

use vstd::prelude::*;
use crate::error::{ErrorKind, MssqlError};
use crate::text::{decimal, lowercase, push_decimal, push_text, to_lowercase};

verus! {

/// A connection configuration as the host sends it.
#[derive(Debug)]
pub struct NormalizedConfig {
    pub server: String,
    pub port: u16,
    pub database: String,
    pub auth: AuthConfig,
    pub encrypt: bool,
    pub trust_server_certificate: bool,
    pub connect_timeout_ms: u64,
    pub request_timeout_ms: u64,
    pub app_name: String,
    pub instance_name: Option<String>,
    pub packet_size: u16,
    pub pool: Option<PoolConfig>,
}

/// How the connection authenticates, each method with the fields it needs.
#[derive(Debug)]
pub enum AuthConfig {
    Sql { username: String, password: String },
    Ntlm { username: String, password: String, domain: String },
    Windows,
    AzureAd { username: String, password: String },
    AzureAdToken { token: String },
}

/// Pool tuning. It does not identify a connection.
#[derive(Clone, Copy, Debug)]
pub struct PoolConfig {
    pub min: Option<u32>,
    pub max: Option<u32>,
    pub idle_timeout_ms: Option<u64>,
}

/// The credentials handed to the driver.
#[derive(Debug)]
pub enum Credentials {
    SqlServer { username: String, password: String },
    AzureToken { token: String },
}

/// What the driver is told about a connection. A field that is `None` is left
/// at the driver's default.
#[derive(Debug)]
pub struct ClientSettings {
    pub host: String,
    pub port: u16,
    pub credentials: Credentials,
    pub connect_timeout_ms: u64,
    pub command_timeout_ms: u64,
    pub application_name: String,
    pub trust_server_certificate: bool,
    pub encrypt: bool,
    pub database: Option<String>,
    pub instance: Option<String>,
    pub packet_size: Option<u16>,
}

/// What the pool is told. A field that is `None` is left at the pool's
/// default.
#[derive(Clone, Copy, Debug, PartialEq, Eq, Structural)]
pub struct PoolSettings {
    pub min_connections: Option<u32>,
    pub max_connections: Option<u32>,
    pub idle_timeout_ms: Option<u64>,
    pub connection_timeout_ms: u64,
}

/// The text of a boolean.
pub open spec fn bool_text(b: bool) -> Seq<char> {
    if b {
        "true"@
    } else {
        "false"@
    }
}

/// The part of the identity key that names the authentication method and the
/// principal. Secrets are not part of it.
pub open spec fn auth_key(auth: AuthConfig) -> Seq<char> {
    match auth {
        AuthConfig::Sql { username, password } => "sql|"@ + username@,
        AuthConfig::Ntlm { username, password, domain } => "ntlm|"@ + domain@ + "|"@ + username@,
        AuthConfig::Windows => "windows"@,
        AuthConfig::AzureAd { username, password } => "azure_ad|"@ + username@,
        AuthConfig::AzureAdToken { token } => "azure_ad_token"@,
    }
}

/// The text of an optional instance name: empty where there is none.
pub open spec fn instance_text(instance: Option<String>) -> Seq<char> {
    match instance {
        Some(name) => name@,
        None => Seq::empty(),
    }
}

/// What follows the server name in the identity key.
pub open spec fn identity_tail(c: NormalizedConfig) -> Seq<char> {
    "|"@ + decimal(c.port as nat) + "|"@ + lowercase(c.database@) + "|"@ + auth_key(c.auth) + "|"@
        + bool_text(c.encrypt) + "|"@ + bool_text(c.trust_server_certificate) + "|"@ + lowercase(
        instance_text(c.instance_name),
    ) + "|"@ + c.app_name@ + "|"@ + decimal(c.packet_size as nat)
}

/// The identity key of a configuration: server, port, database, authentication
/// method and principal, encryption flags, instance, application name and
/// packet size, separated by bars. Server, database and instance are taken in
/// lower case. Pool tuning and timeouts are not part of it.
pub open spec fn identity_key(c: NormalizedConfig) -> Seq<char> {
    lowercase(c.server@) + identity_tail(c)
}

/// Whether two configurations agree in everything that the identity key reads
/// after the server name.
pub open spec fn same_identity_but_server(a: NormalizedConfig, b: NormalizedConfig) -> bool {
    &&& a.port == b.port
    &&& a.database@ == b.database@
    &&& auth_key(a.auth) == auth_key(b.auth)
    &&& a.encrypt == b.encrypt
    &&& a.trust_server_certificate == b.trust_server_certificate
    &&& instance_text(a.instance_name) == instance_text(b.instance_name)
    &&& a.app_name@ == b.app_name@
    &&& a.packet_size == b.packet_size
}

/// Two configurations that differ only in pool tuning and timeouts, and in
/// the case of the server name, have the same identity key.
pub proof fn lemma_key_ignores_tuning(a: NormalizedConfig, b: NormalizedConfig)
    requires
        lowercase(a.server@) == lowercase(b.server@),
        same_identity_but_server(a, b),
    ensures
        identity_key(a) == identity_key(b),
{
}

/// Two configurations whose server names differ even in lower case, and that
/// agree in everything else, have different identity keys.
pub proof fn lemma_key_tells_servers_apart(a: NormalizedConfig, b: NormalizedConfig)
    requires
        lowercase(a.server@) != lowercase(b.server@),
        same_identity_but_server(a, b),
    ensures
        identity_key(a) != identity_key(b),
{
    let x = lowercase(a.server@);
    let y = lowercase(b.server@);
    let tail = identity_tail(a);
    assert(identity_tail(b) == tail);
    if x + tail == y + tail {
        assert(x.len() == y.len()) by {
            assert((x + tail).len() == x.len() + tail.len());
            assert((y + tail).len() == y.len() + tail.len());
        }
        assert forall|i: int| 0 <= i < x.len() implies x[i] == y[i] by {
            assert((x + tail)[i] == x[i]);
            assert((y + tail)[i] == y[i]);
        }
        assert(x =~= y);
    }
}

fn push_bool(out: &mut String, b: bool)
    ensures
        final(out)@ == old(out)@ + bool_text(b),
{
    if b {
        push_text(out, "true");
    } else {
        push_text(out, "false");
    }
}

fn push_auth_key(out: &mut String, auth: &AuthConfig)
    ensures
        final(out)@ == old(out)@ + auth_key(*auth),
{
    match auth {
        AuthConfig::Sql { username, password } => {
            push_text(out, "sql|");
            push_text(out, username.as_str());
            assert(out@ == old(out)@ + auth_key(*auth));
        },
        AuthConfig::Ntlm { username, password, domain } => {
            push_text(out, "ntlm|");
            push_text(out, domain.as_str());
            push_text(out, "|");
            push_text(out, username.as_str());
            assert(out@ == old(out)@ + auth_key(*auth));
        },
        AuthConfig::Windows => {
            push_text(out, "windows");
        },
        AuthConfig::AzureAd { username, password } => {
            push_text(out, "azure_ad|");
            push_text(out, username.as_str());
            assert(out@ == old(out)@ + auth_key(*auth));
        },
        AuthConfig::AzureAdToken { token } => {
            push_text(out, "azure_ad_token");
        },
    }
}

/// Message for Windows authentication, which the driver does not offer.
pub open spec fn windows_auth_message(on_windows: bool) -> Seq<char> {
    if on_windows {
        "Windows authentication not yet supported in mssql-client driver"@
    } else {
        "Windows authentication is only available on Windows"@
    }
}

/// The credentials for an authentication method, where the driver offers it.
/// NTLM names the user as `domain\user`; Azure AD with a password is handed
/// over as a SQL login.
pub open spec fn credentials_of(auth: AuthConfig) -> Option<(bool, Seq<char>, Seq<char>)> {
    match auth {
        AuthConfig::Sql { username, password } => Some((false, username@, password@)),
        AuthConfig::Ntlm { username, password, domain } => Some(
            (false, domain@ + seq!['\\'] + username@, password@),
        ),
        AuthConfig::Windows => None,
        AuthConfig::AzureAd { username, password } => Some((false, username@, password@)),
        AuthConfig::AzureAdToken { token } => Some((true, token@, Seq::empty())),
    }
}

impl Credentials {
    /// Whether these are a token, then the user name or the token, then the
    /// password.
    pub open spec fn view(&self) -> (bool, Seq<char>, Seq<char>) {
        match self {
            Credentials::SqlServer { username, password } => (false, username@, password@),
            Credentials::AzureToken { token } => (true, token@, Seq::empty()),
        }
    }
}

impl NormalizedConfig {
    fn identity_tail_text(&self) -> (tail: String)
        ensures
            tail@ == identity_tail(*self),
    {
        let mut tail = String::from_str("|");
        push_decimal(&mut tail, self.port as u128);
        push_text(&mut tail, "|");
        let database = to_lowercase(self.database.as_str());
        push_text(&mut tail, database.as_str());
        push_text(&mut tail, "|");
        push_auth_key(&mut tail, &self.auth);
        push_text(&mut tail, "|");
        push_bool(&mut tail, self.encrypt);
        push_text(&mut tail, "|");
        push_bool(&mut tail, self.trust_server_certificate);
        push_text(&mut tail, "|");
        let instance = match &self.instance_name {
            Some(name) => to_lowercase(name.as_str()),
            None => {
                proof {
                    reveal_strlit("");
                    assert(""@ =~= Seq::<char>::empty());
                }
                to_lowercase("")
            },
        };
        push_text(&mut tail, instance.as_str());
        push_text(&mut tail, "|");
        push_text(&mut tail, self.app_name.as_str());
        push_text(&mut tail, "|");
        push_decimal(&mut tail, self.packet_size as u128);
        tail
    }

    /// The identity key, by which pools are shared: two configurations with
    /// the same key use one pool.
    pub fn dedup_key(&self) -> (key: String)
        ensures
            key@ == identity_key(*self),
    {
        let mut key = to_lowercase(self.server.as_str());
        let tail = self.identity_tail_text();
        push_text(&mut key, tail.as_str());
        key
    }

    /// The settings for the driver. Windows authentication is a configuration
    /// error, whose message depends on whether the host runs Windows. The
    /// database is named only where it is not empty, the packet size only
    /// where it is not zero.
    pub fn to_client_config(&self, on_windows: bool) -> (r: Result<ClientSettings, MssqlError>)
        ensures
            match r {
                Ok(s) => {
                    &&& credentials_of(self.auth) == Some(s.credentials.view())
                    &&& s.host@ == self.server@
                    &&& s.port == self.port
                    &&& s.connect_timeout_ms == self.connect_timeout_ms
                    &&& s.command_timeout_ms == self.request_timeout_ms
                    &&& s.application_name@ == self.app_name@
                    &&& s.trust_server_certificate == self.trust_server_certificate
                    &&& s.encrypt == self.encrypt
                    &&& match s.database {
                        Some(d) => self.database@.len() > 0 && d@ == self.database@,
                        None => self.database@.len() == 0,
                    }
                    &&& match s.instance {
                        Some(i) => self.instance_name matches Some(n) && i@ == n@,
                        None => self.instance_name is None,
                    }
                    &&& match s.packet_size {
                        Some(p) => self.packet_size > 0 && p == self.packet_size,
                        None => self.packet_size == 0,
                    }
                },
                Err(e) => self.auth is Windows && e.is(
                    ErrorKind::Config,
                    windows_auth_message(on_windows),
                ),
            },
    {
        let credentials = match &self.auth {
            AuthConfig::Sql { username, password } => Credentials::SqlServer {
                username: username.clone(),
                password: password.clone(),
            },
            AuthConfig::Ntlm { username, password, domain } => {
                let mut full_user = domain.clone();
                crate::text::push_char(&mut full_user, '\\');
                push_text(&mut full_user, username.as_str());
                assert(full_user@ =~= domain@ + seq!['\\'] + username@);
                Credentials::SqlServer { username: full_user, password: password.clone() }
            },
            AuthConfig::Windows => {
                if on_windows {
                    return Err(
                        MssqlError::Config(
                            String::from_str(
                                "Windows authentication not yet supported in mssql-client driver",
                            ),
                        ),
                    );
                } else {
                    return Err(
                        MssqlError::Config(
                            String::from_str("Windows authentication is only available on Windows"),
                        ),
                    );
                }
            },
            AuthConfig::AzureAd { username, password } => Credentials::SqlServer {
                username: username.clone(),
                password: password.clone(),
            },
            AuthConfig::AzureAdToken { token } => Credentials::AzureToken { token: token.clone() },
        };
        let database = if self.database.as_str().is_empty() {
            None
        } else {
            Some(self.database.clone())
        };
        let instance = match &self.instance_name {
            Some(name) => Some(name.clone()),
            None => None,
        };
        let packet_size = if self.packet_size > 0 {
            Some(self.packet_size)
        } else {
            None
        };
        Ok(
            ClientSettings {
                host: self.server.clone(),
                port: self.port,
                credentials,
                connect_timeout_ms: self.connect_timeout_ms,
                command_timeout_ms: self.request_timeout_ms,
                application_name: self.app_name.clone(),
                trust_server_certificate: self.trust_server_certificate,
                encrypt: self.encrypt,
                database,
                instance,
                packet_size,
            },
        )
    }

    /// The settings for the pool: the tuning that the configuration names,
    /// and the connect timeout as the time to wait for a connection.
    pub fn to_pool_config(&self) -> (s: PoolSettings)
        ensures
            s.connection_timeout_ms == self.connect_timeout_ms,
            match self.pool {
                Some(p) => s.min_connections == p.min && s.max_connections == p.max
                    && s.idle_timeout_ms == p.idle_timeout_ms,
                None => s.min_connections is None && s.max_connections is None
                    && s.idle_timeout_ms is None,
            },
    {
        match &self.pool {
            Some(p) => PoolSettings {
                min_connections: p.min,
                max_connections: p.max,
                idle_timeout_ms: p.idle_timeout_ms,
                connection_timeout_ms: self.connect_timeout_ms,
            },
            None => PoolSettings {
                min_connections: None,
                max_connections: None,
                idle_timeout_ms: None,
                connection_timeout_ms: self.connect_timeout_ms,
            },
        }
    }
}

} // verus!
