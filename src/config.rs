//! Configuration records and their documented defaults.
use vstd::prelude::*;

use crate::text::{decimal, push_all, push_decimal};
use vstd::string::StringExecFns;

verus! {

/// The HMAC signing algorithms that tokens can be issued with.
#[derive(Debug, Clone, Copy, PartialEq, Eq, Structural)]
pub enum HmacAlgorithm {
    HS256,
    HS384,
    HS512,
}

pub const DEFAULT_JWT_SECRET: &'static str = "default_secret";
pub const DEFAULT_JWT_EXPIRATION: u64 = 3600;
pub const DEFAULT_JWT_LEEWAY: u64 = 60;
/// The largest grace window for expired tokens: one day.
pub const MAX_JWT_LEEWAY: u64 = 86400;

/// Token settings: signing secret, algorithm, lifetime and grace window, in
/// seconds.
pub struct JwtConfig {
    pub secret: Option<String>,
    pub algorithm: Option<HmacAlgorithm>,
    pub expiration: Option<u64>,
    pub leeway: Option<u64>,
}

impl JwtConfig {
    pub open spec fn secret_spec(&self) -> Seq<char> {
        match self.secret {
            Some(s) => s@,
            None => DEFAULT_JWT_SECRET@,
        }
    }

    pub open spec fn algorithm_spec(&self) -> HmacAlgorithm {
        match self.algorithm {
            Some(a) => a,
            None => HmacAlgorithm::HS256,
        }
    }

    pub open spec fn expiration_spec(&self) -> u64 {
        match self.expiration {
            Some(e) => e,
            None => DEFAULT_JWT_EXPIRATION,
        }
    }

    pub open spec fn leeway_spec(&self) -> u64 {
        match self.leeway {
            Some(l) => if l <= MAX_JWT_LEEWAY {
                l
            } else {
                MAX_JWT_LEEWAY
            },
            None => DEFAULT_JWT_LEEWAY,
        }
    }

    /// The signing secret, `"default_secret"` when none is configured.
    pub fn secret(&self) -> (r: &str)
        ensures
            r@ == self.secret_spec(),
    {
        match &self.secret {
            Some(s) => s.as_str(),
            None => DEFAULT_JWT_SECRET,
        }
    }

    /// The signing algorithm, HS256 when none is configured.
    pub fn algorithm(&self) -> (r: HmacAlgorithm)
        ensures
            r == self.algorithm_spec(),
    {
        match self.algorithm {
            Some(a) => a,
            None => HmacAlgorithm::HS256,
        }
    }

    /// The token lifetime, an hour when none is configured.
    pub fn expiration(&self) -> (r: u64)
        ensures
            r == self.expiration_spec(),
    {
        match self.expiration {
            Some(e) => e,
            None => DEFAULT_JWT_EXPIRATION,
        }
    }

    /// The grace window after expiry, a minute when none is configured and a
    /// day at most.
    pub fn leeway(&self) -> (r: u64)
        ensures
            r == self.leeway_spec(),
            r <= MAX_JWT_LEEWAY,
    {
        match self.leeway {
            Some(l) => if l <= MAX_JWT_LEEWAY {
                l
            } else {
                MAX_JWT_LEEWAY
            },
            None => DEFAULT_JWT_LEEWAY,
        }
    }
}

pub const DEFAULT_DB_HOST: &'static str = "127.0.0.1";
pub const DEFAULT_DB_PORT: u16 = 5432;
pub const DEFAULT_DB_USERNAME: &'static str = "postgres";
pub const DEFAULT_DB_PASSWORD: &'static str = "postgres";
pub const DEFAULT_DB_DATABASE: &'static str = "postgres";
pub const DEFAULT_DB_SCHEMA: &'static str = "public";

#[derive(Debug, Clone, Copy, PartialEq, Eq, Structural)]
pub enum DatabaseType {
    Postgres,
    Sqlite,
}

/// Where the record store lives, each part with its default.
#[derive(Debug)]
pub struct DataBaseConfig {
    pub db_type: DatabaseType,
    pub host: Option<String>,
    pub port: Option<u16>,
    pub username: Option<String>,
    pub password: Option<String>,
    pub database: Option<String>,
    pub schema: Option<String>,
}

/// `value`, or `default` when it is absent.
pub open spec fn or_default(value: Option<String>, default: &str) -> Seq<char> {
    match value {
        Some(s) => s@,
        None => default@,
    }
}

fn str_or<'a>(value: &'a Option<String>, default: &'static str) -> (r: &'a str)
    ensures
        r@ == or_default(*value, default),
{
    match value {
        Some(s) => s.as_str(),
        None => default,
    }
}

impl DataBaseConfig {
    pub fn get_type(&self) -> (r: &DatabaseType)
        ensures
            *r == self.db_type,
    {
        &self.db_type
    }

    pub fn host(&self) -> (r: &str)
        ensures
            r@ == or_default(self.host, DEFAULT_DB_HOST),
    {
        str_or(&self.host, DEFAULT_DB_HOST)
    }

    pub fn port(&self) -> (r: u16)
        ensures
            r == (match self.port {
                Some(p) => p,
                None => DEFAULT_DB_PORT,
            }),
    {
        match self.port {
            Some(p) => p,
            None => DEFAULT_DB_PORT,
        }
    }

    pub fn username(&self) -> (r: &str)
        ensures
            r@ == or_default(self.username, DEFAULT_DB_USERNAME),
    {
        str_or(&self.username, DEFAULT_DB_USERNAME)
    }

    pub fn password(&self) -> (r: &str)
        ensures
            r@ == or_default(self.password, DEFAULT_DB_PASSWORD),
    {
        str_or(&self.password, DEFAULT_DB_PASSWORD)
    }

    pub fn database(&self) -> (r: &str)
        ensures
            r@ == or_default(self.database, DEFAULT_DB_DATABASE),
    {
        str_or(&self.database, DEFAULT_DB_DATABASE)
    }

    pub fn schema(&self) -> (r: &str)
        ensures
            r@ == or_default(self.schema, DEFAULT_DB_SCHEMA),
    {
        str_or(&self.schema, DEFAULT_DB_SCHEMA)
    }
}

/// The connection URL of the record store: for Postgres
/// `postgres://{username}:{password}@{host}:{port}/{database}`, for SQLite
/// `sqlite:{database}?mode=rwc`.
pub open spec fn connection_url_of(c: &DataBaseConfig) -> Seq<char> {
    let port = match c.port {
        Some(p) => p,
        None => DEFAULT_DB_PORT,
    };
    match c.db_type {
        DatabaseType::Postgres => "postgres://"@ + or_default(c.username, DEFAULT_DB_USERNAME) + ":"@
            + or_default(c.password, DEFAULT_DB_PASSWORD) + "@"@ + or_default(c.host, DEFAULT_DB_HOST)
            + ":"@ + decimal(port as nat) + "/"@ + or_default(c.database, DEFAULT_DB_DATABASE),
        DatabaseType::Sqlite => "sqlite:"@ + or_default(c.database, DEFAULT_DB_DATABASE)
            + "?mode=rwc"@,
    }
}

impl DataBaseConfig {
    pub fn connection_url(&self) -> (r: String)
        ensures
            r@ == connection_url_of(self),
    {
        match self.db_type {
            DatabaseType::Postgres => {
                let mut r = String::from_str("postgres://");
                push_all(&mut r, self.username());
                push_all(&mut r, ":");
                push_all(&mut r, self.password());
                push_all(&mut r, "@");
                push_all(&mut r, self.host());
                push_all(&mut r, ":");
                push_decimal(&mut r, self.port() as u64);
                push_all(&mut r, "/");
                push_all(&mut r, self.database());
                r
            },
            DatabaseType::Sqlite => {
                let mut r = String::from_str("sqlite:");
                push_all(&mut r, self.database());
                push_all(&mut r, "?mode=rwc");
                r
            },
        }
    }
}

/// TLS settings: whether it is on, and the certificate and key files.
#[derive(Debug)]
pub struct SslConfig {
    pub enable: bool,
    pub cert_path: Option<String>,
    pub key_path: Option<String>,
}

impl SslConfig {
    pub fn enable(&self) -> (r: bool)
        ensures
            r == self.enable,
    {
        self.enable
    }

    pub fn cert_path(&self) -> (r: Option<&String>)
        ensures
            r == (match self.cert_path {
                Some(p) => Some(&p),
                None => None,
            }),
    {
        self.cert_path.as_ref()
    }

    pub fn key_path(&self) -> (r: Option<&String>)
        ensures
            r == (match self.key_path {
                Some(p) => Some(&p),
                None => None,
            }),
    {
        self.key_path.as_ref()
    }
}

/// Listener settings.
#[derive(Debug)]
pub struct ServerConfig {
    pub port: u16,
}

impl ServerConfig {
    pub fn port(&self) -> (r: u16)
        ensures
            r == self.port,
    {
        self.port
    }
}

/// All settings of the service.
pub struct AppConfig {
    pub auth: JwtConfig,
    pub server: ServerConfig,
    pub database: DataBaseConfig,
}

impl AppConfig {
    pub fn auth(&self) -> (r: &JwtConfig)
        ensures
            r == &self.auth,
    {
        &self.auth
    }

    pub fn server(&self) -> (r: &ServerConfig)
        ensures
            r == &self.server,
    {
        &self.server
    }

    pub fn database(&self) -> (r: &DataBaseConfig)
        ensures
            r == &self.database,
    {
        &self.database
    }
}

/// The HTTP server, with its listener settings.
pub struct Server {
    config: ServerConfig,
}

impl Server {
    pub closed spec fn config_spec(&self) -> ServerConfig {
        self.config
    }

    pub fn new(config: ServerConfig) -> (r: Server)
        ensures
            r.config_spec() == config,
    {
        Server { config }
    }

    /// The port to listen on.
    pub fn port(&self) -> (r: u16)
        ensures
            r == self.config_spec().port,
    {
        self.config.port
    }
}

} // verus!
