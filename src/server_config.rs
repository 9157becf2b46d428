//! The server's settings, read from its environment.
use vstd::prelude::*;
use vstd::string::*;

use crate::decimal::{decimal_u16, parse_u16};

verus! {

/// `4000`
pub open spec fn default_port_text() -> Seq<char> {
    seq!['4', '0', '0', '0']
}

/// `50051`
pub open spec fn default_grpc_port_text() -> Seq<char> {
    seq!['5', '0', '0', '5', '1']
}

/// `info`
pub open spec fn default_log_filter() -> Seq<char> {
    seq!['i', 'n', 'f', 'o']
}

/// Why the server's settings are unusable.
#[derive(PartialEq, Eq, Structural, Clone, Copy, Debug)]
pub enum ServerConfigError {
    /// No database URL is set.
    MissingDatabaseUrl,
    /// The HTTP port is not a valid port number.
    InvalidPort,
    /// The RPC port is not a valid port number.
    InvalidGrpcPort,
}

/// The server's settings.
#[derive(Debug)]
pub struct Config {
    pub database_url: String,
    pub port: u16,
    pub grpc_port: u16,
    pub rust_log: String,
}

/// The port that a setting names, or the default's when it is not set.
pub open spec fn port_setting(value: Option<String>, default: Seq<char>) -> Option<u16> {
    match value {
        Some(v) => decimal_u16(v@),
        None => decimal_u16(default),
    }
}

fn read_port(value: &Option<String>, default: &str) -> (r: Option<u16>)
    ensures
        r == port_setting(*value, default@),
{
    match value {
        Some(v) => parse_u16(v.as_str()),
        None => parse_u16(default),
    }
}

impl Config {
    /// The settings from the values of the server's environment variables:
    /// the database URL (required), the HTTP and RPC ports (4000 and 50051 when
    /// unset) and the log filter (`info` when unset).
    pub fn from_env(
        database_url: Option<String>,
        port: Option<String>,
        grpc_port: Option<String>,
        rust_log: Option<String>,
    ) -> (r: Result<Config, ServerConfigError>)
        ensures
            database_url is None ==> r == Err::<Config, ServerConfigError>(
                ServerConfigError::MissingDatabaseUrl,
            ),
            database_url is Some && port_setting(port, default_port_text()) is None ==> r == Err::<
                Config,
                ServerConfigError,
            >(ServerConfigError::InvalidPort),
            database_url is Some && port_setting(port, default_port_text()) is Some && port_setting(
                grpc_port,
                default_grpc_port_text(),
            ) is None ==> r == Err::<Config, ServerConfigError>(ServerConfigError::InvalidGrpcPort),
            database_url is Some && port_setting(port, default_port_text()) is Some && port_setting(
                grpc_port,
                default_grpc_port_text(),
            ) is Some ==> r is Ok,
            r is Ok ==> database_url is Some && r->Ok_0.database_url@ == database_url->0@
                && Some(r->Ok_0.port) == port_setting(port, default_port_text()) && Some(
                r->Ok_0.grpc_port,
            ) == port_setting(grpc_port, default_grpc_port_text()) && r->Ok_0.rust_log@ == match rust_log {
                Some(l) => l@,
                None => default_log_filter(),
            },
    {
        let default_port = "4000";
        let default_grpc_port = "50051";
        let default_log = "info";
        proof {
            reveal_strlit("4000");
            reveal_strlit("50051");
            reveal_strlit("info");
        }
        assert(default_port@ =~= default_port_text());
        assert(default_grpc_port@ =~= default_grpc_port_text());
        assert(default_log@ =~= default_log_filter());
        let database_url = match database_url {
            Some(u) => u,
            None => {
                return Err(ServerConfigError::MissingDatabaseUrl);
            },
        };
        let port = match read_port(&port, default_port) {
            Some(p) => p,
            None => {
                return Err(ServerConfigError::InvalidPort);
            },
        };
        let grpc_port = match read_port(&grpc_port, default_grpc_port) {
            Some(p) => p,
            None => {
                return Err(ServerConfigError::InvalidGrpcPort);
            },
        };
        let rust_log = match rust_log {
            Some(l) => l,
            None => String::from_str(default_log),
        };
        Ok(Config { database_url, port, grpc_port, rust_log })
    }
}

} // verus!
