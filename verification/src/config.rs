//! Backend configuration, read from environment variables.
//!
//! Every setting but `DATABASE_URL` has a default; numeric settings must be
//! decimal numbers in range.

use vstd::prelude::*;

use crate::text::{
    all_decimal_digits, decimal_value, lemma_parse_decimal_digits, parse_unsigned, parse_unsigned_spec,
};
use vstd::string::*;

verus! {

/// The text of a setting, or `default` when the variable is unset.
pub open spec fn setting_or(v: Option<String>, default: Seq<char>) -> Seq<char> {
    match v {
        Some(s) => s@,
        None => default,
    }
}

/// The value of a setting, or `default` when the variable is unset.
pub fn value_or(v: Option<String>, default: &str) -> (r: String)
    ensures
        r@ == setting_or(v, default@),
{
    match v {
        Some(s) => s,
        None => default.to_owned(),
    }
}

/// A configuration that cannot be used, with the reason.
#[derive(Debug, Clone, PartialEq, Eq)]
pub struct ConfigError {
    /// What is wrong.
    pub message: String,
}

/// Settings of the backend service.
#[derive(Debug, Clone)]
pub struct AppConfig {
    pub database_url: String,
    pub redis_url: String,
    pub jwt_secret: String,
    pub jwt_expiration_secs: u64,
    pub port: u16,
    pub grpc_sim_engine_url: String,
    pub grpc_asset_manager_url: String,
    pub grpc_map_manager_url: String,
    /// Address of the Sim Engine telemetry port.
    pub sim_telemetry_addr: String,
    /// Address of the Sim Engine command port.
    pub sim_command_addr: String,
}

/// The values of the backend's environment variables, each `None` when the
/// variable is unset (or not valid Unicode).
pub struct BackendEnv {
    /// `DATABASE_URL`
    pub database_url: Option<String>,
    /// `REDIS_URL`
    pub redis_url: Option<String>,
    /// `JWT_SECRET`
    pub jwt_secret: Option<String>,
    /// `JWT_EXPIRATION_SECS`
    pub jwt_expiration_secs: Option<String>,
    /// `PORT`
    pub port: Option<String>,
    /// `GRPC_SIM_ENGINE_URL`
    pub grpc_sim_engine_url: Option<String>,
    /// `GRPC_ASSET_MANAGER_URL`
    pub grpc_asset_manager_url: Option<String>,
    /// `GRPC_MAP_MANAGER_URL`
    pub grpc_map_manager_url: Option<String>,
    /// `SIM_TELEMETRY_ADDR`
    pub sim_telemetry_addr: Option<String>,
    /// `SIM_COMMAND_ADDR`
    pub sim_command_addr: Option<String>,
}

/// The expiration setting, read as a number.
pub open spec fn expiration_setting(env: BackendEnv) -> Option<nat> {
    parse_unsigned_spec(setting_or(env.jwt_expiration_secs, "3600"@), u64::MAX as nat)
}

/// The port setting, read as a number.
pub open spec fn port_setting(env: BackendEnv) -> Option<nat> {
    parse_unsigned_spec(setting_or(env.port, "8080"@), u16::MAX as nat)
}

impl AppConfig {
    /// Builds the configuration from the environment's values: a missing
    /// `DATABASE_URL` is refused first, then a `JWT_EXPIRATION_SECS` that is not
    /// a `u64`, then a `PORT` that is not a `u16`; unset settings take their
    /// defaults.
    pub fn from_values(env: BackendEnv) -> (r: Result<AppConfig, ConfigError>)
        ensures
            env.database_url is None ==> (r matches Err(e) && e.message@
                == "DATABASE_URL must be set"@),
            env.database_url is Some && expiration_setting(env) is None ==> (r matches Err(e)
                && e.message@ == "JWT_EXPIRATION_SECS must be a number"@),
            env.database_url is Some && expiration_setting(env) is Some && port_setting(env) is None
                ==> (r matches Err(e) && e.message@ == "PORT must be a number"@),
            r is Ok <==> env.database_url is Some && expiration_setting(env) is Some
                && port_setting(env) is Some,
            r matches Ok(c) ==> {
                &&& c.database_url@ == setting_or(env.database_url, Seq::empty())
                &&& c.redis_url@ == setting_or(env.redis_url, "redis://localhost:6379"@)
                &&& c.jwt_secret@ == setting_or(env.jwt_secret, "dev-secret-change-in-production"@)
                &&& Some(c.jwt_expiration_secs as nat) == expiration_setting(env)
                &&& Some(c.port as nat) == port_setting(env)
                &&& c.grpc_sim_engine_url@ == setting_or(
                    env.grpc_sim_engine_url,
                    "http://localhost:50051"@,
                )
                &&& c.grpc_asset_manager_url@ == setting_or(
                    env.grpc_asset_manager_url,
                    "http://localhost:50052"@,
                )
                &&& c.grpc_map_manager_url@ == setting_or(
                    env.grpc_map_manager_url,
                    "http://localhost:50053"@,
                )
                &&& c.sim_telemetry_addr@ == setting_or(env.sim_telemetry_addr, "localhost:50051"@)
                &&& c.sim_command_addr@ == setting_or(env.sim_command_addr, "localhost:50052"@)
            },
    {
        let ghost e0 = env;
        let BackendEnv {
            database_url,
            redis_url,
            jwt_secret,
            jwt_expiration_secs,
            port,
            grpc_sim_engine_url,
            grpc_asset_manager_url,
            grpc_map_manager_url,
            sim_telemetry_addr,
            sim_command_addr,
        } = env;
        let database_url = match database_url {
            Some(u) => u,
            None => {
                return Err(ConfigError { message: String::from_str("DATABASE_URL must be set") });
            },
        };
        let redis_url = value_or(redis_url, "redis://localhost:6379");
        let jwt_secret = value_or(jwt_secret, "dev-secret-change-in-production");
        let expiration_text = value_or(jwt_expiration_secs, "3600");
        let jwt_expiration_secs = match parse_unsigned(expiration_text.as_str(), u64::MAX) {
            Some(v) => v,
            None => {
                return Err(
                    ConfigError { message: String::from_str("JWT_EXPIRATION_SECS must be a number") },
                );
            },
        };
        let port_text = value_or(port, "8080");
        let port: u16 = match parse_unsigned(port_text.as_str(), 65535) {
            Some(v) => v as u16,
            None => {
                return Err(ConfigError { message: String::from_str("PORT must be a number") });
            },
        };
        let grpc_sim_engine_url = value_or(grpc_sim_engine_url, "http://localhost:50051");
        let grpc_asset_manager_url = value_or(grpc_asset_manager_url, "http://localhost:50052");
        let grpc_map_manager_url = value_or(grpc_map_manager_url, "http://localhost:50053");
        let sim_telemetry_addr = value_or(sim_telemetry_addr, "localhost:50051");
        let sim_command_addr = value_or(sim_command_addr, "localhost:50052");
        Ok(AppConfig {
            database_url,
            redis_url,
            jwt_secret,
            jwt_expiration_secs,
            port,
            grpc_sim_engine_url,
            grpc_asset_manager_url,
            grpc_map_manager_url,
            sim_telemetry_addr,
            sim_command_addr,
        })
    }
}

/// `PORT` is read as a `u16`: every decimal text of a value up to 65535 is
/// taken as that port, a larger value is refused, and 8080 is used when the
/// variable is unset.
pub proof fn lemma_port_setting(env: BackendEnv)
    ensures
        env.port matches Some(p) ==> (p@.len() > 0 && all_decimal_digits(p@) && decimal_value(p@)
            <= 65535 ==> port_setting(env) == Some(decimal_value(p@))),
        env.port matches Some(p) ==> (p@.len() > 0 && all_decimal_digits(p@) && decimal_value(p@)
            > 65535 ==> port_setting(env) is None),
        env.port is None ==> port_setting(env) == Some(8080nat),
{
    match env.port {
        Some(p) => {
            if p@.len() > 0 && all_decimal_digits(p@) {
                lemma_parse_decimal_digits(p@, u16::MAX as nat);
            }
        },
        None => {
            lemma_decimal_literal_8080();
        },
    }
}

proof fn lemma_decimal_literal_8080()
    ensures
        "8080"@.len() > 0,
        all_decimal_digits("8080"@),
        decimal_value("8080"@) == 8080,
{
    reveal_strlit("8080");
    reveal_with_fuel(decimal_value, 5);
    let s = "8080"@;
    assert(s.drop_last().drop_last().drop_last().drop_last() =~= Seq::<char>::empty());
    lemma_parse_decimal_digits(s, u16::MAX as nat);
}

/// `JWT_EXPIRATION_SECS` is read as a `u64`: every decimal text of a value
/// up to `u64::MAX` is taken as that number of seconds, a larger value is
/// refused, and 3600 is used when the variable is unset.
pub proof fn lemma_expiration_setting(env: BackendEnv)
    ensures
        env.jwt_expiration_secs matches Some(p) ==> (p@.len() > 0 && all_decimal_digits(p@)
            && decimal_value(p@) <= u64::MAX ==> expiration_setting(env) == Some(decimal_value(p@))),
        env.jwt_expiration_secs matches Some(p) ==> (p@.len() > 0 && all_decimal_digits(p@)
            && decimal_value(p@) > u64::MAX ==> expiration_setting(env) is None),
        env.jwt_expiration_secs is None ==> expiration_setting(env) == Some(3600nat),
{
    match env.jwt_expiration_secs {
        Some(p) => {
            if p@.len() > 0 && all_decimal_digits(p@) {
                lemma_parse_decimal_digits(p@, u64::MAX as nat);
            }
        },
        None => {
            reveal_strlit("3600");
            reveal_with_fuel(decimal_value, 5);
            let s = "3600"@;
            assert(s.drop_last().drop_last().drop_last().drop_last() =~= Seq::<char>::empty());
            lemma_parse_decimal_digits(s, u64::MAX as nat);
        },
    }
}

} // verus!
