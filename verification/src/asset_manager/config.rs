//! Asset manager configuration, read from environment variables.

use vstd::prelude::*;

use crate::config::{setting_or, value_or, ConfigError};
use crate::text::{
    all_decimal_digits, decimal_value, lemma_parse_decimal_digits, parse_unsigned, parse_unsigned_spec,
};
use vstd::string::*;

verus! {

/// Settings of the asset manager service.
#[derive(Debug, Clone)]
pub struct AppConfig {
    pub database_url: String,
    pub minio_endpoint: String,
    pub minio_access_key: String,
    pub minio_secret_key: String,
    pub minio_bucket: String,
    pub grpc_port: u16,
}

/// The values of the asset manager's environment variables, each `None`
/// when the variable is unset (or not valid Unicode).
pub struct AssetManagerEnv {
    /// `DATABASE_URL`
    pub database_url: Option<String>,
    /// `MINIO_ENDPOINT`
    pub minio_endpoint: Option<String>,
    /// `MINIO_ACCESS_KEY`
    pub minio_access_key: Option<String>,
    /// `MINIO_SECRET_KEY`
    pub minio_secret_key: Option<String>,
    /// `MINIO_BUCKET`
    pub minio_bucket: Option<String>,
    /// `GRPC_PORT`
    pub grpc_port: Option<String>,
}

/// The gRPC port setting, read as a number.
pub open spec fn grpc_port_setting(env: AssetManagerEnv) -> Option<nat> {
    parse_unsigned_spec(setting_or(env.grpc_port, "50052"@), u16::MAX as nat)
}

impl AppConfig {
    /// Builds the configuration from the environment's values: a missing
    /// `DATABASE_URL` is refused first, then a `GRPC_PORT` that is not a `u16`;
    /// unset settings take their defaults.
    pub fn from_values(env: AssetManagerEnv) -> (r: Result<AppConfig, ConfigError>)
        ensures
            env.database_url is None ==> (r matches Err(e) && e.message@
                == "DATABASE_URL must be set"@),
            env.database_url is Some && grpc_port_setting(env) is None ==> (r matches Err(e)
                && e.message@ == "GRPC_PORT must be a valid port number"@),
            r is Ok <==> env.database_url is Some && grpc_port_setting(env) is Some,
            r matches Ok(c) ==> {
                &&& c.database_url@ == setting_or(env.database_url, Seq::empty())
                &&& c.minio_endpoint@ == setting_or(env.minio_endpoint, "http://localhost:9000"@)
                &&& c.minio_access_key@ == setting_or(env.minio_access_key, "minioadmin"@)
                &&& c.minio_secret_key@ == setting_or(env.minio_secret_key, "minioadmin"@)
                &&& c.minio_bucket@ == setting_or(env.minio_bucket, "assets"@)
                &&& Some(c.grpc_port as nat) == grpc_port_setting(env)
            },
    {
        let AssetManagerEnv {
            database_url,
            minio_endpoint,
            minio_access_key,
            minio_secret_key,
            minio_bucket,
            grpc_port,
        } = env;
        let database_url = match database_url {
            Some(u) => u,
            None => {
                return Err(ConfigError { message: String::from_str("DATABASE_URL must be set") });
            },
        };
        let minio_endpoint = value_or(minio_endpoint, "http://localhost:9000");
        let minio_access_key = value_or(minio_access_key, "minioadmin");
        let minio_secret_key = value_or(minio_secret_key, "minioadmin");
        let minio_bucket = value_or(minio_bucket, "assets");
        let port_text = value_or(grpc_port, "50052");
        let grpc_port: u16 = match parse_unsigned(port_text.as_str(), 65535) {
            Some(v) => v as u16,
            None => {
                return Err(
                    ConfigError {
                        message: String::from_str("GRPC_PORT must be a valid port number"),
                    },
                );
            },
        };
        Ok(AppConfig {
            database_url,
            minio_endpoint,
            minio_access_key,
            minio_secret_key,
            minio_bucket,
            grpc_port,
        })
    }
}

/// `GRPC_PORT` is read as a `u16`: every decimal text of a value up to
/// 65535 is taken as that port, a larger value is refused, and 50052 is used
/// when the variable is unset.
pub proof fn lemma_grpc_port_setting(env: AssetManagerEnv)
    ensures
        env.grpc_port matches Some(p) ==> (p@.len() > 0 && all_decimal_digits(p@)
            && decimal_value(p@) <= 65535 ==> grpc_port_setting(env) == Some(decimal_value(p@))),
        env.grpc_port matches Some(p) ==> (p@.len() > 0 && all_decimal_digits(p@)
            && decimal_value(p@) > 65535 ==> grpc_port_setting(env) is None),
        env.grpc_port is None ==> grpc_port_setting(env) == Some(50052nat),
{
    match env.grpc_port {
        Some(p) => {
            if p@.len() > 0 && all_decimal_digits(p@) {
                lemma_parse_decimal_digits(p@, u16::MAX as nat);
            }
        },
        None => {
            reveal_strlit("50052");
            reveal_with_fuel(decimal_value, 6);
            let s = "50052"@;
            assert(s.drop_last().drop_last().drop_last().drop_last().drop_last() =~= Seq::<
                char,
            >::empty());
            lemma_parse_decimal_digits(s, u16::MAX as nat);
        },
    }
}

} // verus!
