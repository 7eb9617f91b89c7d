use amr_backend::asset_manager::config::{AppConfig as AssetConfig, AssetManagerEnv};
use amr_backend::config::{AppConfig, BackendEnv};

fn backend_env(db: Option<&str>, exp: Option<&str>, port: Option<&str>) -> BackendEnv {
    BackendEnv {
        database_url: db.map(|s| s.to_string()),
        redis_url: None,
        jwt_secret: None,
        jwt_expiration_secs: exp.map(|s| s.to_string()),
        port: port.map(|s| s.to_string()),
        grpc_sim_engine_url: None,
        grpc_asset_manager_url: None,
        grpc_map_manager_url: None,
        sim_telemetry_addr: None,
        sim_command_addr: Some("sim:9000".to_string()),
    }
}

#[test]
fn backend_defaults() {
    let c = AppConfig::from_values(backend_env(Some("postgres://db"), None, None)).unwrap();
    assert_eq!(c.database_url, "postgres://db");
    assert_eq!(c.redis_url, "redis://localhost:6379");
    assert_eq!(c.jwt_secret, "dev-secret-change-in-production");
    assert_eq!(c.jwt_expiration_secs, 3600);
    assert_eq!(c.port, 8080);
    assert_eq!(c.grpc_sim_engine_url, "http://localhost:50051");
    assert_eq!(c.grpc_asset_manager_url, "http://localhost:50052");
    assert_eq!(c.grpc_map_manager_url, "http://localhost:50053");
    assert_eq!(c.sim_telemetry_addr, "localhost:50051");
    assert_eq!(c.sim_command_addr, "sim:9000");
}

#[test]
fn backend_errors_in_order() {
    let e = AppConfig::from_values(backend_env(None, Some("x"), Some("y"))).unwrap_err();
    assert_eq!(e.message, "DATABASE_URL must be set");
    let e = AppConfig::from_values(backend_env(Some("d"), Some("soon"), Some("y"))).unwrap_err();
    assert_eq!(e.message, "JWT_EXPIRATION_SECS must be a number");
    let e = AppConfig::from_values(backend_env(Some("d"), Some("60"), Some("70000"))).unwrap_err();
    assert_eq!(e.message, "PORT must be a number");
    let c = AppConfig::from_values(backend_env(Some("d"), Some("60"), Some("+9090"))).unwrap();
    assert_eq!((c.jwt_expiration_secs, c.port), (60, 9090));
}

#[test]
fn asset_manager_config() {
    let env = AssetManagerEnv {
        database_url: Some("postgres://a".to_string()),
        minio_endpoint: None,
        minio_access_key: None,
        minio_secret_key: Some("s3cr3t".to_string()),
        minio_bucket: None,
        grpc_port: None,
    };
    let c = AssetConfig::from_values(env).unwrap();
    assert_eq!(c.minio_endpoint, "http://localhost:9000");
    assert_eq!(c.minio_access_key, "minioadmin");
    assert_eq!(c.minio_secret_key, "s3cr3t");
    assert_eq!(c.minio_bucket, "assets");
    assert_eq!(c.grpc_port, 50052);
    let bad = AssetManagerEnv {
        database_url: Some("postgres://a".to_string()),
        minio_endpoint: None,
        minio_access_key: None,
        minio_secret_key: None,
        minio_bucket: None,
        grpc_port: Some("port".to_string()),
    };
    assert_eq!(AssetConfig::from_values(bad).unwrap_err().message, "GRPC_PORT must be a valid port number");
}
