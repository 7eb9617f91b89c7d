use amr_backend::api::handlers::assets::{asset_model_path, asset_not_found, list_assets};
use amr_backend::api::handlers::maps::{MapFields, UpdateMapRequest};
use amr_backend::api::handlers::missions::ListMissionsQuery;
use amr_backend::api::handlers::robots::{RobotFields, UpdateRobotRequest};
use amr_backend::api::handlers::sim::{command_failed, CommandResponse};
use amr_backend::api::handlers::tiles::{default_direction, default_node_type, get_tile, is_bidirectional};
use amr_backend::error::{not_found, require_deleted, require_found, AppError};
use amr_backend::grpc::sim_client::{frame_command, telemetry_line, SimEngineClient};
use amr_backend::grpc::telemetry::telemetry_topic;
use amr_backend::map_manager::storage::cache::MapCache;
use amr_backend::map_manager::storage::s3_tiles::{tile_key, tiles_prefix};

fn j(s: &str) -> serde_json::Value {
    serde_json::from_str(s).unwrap()
}

#[test]
fn catalogue_has_three_models() {
    let v = list_assets();
    let ids: Vec<&str> = v.iter().map(|a| a.id.as_str()).collect();
    assert_eq!(ids, ["default-amr", "forklift", "tugbot"]);
    assert_eq!(v[0].name, "Default AMR");
    assert!(v.iter().all(|a| a.format == "glb"));
}

#[test]
fn model_paths_refuse_traversal() {
    assert_eq!(asset_model_path("forklift").unwrap(), "static/models/forklift.glb");
    for bad in ["../etc", "a/b", "a\\b", "x..y"] {
        assert_eq!(asset_model_path(bad).unwrap_err(), AppError::Validation("Invalid asset id".to_string()));
    }
    assert_eq!(asset_not_found("x"), AppError::NotFound("Asset x not found".to_string()));
}

#[test]
fn mission_pages() {
    let q = ListMissionsQuery { status: None, page: None, limit: None };
    assert_eq!((q.page_number(), q.page_size()), (1, 50));
    let q = ListMissionsQuery { status: Some("created".to_string()), page: Some(-3), limit: Some(1000) };
    assert_eq!((q.page_number(), q.page_size()), (1, 200));
    let q = ListMissionsQuery { status: None, page: Some(4), limit: Some(10) };
    assert_eq!((q.page_number(), q.page_size()), (4, 10));
}

#[test]
fn partial_updates() {
    let m = UpdateMapRequest { name: None, version: Some(3), metadata: None }.apply(MapFields {
        name: "floor".to_string(),
        version: 1,
        metadata: j(r#"{"a": 1}"#),
    });
    assert_eq!((m.name.as_str(), m.version), ("floor", 3));
    assert_eq!(m.metadata, j(r#"{"a": 1}"#));
    let r = UpdateRobotRequest { name: Some("r2".to_string()), model_id: None, status: None, config: Some(j(r#"{}"#)) }
        .apply(RobotFields {
            name: "r1".to_string(),
            model_id: Some("tugbot".to_string()),
            status: "idle".to_string(),
            config: j(r#"{"speed": 1}"#),
        });
    assert_eq!(r.name, "r2");
    assert_eq!(r.model_id.as_deref(), Some("tugbot"));
    assert_eq!(r.status, "idle");
    assert_eq!(r.config, j(r#"{}"#));
}

#[test]
fn record_lookups() {
    let id = 0x67e5504410b1426f9247bb680e5fe0c8u128;
    assert_eq!(not_found("Robot", id), AppError::NotFound("Robot 67e55044-10b1-426f-9247-bb680e5fe0c8 not found".to_string()));
    assert_eq!(require_found(Some(5), "Map", id).unwrap(), 5);
    assert!(matches!(require_found::<i32>(None, "Map", id), Err(AppError::NotFound(m)) if m.starts_with("Map 67e55044")));
    assert!(require_deleted(1, "Edge", id).is_ok());
    assert_eq!(require_deleted(0, "Node", 0).unwrap_err(), AppError::NotFound("Node 00000000-0000-0000-0000-000000000000 not found".to_string()));
}

#[test]
fn tiles_and_roadmap_defaults() {
    assert_eq!(default_node_type(), "waypoint");
    assert_eq!(default_direction(), "bi");
    assert!(is_bidirectional("bi") && !is_bidirectional("uni"));
    assert_eq!(
        get_tile("m1", "r0"),
        AppError::NotFound("Tile m1/r0 not yet available — point cloud tiles are not implemented in Phase 1".to_string())
    );
    assert_eq!(tiles_prefix(1), "tiles/00000000-0000-0000-0000-000000000001/");
    assert_eq!(tile_key(1, "r01"), "tiles/00000000-0000-0000-0000-000000000001/r01");
    let _ = MapCache::new();
    let _ = MapCache::default();
}

#[test]
fn sim_engine_link() {
    let c = SimEngineClient::new("localhost:50051".to_string(), "localhost:50052".to_string());
    assert_eq!((c.telemetry_addr(), c.command_addr()), ("localhost:50051", "localhost:50052"));
    assert_eq!(telemetry_line("  {\"robot_id\":\"r1\"}\n"), Some("{\"robot_id\":\"r1\"}".to_string()));
    assert_eq!(telemetry_line(" \t\r\n"), None);
    assert_eq!(frame_command(b"{}".to_vec()), b"{}\n".to_vec());
    assert_eq!(telemetry_topic("r1"), "telemetry:r1");
    assert_eq!(CommandResponse::sent().status, "sent");
    assert_eq!(command_failed("refused"), AppError::Internal("Failed to send command to sim engine: refused".to_string()));
}
