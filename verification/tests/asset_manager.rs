use amr_backend::asset_manager::error::{deletion_result, DbFailure, GrpcCode, ServiceError};
use amr_backend::asset_manager::storage::metadata::{list_query, AssetFilter};
use amr_backend::asset_manager::storage::s3::etag_or_unknown;

#[test]
fn list_statement_without_filter() {
    let q = list_query(&AssetFilter::default());
    assert_eq!(q.sql, "SELECT * FROM assets WHERE 1=1 ORDER BY created_at DESC");
    assert!(q.args.is_empty());
}

#[test]
fn list_statement_numbers_its_arguments() {
    let f = AssetFilter { asset_type: Some("robot".to_string()), name_contains: Some("fork".to_string()), tags: None };
    let q = list_query(&f);
    assert_eq!(q.sql, "SELECT * FROM assets WHERE 1=1 AND asset_type = $1 AND name ILIKE $2 ORDER BY created_at DESC");
    assert_eq!(q.args, vec!["robot".to_string(), "%fork%".to_string()]);
    let f = AssetFilter { asset_type: None, name_contains: Some("tug".to_string()), tags: Some(vec!["x".to_string()]) };
    let q = list_query(&f);
    assert_eq!(q.sql, "SELECT * FROM assets WHERE 1=1 AND name ILIKE $1 AND $2 = ANY(tags) ORDER BY created_at DESC");
    assert_eq!(q.args, vec!["%tug%".to_string(), "x".to_string()]);
}

#[test]
fn list_statement_requires_every_tag() {
    let f = AssetFilter {
        asset_type: Some("robot".to_string()),
        name_contains: None,
        tags: Some(vec!["agv".to_string(), "lidar".to_string()]),
    };
    let q = list_query(&f);
    assert_eq!(
        q.sql,
        "SELECT * FROM assets WHERE 1=1 AND asset_type = $1 AND $2 = ANY(tags) AND $3 = ANY(tags) ORDER BY created_at DESC"
    );
    assert_eq!(q.args, vec!["robot".to_string(), "agv".to_string(), "lidar".to_string()]);
    let f = AssetFilter { asset_type: None, name_contains: None, tags: Some(vec![]) };
    let q = list_query(&f);
    assert_eq!(q.sql, "SELECT * FROM assets WHERE 1=1 ORDER BY created_at DESC");
    assert!(q.args.is_empty());
}

#[test]
fn errors_map_to_grpc_codes() {
    assert_eq!(ServiceError::NotFound("a".to_string()).into_status_parts(), (GrpcCode::NotFound, "a".to_string()));
    assert_eq!(ServiceError::Validation("b".to_string()).into_status_parts(), (GrpcCode::InvalidArgument, "b".to_string()));
    assert_eq!(ServiceError::StorageError("c".to_string()).into_status_parts(), (GrpcCode::Internal, "c".to_string()));
    assert_eq!(ServiceError::ConversionError("d".to_string()).into_status_parts().0, GrpcCode::Internal);
    assert_eq!(ServiceError::Internal("e".to_string()).into_status_parts().0, GrpcCode::Internal);
    assert_eq!(ServiceError::StorageError("S3 upload failed".to_string()).describe(), "Storage error: S3 upload failed");
    assert_eq!(ServiceError::NotFound("x".to_string()).describe(), "Not found: x");
}

#[test]
fn database_failures() {
    assert_eq!(ServiceError::from_db_failure(DbFailure::RowNotFound), ServiceError::NotFound("Record not found".to_string()));
    assert_eq!(ServiceError::from_db_failure(DbFailure::Other("pool timed out".to_string())), ServiceError::Internal("pool timed out".to_string()));
    assert!(deletion_result(2, "Asset", 1).is_ok());
    assert_eq!(deletion_result(0, "Asset", 1).unwrap_err(), ServiceError::NotFound("Asset 00000000-0000-0000-0000-000000000001 not found".to_string()));
    assert_eq!(deletion_result(0, "Map", 2).unwrap_err(), ServiceError::NotFound("Map 00000000-0000-0000-0000-000000000002 not found".to_string()));
    assert_eq!(etag_or_unknown(Some("\"abc\"")), "\"abc\"");
    assert_eq!(etag_or_unknown(None), "unknown");
}
