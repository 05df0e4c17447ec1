use std::time::Duration;

use axiom_bridge::brp::{
    check_rpc_response, clear_plan, clear_query_params, despawn_params, query_params,
    rpc_request, spawn_entity_id, spawn_params, transform_component, upload_entity_id,
    upload_params, asset_data_base64, BrpConfig, BrpError, ClearTarget, RequestIds,
};
use axiom_bridge::json::JsonValue;

fn brp_obj(pairs: Vec<(&str, JsonValue)>) -> JsonValue {
    JsonValue::Object(pairs.into_iter().map(|(k, v)| (k.to_string(), v)).collect())
}

fn brp_str(s: &str) -> JsonValue {
    JsonValue::Str(s.to_string())
}

fn brp_nums(v: &[u64]) -> Vec<JsonValue> {
    v.iter().map(|n| JsonValue::Uint(*n)).collect()
}

#[test]
fn test_default_config() {
    let config = BrpConfig::default();
    assert_eq!(config.endpoint, "http://127.0.0.1:15721");
    assert_eq!(config.timeout, Duration::from_secs(30));
}

#[test]
fn test_new_config() {
    let config = BrpConfig::new("http://localhost:8080", Duration::from_secs(10));
    assert_eq!(config.endpoint, "http://localhost:8080");
    assert_eq!(config.timeout, Duration::from_secs(10));
}

#[test]
fn test_from_env_defaults() {
    let config = BrpConfig::from_overrides(None, None);
    assert_eq!(config.endpoint, "http://127.0.0.1:15721");
    assert_eq!(config.timeout, Duration::from_secs(30));
}

#[test]
fn test_from_env_custom() {
    let config = BrpConfig::from_overrides(
        Some("http://custom:9999".to_string()),
        Some(Duration::from_millis(5000)),
    );
    assert_eq!(config.endpoint, "http://custom:9999");
    assert_eq!(config.timeout, Duration::from_millis(5000));
}

#[test]
fn test_request_id_increment() {
    let mut ids = RequestIds::new();
    assert_eq!(ids.allocate(), Some(1));
    assert_eq!(ids.allocate(), Some(2));
    assert_eq!(ids.allocate(), Some(3));
}

#[test]
fn test_json_rpc_error_construction() {
    let err = BrpError::json_rpc(-32600, "Invalid Request");
    match err {
        BrpError::JsonRpc { code, message, data } => {
            assert_eq!(code, -32600);
            assert_eq!(message, "Invalid Request");
            assert!(data.is_none());
        }
        _ => panic!("Expected JsonRpc variant"),
    }
}

#[test]
fn test_json_rpc_error_with_data() {
    let err = BrpError::json_rpc_with_data(
        -32700,
        "Parse error",
        brp_obj(vec![("detail", brp_str("unexpected token"))]),
    );
    match err {
        BrpError::JsonRpc { code, message, data } => {
            assert_eq!(code, -32700);
            assert_eq!(message, "Parse error");
            assert!(data.is_some());
            let data = data.unwrap();
            assert_eq!(data.get("detail").and_then(|d| d.as_str()).map(|s| s.as_str()), Some("unexpected token"));
        }
        _ => panic!("Expected JsonRpc variant"),
    }
}

#[test]
fn test_error_display_messages() {
    let timeout_err = BrpError::Timeout(5);
    assert_eq!(timeout_err.message(), "Request timeout after 5s");

    let json_rpc_err = BrpError::json_rpc(-32601, "Method not found");
    assert_eq!(json_rpc_err.message(), "JSON-RPC error: -32601 - Method not found");

    let invalid_response_err = BrpError::InvalidResponse("Bad format".to_string());
    assert_eq!(invalid_response_err.message(), "Invalid response: Bad format");
}

fn filter_tag(params: &JsonValue) -> Vec<String> {
    let with = params.get("filter").unwrap().get("with").unwrap().as_array().unwrap();
    with.iter().map(|w| w.as_str().unwrap().clone()).collect()
}

#[test]
fn test_clear_query_params_structure() {
    let params = clear_query_params(ClearTarget::All);
    assert!(params.get("data").is_some());
    assert!(params.get("filter").is_some());
    assert!(params.get("filter").unwrap().get("with").is_some());
    assert!(params.get("filter").unwrap().get("with").unwrap().as_array().is_some());
}

#[test]
fn test_clear_despawn_params_structure() {
    let params = despawn_params(JsonValue::Uint(4294967298));
    assert!(params.get("entity").is_some());
    assert_eq!(params.get("entity").unwrap().as_u64(), Some(4294967298));
}

#[test]
fn test_clear_uses_world_query_not_bevy_list() {
    assert_eq!("world.query", "world.query");
    assert_eq!("world.despawn_entity", "world.despawn_entity");
}

#[test]
fn test_clear_filter_with_structure() {
    let all = filter_tag(&clear_query_params(ClearTarget::All));
    assert_eq!(all.len(), 1);
    assert_eq!(all[0], "bevy_ai_remote::AxiomSpawned");
    assert_eq!(filter_tag(&clear_query_params(ClearTarget::Primitives))[0], "bevy_ai_remote::AxiomPrimitive");
    assert_eq!(filter_tag(&clear_query_params(ClearTarget::Assets))[0], "bevy_ai_remote::AxiomRemoteAsset");
}

#[test]
fn test_clear_all_uses_single_axiom_spawned_query() {
    let params = clear_query_params(ClearTarget::All);
    let with = filter_tag(&params);
    assert_eq!(with.len(), 1);
    assert_eq!(with[0], "bevy_ai_remote::AxiomSpawned");
    assert!(params.get("data").unwrap().get("has").is_none());
}

#[test]
fn test_query_wraps_params_in_data_key() {
    let params = query_params(&vec!["Component1".to_string(), "Component2".to_string()]);
    let comps = params.get("data").unwrap().get("components").unwrap().as_array().unwrap();
    assert_eq!(comps.len(), 2);
    assert_eq!(comps[0].as_str().unwrap(), "Component1");
    assert_eq!(comps[1].as_str().unwrap(), "Component2");
}

#[test]
fn test_query_data_structure() {
    let params = query_params(&vec!["Transform".to_string(), "Name".to_string(), "GlobalTransform".to_string()]);
    let data = params.get("data").unwrap();
    let comps = data.get("components").unwrap().as_array().unwrap();
    assert_eq!(comps.len(), 3);
    assert_eq!(comps[0].as_str().unwrap(), "Transform");
    assert_eq!(comps[1].as_str().unwrap(), "Name");
    assert_eq!(comps[2].as_str().unwrap(), "GlobalTransform");
}

#[test]
fn test_spawn_params_structure() {
    let t = transform_component(brp_nums(&[1, 2, 3]), brp_nums(&[0, 0, 0, 1]), brp_nums(&[1, 1, 1]));
    let params = spawn_params("Cube", t);
    let comps = params.get("components").unwrap();
    assert!(comps.get("bevy_ai_remote::AxiomPrimitive").is_some());
    assert!(comps.get("bevy_transform::components::transform::Transform").is_some());
}

#[test]
fn test_spawn_axiom_primitive_component() {
    let t = transform_component(brp_nums(&[0, 0, 0]), brp_nums(&[0, 0, 0, 1]), brp_nums(&[1, 1, 1]));
    let params = spawn_params("Sphere", t);
    let prim = params.get("components").unwrap().get("bevy_ai_remote::AxiomPrimitive").unwrap();
    assert_eq!(prim.get("primitive_type").unwrap().as_str().unwrap(), "Sphere");
}

#[test]
fn test_spawn_transform_component() {
    let t = transform_component(brp_nums(&[10, 20, 30]), brp_nums(&[0, 0, 0, 1]), brp_nums(&[2, 2, 2]));
    let params = spawn_params("Cube", t);
    let tr = params.get("components").unwrap().get("bevy_transform::components::transform::Transform").unwrap();
    let tl = tr.get("translation").unwrap().as_array().unwrap();
    assert_eq!(tl.iter().map(|v| v.as_u64().unwrap()).collect::<Vec<_>>(), vec![10, 20, 30]);
    assert_eq!(tr.get("scale").unwrap().as_array().unwrap().len(), 3);
    assert_eq!(tr.get("rotation").unwrap().as_array().unwrap().len(), 4);
}

#[test]
fn test_base64_encoding() {
    assert_eq!(asset_data_base64(b"test data"), "dGVzdCBkYXRh");
}

#[test]
fn test_base64_encoding_empty() {
    assert_eq!(asset_data_base64(b""), "");
}

#[test]
fn test_base64_encoding_binary() {
    assert_eq!(asset_data_base64(&[0x00, 0x01, 0x02, 0xFF, 0xFE]), "AAEC//4=");
}

#[test]
fn test_upload_params_structure() {
    let t = transform_component(brp_nums(&[0, 0, 0]), brp_nums(&[0, 0, 0, 1]), brp_nums(&[1, 1, 1]));
    let params = upload_params("test.glb", b"test data", Some("models".to_string()), t);
    let asset = params.get("components").unwrap().get("bevy_ai_remote::AxiomRemoteAsset").unwrap();
    assert_eq!(asset.get("filename").unwrap().as_str().unwrap(), "test.glb");
    assert_eq!(asset.get("data_base64").unwrap().as_str().unwrap(), "dGVzdCBkYXRh");
    assert_eq!(asset.get("subdir").unwrap().as_str().unwrap(), "models");
}

#[test]
fn test_upload_with_none_subdir() {
    let t = transform_component(brp_nums(&[0, 0, 0]), brp_nums(&[0, 0, 0, 1]), brp_nums(&[1, 1, 1]));
    let params = upload_params("test.png", b"x", None, t);
    let asset = params.get("components").unwrap().get("bevy_ai_remote::AxiomRemoteAsset").unwrap();
    assert!(asset.get("subdir").unwrap().is_null());
}

#[test]
fn rpc_request_omits_absent_params_and_carries_id() {
    let req = rpc_request("rpc.discover", 7, None);
    assert_eq!(req.get("jsonrpc").unwrap().as_str().unwrap(), "2.0");
    assert_eq!(req.get("id").unwrap().as_u64(), Some(7));
    assert!(req.get("params").is_none());
    let req = rpc_request("world.query", 8, Some(brp_obj(vec![])));
    assert!(req.get("params").is_some());
}

#[test]
fn rpc_response_with_other_id_is_rejected() {
    let body = brp_obj(vec![("jsonrpc", brp_str("2.0")), ("id", JsonValue::Uint(4)), ("result", JsonValue::Null)]);
    match check_rpc_response(3, 200, "200 OK", body) {
        Err(BrpError::InvalidResponse(m)) => assert_eq!(m, "Response ID mismatch: expected 3, got 4"),
        _ => panic!("id mismatch must be an error"),
    }
}

#[test]
fn rpc_response_error_and_http_failure() {
    let body = brp_obj(vec![
        ("jsonrpc", brp_str("2.0")),
        ("id", JsonValue::Uint(3)),
        ("error", brp_obj(vec![("code", JsonValue::Int(-32601)), ("message", brp_str("Method not found"))])),
    ]);
    match check_rpc_response(3, 200, "200 OK", body) {
        Err(BrpError::JsonRpc { code, message, data }) => {
            assert_eq!(code, -32601);
            assert_eq!(message, "Method not found");
            assert!(data.is_none());
        }
        _ => panic!("expected a JSON-RPC error"),
    }
    match check_rpc_response(3, 500, "500 Internal Server Error", JsonValue::Null) {
        Err(BrpError::InvalidResponse(m)) => assert_eq!(m, "HTTP error: 500 Internal Server Error"),
        _ => panic!("expected an HTTP error"),
    }
    let ok = brp_obj(vec![("jsonrpc", brp_str("2.0")), ("id", JsonValue::Uint(3)), ("result", JsonValue::Uint(9))]);
    assert_eq!(check_rpc_response(3, 200, "200 OK", ok).ok().and_then(|v| v.as_u64()), Some(9));
}

#[test]
fn spawned_entity_is_listed_by_primitive_clear() {
    let spawned = spawn_entity_id(&brp_obj(vec![("entity", JsonValue::Uint(4294967298))])).ok().unwrap();
    assert_eq!(spawned, "4294967298");
    let result = JsonValue::Array(vec![
        brp_obj(vec![("entity", JsonValue::Uint(4294967298)), ("components", brp_obj(vec![]))]),
        brp_obj(vec![("components", brp_obj(vec![]))]),
    ]);
    let plan = clear_plan(result).ok().unwrap();
    assert_eq!(plan.len(), 1);
    assert_eq!(plan[0].as_u64(), Some(4294967298));
    match clear_plan(brp_obj(vec![])) {
        Err(BrpError::InvalidResponse(m)) => assert_eq!(m, "Expected array from world.query"),
        _ => panic!("a non-array query result must be rejected"),
    }
}

#[test]
fn entity_ids_of_spawn_and_upload() {
    match spawn_entity_id(&brp_obj(vec![])) {
        Err(BrpError::InvalidResponse(m)) => assert_eq!(m, "Missing 'entity' in spawn response"),
        _ => panic!("missing entity must fail"),
    }
    assert_eq!(upload_entity_id(&brp_str("0v1#5")).ok().unwrap(), "0v1#5");
    assert_eq!(upload_entity_id(&JsonValue::Uint(12)).ok().unwrap(), "12");
    assert!(upload_entity_id(&JsonValue::Null).is_err());
}
