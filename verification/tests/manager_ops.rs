use foundry_local::json::{decode_get_body, extract_cache_location, extract_model_ids};
use foundry_local::models::{
    DeviceType, ExecutionProvider, FoundryListResponseModel, ModelRuntime,
};
use foundry_local::{FoundryError, FoundryLocalManager, Platform};

fn wire(
    name: &str,
    alias: &str,
    provider: ExecutionProvider,
    device: DeviceType,
    provider_type: &str,
) -> FoundryListResponseModel {
    FoundryListResponseModel {
        name: name.to_string(),
        display_name: name.to_string(),
        model_type: "ONNX".to_string(),
        provider_type: provider_type.to_string(),
        uri: format!("azureml://registries/azureml/models/{}", name),
        version: "1".to_string(),
        prompt_template: "{}".to_string(),
        publisher: "Microsoft".to_string(),
        task: "chat-completion".to_string(),
        runtime: ModelRuntime { device_type: device, execution_provider: provider },
        file_size_mb: 100,
        model_settings: "{}".to_string(),
        alias: alias.to_string(),
        supports_tool_calling: false,
        license: "MIT".to_string(),
        license_description: "".to_string(),
        parent_model_uri: "".to_string(),
    }
}

fn manager_with_mock_catalog() -> FoundryLocalManager {
    let catalog = vec![
        wire(
            "Phi-4-mini-instruct-generic-cpu:1",
            "phi-4-mini",
            ExecutionProvider::CPU,
            DeviceType::CPU,
            "AzureFoundry",
        ),
        wire(
            "qwen2.5-0.5b-instruct-cuda-gpu:1",
            "qwen2.5-0.5b",
            ExecutionProvider::CUDA,
            DeviceType::GPU,
            "AzureFoundry",
        ),
        wire(
            "qwen2.5-0.5b-instruct-cuda-gpu:2",
            "qwen2.5-0.5b",
            ExecutionProvider::CUDA,
            DeviceType::GPU,
            "AzureFoundry",
        ),
    ];
    let mut manager = FoundryLocalManager::new_for_testing(Platform::UnifiedMemory);
    manager.apply_catalog_response(&catalog);
    manager
}

#[test]
fn test_get_cache_location() {
    let response =
        serde_json::from_str::<serde_json::Value>("{\"location\":\"/tmp/mock-cache\"}").unwrap();
    assert_eq!(extract_cache_location(&response).unwrap(), "/tmp/mock-cache");

    let bad = serde_json::from_str::<serde_json::Value>("{\"somewhere\":1}").unwrap();
    assert!(matches!(
        extract_cache_location(&bad).unwrap_err(),
        FoundryError::DecodeError
    ));
}

#[test]
fn test_list_cached_models() {
    let manager = manager_with_mock_catalog();
    let response = serde_json::from_str::<serde_json::Value>(
        "{\"models\":[\"qwen2.5-0.5b-instruct-cuda-gpu:1\"]}",
    )
    .unwrap();
    let cached_models = manager.models_from_id_list(&response).unwrap();
    assert_eq!(cached_models.len(), 1);
    assert_eq!(cached_models[0].id, "qwen2.5-0.5b-instruct-cuda-gpu:1");
}

#[test]
fn id_list_shapes_are_interchangeable() {
    // A bare array and an object with a `models` array yield the same
    // records, and ids the catalog does not know are dropped silently.
    let manager = manager_with_mock_catalog();
    let flat = serde_json::from_str::<serde_json::Value>(
        "[\"qwen2.5-0.5b-instruct-cuda-gpu:1\",\"unknown-model:9\",\"phi-4-mini\"]",
    )
    .unwrap();
    let nested = serde_json::from_str::<serde_json::Value>(
        "{\"models\":[\"qwen2.5-0.5b-instruct-cuda-gpu:1\",\"unknown-model:9\",\"phi-4-mini\"]}",
    )
    .unwrap();
    let from_flat = manager.models_from_id_list(&flat).unwrap();
    let from_nested = manager.models_from_id_list(&nested).unwrap();
    let flat_ids: Vec<String> = from_flat.iter().map(|m| m.id.clone()).collect();
    let nested_ids: Vec<String> = from_nested.iter().map(|m| m.id.clone()).collect();
    assert_eq!(flat_ids, nested_ids);
    // The unknown id was dropped; the alias key resolved to its
    // preferred record.
    assert_eq!(
        flat_ids,
        vec![
            "qwen2.5-0.5b-instruct-cuda-gpu:1".to_string(),
            "Phi-4-mini-instruct-generic-cpu:1".to_string(),
        ]
    );
}

#[test]
fn extract_model_ids_rejects_other_shapes() {
    let bad = serde_json::from_str::<serde_json::Value>("{\"models\":123}").unwrap();
    assert!(matches!(
        extract_model_ids(&bad).unwrap_err(),
        FoundryError::DecodeError
    ));
    let worse = serde_json::from_str::<serde_json::Value>("17").unwrap();
    assert!(matches!(
        extract_model_ids(&worse).unwrap_err(),
        FoundryError::DecodeError
    ));
}

#[test]
fn test_download_model() {
    let manager = manager_with_mock_catalog();
    let (request, model_info) = manager.plan_download("qwen2.5-0.5b", None, false).unwrap();
    assert_eq!(model_info.id, "qwen2.5-0.5b-instruct-cuda-gpu:2");
    assert_eq!(request.model_name, "qwen2.5-0.5b-instruct-cuda-gpu:2");
    // The provider label is normalized for the download call only.
    assert_eq!(request.provider_type, "AzureFoundryLocal");
    assert!(request.ignore_pipe_report);
    assert!(request.token.is_none());
    assert!(!request.force);

    let (request, _) = manager
        .plan_download("qwen2.5-0.5b", Some("secret-token"), true)
        .unwrap();
    assert_eq!(request.token.as_deref(), Some("secret-token"));
    assert!(request.force);
}

#[test]
fn download_body_keeps_other_provider_labels() {
    let catalog = vec![wire(
        "m:1",
        "m-family",
        ExecutionProvider::CPU,
        DeviceType::CPU,
        "MockProvider",
    )];
    let mut manager = FoundryLocalManager::new_for_testing(Platform::UnifiedMemory);
    manager.apply_catalog_response(&catalog);
    let (request, _) = manager.plan_download("m-family", None, false).unwrap();
    assert_eq!(request.provider_type, "MockProvider");
}

#[test]
fn test_is_model_upgradeable() {
    let manager = manager_with_mock_catalog();
    // Latest qwen2.5-0.5b is version 2; only version 1 is cached.
    let cached = vec!["qwen2.5-0.5b-instruct-cuda-gpu:1".to_string()];
    assert!(manager.is_model_upgradeable("qwen2.5-0.5b", &cached).unwrap());
    // Nothing of phi-4-mini is cached at all.
    assert!(manager.is_model_upgradeable("phi-4-mini", &cached).unwrap());
    // Once the latest version is cached too, no upgrade is offered.
    let cached_both = vec![
        "qwen2.5-0.5b-instruct-cuda-gpu:1".to_string(),
        "qwen2.5-0.5b-instruct-cuda-gpu:2".to_string(),
    ];
    assert!(!manager.is_model_upgradeable("qwen2.5-0.5b", &cached_both).unwrap());
}

#[test]
fn test_upgrade_model_success() {
    let manager = manager_with_mock_catalog();
    let (request, model_info) = manager.plan_upgrade("qwen2.5-0.5b", None).unwrap();
    assert_eq!(model_info.id, "qwen2.5-0.5b-instruct-cuda-gpu:2");
    assert_eq!(request.model_name, "qwen2.5-0.5b-instruct-cuda-gpu:2");
    assert!(!request.force);
}

#[test]
fn test_upgrade_model_not_found() {
    let manager = manager_with_mock_catalog();
    let err = manager.plan_upgrade("non-existent-model", None).unwrap_err();
    assert!(err.message().contains("not found"));
}

#[test]
fn test_load_and_unload_model() {
    let manager = manager_with_mock_catalog();
    let (load, model_info) = manager.plan_load("phi-4-mini", Some(300)).unwrap();
    assert_eq!(model_info.id, "Phi-4-mini-instruct-generic-cpu:1");
    assert_eq!(load.model_id, "Phi-4-mini-instruct-generic-cpu:1");
    assert_eq!(load.ttl_secs, 300);
    // A CPU model carries no execution-provider parameter.
    assert!(load.execution_provider.is_none());

    let (unload, _) = manager.plan_unload("phi-4-mini", false).unwrap();
    assert_eq!(unload.model_id, "Phi-4-mini-instruct-generic-cpu:1");
    assert!(!unload.force);
}

#[test]
fn load_uses_cuda_whenever_the_catalog_has_it() {
    let manager = manager_with_mock_catalog();
    let (load, _) = manager.plan_load("qwen2.5-0.5b", None).unwrap();
    assert_eq!(load.ttl_secs, 600);
    assert_eq!(load.execution_provider.as_deref(), Some("cuda"));

    // Without CUDA anywhere in the catalog, a WebGPU model loads with its
    // own provider.
    let catalog = vec![wire(
        "m-webgpu:1",
        "m",
        ExecutionProvider::WebGPU,
        DeviceType::GPU,
        "AzureFoundry",
    )];
    let mut manager = FoundryLocalManager::new_for_testing(Platform::UnifiedMemory);
    manager.apply_catalog_response(&catalog);
    let (load, _) = manager.plan_load("m", None).unwrap();
    assert_eq!(load.execution_provider.as_deref(), Some("webgpu"));
}

#[test]
fn test_endpoint_and_api_key() {
    let mut manager = FoundryLocalManager::new_for_testing(Platform::UnifiedMemory);
    assert!(matches!(
        manager.endpoint().unwrap_err(),
        FoundryError::NotBound
    ));
    manager.set_test_service_uri("http://localhost:5273");
    assert_eq!(manager.service_uri().unwrap(), "http://localhost:5273");
    assert_eq!(manager.endpoint().unwrap(), "http://localhost:5273/v1");

    assert_eq!(manager.api_key(None), "OPENAI_API_KEY");
    assert_eq!(manager.api_key(Some("test-api-key".to_string())), "test-api-key");
}

#[test]
fn binding_a_service_invalidates_the_catalog() {
    let mut manager = manager_with_mock_catalog();
    assert!(manager.has_catalog());
    manager.set_test_service_uri("http://localhost:5273");
    assert!(!manager.has_catalog());
}

#[test]
fn decode_get_body_classifies_responses() {
    assert!(decode_get_body(200, b"").unwrap().is_none());
    let v = decode_get_body(200, b"{\"x\":1}").unwrap().unwrap();
    assert_eq!(v.get("x").and_then(|x| x.as_i64()), Some(1));
    assert!(matches!(
        decode_get_body(200, b"not json").unwrap_err(),
        FoundryError::DecodeError
    ));
    match decode_get_body(404, b"missing").unwrap_err() {
        FoundryError::HttpStatus(code, body) => {
            assert_eq!(code, 404);
            assert_eq!(body, "missing");
        },
        other => panic!("unexpected error: {:?}", other),
    }
}

#[test]
fn upgrade_check_without_parsable_version_needs_no_cache_list() {
    // The latest record's id has no version suffix: the check is settled
    // as "not upgradeable" before the cached list is ever consulted.
    let catalog = vec![wire(
        "versionless-model",
        "m",
        ExecutionProvider::CPU,
        DeviceType::CPU,
        "AzureFoundry",
    )];
    let mut manager = FoundryLocalManager::new_for_testing(Platform::UnifiedMemory);
    manager.apply_catalog_response(&catalog);
    assert!(!manager.upgrade_needs_cached_ids("m").unwrap());
    assert!(!manager.is_model_upgradeable("m", &vec![]).unwrap());

    // A versioned latest record does need the cached list.
    let manager = manager_with_mock_catalog();
    assert!(manager.upgrade_needs_cached_ids("qwen2.5-0.5b").unwrap());
}
