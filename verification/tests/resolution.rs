use foundry_local::models::{
    DeviceType, ExecutionProvider, FoundryListResponseModel, ModelRuntime,
};
use foundry_local::{FoundryLocalManager, Platform};

fn wire(
    name: &str,
    alias: &str,
    provider: ExecutionProvider,
    device: DeviceType,
) -> FoundryListResponseModel {
    FoundryListResponseModel {
        name: name.to_string(),
        display_name: name.to_string(),
        model_type: "ONNX".to_string(),
        provider_type: "AzureFoundry".to_string(),
        uri: format!("azureml://registries/azureml/models/{}", name),
        version: "1".to_string(),
        prompt_template: "{\"prompt\":\"<|user|>{Content}<|end|><|assistant|>\"}".to_string(),
        publisher: "Microsoft".to_string(),
        task: "chat-completion".to_string(),
        runtime: ModelRuntime { device_type: device, execution_provider: provider },
        file_size_mb: 100,
        model_settings: "{}".to_string(),
        alias: alias.to_string(),
        supports_tool_calling: false,
        license: "MIT".to_string(),
        license_description: "".to_string(),
        parent_model_uri: "".to_string(),
    }
}

fn mock_catalog() -> Vec<FoundryListResponseModel> {
    vec![
        wire(
            "Phi-4-mini-instruct-generic-cpu:1",
            "phi-4-mini",
            ExecutionProvider::CPU,
            DeviceType::CPU,
        ),
        wire(
            "qwen2.5-0.5b-instruct-cuda-gpu:1",
            "qwen2.5-0.5b",
            ExecutionProvider::CUDA,
            DeviceType::GPU,
        ),
        wire(
            "qwen2.5-0.5b-instruct-cuda-gpu:2",
            "qwen2.5-0.5b",
            ExecutionProvider::CUDA,
            DeviceType::GPU,
        ),
    ]
}

fn manager_with_catalog(platform: Platform) -> FoundryLocalManager {
    let mut manager = FoundryLocalManager::new_for_testing(platform);
    manager.apply_catalog_response(&mock_catalog());
    manager
}

#[test]
fn test_list_catalog_models() {
    let manager = manager_with_catalog(Platform::UnifiedMemory);
    let catalog_models = manager.list_catalog_models();
    assert_eq!(catalog_models.len(), 3);
    assert_eq!(catalog_models[0].id, "Phi-4-mini-instruct-generic-cpu:1");
    assert_eq!(catalog_models[0].alias, "phi-4-mini");
    assert_eq!(catalog_models[0].runtime, ExecutionProvider::CPU);
    assert_eq!(catalog_models[1].id, "qwen2.5-0.5b-instruct-cuda-gpu:1");
    assert_eq!(catalog_models[1].alias, "qwen2.5-0.5b");
    assert_eq!(catalog_models[1].runtime, ExecutionProvider::CUDA);
    assert_eq!(catalog_models[2].id, "qwen2.5-0.5b-instruct-cuda-gpu:2");
    assert_eq!(catalog_models[2].alias, "qwen2.5-0.5b");
    assert_eq!(catalog_models[2].runtime, ExecutionProvider::CUDA);
}

#[test]
fn test_get_model_info() {
    let manager = manager_with_catalog(Platform::UnifiedMemory);

    let model_info = manager
        .get_model_info("Phi-4-mini-instruct-generic-cpu:1", false)
        .unwrap();
    assert_eq!(model_info.id, "Phi-4-mini-instruct-generic-cpu:1");
    assert_eq!(model_info.alias, "phi-4-mini");

    let model_info = manager.get_model_info("qwen2.5-0.5b", false).unwrap();
    assert_eq!(model_info.id, "qwen2.5-0.5b-instruct-cuda-gpu:2");
    assert_eq!(model_info.alias, "qwen2.5-0.5b");
}

#[test]
fn get_model_info_not_found_names_the_key() {
    let manager = manager_with_catalog(Platform::UnifiedMemory);
    let err = manager.get_model_info("no-such-model", true).unwrap_err();
    let message = err.message();
    assert!(message.contains("not found"));
    assert!(message.contains("no-such-model"));
}

#[test]
fn resolution_is_deterministic() {
    // Two managers over the same catalog content answer identically, and
    // asking twice answers identically.
    let m1 = manager_with_catalog(Platform::UnifiedMemory);
    let m2 = manager_with_catalog(Platform::UnifiedMemory);
    for key in ["phi-4-mini", "qwen2.5-0.5b", "qwen2.5-0.5b-instruct-cuda-gpu:1"] {
        let a = m1.get_model_info(key, false).unwrap();
        let b = m1.get_model_info(key, false).unwrap();
        let c = m2.get_model_info(key, false).unwrap();
        assert_eq!(a.id, b.id);
        assert_eq!(a.id, c.id);
    }
}

#[test]
fn provider_ranking_prefers_qnn() {
    // Four variants of one alias, one per provider: QNN wins on either
    // platform flavor.
    let catalog = vec![
        wire("m-cpu:1", "m", ExecutionProvider::CPU, DeviceType::CPU),
        wire("m-cuda:1", "m", ExecutionProvider::CUDA, DeviceType::GPU),
        wire("m-webgpu:1", "m", ExecutionProvider::WebGPU, DeviceType::GPU),
        wire("m-qnn:1", "m", ExecutionProvider::QNN, DeviceType::NPU),
    ];
    for platform in [Platform::Windows, Platform::UnifiedMemory] {
        let mut manager = FoundryLocalManager::new_for_testing(platform);
        manager.apply_catalog_response(&catalog);
        let preferred = manager.get_model_info("m", true).unwrap();
        assert_eq!(preferred.runtime, ExecutionProvider::QNN);
        assert_eq!(preferred.id, "m-qnn:1");
    }
}

#[test]
fn provider_ranking_demotes_cpu_on_unified_memory() {
    // Without QNN and CUDA, a unified-memory host puts CPU strictly last,
    // so WebGPU wins there; a Windows host prefers the CPU variant.
    let catalog = vec![
        wire("m-cpu:1", "m", ExecutionProvider::CPU, DeviceType::CPU),
        wire("m-webgpu:1", "m", ExecutionProvider::WebGPU, DeviceType::GPU),
    ];
    let mut unified = FoundryLocalManager::new_for_testing(Platform::UnifiedMemory);
    unified.apply_catalog_response(&catalog);
    assert_eq!(unified.get_model_info("m", true).unwrap().id, "m-webgpu:1");

    let mut windows = FoundryLocalManager::new_for_testing(Platform::Windows);
    windows.apply_catalog_response(&catalog);
    assert_eq!(windows.get_model_info("m", true).unwrap().id, "m-cpu:1");
}

#[test]
fn version_tie_break_picks_higher_version() {
    // Two same-provider candidates sharing an alias resolve to the higher
    // version suffix.
    let catalog = vec![
        wire("m:1", "m-family", ExecutionProvider::CPU, DeviceType::CPU),
        wire("m:2", "m-family", ExecutionProvider::CPU, DeviceType::CPU),
    ];
    let mut manager = FoundryLocalManager::new_for_testing(Platform::UnifiedMemory);
    manager.apply_catalog_response(&catalog);
    assert_eq!(manager.get_model_info("m-family", true).unwrap().id, "m:2");
}

#[test]
fn prefix_fallback_picks_highest_version() {
    // Resolving bare "m" when only "m:1" and "m:2" exist and no alias "m"
    // returns "m:2".
    let catalog = vec![
        wire("m:1", "m-family", ExecutionProvider::CPU, DeviceType::CPU),
        wire("m:2", "m-family", ExecutionProvider::CPU, DeviceType::CPU),
    ];
    let mut manager = FoundryLocalManager::new_for_testing(Platform::UnifiedMemory);
    manager.apply_catalog_response(&catalog);
    assert_eq!(manager.get_model_info("m", true).unwrap().id, "m:2");
}

#[test]
fn resolve_latest_normalizes_versions() {
    // Resolving "m:1" for the latest record answers exactly what bare "m"
    // answers.
    let catalog = vec![
        wire("m:1", "m-family", ExecutionProvider::CPU, DeviceType::CPU),
        wire("m:2", "m-family", ExecutionProvider::CPU, DeviceType::CPU),
    ];
    let mut manager = FoundryLocalManager::new_for_testing(Platform::UnifiedMemory);
    manager.apply_catalog_response(&catalog);
    let by_version = manager.get_latest_model_info("m:1", true).unwrap();
    let by_family = manager.get_latest_model_info("m", true).unwrap();
    assert_eq!(by_version.id, by_family.id);
    assert_eq!(by_version.id, "m:2");
}

#[test]
fn get_latest_model_info_rejects_empty_key() {
    let manager = manager_with_catalog(Platform::UnifiedMemory);
    let err = manager.get_latest_model_info("", true).unwrap_err();
    assert!(matches!(err, foundry_local::FoundryError::EmptyKey));
}

#[test]
fn refresh_catalog_clears_the_cache() {
    let mut manager = manager_with_catalog(Platform::UnifiedMemory);
    assert!(manager.has_catalog());
    manager.refresh_catalog();
    assert!(!manager.has_catalog());
}

#[test]
fn an_alias_shadows_a_colliding_id() {
    // Aliases and ids share one namespace: a model whose literal id
    // equals another family's alias is hidden behind the alias entry.
    let catalog = vec![
        wire("shared-name", "other-family", ExecutionProvider::CPU, DeviceType::CPU),
        wire("strong:1", "shared-name", ExecutionProvider::CUDA, DeviceType::GPU),
    ];
    let mut manager = FoundryLocalManager::new_for_testing(Platform::UnifiedMemory);
    manager.apply_catalog_response(&catalog);
    let resolved = manager.get_model_info("shared-name", true).unwrap();
    assert_eq!(resolved.id, "strong:1");
}

#[test]
fn a_colon_free_numeric_id_never_outranks_a_real_version() {
    // "7" has no colon-suffix, so it contributes version -1 and loses the
    // tie-break against any versioned sibling.
    let catalog = vec![
        wire("7", "m-family", ExecutionProvider::CPU, DeviceType::CPU),
        wire("m:1", "m-family", ExecutionProvider::CPU, DeviceType::CPU),
    ];
    let mut manager = FoundryLocalManager::new_for_testing(Platform::UnifiedMemory);
    manager.apply_catalog_response(&catalog);
    assert_eq!(manager.get_model_info("m-family", true).unwrap().id, "m:1");
}
