//! Core model records: wire-level catalog entries, the client-facing
//! `FoundryModelInfo`, and the execution-provider enumeration.

use vstd::prelude::*;
use crate::text::str_eq;

verus! {

/// Device class a model variant runs on.
#[derive(Debug, Clone, Copy, PartialEq, Eq, Structural)]
pub enum DeviceType {
    CPU,
    GPU,
    NPU,
}

/// Execution provider (backend) of a model variant. Used as a preference key
/// when several variants share an alias.
#[derive(Debug, Clone, Copy, PartialEq, Eq, Structural)]
pub enum ExecutionProvider {
    CPU,
    WebGPU,
    CUDA,
    QNN,
}

impl ExecutionProvider {
    /// Short lower-case name of the provider, as used in query parameters.
    pub fn get_alias(&self) -> (r: String)
        ensures
            r@ == provider_alias(*self),
    {
        match self {
            ExecutionProvider::CPU => String::from_str("cpu"),
            ExecutionProvider::WebGPU => String::from_str("webgpu"),
            ExecutionProvider::CUDA => String::from_str("cuda"),
            ExecutionProvider::QNN => String::from_str("qnn"),
        }
    }
}

pub open spec fn provider_alias(p: ExecutionProvider) -> Seq<char> {
    match p {
        ExecutionProvider::CPU => "cpu"@,
        ExecutionProvider::WebGPU => "webgpu"@,
        ExecutionProvider::CUDA => "cuda"@,
        ExecutionProvider::QNN => "qnn"@,
    }
}

/// Runtime description attached to a wire-level catalog entry.
#[derive(Debug, Clone, Copy, PartialEq, Eq, Structural)]
pub struct ModelRuntime {
    pub device_type: DeviceType,
    pub execution_provider: ExecutionProvider,
}

/// One catalog entry exactly as the service lists it. Structured JSON
/// fields (the prompt template and model settings) are carried as opaque
/// text.
#[derive(Debug)]
pub struct FoundryListResponseModel {
    pub name: String,
    pub display_name: String,
    pub model_type: String,
    pub provider_type: String,
    pub uri: String,
    pub version: String,
    pub prompt_template: String,
    pub publisher: String,
    pub task: String,
    pub runtime: ModelRuntime,
    pub file_size_mb: i32,
    pub model_settings: String,
    pub alias: String,
    pub supports_tool_calling: bool,
    pub license: String,
    pub license_description: String,
    pub parent_model_uri: String,
}

/// Resolved, client-facing model description.
#[derive(Debug)]
pub struct FoundryModelInfo {
    pub alias: String,
    pub id: String,
    pub version: String,
    pub runtime: ExecutionProvider,
    pub uri: String,
    pub file_size_mb: i32,
    pub prompt_template: String,
    pub provider: String,
    pub publisher: String,
    pub license: String,
    pub task: String,
}

/// Mathematical image of a `FoundryModelInfo`.
pub ghost struct ModelInfoView {
    pub alias: Seq<char>,
    pub id: Seq<char>,
    pub version: Seq<char>,
    pub runtime: ExecutionProvider,
    pub uri: Seq<char>,
    pub file_size_mb: int,
    pub prompt_template: Seq<char>,
    pub provider: Seq<char>,
    pub publisher: Seq<char>,
    pub license: Seq<char>,
    pub task: Seq<char>,
}

impl View for FoundryModelInfo {
    type V = ModelInfoView;

    open spec fn view(&self) -> ModelInfoView {
        ModelInfoView {
            alias: self.alias@,
            id: self.id@,
            version: self.version@,
            runtime: self.runtime,
            uri: self.uri@,
            file_size_mb: self.file_size_mb as int,
            prompt_template: self.prompt_template@,
            provider: self.provider@,
            publisher: self.publisher@,
            license: self.license@,
            task: self.task@,
        }
    }
}

impl Clone for FoundryModelInfo {
    fn clone(&self) -> (r: Self)
        ensures
            r == *self,
    {
        FoundryModelInfo {
            alias: self.alias.clone(),
            id: self.id.clone(),
            version: self.version.clone(),
            runtime: self.runtime,
            uri: self.uri.clone(),
            file_size_mb: self.file_size_mb,
            prompt_template: self.prompt_template.clone(),
            provider: self.provider.clone(),
            publisher: self.publisher.clone(),
            license: self.license.clone(),
            task: self.task.clone(),
        }
    }
}

/// The record a wire-level catalog entry maps to: the entry's `name`
/// becomes the id, and the execution provider is lifted out of the nested
/// runtime object.
pub open spec fn wire_to_info(w: FoundryListResponseModel) -> ModelInfoView {
    ModelInfoView {
        alias: w.alias@,
        id: w.name@,
        version: w.version@,
        runtime: w.runtime.execution_provider,
        uri: w.uri@,
        file_size_mb: w.file_size_mb as int,
        prompt_template: w.prompt_template@,
        provider: w.provider_type@,
        publisher: w.publisher@,
        license: w.license@,
        task: w.task@,
    }
}

impl FoundryModelInfo {
    /// Build a `FoundryModelInfo` from a wire-level catalog entry.
    pub fn from_list_response(response: &FoundryListResponseModel) -> (r: Self)
        ensures
            r@ == wire_to_info(*response),
    {
        FoundryModelInfo {
            alias: response.alias.clone(),
            id: response.name.clone(),
            version: response.version.clone(),
            runtime: response.runtime.execution_provider,
            uri: response.uri.clone(),
            file_size_mb: response.file_size_mb,
            prompt_template: response.prompt_template.clone(),
            provider: response.provider_type.clone(),
            publisher: response.publisher.clone(),
            license: response.license.clone(),
            task: response.task.clone(),
        }
    }

    /// The body of a download request for this record. The provider label
    /// is normalized for the download call only: an `AzureFoundry` provider
    /// is rewritten to `AzureFoundryLocal`.
    pub fn to_download_body(&self) -> (r: DownloadRequest)
        ensures
            r.model_name@ == self.id@,
            r.uri@ == self.uri@,
            r.publisher@ == self.publisher@,
            r.prompt_template@ == self.prompt_template@,
            r.provider_type@ == normalized_provider(self.provider@),
            r.ignore_pipe_report,
            r.token is None,
            !r.force,
    {
        let provider_type = if str_eq(self.provider.as_str(), "AzureFoundry") {
            self.provider.clone().concat("Local")
        } else {
            self.provider.clone()
        };
        DownloadRequest {
            model_name: self.id.clone(),
            uri: self.uri.clone(),
            publisher: self.publisher.clone(),
            provider_type,
            prompt_template: self.prompt_template.clone(),
            ignore_pipe_report: true,
            token: None,
            force: false,
        }
    }
}

/// Provider label as sent with a download request.
pub open spec fn normalized_provider(p: Seq<char>) -> Seq<char> {
    if p == "AzureFoundry"@ {
        p + "Local"@
    } else {
        p
    }
}

/// Everything the download endpoint is handed for one model: the wire
/// body is built from these fields by the I/O layer.
#[derive(Debug)]
pub struct DownloadRequest {
    pub model_name: String,
    pub uri: String,
    pub publisher: String,
    pub provider_type: String,
    pub prompt_template: String,
    pub ignore_pipe_report: bool,
    pub token: Option<String>,
    pub force: bool,
}

/// Everything the load endpoint is handed for one model.
#[derive(Debug)]
pub struct LoadRequest {
    pub model_id: String,
    pub ttl_secs: i32,
    pub execution_provider: Option<String>,
}

/// Everything the unload endpoint is handed for one model.
#[derive(Debug)]
pub struct UnloadRequest {
    pub model_id: String,
    pub force: bool,
}

} // verus!
