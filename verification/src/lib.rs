//! Client-side manager for a locally running model inference service.
//!
//! The crate keeps an in-memory model catalog, resolves user-supplied model
//! aliases or ids to concrete model records (picking the best
//! execution-provider variant and version), plans download / load / unload
//! requests against the service's HTTP API, and decodes the chunked streaming
//! protocol used for long-running downloads.
//!
//! All network and process I/O lives outside this crate; the library exposes
//! pure, verified decision and protocol functions that an I/O layer drives.

pub mod errors;
pub mod index;
pub mod json;
pub mod locator;
pub mod manager;
pub mod models;
pub mod resolve;
pub mod stream;
pub mod text;
pub mod version;

pub use errors::FoundryError;
pub use index::{CatalogIndex, Platform};
pub use manager::{FoundryLocalManager, FoundryLocalManagerBuilder};
pub use models::{
    DeviceType, DownloadRequest, ExecutionProvider, FoundryListResponseModel, FoundryModelInfo,
    LoadRequest, ModelRuntime, UnloadRequest,
};
pub use stream::{Percent, StreamDecoder};
