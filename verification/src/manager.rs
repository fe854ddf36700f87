//! The session manager: a catalog cache bound to one service URI, and the
//! pure planning half of every catalog, download, load and unload
//! operation. The I/O layer performs the planned requests and hands
//! response payloads back in.

use vstd::prelude::*;
use crate::errors::FoundryError;
use crate::index::{catalog_entries, CatalogIndex, EntryView, lookup_key, Platform};
use crate::json::{ids_of, extract_model_ids};
use crate::models::{
    DownloadRequest, ExecutionProvider, FoundryListResponseModel, FoundryModelInfo, LoadRequest,
    ModelInfoView, UnloadRequest, normalized_provider, provider_alias, wire_to_info,
};
use crate::resolve::{
    get_latest_model_info, get_model_info, reported_key, resolve_latest_spec, resolve_spec,
};
use crate::version::{get_version, version_of};

verus! {

/// Manager for all model operations of one session.
#[derive(Debug)]
pub struct FoundryLocalManager {
    service_uri: Option<String>,
    catalog_list: Option<Vec<FoundryModelInfo>>,
    catalog_index: Option<CatalogIndex>,
    timeout: Option<u64>,
    platform: Platform,
}

pub ghost struct ManagerView {
    pub service_uri: Option<Seq<char>>,
    pub catalog: Option<Seq<ModelInfoView>>,
    pub index: Option<Seq<EntryView>>,
    pub timeout: Option<u64>,
    pub platform: Platform,
}

impl View for FoundryLocalManager {
    type V = ManagerView;

    closed spec fn view(&self) -> ManagerView {
        ManagerView {
            service_uri: match self.service_uri {
                Some(u) => Some(u@),
                None => None,
            },
            catalog: match self.catalog_list {
                Some(c) => Some(crate::index::infos_view(c@)),
                None => None,
            },
            index: match self.catalog_index {
                Some(ix) => Some(ix@),
                None => None,
            },
            timeout: self.timeout,
            platform: self.platform,
        }
    }
}

/// Builder for creating a `FoundryLocalManager`.
#[derive(Debug)]
pub struct FoundryLocalManagerBuilder {
    pub alias_or_model_id: Option<String>,
    pub bootstrap: bool,
    pub timeout_secs: Option<u64>,
}

impl FoundryLocalManagerBuilder {
    /// A fresh builder: no model, no bootstrap, no timeout.
    pub fn new() -> (r: Self)
        ensures
            r.alias_or_model_id is None,
            !r.bootstrap,
            r.timeout_secs is None,
    {
        FoundryLocalManagerBuilder { alias_or_model_id: None, bootstrap: false, timeout_secs: None }
    }

    /// Set the alias or model id to download and load at bootstrap.
    pub fn alias_or_model_id(self, alias_or_model_id: &str) -> (r: Self)
        ensures
            r.alias_or_model_id matches Some(k) && k@ == alias_or_model_id@,
            r.bootstrap == self.bootstrap,
            r.timeout_secs == self.timeout_secs,
    {
        FoundryLocalManagerBuilder {
            alias_or_model_id: Some(alias_or_model_id.to_owned()),
            ..self
        }
    }

    /// Set whether to start the service if it is not running.
    pub fn bootstrap(self, bootstrap: bool) -> (r: Self)
        ensures
            r.bootstrap == bootstrap,
            r.alias_or_model_id == self.alias_or_model_id,
            r.timeout_secs == self.timeout_secs,
    {
        FoundryLocalManagerBuilder { bootstrap, ..self }
    }

    /// Set the per-request timeout in seconds.
    pub fn timeout_secs(self, timeout_secs: u64) -> (r: Self)
        ensures
            r.timeout_secs == Some(timeout_secs),
            r.alias_or_model_id == self.alias_or_model_id,
            r.bootstrap == self.bootstrap,
    {
        FoundryLocalManagerBuilder { timeout_secs: Some(timeout_secs), ..self }
    }

    /// The unbound manager this builder configures; binding to a service
    /// and any bootstrap download happen through the I/O layer.
    pub fn initial_manager(&self, platform: Platform) -> (r: FoundryLocalManager)
        ensures
            r@.service_uri is None,
            r@.catalog is None,
            r@.index is None,
            r@.timeout == self.timeout_secs,
            r@.platform == platform,
            r.wf(),
    {
        FoundryLocalManager {
            service_uri: None,
            catalog_list: None,
            catalog_index: None,
            timeout: self.timeout_secs,
            platform,
        }
    }
}

/// The records a wire catalog maps to, in order.
pub open spec fn wires_to_infos(ws: Seq<FoundryListResponseModel>) -> Seq<ModelInfoView> {
    ws.map_values(|w: FoundryListResponseModel| wire_to_info(w))
}

/// Whether any record of the catalog runs on CUDA.
pub open spec fn has_cuda_support(ms: Seq<ModelInfoView>) -> bool {
    exists|i: int| 0 <= i < ms.len() && ms[i].runtime == ExecutionProvider::CUDA
}

/// The execution-provider query parameter a load call carries: only for
/// WebGPU and CUDA models; CUDA whenever any catalog entry supports it,
/// else the model's own provider.
pub open spec fn load_ep(ms: Seq<ModelInfoView>, m: ModelInfoView) -> Option<Seq<char>> {
    if m.runtime == ExecutionProvider::WebGPU || m.runtime == ExecutionProvider::CUDA {
        if has_cuda_support(ms) {
            Some(provider_alias(ExecutionProvider::CUDA))
        } else {
            Some(provider_alias(m.runtime))
        }
    } else {
        None
    }
}

/// The records an id list resolves to: each id looked up exactly in the
/// index, unknown ids dropped.
pub open spec fn fetch_spec(es: Seq<EntryView>, ids: Seq<Seq<char>>) -> Seq<ModelInfoView>
    decreases ids.len(),
{
    if ids.len() == 0 {
        Seq::empty()
    } else {
        let p = fetch_spec(es, ids.drop_last());
        match lookup_key(es, ids.last()) {
            Some(m) => p.push(m),
            None => p,
        }
    }
}

/// Whether a record with this id is among the given records.
pub open spec fn holds_id(ms: Seq<ModelInfoView>, id: Seq<char>) -> bool {
    exists|i: int| 0 <= i < ms.len() && ms[i].id == id
}

/// What the upgrade check answers once the key resolves: the latest
/// record's version parses and no cached record already carries its id.
pub open spec fn upgradeable_spec(
    es: Seq<EntryView>,
    key: Seq<char>,
    ids: Seq<Seq<char>>,
) -> Option<bool> {
    match resolve_latest_spec(es, key) {
        Some(l) => Some(version_of(l.id) != -1 && !holds_id(fetch_spec(es, ids), l.id)),
        None => None,
    }
}

/// What upgrading resolves to: the latest record for the key, then that
/// record's concrete id resolved again for the download.
pub open spec fn upgrade_target(es: Seq<EntryView>, key: Seq<char>) -> Option<ModelInfoView> {
    match resolve_latest_spec(es, key) {
        Some(l) => resolve_spec(es, l.id),
        None => None,
    }
}

impl FoundryLocalManager {
    /// A builder for a manager.
    pub fn builder() -> (r: FoundryLocalManagerBuilder)
        ensures
            r.alias_or_model_id is None,
            !r.bootstrap,
            r.timeout_secs is None,
    {
        FoundryLocalManagerBuilder::new()
    }

    /// A manager with no service, no catalog and no timeout.
    pub fn new_for_testing(platform: Platform) -> (r: Self)
        ensures
            r@.service_uri is None,
            r@.catalog is None,
            r@.index is None,
            r@.timeout is None,
            r@.platform == platform,
            r.wf(),
    {
        FoundryLocalManager {
            service_uri: None,
            catalog_list: None,
            catalog_index: None,
            timeout: None,
            platform,
        }
    }

    /// The catalog cache matches the index derived from it.
    pub open spec fn wf(&self) -> bool {
        match (self@.catalog, self@.index) {
            (Some(c), Some(ix)) => ix == catalog_entries(c, self@.platform),
            (None, None) => true,
            _ => false,
        }
    }

    /// A catalog snapshot is loaded.
    pub open spec fn catalog_loaded(&self) -> bool {
        self@.catalog is Some && self@.index is Some
    }

    /// The loaded catalog's records.
    pub open spec fn catalog_view(&self) -> Seq<ModelInfoView>
        recommends
            self.catalog_loaded(),
    {
        self@.catalog->0
    }

    /// The loaded catalog's derived index.
    pub open spec fn index_view(&self) -> Seq<EntryView>
        recommends
            self.catalog_loaded(),
    {
        self@.index->0
    }

    /// Bind the session to a service URI. A newly bound session must not
    /// reuse a stale catalog, so the cache is cleared too.
    pub fn bind_service_uri(&mut self, uri: String)
        ensures
            final(self)@.service_uri == Some(uri@),
            final(self)@.catalog is None,
            final(self)@.index is None,
            final(self)@.timeout == old(self)@.timeout,
            final(self)@.platform == old(self)@.platform,
            final(self).wf(),
    {
        self.service_uri = Some(uri);
        self.catalog_list = None;
        self.catalog_index = None;
    }

    /// Bind the session to a custom service URI.
    pub fn set_test_service_uri(&mut self, uri: &str)
        ensures
            final(self)@.service_uri == Some(uri@),
            final(self)@.catalog is None,
            final(self)@.index is None,
            final(self)@.timeout == old(self)@.timeout,
            final(self)@.platform == old(self)@.platform,
            final(self).wf(),
    {
        self.bind_service_uri(uri.to_owned());
    }

    /// The bound service URI, or `NotBound`.
    pub fn service_uri(&self) -> (r: Result<&str, FoundryError>)
        ensures
            match r {
                Ok(u) => self@.service_uri == Some(u@),
                Err(e) => self@.service_uri is None && e is NotBound,
            },
    {
        match &self.service_uri {
            Some(u) => Ok(u.as_str()),
            None => Err(FoundryError::NotBound),
        }
    }

    /// The OpenAI-compatible endpoint under the bound service URI.
    pub fn endpoint(&self) -> (r: Result<String, FoundryError>)
        ensures
            match r {
                Ok(u) => match self@.service_uri {
                    Some(base) => u@ == base + "/v1"@,
                    None => false,
                },
                Err(e) => self@.service_uri is None && e is NotBound,
            },
    {
        match &self.service_uri {
            Some(u) => Ok(u.clone().concat("/v1")),
            None => Err(FoundryError::NotBound),
        }
    }

    /// The API key: the environment-provided credential when one is set,
    /// else the placeholder literal.
    pub fn api_key(&self, env_value: Option<String>) -> (r: String)
        ensures
            match env_value {
                Some(v) => r@ == v@,
                None => r@ == "OPENAI_API_KEY"@,
            },
    {
        match env_value {
            Some(v) => v,
            None => String::from_str("OPENAI_API_KEY"),
        }
    }

    /// The per-request timeout configured at construction.
    pub fn timeout(&self) -> (r: Option<u64>)
        ensures
            r == self@.timeout,
    {
        self.timeout
    }

    /// Whether a catalog snapshot is loaded.
    pub fn has_catalog(&self) -> (r: bool)
        ensures
            r == self.catalog_loaded(),
    {
        self.catalog_list.is_some() && self.catalog_index.is_some()
    }

    /// Install a fetched catalog: map each wire record and derive the
    /// alias/id index from the mapped list.
    pub fn apply_catalog_response(&mut self, wire: &Vec<FoundryListResponseModel>)
        ensures
            final(self)@.catalog == Some(wires_to_infos(wire@)),
            final(self).catalog_loaded(),
            final(self).wf(),
            final(self)@.service_uri == old(self)@.service_uri,
            final(self)@.timeout == old(self)@.timeout,
            final(self)@.platform == old(self)@.platform,
    {
        let ghost wires = wire@;
        let mut mapped: Vec<FoundryModelInfo> = Vec::new();
        let mut i: usize = 0;
        while i < wire.len()
            invariant
                0 <= i <= wire.len(),
                wires == wire@,
                crate::index::infos_view(mapped@) =~= wires_to_infos(wires.take(i as int)),
            decreases wire.len() - i,
        {
            let info = FoundryModelInfo::from_list_response(&wire[i]);
            let ghost prev = mapped@;
            mapped.push(info);
            proof {
                assert(crate::index::infos_view(prev) =~= wires_to_infos(wires.take(i as int)));
                assert(crate::index::infos_view(prev).len() == prev.len());
                assert(wires_to_infos(wires.take(i as int)).len() == i);
                assert(prev.len() == i);
                assert(mapped@ == prev.push(info));
                assert forall|j: int| 0 <= j < i + 1 implies crate::index::infos_view(mapped@)[j]
                    == wires_to_infos(wires.take(i + 1))[j] by {
                    assert(wires.take(i + 1)[j] == wires[j]);
                    if j < i {
                        assert(mapped@[j] == prev[j]);
                        assert(crate::index::infos_view(prev)[j] == wires_to_infos(
                            wires.take(i as int),
                        )[j]);
                        assert(wires.take(i as int)[j] == wires[j]);
                    } else {
                        assert(mapped@[j] == info);
                    }
                }
                assert(crate::index::infos_view(mapped@) =~= wires_to_infos(wires.take(i + 1)));
            }
            i += 1;
        }
        proof {
            assert(wires.take(wires.len() as int) =~= wires);
        }
        let idx = CatalogIndex::build(&mapped, self.platform);
        self.catalog_list = Some(mapped);
        self.catalog_index = Some(idx);
    }

    /// Drop the cached catalog and its index; the next catalog access
    /// must refetch.
    pub fn refresh_catalog(&mut self)
        ensures
            final(self)@.catalog is None,
            final(self)@.index is None,
            final(self)@.service_uri == old(self)@.service_uri,
            final(self)@.timeout == old(self)@.timeout,
            final(self)@.platform == old(self)@.platform,
            final(self).wf(),
    {
        self.catalog_list = None;
        self.catalog_index = None;
    }

    /// The loaded catalog's records.
    pub fn list_catalog_models(&self) -> (r: &Vec<FoundryModelInfo>)
        requires
            self.catalog_loaded(),
        ensures
            crate::index::infos_view(r@) == self.catalog_view(),
    {
        match &self.catalog_list {
            Some(c) => c,
            None => unreached(),
        }
    }

    fn index(&self) -> (r: &CatalogIndex)
        requires
            self.catalog_loaded(),
        ensures
            r@ == self.index_view(),
    {
        match &self.catalog_index {
            Some(ix) => ix,
            None => unreached(),
        }
    }

    /// Resolve an alias or id to its record; see
    /// `resolve::get_model_info`.
    pub fn get_model_info(&self, alias_or_model_id: &str, raise_on_not_found: bool) -> (r:
        Result<FoundryModelInfo, FoundryError>)
        requires
            self.catalog_loaded(),
        ensures
            match r {
                Ok(m) => resolve_spec(self.index_view(), alias_or_model_id@) == Some(m@),
                Err(e) => {
                    &&& resolve_spec(self.index_view(), alias_or_model_id@) is None
                    &&& e matches FoundryError::NotFound(k) && k@ == alias_or_model_id@
                },
            },
    {
        get_model_info(self.index(), alias_or_model_id, raise_on_not_found)
    }

    /// Resolve the latest record for an alias or id; see
    /// `resolve::get_latest_model_info`.
    pub fn get_latest_model_info(&self, alias_or_model_id: &str, raise_on_not_found: bool) -> (r:
        Result<FoundryModelInfo, FoundryError>)
        requires
            alias_or_model_id@.len() > 0 ==> self.catalog_loaded(),
        ensures
            match r {
                Ok(m) => alias_or_model_id@.len() > 0 && resolve_latest_spec(
                    self.index_view(),
                    alias_or_model_id@,
                ) == Some(m@),
                Err(e) => match e {
                    FoundryError::EmptyKey => alias_or_model_id@.len() == 0,
                    FoundryError::NotFound(k) => {
                        &&& alias_or_model_id@.len() > 0
                        &&& resolve_latest_spec(self.index_view(), alias_or_model_id@) is None
                        &&& k@ == reported_key(alias_or_model_id@)
                    },
                    _ => false,
                },
            },
    {
        // An empty key is rejected before the catalog is consulted.
        if alias_or_model_id.unicode_len() == 0 {
            return Err(FoundryError::EmptyKey);
        }
        get_latest_model_info(self.index(), alias_or_model_id, raise_on_not_found)
    }

    /// The records behind a list of ids, unknown ids dropped.
    pub fn fetch_model_infos(&self, model_ids: &Vec<String>) -> (r: Vec<FoundryModelInfo>)
        requires
            self.catalog_loaded(),
        ensures
            crate::index::infos_view(r@) == fetch_spec(self.index_view(), model_ids.deep_view()),
    {
        let ghost ids = model_ids.deep_view();
        let idx = self.index();
        let mut r: Vec<FoundryModelInfo> = Vec::new();
        let mut i: usize = 0;
        while i < model_ids.len()
            invariant
                0 <= i <= model_ids.len(),
                ids == model_ids.deep_view(),
                idx@ == self.index_view(),
                crate::index::infos_view(r@) =~= fetch_spec(idx@, ids.take(i as int)),
            decreases model_ids.len() - i,
        {
            proof {
                assert(ids.take(i + 1).drop_last() =~= ids.take(i as int));
                assert(ids.take(i + 1).last() == model_ids@[i as int]@);
            }
            match idx.lookup(model_ids[i].as_str()) {
                Some(m) => {
                    let owned = m.clone();
                    r.push(owned);
                },
                None => {
                    // The service may list models the current catalog
                    // snapshot does not know; they are dropped.
                },
            }
            i += 1;
        }
        proof {
            assert(ids.take(ids.len() as int) =~= ids);
        }
        r
    }

    /// The records behind a cached- or loaded-list response body.
    pub fn models_from_id_list(&self, response: &serde_json::Value) -> (r: Result<
        Vec<FoundryModelInfo>,
        FoundryError,
    >)
        requires
            self.catalog_loaded(),
        ensures
            match r {
                Ok(ms) => match ids_of(*response) {
                    Some(ids) => crate::index::infos_view(ms@) == fetch_spec(
                        self.index_view(),
                        ids,
                    ),
                    None => false,
                },
                Err(e) => ids_of(*response) is None && e is DecodeError,
            },
    {
        match extract_model_ids(response) {
            Ok(ids) => Ok(self.fetch_model_infos(&ids)),
            Err(e) => Err(e),
        }
    }

    /// Plan a download: resolve the key, then assemble the request body
    /// with the normalized provider label, the token if one is given, and
    /// the force flag.
    pub fn plan_download(&self, alias_or_model_id: &str, token: Option<&str>, force: bool) -> (r:
        Result<(DownloadRequest, FoundryModelInfo), FoundryError>)
        requires
            self.catalog_loaded(),
        ensures
            match r {
                Ok((req, info)) => {
                    &&& resolve_spec(self.index_view(), alias_or_model_id@) == Some(info@)
                    &&& req.model_name@ == info@.id
                    &&& req.uri@ == info@.uri
                    &&& req.publisher@ == info@.publisher
                    &&& req.prompt_template@ == info@.prompt_template
                    &&& req.provider_type@ == normalized_provider(info@.provider)
                    &&& req.ignore_pipe_report
                    &&& match token {
                        Some(t) => req.token matches Some(s) && s@ == t@,
                        None => req.token is None,
                    }
                    &&& req.force == force
                },
                Err(e) => {
                    &&& resolve_spec(self.index_view(), alias_or_model_id@) is None
                    &&& e matches FoundryError::NotFound(k) && k@ == alias_or_model_id@
                },
            },
    {
        let info = match self.get_model_info(alias_or_model_id, true) {
            Ok(m) => m,
            Err(e) => {
                return Err(e);
            },
        };
        let mut req = info.to_download_body();
        match token {
            Some(t) => {
                req.token = Some(t.to_owned());
            },
            None => {},
        }
        if force {
            req.force = true;
        }
        Ok((req, info))
    }

    /// Whether answering the upgrade check needs the cached-model list at
    /// all: not when the latest record's version does not parse, which
    /// already settles the answer as not upgradeable, whatever is cached.
    pub fn upgrade_needs_cached_ids(&self, alias_or_model_id: &str) -> (r: Result<
        bool,
        FoundryError,
    >)
        requires
            alias_or_model_id@.len() > 0 ==> self.catalog_loaded(),
        ensures
            match r {
                Ok(b) => match resolve_latest_spec(self.index_view(), alias_or_model_id@) {
                    Some(l) => {
                        &&& b == (version_of(l.id) != -1)
                        &&& !b ==> forall|ids: Seq<Seq<char>>|
                            upgradeable_spec(self.index_view(), alias_or_model_id@, ids) == Some(
                                false,
                            )
                    },
                    None => false,
                },
                Err(e) => match e {
                    FoundryError::EmptyKey => alias_or_model_id@.len() == 0,
                    FoundryError::NotFound(_) => resolve_latest_spec(
                        self.index_view(),
                        alias_or_model_id@,
                    ) is None,
                    _ => false,
                },
            },
    {
        let latest = match self.get_latest_model_info(alias_or_model_id, true) {
            Ok(m) => m,
            Err(e) => {
                return Err(e);
            },
        };
        Ok(get_version(latest.id.as_str()) != -1)
    }

    /// Whether a newer version of the model is available: the latest
    /// record's id must carry a parsable version and must not already be
    /// among the cached ids.
    pub fn is_model_upgradeable(&self, alias_or_model_id: &str, cached_ids: &Vec<String>) -> (r:
        Result<bool, FoundryError>)
        requires
            alias_or_model_id@.len() > 0 ==> self.catalog_loaded(),
        ensures
            match r {
                Ok(b) => upgradeable_spec(
                    self.index_view(),
                    alias_or_model_id@,
                    cached_ids.deep_view(),
                ) == Some(b),
                Err(e) => match e {
                    FoundryError::EmptyKey => alias_or_model_id@.len() == 0,
                    FoundryError::NotFound(_) => resolve_latest_spec(
                        self.index_view(),
                        alias_or_model_id@,
                    ) is None,
                    _ => false,
                },
            },
    {
        let latest = match self.get_latest_model_info(alias_or_model_id, true) {
            Ok(m) => m,
            Err(e) => {
                return Err(e);
            },
        };
        let latest_version = get_version(latest.id.as_str());
        if latest_version == -1 {
            return Ok(false);
        }
        let cached = self.fetch_model_infos(cached_ids);
        let ghost cached_views = crate::index::infos_view(cached@);
        let mut i: usize = 0;
        while i < cached.len()
            invariant
                0 <= i <= cached.len(),
                self.catalog_loaded(),
                cached_views == crate::index::infos_view(cached@),
                cached_views == fetch_spec(self.index_view(), cached_ids.deep_view()),
                resolve_latest_spec(self.index_view(), alias_or_model_id@) == Some(latest@),
                version_of(latest@.id) == latest_version as int,
                latest_version != -1,
                forall|j: int| 0 <= j < i ==> cached_views[j].id != latest@.id,
            decreases cached.len() - i,
        {
            // A cached record with the very same id also carries the same
            // parsed version, so the id alone decides.
            if crate::text::str_eq(cached[i].id.as_str(), latest.id.as_str()) {
                proof {
                    assert(cached_views[i as int].id == latest@.id);
                }
                return Ok(false);
            }
            i += 1;
        }
        proof {
            assert(!holds_id(cached_views, latest@.id));
        }
        Ok(true)
    }

    /// Plan an upgrade: resolve the latest record for the key, then plan
    /// a download of its concrete id, never forcing.
    pub fn plan_upgrade(&self, alias_or_model_id: &str, token: Option<&str>) -> (r: Result<
        (DownloadRequest, FoundryModelInfo),
        FoundryError,
    >)
        requires
            alias_or_model_id@.len() > 0 ==> self.catalog_loaded(),
        ensures
            match r {
                Ok((req, info)) => {
                    &&& upgrade_target(self.index_view(), alias_or_model_id@) == Some(info@)
                    &&& req.model_name@ == info@.id
                    &&& req.uri@ == info@.uri
                    &&& req.publisher@ == info@.publisher
                    &&& req.prompt_template@ == info@.prompt_template
                    &&& req.provider_type@ == normalized_provider(info@.provider)
                    &&& req.ignore_pipe_report
                    &&& match token {
                        Some(t) => req.token matches Some(s) && s@ == t@,
                        None => req.token is None,
                    }
                    &&& !req.force
                },
                Err(e) => match e {
                    FoundryError::EmptyKey => alias_or_model_id@.len() == 0,
                    FoundryError::NotFound(_) => upgrade_target(
                        self.index_view(),
                        alias_or_model_id@,
                    ) is None,
                    _ => false,
                },
            },
    {
        let latest = match self.get_latest_model_info(alias_or_model_id, true) {
            Ok(m) => m,
            Err(e) => {
                return Err(e);
            },
        };
        self.plan_download(latest.id.as_str(), token, false)
    }

    /// Plan a load: resolve the key, apply the default time-to-live, and
    /// pick the execution-provider parameter for GPU-class models.
    pub fn plan_load(&self, alias_or_model_id: &str, ttl: Option<i32>) -> (r: Result<
        (LoadRequest, FoundryModelInfo),
        FoundryError,
    >)
        requires
            self.catalog_loaded(),
        ensures
            match r {
                Ok((req, info)) => {
                    &&& resolve_spec(self.index_view(), alias_or_model_id@) == Some(info@)
                    &&& req.model_id@ == info@.id
                    &&& req.ttl_secs == match ttl {
                        Some(t) => t,
                        None => 600,
                    }
                    &&& match load_ep(self.catalog_view(), info@) {
                        Some(ep) => req.execution_provider matches Some(s) && s@ == ep,
                        None => req.execution_provider is None,
                    }
                },
                Err(e) => {
                    &&& resolve_spec(self.index_view(), alias_or_model_id@) is None
                    &&& e matches FoundryError::NotFound(k) && k@ == alias_or_model_id@
                },
            },
    {
        let info = match self.get_model_info(alias_or_model_id, true) {
            Ok(m) => m,
            Err(e) => {
                return Err(e);
            },
        };
        let ttl_secs = match ttl {
            Some(t) => t,
            None => 600,
        };
        let ep = if matches!(info.runtime, ExecutionProvider::WebGPU | ExecutionProvider::CUDA) {
            if self.catalog_has_cuda() {
                Some(ExecutionProvider::CUDA.get_alias())
            } else {
                Some(info.runtime.get_alias())
            }
        } else {
            None
        };
        Ok((LoadRequest { model_id: info.id.clone(), ttl_secs, execution_provider: ep }, info))
    }

    fn catalog_has_cuda(&self) -> (r: bool)
        requires
            self.catalog_loaded(),
        ensures
            r == has_cuda_support(self.catalog_view()),
    {
        let models = self.list_catalog_models();
        let ghost ms = self.catalog_view();
        let mut i: usize = 0;
        while i < models.len()
            invariant
                0 <= i <= models.len(),
                self.catalog_loaded(),
                ms == crate::index::infos_view(models@),
                ms == self.catalog_view(),
                forall|j: int| 0 <= j < i ==> ms[j].runtime != ExecutionProvider::CUDA,
            decreases models.len() - i,
        {
            if matches!(models[i].runtime, ExecutionProvider::CUDA) {
                proof {
                    assert(ms[i as int].runtime == ExecutionProvider::CUDA);
                }
                return true;
            }
            i += 1;
        }
        false
    }

    /// Plan an unload: resolve the key and carry the force flag.
    pub fn plan_unload(&self, alias_or_model_id: &str, force: bool) -> (r: Result<
        (UnloadRequest, FoundryModelInfo),
        FoundryError,
    >)
        requires
            self.catalog_loaded(),
        ensures
            match r {
                Ok((req, info)) => {
                    &&& resolve_spec(self.index_view(), alias_or_model_id@) == Some(info@)
                    &&& req.model_id@ == info@.id
                    &&& req.force == force
                },
                Err(e) => {
                    &&& resolve_spec(self.index_view(), alias_or_model_id@) is None
                    &&& e matches FoundryError::NotFound(k) && k@ == alias_or_model_id@
                },
            },
    {
        let info = match self.get_model_info(alias_or_model_id, true) {
            Ok(m) => m,
            Err(e) => {
                return Err(e);
            },
        };
        Ok((UnloadRequest { model_id: info.id.clone(), force }, info))
    }
}

} // verus!
