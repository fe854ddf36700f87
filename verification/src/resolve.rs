//! Alias-or-id resolution over the derived catalog index.
//!
//! `get_model_info` looks a key up exactly and, for a versionless key,
//! falls back to the prefixed id with the highest version suffix.
//! `get_latest_model_info` first normalizes any version-qualified id to its
//! family: asking for `m:1` asks for the latest `m`.

use vstd::prelude::*;
use crate::errors::FoundryError;
use crate::index::{
    alias_candidates, best_of, catalog_entries, lemma_catalog_lookup, lookup_key, CatalogIndex,
    EntryView, Platform,
};
use crate::models::{FoundryModelInfo, ModelInfoView};
use crate::version::{
    contains_colon, get_version, has_colon, has_version_prefix, head_before_first_colon,
    id_has_version_prefix, strip_version, version_of,
};

verus! {

/// Fold over the index entries: the record of the prefixed key with the
/// highest non-negative version, paired with that version; earlier entries
/// win ties.
pub open spec fn prefix_best(es: Seq<EntryView>, key: Seq<char>) -> Option<(int, ModelInfoView)>
    decreases es.len(),
{
    if es.len() == 0 {
        None
    } else {
        let p = prefix_best(es.drop_last(), key);
        let e = es.last();
        let cur = match p {
            Some(pv) => pv.0,
            None => -1,
        };
        if has_version_prefix(e.0, key) && version_of(e.0) > cur {
            Some((version_of(e.0), e.1))
        } else {
            p
        }
    }
}

/// What resolving a key returns: the exact entry, or, for a versionless
/// key, the best prefixed id.
pub open spec fn resolve_spec(es: Seq<EntryView>, key: Seq<char>) -> Option<ModelInfoView> {
    match lookup_key(es, key) {
        Some(m) => Some(m),
        None => if !has_colon(key) {
            match prefix_best(es, key) {
                Some(p) => Some(p.1),
                None => None,
            }
        } else {
            None
        },
    }
}

/// What resolving the latest record for a key returns: a version-qualified
/// key is first normalized to its family.
pub open spec fn resolve_latest_spec(es: Seq<EntryView>, key: Seq<char>) -> Option<
    ModelInfoView,
> {
    if key.len() == 0 {
        None
    } else if !has_colon(key) {
        match lookup_key(es, key) {
            Some(m) => Some(m),
            None => resolve_spec(es, key),
        }
    } else {
        resolve_spec(es, head_before_first_colon(key))
    }
}

/// The key a resolution failure reports: the stripped family name when the
/// request was version-qualified.
pub open spec fn reported_key(key: Seq<char>) -> Seq<char> {
    if has_colon(key) {
        head_before_first_colon(key)
    } else {
        key
    }
}

/// Resolve an alias or id to its record: an exact match in the combined
/// alias/id map, else, for a versionless key, the prefixed id with the
/// highest version. The `raise_on_not_found` flag is accepted for
/// compatibility but both settings report a miss the same way.
pub fn get_model_info(idx: &CatalogIndex, key: &str, raise_on_not_found: bool) -> (r: Result<
    FoundryModelInfo,
    FoundryError,
>)
    ensures
        match r {
            Ok(m) => resolve_spec(idx@, key@) == Some(m@),
            Err(e) => {
                &&& resolve_spec(idx@, key@) is None
                &&& e matches FoundryError::NotFound(k) && k@ == key@
            },
        },
{
    let found = idx.lookup(key);
    match found {
        Some(m) => Ok(m.clone()),
        None => {
            if !contains_colon(key) {
                let n = idx.len();
                let mut best: Option<FoundryModelInfo> = None;
                let mut best_version: i32 = -1;
                let mut i: usize = 0;
                while i < n
                    invariant
                        0 <= i <= n,
                        n == idx@.len(),
                        match prefix_best(idx@.take(i as int), key@) {
                            Some(p) => {
                                &&& best matches Some(b) && b@ == p.1
                                &&& best_version as int == p.0
                            },
                            None => best is None && best_version == -1,
                        },
                    decreases n - i,
                {
                    proof {
                        assert(idx@.take(i + 1).drop_last() =~= idx@.take(i as int));
                        assert(idx@.take(i + 1).last() == idx@[i as int]);
                    }
                    let k = idx.key_at(i);
                    if id_has_version_prefix(k.as_str(), key) {
                        let v = get_version(k.as_str());
                        if v > best_version {
                            best_version = v;
                            best = Some(idx.info_at(i).clone());
                        }
                    }
                    i += 1;
                }
                proof {
                    assert(idx@.take(n as int) =~= idx@);
                }
                match best {
                    Some(m) => Ok(m),
                    None => Err(FoundryError::NotFound(String::from_str(key))),
                }
            } else {
                Err(FoundryError::NotFound(String::from_str(key)))
            }
        },
    }
}

/// Resolve the latest record for an alias or id: a version-qualified id is
/// normalized to its family first, so any `name:N` asks for the latest
/// `name`. An empty key is rejected. The `raise_on_not_found` flag is
/// accepted for compatibility but both settings report a miss the same
/// way.
pub fn get_latest_model_info(idx: &CatalogIndex, key: &str, raise_on_not_found: bool) -> (r:
    Result<FoundryModelInfo, FoundryError>)
    ensures
        match r {
            Ok(m) => key@.len() > 0 && resolve_latest_spec(idx@, key@) == Some(m@),
            Err(e) => match e {
                FoundryError::EmptyKey => key@.len() == 0,
                FoundryError::NotFound(k) => {
                    &&& key@.len() > 0
                    &&& resolve_latest_spec(idx@, key@) is None
                    &&& k@ == reported_key(key@)
                },
                _ => false,
            },
        },
{
    if key.unicode_len() == 0 {
        return Err(FoundryError::EmptyKey);
    }
    if !contains_colon(key) {
        let found = idx.lookup(key);
        match found {
            Some(m) => Ok(m.clone()),
            None => get_model_info(idx, key, raise_on_not_found),
        }
    } else {
        let family = strip_version(key);
        get_model_info(idx, family.as_str(), raise_on_not_found)
    }
}

/// What the prefix fallback finds: nothing exactly when no prefixed key
/// parses to a version, else a prefixed record of maximal version.
pub proof fn lemma_prefix_best_props(es: Seq<EntryView>, key: Seq<char>)
    ensures
        match prefix_best(es, key) {
            None => forall|i: int|
                0 <= i < es.len() ==> !(has_version_prefix(#[trigger] es[i].0, key) && version_of(
                    es[i].0,
                ) >= 0),
            Some(p) => {
                &&& p.0 >= 0
                &&& exists|i: int|
                    0 <= i < es.len() && has_version_prefix(#[trigger] es[i].0, key) && version_of(
                        es[i].0,
                    ) == p.0 && es[i].1 == p.1
                &&& forall|i: int|
                    0 <= i < es.len() && has_version_prefix(#[trigger] es[i].0, key)
                        ==> version_of(es[i].0) <= p.0
            },
        },
    decreases es.len(),
{
    if es.len() > 0 {
        let d = es.drop_last();
        lemma_prefix_best_props(d, key);
        assert(forall|i: int| 0 <= i < d.len() ==> d[i] == es[i]);
        let e = es.last();
        match prefix_best(es, key) {
            None => {
            },
            Some(p) => {
                if has_version_prefix(e.0, key) && version_of(e.0) > (match prefix_best(d, key) {
                    Some(pv) => pv.0,
                    None => -1,
                }) {
                    assert(es[es.len() - 1] == e);
                } else {
                    let q = choose|i: int|
                        0 <= i < d.len() && has_version_prefix(#[trigger] d[i].0, key)
                            && version_of(d[i].0) == p.0 && d[i].1 == p.1;
                    assert(es[q] == d[q]);
                }
            },
        }
    }
}

/// A version-qualified key never contains a colon after normalization.
proof fn lemma_head_no_colon(s: Seq<char>)
    ensures
        !has_colon(head_before_first_colon(s)),
    decreases s.len(),
{
    if s.len() > 0 && s[0] != ':' {
        lemma_head_no_colon(s.drop_first());
        let h = head_before_first_colon(s);
        let ht = head_before_first_colon(s.drop_first());
        assert(h == seq![s[0]] + ht);
        assert forall|i: int| 0 <= i < h.len() implies h[i] != ':' by {
            if i == 0 {
                assert(h[0] == s[0]);
            } else {
                assert(h[i] == ht[i - 1]);
            }
        }
    }
}

/// Latest-resolution normalizes versions away: any `name:suffix` key asks
/// for the latest `name`, so it resolves to the very record the bare name
/// resolves to.
pub proof fn lemma_resolve_latest_normalizes(es: Seq<EntryView>, key: Seq<char>)
    requires
        has_colon(key),
        head_before_first_colon(key).len() > 0,
    ensures
        resolve_latest_spec(es, key) == resolve_latest_spec(es, head_before_first_colon(key)),
{
    let h = head_before_first_colon(key);
    lemma_head_no_colon(key);
    assert(resolve_latest_spec(es, key) == resolve_spec(es, h));
    match lookup_key(es, h) {
        Some(m) => {
            assert(resolve_latest_spec(es, h) == Some(m));
            assert(resolve_spec(es, h) == Some(m));
        },
        None => {
            assert(resolve_latest_spec(es, h) == resolve_spec(es, h));
        },
    }
}

/// For any alias present in the catalog, resolution returns the preferred
/// record of that alias's candidates.
pub proof fn lemma_resolve_alias(ms: Seq<ModelInfoView>, plat: Platform, k: Seq<char>)
    requires
        alias_candidates(ms, k).len() > 0,
    ensures
        resolve_spec(catalog_entries(ms, plat), k) == Some(best_of(alias_candidates(ms, k), plat)),
{
    lemma_catalog_lookup(ms, plat, k);
}

/// Resolution is a pure function of catalog content and platform: over
/// equal catalogs, both lookups answer identically for every key.
pub proof fn lemma_resolve_deterministic(
    ms1: Seq<ModelInfoView>,
    ms2: Seq<ModelInfoView>,
    plat: Platform,
    key: Seq<char>,
)
    requires
        ms1 == ms2,
    ensures
        resolve_spec(catalog_entries(ms1, plat), key) == resolve_spec(
            catalog_entries(ms2, plat),
            key,
        ),
        resolve_latest_spec(catalog_entries(ms1, plat), key) == resolve_latest_spec(
            catalog_entries(ms2, plat),
            key,
        ),
{
}

} // verus!
