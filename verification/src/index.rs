//! The derived catalog index: one map keyed by exact model id and by alias,
//! where each alias points at the single preferred record of its family.
//!
//! Aliases and ids share one namespace; an id that collides with another
//! model's alias is shadowed by the alias entry.

use vstd::prelude::*;
use crate::models::{ExecutionProvider, FoundryModelInfo, ModelInfoView};
use crate::version::{get_version, version_of};

verus! {

/// Host flavor the ranking table is computed for. On a host with a
/// unified memory architecture the CPU provider is demoted to last place.
#[derive(Debug, Clone, Copy, PartialEq, Eq, Structural)]
pub enum Platform {
    Windows,
    UnifiedMemory,
}

/// Rank of an execution provider; a lower value is preferred.
pub open spec fn priority_of(p: ExecutionProvider, plat: Platform) -> int {
    match plat {
        Platform::Windows => match p {
            ExecutionProvider::QNN => 0,
            ExecutionProvider::CUDA => 1,
            ExecutionProvider::CPU => 2,
            ExecutionProvider::WebGPU => 3,
        },
        Platform::UnifiedMemory => match p {
            ExecutionProvider::QNN => 0,
            ExecutionProvider::CUDA => 1,
            ExecutionProvider::WebGPU => 2,
            ExecutionProvider::CPU => 3,
        },
    }
}

/// Rank of an execution provider; a lower value is preferred.
pub fn provider_priority(p: ExecutionProvider, plat: Platform) -> (r: u8)
    ensures
        r as int == priority_of(p, plat),
{
    match plat {
        Platform::Windows => match p {
            ExecutionProvider::QNN => 0,
            ExecutionProvider::CUDA => 1,
            ExecutionProvider::CPU => 2,
            ExecutionProvider::WebGPU => 3,
        },
        Platform::UnifiedMemory => match p {
            ExecutionProvider::QNN => 0,
            ExecutionProvider::CUDA => 1,
            ExecutionProvider::WebGPU => 2,
            ExecutionProvider::CPU => 3,
        },
    }
}

/// `a` is strictly preferred over `b`: better provider rank, or same rank
/// and a higher id version suffix.
pub open spec fn preferred_over(a: ModelInfoView, b: ModelInfoView, plat: Platform) -> bool {
    priority_of(a.runtime, plat) < priority_of(b.runtime, plat) || (priority_of(a.runtime, plat)
        == priority_of(b.runtime, plat) && version_of(a.id) > version_of(b.id))
}

/// Of two candidates, the one a catalog keeps: the strictly preferred one,
/// and the later-listed one when neither is strictly preferred.
pub open spec fn pick(a: ModelInfoView, b: ModelInfoView, plat: Platform) -> ModelInfoView {
    if preferred_over(a, b, plat) {
        a
    } else {
        b
    }
}

/// The preferred record of a non-empty candidate list, scanning in listed
/// order.
pub open spec fn best_of(cands: Seq<ModelInfoView>, plat: Platform) -> ModelInfoView
    recommends
        cands.len() > 0,
    decreases cands.len(),
{
    if cands.len() <= 1 {
        cands[0]
    } else {
        pick(best_of(cands.drop_last(), plat), cands.last(), plat)
    }
}

/// One keyed catalog entry.
pub type EntryView = (Seq<char>, ModelInfoView);

/// Index of the first entry with the given key, `-1` if there is none.
pub open spec fn find_key(es: Seq<EntryView>, k: Seq<char>) -> int
    decreases es.len(),
{
    if es.len() == 0 {
        -1
    } else if es[0].0 == k {
        0
    } else {
        let r = find_key(es.drop_first(), k);
        if r == -1 {
            -1
        } else {
            r + 1
        }
    }
}

/// The record the index holds for a key, if any.
pub open spec fn lookup_key(es: Seq<EntryView>, k: Seq<char>) -> Option<ModelInfoView> {
    let i = find_key(es, k);
    if i == -1 {
        None
    } else {
        Some(es[i].1)
    }
}

/// Replace the entry with key `k`, or append one.
pub open spec fn assoc_update(es: Seq<EntryView>, k: Seq<char>, v: ModelInfoView) -> Seq<
    EntryView,
> {
    let i = find_key(es, k);
    if i == -1 {
        es.push((k, v))
    } else {
        es.update(i, (k, v))
    }
}

/// No two entries share a key.
pub open spec fn uniq_keys(es: Seq<EntryView>) -> bool {
    forall|i: int, j: int| 0 <= i < j < es.len() ==> es[i].0 != es[j].0
}

pub proof fn lemma_find_key_props(es: Seq<EntryView>, k: Seq<char>)
    ensures
        find_key(es, k) == -1 ==> forall|j: int| 0 <= j < es.len() ==> es[j].0 != k,
        find_key(es, k) != -1 ==> {
            let i = find_key(es, k);
            &&& 0 <= i < es.len()
            &&& es[i].0 == k
            &&& forall|j: int| 0 <= j < i ==> es[j].0 != k
        },
    decreases es.len(),
{
    if es.len() > 0 && es[0].0 != k {
        let d = es.drop_first();
        lemma_find_key_props(d, k);
        if find_key(es, k) == -1 {
            assert forall|j: int| 0 <= j < es.len() implies es[j].0 != k by {
                if j > 0 {
                    assert(es[j] == d[j - 1]);
                }
            }
        } else {
            let i = find_key(es, k);
            assert(i == find_key(d, k) + 1);
            assert(es[i] == d[i - 1]);
            assert forall|j: int| 0 <= j < i implies es[j].0 != k by {
                if j > 0 {
                    assert(es[j] == d[j - 1]);
                }
            }
        }
    }
}

/// A scan that finds the first match at `i` (or none at all, `i == len`)
/// computes `find_key`.
pub proof fn lemma_find_key_from_scan(es: Seq<EntryView>, k: Seq<char>, i: int)
    requires
        0 <= i <= es.len(),
        forall|j: int| 0 <= j < i ==> es[j].0 != k,
        i < es.len() ==> es[i].0 == k,
    ensures
        find_key(es, k) == if i == es.len() {
            -1
        } else {
            i
        },
    decreases es.len(),
{
    if es.len() > 0 {
        if i == 0 {
        } else {
            lemma_find_key_from_scan(es.drop_first(), k, i - 1);
        }
    }
}

/// The views of a sequence of records.
pub open spec fn infos_view(ms: Seq<FoundryModelInfo>) -> Seq<ModelInfoView> {
    ms.map_values(|m: FoundryModelInfo| m@)
}

/// View of a keyed entry list.
pub open spec fn entries_view(es: Seq<(String, FoundryModelInfo)>) -> Seq<EntryView> {
    es.map_values(|e: (String, FoundryModelInfo)| (e.0@, e.1@))
}

/// Entries keyed by exact id, in catalog order; a later record with the
/// same id replaces the earlier one.
pub open spec fn id_entries(ms: Seq<ModelInfoView>) -> Seq<EntryView>
    decreases ms.len(),
{
    if ms.len() == 0 {
        Seq::empty()
    } else {
        assoc_update(id_entries(ms.drop_last()), ms.last().id, ms.last())
    }
}

/// Entries keyed by alias, each holding the preferred record seen so far,
/// folded over the catalog in listed order.
pub open spec fn alias_entries(ms: Seq<ModelInfoView>, plat: Platform) -> Seq<EntryView>
    decreases ms.len(),
{
    if ms.len() == 0 {
        Seq::empty()
    } else {
        let p = alias_entries(ms.drop_last(), plat);
        let m = ms.last();
        let j = find_key(p, m.alias);
        if j == -1 {
            p.push((m.alias, m))
        } else {
            p.update(j, (m.alias, pick(p[j].1, m, plat)))
        }
    }
}

/// Write every entry of `extra` over `base`.
pub open spec fn overlay(base: Seq<EntryView>, extra: Seq<EntryView>) -> Seq<EntryView>
    decreases extra.len(),
{
    if extra.len() == 0 {
        base
    } else {
        assoc_update(overlay(base, extra.drop_last()), extra.last().0, extra.last().1)
    }
}

/// The whole derived index of a catalog: id entries first, then each
/// alias's preferred record written over them.
pub open spec fn catalog_entries(ms: Seq<ModelInfoView>, plat: Platform) -> Seq<EntryView> {
    overlay(id_entries(ms), alias_entries(ms, plat))
}

/// Whether `a` is strictly preferred over `b` for one alias.
pub fn preferred_over_exec(a: &FoundryModelInfo, b: &FoundryModelInfo, plat: Platform) -> (r:
    bool)
    ensures
        r == preferred_over(a@, b@, plat),
{
    let pa = provider_priority(a.runtime, plat);
    let pb = provider_priority(b.runtime, plat);
    if pa != pb {
        pa < pb
    } else {
        get_version(a.id.as_str()) > get_version(b.id.as_str())
    }
}

/// The derived index over one catalog snapshot.
#[derive(Debug)]
pub struct CatalogIndex {
    entries: Vec<(String, FoundryModelInfo)>,
}

impl View for CatalogIndex {
    type V = Seq<EntryView>;

    closed spec fn view(&self) -> Seq<EntryView> {
        entries_view(self.entries@)
    }
}

impl CatalogIndex {
    /// Build the index of a catalog snapshot: ids first, then one
    /// preferred record per alias, written over any id entry of the same
    /// name.
    pub fn build(models: &Vec<FoundryModelInfo>, plat: Platform) -> (idx: CatalogIndex)
        ensures
            idx@ == catalog_entries(infos_view(models@), plat),
    {
        let ghost mviews = infos_view(models@);
        let mut entries: Vec<(String, FoundryModelInfo)> = Vec::new();
        let mut i: usize = 0;
        while i < models.len()
            invariant
                0 <= i <= models.len(),
                mviews == infos_view(models@),
                entries_view(entries@) == id_entries(mviews.take(i as int)),
            decreases models.len() - i,
        {
            let m = models[i].clone();
            let key = m.id.clone();
            proof {
                assert(mviews.take(i + 1).drop_last() =~= mviews.take(i as int));
                assert(mviews.take(i + 1).last() == models@[i as int]@);
            }
            assoc_insert(&mut entries, key, m);
            i += 1;
        }
        proof {
            assert(mviews.take(models@.len() as int) =~= mviews);
        }
        // Preferred record per alias, folded in listed order.
        let mut best: Vec<(String, FoundryModelInfo)> = Vec::new();
        let mut i: usize = 0;
        while i < models.len()
            invariant
                0 <= i <= models.len(),
                mviews == infos_view(models@),
                entries_view(best@) == alias_entries(mviews.take(i as int), plat),
            decreases models.len() - i,
        {
            let m = &models[i];
            proof {
                assert(mviews.take(i + 1).drop_last() =~= mviews.take(i as int));
                assert(mviews.take(i + 1).last() == models@[i as int]@);
            }
            let pos = find_entry(&best, m.alias.as_str());
            match pos {
                Some(j) => {
                    if preferred_over_exec(&best[j].1, m, plat) {
                        // The current holder stays preferred.
                        proof {
                            let old_es = entries_view(best@);
                            let k = m.alias@;
                            let jj = find_key(old_es, k);
                            lemma_find_key_props(old_es, k);
                            assert(old_es[jj].0 == k);
                            assert(old_es.update(jj, (k, old_es[jj].1)) =~= old_es);
                        }
                    } else {
                        let alias = m.alias.clone();
                        let repl = m.clone();
                        proof {
                            let old_es = entries_view(best@);
                            let k = m.alias@;
                            let jj = find_key(old_es, k);
                            assert(entries_view(best@.update(jj, (alias, repl))) =~= old_es.update(
                                jj,
                                (k, repl@),
                            ));
                        }
                        best[j] = (alias, repl);
                    }
                },
                None => {
                    let alias = m.alias.clone();
                    let cand = m.clone();
                    proof {
                        assert(entries_view(best@.push((alias, cand))) =~= entries_view(
                            best@,
                        ).push((alias@, cand@)));
                    }
                    best.push((alias, cand));
                },
            }
            i += 1;
        }
        proof {
            assert(mviews.take(models@.len() as int) =~= mviews);
        }
        // Write the alias winners over the id entries.
        let ghost alias_es = entries_view(best@);
        let mut i: usize = 0;
        while i < best.len()
            invariant
                0 <= i <= best.len(),
                alias_es == entries_view(best@),
                entries_view(entries@) == overlay(id_entries(mviews), alias_es.take(i as int)),
            decreases best.len() - i,
        {
            let key = best[i].0.clone();
            let info = best[i].1.clone();
            proof {
                assert(alias_es.take(i + 1).drop_last() =~= alias_es.take(i as int));
                assert(alias_es.take(i + 1).last() == (best@[i as int].0@, best@[i as int].1@));
            }
            assoc_insert(&mut entries, key, info);
            i += 1;
        }
        proof {
            assert(alias_es.take(best@.len() as int) =~= alias_es);
        }
        CatalogIndex { entries }
    }

    /// Number of entries.
    pub fn len(&self) -> (n: usize)
        ensures
            n == self@.len(),
    {
        self.entries.len()
    }

    /// Key of the entry at `i`.
    pub fn key_at(&self, i: usize) -> (k: &String)
        requires
            i < self@.len(),
        ensures
            k@ == self@[i as int].0,
    {
        &self.entries[i].0
    }

    /// Record of the entry at `i`.
    pub fn info_at(&self, i: usize) -> (m: &FoundryModelInfo)
        requires
            i < self@.len(),
        ensures
            m@ == self@[i as int].1,
    {
        &self.entries[i].1
    }

    /// The record stored under an exact key, alias or id.
    pub fn lookup(&self, key: &str) -> (r: Option<&FoundryModelInfo>)
        ensures
            match r {
                Some(m) => lookup_key(self@, key@) == Some(m@),
                None => lookup_key(self@, key@) is None,
            },
    {
        let n = self.entries.len();
        let mut i: usize = 0;
        while i < n
            invariant
                0 <= i <= n,
                n == self.entries@.len(),
                forall|j: int| 0 <= j < i ==> entries_view(self.entries@)[j].0 != key@,
            decreases n - i,
        {
            if crate::text::str_eq(self.entries[i].0.as_str(), key) {
                proof {
                    lemma_find_key_from_scan(self@, key@, i as int);
                }
                return Some(&self.entries[i].1);
            }
            i += 1;
        }
        proof {
            lemma_find_key_from_scan(self@, key@, n as int);
        }
        None
    }
}

/// Replace the entry with this key, or append one.
fn assoc_insert(v: &mut Vec<(String, FoundryModelInfo)>, key: String, info: FoundryModelInfo)
    ensures
        entries_view(final(v)@) == assoc_update(entries_view(old(v)@), key@, info@),
{
    let pos = find_entry(v, key.as_str());
    match pos {
        Some(j) => {
            proof {
                let old_es = entries_view(v@);
                let jj = find_key(old_es, key@);
                assert(entries_view(v@.update(jj, (key, info))) =~= old_es.update(
                    jj,
                    (key@, info@),
                ));
            }
            v[j] = (key, info);
        },
        None => {
            proof {
                assert(entries_view(v@.push((key, info))) =~= entries_view(v@).push(
                    (key@, info@),
                ));
            }
            v.push((key, info));
        },
    }
}

/// First position whose key equals `key`, scanning in order.
fn find_entry(v: &Vec<(String, FoundryModelInfo)>, key: &str) -> (r: Option<usize>)
    ensures
        match r {
            Some(j) => j < v@.len() && find_key(entries_view(v@), key@) == j as int,
            None => find_key(entries_view(v@), key@) == -1,
        },
{
    let n = v.len();
    let mut i: usize = 0;
    while i < n
        invariant
            0 <= i <= n,
            n == v@.len(),
            forall|j: int| 0 <= j < i ==> entries_view(v@)[j].0 != key@,
        decreases n - i,
    {
        if crate::text::str_eq(v[i].0.as_str(), key) {
            proof {
                lemma_find_key_from_scan(entries_view(v@), key@, i as int);
            }
            return Some(i);
        }
        i += 1;
    }
    proof {
        lemma_find_key_from_scan(entries_view(v@), key@, n as int);
    }
    None
}

/// The records of the catalog that carry this alias, in listed order.
pub open spec fn alias_candidates(ms: Seq<ModelInfoView>, k: Seq<char>) -> Seq<ModelInfoView>
    decreases ms.len(),
{
    if ms.len() == 0 {
        Seq::empty()
    } else {
        let p = alias_candidates(ms.drop_last(), k);
        if ms.last().alias == k {
            p.push(ms.last())
        } else {
            p
        }
    }
}

/// The last record of the catalog with this id, if any.
pub open spec fn last_with_id(ms: Seq<ModelInfoView>, k: Seq<char>) -> Option<ModelInfoView>
    decreases ms.len(),
{
    if ms.len() == 0 {
        None
    } else if ms.last().id == k {
        Some(ms.last())
    } else {
        last_with_id(ms.drop_last(), k)
    }
}

proof fn lemma_find_key_push(es: Seq<EntryView>, e: EntryView, k: Seq<char>)
    ensures
        find_key(es.push(e), k) == if find_key(es, k) != -1 {
            find_key(es, k)
        } else if e.0 == k {
            es.len() as int
        } else {
            -1
        },
    decreases es.len(),
{
    let n = es.push(e);
    if es.len() == 0 {
        assert(n[0] == e);
        assert(n.drop_first() =~= Seq::<EntryView>::empty());
        assert(find_key(Seq::<EntryView>::empty(), k) == -1);
        if e.0 == k {
            assert(find_key(n, k) == 0);
        } else {
            assert(find_key(n, k) == -1);
        }
    } else {
        assert(n[0] == es[0]);
        if es[0].0 != k {
            assert(n.drop_first() =~= es.drop_first().push(e));
            lemma_find_key_push(es.drop_first(), e, k);
            let d = es.drop_first();
            let r1 = find_key(d.push(e), k);
            assert(find_key(n.drop_first(), k) == r1);
            assert(n.len() > 0 && n[0].0 != k);
            assert(find_key(n, k) == if r1 == -1 { -1 } else { r1 + 1 });
            let r0 = find_key(d, k);
            assert(find_key(es, k) == if r0 == -1 { -1 } else { r0 + 1 });
            assert(r1 == if r0 != -1 { r0 } else if e.0 == k { d.len() as int } else { -1 });
            if r0 != -1 {
                lemma_find_key_props(d, k);
                assert(r1 >= 0);
                assert(find_key(n, k) == r0 + 1);
            } else if e.0 == k {
                assert(r1 == d.len() as int);
                assert(find_key(n, k) == d.len() + 1);
                assert(d.len() + 1 == es.len() as int);
            } else {
                assert(find_key(n, k) == -1);
            }
        }
    }
}

proof fn lemma_find_key_same_keys(a: Seq<EntryView>, b: Seq<EntryView>, k: Seq<char>)
    requires
        a.len() == b.len(),
        forall|i: int| 0 <= i < a.len() ==> a[i].0 == b[i].0,
    ensures
        find_key(a, k) == find_key(b, k),
    decreases a.len(),
{
    if a.len() > 0 {
        assert(a[0].0 == b[0].0);
        if a[0].0 != k {
            assert forall|i: int| 0 <= i < a.drop_first().len() implies a.drop_first()[i].0
                == b.drop_first()[i].0 by {
                assert(a.drop_first()[i] == a[i + 1]);
                assert(b.drop_first()[i] == b[i + 1]);
            }
            lemma_find_key_same_keys(a.drop_first(), b.drop_first(), k);
        }
    }
}

/// How one assoc write changes every lookup: the written key now maps to
/// the value, every other key is untouched.
pub proof fn lemma_assoc_update_lookup(es: Seq<EntryView>, k: Seq<char>, v: ModelInfoView, k2: Seq<char>)
    ensures
        lookup_key(assoc_update(es, k, v), k2) == if k2 == k {
            Some(v)
        } else {
            lookup_key(es, k2)
        },
{
    let j = find_key(es, k);
    lemma_find_key_props(es, k);
    if j == -1 {
        let n = es.push((k, v));
        lemma_find_key_push(es, (k, v), k2);
        lemma_find_key_props(es, k2);
        if k2 == k {
            assert(find_key(es, k2) == -1);
            assert(n[es.len() as int] == (k, v));
        } else {
            if find_key(es, k2) != -1 {
                assert(n[find_key(es, k2)] == es[find_key(es, k2)]);
            }
        }
    } else {
        let n = es.update(j, (k, v));
        assert(es[j].0 == k);
        assert forall|i: int| 0 <= i < es.len() implies es[i].0 == n[i].0 by {}
        lemma_find_key_same_keys(n, es, k2);
        lemma_find_key_props(es, k2);
        if k2 == k {
            assert(find_key(es, k2) == j) by {
                if find_key(es, k2) < j {
                    assert(es[find_key(es, k2)].0 == k2);
                } else if find_key(es, k2) > j {
                    assert(es[j].0 != k2);
                }
            }
            assert(n[j] == (k, v));
        } else {
            if find_key(es, k2) != -1 {
                assert(es[find_key(es, k2)].0 == k2);
                assert(find_key(es, k2) != j);
                assert(n[find_key(es, k2)] == es[find_key(es, k2)]);
            }
        }
    }
}

/// Looking up in an overlay reads the overlay entries first, the base
/// otherwise.
pub proof fn lemma_overlay_lookup(base: Seq<EntryView>, extra: Seq<EntryView>, k: Seq<char>)
    requires
        uniq_keys(extra),
    ensures
        lookup_key(overlay(base, extra), k) == match lookup_key(extra, k) {
            Some(v) => Some(v),
            None => lookup_key(base, k),
        },
    decreases extra.len(),
{
    if extra.len() == 0 {
        lemma_find_key_props(extra, k);
    } else {
        let e = extra.last();
        let p = extra.drop_last();
        assert(uniq_keys(p)) by {
            assert(forall|i: int| 0 <= i < p.len() ==> p[i] == extra[i]);
        }
        lemma_overlay_lookup(base, p, k);
        lemma_assoc_update_lookup(overlay(base, p), e.0, e.1, k);
        lemma_find_key_push(p, e, k);
        lemma_find_key_props(p, k);
        lemma_find_key_props(extra, k);
        assert(extra =~= p.push(e));
        if k == e.0 {
            assert(find_key(p, k) == -1) by {
                if find_key(p, k) != -1 {
                    let i = find_key(p, k);
                    assert(extra[i].0 == k);
                    assert(extra[extra.len() - 1].0 == k);
                    assert(i < extra.len() - 1);
                }
            }
            assert(find_key(extra, k) == extra.len() - 1);
        } else {
            if find_key(extra, k) != -1 {
                assert(extra[find_key(extra, k)] == p[find_key(extra, k)]);
            }
        }
    }
}

/// The alias fold keeps one entry per alias.
pub proof fn lemma_alias_entries_uniq(ms: Seq<ModelInfoView>, plat: Platform)
    ensures
        uniq_keys(alias_entries(ms, plat)),
    decreases ms.len(),
{
    if ms.len() > 0 {
        let p = alias_entries(ms.drop_last(), plat);
        let m = ms.last();
        let j = find_key(p, m.alias);
        lemma_alias_entries_uniq(ms.drop_last(), plat);
        lemma_find_key_props(p, m.alias);
        if j == -1 {
            let n = p.push((m.alias, m));
            assert forall|a: int, b: int| 0 <= a < b < n.len() implies n[a].0 != n[b].0 by {
                if b < p.len() {
                    assert(n[a] == p[a] && n[b] == p[b]);
                } else {
                    assert(n[a] == p[a]);
                    assert(n[b].0 == m.alias);
                    assert(p[a].0 != m.alias);
                }
            }
        } else {
            let n = p.update(j, (m.alias, pick(p[j].1, m, plat)));
            assert(p[j].0 == m.alias);
            assert forall|a: int, b: int| 0 <= a < b < n.len() implies n[a].0 != n[b].0 by {
                assert(n[a].0 == p[a].0 && n[b].0 == p[b].0);
            }
        }
    }
}

/// The alias fold holds, for every alias present, the preferred record of
/// its candidates, and nothing for any other key.
pub proof fn lemma_alias_entries_lookup(ms: Seq<ModelInfoView>, plat: Platform, k: Seq<char>)
    ensures
        lookup_key(alias_entries(ms, plat), k) == if alias_candidates(ms, k).len() > 0 {
            Some(best_of(alias_candidates(ms, k), plat))
        } else {
            None
        },
    decreases ms.len(),
{
    if ms.len() == 0 {
        lemma_find_key_props(alias_entries(ms, plat), k);
    } else {
        let ms2 = ms.drop_last();
        let m = ms.last();
        let p = alias_entries(ms2, plat);
        let j = find_key(p, m.alias);
        lemma_alias_entries_lookup(ms2, plat, k);
        lemma_find_key_props(p, m.alias);
        lemma_find_key_props(p, k);
        let cands2 = alias_candidates(ms2, k);
        if k == m.alias {
            let cands = alias_candidates(ms, k);
            assert(cands == cands2.push(m));
            if j == -1 {
                // First record of this alias.
                assert(lookup_key(p, k) is None);
                assert(cands2.len() == 0);
                assert(cands.len() == 1);
                assert(cands[0] == m);
                let n = p.push((m.alias, m));
                lemma_find_key_push(p, (m.alias, m), k);
                assert(find_key(n, k) == p.len() as int);
                assert(n[p.len() as int].1 == m);
            } else {
                assert(lookup_key(p, k) == Some(p[j].1));
                assert(cands2.len() > 0);
                assert(p[j].1 == best_of(cands2, plat));
                let n = p.update(j, (m.alias, pick(p[j].1, m, plat)));
                assert forall|i: int| 0 <= i < p.len() implies p[i].0 == n[i].0 by {}
                lemma_find_key_same_keys(n, p, k);
                assert(find_key(n, k) == j);
                assert(cands.drop_last() =~= cands2);
                assert(cands.len() > 1);
                assert(best_of(cands, plat) == pick(best_of(cands2, plat), m, plat));
                assert(n[j].1 == pick(p[j].1, m, plat));
            }
        } else {
            assert(alias_candidates(ms, k) == cands2);
            if j == -1 {
                let n = p.push((m.alias, m));
                lemma_find_key_push(p, (m.alias, m), k);
                if find_key(p, k) != -1 {
                    assert(n[find_key(p, k)] == p[find_key(p, k)]);
                }
            } else {
                let n = p.update(j, (m.alias, pick(p[j].1, m, plat)));
                assert(p[j].0 == m.alias);
                assert forall|i: int| 0 <= i < p.len() implies p[i].0 == n[i].0 by {}
                lemma_find_key_same_keys(n, p, k);
                if find_key(p, k) != -1 {
                    assert(p[find_key(p, k)].0 == k);
                    assert(find_key(p, k) != j);
                    assert(n[find_key(p, k)] == p[find_key(p, k)]);
                }
            }
        }
    }
}

/// The id entries hold, for every id present, the last record listed with
/// it, and nothing for any other key.
pub proof fn lemma_id_entries_lookup(ms: Seq<ModelInfoView>, k: Seq<char>)
    ensures
        lookup_key(id_entries(ms), k) == last_with_id(ms, k),
    decreases ms.len(),
{
    if ms.len() == 0 {
        lemma_find_key_props(id_entries(ms), k);
    } else {
        lemma_id_entries_lookup(ms.drop_last(), k);
        lemma_assoc_update_lookup(id_entries(ms.drop_last()), ms.last().id, ms.last(), k);
    }
}

/// The whole catalog index, pointwise: an alias key maps to the preferred
/// record of its candidates; any other key maps to the last record with
/// that id; everything else is absent. An id that collides with another
/// model's alias is shadowed by the alias entry.
pub proof fn lemma_catalog_lookup(ms: Seq<ModelInfoView>, plat: Platform, k: Seq<char>)
    ensures
        lookup_key(catalog_entries(ms, plat), k) == if alias_candidates(ms, k).len() > 0 {
            Some(best_of(alias_candidates(ms, k), plat))
        } else {
            last_with_id(ms, k)
        },
{
    lemma_alias_entries_uniq(ms, plat);
    lemma_overlay_lookup(id_entries(ms), alias_entries(ms, plat), k);
    lemma_alias_entries_lookup(ms, plat, k);
    lemma_id_entries_lookup(ms, k);
}

/// The preferred record of a candidate list is one of the candidates, has
/// the best provider rank among them, and the highest version among those
/// of that rank.
pub proof fn lemma_best_of_props(cands: Seq<ModelInfoView>, plat: Platform)
    requires
        cands.len() > 0,
    ensures
        exists|i: int| 0 <= i < cands.len() && cands[i] == best_of(cands, plat),
        forall|i: int|
            0 <= i < cands.len() ==> priority_of(best_of(cands, plat).runtime, plat)
                <= priority_of(#[trigger] cands[i].runtime, plat),
        forall|i: int|
            0 <= i < cands.len() && priority_of(#[trigger] cands[i].runtime, plat) == priority_of(
                best_of(cands, plat).runtime,
                plat,
            ) ==> version_of(cands[i].id) <= version_of(best_of(cands, plat).id),
    decreases cands.len(),
{
    if cands.len() == 1 {
        assert(cands[0] == best_of(cands, plat));
    } else {
        let p = cands.drop_last();
        let m = cands.last();
        lemma_best_of_props(p, plat);
        let b = best_of(p, plat);
        let w = best_of(cands, plat);
        assert(w == pick(b, m, plat));
        assert(forall|i: int| 0 <= i < p.len() ==> p[i] == cands[i]);
        if preferred_over(b, m, plat) {
            assert(w == b);
            let i0 = choose|i: int| 0 <= i < p.len() && p[i] == b;
            assert(cands[i0] == w);
        } else {
            assert(w == m);
            assert(cands[cands.len() - 1] == w);
            // Not strictly preferred: the last record ranks at least as
            // well, and on a rank tie its version is at least as high.
            assert forall|i: int| 0 <= i < cands.len() implies priority_of(w.runtime, plat)
                <= priority_of(#[trigger] cands[i].runtime, plat) by {
                if i < p.len() {
                    assert(priority_of(b.runtime, plat) <= priority_of(cands[i].runtime, plat));
                }
            }
            assert forall|i: int|
                0 <= i < cands.len() && priority_of(#[trigger] cands[i].runtime, plat)
                    == priority_of(w.runtime, plat) implies version_of(cands[i].id) <= version_of(
                w.id,
            ) by {
                if i < p.len() {
                    assert(priority_of(b.runtime, plat) <= priority_of(cands[i].runtime, plat));
                }
            }
        }
    }
}

/// Wherever a QNN variant is among the candidates, the preferred record is
/// the QNN one, on either platform flavor.
pub proof fn lemma_qnn_preferred(cands: Seq<ModelInfoView>, plat: Platform, i: int)
    requires
        0 <= i < cands.len(),
        cands[i].runtime == ExecutionProvider::QNN,
    ensures
        best_of(cands, plat).runtime == ExecutionProvider::QNN,
{
    lemma_best_of_props(cands, plat);
}

/// On a unified-memory host the CPU provider ranks strictly last.
pub proof fn lemma_cpu_demoted_on_unified(p: ExecutionProvider)
    ensures
        p != ExecutionProvider::CPU ==> priority_of(p, Platform::UnifiedMemory) < priority_of(
            ExecutionProvider::CPU,
            Platform::UnifiedMemory,
        ),
{
}

/// On a unified-memory host a CPU variant is preferred only when nothing
/// else is offered.
pub proof fn lemma_cpu_only_without_alternative(cands: Seq<ModelInfoView>, i: int)
    requires
        0 <= i < cands.len(),
        cands[i].runtime != ExecutionProvider::CPU,
    ensures
        best_of(cands, Platform::UnifiedMemory).runtime != ExecutionProvider::CPU,
{
    lemma_best_of_props(cands, Platform::UnifiedMemory);
}

/// Among candidates of one provider, the preferred record carries the
/// highest id version suffix.
pub proof fn lemma_version_tiebreak(cands: Seq<ModelInfoView>, plat: Platform)
    requires
        cands.len() > 0,
        forall|i: int| 0 <= i < cands.len() ==> #[trigger] cands[i].runtime == cands[0].runtime,
    ensures
        exists|i: int| 0 <= i < cands.len() && cands[i] == best_of(cands, plat),
        forall|i: int|
            0 <= i < cands.len() ==> version_of(#[trigger] cands[i].id) <= version_of(
                best_of(cands, plat).id,
            ),
{
    lemma_best_of_props(cands, plat);
    let w = best_of(cands, plat);
    let iw = choose|i: int| 0 <= i < cands.len() && cands[i] == w;
    assert forall|i: int| 0 <= i < cands.len() implies version_of(#[trigger] cands[i].id)
        <= version_of(w.id) by {
        assert(cands[i].runtime == cands[0].runtime);
        assert(cands[iw].runtime == cands[0].runtime);
        assert(priority_of(cands[i].runtime, plat) == priority_of(w.runtime, plat));
    }
}

/// Resolution is a pure function of catalog content and platform: equal
/// catalogs index identically.
pub proof fn lemma_index_deterministic(
    ms1: Seq<ModelInfoView>,
    ms2: Seq<ModelInfoView>,
    plat: Platform,
)
    requires
        ms1 == ms2,
    ensures
        catalog_entries(ms1, plat) == catalog_entries(ms2, plat),
{
}

} // verus!
