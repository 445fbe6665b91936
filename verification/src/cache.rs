//! The snapshot of a project kept on disk, and where it is kept.
use vstd::prelude::*;

use crate::api::client::ProjectData;
use crate::config::app_dir_name;
use crate::model::project_item::{ProjectItem, StatusColumn, Timestamp, items_view, lemma_items_view_push};
use crate::api::types::{columns_view, lemma_columns_view_push};
use crate::paths::{PathError, cache_dir, join_text, path_join};
use vstd::utf8::encode_utf8;

verus! {

/// The data of a project as last fetched, and when.
#[derive(Debug)]
pub struct CachedSnapshot {
    pub fetched_at: Timestamp,
    pub project_title: String,
    pub status_columns: Vec<StatusColumn>,
    pub items: Vec<ProjectItem>,
}

/// Where the snapshot is stored (the bytes of its path).
#[derive(Debug)]
pub struct CacheStore {
    path: Vec<u8>,
}

/// `cache.json`
pub open spec fn cache_file_name() -> Seq<char> {
    seq!['c', 'a', 'c', 'h', 'e', '.', 'j', 's', 'o', 'n']
}

/// The cache file inside the cache directory `dir`.
pub open spec fn cache_file_in(dir: Seq<u8>) -> Seq<u8> {
    path_join(path_join(dir, encode_utf8(app_dir_name())), encode_utf8(cache_file_name()))
}

/// A copy of a list of columns.
pub fn copy_columns(v: &Vec<StatusColumn>) -> (r: Vec<StatusColumn>)
    ensures
        columns_view(r@) == columns_view(v@),
{
    let mut r: Vec<StatusColumn> = Vec::new();
    let mut i: usize = 0;
    while i < v.len()
        invariant
            i <= v.len(),
            columns_view(r@) == columns_view(v@.take(i as int)),
        decreases v.len() - i,
    {
        let ghost before = r@;
        let c = v[i].duplicate();
        r.push(c);
        assert(r@ =~= before.push(c));
        assert(v@.take(i + 1) =~= v@.take(i as int).push(v@[i as int]));
        proof {
            lemma_columns_view_push(before, c);
            lemma_columns_view_push(v@.take(i as int), v@[i as int]);
        }
        i = i + 1;
    }
    assert(v@.take(v.len() as int) =~= v@);
    r
}

/// A copy of a list of items.
pub fn copy_items(v: &Vec<ProjectItem>) -> (r: Vec<ProjectItem>)
    ensures
        items_view(r@) == items_view(v@),
{
    let mut r: Vec<ProjectItem> = Vec::new();
    let mut i: usize = 0;
    while i < v.len()
        invariant
            i <= v.len(),
            items_view(r@) == items_view(v@.take(i as int)),
        decreases v.len() - i,
    {
        let ghost before = r@;
        let c = v[i].duplicate();
        r.push(c);
        assert(r@ =~= before.push(c));
        assert(v@.take(i + 1) =~= v@.take(i as int).push(v@[i as int]));
        proof {
            lemma_items_view_push(before, c);
            lemma_items_view_push(v@.take(i as int), v@[i as int]);
        }
        i = i + 1;
    }
    assert(v@.take(v.len() as int) =~= v@);
    r
}

impl CachedSnapshot {
    /// The snapshot of freshly fetched data.
    pub fn of_data(data: &ProjectData, fetched_at: Timestamp) -> (s: CachedSnapshot)
        ensures
            s.fetched_at == fetched_at,
            s.project_title@ == data.project_title@,
            columns_view(s.status_columns@) == columns_view(data.status_columns@),
            items_view(s.items@) == items_view(data.items@),
    {
        CachedSnapshot {
            fetched_at,
            project_title: data.project_title.clone(),
            status_columns: copy_columns(&data.status_columns),
            items: copy_items(&data.items),
        }
    }
}

impl ProjectData {
    /// The data held by a snapshot, shown when the project cannot be
    /// fetched; the project id is not kept in snapshots and is empty.
    pub fn from_snapshot(snapshot: CachedSnapshot) -> (d: ProjectData)
        ensures
            d.project_id@ == Seq::<char>::empty(),
            d.project_title == snapshot.project_title,
            d.status_columns == snapshot.status_columns,
            d.items == snapshot.items,
    {
        ProjectData {
            project_id: String::new(),
            project_title: snapshot.project_title,
            status_columns: snapshot.status_columns,
            items: snapshot.items,
        }
    }
}

impl CacheStore {
    /// The file the snapshot is stored in.
    pub closed spec fn file(&self) -> Seq<u8> {
        self.path@
    }

    /// The store kept in the cache directory `cache_dir`.
    pub fn in_dir(cache_dir: &[u8]) -> (s: CacheStore)
        ensures
            s.file() == cache_file_in(cache_dir@),
    {
        proof {
            reveal_strlit("flowbit");
            reveal_strlit("cache.json");
            assert("flowbit"@ =~= app_dir_name());
            assert("cache.json"@ =~= cache_file_name());
        }
        let d = join_text(cache_dir, "flowbit");
        CacheStore { path: join_text(d.as_slice(), "cache.json") }
    }

    /// The store in the cache directory of the user (`flowbit/cache.json`
    /// inside it).
    pub fn new() -> (r: Result<CacheStore, PathError>)
        ensures
            match r {
                Ok(s) => exists|d: Seq<u8>| s.file() == cache_file_in(d),
                Err(e) => e == PathError::NoCacheDirectory,
            },
    {
        match cache_dir() {
            Some(d) => Ok(Self::in_dir(d.as_slice())),
            None => Err(PathError::NoCacheDirectory),
        }
    }

    /// The file the snapshot is stored in.
    pub fn path(&self) -> (p: Vec<u8>)
        ensures
            p@ == self.file(),
    {
        crate::paths::copy_bytes(self.path.as_slice())
    }
}

} // verus!
