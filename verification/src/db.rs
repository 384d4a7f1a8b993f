//! The metadata store: three append-only/near-append-only relations.
//!
//! The engine works on these in-memory tables; persisting them (a SQLite file
//! in the usual setup) is the caller's concern. No operation here touches a
//! disk, so none can fail; each mutation is single-row and leaves the other
//! tables untouched.

use vstd::prelude::*;


use crate::Error;
use crate::config::ConfigRow;
use crate::config::ConfigRowV;
use crate::dirmap::DirectoryMap;
use crate::dirmap::MapRow;
use crate::dirmap::MapRowV;
use crate::dirmap::cur_map_of;
use crate::version::Version;
use crate::version::VersionV;
use crate::version::cur_version_of;
use crate::version::retagged;

verus! {

/// The three relations of the store.
pub struct Database {
    pub configs: Vec<ConfigRow>,
    pub versions: Vec<Version>,
    pub maps: Vec<MapRow>,
}

/// The mathematical value of the store.
pub ghost struct DatabaseV {
    pub configs: Seq<ConfigRowV>,
    pub versions: Seq<VersionV>,
    pub maps: Seq<MapRowV>,
}

impl View for Database {
    type V = DatabaseV;

    open spec fn view(&self) -> DatabaseV {
        DatabaseV {
            configs: self.configs.deep_view(),
            versions: self.versions.deep_view(),
            maps: self.maps.deep_view(),
        }
    }
}

/// At most one version row may exist per `(owner, ver)` pair, and at most one
/// map row per `(blob, ver)` pair: the logical invariant referential pushes
/// maintain. The store itself does not enforce it on inserts.
pub open spec fn distinct_version_keys(rows: Seq<VersionV>) -> bool {
    forall|i: int, j: int|
        0 <= i < j < rows.len() ==> !(rows[i].owner == rows[j].owner && rows[i].ver
            == rows[j].ver)
}

pub open spec fn distinct_map_keys(rows: Seq<MapRowV>) -> bool {
    forall|i: int, j: int|
        0 <= i < j < rows.len() ==> !(rows[i].blob == rows[j].blob && rows[i].ver == rows[j].ver)
}

impl DatabaseV {
    /// Well-formedness of the store: the per-owner uniqueness invariants hold.
    pub open spec fn wf(self) -> bool {
        &&& distinct_version_keys(self.versions)
        &&& distinct_map_keys(self.maps)
    }
}

/// A version row survives de-duplication by content ("is live") when no other
/// row of the same owner carries the same content hash with a higher version
/// number: identical content across different version numbers is
/// indistinguishable for selection purposes, and only the newest survives.
pub open spec fn is_live(rows: Seq<VersionV>, owner: Seq<char>, v: VersionV) -> bool {
    &&& v.owner == owner
    &&& forall|j: int|
        0 <= j < rows.len() && rows[j].owner == owner && rows[j].data_hash == v.data_hash
            ==> rows[j].ver <= v.ver
}

pub open spec fn dedup_rec(
    all: Seq<VersionV>,
    rows: Seq<VersionV>,
    owner: Seq<char>,
) -> Seq<VersionV>
    decreases rows.len(),
{
    if rows.len() == 0 {
        Seq::empty()
    } else {
        let pre = dedup_rec(all, rows.drop_last(), owner);
        if is_live(all, owner, rows.last()) {
            pre.push(rows.last())
        } else {
            pre
        }
    }
}

/// The version set of one owner after de-duplication by content: the live
/// rows, in table order.
pub open spec fn dedup_of(rows: Seq<VersionV>, owner: Seq<char>) -> Seq<VersionV> {
    dedup_rec(rows, rows, owner)
}

/// The canonical path stored for an identity: the `map_path` of the first
/// config row carrying that identity.
pub open spec fn mapped_path_of(rows: Seq<ConfigRowV>, id: Seq<char>) -> Option<Seq<char>>
    decreases rows.len(),
{
    if rows.len() == 0 {
        None
    } else if rows[0].id == id {
        Some(rows[0].map_path)
    } else {
        mapped_path_of(rows.drop_first(), id)
    }
}

/// The identity stored for a canonical path: the `id` of the first config row
/// carrying that path.
pub open spec fn config_id_of(rows: Seq<ConfigRowV>, map_path: Seq<char>) -> Option<Seq<char>>
    decreases rows.len(),
{
    if rows.len() == 0 {
        None
    } else if rows[0].map_path == map_path {
        Some(rows[0].id)
    } else {
        config_id_of(rows.drop_first(), map_path)
    }
}

/// The config rows after a reclassification of one identity's `subset`.
pub open spec fn resubset(
    rows: Seq<ConfigRowV>,
    id: Seq<char>,
    subset: Seq<char>,
) -> Seq<ConfigRowV> {
    Seq::new(
        rows.len(),
        |i: int|
            if rows[i].id == id {
                ConfigRowV { subset: subset, ..rows[i] }
            } else {
                rows[i]
            },
    )
}

/// The config rows after a reclassification of one identity's `family`.
pub open spec fn refamily(
    rows: Seq<ConfigRowV>,
    id: Seq<char>,
    family: Seq<char>,
) -> Seq<ConfigRowV> {
    Seq::new(
        rows.len(),
        |i: int|
            if rows[i].id == id {
                ConfigRowV { family: family, ..rows[i] }
            } else {
                rows[i]
            },
    )
}

/// Decides whether a row survives de-duplication by content.
fn row_is_live(versions: &Vec<Version>, owner: &String, v: &Version) -> (r: bool)
    ensures
        r == is_live(versions.deep_view(), owner@, v@),
{
    let ghost all = versions.deep_view();
    if !(v.owner == *owner) {
        return false;
    }
    let n = versions.len();
    for j in 0..n
        invariant
            n == versions.len(),
            all == versions.deep_view(),
            v@.owner == owner@,
            forall|k: int|
                0 <= k < j ==> !(all[k].owner == owner@ && all[k].data_hash == v@.data_hash
                    && all[k].ver > v@.ver),
    {
        let w = &versions[j];
        proof {
            assert(all[j as int] == versions@[j as int]@);
        }
        if w.owner == *owner && w.data_hash == v.data_hash && w.ver > v.ver {
            proof {
                assert(all[j as int].owner == owner@ && all[j as int].data_hash == v@.data_hash
                    && all[j as int].ver > v@.ver);
                assert(!is_live(all, owner@, v@));
            }
            return false;
        }
    }
    true
}

impl Database {
    /// An empty store.
    pub fn new() -> (r: Database)
        ensures
            r@.configs == Seq::<ConfigRowV>::empty(),
            r@.versions == Seq::<VersionV>::empty(),
            r@.maps == Seq::<MapRowV>::empty(),
    {
        let r = Database { configs: Vec::new(), versions: Vec::new(), maps: Vec::new() };
        proof {
            assert(r@.configs =~= Seq::<ConfigRowV>::empty());
            assert(r@.versions =~= Seq::<VersionV>::empty());
            assert(r@.maps =~= Seq::<MapRowV>::empty());
        }
        r
    }

    /// Checks the store's uniqueness invariants: at most one version row per
    /// `(owner, ver)` pair and one map row per `(blob, ver)` pair.
    pub fn is_valid(&self) -> (r: bool)
        ensures
            r == self@.wf(),
    {
        let n = self.versions.len();
        for i in 0..n
            invariant
                n == self.versions.len(),
                forall|a: int, b: int|
                    0 <= a < b < self@.versions.len() && a < i ==> !(self@.versions[a].owner
                        == self@.versions[b].owner && self@.versions[a].ver
                        == self@.versions[b].ver),
        {
            for j in (i + 1)..n
                invariant
                    n == self.versions.len(),
                    i < n,
                    forall|a: int, b: int|
                        0 <= a < b < self@.versions.len() && a < i ==> !(self@.versions[a].owner
                            == self@.versions[b].owner && self@.versions[a].ver
                            == self@.versions[b].ver),
                    forall|b: int|
                        i < b < j ==> !(self@.versions[i as int].owner == self@.versions[b].owner
                            && self@.versions[i as int].ver == self@.versions[b].ver),
            {
                if self.versions[i].owner == self.versions[j].owner && self.versions[i].ver
                    == self.versions[j].ver {
                    proof {
                        assert(self@.versions[i as int].owner == self@.versions[j as int].owner
                            && self@.versions[i as int].ver == self@.versions[j as int].ver);
                        assert(!distinct_version_keys(self@.versions));
                    }
                    return false;
                }
            }
        }
        let m = self.maps.len();
        for i in 0..m
            invariant
                m == self.maps.len(),
                distinct_version_keys(self@.versions),
                forall|a: int, b: int|
                    0 <= a < b < self@.maps.len() && a < i ==> !(self@.maps[a].blob
                        == self@.maps[b].blob && self@.maps[a].ver == self@.maps[b].ver),
        {
            for j in (i + 1)..m
                invariant
                    m == self.maps.len(),
                    i < m,
                    distinct_version_keys(self@.versions),
                    forall|a: int, b: int|
                        0 <= a < b < self@.maps.len() && a < i ==> !(self@.maps[a].blob
                            == self@.maps[b].blob && self@.maps[a].ver == self@.maps[b].ver),
                    forall|b: int|
                        i < b < j ==> !(self@.maps[i as int].blob == self@.maps[b].blob
                            && self@.maps[i as int].ver == self@.maps[b].ver),
            {
                if self.maps[i].blob == self.maps[j].blob && self.maps[i].ver == self.maps[j].ver {
                    proof {
                        assert(self@.maps[i as int].blob == self@.maps[j as int].blob
                            && self@.maps[i as int].ver == self@.maps[j as int].ver);
                        assert(!distinct_map_keys(self@.maps));
                    }
                    return false;
                }
            }
        }
        true
    }

    /// The version set of an owner, de-duplicated by content: for every
    /// content hash ever pushed for the owner, the row with the highest
    /// version number carrying it, in table order.
    pub fn get_versions(&self, owner: &String) -> (r: Vec<Version>)
        ensures
            r.deep_view() == dedup_of(self@.versions, owner@),
    {
        let mut r: Vec<Version> = Vec::new();
        let ghost all = self@.versions;
        let n = self.versions.len();
        proof {
            assert(r.deep_view() =~= dedup_rec(all, all.take(0), owner@));
        }
        for i in 0..n
            invariant
                n == self.versions.len(),
                all == self@.versions,
                r.deep_view() == dedup_rec(all, all.take(i as int), owner@),
        {
            let v = &self.versions[i];
            proof {
                assert(all[i as int] == self.versions@[i as int]@);
            }
            let live = row_is_live(&self.versions, owner, v);
            if live {
                let d = v.duplicate();
                r.push(d);
            }
            proof {
                assert(all.take(i + 1).drop_last() =~= all.take(i as int));
                assert(all.take(i + 1).last() == all[i as int]);
                assert(r.deep_view() =~= dedup_rec(all, all.take(i + 1), owner@));
            }
        }
        proof {
            assert(all.take(n as int) =~= all);
        }
        r
    }

    /// The current version of an owner: the row with the highest version
    /// number; `None` if the owner was never pushed.
    pub fn get_current_version(&self, owner: &String) -> (r: Option<Version>)
        ensures
            r.deep_view() == cur_version_of(self@.versions, owner@),
    {
        let ghost all = self@.versions;
        let mut best: Option<usize> = None;
        let n = self.versions.len();
        for i in 0..n
            invariant
                n == self.versions.len(),
                all == self@.versions,
                match best {
                    Option::None => cur_version_of(all.take(i as int), owner@) is None,
                    Option::Some(b) => b < i && cur_version_of(all.take(i as int), owner@)
                        == Some(all[b as int]),
                },
        {
            let v = &self.versions[i];
            proof {
                assert(all.take(i + 1).drop_last() =~= all.take(i as int));
                assert(all.take(i + 1).last() == all[i as int]);
            }
            if v.owner == *owner {
                match best {
                    Option::None => {
                        best = Some(i);
                    },
                    Option::Some(b) => {
                        if v.ver > self.versions[b].ver {
                            best = Some(i);
                        }
                    },
                }
            }
        }
        proof {
            assert(all.take(n as int) =~= all);
        }
        match best {
            Option::None => None,
            Option::Some(b) => Some(self.versions[b].duplicate()),
        }
    }

    /// The current map row of a directory identity: the row with the highest
    /// snapshot version; `None` if the directory never produced a snapshot.
    pub fn get_current_map(&self, blob: &String) -> (r: Option<MapRow>)
        ensures
            r.deep_view() == cur_map_of(self@.maps, blob@),
    {
        let ghost all = self@.maps;
        let mut best: Option<usize> = None;
        let n = self.maps.len();
        for i in 0..n
            invariant
                n == self.maps.len(),
                all == self@.maps,
                match best {
                    Option::None => cur_map_of(all.take(i as int), blob@) is None,
                    Option::Some(b) => b < i && cur_map_of(all.take(i as int), blob@) == Some(
                        all[b as int],
                    ),
                },
        {
            let m = &self.maps[i];
            proof {
                assert(all.take(i + 1).drop_last() =~= all.take(i as int));
                assert(all.take(i + 1).last() == all[i as int]);
            }
            if m.blob == *blob {
                match best {
                    Option::None => {
                        best = Some(i);
                    },
                    Option::Some(b) => {
                        if m.ver > self.maps[b].ver {
                            best = Some(i);
                        }
                    },
                }
            }
        }
        proof {
            assert(all.take(n as int) =~= all);
        }
        match best {
            Option::None => None,
            Option::Some(b) => Some(self.maps[b].duplicate()),
        }
    }

    /// The canonical path stored for an identity, used by a pull to know where
    /// to restore.
    pub fn get_mapped_path(&self, config_blob: &String) -> (r: Option<String>)
        ensures
            r.deep_view() == mapped_path_of(self@.configs, config_blob@),
    {
        let ghost all = self@.configs;
        let n = self.configs.len();
        proof {
            assert(all.skip(0) =~= all);
        }
        for i in 0..n
            invariant
                n == self.configs.len(),
                all == self@.configs,
                mapped_path_of(all, config_blob@) == mapped_path_of(
                    all.skip(i as int),
                    config_blob@,
                ),
        {
            proof {
                assert(all.skip(i as int)[0] == all[i as int]);
                assert(all.skip(i as int).drop_first() =~= all.skip(i + 1));
            }
            if self.configs[i].id == *config_blob {
                return Some(self.configs[i].map_path.clone());
            }
        }
        None
    }

    /// The identity stored for a canonical path, if the path has ever been
    /// tracked.
    pub fn config_exists(&self, config_map_path: &String) -> (r: Option<String>)
        ensures
            r.deep_view() == config_id_of(self@.configs, config_map_path@),
    {
        let ghost all = self@.configs;
        let n = self.configs.len();
        proof {
            assert(all.skip(0) =~= all);
        }
        for i in 0..n
            invariant
                n == self.configs.len(),
                all == self@.configs,
                config_id_of(all, config_map_path@) == config_id_of(
                    all.skip(i as int),
                    config_map_path@,
                ),
        {
            proof {
                assert(all.skip(i as int)[0] == all[i as int]);
                assert(all.skip(i as int).drop_first() =~= all.skip(i + 1));
            }
            if self.configs[i].map_path == *config_map_path {
                return Some(self.configs[i].id.clone());
            }
        }
        None
    }

    /// Inserts a config row. The store does not enforce identity uniqueness:
    /// the caller must not insert a duplicate identity.
    pub fn add_config(&mut self, c: &ConfigRow) -> (r: Result<(), Error>)
        ensures
            r is Ok,
            final(self)@.configs == old(self)@.configs.push(c@),
            final(self)@.versions == old(self)@.versions,
            final(self)@.maps == old(self)@.maps,
    {
        let d = ConfigRow {
            id: c.id.clone(),
            subset: c.subset.clone(),
            family: c.family.clone(),
            map_path: c.map_path.clone(),
        };
        self.configs.push(d);
        proof {
            assert(self@.configs =~= old(self)@.configs.push(c@));
        }
        Ok(())
    }

    /// Inserts a version row.
    pub fn add_version(&mut self, v: &Version) -> (r: Result<(), Error>)
        ensures
            r is Ok,
            final(self)@.versions == old(self)@.versions.push(v@),
            final(self)@.configs == old(self)@.configs,
            final(self)@.maps == old(self)@.maps,
    {
        let d = v.duplicate();
        self.versions.push(d);
        proof {
            assert(self@.versions =~= old(self)@.versions.push(v@));
        }
        Ok(())
    }

    /// Inserts the row of a directory snapshot.
    pub fn add_map(&mut self, m: &DirectoryMap) -> (r: Result<(), Error>)
        ensures
            r is Ok,
            final(self)@.maps == old(self)@.maps.push(m@.row()),
            final(self)@.configs == old(self)@.configs,
            final(self)@.versions == old(self)@.versions,
    {
        let d = MapRow {
            blob: m.blob.clone(),
            ver: m.ver,
            hash: m.hash.clone(),
            tag: m.tag.clone(),
        };
        self.maps.push(d);
        proof {
            assert(self@.maps =~= old(self)@.maps.push(m@.row()));
        }
        Ok(())
    }

    /// Corrects the tag of the version row `(v.owner, v.ver)` in place. No new
    /// version is allocated.
    pub fn update_version_tag(&mut self, v: &Version, tag: &String) -> (r: Result<(), Error>)
        ensures
            r is Ok,
            final(self)@.versions == retagged(old(self)@.versions, v@.owner, v@.ver, tag@),
            final(self)@.configs == old(self)@.configs,
            final(self)@.maps == old(self)@.maps,
    {
        let ghost orig = old(self)@.versions;
        let ghost goal = retagged(old(self)@.versions, v@.owner, v@.ver, tag@);
        let n = self.versions.len();
        let mut out: Vec<Version> = Vec::new();
        proof {
            assert(goal.len() == orig.len());
        }
        for i in 0..n
            invariant
                n == self.versions.len(),
                self@.versions == orig,
                goal == retagged(orig, v@.owner, v@.ver, tag@),
                goal.len() == n,
                out@.len() == i,
                forall|k: int| 0 <= k < i ==> out@[k]@ == goal[k],
        {
            let row = &self.versions[i];
            proof {
                assert(row@ == orig[i as int]);
            }
            let w = if row.owner == v.owner && row.ver == v.ver {
                Version {
                    data_hash: row.data_hash.clone(),
                    ver: row.ver,
                    tag: tag.clone(),
                    owner: row.owner.clone(),
                }
            } else {
                row.duplicate()
            };
            proof {
                assert(w@ == goal[i as int]);
            }
            out.push(w);
        }
        proof {
            assert forall|k: int| 0 <= k < goal.len() implies out.deep_view()[k] == goal[k] by {
                assert(out.deep_view()[k] == out@[k]@);
            }
            assert(out.deep_view() =~= goal);
        }
        self.versions = out;
        Ok(())
    }

    /// Reclassifies an identity's `subset` in place.
    pub fn update_subset(&mut self, blob: &String, subset: &String) -> (r: Result<(), Error>)
        ensures
            r is Ok,
            final(self)@.configs == resubset(old(self)@.configs, blob@, subset@),
            final(self)@.versions == old(self)@.versions,
            final(self)@.maps == old(self)@.maps,
    {
        let ghost orig = old(self)@.configs;
        let ghost goal = resubset(old(self)@.configs, blob@, subset@);
        let n = self.configs.len();
        let mut out: Vec<ConfigRow> = Vec::new();
        proof {
            assert(goal.len() == orig.len());
        }
        for i in 0..n
            invariant
                n == self.configs.len(),
                self@.configs == orig,
                goal == resubset(orig, blob@, subset@),
                goal.len() == n,
                out@.len() == i,
                forall|k: int| 0 <= k < i ==> out@[k]@ == goal[k],
        {
            let row = &self.configs[i];
            proof {
                assert(row@ == orig[i as int]);
            }
            let w = if row.id == *blob {
                ConfigRow {
                    id: row.id.clone(),
                    subset: subset.clone(),
                    family: row.family.clone(),
                    map_path: row.map_path.clone(),
                }
            } else {
                ConfigRow {
                    id: row.id.clone(),
                    subset: row.subset.clone(),
                    family: row.family.clone(),
                    map_path: row.map_path.clone(),
                }
            };
            proof {
                assert(w@ == goal[i as int]);
            }
            out.push(w);
        }
        proof {
            assert forall|k: int| 0 <= k < goal.len() implies out.deep_view()[k] == goal[k] by {
                assert(out.deep_view()[k] == out@[k]@);
            }
            assert(out.deep_view() =~= goal);
        }
        self.configs = out;
        Ok(())
    }

    /// Reclassifies an identity's `family` in place.
    pub fn update_family(&mut self, blob: &String, family: &String) -> (r: Result<(), Error>)
        ensures
            r is Ok,
            final(self)@.configs == refamily(old(self)@.configs, blob@, family@),
            final(self)@.versions == old(self)@.versions,
            final(self)@.maps == old(self)@.maps,
    {
        let ghost orig = old(self)@.configs;
        let ghost goal = refamily(old(self)@.configs, blob@, family@);
        let n = self.configs.len();
        let mut out: Vec<ConfigRow> = Vec::new();
        proof {
            assert(goal.len() == orig.len());
        }
        for i in 0..n
            invariant
                n == self.configs.len(),
                self@.configs == orig,
                goal == refamily(orig, blob@, family@),
                goal.len() == n,
                out@.len() == i,
                forall|k: int| 0 <= k < i ==> out@[k]@ == goal[k],
        {
            let row = &self.configs[i];
            proof {
                assert(row@ == orig[i as int]);
            }
            let w = if row.id == *blob {
                ConfigRow {
                    id: row.id.clone(),
                    subset: row.subset.clone(),
                    family: family.clone(),
                    map_path: row.map_path.clone(),
                }
            } else {
                ConfigRow {
                    id: row.id.clone(),
                    subset: row.subset.clone(),
                    family: row.family.clone(),
                    map_path: row.map_path.clone(),
                }
            };
            proof {
                assert(w@ == goal[i as int]);
            }
            out.push(w);
        }
        proof {
            assert forall|k: int| 0 <= k < goal.len() implies out.deep_view()[k] == goal[k] by {
                assert(out.deep_view()[k] == out@[k]@);
            }
            assert(out.deep_view() =~= goal);
        }
        self.configs = out;
        Ok(())
    }
}

} // verus!
