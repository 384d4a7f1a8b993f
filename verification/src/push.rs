//! The write path: versioning a single object, and versioning a directory
//! snapshot together with every member.

use vstd::prelude::*;

use crate::Error;
use crate::bin::Bin;
use crate::bin::BlobV;
use crate::bin::Manifest;
use crate::bin::ManifestEntry;
use crate::bin::ManifestEntryV;
use crate::bin::ManifestV;
use crate::config::Config;
use crate::config::ConfigV;
use crate::config::UpdateType;
use crate::config::update_decision;
use crate::db::DatabaseV;
use crate::dirmap::DirectoryMap;
use crate::dirmap::DirectoryMapV;
use crate::dirmap::MapRowV;
use crate::dirmap::cur_map_of;
use crate::hash::content_hash_of;
use crate::hash::hash_contents;
use crate::version::Version;
use crate::version::VersionV;
use crate::version::cur_version_of;
use crate::version::retagged;

verus! {

/// The version row a push writes for a config at a given version number.
pub open spec fn new_row(c: ConfigV, ver: u32) -> VersionV {
    VersionV { data_hash: content_hash_of(c.content), ver: ver, tag: c.tag, owner: c.blob }
}

/// The blob store after a push stores a config's content: file content is
/// stored under `(owner, ver)`; a directory has no bytes and stores nothing.
pub open spec fn store_content(
    blobs: Seq<BlobV>,
    owner: Seq<char>,
    ver: u32,
    content: Option<Seq<u8>>,
) -> Seq<BlobV> {
    match content {
        Option::None => blobs,
        Option::Some(d) => blobs.push(BlobV { owner: owner, ver: ver, data: d }),
    }
}

/// What one push does: the stores afterwards, and the version number it
/// reports. `Err` marks the unreachable-but-defended case that the owner's
/// version counter is exhausted.
pub ghost struct PushEffect {
    pub db: DatabaseV,
    pub blobs: Seq<BlobV>,
    pub result: Result<u32, ()>,
}

/// The push state machine for one object, branching exactly as
/// `update_decision` says. A new object is created at version 1, with its
/// version row, its config row and its blob. Changed content advances the
/// chain by exactly one, with a new row and a new blob; nothing already
/// stored moves. A changed tag alone corrects the current row's tag in place:
/// no version is allocated and no blob is written. Otherwise nothing changes.
pub open spec fn spec_push(db: DatabaseV, blobs: Seq<BlobV>, c: ConfigV) -> PushEffect {
    let cur = cur_version_of(db.versions, c.blob);
    match update_decision(cur, content_hash_of(c.content), c.tag) {
        UpdateType::NewConfig => PushEffect {
            db: DatabaseV {
                configs: db.configs.push(c.row()),
                versions: db.versions.push(new_row(c, 1)),
                maps: db.maps,
            },
            blobs: store_content(blobs, c.blob, 1, c.content),
            result: Ok(1),
        },
        UpdateType::UpdateContent => {
            let cv = cur->0;
            if cv.ver == u32::MAX {
                PushEffect { db: db, blobs: blobs, result: Err(()) }
            } else {
                PushEffect {
                    db: DatabaseV {
                        configs: db.configs,
                        versions: db.versions.push(new_row(c, (cv.ver + 1) as u32)),
                        maps: db.maps,
                    },
                    blobs: store_content(blobs, c.blob, (cv.ver + 1) as u32, c.content),
                    result: Ok((cv.ver + 1) as u32),
                }
            }
        },
        UpdateType::UpdateTag => {
            let cv = cur->0;
            PushEffect {
                db: DatabaseV {
                    configs: db.configs,
                    versions: retagged(db.versions, c.blob, cv.ver, c.tag),
                    maps: db.maps,
                },
                blobs: blobs,
                result: Ok(cv.ver),
            }
        },
        UpdateType::NoUpdate => PushEffect { db: db, blobs: blobs, result: Ok(cur->0.ver) },
    }
}

/// Pushes one object: advances its version chain against the metadata store
/// and writes its blob, exactly as `spec_push` says. The blob is written
/// before the metadata row, so a failure between the two can only orphan a
/// blob, never leave a row pointing at missing content.
pub fn push_config(bin: &mut Bin, config: &Config) -> (r: Result<u32, Error>)
    ensures
        final(bin)@.db == spec_push(old(bin)@.db, old(bin)@.blob_store, config@).db,
        final(bin)@.blob_store == spec_push(old(bin)@.db, old(bin)@.blob_store, config@).blobs,
        (match spec_push(old(bin)@.db, old(bin)@.blob_store, config@).result {
            Ok(v) => r == Ok::<u32, Error>(v),
            Err(_) => r == Err::<u32, Error>(Error::Internal),
        }),
        final(bin)@.manifests == old(bin)@.manifests,
        final(bin)@.path == old(bin)@.path,
        final(bin)@.maps == old(bin)@.maps,
        final(bin)@.blobs == old(bin)@.blobs,
{
    let cur = bin.db.get_current_version(&config.blob);
    let new_hash = hash_contents(&config.content);
    proof {
        crate::version::lemma_cur_version_props(old(bin)@.db.versions, config@.blob);
    }
    match cur {
        Option::None => {
            match &config.content {
                Option::Some(d) => {
                    proof {
                        assert(d.deep_view() =~= d@);
                    }
                    let _ = bin.put_blob(&config.blob, 1, d);
                },
                Option::None => {},
            }
            let row = Version {
                data_hash: new_hash,
                ver: 1,
                tag: config.tag.clone(),
                owner: config.blob.clone(),
            };
            let _ = bin.db.add_version(&row);
            let crow = config.make_row();
            let _ = bin.db.add_config(&crow);
            Ok(1)
        },
        Option::Some(cv) => {
            if !(new_hash == cv.data_hash) {
                if cv.ver == u32::MAX {
                    return Err(Error::Internal);
                }
                let nv = cv.ver + 1;
                match &config.content {
                    Option::Some(d) => {
                        proof {
                            assert(d.deep_view() =~= d@);
                        }
                        let _ = bin.put_blob(&config.blob, nv, d);
                    },
                    Option::None => {},
                }
                let row = Version {
                    data_hash: new_hash,
                    ver: nv,
                    tag: config.tag.clone(),
                    owner: config.blob.clone(),
                };
                let _ = bin.db.add_version(&row);
                Ok(nv)
            } else if !(config.tag == cv.tag) {
                let _ = bin.db.update_version_tag(&cv, &config.tag);
                Ok(cv.ver)
            } else {
                Ok(cv.ver)
            }
        },
    }
}

/// What pushing a member list does: each member is pushed in order against
/// the store the previous members left behind. `vers` collects the version
/// number reported for each successfully pushed member; `ok` is false when a
/// member push failed, and the stores then hold the effect of the prefix.
pub ghost struct MembersEffect {
    pub db: DatabaseV,
    pub blobs: Seq<BlobV>,
    pub vers: Seq<u32>,
    pub ok: bool,
}

pub open spec fn spec_push_members(
    db: DatabaseV,
    blobs: Seq<BlobV>,
    cs: Seq<ConfigV>,
) -> MembersEffect
    decreases cs.len(),
{
    if cs.len() == 0 {
        MembersEffect { db: db, blobs: blobs, vers: Seq::empty(), ok: true }
    } else {
        let e = spec_push(db, blobs, cs[0]);
        if e.result is Ok {
            let rest = spec_push_members(e.db, e.blobs, cs.drop_first());
            MembersEffect {
                db: rest.db,
                blobs: rest.blobs,
                vers: seq![e.result->Ok_0] + rest.vers,
                ok: rest.ok,
            }
        } else {
            MembersEffect { db: e.db, blobs: e.blobs, vers: Seq::empty(), ok: false }
        }
    }
}

/// The manifest lines for a pushed member list: one `identity, version` pair
/// per member whose push succeeded, in walk order.
pub open spec fn manifest_entries(cs: Seq<ConfigV>, vers: Seq<u32>) -> Seq<ManifestEntryV> {
    Seq::new(vers.len(), |k: int| ManifestEntryV { blob: cs[k].blob, ver: vers[k] })
}

/// The snapshot version a map push assigns: 1 for a directory never pushed, 0
/// (the "no new snapshot" sentinel) when the stored aggregate hash equals the
/// gathered one, the next number otherwise. `Err` marks snapshot-counter
/// exhaustion.
pub open spec fn map_target(maps: Seq<MapRowV>, m: DirectoryMapV) -> Result<u32, ()> {
    match cur_map_of(maps, m.blob) {
        Option::None => Ok(1),
        Option::Some(row) => {
            if row.hash == m.hash {
                Ok(0)
            } else if row.ver == u32::MAX {
                Err(())
            } else {
                Ok((row.ver + 1) as u32)
            }
        },
    }
}

/// The metadata store with one more snapshot row.
pub open spec fn db_with_map_row(db: DatabaseV, row: MapRowV) -> DatabaseV {
    DatabaseV { configs: db.configs, versions: db.versions, maps: db.maps.push(row) }
}

/// Pushes a directory snapshot. The snapshot version is assigned by
/// `map_target`; when it is not the 0 sentinel, the snapshot row and a
/// manifest binding every member to the version this push gave it are stored.
/// Every member is pushed individually either way: per-member version chains
/// are independent of the map's own versioning, and a member's tag can change
/// without moving the aggregate hash. When a member push fails, the manifest
/// (if one is due) holds the lines of the members already pushed, exactly as
/// an interrupted line-by-line write would have left it.
pub fn push_map(bin: &mut Bin, map: &mut DirectoryMap) -> (r: Result<u32, Error>)
    ensures
        final(bin)@.path == old(bin)@.path,
        final(bin)@.maps == old(bin)@.maps,
        final(bin)@.blobs == old(bin)@.blobs,
        ({
            let t = map_target(old(bin)@.db.maps, old(map)@);
            let row = MapRowV {
                blob: old(map)@.blob,
                ver: t->Ok_0,
                hash: old(map)@.hash,
                tag: old(map)@.tag,
            };
            let start_db = if t == Ok::<u32, ()>(0) || t is Err {
                old(bin)@.db
            } else {
                db_with_map_row(old(bin)@.db, row)
            };
            let me = spec_push_members(start_db, old(bin)@.blob_store, old(map)@.configs);
            if t is Err {
                &&& r == Err::<u32, Error>(Error::Internal)
                &&& final(bin)@ == old(bin)@
                &&& final(map)@ == old(map)@
            } else {
                &&& final(map)@ == (DirectoryMapV { ver: t->Ok_0, ..old(map)@ })
                &&& final(bin)@.db == me.db
                &&& final(bin)@.blob_store == me.blobs
                &&& final(bin)@.manifests == (if t == Ok::<u32, ()>(0) {
                    old(bin)@.manifests
                } else {
                    old(bin)@.manifests.push(
                        ManifestV {
                            blob: old(map)@.blob,
                            ver: t->Ok_0,
                            entries: manifest_entries(old(map)@.configs, me.vers),
                        },
                    )
                })
                &&& r == (if me.ok {
                    Ok::<u32, Error>(t->Ok_0)
                } else {
                    Err::<u32, Error>(Error::Internal)
                })
            }
        }),
{
    let cur = bin.db.get_current_map(&map.blob);
    let target: u32 = match &cur {
        Option::None => 1,
        Option::Some(m) => {
            if m.hash == map.hash {
                0
            } else if m.ver == u32::MAX {
                proof {
                    assert(map_target(old(bin)@.db.maps, old(map)@) is Err);
                }
                return Err(Error::Internal);
            } else {
                m.ver + 1
            }
        },
    };
    proof {
        assert(map_target(old(bin)@.db.maps, old(map)@) == Ok::<u32, ()>(target));
    }
    map.ver = target;
    if target != 0 {
        let _ = bin.db.add_map(&*map);
        proof {
            assert(bin@.db == db_with_map_row(
                old(bin)@.db,
                MapRowV {
                    blob: old(map)@.blob,
                    ver: target,
                    hash: old(map)@.hash,
                    tag: old(map)@.tag,
                },
            ));
        }
    }
    let ghost db0 = bin@.db;
    let ghost blobs0 = bin@.blob_store;
    let ghost manifests0 = bin@.manifests;
    let ghost cs = map@.configs;
    let ghost total = spec_push_members(db0, blobs0, cs);
    proof {
        if target != 0 {
            assert(db0 == db_with_map_row(
                old(bin)@.db,
                MapRowV {
                    blob: old(map)@.blob,
                    ver: target,
                    hash: old(map)@.hash,
                    tag: old(map)@.tag,
                },
            ));
        } else {
            assert(db0 == old(bin)@.db);
        }
        assert(blobs0 == old(bin)@.blob_store);
        assert(manifests0 == old(bin)@.manifests);
    }
    let ghost mut pref: Seq<u32> = Seq::empty();
    let mut entries: Vec<ManifestEntry> = Vec::new();
    let n = map.configs.len();
    proof {
        assert(cs == old(map)@.configs);
        assert(cs.skip(0) =~= cs);
        assert(pref + total.vers =~= total.vers);
        assert(entries.deep_view() =~= manifest_entries(cs, pref));
    }
    let mut i: usize = 0;
    while i < n
        invariant
            i <= n,
            n == map.configs.len(),
            map@ == (DirectoryMapV { ver: target, ..old(map)@ }),
            cs == old(map)@.configs,
            map_target(old(bin)@.db.maps, old(map)@) == Ok::<u32, ()>(target),
            db0 == (if target == 0 {
                old(bin)@.db
            } else {
                db_with_map_row(
                    old(bin)@.db,
                    MapRowV {
                        blob: old(map)@.blob,
                        ver: target,
                        hash: old(map)@.hash,
                        tag: old(map)@.tag,
                    },
                )
            }),
            blobs0 == old(bin)@.blob_store,
            manifests0 == old(bin)@.manifests,
            total == spec_push_members(db0, blobs0, cs),
            bin@.manifests == manifests0,
            bin@.path == old(bin)@.path,
            bin@.maps == old(bin)@.maps,
            bin@.blobs == old(bin)@.blobs,
            spec_push_members(bin@.db, bin@.blob_store, cs.skip(i as int)).db == total.db,
            spec_push_members(bin@.db, bin@.blob_store, cs.skip(i as int)).blobs == total.blobs,
            spec_push_members(bin@.db, bin@.blob_store, cs.skip(i as int)).ok == total.ok,
            total.vers == pref + spec_push_members(
                bin@.db,
                bin@.blob_store,
                cs.skip(i as int),
            ).vers,
            pref.len() == i,
            entries.deep_view() == manifest_entries(cs, pref),
        decreases n - i,
    {
        let c = &map.configs[i];
        proof {
            assert(c@ == cs[i as int]);
            assert(cs.skip(i as int)[0] == cs[i as int]);
            assert(cs.skip(i as int).drop_first() =~= cs.skip(i + 1));
        }
        let res = push_config(bin, c);
        match res {
            Ok(v) => {
                let ghost eprev = entries@;
                let ghost pdprev = entries.deep_view();
                let ghost pprev = pref;
                let e_new = ManifestEntry { blob: c.blob.clone(), ver: v };
                let ghost xv = e_new@;
                proof {
                    assert(pdprev == manifest_entries(cs, pprev));
                    assert(pdprev.len() == pprev.len());
                    assert(eprev.len() == pdprev.len());
                    assert(xv.blob == cs[i as int].blob && xv.ver == v);
                }
                entries.push(e_new);
                proof {
                    let rest = spec_push_members(bin@.db, bin@.blob_store, cs.skip(i + 1));
                    assert(pref + (seq![v] + rest.vers) =~= pref.push(v) + rest.vers);
                    pref = pref.push(v);
                    assert(entries@.len() == eprev.len() + 1);
                    assert forall|k: int| 0 <= k < pref.len() implies entries.deep_view()[k]
                        == manifest_entries(cs, pref)[k] by {
                        assert(entries.deep_view()[k] == entries@[k]@);
                        if k < pprev.len() {
                            assert(entries@[k] == eprev[k]);
                            assert(pdprev[k] == eprev[k]@);
                            assert(pdprev[k] == manifest_entries(cs, pprev)[k]);
                            assert(pref[k] == pprev[k]);
                        } else {
                            assert(entries@[k] == e_new);
                            assert(entries@[k]@ == xv);
                        }
                    }
                    assert(entries.deep_view() =~= manifest_entries(cs, pref));
                }
            },
            Err(e) => {
                proof {
                    assert(spec_push_members(bin@.db, bin@.blob_store, cs.skip(i as int)).vers
                        =~= Seq::<u32>::empty());
                    assert(pref + Seq::<u32>::empty() =~= pref);
                    assert(total.vers == pref);
                    assert(total.db == bin@.db);
                    assert(total.blobs == bin@.blob_store);
                    assert(total.ok == false);
                    assert(e is Internal);
                }
                if target != 0 {
                    let ghost ed = entries.deep_view();
                    let man = Manifest { blob: map.blob.clone(), ver: target, entries };
                    proof {
                        assert(man@.entries == ed);
                        assert(man@.entries == manifest_entries(cs, total.vers));
                    }
                    let _ = bin.put_manifest(man);
                }
                return Err(e);
            },
        }
        i = i + 1;
    }
    proof {
        assert(cs.skip(n as int) =~= Seq::<ConfigV>::empty());
        assert(pref + Seq::<u32>::empty() =~= pref);
        assert(total.vers == pref);
    }
    if target != 0 {
        let ghost ed = entries.deep_view();
        let man = Manifest { blob: map.blob.clone(), ver: target, entries };
        proof {
            assert(man@.entries == ed);
            assert(man@.entries == manifest_entries(cs, total.vers));
        }
        let _ = bin.put_manifest(man);
        Ok(target)
    } else {
        Ok(0)
    }
}

} // verus!
