//! The read path: version selection and restoring a selected revision.

use vstd::prelude::*;

use vstd::string::StringExecFns;

use crate::Error;
use crate::bin::Bin;
use crate::bin::BlobV;
use crate::bin::ManifestEntry;
use crate::bin::ManifestEntryV;
use crate::bin::blob_data_of;
use crate::bin::copy_bytes;
use crate::bin::manifest_of;
use crate::db::DatabaseV;
use crate::db::config_id_of;
use crate::db::dedup_of;
use crate::db::mapped_path_of;
use crate::dirmap::cur_map_of;
use crate::hash::hash_path;
use crate::hash::path_hash_of;
use crate::mapper::map_to_real_path;
use crate::version::Version;
use crate::version::VersionV;

verus! {

/// The tag match of a version set: the candidate carrying the requested tag
/// with the smallest version number (the first match when the set is read in
/// ascending version order).
pub open spec fn best_tagged(s: Seq<VersionV>, tag: Seq<char>) -> Option<VersionV>
    decreases s.len(),
{
    if s.len() == 0 {
        None
    } else {
        let prev = best_tagged(s.drop_last(), tag);
        let v = s.last();
        if v.tag == tag && (prev is None || v.ver < prev->0.ver) {
            Some(v)
        } else {
            prev
        }
    }
}

/// The explicit-number match of a version set: the first candidate whose
/// version number equals the requested one.
pub open spec fn verno_match(s: Seq<VersionV>, ver: u32) -> Option<VersionV>
    decreases s.len(),
{
    if s.len() == 0 {
        None
    } else {
        let prev = verno_match(s.drop_last(), ver);
        if prev is Some {
            prev
        } else if s.last().ver == ver {
            Some(s.last())
        } else {
            prev
        }
    }
}

/// The fallback candidate of a version set: the first candidate attaining the
/// maximum version number.
pub open spec fn peak_of(s: Seq<VersionV>) -> Option<VersionV>
    decreases s.len(),
{
    if s.len() == 0 {
        None
    } else {
        let prev = peak_of(s.drop_last());
        let v = s.last();
        if prev is None || v.ver > prev->0.ver {
            Some(v)
        } else {
            prev
        }
    }
}

/// The selection policy. A non-empty requested tag wins when some candidate
/// carries it; else an explicit version number wins when some candidate has
/// it; else, when nothing was requested or falling back is allowed, the most
/// recent candidate is selected. A requested tag or version that matched
/// nothing fails with `TagNotFound` or `VersionNotFound` unless fallback is
/// allowed. An empty candidate set marks an internal inconsistency: a tracked
/// identity always has at least one version row.
pub open spec fn spec_select(
    s: Seq<VersionV>,
    tag: Seq<char>,
    ver: u32,
    recent: bool,
) -> Result<VersionV, Error> {
    if s.len() == 0 {
        Err(Error::Internal)
    } else if tag.len() > 0 && best_tagged(s, tag) is Some {
        Ok(best_tagged(s, tag)->0)
    } else if ver != 0 && verno_match(s, ver) is Some {
        Ok(verno_match(s, ver)->0)
    } else if (tag.len() == 0 && ver == 0) || recent {
        Ok(peak_of(s)->0)
    } else if tag.len() > 0 {
        Err(Error::TagNotFound)
    } else {
        Err(Error::VersionNotFound)
    }
}

/// Selects a version from a candidate set. The choice depends only on the
/// set's contents, never on the order candidates are handed in beyond
/// first-match tie-breaks, so selection is deterministic and reproducible.
pub fn select_version(versions: &Vec<Version>, tag: &String, version: u32, recent: bool) -> (r:
    Result<Version, Error>)
    ensures
        spec_select(versions.deep_view(), tag@, version, recent) matches Ok(v) ==> r is Ok
            && r->Ok_0@ == v,
        spec_select(versions.deep_view(), tag@, version, recent) matches Err(e) ==> r
            == Err::<Version, Error>(e),
{
    let ghost all = versions.deep_view();
    let n = versions.len();
    if n == 0 {
        return Err(Error::Internal);
    }
    let mut bt: Option<usize> = None;
    let mut bv: Option<usize> = None;
    let mut mx: Option<usize> = None;
    for i in 0..n
        invariant
            n == versions.len(),
            all == versions.deep_view(),
            match bt {
                Option::None => best_tagged(all.take(i as int), tag@) is None,
                Option::Some(b) => b < i && best_tagged(all.take(i as int), tag@) == Some(
                    all[b as int],
                ),
            },
            match bv {
                Option::None => verno_match(all.take(i as int), version) is None,
                Option::Some(b) => b < i && verno_match(all.take(i as int), version) == Some(
                    all[b as int],
                ),
            },
            match mx {
                Option::None => peak_of(all.take(i as int)) is None,
                Option::Some(b) => b < i && peak_of(all.take(i as int)) == Some(all[b as int]),
            },
    {
        let v = &versions[i];
        proof {
            assert(v@ == all[i as int]);
            assert(all.take(i + 1).drop_last() =~= all.take(i as int));
            assert(all.take(i + 1).last() == all[i as int]);
        }
        if v.tag == *tag {
            match bt {
                Option::None => {
                    bt = Some(i);
                },
                Option::Some(b) => {
                    if v.ver < versions[b].ver {
                        bt = Some(i);
                    }
                },
            }
        }
        if v.ver == version && bv.is_none() {
            bv = Some(i);
        }
        match mx {
            Option::None => {
                mx = Some(i);
            },
            Option::Some(b) => {
                if v.ver > versions[b].ver {
                    mx = Some(i);
                }
            },
        }
    }
    proof {
        assert(all.take(n as int) =~= all);
    }
    let tag_requested = !tag.as_str().is_empty();
    if tag_requested {
        match bt {
            Option::Some(b) => {
                return Ok(versions[b].duplicate());
            },
            Option::None => {},
        }
    }
    if version != 0 {
        match bv {
            Option::Some(b) => {
                return Ok(versions[b].duplicate());
            },
            Option::None => {},
        }
    }
    if (!tag_requested && version == 0) || recent {
        match mx {
            Option::Some(b) => {
                return Ok(versions[b].duplicate());
            },
            Option::None => {
                return Err(Error::Internal);
            },
        }
    }
    if tag_requested {
        Err(Error::TagNotFound)
    } else {
        Err(Error::VersionNotFound)
    }
}

/// What a pull decides to do to the real filesystem location of the pulled
/// identity.
pub enum PullAction {
    /// The content on disk already matches the selected revision.
    UpToDate,
    /// The selected revision is a directory: create an empty directory at the
    /// real path (members are restored by pulling each one separately).
    CreateDir { path: String },
    /// Write the stored bytes of the selected revision to the real path.
    Restore { path: String, ver: u32, data: Vec<u8> },
}

/// The mathematical value of a pull action.
pub ghost enum PullActionV {
    UpToDate,
    CreateDir { path: Seq<char> },
    Restore { path: Seq<char>, ver: u32, data: Seq<u8> },
}

impl View for PullAction {
    type V = PullActionV;

    open spec fn view(&self) -> PullActionV {
        match self {
            PullAction::UpToDate => PullActionV::UpToDate,
            PullAction::CreateDir { path } => PullActionV::CreateDir { path: path@ },
            PullAction::Restore { path, ver, data } => PullActionV::Restore {
                path: path@,
                ver: *ver,
                data: data@,
            },
        }
    }
}

/// The pull decision for one identity. Unknown identity: `FileNotFound`.
/// Selection failure: as `spec_select`. A selected revision whose hash equals
/// the hash of what is on disk (`cur_hash`; the empty string for an absent
/// file): nothing to do. A selected directory revision: create the directory.
/// Otherwise the revision's blob is restored byte for byte; a missing blob
/// fails with `BlobNotFound` rather than restoring nothing.
pub open spec fn spec_pull(
    db: DatabaseV,
    blobs: Seq<BlobV>,
    blob: Seq<char>,
    tag: Seq<char>,
    ver: u32,
    recent: bool,
    cur_hash: Seq<char>,
) -> Result<PullActionV, Error> {
    match mapped_path_of(db.configs, blob) {
        Option::None => Err(Error::FileNotFound),
        Option::Some(mp) => {
            match spec_select(dedup_of(db.versions, blob), tag, ver, recent) {
                Result::Err(e) => Err(e),
                Result::Ok(v) => {
                    if v.data_hash == cur_hash {
                        Ok(PullActionV::UpToDate)
                    } else if v.data_hash == "DIR"@ {
                        Ok(PullActionV::CreateDir { path: mp })
                    } else {
                        match blob_data_of(blobs, blob, v.ver) {
                            Option::None => Err(Error::BlobNotFound),
                            Option::Some(d) => Ok(
                                PullActionV::Restore { path: mp, ver: v.ver, data: d },
                            ),
                        }
                    }
                },
            }
        },
    }
}

/// Pulls one identity: loads its version set, selects a revision by
/// tag/number/most-recent policy, and decides how to restore it, exactly as
/// `spec_pull` says. `cur_hash` is the content hash of what is currently at
/// the real path, or the empty string when nothing is there. A failed pull
/// decides nothing: the filesystem is to be left untouched.
pub fn pull_file(
    bin: &Bin,
    blob: &String,
    tag: &String,
    recent: bool,
    version: u32,
    cur_hash: &String,
) -> (r: Result<PullAction, Error>)
    ensures
        spec_pull(bin@.db, bin@.blob_store, blob@, tag@, version, recent, cur_hash@) matches Ok(a)
            ==> r is Ok && r->Ok_0@ == a,
        spec_pull(bin@.db, bin@.blob_store, blob@, tag@, version, recent, cur_hash@) matches Err(e)
            ==> r == Err::<PullAction, Error>(e),
{
    let vs = bin.db.get_versions(blob);
    let mp = match bin.db.get_mapped_path(blob) {
        Option::Some(p) => p,
        Option::None => {
            return Err(Error::FileNotFound);
        },
    };
    let path = match map_to_real_path(&mp) {
        Result::Ok(p) => p,
        Result::Err(_) => {
            return Err(Error::Internal);
        },
    };
    let sel = match select_version(&vs, tag, version, recent) {
        Result::Ok(v) => v,
        Result::Err(e) => {
            return Err(e);
        },
    };
    if sel.data_hash == *cur_hash {
        Ok(PullAction::UpToDate)
    } else {
        let dir_sentinel = String::from_str("DIR");
        if sel.data_hash == dir_sentinel {
            Ok(PullAction::CreateDir { path })
        } else {
            match bin.get_blob_data(blob, sel.ver) {
                Option::Some(d) => Ok(
                    PullAction::Restore { path, ver: sel.ver, data: copy_bytes(d) },
                ),
                Option::None => Err(Error::BlobNotFound),
            }
        }
    }
}

/// What a pull of a path resolves to: a single tracked file, or the member
/// list of the path's latest directory snapshot.
pub enum PullPlan {
    /// The path is a single tracked object with this identity.
    Single { blob: String },
    /// The path is a mapped directory: replay these manifest lines.
    Members { entries: Vec<ManifestEntry> },
}

/// The mathematical value of a pull plan.
pub ghost enum PullPlanV {
    Single { blob: Seq<char> },
    Members { entries: Seq<ManifestEntryV> },
}

impl View for PullPlan {
    type V = PullPlanV;

    open spec fn view(&self) -> PullPlanV {
        match self {
            PullPlan::Single { blob } => PullPlanV::Single { blob: blob@ },
            PullPlan::Members { entries } => PullPlanV::Members { entries: entries.deep_view() },
        }
    }
}

/// Resolves what a pull of `path` must do. The canonical `map_path` must be
/// known to the store (else `FileNotFound`). A path that never produced a
/// directory snapshot is pulled as a single object. Otherwise the manifest of
/// the latest snapshot lists the members to replay; a snapshot row whose
/// manifest is gone is a filesystem-level fault (`IOError`).
pub fn resolve_pull(bin: &Bin, path: &String, map_path: &String) -> (r: Result<PullPlan, Error>)
    ensures
        config_id_of(bin@.db.configs, map_path@) is None ==> (r matches Err(e)
            && e is FileNotFound),
        (config_id_of(bin@.db.configs, map_path@) is Some && cur_map_of(
            bin@.db.maps,
            path_hash_of(path@),
        ) is None) ==> (r matches Ok(p) && p@ == (PullPlanV::Single {
            blob: config_id_of(bin@.db.configs, map_path@)->0,
        })),
        (config_id_of(bin@.db.configs, map_path@) is Some && cur_map_of(
            bin@.db.maps,
            path_hash_of(path@),
        ) is Some && manifest_of(
            bin@.manifests,
            path_hash_of(path@),
            cur_map_of(bin@.db.maps, path_hash_of(path@))->0.ver,
        ) is None) ==> (r matches Err(e) && e is IOError),
        (config_id_of(bin@.db.configs, map_path@) is Some && cur_map_of(
            bin@.db.maps,
            path_hash_of(path@),
        ) is Some && manifest_of(
            bin@.manifests,
            path_hash_of(path@),
            cur_map_of(bin@.db.maps, path_hash_of(path@))->0.ver,
        ) is Some) ==> (r matches Ok(p) && p@ == (PullPlanV::Members {
            entries: manifest_of(
                bin@.manifests,
                path_hash_of(path@),
                cur_map_of(bin@.db.maps, path_hash_of(path@))->0.ver,
            )->0.entries,
        })),
{
    let id = match bin.db.config_exists(map_path) {
        Option::Some(b) => b,
        Option::None => {
            return Err(Error::FileNotFound);
        },
    };
    let mblob = hash_path(path.as_str());
    match bin.db.get_current_map(&mblob) {
        Option::None => Ok(PullPlan::Single { blob: id }),
        Option::Some(m) => {
            match bin.get_manifest(&mblob, m.ver) {
                Option::None => Err(
                    Error::IOError { msg: String::from_str("manifest file is missing") },
                ),
                Option::Some(man) => {
                    let mut entries: Vec<ManifestEntry> = Vec::new();
                    let k = man.entries.len();
                    proof {
                        assert(entries.deep_view() =~= man.entries.deep_view().take(0));
                    }
                    for j in 0..k
                        invariant
                            k == man.entries.len(),
                            entries.deep_view() == man.entries.deep_view().take(j as int),
                    {
                        let ghost eprev = entries@;
                        let ghost pd = entries.deep_view();
                        let e2 = man.entries[j].duplicate();
                        let ghost xv = e2@;
                        proof {
                            assert(pd.len() == eprev.len());
                            assert(eprev.len() == j as int);
                            assert(xv == man.entries.deep_view()[j as int]);
                        }
                        entries.push(e2);
                        proof {
                            assert(entries@.len() == eprev.len() + 1);
                            assert forall|k2: int| 0 <= k2 < entries@.len() implies
                                entries.deep_view()[k2] == man.entries.deep_view().take(
                                j + 1,
                            )[k2] by {
                                assert(entries.deep_view()[k2] == entries@[k2]@);
                                if k2 < eprev.len() {
                                    assert(entries@[k2] == eprev[k2]);
                                    assert(pd[k2] == eprev[k2]@);
                                    assert(pd[k2] == man.entries.deep_view().take(j as int)[k2]);
                                } else {
                                    assert(entries@[k2]@ == xv);
                                }
                            }
                            assert(entries.deep_view() =~= man.entries.deep_view().take(j + 1));
                        }
                    }
                    proof {
                        assert(man.entries.deep_view().take(k as int) =~= man.entries.deep_view());
                    }
                    Ok(PullPlan::Members { entries })
                },
            }
        },
    }
}

/// Pulls one manifest line of a directory snapshot replay. The manifest's
/// version number is authoritative for map members: no tag and no fallback
/// applies to them (those selectors are meaningful only for standalone
/// pulls).
pub fn pull_member(bin: &Bin, entry: &ManifestEntry, cur_hash: &String) -> (r: Result<
    PullAction,
    Error,
>)
    ensures
        spec_pull(
            bin@.db,
            bin@.blob_store,
            entry@.blob,
            Seq::<char>::empty(),
            entry@.ver,
            false,
            cur_hash@,
        ) matches Ok(a) ==> r is Ok && r->Ok_0@ == a,
        spec_pull(
            bin@.db,
            bin@.blob_store,
            entry@.blob,
            Seq::<char>::empty(),
            entry@.ver,
            false,
            cur_hash@,
        ) matches Err(e) ==> r == Err::<PullAction, Error>(e),
{
    let no_tag = String::new();
    proof {
        assert(no_tag@ =~= Seq::<char>::empty());
    }
    pull_file(bin, &entry.blob, &no_tag, false, entry.ver, cur_hash)
}

} // verus!
