//! The bin: the managed root that owns the blob store, the manifest store and
//! the metadata store.
//!
//! On disk a bin is a directory with a `blobs/` tree (one file per stored
//! revision, at `blobs/{identity}/{version}`), a `maps/` directory of manifest
//! files, and the metadata file. The engine works on the in-memory image of
//! those three stores; loading and persisting them is the caller's concern.

use vstd::prelude::*;

use vstd::string::StringExecFns;

use crate::Error;
use crate::config::Config;
use crate::db::Database;
use crate::db::DatabaseV;
use crate::numtext::dec_str;
use crate::numtext::u32_to_string;

verus! {

/// One stored revision: the bytes pushed for `owner` at version `ver`,
/// the in-memory image of the file `blobs/{owner}/{ver}`.
pub struct Blob {
    pub owner: String,
    pub ver: u32,
    pub data: Vec<u8>,
}

/// The mathematical value of a stored revision.
pub ghost struct BlobV {
    pub owner: Seq<char>,
    pub ver: u32,
    pub data: Seq<u8>,
}

impl View for Blob {
    type V = BlobV;

    open spec fn view(&self) -> BlobV {
        BlobV { owner: self.owner@, ver: self.ver, data: self.data@ }
    }
}

impl DeepView for Blob {
    type V = BlobV;

    open spec fn deep_view(&self) -> BlobV {
        self.view()
    }
}

/// One line of a manifest: a member identity and the exact version of it that
/// was part of the snapshot.
pub struct ManifestEntry {
    pub blob: String,
    pub ver: u32,
}

/// The mathematical value of a manifest line.
pub ghost struct ManifestEntryV {
    pub blob: Seq<char>,
    pub ver: u32,
}

impl View for ManifestEntry {
    type V = ManifestEntryV;

    open spec fn view(&self) -> ManifestEntryV {
        ManifestEntryV { blob: self.blob@, ver: self.ver }
    }
}

impl DeepView for ManifestEntry {
    type V = ManifestEntryV;

    open spec fn deep_view(&self) -> ManifestEntryV {
        self.view()
    }
}

impl ManifestEntry {
    /// An exact copy of the entry.
    pub fn duplicate(&self) -> (r: ManifestEntry)
        ensures
            r@ == self@,
    {
        ManifestEntry { blob: self.blob.clone(), ver: self.ver }
    }
}

/// A manifest: the member list of one directory snapshot, the in-memory image
/// of the file `maps/{blob}-{ver}`. It is the only artifact binding a set of
/// member versions together as "the state of the tree at snapshot `ver`".
pub struct Manifest {
    pub blob: String,
    pub ver: u32,
    pub entries: Vec<ManifestEntry>,
}

/// The mathematical value of a manifest.
pub ghost struct ManifestV {
    pub blob: Seq<char>,
    pub ver: u32,
    pub entries: Seq<ManifestEntryV>,
}

impl View for Manifest {
    type V = ManifestV;

    open spec fn view(&self) -> ManifestV {
        ManifestV { blob: self.blob@, ver: self.ver, entries: self.entries.deep_view() }
    }
}

impl DeepView for Manifest {
    type V = ManifestV;

    open spec fn deep_view(&self) -> ManifestV {
        self.view()
    }
}

/// The bytes stored for `(owner, ver)`: the newest matching blob in the
/// store (a later write under the same key wins).
pub open spec fn blob_data_of(s: Seq<BlobV>, owner: Seq<char>, ver: u32) -> Option<Seq<u8>>
    decreases s.len(),
{
    if s.len() == 0 {
        None
    } else if s.last().owner == owner && s.last().ver == ver {
        Some(s.last().data)
    } else {
        blob_data_of(s.drop_last(), owner, ver)
    }
}

/// Writing a blob stores exactly its bytes under its key and leaves every
/// other key's bytes unchanged.
pub proof fn lemma_blob_push_lookup(s: Seq<BlobV>, b: BlobV, owner: Seq<char>, ver: u32)
    ensures
        owner == b.owner && ver == b.ver ==> blob_data_of(s.push(b), owner, ver) == Some(b.data),
        !(owner == b.owner && ver == b.ver) ==> blob_data_of(s.push(b), owner, ver)
            == blob_data_of(s, owner, ver),
{
    assert(s.push(b).drop_last() =~= s);
    assert(s.push(b).last() == b);
}

/// The manifest stored for `(blob, ver)`: the first matching manifest.
pub open spec fn manifest_of(s: Seq<ManifestV>, blob: Seq<char>, ver: u32) -> Option<ManifestV>
    decreases s.len(),
{
    if s.len() == 0 {
        None
    } else if s[0].blob == blob && s[0].ver == ver {
        Some(s[0])
    } else {
        manifest_of(s.drop_first(), blob, ver)
    }
}

/// The bin itself: the root path, its two derived directory paths, and the
/// in-memory images of the metadata store, the blob tree and the manifests.
pub struct Bin {
    pub path: String,
    pub maps: String,
    pub blobs: String,
    pub db: Database,
    pub blob_store: Vec<Blob>,
    pub manifests: Vec<Manifest>,
}

/// The mathematical value of a bin.
pub ghost struct BinV {
    pub path: Seq<char>,
    pub maps: Seq<char>,
    pub blobs: Seq<char>,
    pub db: DatabaseV,
    pub blob_store: Seq<BlobV>,
    pub manifests: Seq<ManifestV>,
}

impl View for Bin {
    type V = BinV;

    open spec fn view(&self) -> BinV {
        BinV {
            path: self.path@,
            maps: self.maps@,
            blobs: self.blobs@,
            db: self.db@,
            blob_store: self.blob_store.deep_view(),
            manifests: self.manifests.deep_view(),
        }
    }
}

impl BinV {
    /// The two directory paths really hang off the bin's root.
    pub open spec fn paths_wf(self) -> bool {
        &&& self.maps == self.path + "/maps"@
        &&& self.blobs == self.path + "/blobs"@
    }

    /// Structural validity of the bin: consistent paths and a well-formed
    /// metadata store.
    pub open spec fn wf(self) -> bool {
        &&& self.paths_wf()
        &&& self.db.wf()
    }
}

impl Bin {
    /// A fresh, empty bin rooted at `path`. Creating the directories, the
    /// metadata file and the schema on disk is the caller's side of this step.
    pub fn new(path: String) -> (r: Bin)
        ensures
            r@.path == path@,
            r@.maps == path@ + "/maps"@,
            r@.blobs == path@ + "/blobs"@,
            r@.db.configs == Seq::<crate::config::ConfigRowV>::empty(),
            r@.db.versions == Seq::<crate::version::VersionV>::empty(),
            r@.db.maps == Seq::<crate::dirmap::MapRowV>::empty(),
            r@.blob_store == Seq::<BlobV>::empty(),
            r@.manifests == Seq::<ManifestV>::empty(),
            r@.wf(),
    {
        let mut maps = path.clone();
        maps.append("/maps");
        let mut blobs = path.clone();
        blobs.append("/blobs");
        let r = Bin {
            path,
            maps,
            blobs,
            db: Database::new(),
            blob_store: Vec::new(),
            manifests: Vec::new(),
        };
        proof {
            assert(r@.blob_store =~= Seq::<BlobV>::empty());
            assert(r@.manifests =~= Seq::<ManifestV>::empty());
        }
        r
    }

    /// Reassembles a bin from its loaded stores, refusing a metadata store
    /// whose uniqueness invariants do not hold.
    pub fn from(
        path: String,
        db: Database,
        blob_store: Vec<Blob>,
        manifests: Vec<Manifest>,
    ) -> (r: Result<Bin, Error>)
        ensures
            db@.wf() <==> r is Ok,
            r matches Ok(bin) ==> bin@ == (BinV {
                path: path@,
                maps: path@ + "/maps"@,
                blobs: path@ + "/blobs"@,
                db: db@,
                blob_store: blob_store.deep_view(),
                manifests: manifests.deep_view(),
            }) && bin@.wf(),
            r matches Err(e) ==> e is InitFailed,
    {
        if !db.is_valid() {
            return Err(Error::InitFailed { msg: String::from_str("metadata store is not valid") });
        }
        let mut maps = path.clone();
        maps.append("/maps");
        let mut blobs = path.clone();
        blobs.append("/blobs");
        Ok(Bin { path, maps, blobs, db, blob_store, manifests })
    }

    /// Structural validity: the directory paths hang off the root and the
    /// metadata store's uniqueness invariants hold. This must be true before
    /// any push or pull proceeds.
    pub fn is_valid(&self) -> (r: bool)
        ensures
            r == self@.wf(),
    {
        let mut maps = self.path.clone();
        maps.append("/maps");
        let mut blobs = self.path.clone();
        blobs.append("/blobs");
        let paths_ok = maps == self.maps && blobs == self.blobs;
        paths_ok && self.db.is_valid()
    }

    /// The bytes stored for one revision of one identity, if the blob is in
    /// the store.
    pub fn get_blob_data(&self, owner: &String, ver: u32) -> (r: Option<&Vec<u8>>)
        ensures
            r is Some <==> blob_data_of(self@.blob_store, owner@, ver) is Some,
            r matches Some(d) ==> d@ == blob_data_of(self@.blob_store, owner@, ver)->0,
    {
        let ghost all = self@.blob_store;
        let n = self.blob_store.len();
        let mut best: Option<usize> = None;
        for i in 0..n
            invariant
                n == self.blob_store.len(),
                all == self@.blob_store,
                match best {
                    Option::None => blob_data_of(all.take(i as int), owner@, ver) is None,
                    Option::Some(b) => b < i && blob_data_of(all.take(i as int), owner@, ver)
                        == Some(all[b as int].data),
                },
        {
            proof {
                assert(all.take(i + 1).drop_last() =~= all.take(i as int));
                assert(all.take(i + 1).last() == all[i as int]);
            }
            if self.blob_store[i].owner == *owner && self.blob_store[i].ver == ver {
                best = Some(i);
            }
        }
        proof {
            assert(all.take(n as int) =~= all);
        }
        match best {
            Option::None => None,
            Option::Some(b) => Some(&self.blob_store[b].data),
        }
    }

    /// Stores the bytes of one revision under the key `(owner, ver)`,
    /// superseding any blob already stored under that key and touching
    /// nothing else.
    pub fn put_blob(&mut self, owner: &String, ver: u32, data: &Vec<u8>) -> (r: Result<(), Error>)
        ensures
            r is Ok,
            final(self)@.blob_store == old(self)@.blob_store.push(
                BlobV { owner: owner@, ver: ver, data: data@ },
            ),
            final(self)@.path == old(self)@.path,
            final(self)@.maps == old(self)@.maps,
            final(self)@.blobs == old(self)@.blobs,
            final(self)@.db == old(self)@.db,
            final(self)@.manifests == old(self)@.manifests,
    {
        let w = Blob { owner: owner.clone(), ver: ver, data: copy_bytes(data) };
        let ghost wv = w@;
        self.blob_store.push(w);
        proof {
            assert(final(self)@.blob_store =~= old(self)@.blob_store.push(wv));
        }
        Ok(())
    }

    /// Stores the manifest of one directory snapshot.
    pub fn put_manifest(&mut self, m: Manifest) -> (r: Result<(), Error>)
        ensures
            r is Ok,
            final(self)@.manifests == old(self)@.manifests.push(m@),
            final(self)@.path == old(self)@.path,
            final(self)@.maps == old(self)@.maps,
            final(self)@.blobs == old(self)@.blobs,
            final(self)@.db == old(self)@.db,
            final(self)@.blob_store == old(self)@.blob_store,
    {
        let ghost mv = m@;
        self.manifests.push(m);
        proof {
            assert(final(self)@.manifests =~= old(self)@.manifests.push(mv));
        }
        Ok(())
    }

    /// The manifest stored for one directory snapshot, if any.
    pub fn get_manifest(&self, blob: &String, ver: u32) -> (r: Option<&Manifest>)
        ensures
            r is Some <==> manifest_of(self@.manifests, blob@, ver) is Some,
            r matches Some(m) ==> m@ == manifest_of(self@.manifests, blob@, ver)->0,
    {
        let ghost all = self@.manifests;
        let n = self.manifests.len();
        proof {
            assert(all.skip(0) =~= all);
        }
        for i in 0..n
            invariant
                n == self.manifests.len(),
                all == self@.manifests,
                manifest_of(all, blob@, ver) == manifest_of(all.skip(i as int), blob@, ver),
        {
            proof {
                assert(all.skip(i as int)[0] == all[i as int]);
                assert(all.skip(i as int).drop_first() =~= all.skip(i + 1));
            }
            if self.manifests[i].blob == *blob && self.manifests[i].ver == ver {
                return Some(&self.manifests[i]);
            }
        }
        None
    }
}

/// Byte-for-byte copy of a revision's content.
pub(crate) fn copy_bytes(data: &Vec<u8>) -> (r: Vec<u8>)
    ensures
        r@ == data@,
{
    let mut r: Vec<u8> = Vec::new();
    let n = data.len();
    for i in 0..n
        invariant
            n == data@.len(),
            r@ == data@.take(i as int),
    {
        r.push(data[i]);
        proof {
            assert(r@ =~= data@.take(i + 1));
        }
    }
    proof {
        assert(data@.take(n as int) =~= data@);
    }
    r
}

impl Config {
    /// The on-disk location of one stored revision of this config,
    /// `{bin}/blobs/{identity}/{version}`; fails with `BlobNotFound` when that
    /// revision's blob is not in the store.
    pub fn get_blob_version_path(&self, bin: &Bin, version: u32) -> (r: Result<String, Error>)
        ensures
            r is Ok <==> blob_data_of(bin@.blob_store, self@.blob, version) is Some,
            r matches Ok(p) ==> p@ == bin@.path + "/blobs/"@ + self@.blob + "/"@ + dec_str(
                version as nat,
            ),
            r matches Err(e) ==> e is BlobNotFound,
    {
        match bin.get_blob_data(&self.blob, version) {
            Option::Some(_) => {
                let mut p = bin.path.clone();
                p.append("/blobs/");
                p.append(self.blob.as_str());
                p.append("/");
                let vs = u32_to_string(version);
                p.append(vs.as_str());
                Ok(p)
            },
            Option::None => Err(Error::BlobNotFound),
        }
    }
}

} // verus!
