//! Directory maps: a versioned aggregate snapshot of a directory subtree.

use vstd::prelude::*;

use crate::config::Config;
use crate::config::ConfigV;
use crate::hash::digest512;
use crate::hash::hash_path;
use crate::hash::hex_of;
use crate::hash::path_hash_of;
use crate::hash::to_hex;

verus! {

/// One row of the `maps` relation: an aggregate snapshot of a directory.
/// `blob` is the identity of the directory path, `hash` the aggregate hash
/// over the members' content hashes at snapshot time.
pub struct MapRow {
    pub blob: String,
    pub ver: u32,
    pub hash: String,
    pub tag: String,
}

/// The mathematical value of a map row.
pub ghost struct MapRowV {
    pub blob: Seq<char>,
    pub ver: u32,
    pub hash: Seq<char>,
    pub tag: Seq<char>,
}

impl View for MapRow {
    type V = MapRowV;

    open spec fn view(&self) -> MapRowV {
        MapRowV { blob: self.blob@, ver: self.ver, hash: self.hash@, tag: self.tag@ }
    }
}

impl DeepView for MapRow {
    type V = MapRowV;

    open spec fn deep_view(&self) -> MapRowV {
        self.view()
    }
}

impl MapRow {
    /// An exact copy of the row.
    pub fn duplicate(&self) -> (r: MapRow)
        ensures
            r@ == self@,
    {
        MapRow {
            blob: self.blob.clone(),
            ver: self.ver,
            hash: self.hash.clone(),
            tag: self.tag.clone(),
        }
    }
}

/// A directory subtree gathered for a push: the directory's identity, the
/// aggregate hash over the members' content hashes, and the members
/// themselves, one config per filesystem entry found under the directory, in
/// the (stable) order the walk produced them.
pub struct DirectoryMap {
    pub blob: String,
    pub ver: u32,
    pub hash: String,
    pub tag: String,
    pub configs: Vec<Config>,
}

/// The mathematical value of a directory map.
pub ghost struct DirectoryMapV {
    pub blob: Seq<char>,
    pub ver: u32,
    pub hash: Seq<char>,
    pub tag: Seq<char>,
    pub configs: Seq<ConfigV>,
}

impl View for DirectoryMap {
    type V = DirectoryMapV;

    open spec fn view(&self) -> DirectoryMapV {
        DirectoryMapV {
            blob: self.blob@,
            ver: self.ver,
            hash: self.hash@,
            tag: self.tag@,
            configs: self.configs.deep_view(),
        }
    }
}

impl DirectoryMapV {
    /// The row this map contributes to the `maps` relation.
    pub open spec fn row(self) -> MapRowV {
        MapRowV { blob: self.blob, ver: self.ver, hash: self.hash, tag: self.tag }
    }
}

/// The byte string the aggregate hash is computed over: the UTF-8 bytes of
/// every member's content hash, concatenated in walk order. The aggregate is
/// therefore a function of the member hashes (and their order) alone: an
/// unchanged tree reproduces it exactly.
pub open spec fn aggregate_input(configs: Seq<ConfigV>) -> Seq<u8>
    decreases configs.len(),
{
    if configs.len() == 0 {
        Seq::empty()
    } else {
        aggregate_input(configs.drop_last()) + vstd::utf8::encode_utf8(configs.last().hash)
    }
}

/// The aggregate hash of a directory snapshot.
pub open spec fn map_hash_of(configs: Seq<ConfigV>) -> Seq<char> {
    hex_of(digest512(aggregate_input(configs)))
}

/// The current map row of a directory: the row with the highest version
/// number among the rows for that directory identity; `None` when the
/// directory has never produced a snapshot.
pub open spec fn cur_map_of(rows: Seq<MapRowV>, blob: Seq<char>) -> Option<MapRowV>
    decreases rows.len(),
{
    if rows.len() == 0 {
        None
    } else {
        let prev = cur_map_of(rows.drop_last(), blob);
        let m = rows.last();
        if m.blob == blob && (prev is None || m.ver > prev->0.ver) {
            Some(m)
        } else {
            prev
        }
    }
}

/// The current map row is one of the directory's rows and bounds all of them.
pub proof fn lemma_cur_map_props(rows: Seq<MapRowV>, blob: Seq<char>)
    ensures
        cur_map_of(rows, blob) is None ==> forall|i: int|
            0 <= i < rows.len() ==> rows[i].blob != blob,
        cur_map_of(rows, blob) matches Some(m) ==> rows.contains(m) && m.blob == blob
            && forall|i: int| 0 <= i < rows.len() && rows[i].blob == blob ==> rows[i].ver <= m.ver,
    decreases rows.len(),
{
    if rows.len() > 0 {
        lemma_cur_map_props(rows.drop_last(), blob);
        assert forall|i: int| 0 <= i < rows.len() - 1 implies rows.drop_last()[i] == rows[i] by {}
        if cur_map_of(rows, blob) is Some {
            let m = cur_map_of(rows, blob)->0;
            if rows.drop_last().contains(m) {
                let i = choose|i: int| 0 <= i < rows.drop_last().len() && rows.drop_last()[i] == m;
                assert(rows[i] == m);
            }
        }
    }
}

/// Appending a snapshot row with a strictly larger version number makes it
/// current; rows of other directories are unaffected.
pub proof fn lemma_cur_map_push(rows: Seq<MapRowV>, blob: Seq<char>, m: MapRowV)
    ensures
        m.blob != blob ==> cur_map_of(rows.push(m), blob) == cur_map_of(rows, blob),
        (m.blob == blob && (cur_map_of(rows, blob) is None || m.ver > cur_map_of(
            rows,
            blob,
        )->0.ver)) ==> cur_map_of(rows.push(m), blob) == Some(m),
{
    assert(rows.push(m).drop_last() =~= rows);
    assert(rows.push(m).last() == m);
}

/// Computes the aggregate hash over a member list.
pub fn get_map_hash(configs: &Vec<Config>) -> (r: String)
    ensures
        r@ == map_hash_of(configs.deep_view()),
{
    let mut bytes: Vec<u8> = Vec::new();
    let n = configs.len();
    for i in 0..n
        invariant
            n == configs@.len(),
            bytes@ == aggregate_input(configs.deep_view().take(i as int)),
    {
        let hb = configs[i].hash.as_str().as_bytes();
        let m = hb.len();
        for j in 0..m
            invariant
                m == hb@.len(),
                i < n == configs@.len(),
                hb@ == vstd::utf8::encode_utf8(configs.deep_view()[i as int].hash),
                bytes@ == aggregate_input(configs.deep_view().take(i as int)) + hb@.take(j as int),
        {
            bytes.push(hb[j]);
            proof {
                assert(bytes@ =~= aggregate_input(configs.deep_view().take(i as int)) + hb@.take(
                    j + 1,
                ));
            }
        }
        proof {
            assert(configs.deep_view().take(i + 1).drop_last() =~= configs.deep_view().take(
                i as int,
            ));
            assert(configs.deep_view().take(i + 1).last() == configs.deep_view()[i as int]);
            assert(hb@.take(m as int) =~= hb@);
            assert(bytes@ =~= aggregate_input(configs.deep_view().take(i + 1)));
        }
    }
    proof {
        assert(configs.deep_view().take(n as int) =~= configs.deep_view());
    }
    let d = crate::hash::sha512_digest(bytes.as_slice());
    let r = to_hex(&d);
    proof {
        assert(digest512(bytes@) == d@);
    }
    r
}

impl DirectoryMap {
    /// The identity of the mapped directory.
    pub fn get_blob(&self) -> (r: &String)
        ensures
            r@ == self@.blob,
    {
        &self.blob
    }

    /// Gathers a directory snapshot: the identity is derived from the
    /// directory's path, the aggregate hash from the members' content hashes
    /// in the given order. The snapshot version starts at 0 and is assigned
    /// when the map is pushed.
    pub fn new(path: &String, tag: String, configs: Vec<Config>) -> (r: DirectoryMap)
        ensures
            r@.blob == path_hash_of(path@),
            r@.ver == 0,
            r@.hash == map_hash_of(configs.deep_view()),
            r@.tag == tag@,
            r@.configs == configs.deep_view(),
    {
        let blob = hash_path(path.as_str());
        let hash = get_map_hash(&configs);
        DirectoryMap { blob, ver: 0, hash, tag, configs }
    }
}

} // verus!
