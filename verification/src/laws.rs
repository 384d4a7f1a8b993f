//! Laws of the store: properties that relate several operations, proved once
//! and for all against the operations' own specifications.

use vstd::prelude::*;

use crate::Error;
use crate::bin::BlobV;
use crate::bin::blob_data_of;
use crate::config::ConfigV;
use crate::db::DatabaseV;
use crate::db::dedup_of;
use crate::db::dedup_rec;
use crate::db::is_live;
use crate::db::mapped_path_of;
use crate::hash::content_hash_of;
use crate::hash::lemma_content_hash_shape;
use crate::pull::PullActionV;
use crate::pull::best_tagged;
use crate::pull::peak_of;
use crate::pull::spec_pull;
use crate::pull::spec_select;
use crate::push::spec_push;
use crate::push::spec_push_members;
use crate::version::VersionV;
use crate::version::cur_version_of;
use crate::version::lemma_cur_version_props;
use crate::version::lemma_cur_version_push;
use crate::version::lemma_cur_version_retag;
use crate::version::retagged;

verus! {

/// Some row of the owner carries the version number `k`.
pub open spec fn has_ver(rows: Seq<VersionV>, owner: Seq<char>, k: u32) -> bool {
    exists|i: int| 0 <= i < rows.len() && rows[i].owner == owner && rows[i].ver == k
}

/// An owner's version chain is contiguous: every version row is numbered from
/// 1, and every number from 1 up to the current one is taken by some row.
pub open spec fn versions_contiguous(rows: Seq<VersionV>, owner: Seq<char>) -> bool {
    &&& forall|i: int| 0 <= i < rows.len() && rows[i].owner == owner ==> rows[i].ver >= 1
    &&& (cur_version_of(rows, owner) matches Some(cv) ==> forall|k: u32|
        1 <= k <= cv.ver ==> #[trigger] has_ver(rows, owner, k))
}

/// A store with no version rows has every chain trivially contiguous: the
/// base case from which `law_version_monotonic` carries contiguity through
/// every push.
pub proof fn law_fresh_store_contiguous(owner: Seq<char>)
    ensures
        versions_contiguous(Seq::<VersionV>::empty(), owner),
{
}

/// Version monotonicity. A push always succeeds while the owner's version
/// counter is not exhausted; a new object starts at version 1; a push with
/// changed content advances the owner's current version by exactly one, with
/// no gap; a push with unchanged content allocates no version. Contiguity of
/// the chain is preserved, so N pushes of N distinct contents number their
/// revisions 1 up to N, whatever tags are used.
pub proof fn law_version_monotonic(db: DatabaseV, blobs: Seq<BlobV>, c: ConfigV)
    requires
        versions_contiguous(db.versions, c.blob),
        cur_version_of(db.versions, c.blob) matches Some(cv) ==> cv.ver < u32::MAX,
    ensures
        spec_push(db, blobs, c).result is Ok,
        versions_contiguous(spec_push(db, blobs, c).db.versions, c.blob),
        cur_version_of(db.versions, c.blob) is None ==> spec_push(db, blobs, c).result
            == Ok::<u32, ()>(1) && cur_version_of(spec_push(db, blobs, c).db.versions, c.blob)
            == Some(crate::push::new_row(c, 1)),
        (cur_version_of(db.versions, c.blob) is Some && cur_version_of(
            db.versions,
            c.blob,
        )->0.data_hash != content_hash_of(c.content)) ==> spec_push(db, blobs, c).result
            == Ok::<u32, ()>((cur_version_of(db.versions, c.blob)->0.ver + 1) as u32)
            && cur_version_of(spec_push(db, blobs, c).db.versions, c.blob) == Some(
            crate::push::new_row(c, (cur_version_of(db.versions, c.blob)->0.ver + 1) as u32),
        ),
        (cur_version_of(db.versions, c.blob) is Some && cur_version_of(
            db.versions,
            c.blob,
        )->0.data_hash == content_hash_of(c.content)) ==> spec_push(db, blobs, c).result
            == Ok::<u32, ()>(cur_version_of(db.versions, c.blob)->0.ver) && spec_push(
            db,
            blobs,
            c,
        ).db.versions.len() == db.versions.len(),
{
    let rows = db.versions;
    let cur = cur_version_of(rows, c.blob);
    let h = content_hash_of(c.content);
    lemma_cur_version_props(rows, c.blob);
    match cur {
        Option::None => {
            let nr = crate::push::new_row(c, 1);
            lemma_cur_version_push(rows, c.blob, nr);
            let rows2 = rows.push(nr);
            assert(rows2[rows.len() as int] == nr);
            assert forall|k: u32| 1 <= k <= 1 implies #[trigger] has_ver(rows2, c.blob, k) by {
                assert(rows2[rows.len() as int].owner == c.blob && rows2[rows.len() as int].ver
                    == 1);
            }
        },
        Option::Some(cv) => {
            if cv.data_hash != h {
                let nv = (cv.ver + 1) as u32;
                let nr = crate::push::new_row(c, nv);
                lemma_cur_version_push(rows, c.blob, nr);
                let rows2 = rows.push(nr);
                assert forall|k: u32| 1 <= k <= nv implies #[trigger] has_ver(rows2, c.blob, k) by {
                    if k <= cv.ver {
                        assert(has_ver(rows, c.blob, k));
                        let i = choose|i: int|
                            0 <= i < rows.len() && rows[i].owner == c.blob && rows[i].ver == k;
                        assert(rows2[i].owner == c.blob && rows2[i].ver == k);
                    } else {
                        assert(rows2[rows.len() as int].owner == c.blob
                            && rows2[rows.len() as int].ver == nv);
                    }
                }
            } else if cv.tag != c.tag {
                let rows2 = retagged(rows, c.blob, cv.ver, c.tag);
                lemma_cur_version_retag(rows, c.blob, cv.ver, c.tag, c.blob);
                assert forall|i: int|
                    0 <= i < rows2.len() implies rows2[i].owner == rows[i].owner && rows2[i].ver
                    == rows[i].ver by {}
                let cv2 = cur_version_of(rows2, c.blob)->0;
                assert(cv2.ver == cv.ver);
                assert forall|k: u32| 1 <= k <= cv2.ver implies #[trigger] has_ver(
                    rows2,
                    c.blob,
                    k,
                ) by {
                    assert(has_ver(rows, c.blob, k));
                    let i = choose|i: int|
                        0 <= i < rows.len() && rows[i].owner == c.blob && rows[i].ver == k;
                    assert(rows2[i].owner == c.blob && rows2[i].ver == k);
                }
            }
        },
    }
}

/// Idempotent push. Pushing the same object again, with content and tag
/// unchanged, changes neither the metadata store nor the blob store and
/// reports the same version number as the first push.
pub proof fn law_push_idempotent(db: DatabaseV, blobs: Seq<BlobV>, c: ConfigV)
    requires
        spec_push(db, blobs, c).result is Ok,
    ensures
        spec_push(spec_push(db, blobs, c).db, spec_push(db, blobs, c).blobs, c).db == spec_push(
            db,
            blobs,
            c,
        ).db,
        spec_push(spec_push(db, blobs, c).db, spec_push(db, blobs, c).blobs, c).blobs == spec_push(
            db,
            blobs,
            c,
        ).blobs,
        spec_push(spec_push(db, blobs, c).db, spec_push(db, blobs, c).blobs, c).result
            == spec_push(db, blobs, c).result,
{
    let rows = db.versions;
    let cur = cur_version_of(rows, c.blob);
    let h = content_hash_of(c.content);
    lemma_cur_version_props(rows, c.blob);
    match cur {
        Option::None => {
            let nr = crate::push::new_row(c, 1);
            lemma_cur_version_push(rows, c.blob, nr);
            assert(cur_version_of(spec_push(db, blobs, c).db.versions, c.blob) == Some(nr));
        },
        Option::Some(cv) => {
            if cv.data_hash != h {
                let nr = crate::push::new_row(c, (cv.ver + 1) as u32);
                lemma_cur_version_push(rows, c.blob, nr);
                assert(cur_version_of(spec_push(db, blobs, c).db.versions, c.blob) == Some(nr));
            } else if cv.tag != c.tag {
                lemma_cur_version_retag(rows, c.blob, cv.ver, c.tag, c.blob);
                assert(cur_version_of(spec_push(db, blobs, c).db.versions, c.blob) == Some(
                    VersionV { tag: c.tag, ..cv },
                ));
            }
        },
    }
}

/// A tag-only push allocates no version. When the pushed content hashes to
/// the current row's hash but the tag differs, the push rewrites the current
/// row's tag in place: the version count, the current version number and the
/// blob store are all unchanged.
pub proof fn law_tag_only_push(db: DatabaseV, blobs: Seq<BlobV>, c: ConfigV)
    requires
        cur_version_of(db.versions, c.blob) is Some,
        cur_version_of(db.versions, c.blob)->0.data_hash == content_hash_of(c.content),
        cur_version_of(db.versions, c.blob)->0.tag != c.tag,
    ensures
        spec_push(db, blobs, c).result == Ok::<u32, ()>(
            cur_version_of(db.versions, c.blob)->0.ver,
        ),
        spec_push(db, blobs, c).db.versions.len() == db.versions.len(),
        spec_push(db, blobs, c).db.configs == db.configs,
        spec_push(db, blobs, c).blobs == blobs,
        cur_version_of(spec_push(db, blobs, c).db.versions, c.blob) == Some(
            VersionV { tag: c.tag, ..cur_version_of(db.versions, c.blob)->0 },
        ),
{
    let cv = cur_version_of(db.versions, c.blob)->0;
    lemma_cur_version_retag(db.versions, c.blob, cv.ver, c.tag, c.blob);
}


/// The fallback candidate exists whenever the set is non-empty, belongs to
/// the set, and bounds every candidate's version number.
pub proof fn lemma_peak_props(s: Seq<VersionV>)
    ensures
        s.len() == 0 ==> peak_of(s) is None,
        s.len() > 0 ==> peak_of(s) is Some && s.contains(peak_of(s)->0) && forall|i: int|
            0 <= i < s.len() ==> s[i].ver <= peak_of(s)->0.ver,
    decreases s.len(),
{
    if s.len() > 0 {
        lemma_peak_props(s.drop_last());
        assert forall|i: int| 0 <= i < s.len() - 1 implies s.drop_last()[i] == s[i] by {}
        if peak_of(s) is Some {
            let v = peak_of(s)->0;
            if s.drop_last().contains(v) {
                let i = choose|i: int| 0 <= i < s.drop_last().len() && s.drop_last()[i] == v;
                assert(s[i] == v);
            }
        }
    }
}

/// When no candidate carries the tag, there is no tag match.
pub proof fn lemma_best_tagged_none(s: Seq<VersionV>, tag: Seq<char>)
    requires
        forall|i: int| 0 <= i < s.len() ==> s[i].tag != tag,
    ensures
        best_tagged(s, tag) is None,
    decreases s.len(),
{
    if s.len() > 0 {
        assert forall|i: int| 0 <= i < s.len() - 1 implies s.drop_last()[i].tag != tag by {
            assert(s.drop_last()[i] == s[i]);
        }
        lemma_best_tagged_none(s.drop_last(), tag);
    }
}

/// Tag fallback. When a non-empty tag is requested and no version carries it
/// and no explicit number is given, selection fails with `TagNotFound` unless
/// falling back to the most recent version is allowed, in which case the
/// version with the highest number is selected.
pub proof fn law_tag_fallback(s: Seq<VersionV>, tag: Seq<char>)
    requires
        s.len() > 0,
        tag.len() > 0,
        forall|i: int| 0 <= i < s.len() ==> s[i].tag != tag,
    ensures
        spec_select(s, tag, 0, false) == Err::<VersionV, Error>(Error::TagNotFound),
        spec_select(s, tag, 0, true) matches Ok(v) && s.contains(v) && forall|i: int|
            0 <= i < s.len() ==> s[i].ver <= v.ver,
{
    lemma_best_tagged_none(s, tag);
    lemma_peak_props(s);
}

/// Every row that survives de-duplication is one of the scanned rows and is
/// live in the full table.
pub proof fn lemma_dedup_elements(all: Seq<VersionV>, s: Seq<VersionV>, owner: Seq<char>)
    ensures
        forall|i: int| 0 <= i < dedup_rec(all, s, owner).len() ==> is_live(
            all,
            owner,
            #[trigger] dedup_rec(all, s, owner)[i],
        ) && s.contains(dedup_rec(all, s, owner)[i]),
    decreases s.len(),
{
    if s.len() > 0 {
        lemma_dedup_elements(all, s.drop_last(), owner);
        let d = dedup_rec(all, s, owner);
        let pre = dedup_rec(all, s.drop_last(), owner);
        assert forall|i: int| 0 <= i < d.len() implies is_live(all, owner, #[trigger] d[i])
            && s.contains(d[i]) by {
            if i < pre.len() {
                assert(d[i] == pre[i]);
                let j = choose|j: int| 0 <= j < s.drop_last().len() && s.drop_last()[j] == pre[i];
                assert(s[j] == pre[i]);
            } else {
                assert(d[i] == s.last());
                assert(s[s.len() - 1] == s.last());
            }
        }
    }
}

/// Appending a config row does not disturb the stored path of any identity
/// already tracked, and makes the appended identity's path known.
pub proof fn lemma_mapped_path_push(
    s: Seq<crate::config::ConfigRowV>,
    row: crate::config::ConfigRowV,
    id: Seq<char>,
)
    ensures
        mapped_path_of(s, id) is Some ==> mapped_path_of(s.push(row), id) == mapped_path_of(s, id),
        mapped_path_of(s, id) is None && row.id == id ==> mapped_path_of(s.push(row), id) == Some(
            row.map_path,
        ),
        mapped_path_of(s, id) is None && row.id != id ==> mapped_path_of(s.push(row), id)
            is None,
    decreases s.len(),
{
    if s.len() == 0 {
        assert(s.push(row)[0] == row);
        assert(s.push(row).drop_first() =~= Seq::<crate::config::ConfigRowV>::empty());
    } else {
        assert(s.push(row)[0] == s[0]);
        assert(s.push(row).drop_first() =~= s.drop_first().push(row));
        lemma_mapped_path_push(s.drop_first(), row, id);
    }
}

/// Round trip. After a push that stored new file content, pulling the same
/// identity with no tag, no explicit version and an absent file on disk
/// restores exactly the pushed bytes, at exactly the version the push
/// reported, to the path stored for the identity.
pub proof fn law_push_pull_round_trip(db: DatabaseV, blobs: Seq<BlobV>, c: ConfigV, recent: bool)
    requires
        c.content is Some,
        cur_version_of(db.versions, c.blob) is Some ==> cur_version_of(db.versions, c.blob)->0.ver
            < u32::MAX && cur_version_of(db.versions, c.blob)->0.data_hash != content_hash_of(
            c.content,
        ),
        cur_version_of(db.versions, c.blob) is Some ==> mapped_path_of(db.configs, c.blob)
            is Some,
    ensures
        spec_push(db, blobs, c).result is Ok,
        spec_pull(
            spec_push(db, blobs, c).db,
            spec_push(db, blobs, c).blobs,
            c.blob,
            Seq::<char>::empty(),
            0,
            recent,
            Seq::<char>::empty(),
        ) == Ok::<PullActionV, Error>(
            PullActionV::Restore {
                path: mapped_path_of(spec_push(db, blobs, c).db.configs, c.blob)->0,
                ver: spec_push(db, blobs, c).result->Ok_0,
                data: c.content->0,
            },
        ),
{
    let e = spec_push(db, blobs, c);
    let h = content_hash_of(c.content);
    let cur = cur_version_of(db.versions, c.blob);
    lemma_cur_version_props(db.versions, c.blob);
    lemma_content_hash_shape(c.content);
    let nv: u32 = if cur is None {
        1
    } else {
        (cur->0.ver + 1) as u32
    };
    let nr = crate::push::new_row(c, nv);
    let rows2 = e.db.versions;
    assert(rows2 == db.versions.push(nr));
    // the new row survives de-duplication: nothing of this owner outranks it
    assert forall|j: int|
        0 <= j < rows2.len() && rows2[j].owner == c.blob && rows2[j].data_hash
            == nr.data_hash implies rows2[j].ver <= nr.ver by {
        if j < db.versions.len() {
            assert(rows2[j] == db.versions[j]);
        }
    }
    assert(is_live(rows2, c.blob, nr));
    // the de-duplicated set is the old owner's live rows plus the new row
    let vs = dedup_of(rows2, c.blob);
    let pre = dedup_rec(rows2, db.versions, c.blob);
    assert(rows2.drop_last() =~= db.versions);
    assert(rows2.last() == nr);
    assert(vs == pre.push(nr));
    lemma_dedup_elements(rows2, db.versions, c.blob);
    // every earlier candidate has a smaller version number than the new row
    assert forall|i: int| 0 <= i < pre.len() implies pre[i].ver < nv by {
        let j = choose|j: int| 0 <= j < db.versions.len() && db.versions[j] == pre[i];
        assert(db.versions[j].owner == c.blob);
    }
    lemma_peak_props(pre);
    assert(vs.drop_last() =~= pre);
    assert(peak_of(vs) == Some(nr));
    assert(Seq::<char>::empty().len() == 0);
    assert(spec_select(vs, Seq::<char>::empty(), 0, recent) == Ok::<VersionV, Error>(nr));
    // the stored path is known after the push
    if cur is None {
        lemma_mapped_path_push(db.configs, c.row(), c.blob);
        assert(mapped_path_of(e.db.configs, c.blob) is Some);
    }
    // the fresh digest is neither the absent-file hash nor the sentinel
    assert(nr.data_hash != Seq::<char>::empty());
    assert(nr.data_hash != "DIR"@);
    // the pushed bytes are found under the reported version
    crate::bin::lemma_blob_push_lookup(
        blobs,
        BlobV { owner: c.blob, ver: nv, data: c.content->0 },
        c.blob,
        nv,
    );
    assert(blob_data_of(e.blobs, c.blob, nv) == Some(c.content->0));
}

/// The version a push reports for an object, as a function of the store it
/// ran against.
pub open spec fn pushed_version_of(db: DatabaseV, c: ConfigV) -> u32 {
    match cur_version_of(db.versions, c.blob) {
        Option::None => 1,
        Option::Some(cv) => {
            if cv.data_hash != content_hash_of(c.content) {
                (cv.ver + 1) as u32
            } else {
                cv.ver
            }
        },
    }
}

/// Directory aggregate versioning, member side. When the members of a
/// directory snapshot have pairwise distinct identities and no version
/// counter is exhausted, pushing the member list succeeds, reports one
/// version per member, and reports for each member exactly what an isolated
/// push of it would have: an advanced number when that member's content
/// changed, its unchanged current number otherwise. Together with the map
/// push's own specification, a changed tree yields exactly one new manifest
/// listing the advanced number for the changed member and unchanged numbers
/// for the rest.
pub proof fn law_member_versions(db: DatabaseV, blobs: Seq<BlobV>, cs: Seq<ConfigV>)
    requires
        forall|a: int, b: int| 0 <= a < b < cs.len() ==> cs[a].blob != cs[b].blob,
        forall|k: int|
            0 <= k < cs.len() ==> (cur_version_of(db.versions, #[trigger] cs[k].blob) is Some
                ==> cur_version_of(db.versions, cs[k].blob)->0.ver < u32::MAX),
    ensures
        spec_push_members(db, blobs, cs).ok,
        spec_push_members(db, blobs, cs).vers.len() == cs.len(),
        forall|k: int|
            0 <= k < cs.len() ==> spec_push_members(db, blobs, cs).vers[k] == pushed_version_of(
                db,
                #[trigger] cs[k],
            ),
    decreases cs.len(),
{
    if cs.len() > 0 {
        let c0 = cs[0];
        let e = spec_push(db, blobs, c0);
        let cur0 = cur_version_of(db.versions, c0.blob);
        lemma_cur_version_props(db.versions, c0.blob);
        assert(e.result == Ok::<u32, ()>(pushed_version_of(db, c0)));
        // pushing one member leaves every other member's current version alone
        assert forall|k: int| 1 <= k < cs.len() implies cur_version_of(
            e.db.versions,
            #[trigger] cs[k].blob,
        ) == cur_version_of(db.versions, cs[k].blob) by {
            assert(cs[0].blob != cs[k].blob);
            match cur0 {
                Option::None => {
                    lemma_cur_version_push(db.versions, cs[k].blob, crate::push::new_row(c0, 1));
                },
                Option::Some(cv) => {
                    if cv.data_hash != content_hash_of(c0.content) {
                        lemma_cur_version_push(
                            db.versions,
                            cs[k].blob,
                            crate::push::new_row(c0, (cv.ver + 1) as u32),
                        );
                    } else if cv.tag != c0.tag {
                        lemma_cur_version_retag(db.versions, c0.blob, cv.ver, c0.tag, cs[k].blob);
                    }
                },
            }
        }
        let tail = cs.drop_first();
        assert forall|a: int, b: int| 0 <= a < b < tail.len() implies tail[a].blob
            != tail[b].blob by {
            assert(tail[a] == cs[a + 1]);
            assert(tail[b] == cs[b + 1]);
        }
        assert forall|k: int|
            0 <= k < tail.len() implies (cur_version_of(
            e.db.versions,
            #[trigger] tail[k].blob,
        ) is Some ==> cur_version_of(e.db.versions, tail[k].blob)->0.ver < u32::MAX) by {
            assert(tail[k] == cs[k + 1]);
        }
        law_member_versions(e.db, e.blobs, tail);
        let rest = spec_push_members(e.db, e.blobs, tail);
        let me = spec_push_members(db, blobs, cs);
        assert(me.vers == seq![pushed_version_of(db, c0)] + rest.vers);
        assert forall|k: int| 0 <= k < cs.len() implies me.vers[k] == pushed_version_of(
            db,
            #[trigger] cs[k],
        ) by {
            if k > 0 {
                assert(me.vers[k] == rest.vers[k - 1]);
                assert(tail[k - 1] == cs[k]);
                assert(rest.vers[k - 1] == pushed_version_of(e.db, cs[k]));
                assert(cur_version_of(e.db.versions, cs[k].blob) == cur_version_of(
                    db.versions,
                    cs[k].blob,
                ));
            }
        }
    }
}

} // verus!
