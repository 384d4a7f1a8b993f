//! Version rows: one immutable content snapshot of a tracked identity.

use vstd::prelude::*;

verus! {

/// One row of the `versions` relation: a content snapshot of the tracked
/// object `owner`. `data_hash` is the content hash of the snapshot (or the
/// `DIR` sentinel), `ver` counts up from 1 per owner, and `tag` is a free-form
/// label usable later as a pull selector.
pub struct Version {
    pub data_hash: String,
    pub ver: u32,
    pub tag: String,
    pub owner: String,
}

/// The mathematical value of a version row.
pub ghost struct VersionV {
    pub data_hash: Seq<char>,
    pub ver: u32,
    pub tag: Seq<char>,
    pub owner: Seq<char>,
}

impl View for Version {
    type V = VersionV;

    open spec fn view(&self) -> VersionV {
        VersionV {
            data_hash: self.data_hash@,
            ver: self.ver,
            tag: self.tag@,
            owner: self.owner@,
        }
    }
}

impl DeepView for Version {
    type V = VersionV;

    open spec fn deep_view(&self) -> VersionV {
        self.view()
    }
}

impl Version {
    /// An exact copy of the row.
    pub fn duplicate(&self) -> (r: Version)
        ensures
            r@ == self@,
    {
        Version {
            data_hash: self.data_hash.clone(),
            ver: self.ver,
            tag: self.tag.clone(),
            owner: self.owner.clone(),
        }
    }
}

/// The current version of an owner: the row with the highest version number
/// among the owner's rows, the earliest such row if several share the
/// maximum. `None` when the owner has never been pushed.
pub open spec fn cur_version_of(rows: Seq<VersionV>, owner: Seq<char>) -> Option<VersionV>
    decreases rows.len(),
{
    if rows.len() == 0 {
        None
    } else {
        let prev = cur_version_of(rows.drop_last(), owner);
        let v = rows.last();
        if v.owner == owner && (prev is None || v.ver > prev->0.ver) {
            Some(v)
        } else {
            prev
        }
    }
}

/// The current version is one of the owner's rows and bounds all of them.
pub proof fn lemma_cur_version_props(rows: Seq<VersionV>, owner: Seq<char>)
    ensures
        cur_version_of(rows, owner) is None ==> forall|i: int|
            0 <= i < rows.len() ==> rows[i].owner != owner,
        cur_version_of(rows, owner) matches Some(v) ==> rows.contains(v) && v.owner == owner
            && forall|i: int|
            0 <= i < rows.len() && rows[i].owner == owner ==> rows[i].ver <= v.ver,
    decreases rows.len(),
{
    if rows.len() > 0 {
        lemma_cur_version_props(rows.drop_last(), owner);
        assert forall|i: int| 0 <= i < rows.len() - 1 implies rows.drop_last()[i] == rows[i] by {}
        if cur_version_of(rows, owner) is Some {
            let v = cur_version_of(rows, owner)->0;
            if rows.drop_last().contains(v) {
                let i = choose|i: int| 0 <= i < rows.drop_last().len() && rows.drop_last()[i] == v;
                assert(rows[i] == v);
            }
        }
    }
}

/// Appending a row for one owner leaves every other owner's current version
/// unchanged; appending a row with a strictly larger version number makes that
/// row current.
pub proof fn lemma_cur_version_push(rows: Seq<VersionV>, owner: Seq<char>, v: VersionV)
    ensures
        v.owner != owner ==> cur_version_of(rows.push(v), owner) == cur_version_of(rows, owner),
        (v.owner == owner && (cur_version_of(rows, owner) is None || v.ver > cur_version_of(
            rows,
            owner,
        )->0.ver)) ==> cur_version_of(rows.push(v), owner) == Some(v),
{
    assert(rows.push(v).drop_last() =~= rows);
    assert(rows.push(v).last() == v);
}

/// The rows after an in-place tag correction of the row `(owner, ver)`: the
/// matching rows carry the new tag, every other row is untouched.
pub open spec fn retagged(
    rows: Seq<VersionV>,
    owner: Seq<char>,
    ver: u32,
    tag: Seq<char>,
) -> Seq<VersionV> {
    Seq::new(
        rows.len(),
        |i: int|
            if rows[i].owner == owner && rows[i].ver == ver {
                VersionV { tag: tag, ..rows[i] }
            } else {
                rows[i]
            },
    )
}

/// A tag correction does not move any owner's current version number, and the
/// current row of the corrected owner keeps its hash and version.
pub proof fn lemma_cur_version_retag(
    rows: Seq<VersionV>,
    owner: Seq<char>,
    ver: u32,
    tag: Seq<char>,
    other: Seq<char>,
)
    ensures
        other != owner ==> cur_version_of(retagged(rows, owner, ver, tag), other)
            == cur_version_of(rows, other),
        cur_version_of(retagged(rows, owner, ver, tag), owner) == (match cur_version_of(
            rows,
            owner,
        ) {
            Option::None => Option::<VersionV>::None,
            Option::Some(cv) => Option::Some(
                if cv.ver == ver {
                    VersionV { tag: tag, ..cv }
                } else {
                    cv
                },
            ),
        }),
    decreases rows.len(),
{
    if rows.len() > 0 {
        lemma_cur_version_retag(rows.drop_last(), owner, ver, tag, other);
        assert(retagged(rows, owner, ver, tag).drop_last() =~= retagged(
            rows.drop_last(),
            owner,
            ver,
            tag,
        ));
        assert(retagged(rows, owner, ver, tag).last() == (if rows.last().owner == owner
            && rows.last().ver == ver {
            VersionV { tag: tag, ..rows.last() }
        } else {
            rows.last()
        }));
    }
}

} // verus!
