//! Tracked objects ("configs"): the unit of single-file versioning.

use vstd::prelude::*;

use crate::hash::content_hash_of;
use crate::hash::hash_contents;
use crate::hash::hash_path;
use crate::hash::path_hash_of;
use crate::version::Version;
use crate::version::VersionV;

verus! {

/// One row of the `configs` relation: the identity and classification of a
/// tracked object. One row per distinct identity ever pushed; never deleted.
pub struct ConfigRow {
    pub id: String,
    pub subset: String,
    pub family: String,
    pub map_path: String,
}

/// The mathematical value of a config row.
pub ghost struct ConfigRowV {
    pub id: Seq<char>,
    pub subset: Seq<char>,
    pub family: Seq<char>,
    pub map_path: Seq<char>,
}

impl View for ConfigRow {
    type V = ConfigRowV;

    open spec fn view(&self) -> ConfigRowV {
        ConfigRowV {
            id: self.id@,
            subset: self.subset@,
            family: self.family@,
            map_path: self.map_path@,
        }
    }
}

impl DeepView for ConfigRow {
    type V = ConfigRowV;

    open spec fn deep_view(&self) -> ConfigRowV {
        self.view()
    }
}

/// A tracked object as handed to a push: its identity, classification, tag,
/// and the content being pushed (`None` for a directory), together with the
/// content hash derived from that content.
pub struct Config {
    pub blob: String,
    pub real_path: String,
    pub subset: String,
    pub family: String,
    pub map_path: String,
    pub tag: String,
    pub hash: String,
    pub content: Option<Vec<u8>>,
}

/// The mathematical value of a config.
pub ghost struct ConfigV {
    pub blob: Seq<char>,
    pub real_path: Seq<char>,
    pub subset: Seq<char>,
    pub family: Seq<char>,
    pub map_path: Seq<char>,
    pub tag: Seq<char>,
    pub hash: Seq<char>,
    pub content: Option<Seq<u8>>,
}

impl View for Config {
    type V = ConfigV;

    open spec fn view(&self) -> ConfigV {
        ConfigV {
            blob: self.blob@,
            real_path: self.real_path@,
            subset: self.subset@,
            family: self.family@,
            map_path: self.map_path@,
            tag: self.tag@,
            hash: self.hash@,
            content: self.content.deep_view(),
        }
    }
}

impl DeepView for Config {
    type V = ConfigV;

    open spec fn deep_view(&self) -> ConfigV {
        self.view()
    }
}

impl ConfigV {
    /// A config is well formed when its identity and content hash really are
    /// the hashes of its canonical path and content.
    pub open spec fn wf(self) -> bool {
        &&& self.blob == path_hash_of(self.map_path)
        &&& self.hash == content_hash_of(self.content)
    }

    /// The row this config contributes to the `configs` relation.
    pub open spec fn row(self) -> ConfigRowV {
        ConfigRowV {
            id: self.blob,
            subset: self.subset,
            family: self.family,
            map_path: self.map_path,
        }
    }
}

/// What a push has to do for one object, given its current version (if any),
/// the hash of the content being pushed and the requested tag.
#[derive(Debug, Clone, Copy, PartialEq, Eq, Structural)]
pub enum UpdateType {
    /// The object has never been pushed: create it at version 1.
    NewConfig,
    /// The content changed: advance the version chain.
    UpdateContent,
    /// Only the tag changed: correct the current row in place.
    UpdateTag,
    /// Nothing changed: leave the store untouched.
    NoUpdate,
}

/// The push decision: a new object gets version 1; changed content advances
/// the chain; a changed tag alone is corrected in place; anything else is a
/// no-op.
pub open spec fn update_decision(
    cur: Option<VersionV>,
    hash: Seq<char>,
    tag: Seq<char>,
) -> UpdateType {
    match cur {
        Option::None => UpdateType::NewConfig,
        Option::Some(cv) => {
            if cv.data_hash != hash {
                UpdateType::UpdateContent
            } else if cv.tag != tag {
                UpdateType::UpdateTag
            } else {
                UpdateType::NoUpdate
            }
        },
    }
}

impl Config {
    /// The identity of the config.
    pub fn get_blob(&self) -> (r: &String)
        ensures
            r@ == self@.blob,
    {
        &self.blob
    }

    /// The real filesystem path the config was read from.
    pub fn get_real_path(&self) -> (r: &String)
        ensures
            r@ == self@.real_path,
    {
        &self.real_path
    }

    /// The tag requested for this push.
    pub fn get_tag(&self) -> (r: &String)
        ensures
            r@ == self@.tag,
    {
        &self.tag
    }

    /// The content hash of the config.
    pub fn get_hash(&self) -> (r: &String)
        ensures
            r@ == self@.hash,
    {
        &self.hash
    }

    /// The content being pushed, `None` for a directory.
    pub fn get_content(&self) -> (r: &Option<Vec<u8>>)
        ensures
            r.deep_view() == self@.content,
    {
        &self.content
    }

    /// Builds a config from a path, its canonical form, classification
    /// arguments and the content read from the path (`None` for a directory).
    /// The identity is derived from the canonical path alone, the content hash
    /// from the content alone.
    pub fn from(
        real_path: String,
        map_path: String,
        subset: String,
        family: String,
        tag: String,
        content: Option<Vec<u8>>,
    ) -> (r: Config)
        ensures
            r@ == (ConfigV {
                blob: path_hash_of(map_path@),
                real_path: real_path@,
                subset: subset@,
                family: family@,
                map_path: map_path@,
                tag: tag@,
                hash: content_hash_of(content.deep_view()),
                content: content.deep_view(),
            }),
            r@.wf(),
    {
        let blob = hash_path(map_path.as_str());
        let hash = hash_contents(&content);
        Config { blob, real_path, subset, family, map_path, tag, hash, content }
    }

    /// The row this config contributes to the `configs` relation.
    pub fn make_row(&self) -> (r: ConfigRow)
        ensures
            r@ == self@.row(),
    {
        ConfigRow {
            id: self.blob.clone(),
            subset: self.subset.clone(),
            family: self.family.clone(),
            map_path: self.map_path.clone(),
        }
    }

    /// Decides what a push of this config has to do, given the owner's current
    /// version.
    pub fn get_update_type(&self, cur: &Option<Version>) -> (r: UpdateType)
        ensures
            r == update_decision(cur.deep_view(), self@.hash, self@.tag),
    {
        match cur {
            Option::None => UpdateType::NewConfig,
            Option::Some(cv) => {
                if !(cv.data_hash == self.hash) {
                    UpdateType::UpdateContent
                } else if !(cv.tag == self.tag) {
                    UpdateType::UpdateTag
                } else {
                    UpdateType::NoUpdate
                }
            },
        }
    }
}

} // verus!
