use libmeld::Bin;
use libmeld::Config;
use libmeld::ConfigRow;
use libmeld::Error;
use libmeld::PullAction;
use libmeld::UpdateType;
use libmeld::Version;
use libmeld::hash_contents;
use libmeld::hash_path;
use libmeld::map_to_real_path;
use libmeld::pull_file;
use libmeld::push_config;
use libmeld::select_version;

fn file_config(path: &str, tag: &str, content: &[u8]) -> Config {
    Config::from(
        path.to_string(),
        path.to_string(),
        String::new(),
        String::new(),
        tag.to_string(),
        Some(content.to_vec()),
    )
}

fn no_hash() -> String {
    String::new()
}

#[test]
fn round_trip_restores_exact_bytes() {
    let mut bin = Bin::new("bin".to_string());
    let c1 = file_config("/etc/app.conf", "", b"first contents");
    assert_eq!(push_config(&mut bin, &c1).unwrap(), 1);
    let blob = c1.get_blob().clone();

    match pull_file(&bin, &blob, &String::new(), false, 0, &no_hash()).unwrap() {
        PullAction::Restore { path, ver, data } => {
            assert_eq!(path, "/etc/app.conf");
            assert_eq!(ver, 1);
            assert_eq!(data, b"first contents".to_vec());
        },
        _ => panic!("expected a restore"),
    }

    let c2 = file_config("/etc/app.conf", "", b"second contents");
    assert_eq!(push_config(&mut bin, &c2).unwrap(), 2);

    // explicit version pins the old revision
    match pull_file(&bin, &blob, &String::new(), false, 1, &no_hash()).unwrap() {
        PullAction::Restore { ver, data, .. } => {
            assert_eq!(ver, 1);
            assert_eq!(data, b"first contents".to_vec());
        },
        _ => panic!("expected a restore"),
    }

    // no arguments pulls the most recent revision
    match pull_file(&bin, &blob, &String::new(), false, 0, &no_hash()).unwrap() {
        PullAction::Restore { ver, data, .. } => {
            assert_eq!(ver, 2);
            assert_eq!(data, b"second contents".to_vec());
        },
        _ => panic!("expected a restore"),
    }
}

#[test]
fn push_is_idempotent() {
    let mut bin = Bin::new("bin".to_string());
    let c = file_config("/etc/same.conf", "tagged", b"payload");
    assert_eq!(push_config(&mut bin, &c).unwrap(), 1);
    let rows_before = bin.db.versions.len();
    let blobs_before = bin.blob_store.len();

    let again = file_config("/etc/same.conf", "tagged", b"payload");
    let cur = bin.db.get_current_version(again.get_blob());
    assert_eq!(again.get_update_type(&cur), UpdateType::NoUpdate);
    assert_eq!(push_config(&mut bin, &again).unwrap(), 1);
    assert_eq!(bin.db.versions.len(), rows_before);
    assert_eq!(bin.blob_store.len(), blobs_before);
}

#[test]
fn tag_only_push_allocates_no_version() {
    let mut bin = Bin::new("bin".to_string());
    let c = file_config("/etc/tagme.conf", "v-old", b"payload");
    assert_eq!(push_config(&mut bin, &c).unwrap(), 1);

    let retag = file_config("/etc/tagme.conf", "v-new", b"payload");
    let cur = bin.db.get_current_version(retag.get_blob());
    assert_eq!(retag.get_update_type(&cur), UpdateType::UpdateTag);
    assert_eq!(push_config(&mut bin, &retag).unwrap(), 1);
    assert_eq!(bin.db.versions.len(), 1);
    let cur = bin.db.get_current_version(retag.get_blob()).unwrap();
    assert_eq!(cur.ver, 1);
    assert_eq!(cur.tag, "v-new");
}

#[test]
fn versions_count_up_without_gaps() {
    let mut bin = Bin::new("bin".to_string());
    let contents: [&[u8]; 5] = [b"one", b"two", b"three", b"four", b"five"];
    let tags = ["", "stable", "", "x", ""];
    for (i, (content, tag)) in contents.iter().zip(tags.iter()).enumerate() {
        let c = file_config("/etc/grow.conf", tag, content);
        assert_eq!(push_config(&mut bin, &c).unwrap(), (i + 1) as u32);
    }
    let c = file_config("/etc/grow.conf", "", b"five");
    let cur = bin.db.get_current_version(c.get_blob()).unwrap();
    assert_eq!(cur.ver, 5);
    let mut vers: Vec<u32> = bin
        .db
        .versions
        .iter()
        .filter(|v| v.owner == *c.get_blob())
        .map(|v| v.ver)
        .collect();
    vers.sort();
    assert_eq!(vers, vec![1, 2, 3, 4, 5]);
}

#[test]
fn tag_fallback_policy() {
    let mut bin = Bin::new("bin".to_string());
    for (content, tag) in [
        (b"c1".as_slice(), ""),
        (b"c2".as_slice(), "stable"),
        (b"c3".as_slice(), ""),
    ] {
        let c = file_config("/etc/tags.conf", tag, content);
        push_config(&mut bin, &c).unwrap();
    }
    let blob = hash_path("/etc/tags.conf");

    let denied = pull_file(&bin, &blob, &"missing".to_string(), false, 0, &no_hash());
    assert!(matches!(denied, Err(Error::TagNotFound)));

    match pull_file(&bin, &blob, &"missing".to_string(), true, 0, &no_hash()).unwrap() {
        PullAction::Restore { ver, data, .. } => {
            assert_eq!(ver, 3);
            assert_eq!(data, b"c3".to_vec());
        },
        _ => panic!("expected a restore"),
    }

    // a tag that exists selects its revision
    match pull_file(&bin, &blob, &"stable".to_string(), false, 0, &no_hash()).unwrap() {
        PullAction::Restore { ver, data, .. } => {
            assert_eq!(ver, 2);
            assert_eq!(data, b"c2".to_vec());
        },
        _ => panic!("expected a restore"),
    }
}

#[test]
fn missing_blob_is_reported() {
    let mut bin = Bin::new("bin".to_string());
    let blob = hash_path("/etc/ghost.conf");
    bin.db
        .add_config(&ConfigRow {
            id: blob.clone(),
            subset: String::new(),
            family: String::new(),
            map_path: "/etc/ghost.conf".to_string(),
        })
        .unwrap();
    bin.db
        .add_version(&Version {
            data_hash: hash_contents(&Some(b"gone".to_vec())),
            ver: 1,
            tag: String::new(),
            owner: blob.clone(),
        })
        .unwrap();
    let r = pull_file(&bin, &blob, &String::new(), false, 0, &no_hash());
    assert!(matches!(r, Err(Error::BlobNotFound)));
}

#[test]
fn unknown_identity_is_reported() {
    let bin = Bin::new("bin".to_string());
    let blob = hash_path("/etc/nowhere.conf");
    let r = pull_file(&bin, &blob, &String::new(), false, 0, &no_hash());
    assert!(matches!(r, Err(Error::FileNotFound)));
}

#[test]
fn unknown_version_is_reported() {
    let mut bin = Bin::new("bin".to_string());
    let c = file_config("/etc/one.conf", "", b"solo");
    push_config(&mut bin, &c).unwrap();
    let r = pull_file(&bin, c.get_blob(), &String::new(), false, 9, &no_hash());
    assert!(matches!(r, Err(Error::VersionNotFound)));
    // with fallback allowed the most recent revision is taken instead
    let ok = pull_file(&bin, c.get_blob(), &String::new(), true, 9, &no_hash()).unwrap();
    assert!(matches!(ok, PullAction::Restore { ver: 1, .. }));
}

#[test]
fn matching_content_needs_no_update() {
    let mut bin = Bin::new("bin".to_string());
    let c = file_config("/etc/asis.conf", "", b"in place");
    push_config(&mut bin, &c).unwrap();
    let on_disk = hash_contents(&Some(b"in place".to_vec()));
    let r = pull_file(&bin, c.get_blob(), &String::new(), false, 0, &on_disk).unwrap();
    assert!(matches!(r, PullAction::UpToDate));
}

#[test]
fn directory_revision_creates_a_directory() {
    let mut bin = Bin::new("bin".to_string());
    let c = Config::from(
        "/etc/conf.d".to_string(),
        "/etc/conf.d".to_string(),
        String::new(),
        String::new(),
        String::new(),
        None,
    );
    assert_eq!(c.get_hash(), "DIR");
    assert_eq!(push_config(&mut bin, &c).unwrap(), 1);
    match pull_file(&bin, c.get_blob(), &String::new(), false, 0, &no_hash()).unwrap() {
        PullAction::CreateDir { path } => assert_eq!(path, "/etc/conf.d"),
        _ => panic!("expected a directory creation"),
    }
}

#[test]
fn exhausted_version_counter_is_internal() {
    let mut bin = Bin::new("bin".to_string());
    let blob = hash_path("/etc/full.conf");
    bin.db
        .add_version(&Version {
            data_hash: hash_contents(&Some(b"old".to_vec())),
            ver: u32::MAX,
            tag: String::new(),
            owner: blob,
        })
        .unwrap();
    let c = file_config("/etc/full.conf", "", b"new");
    let r = push_config(&mut bin, &c);
    assert!(matches!(r, Err(Error::Internal)));
}

#[test]
fn selection_is_order_independent() {
    let mk = |h: &str, ver: u32, tag: &str| Version {
        data_hash: h.to_string(),
        ver,
        tag: tag.to_string(),
        owner: "o".to_string(),
    };
    let forward = vec![mk("a", 1, "t"), mk("b", 2, ""), mk("c", 3, "t")];
    let backward = vec![mk("c", 3, "t"), mk("b", 2, ""), mk("a", 1, "t")];
    // the earliest-numbered tagged revision wins either way
    let s1 = select_version(&forward, &"t".to_string(), 0, false).unwrap();
    let s2 = select_version(&backward, &"t".to_string(), 0, false).unwrap();
    assert_eq!(s1.ver, 1);
    assert_eq!(s2.ver, 1);
    // the fallback is the highest number either way
    let f1 = select_version(&forward, &String::new(), 0, false).unwrap();
    let f2 = select_version(&backward, &String::new(), 0, false).unwrap();
    assert_eq!(f1.ver, 3);
    assert_eq!(f2.ver, 3);
}

#[test]
fn canonical_paths_map_to_themselves() {
    let p = "/etc/somewhere.conf".to_string();
    assert_eq!(map_to_real_path(&p).unwrap(), p);
}
