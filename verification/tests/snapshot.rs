use libmeld::Bin;
use libmeld::Config;
use libmeld::Database;
use libmeld::DirectoryMap;
use libmeld::Error;
use libmeld::PullAction;
use libmeld::PullPlan;
use libmeld::hash_contents;
use libmeld::hash_path;
use libmeld::pull_member;
use libmeld::push_map;
use libmeld::resolve_pull;

fn member(path: &str, content: &[u8]) -> Config {
    Config::from(
        path.to_string(),
        path.to_string(),
        String::new(),
        String::new(),
        String::new(),
        Some(content.to_vec()),
    )
}

fn tree(a: &[u8], b: &[u8]) -> DirectoryMap {
    let members = vec![member("/etc/tree/a.conf", a), member("/etc/tree/b.conf", b)];
    DirectoryMap::new(&"/etc/tree".to_string(), String::new(), members)
}

#[test]
fn aggregate_hash_is_reproducible() {
    let m1 = tree(b"alpha", b"beta");
    let m2 = tree(b"alpha", b"beta");
    let m3 = tree(b"alpha", b"changed");
    assert_eq!(m1.hash, m2.hash);
    assert_ne!(m1.hash, m3.hash);
    assert_eq!(m1.get_blob(), &hash_path("/etc/tree"));
}

#[test]
fn unchanged_tree_produces_no_new_manifest() {
    let mut bin = Bin::new("bin".to_string());
    let mut m1 = tree(b"alpha", b"beta");
    assert_eq!(push_map(&mut bin, &mut m1).unwrap(), 1);
    assert_eq!(m1.ver, 1);
    assert_eq!(bin.manifests.len(), 1);
    assert_eq!(bin.db.maps.len(), 1);

    // nothing changed: the 0 sentinel, no map row, no manifest
    let mut m2 = tree(b"alpha", b"beta");
    assert_eq!(push_map(&mut bin, &mut m2).unwrap(), 0);
    assert_eq!(m2.ver, 0);
    assert_eq!(bin.manifests.len(), 1);
    assert_eq!(bin.db.maps.len(), 1);
    // members were still pushed individually, with no version movement
    let blob_a = hash_path("/etc/tree/a.conf");
    let cur_a = bin.db.get_current_version(&blob_a).unwrap();
    assert_eq!(cur_a.ver, 1);
}

#[test]
fn changed_member_advances_only_itself() {
    let mut bin = Bin::new("bin".to_string());
    let mut m1 = tree(b"alpha", b"beta");
    assert_eq!(push_map(&mut bin, &mut m1).unwrap(), 1);

    let mut m2 = tree(b"alpha", b"beta-2");
    assert_eq!(push_map(&mut bin, &mut m2).unwrap(), 2);
    assert_eq!(bin.manifests.len(), 2);

    let blob_a = hash_path("/etc/tree/a.conf");
    let blob_b = hash_path("/etc/tree/b.conf");
    let second = &bin.manifests[1];
    assert_eq!(second.ver, 2);
    assert_eq!(second.entries.len(), 2);
    assert_eq!(second.entries[0].blob, blob_a);
    assert_eq!(second.entries[0].ver, 1);
    assert_eq!(second.entries[1].blob, blob_b);
    assert_eq!(second.entries[1].ver, 2);
}

#[test]
fn snapshot_replay_restores_members() {
    let mut bin = Bin::new("bin".to_string());
    let mut m1 = tree(b"alpha", b"beta");
    push_map(&mut bin, &mut m1).unwrap();
    let mut m2 = tree(b"alpha-2", b"beta");
    push_map(&mut bin, &mut m2).unwrap();

    // replay the latest snapshot of the directory
    let plan = resolve_pull(
        &bin,
        &"/etc/tree".to_string(),
        &"/etc/tree/a.conf".to_string(),
    )
    .unwrap();
    match plan {
        PullPlan::Members { entries } => {
            assert_eq!(entries.len(), 2);
            assert_eq!(entries[0].ver, 2);
            assert_eq!(entries[1].ver, 1);
            match pull_member(&bin, &entries[0], &String::new()).unwrap() {
                PullAction::Restore { path, ver, data } => {
                    assert_eq!(path, "/etc/tree/a.conf");
                    assert_eq!(ver, 2);
                    assert_eq!(data, b"alpha-2".to_vec());
                },
                _ => panic!("expected a restore"),
            }
            match pull_member(&bin, &entries[1], &String::new()).unwrap() {
                PullAction::Restore { path, ver, data } => {
                    assert_eq!(path, "/etc/tree/b.conf");
                    assert_eq!(ver, 1);
                    assert_eq!(data, b"beta".to_vec());
                },
                _ => panic!("expected a restore"),
            }
        },
        PullPlan::Single { .. } => panic!("expected a member replay"),
    }
}

#[test]
fn member_already_in_place_is_untouched() {
    let mut bin = Bin::new("bin".to_string());
    let mut m1 = tree(b"alpha", b"beta");
    push_map(&mut bin, &mut m1).unwrap();
    let plan = resolve_pull(
        &bin,
        &"/etc/tree".to_string(),
        &"/etc/tree/b.conf".to_string(),
    )
    .unwrap();
    match plan {
        PullPlan::Members { entries } => {
            let on_disk = hash_contents(&Some(b"beta".to_vec()));
            let r = pull_member(&bin, &entries[1], &on_disk).unwrap();
            assert!(matches!(r, PullAction::UpToDate));
        },
        PullPlan::Single { .. } => panic!("expected a member replay"),
    }
}

#[test]
fn plain_file_resolves_to_a_single_pull() {
    let mut bin = Bin::new("bin".to_string());
    let c = member("/etc/single.conf", b"solo");
    libmeld::push_config(&mut bin, &c).unwrap();
    let plan = resolve_pull(
        &bin,
        &"/etc/single.conf".to_string(),
        &"/etc/single.conf".to_string(),
    )
    .unwrap();
    match plan {
        PullPlan::Single { blob } => assert_eq!(&blob, c.get_blob()),
        PullPlan::Members { .. } => panic!("expected a single pull"),
    }
}

#[test]
fn untracked_path_cannot_be_resolved() {
    let bin = Bin::new("bin".to_string());
    let r = resolve_pull(
        &bin,
        &"/etc/missing".to_string(),
        &"/etc/missing".to_string(),
    );
    assert!(matches!(r, Err(Error::FileNotFound)));
}

#[test]
fn lost_manifest_is_a_filesystem_fault() {
    let mut bin = Bin::new("bin".to_string());
    let mut m1 = tree(b"alpha", b"beta");
    push_map(&mut bin, &mut m1).unwrap();
    // the bin reopened without its manifest files
    let rebuilt = Bin::from(
        "bin".to_string(),
        take_db(&mut bin),
        Vec::new(),
        Vec::new(),
    )
    .unwrap();
    let r = resolve_pull(
        &rebuilt,
        &"/etc/tree".to_string(),
        &"/etc/tree/a.conf".to_string(),
    );
    assert!(matches!(r, Err(Error::IOError { .. })));
}

fn take_db(bin: &mut Bin) -> Database {
    std::mem::replace(&mut bin.db, Database::new())
}

#[test]
fn bin_layout_and_validity() {
    let bin = Bin::new("/var/lib/store".to_string());
    assert_eq!(bin.path, "/var/lib/store");
    assert_eq!(bin.maps, "/var/lib/store/maps");
    assert_eq!(bin.blobs, "/var/lib/store/blobs");
    assert!(bin.is_valid());

    let mut db = Database::new();
    db.add_version(&libmeld::Version {
        data_hash: "h".to_string(),
        ver: 1,
        tag: String::new(),
        owner: "o".to_string(),
    })
    .unwrap();
    db.add_version(&libmeld::Version {
        data_hash: "h2".to_string(),
        ver: 1,
        tag: String::new(),
        owner: "o".to_string(),
    })
    .unwrap();
    let r = Bin::from("/var/lib/store".to_string(), db, Vec::new(), Vec::new());
    assert!(matches!(r, Err(Error::InitFailed { .. })));
}

#[test]
fn blob_version_path_names_the_stored_revision() {
    let mut bin = Bin::new("bin".to_string());
    let c = member("/etc/pathy.conf", b"bytes");
    libmeld::push_config(&mut bin, &c).unwrap();
    let p = c.get_blob_version_path(&bin, 1).unwrap();
    assert_eq!(p, format!("bin/blobs/{}/1", c.get_blob()));
    let missing = c.get_blob_version_path(&bin, 2);
    assert!(matches!(missing, Err(Error::BlobNotFound)));
}
