use libmeld::ConfigRow;
use libmeld::Database;
use libmeld::Version;

fn row(data_hash: &str, ver: u32, tag: &str, owner: &str) -> Version {
    Version {
        data_hash: data_hash.to_string(),
        ver,
        tag: tag.to_string(),
        owner: owner.to_string(),
    }
}

fn config_row(id: &str, subset: &str, family: &str, map_path: &str) -> ConfigRow {
    ConfigRow {
        id: id.to_string(),
        subset: subset.to_string(),
        family: family.to_string(),
        map_path: map_path.to_string(),
    }
}

#[test]
fn current_version_is_the_highest() {
    let mut db = Database::new();
    assert!(db.get_current_version(&"o1".to_string()).is_none());
    db.add_version(&row("h1", 1, "", "o1")).unwrap();
    db.add_version(&row("h2", 2, "stable", "o1")).unwrap();
    db.add_version(&row("x1", 1, "", "o2")).unwrap();
    let cur = db.get_current_version(&"o1".to_string()).unwrap();
    assert_eq!(cur.ver, 2);
    assert_eq!(cur.data_hash, "h2");
    assert_eq!(cur.tag, "stable");
    let cur2 = db.get_current_version(&"o2".to_string()).unwrap();
    assert_eq!(cur2.ver, 1);
}

#[test]
fn get_versions_deduplicates_by_content() {
    let mut db = Database::new();
    db.add_version(&row("hA", 1, "first", "o1")).unwrap();
    db.add_version(&row("hB", 2, "", "o1")).unwrap();
    db.add_version(&row("hA", 3, "", "o1")).unwrap();
    db.add_version(&row("hC", 1, "", "other")).unwrap();
    let vs = db.get_versions(&"o1".to_string());
    assert_eq!(vs.len(), 2);
    // only the newest row per content hash survives
    assert!(vs.iter().any(|v| v.data_hash == "hB" && v.ver == 2));
    assert!(vs.iter().any(|v| v.data_hash == "hA" && v.ver == 3));
    assert!(!vs.iter().any(|v| v.ver == 1));
}

#[test]
fn config_lookup_both_ways() {
    let mut db = Database::new();
    db.add_config(&config_row("id1", "s", "f", "/etc/a")).unwrap();
    db.add_config(&config_row("id2", "", "", "/etc/b")).unwrap();
    assert_eq!(db.config_exists(&"/etc/a".to_string()), Some("id1".to_string()));
    assert_eq!(db.config_exists(&"/etc/b".to_string()), Some("id2".to_string()));
    assert_eq!(db.config_exists(&"/etc/c".to_string()), None);
    assert_eq!(db.get_mapped_path(&"id2".to_string()), Some("/etc/b".to_string()));
    assert_eq!(db.get_mapped_path(&"id9".to_string()), None);
}

#[test]
fn tag_correction_touches_one_row() {
    let mut db = Database::new();
    db.add_version(&row("h1", 1, "old", "o1")).unwrap();
    db.add_version(&row("h2", 2, "old", "o1")).unwrap();
    let target = row("h2", 2, "old", "o1");
    db.update_version_tag(&target, &"new".to_string()).unwrap();
    assert_eq!(db.versions[0].tag, "old");
    assert_eq!(db.versions[1].tag, "new");
    assert_eq!(db.versions[1].ver, 2);
    assert_eq!(db.versions.len(), 2);
}

#[test]
fn reclassification() {
    let mut db = Database::new();
    db.add_config(&config_row("id1", "s0", "f0", "/etc/a")).unwrap();
    db.add_config(&config_row("id2", "s0", "f0", "/etc/b")).unwrap();
    db.update_subset(&"id1".to_string(), &"s1".to_string()).unwrap();
    db.update_family(&"id2".to_string(), &"f1".to_string()).unwrap();
    assert_eq!(db.configs[0].subset, "s1");
    assert_eq!(db.configs[0].family, "f0");
    assert_eq!(db.configs[1].subset, "s0");
    assert_eq!(db.configs[1].family, "f1");
}

#[test]
fn validity_detects_duplicate_version_keys() {
    let mut db = Database::new();
    db.add_version(&row("h1", 1, "", "o1")).unwrap();
    db.add_version(&row("h2", 2, "", "o1")).unwrap();
    assert!(db.is_valid());
    db.add_version(&row("h3", 2, "", "o1")).unwrap();
    assert!(!db.is_valid());
}
