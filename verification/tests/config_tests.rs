use zbox_bridge::config::{OpenOptionsConfig, RepoOpenerConfig};

#[test]
fn repo_opener_defaults_match_the_engine() {
    let c = RepoOpenerConfig::new();
    assert!(!c.create);
    assert!(!c.create_new);
    assert!(!c.compress);
    assert_eq!(c.version_limit, 1);
    assert!(!c.dedup_chunk);
    assert!(!c.read_only);
    assert!(!c.force);
}

#[test]
fn repo_opener_setters_record_each_option() {
    let mut c = RepoOpenerConfig::new();
    c.create(true);
    c.compress(true);
    c.version_limit(5);
    c.dedup_chunk(true);
    c.read_only(true);
    c.force(true);
    c.create_new(true);
    assert!(c.create);
    assert!(c.create_new);
    assert!(c.compress);
    assert_eq!(c.version_limit, 5);
    assert!(c.dedup_chunk);
    assert!(c.read_only);
    assert!(c.force);
    // setters only touch their own option
    c.create(false);
    assert!(!c.create);
    assert!(c.create_new);
}

#[test]
fn open_options_defaults_match_the_engine() {
    let c = OpenOptionsConfig::new();
    assert!(c.read);
    assert!(!c.write);
    assert!(!c.append);
    assert!(!c.truncate);
    assert!(!c.create);
    assert!(!c.create_new);
    assert_eq!(c.version_limit, None);
    assert_eq!(c.dedup_chunk, None);
}

#[test]
fn open_options_setters_record_each_option() {
    let mut c = OpenOptionsConfig::new();
    c.read(false);
    c.write(true);
    c.append(true);
    c.truncate(true);
    c.create(true);
    c.create_new(true);
    c.version_limit(9);
    c.dedup_chunk(false);
    assert!(!c.read);
    assert!(c.write);
    assert!(c.append);
    assert!(c.truncate);
    assert!(c.create);
    assert!(c.create_new);
    assert_eq!(c.version_limit, Some(9));
    assert_eq!(c.dedup_chunk, Some(false));
}
