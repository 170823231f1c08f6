use fm_core::fs::{File, MetaSnapshot, RemoteStat};
use fm_core::url::Url;

fn local(parts: &[&str]) -> Url {
    Url::local(parts.iter().map(|p| p.to_string()).collect())
}

fn plain_meta() -> MetaSnapshot {
    MetaSnapshot {
        is_symlink: false,
        is_dir: false,
        len: 42,
        accessed: Some(1),
        created: Some(2),
        modified: Some(3),
        permissions: 0o644,
        uid: 1000,
        gid: 1000,
    }
}

#[test]
fn plain_file_gets_no_link_flags() {
    let f = File::from_meta(local(&["home", "a.txt"]), &plain_meta(), None, None);
    assert!(!f.cha.kind.link);
    assert!(!f.cha.kind.orphan);
    assert!(!f.cha.kind.dir);
    assert!(!f.cha.kind.hidden);
    assert_eq!(f.cha.len, 42);
    assert!(f.link_to.is_none());
}

#[test]
fn resolved_symlink_is_a_link() {
    let link = MetaSnapshot { is_symlink: true, ..plain_meta() };
    let followed = MetaSnapshot { is_symlink: false, is_dir: true, len: 7, ..plain_meta() };
    let f = File::from_meta(
        local(&["home", "lnk"]),
        &link,
        Some(&followed),
        Some(local(&["home", "target"])),
    );
    assert!(f.cha.kind.link);
    assert!(!f.cha.kind.orphan);
    assert!(f.cha.kind.dir);
    assert_eq!(f.cha.len, 7);
    assert_eq!(f.link_to.unwrap(), local(&["home", "target"]));
}

#[test]
fn broken_symlink_chain_is_an_orphan() {
    let link = MetaSnapshot { is_symlink: true, ..plain_meta() };
    // Following failed: the link's own stat stays effective.
    let f = File::from_meta(local(&["home", "lnk"]), &link, None, None);
    assert!(!f.cha.kind.link);
    assert!(f.cha.kind.orphan);
    // Following reached another symlink: still an orphan.
    let still_link = MetaSnapshot { is_symlink: true, ..plain_meta() };
    let f2 = File::from_meta(local(&["home", "lnk"]), &link, Some(&still_link), None);
    assert!(f2.cha.kind.orphan);
}

#[test]
fn hidden_follows_leading_dot() {
    let f = File::from_meta(local(&["home", ".secret"]), &plain_meta(), None, None);
    assert!(f.cha.kind.hidden);
}

#[test]
fn remote_files_synthesize_ownership() {
    let stat = RemoteStat { is_dir: true, content_length: 9, last_modified: Some(777) };
    let f = File::from_remote(local(&["bucket", "obj"]), &stat, 1000, 100);
    assert!(f.cha.kind.dir);
    assert_eq!(f.cha.len, 9);
    assert_eq!(f.cha.modified, Some(777));
    assert_eq!(f.cha.accessed, None);
    assert_eq!(f.cha.permissions, 0o774);
    assert_eq!(f.cha.uid, 1000);
    assert_eq!(f.cha.gid, 100);
    assert!(f.link_to.is_none());
}

#[test]
fn dummy_and_accessors() {
    let u = local(&["dir", "name.tar.gz"]);
    let f = File::from_dummy(&u);
    assert_eq!(f.url(), u);
    assert_eq!(f.name().unwrap().as_str(), "name.tar.gz");
    assert_eq!(f.stem().unwrap().as_str(), "name.tar");
    assert_eq!(f.parent().unwrap(), local(&["dir"]));
    assert_eq!(f.cha.len, 0);
    assert!(!f.is_dir());
}
