use fm_core::url::Url;

fn local(parts: &[&str]) -> Url {
    Url::local(parts.iter().map(|p| p.to_string()).collect())
}

#[test]
fn join_appends_component() {
    let base = local(&["tmp"]);
    let joined = base.join(&"a".to_string());
    assert_eq!(joined, local(&["tmp", "a"]));
}

#[test]
fn file_name_is_last_component() {
    let u = local(&["tmp", "a.txt"]);
    assert_eq!(u.file_name().unwrap().as_str(), "a.txt");
    assert!(Url::default().file_name().is_none());
}

#[test]
fn parent_drops_last_component() {
    let u = local(&["tmp", "a.txt"]);
    assert_eq!(u.parent_url().unwrap(), local(&["tmp"]));
    assert!(Url::default().parent_url().is_none());
}

#[test]
fn stem_drops_extension() {
    assert_eq!(local(&["a.tar.gz"]).file_stem().unwrap().as_str(), "a.tar");
    assert_eq!(local(&["plain"]).file_stem().unwrap().as_str(), "plain");
    assert_eq!(local(&[".bashrc"]).file_stem().unwrap().as_str(), ".bashrc");
    assert_eq!(local(&["a."]).file_stem().unwrap().as_str(), "a");
}

#[test]
fn hidden_is_leading_dot() {
    assert!(local(&["home", ".config"]).is_hidden());
    assert!(!local(&["home", "config"]).is_hidden());
    assert!(!Url::default().is_hidden());
}

#[test]
fn equality_and_schemes() {
    let a = local(&["tmp", "a"]);
    let b = local(&["tmp", "a"]);
    let c = local(&["tmp", "b"]);
    assert_eq!(a, b);
    assert_ne!(a, c);
    let r = Url::remote("sftp".to_string(), vec!["tmp".to_string(), "a".to_string()]);
    assert_ne!(a, r);
    assert!(r.is_remote().is_some());
    assert!(a.is_remote().is_none());
    assert!(Url::default().is_default());
    assert!(!a.is_default());
}

#[test]
fn clone_preserves_value() {
    let a = Url::remote("sftp".to_string(), vec!["x".to_string()]);
    assert_eq!(a.clone(), a);
}
