use name_it::errors::NameItError;
use name_it::visibility::{bump_visibility, Visibility};

fn n(s: &str) -> Vec<char> {
    s.chars().collect()
}

fn restricted(in_token: bool, path: &[&str]) -> Visibility {
    Visibility::Restricted { in_token, leading_colon: false, path: path.iter().map(|s| n(s)).collect() }
}

fn path_of(v: &Visibility) -> Vec<Vec<char>> {
    match v {
        Visibility::Restricted { path, .. } => path.clone(),
        _ => panic!("not restricted"),
    }
}

#[test]
fn public_and_crate_stay() {
    assert!(matches!(bump_visibility(&Visibility::Public), Ok(Visibility::Public)));
    assert!(matches!(bump_visibility(&Visibility::Crate), Ok(Visibility::Crate)));
}

#[test]
fn private_becomes_pub_super() {
    let v = bump_visibility(&Visibility::Inherited).unwrap();
    match &v {
        Visibility::Restricted { in_token, leading_colon, path } => {
            assert!(!in_token);
            assert!(!leading_colon);
            assert_eq!(path, &vec![n("super")]);
        }
        _ => panic!("not restricted"),
    }
}

#[test]
fn pub_self_becomes_pub_super() {
    let v = bump_visibility(&restricted(false, &["self"])).unwrap();
    assert_eq!(path_of(&v), vec![n("super")]);
}

#[test]
fn pub_in_self_path_replaces_self() {
    let v = bump_visibility(&restricted(true, &["self", "a"])).unwrap();
    assert_eq!(path_of(&v), vec![n("super"), n("a")]);
    assert!(matches!(v, Visibility::Restricted { in_token: true, .. }));
}

#[test]
fn other_paths_get_super_in_front() {
    let v = bump_visibility(&restricted(false, &["crate"])).unwrap();
    assert_eq!(path_of(&v), vec![n("super"), n("crate")]);
    let w = bump_visibility(&restricted(true, &["super", "m"])).unwrap();
    assert_eq!(path_of(&w), vec![n("super"), n("super"), n("m")]);
}

#[test]
fn leading_colon_is_kept() {
    let v = Visibility::Restricted { in_token: true, leading_colon: true, path: vec![n("a")] };
    assert!(matches!(
        bump_visibility(&v),
        Ok(Visibility::Restricted { in_token: true, leading_colon: true, .. })
    ));
}

#[test]
fn empty_path_is_refused() {
    assert_eq!(
        bump_visibility(&restricted(true, &[])).err(),
        Some(NameItError::EmptyVisibilityPath)
    );
}
