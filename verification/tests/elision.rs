use name_it::elision::elide_type;
use name_it::errors::NameItError;
use name_it::types::TypeTree;

fn n(s: &str) -> Vec<char> {
    s.chars().collect()
}

fn path() -> TypeTree {
    TypeTree::Other { parts: vec![] }
}

fn reference(lifetime: Option<&str>, elem: TypeTree) -> TypeTree {
    TypeTree::Reference { lifetime: lifetime.map(n), mutable: false, elem: Box::new(elem) }
}

fn lifetime_of(t: &TypeTree) -> Option<Vec<char>> {
    match t {
        TypeTree::Reference { lifetime, .. } => lifetime.clone(),
        _ => None,
    }
}

#[test]
fn reference_without_lifetime_gets_fut() {
    let out = elide_type(&reference(None, path())).unwrap();
    assert_eq!(lifetime_of(&out), Some(n("fut")));
}

#[test]
fn static_and_fut_are_kept() {
    for l in ["static", "fut"] {
        let out = elide_type(&reference(Some(l), path())).unwrap();
        assert_eq!(lifetime_of(&out), Some(n(l)));
    }
}

#[test]
fn underscore_becomes_fut() {
    let out = elide_type(&reference(Some("_"), path())).unwrap();
    assert_eq!(lifetime_of(&out), Some(n("fut")));
    match elide_type(&TypeTree::Lifetime(n("_"))).unwrap() {
        TypeTree::Lifetime(l) => assert_eq!(l, n("fut")),
        _ => panic!("not a lifetime"),
    }
    match elide_type(&TypeTree::Lifetime(n("static"))).unwrap() {
        TypeTree::Lifetime(l) => assert_eq!(l, n("static")),
        _ => panic!("not a lifetime"),
    }
}

#[test]
fn custom_lifetime_is_refused() {
    assert_eq!(
        elide_type(&reference(Some("a"), path())).err(),
        Some(NameItError::CustomLifetime)
    );
    let nested = TypeTree::Other { parts: vec![path(), TypeTree::Lifetime(n("b"))] };
    assert_eq!(elide_type(&nested).err(), Some(NameItError::CustomLifetime));
    let deep = reference(None, reference(Some("stat"), path()));
    assert_eq!(elide_type(&deep).err(), Some(NameItError::CustomLifetime));
}

#[test]
fn trait_object_without_lifetime_bound_gets_fut_bound() {
    let t = TypeTree::TraitObject { bounds: vec![path()] };
    match elide_type(&t).unwrap() {
        TypeTree::TraitObject { bounds } => {
            assert_eq!(bounds.len(), 2);
            match &bounds[1] {
                TypeTree::Lifetime(l) => assert_eq!(l, &n("fut")),
                _ => panic!("no lifetime bound"),
            }
        }
        _ => panic!("not a trait object"),
    }
}

#[test]
fn trait_object_with_lifetime_bound_is_kept() {
    let t = TypeTree::TraitObject { bounds: vec![path(), TypeTree::Lifetime(n("static"))] };
    match elide_type(&t).unwrap() {
        TypeTree::TraitObject { bounds } => assert_eq!(bounds.len(), 2),
        _ => panic!("not a trait object"),
    }
}

#[test]
fn nested_references_are_all_elided() {
    // Box<&dyn Fn(&u8)>
    let inner = TypeTree::TraitObject {
        bounds: vec![TypeTree::Other { parts: vec![reference(None, path())] }],
    };
    let t = TypeTree::Other { parts: vec![reference(None, inner)] };
    let out = elide_type(&t).unwrap();
    let again = elide_type(&out).unwrap();
    match (&out, &again) {
        (TypeTree::Other { parts: a }, TypeTree::Other { parts: b }) => {
            assert_eq!(lifetime_of(&a[0]), Some(n("fut")));
            assert_eq!(lifetime_of(&b[0]), Some(n("fut")));
            match &a[0] {
                TypeTree::Reference { elem, .. } => match &**elem {
                    TypeTree::TraitObject { bounds } => {
                        assert_eq!(bounds.len(), 2);
                        match &bounds[0] {
                            TypeTree::Other { parts } => {
                                assert_eq!(lifetime_of(&parts[0]), Some(n("fut")))
                            }
                            _ => panic!("bound changed"),
                        }
                    }
                    _ => panic!("not a trait object"),
                },
                _ => panic!("not a reference"),
            }
        }
        _ => panic!("shape changed"),
    }
}

#[test]
fn impl_trait_bounds_are_elided_inside() {
    let t = TypeTree::ImplTrait { bounds: vec![TypeTree::Other { parts: vec![reference(None, path())] }] };
    match elide_type(&t).unwrap() {
        TypeTree::ImplTrait { bounds } => {
            assert_eq!(bounds.len(), 1);
            match &bounds[0] {
                TypeTree::Other { parts } => assert_eq!(lifetime_of(&parts[0]), Some(n("fut"))),
                _ => panic!("bound changed"),
            }
        }
        _ => panic!("not impl Trait"),
    }
}
