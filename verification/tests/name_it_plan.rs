use name_it::errors::NameItError;
use name_it::name_it::name_it;
use name_it::signature::{FnArg, FnItem, Pat};
use name_it::types::TypeTree;
use name_it::visibility::Visibility;

fn n(s: &str) -> Vec<char> {
    s.chars().collect()
}

fn path() -> TypeTree {
    TypeTree::Other { parts: vec![] }
}

fn ident(name: &str) -> Pat {
    Pat::Ident { by_ref: false, mutable: false, has_attrs: false, name: n(name), subpat: None }
}

fn arg(name: &str, ty: TypeTree) -> FnArg {
    FnArg::Typed { pat: ident(name), ty }
}

fn add_fn() -> FnItem {
    // async fn add(x: i32, y: i32) -> i32
    FnItem {
        vis: Visibility::Inherited,
        is_async: true,
        name: n("add"),
        n_generics: 0,
        where_clause: vec![],
        inputs: vec![arg("x", path()), arg("y", path())],
        output: Some(path()),
    }
}

#[test]
fn plan_for_simple_async_fn() {
    let p = name_it(&add_fn()).unwrap();
    assert_eq!(p.module_name, n("_add_impl"));
    assert_eq!(p.arg_names, vec![n("x"), n("y")]);
    assert!(!p.unit_output);
    assert_eq!(p.wrapper_inputs.len(), 2);
    assert!(p.wrapper_where.is_empty());
    assert!(!p.takes_fut);
    match p.inner_vis {
        Visibility::Restricted { path, .. } => assert_eq!(path, vec![n("super")]),
        _ => panic!("not bumped"),
    }
}

#[test]
fn unit_output_when_none_written() {
    let mut f = add_fn();
    f.output = None;
    assert!(name_it(&f).unwrap().unit_output);
}

#[test]
fn references_in_arguments_get_fut() {
    let mut f = add_fn();
    f.inputs = vec![arg(
        "s",
        TypeTree::Reference { lifetime: None, mutable: false, elem: Box::new(path()) },
    )];
    let p = name_it(&f).unwrap();
    match &p.wrapper_inputs[0] {
        FnArg::Typed { ty: TypeTree::Reference { lifetime, .. }, .. } => {
            assert_eq!(lifetime, &Some(n("fut")))
        }
        _ => panic!("argument changed"),
    }
    assert_eq!(p.arg_names, vec![n("s")]);
    assert!(p.takes_fut);
}

#[test]
fn static_references_take_no_fut() {
    let mut f = add_fn();
    f.inputs = vec![arg(
        "s",
        TypeTree::Reference { lifetime: Some(n("static")), mutable: false, elem: Box::new(path()) },
    )];
    assert!(!name_it(&f).unwrap().takes_fut);
    let mut g = add_fn();
    g.where_clause = vec![TypeTree::Lifetime(n("_"))];
    let p = name_it(&g).unwrap();
    assert!(p.takes_fut);
    match &p.wrapper_where[0] {
        TypeTree::Lifetime(l) => assert_eq!(l, &n("fut")),
        _ => panic!("where clause changed"),
    }
}

#[test]
fn raw_identifier_prefix_is_left_out_of_the_module_name() {
    let mut f = add_fn();
    f.name = n("r#type");
    assert_eq!(name_it(&f).unwrap().module_name, n("_type_impl"));
    let mut g = add_fn();
    g.name = n("r");
    assert_eq!(name_it(&g).unwrap().module_name, n("_r_impl"));
}

#[test]
fn not_async_is_refused() {
    let mut f = add_fn();
    f.is_async = false;
    assert_eq!(name_it(&f).err(), Some(NameItError::NotAsync));
}

#[test]
fn generics_are_refused() {
    let mut f = add_fn();
    f.n_generics = 1;
    assert_eq!(name_it(&f).err(), Some(NameItError::Generics));
    let mut g = add_fn();
    g.inputs = vec![arg("it", TypeTree::ImplTrait { bounds: vec![path()] })];
    assert_eq!(name_it(&g).err(), Some(NameItError::Generics));
}

#[test]
fn custom_lifetimes_are_refused() {
    let mut f = add_fn();
    f.inputs = vec![arg(
        "s",
        TypeTree::Reference { lifetime: Some(n("a")), mutable: false, elem: Box::new(path()) },
    )];
    assert_eq!(name_it(&f).err(), Some(NameItError::CustomLifetime));
    let mut g = add_fn();
    g.where_clause = vec![TypeTree::Lifetime(n("x"))];
    assert_eq!(name_it(&g).err(), Some(NameItError::CustomLifetime));
}

#[test]
fn receivers_are_refused() {
    let mut f = add_fn();
    f.inputs = vec![FnArg::Receiver { reference: Some(None), mutable: false }];
    assert_eq!(name_it(&f).err(), Some(NameItError::Method));
}

#[test]
fn receiver_lifetime_is_checked_first() {
    let mut f = add_fn();
    f.inputs = vec![FnArg::Receiver { reference: Some(Some(n("a"))), mutable: false }];
    assert_eq!(name_it(&f).err(), Some(NameItError::CustomLifetime));
}

#[test]
fn patterns_must_be_plain_identifiers() {
    let mut f = add_fn();
    f.inputs = vec![FnArg::Typed { pat: Pat::Other { parts: vec![] }, ty: path() }];
    assert_eq!(name_it(&f).err(), Some(NameItError::PatternNotIdent));
    let mut g = add_fn();
    g.inputs = vec![FnArg::Typed {
        pat: Pat::Ident { by_ref: true, mutable: false, has_attrs: false, name: n("x"), subpat: None },
        ty: path(),
    }];
    assert_eq!(name_it(&g).err(), Some(NameItError::PatternNotIdent));
    let mut h = add_fn();
    h.inputs = vec![FnArg::Typed {
        pat: Pat::Ident { by_ref: false, mutable: true, has_attrs: false, name: n("x"), subpat: None },
        ty: path(),
    }];
    assert_eq!(name_it(&h).unwrap().arg_names, vec![n("x")]);
}

#[test]
fn first_bad_argument_decides() {
    let mut f = add_fn();
    f.inputs = vec![
        arg("x", path()),
        FnArg::Typed { pat: Pat::Other { parts: vec![] }, ty: path() },
        FnArg::Receiver { reference: None, mutable: false },
    ];
    assert_eq!(name_it(&f).err(), Some(NameItError::PatternNotIdent));
}

#[test]
fn visibility_error_comes_before_argument_errors() {
    let mut f = add_fn();
    f.vis = Visibility::Restricted { in_token: true, leading_colon: false, path: vec![] };
    f.inputs = vec![FnArg::Receiver { reference: None, mutable: false }];
    assert_eq!(name_it(&f).err(), Some(NameItError::EmptyVisibilityPath));
}

#[test]
fn error_messages() {
    assert_eq!(NameItError::NotAsync.message(), Some("#[name_it] only works on async functions"));
    assert_eq!(
        NameItError::CustomLifetime.message(),
        Some("custom lifetimes in #[name_it] args are not supported yet")
    );
    assert_eq!(NameItError::Generics.message(), Some("generics are not supported by #[name_it] yet"));
    assert_eq!(NameItError::Method.message(), Some("methods are not supported by #[name_it]"));
    assert_eq!(NameItError::ReceiverByMutValue.message(), None);
}
