use name_it::async_trait::{
    expand, expand_impl, expand_trait, AsyncTraitInput, Expansion, ImplItem, ImplMethod, TraitItem,
};
use name_it::errors::NameItError;
use name_it::signature::{FnArg, FnItem, Pat};
use name_it::types::TypeTree;
use name_it::visibility::Visibility;

fn n(s: &str) -> Vec<char> {
    s.chars().collect()
}

fn foo() -> TypeTree {
    TypeTree::Other { parts: vec![] }
}

fn method(name: &str, is_async: bool) -> TraitItem {
    TraitItem::Method { name: n(name), is_async }
}

fn impl_method(name: &str, is_async: bool, inputs: Vec<FnArg>) -> ImplItem {
    ImplItem::Method(ImplMethod {
        is_default: false,
        sig: FnItem {
            vis: Visibility::Inherited,
            is_async,
            name: n(name),
            n_generics: 0,
            where_clause: vec![],
            inputs,
            output: Some(foo()),
        },
    })
}

#[test]
fn trait_async_methods_are_rewritten() {
    let items = vec![method("bar", true), TraitItem::Other, method("baz", false)];
    let x = expand_trait(&items);
    assert_eq!(x.rewritten, vec![true, false, false]);
    assert_eq!(x.assoc_types, vec![n("bar")]);
}

#[test]
fn trait_assoc_types_are_ordered_and_distinct() {
    let items = vec![method("zeta", true), method("alpha", true), method("mid", true), method("alpha", true)];
    let x = expand_trait(&items);
    assert_eq!(x.assoc_types, vec![n("alpha"), n("mid"), n("zeta")]);
    assert_eq!(x.rewritten, vec![true, true, true, true]);
}

#[test]
fn trait_without_async_methods_is_left_alone() {
    let items = vec![method("a", false), TraitItem::Other];
    let x = expand_trait(&items);
    assert_eq!(x.rewritten, vec![false, false]);
    assert!(x.assoc_types.is_empty());
}

#[test]
fn prefix_names_come_first() {
    let items = vec![method("ab", true), method("a", true), method("b", true)];
    assert_eq!(expand_trait(&items).assoc_types, vec![n("a"), n("ab"), n("b")]);
}

#[test]
fn impl_receiver_becomes_this() {
    let items = vec![impl_method(
        "bar",
        true,
        vec![FnArg::Receiver { reference: Some(None), mutable: false }],
    )];
    let x = expand_impl(&foo(), &items).unwrap();
    assert_eq!(x.rewritten, vec![true]);
    assert_eq!(x.futures.len(), 1);
    let f = &x.futures[0];
    assert_eq!(f.method_name, n("bar"));
    assert_eq!(f.future_type, n("bar_future"));
    assert_eq!(f.plan.module_name, n("_bar_impl"));
    assert_eq!(f.plan.arg_names, vec![n("this")]);
    match &f.inputs[0] {
        FnArg::Typed { pat: Pat::Ident { name, .. }, ty: TypeTree::Reference { lifetime, mutable, .. } } => {
            assert_eq!(name, &n("this"));
            assert_eq!(lifetime, &None);
            assert!(!mutable);
        }
        _ => panic!("receiver not converted"),
    }
    match &f.plan.wrapper_inputs[0] {
        FnArg::Typed { ty: TypeTree::Reference { lifetime, .. }, .. } => {
            assert_eq!(lifetime, &Some(n("fut")))
        }
        _ => panic!("not elided"),
    }
    assert!(f.plan.takes_fut);
}

#[test]
fn impl_raw_method_name_gives_plain_future_name() {
    let items = vec![impl_method("r#match", true, vec![])];
    let x = expand_impl(&foo(), &items).unwrap();
    assert_eq!(x.futures[0].future_type, n("match_future"));
    assert_eq!(x.futures[0].method_name, n("r#match"));
    assert_eq!(x.futures[0].plan.module_name, n("_match_impl"));
}

#[test]
fn impl_self_by_value_becomes_this_of_the_type() {
    let items = vec![impl_method("take", true, vec![FnArg::Receiver { reference: None, mutable: false }])];
    let x = expand_impl(&foo(), &items).unwrap();
    match &x.futures[0].inputs[0] {
        FnArg::Typed { ty: TypeTree::Other { .. }, .. } => {}
        _ => panic!("receiver not converted"),
    }
}

#[test]
fn impl_mut_self_by_value_is_refused() {
    let items = vec![impl_method("take", true, vec![FnArg::Receiver { reference: None, mutable: true }])];
    assert_eq!(expand_impl(&foo(), &items).err(), Some(NameItError::ReceiverByMutValue));
}

#[test]
fn impl_sync_methods_are_left_alone() {
    let items = vec![
        impl_method("sync", false, vec![]),
        ImplItem::Other,
        impl_method("later", true, vec![]),
    ];
    let x = expand_impl(&foo(), &items).unwrap();
    assert_eq!(x.rewritten, vec![false, false, true]);
    assert_eq!(x.futures.len(), 1);
    assert_eq!(x.futures[0].future_type, n("later_future"));
}

#[test]
fn impl_default_method_is_refused() {
    let mut item = impl_method("d", true, vec![]);
    if let ImplItem::Method(m) = &mut item {
        m.is_default = true;
    }
    assert_eq!(expand_impl(&foo(), &vec![item]).err(), Some(NameItError::NotAFunction));
}

#[test]
fn impl_name_it_errors_propagate() {
    let items = vec![impl_method(
        "bar",
        true,
        vec![FnArg::Receiver { reference: Some(Some(n("a"))), mutable: false }],
    )];
    assert_eq!(expand_impl(&foo(), &items).err(), Some(NameItError::CustomLifetime));
    let generic_self = TypeTree::Other { parts: vec![TypeTree::Lifetime(n("a"))] };
    let items2 = vec![impl_method(
        "bar",
        true,
        vec![FnArg::Receiver { reference: Some(None), mutable: false }],
    )];
    assert_eq!(expand_impl(&generic_self, &items2).err(), Some(NameItError::CustomLifetime));
}

#[test]
fn expand_dispatches_on_the_item() {
    let t = AsyncTraitInput::Trait { items: vec![method("bar", true)] };
    assert!(matches!(expand(&t), Ok(Expansion::Trait(_))));
    let i = AsyncTraitInput::Impl { self_ty: foo(), items: vec![impl_method("bar", true, vec![])] };
    match expand(&i) {
        Ok(Expansion::Impl(x)) => assert_eq!(x.futures.len(), 1),
        _ => panic!("impl not expanded"),
    }
}
