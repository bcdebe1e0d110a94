use vstd::prelude::*;
use crate::async_trait::{
    async_names, convert_inputs, impl_expansion, trait_expansion, ImplExpansionView, ImplItemView,
    TraitItemView,
};
use crate::errors::NameItError;
use crate::name_it::{name_it_plan, NameItPlanView};
use crate::signature::{arg_names_fut, FnArgView, FnItemView, PatView};
use crate::names::fut_name;
use crate::types::{any_names_fut, elide, elide_all, has_lifetime_bound, names_fut, TypeShape};
use crate::laws::{law_assoc_types_sorted_and_exact, law_one_name_per_argument};
use crate::name_it::arg_name;
use crate::names::unraw;

verus! {

/// `#[async_trait]` on a trait rewrites exactly its `async` methods (they
/// lose `async` and return `Self::<name>`), one flag per item; and each
/// associated type it adds is named after such a rewritten method.
pub proof fn law_trait_rewrites_exactly_async_methods(items: Seq<TraitItemView>)
    ensures
        trait_expansion(items).rewritten.len() == items.len(),
        forall|i: int| 0 <= i < items.len() ==> (#[trigger] trait_expansion(items).rewritten[i] <==> (
            items[i] matches TraitItemView::Method { is_async, .. } && is_async)),
        forall|n: Seq<char>| #[trigger] trait_expansion(items).assoc_types.contains(n) ==> exists|i: int|
            0 <= i < items.len() && trait_expansion(items).rewritten[i] && (#[trigger] items[i]
                matches TraitItemView::Method { name, .. } && name == n),
{
    law_assoc_types_sorted_and_exact(items);
    let x = trait_expansion(items);
    assert forall|n: Seq<char>| #[trigger] x.assoc_types.contains(n) implies exists|i: int|
        0 <= i < items.len() && x.rewritten[i] && (#[trigger] items[i]
            matches TraitItemView::Method { name, .. } && name == n) by {
        assert(async_names(items).contains(n));
        let i = choose|i: int|
            0 <= i < items.len() && (#[trigger] items[i] matches TraitItemView::Method { name, is_async }
                && is_async && name == n);
        assert(x.rewritten[i]);
    }
}

/// The argument `this`, as a pattern.
pub open spec fn pattern_this() -> PatView {
    PatView::Ident { by_ref: false, mutable: false, has_attrs: false, name: seq!['t', 'h', 'i', 's'], subpat: None }
}

/// `c` is what argument `a` of a method of a block for `self_ty` becomes:
/// a reference receiver `&'l mut? self` becomes `this: &'l mut? Ty` with the
/// same lifetime and mutability; `self` becomes `this: Ty`; any other
/// argument stays as it is.
pub open spec fn becomes(self_ty: TypeShape, a: FnArgView, c: FnArgView) -> bool {
    match a {
        FnArgView::Receiver { reference: Some(l), mutable } => c == FnArgView::Typed {
            pat: pattern_this(),
            ty: TypeShape::Reference { lifetime: l, mutable, elem: Box::new(self_ty) },
        },
        FnArgView::Receiver { reference: None, mutable } => !mutable && c == FnArgView::Typed {
            pat: pattern_this(),
            ty: self_ty,
        },
        FnArgView::Typed { .. } => c == a,
    }
}

/// When `#[async_trait]` turns the arguments of a method into those of the
/// function that makes its future, each argument becomes its counterpart as
/// [`becomes`] says, in order; this fails exactly when some receiver is
/// `mut self` taken by value.
pub proof fn law_receivers_become_this(self_ty: TypeShape, s: Seq<FnArgView>)
    ensures
        convert_inputs(self_ty, s) matches Ok(c) ==> c.len() == s.len() && forall|i: int|
            0 <= i < s.len() ==> becomes(self_ty, #[trigger] s[i], c[i]),
        convert_inputs(self_ty, s) is Err <==> exists|i: int|
            0 <= i < s.len() && (#[trigger] s[i] matches FnArgView::Receiver { reference: None, mutable }
                && mutable),
    decreases s.len(),
{
    if s.len() > 0 {
        let d = s.drop_last();
        law_receivers_become_this(self_ty, d);
        if let Ok(c) = convert_inputs(self_ty, s) {
            assert forall|i: int| 0 <= i < s.len() implies becomes(self_ty, #[trigger] s[i], c[i]) by {
                if i < s.len() - 1 {
                    assert(d[i] == s[i]);
                }
            }
        }
        if convert_inputs(self_ty, d) is Err {
            let i = choose|i: int|
                0 <= i < d.len() && (#[trigger] d[i] matches FnArgView::Receiver { reference: None, mutable }
                    && mutable);
            assert(s[i] == d[i]);
        }
        if exists|i: int|
            0 <= i < s.len() && (#[trigger] s[i] matches FnArgView::Receiver { reference: None, mutable }
                && mutable) {
            let i = choose|i: int|
                0 <= i < s.len() && (#[trigger] s[i] matches FnArgView::Receiver { reference: None, mutable }
                    && mutable);
            if i < s.len() - 1 {
                assert(d[i] == s[i]);
            }
        }
    }
}

/// The type with its lifetimes taken out: references lose their lifetime,
/// and lifetimes that stand as nodes (bounds, generic arguments) are left
/// out; everything else is kept, in order.
pub open spec fn without_lifetimes(t: TypeShape) -> TypeShape
    decreases t,
{
    match t {
        TypeShape::Lifetime(_) => TypeShape::Lifetime(Seq::empty()),
        TypeShape::Reference { mutable, elem, .. } => TypeShape::Reference {
            lifetime: None,
            mutable,
            elem: Box::new(without_lifetimes(*elem)),
        },
        TypeShape::TraitObject { bounds } => TypeShape::TraitObject { bounds: all_without_lifetimes(bounds) },
        TypeShape::ImplTrait { bounds } => TypeShape::ImplTrait { bounds: all_without_lifetimes(bounds) },
        TypeShape::Other { parts } => TypeShape::Other { parts: all_without_lifetimes(parts) },
    }
}

/// [`without_lifetimes`] on each type of `s`, with the lifetime nodes left out.
pub open spec fn all_without_lifetimes(s: Seq<TypeShape>) -> Seq<TypeShape>
    decreases s,
{
    if s.len() == 0 {
        s
    } else {
        let r = all_without_lifetimes(s.drop_last());
        if s.last() is Lifetime {
            r
        } else {
            r.push(without_lifetimes(s.last()))
        }
    }
}

/// Elision changes only lifetimes: with the lifetimes taken out, the type
/// after elision is the type before (every reference keeps its mutability,
/// every part its place).
pub proof fn law_elision_changes_only_lifetimes(t: TypeShape)
    ensures
        without_lifetimes(elide(t)) == without_lifetimes(t),
    decreases t,
{
    match t {
        TypeShape::Lifetime(_) => {},
        TypeShape::Reference { elem, .. } => {
            law_elision_changes_only_lifetimes(*elem);
        },
        TypeShape::TraitObject { bounds } => {
            lemma_all_elision_changes_only_lifetimes(bounds);
            if !has_lifetime_bound(bounds) {
                let b = elide_all(bounds).push(TypeShape::Lifetime(fut_name()));
                assert(b.drop_last() =~= elide_all(bounds));
                assert(all_without_lifetimes(b) == all_without_lifetimes(elide_all(bounds)));
            }
        },
        TypeShape::ImplTrait { bounds } => {
            lemma_all_elision_changes_only_lifetimes(bounds);
        },
        TypeShape::Other { parts } => {
            lemma_all_elision_changes_only_lifetimes(parts);
        },
    }
}

/// [`law_elision_changes_only_lifetimes`] for each type of `s`.
proof fn lemma_all_elision_changes_only_lifetimes(s: Seq<TypeShape>)
    ensures
        all_without_lifetimes(elide_all(s)) == all_without_lifetimes(s),
    decreases s,
{
    if s.len() > 0 {
        lemma_all_elision_changes_only_lifetimes(s.drop_last());
        law_elision_changes_only_lifetimes(s.last());
        let e = elide_all(s);
        assert(e.drop_last() =~= elide_all(s.drop_last()));
        assert(e.last() == elide(s.last()));
        assert((elide(s.last()) is Lifetime) == (s.last() is Lifetime));
    }
}

/// Every lifetime that stands in a type, in order: those of references and
/// those that stand as nodes.
pub open spec fn lifetimes_in(t: TypeShape) -> Seq<Seq<char>>
    decreases t,
{
    match t {
        TypeShape::Lifetime(n) => seq![n],
        TypeShape::Reference { lifetime, elem, .. } => match lifetime {
            Some(l) => seq![l] + lifetimes_in(*elem),
            None => lifetimes_in(*elem),
        },
        TypeShape::TraitObject { bounds } => lifetimes_in_all(bounds),
        TypeShape::ImplTrait { bounds } => lifetimes_in_all(bounds),
        TypeShape::Other { parts } => lifetimes_in_all(parts),
    }
}

/// Every lifetime that stands in the types of `s`, in order.
pub open spec fn lifetimes_in_all(s: Seq<TypeShape>) -> Seq<Seq<char>>
    decreases s,
{
    if s.len() == 0 {
        Seq::empty()
    } else {
        lifetimes_in_all(s.drop_last()) + lifetimes_in(s.last())
    }
}

/// A concatenation holds what either part holds.
proof fn lemma_contains_concat(a: Seq<Seq<char>>, b: Seq<Seq<char>>, x: Seq<char>)
    ensures
        (a + b).contains(x) <==> a.contains(x) || b.contains(x),
{
    if (a + b).contains(x) {
        let i = choose|i: int| 0 <= i < (a + b).len() && (a + b)[i] == x;
        if i < a.len() {
            assert(a[i] == x);
        } else {
            assert(b[i - a.len()] == x);
        }
    }
    if a.contains(x) {
        let i = choose|i: int| 0 <= i < a.len() && a[i] == x;
        assert((a + b)[i] == x);
    }
    if b.contains(x) {
        let i = choose|i: int| 0 <= i < b.len() && b[i] == x;
        assert((a + b)[a.len() + i] == x);
    }
}

/// A type names `'fut` exactly when `'fut` is among the lifetimes that stand
/// in it, at any depth: in a reference, a trait object's or `impl Trait`'s
/// bounds, or any nested part.
pub proof fn law_names_fut_iff_fut_occurs(t: TypeShape)
    ensures
        names_fut(t) <==> lifetimes_in(t).contains(fut_name()),
    decreases t,
{
    match t {
        TypeShape::Lifetime(n) => {
            if n == fut_name() {
                assert(seq![n][0] == fut_name());
            }
        },
        TypeShape::Reference { lifetime, elem, .. } => {
            law_names_fut_iff_fut_occurs(*elem);
            if let Some(l) = lifetime {
                lemma_contains_concat(seq![l], lifetimes_in(*elem), fut_name());
                if l == fut_name() {
                    assert(seq![l][0] == fut_name());
                }
            }
        },
        TypeShape::TraitObject { bounds } => {
            lemma_any_names_fut_iff_fut_occurs(bounds);
        },
        TypeShape::ImplTrait { bounds } => {
            lemma_any_names_fut_iff_fut_occurs(bounds);
        },
        TypeShape::Other { parts } => {
            lemma_any_names_fut_iff_fut_occurs(parts);
        },
    }
}

/// [`law_names_fut_iff_fut_occurs`] for the types of `s`.
pub proof fn lemma_any_names_fut_iff_fut_occurs(s: Seq<TypeShape>)
    ensures
        any_names_fut(s) <==> lifetimes_in_all(s).contains(fut_name()),
    decreases s,
{
    if s.len() > 0 {
        lemma_any_names_fut_iff_fut_occurs(s.drop_last());
        law_names_fut_iff_fut_occurs(s.last());
        lemma_contains_concat(lifetimes_in_all(s.drop_last()), lifetimes_in(s.last()), fut_name());
    }
}

/// Every lifetime that stands in an argument, in order: that of a
/// reference receiver, those of its pattern, then those of its type.
pub open spec fn lifetimes_in_arg(a: FnArgView) -> Seq<Seq<char>> {
    match a {
        FnArgView::Receiver { reference: Some(Some(l)), .. } => seq![l],
        FnArgView::Receiver { .. } => Seq::empty(),
        FnArgView::Typed { pat, ty } => (match pat {
            PatView::Ident { subpat: Some(ts), .. } => lifetimes_in_all(ts),
            PatView::Ident { subpat: None, .. } => Seq::empty(),
            PatView::Other { parts } => lifetimes_in_all(parts),
        }) + lifetimes_in(ty),
    }
}

/// An argument names `'fut` exactly when `'fut` stands in it.
proof fn lemma_arg_names_fut_iff_fut_occurs(a: FnArgView)
    ensures
        arg_names_fut(a) <==> lifetimes_in_arg(a).contains(fut_name()),
{
    match a {
        FnArgView::Receiver { reference, .. } => {
            if let Some(Some(l)) = reference {
                if l == fut_name() {
                    assert(seq![l][0] == fut_name());
                }
            }
        },
        FnArgView::Typed { pat, ty } => {
            law_names_fut_iff_fut_occurs(ty);
            let pl = match pat {
                PatView::Ident { subpat: Some(ts), .. } => lifetimes_in_all(ts),
                PatView::Ident { subpat: None, .. } => Seq::<Seq<char>>::empty(),
                PatView::Other { parts } => lifetimes_in_all(parts),
            };
            lemma_contains_concat(pl, lifetimes_in(ty), fut_name());
            match pat {
                PatView::Ident { subpat: Some(ts), .. } => {
                    lemma_any_names_fut_iff_fut_occurs(ts);
                },
                PatView::Ident { subpat: None, .. } => {},
                PatView::Other { parts } => {
                    lemma_any_names_fut_iff_fut_occurs(parts);
                },
            }
        },
    }
}

/// The named type and its function take the lifetime `'fut` exactly when
/// `'fut` stands somewhere in the function's new signature: in its `where`
/// clause or in one of its arguments, at any depth.
pub proof fn law_takes_fut_iff_fut_occurs(f: FnItemView, p: NameItPlanView)
    requires
        name_it_plan(f) == Ok::<NameItPlanView, NameItError>(p),
    ensures
        p.takes_fut <==> (lifetimes_in_all(p.wrapper_where).contains(fut_name()) || exists|i: int|
            0 <= i < p.wrapper_inputs.len() && lifetimes_in_arg(#[trigger] p.wrapper_inputs[i]).contains(
                fut_name(),
            )),
{
    lemma_any_names_fut_iff_fut_occurs(p.wrapper_where);
    assert forall|i: int| 0 <= i < p.wrapper_inputs.len() implies (arg_names_fut(#[trigger] p.wrapper_inputs[i])
        <==> lifetimes_in_arg(p.wrapper_inputs[i]).contains(fut_name())) by {
        lemma_arg_names_fut_iff_fut_occurs(p.wrapper_inputs[i]);
    }
}

/// How many flags of `s` are set.
pub open spec fn count_set(s: Seq<bool>) -> nat
    decreases s.len(),
{
    if s.len() == 0 {
        0
    } else {
        count_set(s.drop_last()) + if s.last() {
            1nat
        } else {
            0nat
        }
    }
}

/// `#[async_trait]` on an `impl` block makes one future per rewritten
/// method, in the order of the methods: the future of the method at item
/// `i` comes after those of the rewritten methods before it, and it is that
/// method's future (its `method_name` is the method's name).
pub proof fn law_impl_futures_in_method_order(self_ty: TypeShape, items: Seq<ImplItemView>)
    ensures
        impl_expansion(self_ty, items) matches Ok(x) ==> {
            &&& x.rewritten.len() == items.len()
            &&& x.futures.len() == count_set(x.rewritten)
            &&& forall|i: int| 0 <= i < items.len() && #[trigger] x.rewritten[i] ==> {
                &&& count_set(x.rewritten.take(i)) < x.futures.len()
                &&& items[i] matches ImplItemView::Method(m)
                    && x.futures[count_set(x.rewritten.take(i)) as int].method_name == m.sig.name
            }
        },
    decreases items.len(),
{
    if items.len() > 0 {
        let d = items.drop_last();
        law_impl_futures_in_method_order(self_ty, d);
        if let Ok(x) = impl_expansion(self_ty, items) {
            let y = impl_expansion(self_ty, d).unwrap();
            let n = items.len() - 1;
            assert(x.rewritten.drop_last() =~= y.rewritten);
            assert(x.rewritten.take(n) =~= y.rewritten);
            assert forall|i: int| 0 <= i < items.len() && #[trigger] x.rewritten[i] implies {
                &&& count_set(x.rewritten.take(i)) < x.futures.len()
                &&& items[i] matches ImplItemView::Method(m)
                    && x.futures[count_set(x.rewritten.take(i)) as int].method_name == m.sig.name
            } by {
                if i < n {
                    assert(x.rewritten[i] == y.rewritten[i]);
                    assert(x.rewritten.take(i) =~= y.rewritten.take(i));
                    assert(d[i] == items[i]);
                    let k = count_set(y.rewritten.take(i)) as int;
                    assert(x.futures[k] == y.futures[k]);
                }
            }
        }
    }
}

/// What a plan of `#[name_it]` holds, in terms of the function: it exists
/// only for an `async` function without generic parameters; it hands on
/// each argument under the name of its pattern, in order, and keeps one
/// argument for each; the module is `_<name>_impl`; and the return type is
/// the unit type exactly where none is written.
pub proof fn law_plan_follows_the_function(f: FnItemView)
    ensures
        !f.is_async ==> name_it_plan(f) == Err::<NameItPlanView, NameItError>(NameItError::NotAsync),
        f.is_async && f.n_generics != 0 ==> name_it_plan(f) == Err::<NameItPlanView, NameItError>(
            NameItError::Generics,
        ),
        name_it_plan(f) matches Ok(p) ==> {
            &&& f.is_async && f.n_generics == 0
            &&& p.arg_names.len() == f.inputs.len()
            &&& p.wrapper_inputs.len() == f.inputs.len()
            &&& forall|i: int| 0 <= i < f.inputs.len() ==> (#[trigger] f.inputs[i] matches FnArgView::Typed {
                pat: PatView::Ident { name, by_ref, .. },
                ..
            } && !by_ref && p.arg_names[i] == name)
            &&& p.module_name == seq!['_'] + unraw(f.name) + seq!['_', 'i', 'm', 'p', 'l']
            &&& (p.unit_output <==> f.output is None)
        },
{
    law_one_name_per_argument(f.inputs);
    if let Ok(p) = name_it_plan(f) {
        assert forall|i: int| 0 <= i < f.inputs.len() implies (#[trigger] f.inputs[i] matches FnArgView::Typed {
            pat: PatView::Ident { name, by_ref, .. },
            ..
        } && !by_ref && p.arg_names[i] == name) by {
            assert(arg_name(f.inputs[i]) is Ok);
        }
    }
}

} // verus!
