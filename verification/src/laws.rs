use vstd::prelude::*;
use crate::async_trait::{
    async_names, future_suffix, impl_expansion, is_async_method, ImplExpansionView, ImplItemView,
    TraitItemView,
};
use crate::elision::lemma_elide_all_index;
use crate::errors::NameItError;
use crate::name_it::{arg_name, arg_names, module_name_of};
use crate::names::{fut_name, super_name, underscore, unraw};
use crate::order::{
    insert_sorted, lemma_lex_asymmetric, lemma_lex_irreflexive, lemma_lex_total,
    lemma_lex_transitive, lex_lt, strictly_sorted,
};
use crate::signature::FnArgView;
use crate::visibility::{bumped, VisibilityView};
use crate::types::{
    all_lifetimes_allowed, elide, elide_all, fill_lifetime, has_lifetime_bound, lifetimes_allowed,
    TypeShape,
};

verus! {

/// Every lifetime of the type is written out: each reference has one, and
/// each trait object has a lifetime bound.
pub open spec fn explicit(t: TypeShape) -> bool
    decreases t,
{
    match t {
        TypeShape::Lifetime(_) => true,
        TypeShape::Reference { lifetime, elem, .. } => lifetime is Some && explicit(*elem),
        TypeShape::TraitObject { bounds } => has_lifetime_bound(bounds) && all_explicit(bounds),
        TypeShape::ImplTrait { bounds } => all_explicit(bounds),
        TypeShape::Other { parts } => all_explicit(parts),
    }
}

/// Every type of `s` is [`explicit`].
pub open spec fn all_explicit(s: Seq<TypeShape>) -> bool
    decreases s,
{
    if s.len() == 0 {
        true
    } else {
        all_explicit(s.drop_last()) && explicit(s.last())
    }
}

/// A lifetime bound stays a lifetime bound through [`elide_all`].
proof fn lemma_elide_all_keeps_lifetime_bound(s: Seq<TypeShape>)
    ensures
        has_lifetime_bound(s) ==> has_lifetime_bound(elide_all(s)),
    decreases s.len(),
{
    if s.len() > 0 {
        lemma_elide_all_keeps_lifetime_bound(s.drop_last());
        lemma_elide_all_index(s);
        if has_lifetime_bound(s) {
            let i = choose|i: int| 0 <= i < s.len() && #[trigger] s[i] is Lifetime;
            assert(elide_all(s)[i] == elide(s[i]));
            assert(elide(s[i]) is Lifetime);
        }
    }
}

/// After elision, every lifetime of a type is written out.
pub proof fn law_elided_types_are_explicit(t: TypeShape)
    ensures
        explicit(elide(t)),
    decreases t,
{
    match t {
        TypeShape::Lifetime(_) => {
            assert(elide(t) is Lifetime);
        },
        TypeShape::Reference { elem, .. } => {
            law_elided_types_are_explicit(*elem);
        },
        TypeShape::TraitObject { bounds } => {
            lemma_elide_all_explicit(bounds);
            lemma_elide_all_keeps_lifetime_bound(bounds);
            if !has_lifetime_bound(bounds) {
                let b = elide_all(bounds).push(TypeShape::Lifetime(fut_name()));
                assert(b.drop_last() =~= elide_all(bounds));
                assert(b[b.len() - 1] is Lifetime);
                assert(explicit(b.last()));
                assert(all_explicit(b));
                assert(has_lifetime_bound(b));
            }
            assert(explicit(elide(t)));
        },
        TypeShape::ImplTrait { bounds } => {
            lemma_elide_all_explicit(bounds);
        },
        TypeShape::Other { parts } => {
            lemma_elide_all_explicit(parts);
        },
    }
}

/// [`law_elided_types_are_explicit`] for each type of `s`.
proof fn lemma_elide_all_explicit(s: Seq<TypeShape>)
    ensures
        all_explicit(elide_all(s)),
    decreases s,
{
    if s.len() > 0 {
        lemma_elide_all_explicit(s.drop_last());
        law_elided_types_are_explicit(s.last());
        assert(elide_all(s).drop_last() =~= elide_all(s.drop_last()));
    }
}

/// Eliding twice is eliding once.
pub proof fn law_elision_is_idempotent(t: TypeShape)
    ensures
        elide(elide(t)) == elide(t),
    decreases t,
{
    match t {
        TypeShape::Lifetime(_) => {
            assert(fut_name().len() != underscore().len());
        },
        TypeShape::Reference { elem, .. } => {
            assert(fut_name().len() != underscore().len());
            law_elision_is_idempotent(*elem);
        },
        TypeShape::TraitObject { bounds } => {
            lemma_elide_all_idempotent(bounds);
            law_elided_types_are_explicit(t);
            let b = elide_all(bounds);
            if !has_lifetime_bound(bounds) {
                let pushed = b.push(TypeShape::Lifetime(fut_name()));
                assert(pushed.drop_last() =~= b);
                assert(pushed.last() == TypeShape::Lifetime(fut_name()));
                assert(elide(TypeShape::Lifetime(fut_name())) == TypeShape::Lifetime(fut_name()));
                assert(elide_all(pushed) =~= elide_all(b).push(TypeShape::Lifetime(fut_name())));
            }
        },
        TypeShape::ImplTrait { bounds } => {
            lemma_elide_all_idempotent(bounds);
        },
        TypeShape::Other { parts } => {
            lemma_elide_all_idempotent(parts);
        },
    }
}

/// [`law_elision_is_idempotent`] for each type of `s`.
proof fn lemma_elide_all_idempotent(s: Seq<TypeShape>)
    ensures
        elide_all(elide_all(s)) == elide_all(s),
    decreases s,
{
    if s.len() > 0 {
        lemma_elide_all_idempotent(s.drop_last());
        law_elision_is_idempotent(s.last());
        let e = elide_all(s);
        assert(e.drop_last() =~= elide_all(s.drop_last()));
        assert(elide_all(e) =~= e);
    }
}

/// Elision brings in no lifetime that `#[name_it]` refuses.
pub proof fn law_elision_keeps_lifetimes_allowed(t: TypeShape)
    ensures
        lifetimes_allowed(t) ==> lifetimes_allowed(elide(t)),
    decreases t,
{
    match t {
        TypeShape::Lifetime(n) => {
            assert(fut_name().len() != underscore().len());
            assert(elide(t) == TypeShape::Lifetime(fill_lifetime(n)));
        },
        TypeShape::Reference { lifetime, elem, .. } => {
            assert(fut_name().len() != underscore().len());
            law_elision_keeps_lifetimes_allowed(*elem);
        },
        TypeShape::TraitObject { bounds } => {
            lemma_elide_all_keeps_allowed(bounds);
            if !has_lifetime_bound(bounds) {
                let b = elide_all(bounds).push(TypeShape::Lifetime(fut_name()));
                assert(b.drop_last() =~= elide_all(bounds));
                assert(lifetimes_allowed(b.last()));
                assert(all_lifetimes_allowed(bounds) ==> all_lifetimes_allowed(b));
            }
            assert(lifetimes_allowed(t) ==> lifetimes_allowed(elide(t)));
        },
        TypeShape::ImplTrait { bounds } => {
            lemma_elide_all_keeps_allowed(bounds);
        },
        TypeShape::Other { parts } => {
            lemma_elide_all_keeps_allowed(parts);
        },
    }
}

/// [`law_elision_keeps_lifetimes_allowed`] for each type of `s`.
proof fn lemma_elide_all_keeps_allowed(s: Seq<TypeShape>)
    ensures
        all_lifetimes_allowed(s) ==> all_lifetimes_allowed(elide_all(s)),
    decreases s,
{
    if s.len() > 0 {
        lemma_elide_all_keeps_allowed(s.drop_last());
        law_elision_keeps_lifetimes_allowed(s.last());
        assert(elide_all(s).drop_last() =~= elide_all(s.drop_last()));
    }
}

/// A bumped visibility keeps `pub` and `crate`, and turns any other
/// visibility into a path whose first segment is `super`; only an empty path
/// is refused. (The path is not always one that rustc accepts: see
/// [`bumped`].)
pub proof fn law_bumped_visibility_starts_with_super(v: VisibilityView)
    ensures
        bumped(v) is Err <==> (v matches VisibilityView::Restricted { path, .. } && path.len() == 0),
        bumped(v) matches Ok(w) ==> {
            &&& (v is Public <==> w is Public)
            &&& (v is Crate <==> w is Crate)
            &&& (v is Restricted || v is Inherited) ==> (w matches VisibilityView::Restricted { path, .. }
                && path.len() > 0 && path[0] == super_name())
        },
{
}

/// The plan names each argument once, in order; it fails exactly where some
/// argument cannot be named, and then with the error of the first one.
pub proof fn law_one_name_per_argument(s: Seq<FnArgView>)
    ensures
        arg_names(s) matches Ok(ns) ==> ns.len() == s.len() && forall|i: int|
            0 <= i < s.len() ==> arg_name(#[trigger] s[i]) == Ok::<Seq<char>, NameItError>(ns[i]),
        arg_names(s) is Err <==> exists|i: int| 0 <= i < s.len() && (#[trigger] arg_name(s[i])) is Err,
    decreases s.len(),
{
    if s.len() > 0 {
        law_one_name_per_argument(s.drop_last());
        if arg_names(s) is Ok {
            assert forall|i: int| 0 <= i < s.len() implies (#[trigger] arg_name(s[i])) is Ok by {
                if i < s.len() - 1 {
                    assert(s.drop_last()[i] == s[i]);
                }
            }
        }
        if arg_names(s.drop_last()) is Err {
            let i = choose|i: int| 0 <= i < s.drop_last().len() && (#[trigger] arg_name(s.drop_last()[i])) is Err;
            assert(s.drop_last()[i] == s[i]);
        }
        if let Ok(ns) = arg_names(s) {
            assert forall|i: int| 0 <= i < s.len() implies arg_name(#[trigger] s[i]) == Ok::<Seq<char>, NameItError>(ns[i]) by {
                if i < s.len() - 1 {
                    assert(s.drop_last()[i] == s[i]);
                }
            }
        }
    }
}

/// Inserting into strictly ordered names keeps them strictly ordered, and
/// adds exactly the new name.
proof fn lemma_insert_sorted(s: Seq<Seq<char>>, n: Seq<char>)
    requires
        strictly_sorted(s),
    ensures
        strictly_sorted(insert_sorted(s, n)),
        forall|m: Seq<char>|
            #![trigger insert_sorted(s, n).contains(m)]
            #![trigger s.contains(m)]
            insert_sorted(s, n).contains(m) <==> (s.contains(m) || m == n),
        insert_sorted(s, n).len() > 0 && (lex_lt(n, insert_sorted(s, n)[0]) || n == insert_sorted(s, n)[0]
            || (s.len() > 0 && insert_sorted(s, n)[0] == s[0])),
    decreases s.len(),
{
    if s.len() == 0 {
        assert(insert_sorted(s, n) =~= seq![n]);
        assert forall|m: Seq<char>| insert_sorted(s, n).contains(m) <==> (s.contains(m) || m == n) by {
            if m == n {
                assert(insert_sorted(s, n)[0] == n);
            }
        }
    } else if s[0] == n {
        assert forall|m: Seq<char>| insert_sorted(s, n).contains(m) <==> (s.contains(m) || m == n) by {
            if m == n {
                assert(s[0] == n);
            }
        }
    } else if lex_lt(n, s[0]) {
        let r = seq![n] + s;
        assert forall|i: int, j: int| 0 <= i < j < r.len() implies lex_lt(#[trigger] r[i], #[trigger] r[j]) by {
            if i == 0 {
                if j > 1 {
                    lemma_lex_transitive(n, s[0], s[j - 1]);
                }
            } else {
                assert(r[i] == s[i - 1] && r[j] == s[j - 1]);
            }
        }
        assert forall|m: Seq<char>| r.contains(m) <==> (s.contains(m) || m == n) by {
            if r.contains(m) {
                let k = choose|k: int| 0 <= k < r.len() && r[k] == m;
                if k > 0 {
                    assert(s[k - 1] == m);
                }
            }
            if s.contains(m) {
                let k = choose|k: int| 0 <= k < s.len() && s[k] == m;
                assert(r[k + 1] == m);
            }
            if m == n {
                assert(r[0] == n);
            }
        }
    } else {
        let t = s.drop_first();
        assert forall|i: int, j: int| 0 <= i < j < t.len() implies lex_lt(#[trigger] t[i], #[trigger] t[j]) by {
            assert(t[i] == s[i + 1] && t[j] == s[j + 1]);
        }
        lemma_insert_sorted(t, n);
        lemma_lex_total(n, s[0]);
        let rest = insert_sorted(t, n);
        let r = seq![s[0]] + rest;
        assert(insert_sorted(s, n) == r);
        assert forall|i: int, j: int| 0 <= i < j < r.len() implies lex_lt(#[trigger] r[i], #[trigger] r[j]) by {
            if i == 0 {
                assert(r[j] == rest[j - 1]);
                assert(rest.contains(rest[j - 1]));
                if rest[j - 1] == n {
                } else {
                    assert(t.contains(rest[j - 1]));
                    let k = choose|k: int| 0 <= k < t.len() && t[k] == rest[j - 1];
                    assert(s[k + 1] == t[k]);
                }
            } else {
                assert(r[i] == rest[i - 1] && r[j] == rest[j - 1]);
            }
        }
        assert forall|m: Seq<char>| r.contains(m) <==> (s.contains(m) || m == n) by {
            if r.contains(m) {
                let k = choose|k: int| 0 <= k < r.len() && r[k] == m;
                if k > 0 {
                    assert(rest[k - 1] == m);
                    assert(rest.contains(m));
                    if t.contains(m) {
                        let q = choose|q: int| 0 <= q < t.len() && t[q] == m;
                        assert(s[q + 1] == m);
                    }
                } else {
                    assert(s[0] == m);
                }
            }
            if s.contains(m) {
                let k = choose|k: int| 0 <= k < s.len() && s[k] == m;
                if k == 0 {
                    assert(r[0] == m);
                } else {
                    assert(t[k - 1] == m);
                    assert(t.contains(m));
                    let q = choose|q: int| 0 <= q < rest.len() && rest[q] == m;
                    assert(r[q + 1] == m);
                }
            }
            if m == n {
                assert(rest.contains(n));
                let q = choose|q: int| 0 <= q < rest.len() && rest[q] == n;
                assert(r[q + 1] == n);
            }
        }
    }
}

/// The associated types that `#[async_trait]` adds to a trait are in
/// strictly increasing order of their names (so each once), and they are
/// exactly the names of the trait's `async` methods.
pub proof fn law_assoc_types_sorted_and_exact(items: Seq<TraitItemView>)
    ensures
        strictly_sorted(async_names(items)),
        forall|n: Seq<char>| #![trigger async_names(items).contains(n)]
            async_names(items).contains(n) <==> exists|i: int|
                0 <= i < items.len() && (#[trigger] items[i] matches TraitItemView::Method { name, is_async }
                    && is_async && name == n),
    decreases items.len(),
{
    if items.len() > 0 {
        let d = items.drop_last();
        law_assoc_types_sorted_and_exact(d);
        let s = async_names(d);
        let last = items.last();
        match last {
            TraitItemView::Method { name, is_async } => {
                if is_async {
                    lemma_insert_sorted(s, name);
                }
            },
            TraitItemView::Other => {},
        }
        assert forall|n: Seq<char>| #![trigger async_names(items).contains(n)]
            async_names(items).contains(n) <==> exists|i: int|
                0 <= i < items.len() && (#[trigger] items[i] matches TraitItemView::Method { name, is_async }
                    && is_async && name == n) by {
            assert(items[items.len() - 1] == last);
            if let TraitItemView::Method { name, is_async } = last {
                if is_async {
                    assert(async_names(items) == insert_sorted(s, name));
                    assert(async_names(items).contains(n) <==> (s.contains(n) || n == name));
                } else {
                    assert(async_names(items) == s);
                }
            } else {
                assert(async_names(items) == s);
            }
            if async_names(items).contains(n) {
                if s.contains(n) {
                    assert(async_names(d).contains(n));
                    let i = choose|i: int| 0 <= i < d.len() && (#[trigger] d[i] matches TraitItemView::Method { name, is_async }
                        && is_async && name == n);
                    assert(items[i] == d[i]);
                } else {
                    assert(items[items.len() - 1] == last);
                }
            }
            if exists|i: int| 0 <= i < items.len() && (#[trigger] items[i] matches TraitItemView::Method { name, is_async }
                && is_async && name == n) {
                let i = choose|i: int| 0 <= i < items.len() && (#[trigger] items[i] matches TraitItemView::Method { name, is_async }
                    && is_async && name == n);
                if i < items.len() - 1 {
                    assert(d[i] == items[i]);
                    assert(async_names(d).contains(n));
                }
            }
        }
    }
}

/// `#[async_trait]` on an `impl` block rewrites exactly its `async`
/// methods, and names for each the future type `<name>_future`, made by the
/// function that moves into the module `_<name>_impl`.
pub proof fn law_impl_futures_named_after_methods(self_ty: TypeShape, items: Seq<ImplItemView>)
    ensures
        impl_expansion(self_ty, items) matches Ok(x) ==> {
            &&& x.rewritten.len() == items.len()
            &&& forall|i: int| 0 <= i < items.len() ==> x.rewritten[i] == (#[trigger] items[i] matches ImplItemView::Method(m) && m.sig.is_async)
            &&& forall|k: int| 0 <= k < x.futures.len() ==> (#[trigger] x.futures[k]).future_type
                == unraw(x.futures[k].method_name) + future_suffix()
                && x.futures[k].plan.module_name == module_name_of(x.futures[k].method_name)
        },
    decreases items.len(),
{
    if items.len() > 0 {
        law_impl_futures_named_after_methods(self_ty, items.drop_last());
        if let Ok(x) = impl_expansion(self_ty, items) {
            assert forall|i: int| 0 <= i < items.len() implies x.rewritten[i] == (#[trigger] items[i] matches ImplItemView::Method(m) && m.sig.is_async) by {
                if i < items.len() - 1 {
                    assert(items.drop_last()[i] == items[i]);
                }
            }
        }
    }
}

/// Whether the type names the lifetime `'_`.
pub open spec fn names_underscore(t: TypeShape) -> bool
    decreases t,
{
    match t {
        TypeShape::Lifetime(n) => n == underscore(),
        TypeShape::Reference { lifetime, elem, .. } => lifetime == Some(underscore()) || names_underscore(*elem),
        TypeShape::TraitObject { bounds } => any_names_underscore(bounds),
        TypeShape::ImplTrait { bounds } => any_names_underscore(bounds),
        TypeShape::Other { parts } => any_names_underscore(parts),
    }
}

/// Whether some type of `s` names the lifetime `'_`.
pub open spec fn any_names_underscore(s: Seq<TypeShape>) -> bool
    decreases s,
{
    if s.len() == 0 {
        false
    } else {
        any_names_underscore(s.drop_last()) || names_underscore(s.last())
    }
}

/// After elision no `'_` is left: each one, written or added, is the
/// future's lifetime `'fut`.
pub proof fn law_elision_leaves_no_underscore(t: TypeShape)
    ensures
        !names_underscore(elide(t)),
    decreases t,
{
    assert(fut_name().len() != underscore().len());
    match t {
        TypeShape::Lifetime(_) => {},
        TypeShape::Reference { elem, .. } => {
            law_elision_leaves_no_underscore(*elem);
        },
        TypeShape::TraitObject { bounds } => {
            lemma_elide_all_no_underscore(bounds);
            if !has_lifetime_bound(bounds) {
                let b = elide_all(bounds).push(TypeShape::Lifetime(fut_name()));
                assert(b.drop_last() =~= elide_all(bounds));
                assert(!names_underscore(b.last()));
                assert(!any_names_underscore(b));
            }
            assert(!names_underscore(elide(t)));
        },
        TypeShape::ImplTrait { bounds } => {
            lemma_elide_all_no_underscore(bounds);
        },
        TypeShape::Other { parts } => {
            lemma_elide_all_no_underscore(parts);
        },
    }
}

/// [`law_elision_leaves_no_underscore`] for each type of `s`.
proof fn lemma_elide_all_no_underscore(s: Seq<TypeShape>)
    ensures
        !any_names_underscore(elide_all(s)),
    decreases s,
{
    if s.len() > 0 {
        lemma_elide_all_no_underscore(s.drop_last());
        law_elision_leaves_no_underscore(s.last());
        assert(elide_all(s).drop_last() =~= elide_all(s.drop_last()));
    }
}

} // verus!
