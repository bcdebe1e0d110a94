use vstd::prelude::*;
use crate::errors::NameItError;
use crate::names::{copy_name, fut_name, make_fut, make_underscore, same_name, static_name, underscore, Name};
use crate::types::{
    all_lifetimes_allowed, allowed_lifetime, any_names_fut, elide, elide_all, fill_lifetime,
    has_lifetime_bound, lifetimes_allowed, names_fut, shapes, TypeShape, TypeTree,
};

verus! {

/// `shapes(s)` has one value per tree of `s`, in order.
pub proof fn lemma_shapes_index(s: Seq<TypeTree>)
    ensures
        shapes(s).len() == s.len(),
        forall|i: int| 0 <= i < s.len() ==> #[trigger] shapes(s)[i] == s[i].shape(),
    decreases s.len(),
{
    if s.len() > 0 {
        lemma_shapes_index(s.drop_last());
    }
}

/// `elide_all(s)` elides each type of `s`, in order.
pub proof fn lemma_elide_all_index(s: Seq<TypeShape>)
    ensures
        elide_all(s).len() == s.len(),
        forall|i: int| 0 <= i < s.len() ==> #[trigger] elide_all(s)[i] == elide(s[i]),
    decreases s.len(),
{
    if s.len() > 0 {
        lemma_elide_all_index(s.drop_last());
    }
}

/// The lifetimes of a sequence are all allowed iff each type's are.
pub proof fn lemma_all_allowed_index(s: Seq<TypeShape>)
    ensures
        all_lifetimes_allowed(s) <==> forall|i: int|
            0 <= i < s.len() ==> lifetimes_allowed(#[trigger] s[i]),
    decreases s.len(),
{
    if s.len() > 0 {
        lemma_all_allowed_index(s.drop_last());
        if all_lifetimes_allowed(s) {
            assert forall|i: int| 0 <= i < s.len() implies lifetimes_allowed(#[trigger] s[i]) by {
                if i < s.len() - 1 {
                    assert(s.drop_last()[i] == s[i]);
                }
            }
        }
        if forall|i: int| 0 <= i < s.len() ==> lifetimes_allowed(#[trigger] s[i]) {
            assert forall|i: int| 0 <= i < s.drop_last().len() implies lifetimes_allowed(
                #[trigger] s.drop_last()[i],
            ) by {
                assert(s.drop_last()[i] == s[i]);
            }
            assert(lifetimes_allowed(s[s.len() - 1]));
        }
    }
}

/// Whether `n` names an allowed lifetime.
pub fn check_lifetime(n: &Name) -> (ok: bool)
    ensures
        ok == allowed_lifetime(n@),
{
    let st: Name = vec!['s', 't', 'a', 't', 'i', 'c'];
    let fu: Name = vec!['f', 'u', 't'];
    let us = make_underscore();
    assert(st@ =~= static_name());
    assert(fu@ =~= fut_name());
    same_name(n, &st) || same_name(n, &fu) || same_name(n, &us)
}

/// The lifetime that `n` stands for, as [`fill_lifetime`] states: `'_`
/// becomes `'fut`.
pub fn fill_name(n: &Name) -> (f: Name)
    ensures
        f@ == fill_lifetime(n@),
{
    let us = make_underscore();
    if same_name(n, &us) {
        make_fut()
    } else {
        copy_name(n)
    }
}

/// Ties the elided lifetimes of a type to the future's lifetime `'fut`, as
/// `#[name_it]` does on the signature of the function it wraps; refuses a
/// type that names a lifetime other than `'static`, `'fut` or `'_`.
pub fn elide_type(t: &TypeTree) -> (r: Result<TypeTree, NameItError>)
    ensures
        match r {
            Ok(u) => lifetimes_allowed(t.shape()) && u.shape() == elide(t.shape()),
            Err(e) => !lifetimes_allowed(t.shape()) && e == NameItError::CustomLifetime,
        },
    decreases t,
{
    match t {
        TypeTree::Lifetime(n) => {
            if check_lifetime(n) {
                Ok(TypeTree::Lifetime(fill_name(n)))
            } else {
                Err(NameItError::CustomLifetime)
            }
        },
        TypeTree::Reference { lifetime, mutable, elem } => {
            let lt = match lifetime {
                Some(l) => {
                    if !check_lifetime(l) {
                        return Err(NameItError::CustomLifetime);
                    }
                    fill_name(l)
                },
                None => make_fut(),
            };
            match elide_type(elem) {
                Ok(e) => Ok(TypeTree::Reference { lifetime: Some(lt), mutable: *mutable, elem: Box::new(e) }),
                Err(e) => Err(e),
            }
        },
        TypeTree::TraitObject { bounds } => {
            let mut out = match elide_types(bounds) {
                Ok(v) => v,
                Err(e) => return Err(e),
            };
            let found = has_lifetime(bounds);
            proof {
                lemma_shapes_index(bounds@);
                lemma_shapes_index(out@);
                assert(has_lifetime_bound(shapes(bounds@)) == found) by {
                    if found {
                        let j = choose|j: int| 0 <= j < bounds@.len() && #[trigger] bounds@[j] is Lifetime;
                        assert(shapes(bounds@)[j] is Lifetime);
                    }
                    if has_lifetime_bound(shapes(bounds@)) {
                        let j = choose|j: int| 0 <= j < shapes(bounds@).len() && #[trigger] shapes(bounds@)[j] is Lifetime;
                        assert(bounds@[j] is Lifetime);
                    }
                }
            }
            if !found {
                let ghost before = out@;
                let f = make_fut();
                out.push(TypeTree::Lifetime(f));
                proof {
                    assert(out@.drop_last() =~= before);
                    assert(out@.last().shape() == TypeShape::Lifetime(fut_name()));
                    assert(shapes(out@) == shapes(before).push(TypeShape::Lifetime(fut_name())));
                }
            }
            Ok(TypeTree::TraitObject { bounds: out })
        },
        TypeTree::ImplTrait { bounds } => {
            match elide_types(bounds) {
                Ok(v) => Ok(TypeTree::ImplTrait { bounds: v }),
                Err(e) => Err(e),
            }
        },
        TypeTree::Other { parts } => {
            match elide_types(parts) {
                Ok(v) => Ok(TypeTree::Other { parts: v }),
                Err(e) => Err(e),
            }
        },
    }
}

/// Whether some tree of `s` is a lifetime.
fn has_lifetime(s: &Vec<TypeTree>) -> (b: bool)
    ensures
        b == exists|j: int| 0 <= j < s@.len() && #[trigger] s@[j] is Lifetime,
{
    let mut i: usize = 0;
    while i < s.len()
        invariant
            i <= s@.len(),
            forall|j: int| 0 <= j < i ==> !(#[trigger] s@[j] is Lifetime),
        decreases s@.len() - i,
    {
        if matches!(s[i], TypeTree::Lifetime(_)) {
            return true;
        }
        i = i + 1;
    }
    false
}

/// [`elide_type`] on each tree of `s`, in order; the first refusal stops it.
pub fn elide_types(s: &Vec<TypeTree>) -> (r: Result<Vec<TypeTree>, NameItError>)
    ensures
        match r {
            Ok(v) => all_lifetimes_allowed(shapes(s@)) && shapes(v@) == elide_all(shapes(s@)),
            Err(e) => !all_lifetimes_allowed(shapes(s@)) && e == NameItError::CustomLifetime,
        },
    decreases s,
{
    let mut out: Vec<TypeTree> = Vec::new();
    let mut i: usize = 0;
    proof {
        lemma_shapes_index(s@);
        lemma_all_allowed_index(shapes(s@));
        lemma_elide_all_index(shapes(s@));
    }
    while i < s.len()
        invariant
            i <= s@.len(),
            out@.len() == i,
            shapes(s@).len() == s@.len(),
            forall|j: int| 0 <= j < s@.len() ==> #[trigger] shapes(s@)[j] == s@[j].shape(),
            elide_all(shapes(s@)).len() == s@.len(),
            forall|j: int| 0 <= j < s@.len() ==> #[trigger] elide_all(shapes(s@))[j] == elide(shapes(s@)[j]),
            all_lifetimes_allowed(shapes(s@)) <==> forall|j: int|
                0 <= j < s@.len() ==> lifetimes_allowed(#[trigger] shapes(s@)[j]),
            forall|j: int| 0 <= j < i ==> lifetimes_allowed(#[trigger] s@[j].shape()),
            forall|j: int| 0 <= j < i ==> (#[trigger] out@[j]).shape() == elide(s@[j].shape()),
        decreases s@.len() - i,
    {
        assert(decreases_to!(s => s@[i as int]));
        match elide_type(&s[i]) {
            Ok(u) => {
                out.push(u);
            },
            Err(e) => {
                assert(!lifetimes_allowed(shapes(s@)[i as int]));
                return Err(e);
            },
        }
        i = i + 1;
    }
    proof {
        lemma_shapes_index(out@);
        assert(shapes(out@) =~= elide_all(shapes(s@)));
        assert forall|j: int| 0 <= j < s@.len() implies lifetimes_allowed(#[trigger] shapes(s@)[j]) by {
            assert(lifetimes_allowed(s@[j].shape()));
        }
    }
    Ok(out)
}

} // verus!

verus! {

/// A copy of `t`.
pub fn copy_type(t: &TypeTree) -> (c: TypeTree)
    ensures
        c.shape() == t.shape(),
    decreases t,
{
    match t {
        TypeTree::Lifetime(n) => TypeTree::Lifetime(copy_name(n)),
        TypeTree::Reference { lifetime, mutable, elem } => {
            let lt = match lifetime {
                Some(l) => Some(copy_name(l)),
                None => None,
            };
            TypeTree::Reference { lifetime: lt, mutable: *mutable, elem: Box::new(copy_type(elem)) }
        },
        TypeTree::TraitObject { bounds } => TypeTree::TraitObject { bounds: copy_types(bounds) },
        TypeTree::ImplTrait { bounds } => TypeTree::ImplTrait { bounds: copy_types(bounds) },
        TypeTree::Other { parts } => TypeTree::Other { parts: copy_types(parts) },
    }
}

/// A copy of `s`.
pub fn copy_types(s: &Vec<TypeTree>) -> (c: Vec<TypeTree>)
    ensures
        shapes(c@) == shapes(s@),
    decreases s,
{
    let mut out: Vec<TypeTree> = Vec::new();
    let mut i: usize = 0;
    while i < s.len()
        invariant
            i <= s@.len(),
            out@.len() == i,
            forall|j: int| 0 <= j < i ==> (#[trigger] out@[j]).shape() == s@[j].shape(),
        decreases s@.len() - i,
    {
        assert(decreases_to!(s => s@[i as int]));
        out.push(copy_type(&s[i]));
        i = i + 1;
    }
    proof {
        lemma_shapes_index(s@);
        lemma_shapes_index(out@);
    }
    assert(shapes(out@) =~= shapes(s@));
    out
}

/// `any_names_fut(s)` holds iff some type of `s` names `'fut`.
pub proof fn lemma_any_names_fut_index(s: Seq<TypeShape>)
    ensures
        any_names_fut(s) <==> exists|i: int| 0 <= i < s.len() && names_fut(#[trigger] s[i]),
    decreases s.len(),
{
    if s.len() > 0 {
        lemma_any_names_fut_index(s.drop_last());
        if any_names_fut(s.drop_last()) {
            let i = choose|i: int| 0 <= i < s.drop_last().len() && names_fut(#[trigger] s.drop_last()[i]);
            assert(s[i] == s.drop_last()[i]);
        }
        if exists|i: int| 0 <= i < s.len() && names_fut(#[trigger] s[i]) {
            let i = choose|i: int| 0 <= i < s.len() && names_fut(#[trigger] s[i]);
            if i < s.len() - 1 {
                assert(s.drop_last()[i] == s[i]);
            }
        }
    }
}

/// Whether `n` is `'fut`.
pub fn is_fut(n: &Name) -> (b: bool)
    ensures
        b == (n@ == fut_name()),
{
    let f = make_fut();
    same_name(n, &f)
}

/// Whether `t` names the lifetime `'fut`.
pub fn type_names_fut(t: &TypeTree) -> (b: bool)
    ensures
        b == names_fut(t.shape()),
    decreases t,
{
    match t {
        TypeTree::Lifetime(n) => is_fut(n),
        TypeTree::Reference { lifetime, elem, .. } => {
            let here = match lifetime {
                Some(l) => is_fut(l),
                None => false,
            };
            here || type_names_fut(elem)
        },
        TypeTree::TraitObject { bounds } => types_name_fut(bounds),
        TypeTree::ImplTrait { bounds } => types_name_fut(bounds),
        TypeTree::Other { parts } => types_name_fut(parts),
    }
}

/// Whether some tree of `s` names the lifetime `'fut`.
pub fn types_name_fut(s: &Vec<TypeTree>) -> (b: bool)
    ensures
        b == any_names_fut(shapes(s@)),
    decreases s,
{
    proof {
        lemma_shapes_index(s@);
        lemma_any_names_fut_index(shapes(s@));
    }
    let mut i: usize = 0;
    while i < s.len()
        invariant
            i <= s@.len(),
            shapes(s@).len() == s@.len(),
            forall|j: int| 0 <= j < s@.len() ==> #[trigger] shapes(s@)[j] == s@[j].shape(),
            forall|j: int| 0 <= j < i ==> !names_fut(#[trigger] shapes(s@)[j]),
            any_names_fut(shapes(s@)) <==> exists|j: int| 0 <= j < shapes(s@).len() && names_fut(#[trigger] shapes(s@)[j]),
        decreases s@.len() - i,
    {
        assert(decreases_to!(s => s@[i as int]));
        if type_names_fut(&s[i]) {
            assert(names_fut(shapes(s@)[i as int]));
            return true;
        }
        i = i + 1;
    }
    false
}

} // verus!
