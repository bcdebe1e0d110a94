use vstd::prelude::*;
use crate::elision::{
    check_lifetime, copy_type, copy_types, elide_type, elide_types, is_fut, type_names_fut,
    types_name_fut,
};
use crate::errors::NameItError;
use crate::names::{copy_name, fut_name, Name};
use crate::types::{
    all_lifetimes_allowed, allowed_lifetime, any_names_fut, elide, elide_all, lifetimes_allowed,
    names_fut, opt_name, shapes, TypeShape, TypeTree,
};
use crate::visibility::{Visibility, VisibilityView};

verus! {

/// The pattern of a function argument.
pub enum Pat {
    /// `ref mut x @ sub`: whether `ref` and `mut` are written, whether the
    /// pattern carries attributes, the name, and the syntax of the
    /// subpattern after `@`, where there is one.
    Ident { by_ref: bool, mutable: bool, has_attrs: bool, name: Name, subpat: Option<Vec<TypeTree>> },
    /// Any other pattern, by the syntax nested in it.
    Other { parts: Vec<TypeTree> },
}

/// An argument of a function.
pub enum FnArg {
    /// `self`, `mut self`, `&self`, `&'a mut self`: `reference` is `None`
    /// for `self` by value, else the lifetime written after `&`, if any.
    Receiver { reference: Option<Option<Name>>, mutable: bool },
    /// `pat: ty`
    Typed { pat: Pat, ty: TypeTree },
}

/// A function item: what `#[name_it]` reads of it.
pub struct FnItem {
    pub vis: Visibility,
    pub is_async: bool,
    pub name: Name,
    /// How many generic parameters the function declares.
    pub n_generics: usize,
    /// The syntax of the `where` clause, in order.
    pub where_clause: Vec<TypeTree>,
    pub inputs: Vec<FnArg>,
    /// The return type; `None` where none is written (the unit type).
    pub output: Option<TypeTree>,
}

/// The mathematical value of a [`Pat`].
pub enum PatView {
    Ident { by_ref: bool, mutable: bool, has_attrs: bool, name: Seq<char>, subpat: Option<Seq<TypeShape>> },
    Other { parts: Seq<TypeShape> },
}

/// The mathematical value of a [`FnArg`].
pub enum FnArgView {
    Receiver { reference: Option<Option<Seq<char>>>, mutable: bool },
    Typed { pat: PatView, ty: TypeShape },
}

/// The mathematical value of a [`FnItem`].
pub struct FnItemView {
    pub vis: VisibilityView,
    pub is_async: bool,
    pub name: Seq<char>,
    pub n_generics: nat,
    pub where_clause: Seq<TypeShape>,
    pub inputs: Seq<FnArgView>,
    pub output: Option<TypeShape>,
}

impl View for Pat {
    type V = PatView;

    open spec fn view(&self) -> PatView {
        match self {
            Pat::Ident { by_ref, mutable, has_attrs, name, subpat } => PatView::Ident {
                by_ref: *by_ref,
                mutable: *mutable,
                has_attrs: *has_attrs,
                name: name@,
                subpat: match subpat {
                    Some(ts) => Some(shapes(ts@)),
                    None => None,
                },
            },
            Pat::Other { parts } => PatView::Other { parts: shapes(parts@) },
        }
    }
}

impl View for FnArg {
    type V = FnArgView;

    open spec fn view(&self) -> FnArgView {
        match self {
            FnArg::Receiver { reference, mutable } => FnArgView::Receiver {
                reference: match reference {
                    Some(l) => Some(opt_name(*l)),
                    None => None,
                },
                mutable: *mutable,
            },
            FnArg::Typed { pat, ty } => FnArgView::Typed { pat: pat@, ty: ty.shape() },
        }
    }
}

/// The values of a sequence of arguments.
pub open spec fn args_view(s: Seq<FnArg>) -> Seq<FnArgView> {
    Seq::new(s.len(), |i: int| s[i]@)
}

impl View for FnItem {
    type V = FnItemView;

    open spec fn view(&self) -> FnItemView {
        FnItemView {
            vis: self.vis@,
            is_async: self.is_async,
            name: self.name@,
            n_generics: self.n_generics as nat,
            where_clause: shapes(self.where_clause@),
            inputs: args_view(self.inputs@),
            output: match self.output {
                Some(t) => Some(t.shape()),
                None => None,
            },
        }
    }
}

/// Whether every lifetime that a pattern names is allowed.
pub open spec fn pat_allowed(p: PatView) -> bool {
    match p {
        PatView::Ident { subpat, .. } => match subpat {
            Some(ts) => all_lifetimes_allowed(ts),
            None => true,
        },
        PatView::Other { parts } => all_lifetimes_allowed(parts),
    }
}

/// Whether every lifetime that an argument names is allowed.
pub open spec fn arg_allowed(a: FnArgView) -> bool {
    match a {
        FnArgView::Receiver { reference, .. } => match reference {
            Some(Some(l)) => allowed_lifetime(l),
            _ => true,
        },
        FnArgView::Typed { pat, ty } => pat_allowed(pat) && lifetimes_allowed(ty),
    }
}

/// Whether every lifetime that the signature names, in its `where` clause
/// and its arguments, is allowed.
pub open spec fn signature_allowed(f: FnItemView) -> bool {
    &&& all_lifetimes_allowed(f.where_clause)
    &&& forall|i: int| 0 <= i < f.inputs.len() ==> arg_allowed(#[trigger] f.inputs[i])
}

/// A pattern with its elided lifetimes tied to `'fut`.
pub open spec fn elide_pat(p: PatView) -> PatView {
    match p {
        PatView::Ident { by_ref, mutable, has_attrs, name, subpat } => PatView::Ident {
            by_ref,
            mutable,
            has_attrs,
            name,
            subpat: match subpat {
                Some(ts) => Some(elide_all(ts)),
                None => None,
            },
        },
        PatView::Other { parts } => PatView::Other { parts: elide_all(parts) },
    }
}

/// An argument with its elided lifetimes tied to `'fut`; a receiver is kept.
pub open spec fn elide_arg(a: FnArgView) -> FnArgView {
    match a {
        FnArgView::Receiver { .. } => a,
        FnArgView::Typed { pat, ty } => FnArgView::Typed { pat: elide_pat(pat), ty: elide(ty) },
    }
}

/// A copy of a receiver's reference.
fn copy_reference(r: &Option<Option<Name>>) -> (c: Option<Option<Name>>)
    ensures
        match c {
            Some(l) => r.is_some() && Some(opt_name(l)) == (match r {
                Some(m) => Some(opt_name(*m)),
                None => None::<Option<Seq<char>>>,
            }),
            None => r.is_none(),
        },
{
    match r {
        Some(Some(l)) => Some(Some(copy_name(l))),
        Some(None) => Some(None),
        None => None,
    }
}

/// A pattern with its elided lifetimes tied to `'fut`, or the refusal of a
/// lifetime that `#[name_it]` does not allow.
pub fn elide_pattern(p: &Pat) -> (r: Result<Pat, NameItError>)
    ensures
        match r {
            Ok(q) => pat_allowed(p@) && q@ == elide_pat(p@),
            Err(e) => !pat_allowed(p@) && e == NameItError::CustomLifetime,
        },
{
    match p {
        Pat::Ident { by_ref, mutable, has_attrs, name, subpat } => {
            let sub = match subpat {
                Some(ts) => match elide_types(ts) {
                    Ok(v) => Some(v),
                    Err(e) => return Err(e),
                },
                None => None,
            };
            Ok(Pat::Ident { by_ref: *by_ref, mutable: *mutable, has_attrs: *has_attrs, name: copy_name(name), subpat: sub })
        },
        Pat::Other { parts } => match elide_types(parts) {
            Ok(v) => Ok(Pat::Other { parts: v }),
            Err(e) => Err(e),
        },
    }
}

/// An argument with its elided lifetimes tied to `'fut`, or the refusal of a
/// lifetime that `#[name_it]` does not allow.
pub fn elide_argument(a: &FnArg) -> (r: Result<FnArg, NameItError>)
    ensures
        match r {
            Ok(b) => arg_allowed(a@) && b@ == elide_arg(a@),
            Err(e) => !arg_allowed(a@) && e == NameItError::CustomLifetime,
        },
{
    match a {
        FnArg::Receiver { reference, mutable } => {
            if let Some(Some(l)) = reference {
                if !check_lifetime(l) {
                    return Err(NameItError::CustomLifetime);
                }
            }
            Ok(FnArg::Receiver { reference: copy_reference(reference), mutable: *mutable })
        },
        FnArg::Typed { pat, ty } => {
            let p = match elide_pattern(pat) {
                Ok(p) => p,
                Err(e) => return Err(e),
            };
            match elide_type(ty) {
                Ok(t) => Ok(FnArg::Typed { pat: p, ty: t }),
                Err(e) => Err(e),
            }
        },
    }
}

/// [`elide_argument`] on each argument, in order.
pub fn elide_arguments(s: &Vec<FnArg>) -> (r: Result<Vec<FnArg>, NameItError>)
    ensures
        match r {
            Ok(v) => (forall|i: int| 0 <= i < s@.len() ==> arg_allowed(#[trigger] args_view(s@)[i]))
                && args_view(v@) == args_view(s@).map_values(|a: FnArgView| elide_arg(a)),
            Err(e) => (exists|i: int| 0 <= i < s@.len() && !arg_allowed(#[trigger] args_view(s@)[i]))
                && e == NameItError::CustomLifetime,
        },
{
    let mut out: Vec<FnArg> = Vec::new();
    let mut i: usize = 0;
    while i < s.len()
        invariant
            i <= s@.len(),
            out@.len() == i,
            forall|j: int| 0 <= j < i ==> arg_allowed(#[trigger] s@[j]@),
            forall|j: int| 0 <= j < i ==> (#[trigger] out@[j])@ == elide_arg(s@[j]@),
        decreases s@.len() - i,
    {
        match elide_argument(&s[i]) {
            Ok(b) => out.push(b),
            Err(e) => {
                assert(!arg_allowed(args_view(s@)[i as int]));
                return Err(e);
            },
        }
        i = i + 1;
    }
    assert(args_view(out@) =~= args_view(s@).map_values(|a: FnArgView| elide_arg(a)));
    assert forall|j: int| 0 <= j < s@.len() implies arg_allowed(#[trigger] args_view(s@)[j]) by {
        assert(arg_allowed(s@[j]@));
    }
    Ok(out)
}

/// A copy of `p`.
pub fn copy_pat(p: &Pat) -> (c: Pat)
    ensures
        c@ == p@,
{
    match p {
        Pat::Ident { by_ref, mutable, has_attrs, name, subpat } => {
            let sub = match subpat {
                Some(ts) => Some(copy_types(ts)),
                None => None,
            };
            Pat::Ident { by_ref: *by_ref, mutable: *mutable, has_attrs: *has_attrs, name: copy_name(name), subpat: sub }
        },
        Pat::Other { parts } => Pat::Other { parts: copy_types(parts) },
    }
}

/// A copy of `a`.
pub fn copy_arg(a: &FnArg) -> (c: FnArg)
    ensures
        c@ == a@,
{
    match a {
        FnArg::Receiver { reference, mutable } => FnArg::Receiver { reference: copy_reference(reference), mutable: *mutable },
        FnArg::Typed { pat, ty } => FnArg::Typed { pat: copy_pat(pat), ty: copy_type(ty) },
    }
}

/// Whether a pattern names the lifetime `'fut`.
pub open spec fn pat_names_fut(p: PatView) -> bool {
    match p {
        PatView::Ident { subpat, .. } => match subpat {
            Some(ts) => any_names_fut(ts),
            None => false,
        },
        PatView::Other { parts } => any_names_fut(parts),
    }
}

/// Whether an argument names the lifetime `'fut`.
pub open spec fn arg_names_fut(a: FnArgView) -> bool {
    match a {
        FnArgView::Receiver { reference, .. } => reference == Some(Some(fut_name())),
        FnArgView::Typed { pat, ty } => pat_names_fut(pat) || names_fut(ty),
    }
}

/// Whether a signature, by its `where` clause and its arguments, names the
/// lifetime `'fut`.
pub open spec fn signature_names_fut(where_clause: Seq<TypeShape>, inputs: Seq<FnArgView>) -> bool {
    any_names_fut(where_clause) || exists|i: int| 0 <= i < inputs.len() && arg_names_fut(#[trigger] inputs[i])
}

/// Whether the arguments `s` name the lifetime `'fut`.
pub fn arguments_name_fut(s: &Vec<FnArg>) -> (b: bool)
    ensures
        b == exists|i: int| 0 <= i < s@.len() && arg_names_fut(#[trigger] args_view(s@)[i]),
{
    let mut i: usize = 0;
    while i < s.len()
        invariant
            i <= s@.len(),
            forall|j: int| 0 <= j < i ==> !arg_names_fut(#[trigger] s@[j]@),
        decreases s@.len() - i,
    {
        let here = match &s[i] {
            FnArg::Receiver { reference, .. } => match reference {
                Some(Some(l)) => is_fut(l),
                _ => false,
            },
            FnArg::Typed { pat, ty } => {
                let in_pat = match pat {
                    Pat::Ident { subpat, .. } => match subpat {
                        Some(ts) => types_name_fut(ts),
                        None => false,
                    },
                    Pat::Other { parts } => types_name_fut(parts),
                };
                in_pat || type_names_fut(ty)
            },
        };
        if here {
            assert(arg_names_fut(args_view(s@)[i as int]));
            return true;
        }
        i = i + 1;
    }
    assert forall|j: int| 0 <= j < s@.len() implies !arg_names_fut(#[trigger] args_view(s@)[j]) by {
        assert(args_view(s@)[j] == s@[j]@);
    }
    false
}

} // verus!
