use vstd::prelude::*;
use crate::elision::{elide_types, types_name_fut};
use crate::errors::NameItError;
use crate::names::{copy_name, join3, names, unraw, unraw_name, Name};
use crate::signature::{
    args_view, arguments_name_fut, elide_arg, elide_arguments, signature_allowed, signature_names_fut,
    FnArg, FnArgView, FnItem, FnItemView, Pat, PatView,
};
use crate::types::{elide_all, shapes, TypeShape, TypeTree};
use crate::visibility::{bump_visibility, bumped, Visibility, VisibilityView};

verus! {

/// What the expansion of `#[name_it]` writes, besides what it copies from
/// the function: the name of the module that the function moves into, the
/// function's visibility there, the signature of the function that takes
/// its place (its `where` clause and arguments, with the elided lifetimes
/// tied to `'fut`), the names that the new function hands on to the old
/// one, whether the function's return type is left out (the unit type), and
/// whether the named type and the new function take the lifetime parameter
/// `'fut` (exactly when that signature names `'fut`).
pub struct NameItPlan {
    pub module_name: Name,
    pub inner_vis: Visibility,
    pub wrapper_where: Vec<TypeTree>,
    pub wrapper_inputs: Vec<FnArg>,
    pub arg_names: Vec<Name>,
    pub unit_output: bool,
    pub takes_fut: bool,
}

/// The mathematical value of a [`NameItPlan`].
pub struct NameItPlanView {
    pub module_name: Seq<char>,
    pub inner_vis: VisibilityView,
    pub wrapper_where: Seq<TypeShape>,
    pub wrapper_inputs: Seq<FnArgView>,
    pub arg_names: Seq<Seq<char>>,
    pub unit_output: bool,
    pub takes_fut: bool,
}

impl View for NameItPlan {
    type V = NameItPlanView;

    open spec fn view(&self) -> NameItPlanView {
        NameItPlanView {
            module_name: self.module_name@,
            inner_vis: self.inner_vis@,
            wrapper_where: shapes(self.wrapper_where@),
            wrapper_inputs: args_view(self.wrapper_inputs@),
            arg_names: names(self.arg_names@),
            unit_output: self.unit_output,
            takes_fut: self.takes_fut,
        }
    }
}

/// The name under which an argument is handed on: a plain identifier
/// pattern (no `ref`, no attributes, no subpattern) whose type is not
/// `impl Trait`. A receiver, an `impl Trait` argument and any other pattern
/// are refused.
pub open spec fn arg_name(a: FnArgView) -> Result<Seq<char>, NameItError> {
    match a {
        FnArgView::Receiver { .. } => Err(NameItError::Method),
        FnArgView::Typed { pat, ty } => match pat {
            PatView::Ident { by_ref, mutable, has_attrs, name, subpat } => if !by_ref && subpat is None
                && !has_attrs {
                if ty is ImplTrait {
                    Err(NameItError::Generics)
                } else {
                    Ok(name)
                }
            } else {
                Err(NameItError::PatternNotIdent)
            },
            PatView::Other { .. } => Err(NameItError::PatternNotIdent),
        },
    }
}

/// The names of all arguments, in order; the first refused argument
/// decides the error.
pub open spec fn arg_names(s: Seq<FnArgView>) -> Result<Seq<Seq<char>>, NameItError>
    decreases s.len(),
{
    if s.len() == 0 {
        Ok(Seq::empty())
    } else {
        match arg_names(s.drop_last()) {
            Err(e) => Err(e),
            Ok(ns) => match arg_name(s.last()) {
                Err(e) => Err(e),
                Ok(n) => Ok(ns.push(n)),
            },
        }
    }
}

/// The name of the module that the function `name` moves into:
/// `_name_impl`, with a raw identifier's `r#` left out.
pub open spec fn module_name_of(name: Seq<char>) -> Seq<char> {
    seq!['_'] + unraw(name) + seq!['_', 'i', 'm', 'p', 'l']
}

/// What `#[name_it]` makes of a function, in the order in which it checks:
/// the function must be `async`, have no generic parameters and name no
/// lifetime but `'static`, `'fut` and `'_`; its visibility is bumped; then
/// each argument must be a plain identifier.
pub open spec fn name_it_plan(f: FnItemView) -> Result<NameItPlanView, NameItError> {
    if !f.is_async {
        Err(NameItError::NotAsync)
    } else if f.n_generics != 0 {
        Err(NameItError::Generics)
    } else if !signature_allowed(f) {
        Err(NameItError::CustomLifetime)
    } else {
        match bumped(f.vis) {
            Err(e) => Err(e),
            Ok(vis) => match arg_names(f.inputs) {
                Err(e) => Err(e),
                Ok(ns) => Ok(
                    NameItPlanView {
                        module_name: module_name_of(f.name),
                        inner_vis: vis,
                        wrapper_where: elide_all(f.where_clause),
                        wrapper_inputs: f.inputs.map_values(|a: FnArgView| elide_arg(a)),
                        arg_names: ns,
                        unit_output: f.output is None,
                        takes_fut: signature_names_fut(
                            elide_all(f.where_clause),
                            f.inputs.map_values(|a: FnArgView| elide_arg(a)),
                        ),
                    },
                ),
            },
        }
    }
}

/// The name under which argument `a` is handed on, as [`arg_name`] states.
fn argument_name(a: &FnArg) -> (r: Result<Name, NameItError>)
    ensures
        match r {
            Ok(n) => arg_name(a@) == Ok::<Seq<char>, NameItError>(n@),
            Err(e) => arg_name(a@) == Err::<Seq<char>, NameItError>(e),
        },
{
    match a {
        FnArg::Receiver { .. } => Err(NameItError::Method),
        FnArg::Typed { pat, ty } => match pat {
            Pat::Ident { by_ref, has_attrs, name, subpat, .. } => {
                if !*by_ref && subpat.is_none() && !*has_attrs {
                    if matches!(ty, TypeTree::ImplTrait { .. }) {
                        Err(NameItError::Generics)
                    } else {
                        Ok(copy_name(name))
                    }
                } else {
                    Err(NameItError::PatternNotIdent)
                }
            },
            Pat::Other { .. } => Err(NameItError::PatternNotIdent),
        },
    }
}

/// The names of all arguments, as [`arg_names`] states.
pub fn argument_names(s: &Vec<FnArg>) -> (r: Result<Vec<Name>, NameItError>)
    ensures
        match r {
            Ok(v) => arg_names(args_view(s@)) == Ok::<Seq<Seq<char>>, NameItError>(names(v@)),
            Err(e) => arg_names(args_view(s@)) == Err::<Seq<Seq<char>>, NameItError>(e),
        },
{
    let mut out: Vec<Name> = Vec::new();
    let mut i: usize = 0;
    assert(args_view(s@).take(0) =~= Seq::<FnArgView>::empty());
    assert(names(out@) =~= Seq::<Seq<char>>::empty());
    while i < s.len()
        invariant
            i <= s@.len(),
            arg_names(args_view(s@).take(i as int)) == Ok::<Seq<Seq<char>>, NameItError>(names(out@)),
        decreases s@.len() - i,
    {
        let ghost prefix = args_view(s@).take(i as int + 1);
        assert(prefix.drop_last() =~= args_view(s@).take(i as int));
        assert(prefix.last() == s@[i as int]@);
        match argument_name(&s[i]) {
            Ok(n) => {
                let ghost before = names(out@);
                out.push(n);
                assert(names(out@) =~= before.push(n@));
            },
            Err(e) => {
                proof {
                    lemma_arg_names_error_stays(args_view(s@), i as int + 1, e);
                }
                return Err(e);
            },
        }
        i = i + 1;
    }
    assert(args_view(s@).take(s@.len() as int) =~= args_view(s@));
    Ok(out)
}

/// An error among the first `k` arguments is the error of all of them.
proof fn lemma_arg_names_error_stays(s: Seq<FnArgView>, k: int, e: NameItError)
    requires
        0 <= k <= s.len(),
        arg_names(s.take(k)) == Err::<Seq<Seq<char>>, NameItError>(e),
    ensures
        arg_names(s) == Err::<Seq<Seq<char>>, NameItError>(e),
    decreases s.len() - k,
{
    if k < s.len() {
        assert(s.take(k + 1).drop_last() =~= s.take(k));
        lemma_arg_names_error_stays(s, k + 1, e);
    } else {
        assert(s.take(k) =~= s);
    }
}

/// `f` with the arguments `inputs` in place of its own.
pub open spec fn with_inputs(f: FnItemView, inputs: Seq<FnArgView>) -> FnItemView {
    FnItemView {
        vis: f.vis,
        is_async: f.is_async,
        name: f.name,
        n_generics: f.n_generics,
        where_clause: f.where_clause,
        inputs,
        output: f.output,
    }
}

/// What `#[name_it]` makes of the function `f`, as [`name_it_plan`] states.
pub fn name_it(f: &FnItem) -> (r: Result<NameItPlan, NameItError>)
    ensures
        match r {
            Ok(p) => name_it_plan(f@) == Ok::<NameItPlanView, NameItError>(p@),
            Err(e) => name_it_plan(f@) == Err::<NameItPlanView, NameItError>(e),
        },
{
    assert(with_inputs(f@, args_view(f.inputs@)) == f@);
    plan_with_inputs(f, &f.inputs)
}

/// What `#[name_it]` makes of the function `f` with the arguments `inputs`
/// in place of its own.
pub fn plan_with_inputs(f: &FnItem, inputs: &Vec<FnArg>) -> (r: Result<NameItPlan, NameItError>)
    ensures
        match r {
            Ok(p) => name_it_plan(with_inputs(f@, args_view(inputs@))) == Ok::<NameItPlanView, NameItError>(p@),
            Err(e) => name_it_plan(with_inputs(f@, args_view(inputs@))) == Err::<NameItPlanView, NameItError>(e),
        },
{
    if !f.is_async {
        return Err(NameItError::NotAsync);
    }
    if f.n_generics != 0 {
        return Err(NameItError::Generics);
    }
    let wrapper_where = match elide_types(&f.where_clause) {
        Ok(v) => v,
        Err(e) => return Err(e),
    };
    let wrapper_inputs = match elide_arguments(inputs) {
        Ok(v) => v,
        Err(e) => return Err(e),
    };
    let inner_vis = match bump_visibility(&f.vis) {
        Ok(v) => v,
        Err(e) => return Err(e),
    };
    let arg_names = match argument_names(inputs) {
        Ok(v) => v,
        Err(e) => return Err(e),
    };
    let prefix: Name = vec!['_'];
    let suffix: Name = vec!['_', 'i', 'm', 'p', 'l'];
    let bare = unraw_name(&f.name);
    let module_name = join3(&prefix, &bare, &suffix);
    assert(module_name@ =~= module_name_of(f.name@));
    let takes_fut = types_name_fut(&wrapper_where) || arguments_name_fut(&wrapper_inputs);
    Ok(NameItPlan {
        module_name,
        inner_vis,
        wrapper_where,
        wrapper_inputs,
        arg_names,
        unit_output: f.output.is_none(),
        takes_fut,
    })
}

} // verus!
