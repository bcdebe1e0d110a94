use vstd::prelude::*;
use crate::elision::copy_type;
use crate::errors::NameItError;
use crate::name_it::{name_it_plan, plan_with_inputs, with_inputs, NameItPlan, NameItPlanView};
use crate::names::{copy_name, join3, names, unraw, unraw_name, Name};
use crate::order::{insert_name, insert_sorted};
use crate::signature::{args_view, copy_arg, FnArg, FnArgView, FnItem, FnItemView, Pat, PatView};
use crate::types::{TypeShape, TypeTree};

verus! {

/// An item of a trait, as `#[async_trait]` reads it.
pub enum TraitItem {
    /// A method, by its name and whether it is `async`.
    Method { name: Name, is_async: bool },
    /// Any other item.
    Other,
}

/// The mathematical value of a [`TraitItem`].
pub enum TraitItemView {
    Method { name: Seq<char>, is_async: bool },
    Other,
}

impl View for TraitItem {
    type V = TraitItemView;

    open spec fn view(&self) -> TraitItemView {
        match self {
            TraitItem::Method { name, is_async } => TraitItemView::Method { name: name@, is_async: *is_async },
            TraitItem::Other => TraitItemView::Other,
        }
    }
}

/// The values of a sequence of trait items.
pub open spec fn trait_items_view(s: Seq<TraitItem>) -> Seq<TraitItemView> {
    Seq::new(s.len(), |i: int| s[i]@)
}

/// Whether an item is an `async` method.
pub open spec fn is_async_method(it: TraitItemView) -> bool {
    it matches TraitItemView::Method { is_async, .. } && is_async
}

/// What `#[async_trait]` does to a trait: each `async` method loses its
/// `async` and returns `Self::<its name>` (`rewritten`), and an associated
/// type `type <name>;` is added for each of their names, once, in order of
/// the names (`assoc_types`).
pub struct TraitExpansion {
    pub rewritten: Vec<bool>,
    pub assoc_types: Vec<Name>,
}

/// The mathematical value of a [`TraitExpansion`].
pub struct TraitExpansionView {
    pub rewritten: Seq<bool>,
    pub assoc_types: Seq<Seq<char>>,
}

impl View for TraitExpansion {
    type V = TraitExpansionView;

    open spec fn view(&self) -> TraitExpansionView {
        TraitExpansionView { rewritten: self.rewritten@, assoc_types: names(self.assoc_types@) }
    }
}

/// The names of the `async` methods among `items`, put one after the other
/// into an ordered set.
pub open spec fn async_names(items: Seq<TraitItemView>) -> Seq<Seq<char>>
    decreases items.len(),
{
    if items.len() == 0 {
        Seq::empty()
    } else {
        let s = async_names(items.drop_last());
        match items.last() {
            TraitItemView::Method { name, is_async } => if is_async {
                insert_sorted(s, name)
            } else {
                s
            },
            TraitItemView::Other => s,
        }
    }
}

/// What `#[async_trait]` makes of a trait with the given items.
pub open spec fn trait_expansion(items: Seq<TraitItemView>) -> TraitExpansionView {
    TraitExpansionView {
        rewritten: items.map_values(|it: TraitItemView| is_async_method(it)),
        assoc_types: async_names(items),
    }
}

/// What `#[async_trait]` makes of a trait with the items `items`, as
/// [`trait_expansion`] states.
pub fn expand_trait(items: &Vec<TraitItem>) -> (r: TraitExpansion)
    ensures
        r@ == trait_expansion(trait_items_view(items@)),
{
    let mut rewritten: Vec<bool> = Vec::new();
    let mut assoc_types: Vec<Name> = Vec::new();
    let mut i: usize = 0;
    let ghost all = trait_items_view(items@);
    assert(all.take(0) =~= Seq::<TraitItemView>::empty());
    assert(names(assoc_types@) =~= Seq::<Seq<char>>::empty());
    while i < items.len()
        invariant
            i <= items@.len(),
            all == trait_items_view(items@),
            rewritten@.len() == i,
            forall|j: int| 0 <= j < i ==> rewritten@[j] == is_async_method(#[trigger] all[j]),
            names(assoc_types@) == async_names(all.take(i as int)),
        decreases items@.len() - i,
    {
        assert(all.take(i as int + 1).drop_last() =~= all.take(i as int));
        assert(all.take(i as int + 1).last() == items@[i as int]@);
        match &items[i] {
            TraitItem::Method { name, is_async } => {
                rewritten.push(*is_async);
                if *is_async {
                    insert_name(&mut assoc_types, copy_name(name));
                }
            },
            TraitItem::Other => {
                rewritten.push(false);
            },
        }
        i = i + 1;
    }
    assert(all.take(items@.len() as int) =~= all);
    let r = TraitExpansion { rewritten, assoc_types };
    assert(r@.rewritten =~= trait_expansion(all).rewritten);
    r
}

/// A method of an `impl` block: whether it is marked `default`, and its
/// signature.
pub struct ImplMethod {
    pub is_default: bool,
    pub sig: FnItem,
}

/// An item of an `impl` block, as `#[async_trait]` reads it.
pub enum ImplItem {
    Method(ImplMethod),
    Other,
}

/// The mathematical value of an [`ImplMethod`].
pub struct ImplMethodView {
    pub is_default: bool,
    pub sig: FnItemView,
}

/// The mathematical value of an [`ImplItem`].
pub enum ImplItemView {
    Method(ImplMethodView),
    Other,
}

impl View for ImplItem {
    type V = ImplItemView;

    open spec fn view(&self) -> ImplItemView {
        match self {
            ImplItem::Method(m) => ImplItemView::Method(ImplMethodView { is_default: m.is_default, sig: m.sig@ }),
            ImplItem::Other => ImplItemView::Other,
        }
    }
}

/// The values of a sequence of `impl` items.
pub open spec fn impl_items_view(s: Seq<ImplItem>) -> Seq<ImplItemView> {
    Seq::new(s.len(), |i: int| s[i]@)
}

/// The future that `#[async_trait]` names for an `async` method: the
/// method's name, the name of the future's type (`<name>_future`, with a
/// raw identifier's `r#` left out), the
/// arguments of the function that makes the future (the method's, with the
/// receiver turned into an argument `this`), and what `#[name_it]` makes of
/// that function.
pub struct FutureFn {
    pub method_name: Name,
    pub future_type: Name,
    pub inputs: Vec<FnArg>,
    pub plan: NameItPlan,
}

/// The mathematical value of a [`FutureFn`].
pub struct FutureFnView {
    pub method_name: Seq<char>,
    pub future_type: Seq<char>,
    pub inputs: Seq<FnArgView>,
    pub plan: NameItPlanView,
}

impl View for FutureFn {
    type V = FutureFnView;

    open spec fn view(&self) -> FutureFnView {
        FutureFnView {
            method_name: self.method_name@,
            future_type: self.future_type@,
            inputs: args_view(self.inputs@),
            plan: self.plan@,
        }
    }
}

/// What `#[async_trait]` does to an `impl` block: each `async` method loses
/// its `async`, returns `Self::<its name>` and calls the function that makes
/// its future (`rewritten`); for each, in order, that function is written
/// as `#[name_it]` writes it, and the associated type `<name>` is set to the
/// future's type (`futures`).
pub struct ImplExpansion {
    pub rewritten: Vec<bool>,
    pub futures: Vec<FutureFn>,
}

/// The mathematical value of an [`ImplExpansion`].
pub struct ImplExpansionView {
    pub rewritten: Seq<bool>,
    pub futures: Seq<FutureFnView>,
}

/// The values of a sequence of futures.
pub open spec fn futures_view(s: Seq<FutureFn>) -> Seq<FutureFnView> {
    Seq::new(s.len(), |i: int| s[i]@)
}

impl View for ImplExpansion {
    type V = ImplExpansionView;

    open spec fn view(&self) -> ImplExpansionView {
        ImplExpansionView { rewritten: self.rewritten@, futures: futures_view(self.futures@) }
    }
}

/// The argument name `this`.
pub open spec fn this_name() -> Seq<char> {
    seq!['t', 'h', 'i', 's']
}

/// The pattern `this`.
pub open spec fn this_pat() -> PatView {
    PatView::Ident { by_ref: false, mutable: false, has_attrs: false, name: this_name(), subpat: None }
}

/// The suffix of a future's type name.
pub open spec fn future_suffix() -> Seq<char> {
    seq!['_', 'f', 'u', 't', 'u', 'r', 'e']
}

/// An argument of a method, as an argument of the function that makes its
/// future: `&'a mut self` becomes `this: &'a mut Ty` (where `Ty` is the type
/// that the block implements for), `self` becomes `this: Ty`, and `mut self`
/// is refused; other arguments stay.
pub open spec fn convert_input(self_ty: TypeShape, a: FnArgView) -> Result<FnArgView, NameItError> {
    match a {
        FnArgView::Receiver { reference, mutable } => match reference {
            Some(lt) => Ok(
                FnArgView::Typed {
                    pat: this_pat(),
                    ty: TypeShape::Reference { lifetime: lt, mutable, elem: Box::new(self_ty) },
                },
            ),
            None => if mutable {
                Err(NameItError::ReceiverByMutValue)
            } else {
                Ok(FnArgView::Typed { pat: this_pat(), ty: self_ty })
            },
        },
        FnArgView::Typed { .. } => Ok(a),
    }
}

/// [`convert_input`] on each argument, in order; the first refusal decides.
pub open spec fn convert_inputs(self_ty: TypeShape, s: Seq<FnArgView>) -> Result<Seq<FnArgView>, NameItError>
    decreases s.len(),
{
    if s.len() == 0 {
        Ok(Seq::empty())
    } else {
        match convert_inputs(self_ty, s.drop_last()) {
            Err(e) => Err(e),
            Ok(c) => match convert_input(self_ty, s.last()) {
                Err(e) => Err(e),
                Ok(a) => Ok(c.push(a)),
            },
        }
    }
}

/// The future of the `async` method `m` of a block for `self_ty`: its
/// arguments are converted; a `default` method is not a function that
/// `#[name_it]` takes; then `#[name_it]` decides.
pub open spec fn future_of(self_ty: TypeShape, m: ImplMethodView) -> Result<FutureFnView, NameItError> {
    match convert_inputs(self_ty, m.sig.inputs) {
        Err(e) => Err(e),
        Ok(inputs) => if m.is_default {
            Err(NameItError::NotAFunction)
        } else {
            match name_it_plan(with_inputs(m.sig, inputs)) {
                Err(e) => Err(e),
                Ok(plan) => Ok(
                    FutureFnView {
                        method_name: m.sig.name,
                        future_type: unraw(m.sig.name) + future_suffix(),
                        inputs,
                        plan,
                    },
                ),
            }
        },
    }
}

/// What `#[async_trait]` makes of the items of an `impl` block for
/// `self_ty`, item by item; the first refusal decides.
pub open spec fn impl_expansion(self_ty: TypeShape, items: Seq<ImplItemView>) -> Result<ImplExpansionView, NameItError>
    decreases items.len(),
{
    if items.len() == 0 {
        Ok(ImplExpansionView { rewritten: Seq::empty(), futures: Seq::empty() })
    } else {
        match impl_expansion(self_ty, items.drop_last()) {
            Err(e) => Err(e),
            Ok(x) => match items.last() {
                ImplItemView::Method(m) => if m.sig.is_async {
                    match future_of(self_ty, m) {
                        Err(e) => Err(e),
                        Ok(f) => Ok(ImplExpansionView { rewritten: x.rewritten.push(true), futures: x.futures.push(f) }),
                    }
                } else {
                    Ok(ImplExpansionView { rewritten: x.rewritten.push(false), futures: x.futures })
                },
                ImplItemView::Other => Ok(ImplExpansionView { rewritten: x.rewritten.push(false), futures: x.futures }),
            },
        }
    }
}

/// An error for the first `k` arguments is the error for all of them.
proof fn lemma_convert_error_stays(self_ty: TypeShape, s: Seq<FnArgView>, k: int, e: NameItError)
    requires
        0 <= k <= s.len(),
        convert_inputs(self_ty, s.take(k)) == Err::<Seq<FnArgView>, NameItError>(e),
    ensures
        convert_inputs(self_ty, s) == Err::<Seq<FnArgView>, NameItError>(e),
    decreases s.len() - k,
{
    if k < s.len() {
        assert(s.take(k + 1).drop_last() =~= s.take(k));
        lemma_convert_error_stays(self_ty, s, k + 1, e);
    } else {
        assert(s.take(k) =~= s);
    }
}

/// An error for the first `k` items is the error for all of them.
proof fn lemma_impl_error_stays(self_ty: TypeShape, s: Seq<ImplItemView>, k: int, e: NameItError)
    requires
        0 <= k <= s.len(),
        impl_expansion(self_ty, s.take(k)) == Err::<ImplExpansionView, NameItError>(e),
    ensures
        impl_expansion(self_ty, s) == Err::<ImplExpansionView, NameItError>(e),
    decreases s.len() - k,
{
    if k < s.len() {
        assert(s.take(k + 1).drop_last() =~= s.take(k));
        lemma_impl_error_stays(self_ty, s, k + 1, e);
    } else {
        assert(s.take(k) =~= s);
    }
}

/// Makes the pattern `this`.
fn make_this_pat() -> (p: Pat)
    ensures
        p@ == this_pat(),
{
    let name: Name = vec!['t', 'h', 'i', 's'];
    assert(name@ =~= this_name());
    Pat::Ident { by_ref: false, mutable: false, has_attrs: false, name, subpat: None }
}

/// The arguments of method `m`, as [`convert_inputs`] states.
pub fn convert_arguments(self_ty: &TypeTree, s: &Vec<FnArg>) -> (r: Result<Vec<FnArg>, NameItError>)
    ensures
        match r {
            Ok(v) => convert_inputs(self_ty.shape(), args_view(s@)) == Ok::<Seq<FnArgView>, NameItError>(args_view(v@)),
            Err(e) => convert_inputs(self_ty.shape(), args_view(s@)) == Err::<Seq<FnArgView>, NameItError>(e),
        },
{
    let ghost all = args_view(s@);
    let ghost st = self_ty.shape();
    let mut out: Vec<FnArg> = Vec::new();
    let mut i: usize = 0;
    assert(all.take(0) =~= Seq::<FnArgView>::empty());
    assert(args_view(out@) =~= Seq::<FnArgView>::empty());
    while i < s.len()
        invariant
            i <= s@.len(),
            all == args_view(s@),
            st == self_ty.shape(),
            convert_inputs(st, all.take(i as int)) == Ok::<Seq<FnArgView>, NameItError>(args_view(out@)),
        decreases s@.len() - i,
    {
        assert(all.take(i as int + 1).drop_last() =~= all.take(i as int));
        assert(all.take(i as int + 1).last() == s@[i as int]@);
        let ghost before = args_view(out@);
        let converted = match &s[i] {
            FnArg::Receiver { reference, mutable } => match reference {
                Some(lt) => {
                    let l = match lt {
                        Some(n) => Some(copy_name(n)),
                        None => None,
                    };
                    FnArg::Typed {
                        pat: make_this_pat(),
                        ty: TypeTree::Reference { lifetime: l, mutable: *mutable, elem: Box::new(copy_type(self_ty)) },
                    }
                },
                None => {
                    if *mutable {
                        proof {
                            lemma_convert_error_stays(st, all, i as int + 1, NameItError::ReceiverByMutValue);
                        }
                        return Err(NameItError::ReceiverByMutValue);
                    }
                    FnArg::Typed { pat: make_this_pat(), ty: copy_type(self_ty) }
                },
            },
            FnArg::Typed { .. } => copy_arg(&s[i]),
        };
        assert(convert_input(st, s@[i as int]@) == Ok::<FnArgView, NameItError>(converted@));
        out.push(converted);
        assert(args_view(out@) =~= before.push(converted@));
        i = i + 1;
    }
    assert(all.take(s@.len() as int) =~= all);
    Ok(out)
}

/// The future of the `async` method `m`, as [`future_of`] states.
pub fn future_for(self_ty: &TypeTree, m: &ImplMethod) -> (r: Result<FutureFn, NameItError>)
    ensures
        match r {
            Ok(f) => future_of(self_ty.shape(), ImplMethodView { is_default: m.is_default, sig: m.sig@ })
                == Ok::<FutureFnView, NameItError>(f@),
            Err(e) => future_of(self_ty.shape(), ImplMethodView { is_default: m.is_default, sig: m.sig@ })
                == Err::<FutureFnView, NameItError>(e),
        },
{
    let inputs = match convert_arguments(self_ty, &m.sig.inputs) {
        Ok(v) => v,
        Err(e) => return Err(e),
    };
    if m.is_default {
        return Err(NameItError::NotAFunction);
    }
    let plan = match plan_with_inputs(&m.sig, &inputs) {
        Ok(p) => p,
        Err(e) => return Err(e),
    };
    let empty: Name = Vec::new();
    let suffix: Name = vec!['_', 'f', 'u', 't', 'u', 'r', 'e'];
    let bare = unraw_name(&m.sig.name);
    let future_type = join3(&empty, &bare, &suffix);
    assert(future_type@ =~= unraw(m.sig.name@) + future_suffix());
    Ok(FutureFn { method_name: copy_name(&m.sig.name), future_type, inputs, plan })
}

/// What `#[async_trait]` makes of the items `items` of an `impl` block for
/// `self_ty`, as [`impl_expansion`] states.
pub fn expand_impl(self_ty: &TypeTree, items: &Vec<ImplItem>) -> (r: Result<ImplExpansion, NameItError>)
    ensures
        match r {
            Ok(x) => impl_expansion(self_ty.shape(), impl_items_view(items@)) == Ok::<ImplExpansionView, NameItError>(x@),
            Err(e) => impl_expansion(self_ty.shape(), impl_items_view(items@)) == Err::<ImplExpansionView, NameItError>(e),
        },
{
    let ghost all = impl_items_view(items@);
    let ghost st = self_ty.shape();
    let mut rewritten: Vec<bool> = Vec::new();
    let mut futures: Vec<FutureFn> = Vec::new();
    let mut i: usize = 0;
    assert(all.take(0) =~= Seq::<ImplItemView>::empty());
    assert(futures_view(futures@) =~= Seq::<FutureFnView>::empty());
    assert(rewritten@ =~= Seq::<bool>::empty());
    while i < items.len()
        invariant
            i <= items@.len(),
            all == impl_items_view(items@),
            st == self_ty.shape(),
            impl_expansion(st, all.take(i as int)) == Ok::<ImplExpansionView, NameItError>(
                ImplExpansionView { rewritten: rewritten@, futures: futures_view(futures@) },
            ),
        decreases items@.len() - i,
    {
        assert(all.take(i as int + 1).drop_last() =~= all.take(i as int));
        assert(all.take(i as int + 1).last() == items@[i as int]@);
        let ghost before = futures_view(futures@);
        match &items[i] {
            ImplItem::Method(m) => {
                if m.sig.is_async {
                    match future_for(self_ty, m) {
                        Ok(f) => {
                            futures.push(f);
                            assert(futures_view(futures@) =~= before.push(f@));
                            rewritten.push(true);
                        },
                        Err(e) => {
                            proof {
                                lemma_impl_error_stays(st, all, i as int + 1, e);
                            }
                            return Err(e);
                        },
                    }
                } else {
                    rewritten.push(false);
                    assert(futures_view(futures@) =~= before);
                }
            },
            ImplItem::Other => {
                rewritten.push(false);
                assert(futures_view(futures@) =~= before);
            },
        }
        i = i + 1;
    }
    assert(all.take(items@.len() as int) =~= all);
    Ok(ImplExpansion { rewritten, futures })
}

/// The item that `#[async_trait]` is written on.
pub enum AsyncTraitInput {
    /// A trait, by its items.
    Trait { items: Vec<TraitItem> },
    /// An `impl` block, by the type it implements for and its items.
    Impl { self_ty: TypeTree, items: Vec<ImplItem> },
}

/// What `#[async_trait]` makes of its item.
pub enum Expansion {
    Trait(TraitExpansion),
    Impl(ImplExpansion),
}

/// What `#[async_trait]` makes of `input`: a trait is always accepted (as
/// [`trait_expansion`] states); an `impl` block as [`impl_expansion`] states.
pub fn expand(input: &AsyncTraitInput) -> (r: Result<Expansion, NameItError>)
    ensures
        match input {
            AsyncTraitInput::Trait { items } => r matches Ok(Expansion::Trait(x))
                && x@ == trait_expansion(trait_items_view(items@)),
            AsyncTraitInput::Impl { self_ty, items } => match r {
                Ok(Expansion::Impl(x)) => impl_expansion(self_ty.shape(), impl_items_view(items@))
                    == Ok::<ImplExpansionView, NameItError>(x@),
                Err(e) => impl_expansion(self_ty.shape(), impl_items_view(items@))
                    == Err::<ImplExpansionView, NameItError>(e),
                Ok(Expansion::Trait(_)) => false,
            },
        },
{
    match input {
        AsyncTraitInput::Trait { items } => Ok(Expansion::Trait(expand_trait(items))),
        AsyncTraitInput::Impl { self_ty, items } => match expand_impl(self_ty, items) {
            Ok(x) => Ok(Expansion::Impl(x)),
            Err(e) => Err(e),
        },
    }
}

} // verus!
