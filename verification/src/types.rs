use vstd::prelude::*;
use crate::names::{fut_name, static_name, underscore, Name};

verus! {

/// The part of a type's syntax that lifetime elision reads: where the type
/// names a lifetime, where it is a reference or a trait object, and the
/// syntax nested inside it, in source order.
pub enum TypeTree {
    /// A lifetime that stands in the type, as in `Foo<'a>` or `dyn Tr + 'a`.
    Lifetime(Name),
    /// `&'a T` or `&'a mut T`; `lifetime` is `None` where it was left out.
    Reference { lifetime: Option<Name>, mutable: bool, elem: Box<TypeTree> },
    /// `dyn A + B + ..`, by its bounds in order.
    TraitObject { bounds: Vec<TypeTree> },
    /// `impl A + B + ..`, by its bounds in order.
    ImplTrait { bounds: Vec<TypeTree> },
    /// Any other syntax node (a path, a tuple, a trait bound, ..), by the
    /// syntax nested in it, in order.
    Other { parts: Vec<TypeTree> },
}

/// The mathematical value of a [`TypeTree`].
pub enum TypeShape {
    Lifetime(Seq<char>),
    Reference { lifetime: Option<Seq<char>>, mutable: bool, elem: Box<TypeShape> },
    TraitObject { bounds: Seq<TypeShape> },
    ImplTrait { bounds: Seq<TypeShape> },
    Other { parts: Seq<TypeShape> },
}

/// The value of an optional name.
pub open spec fn opt_name(n: Option<Name>) -> Option<Seq<char>> {
    match n {
        Some(l) => Some(l@),
        None => None,
    }
}

impl TypeTree {
    /// The mathematical value of this tree.
    pub open spec fn shape(&self) -> TypeShape
        decreases self,
    {
        match self {
            TypeTree::Lifetime(n) => TypeShape::Lifetime(n@),
            TypeTree::Reference { lifetime, mutable, elem } => TypeShape::Reference {
                lifetime: opt_name(*lifetime),
                mutable: *mutable,
                elem: Box::new(elem.shape()),
            },
            TypeTree::TraitObject { bounds } => TypeShape::TraitObject { bounds: shapes(bounds@) },
            TypeTree::ImplTrait { bounds } => TypeShape::ImplTrait { bounds: shapes(bounds@) },
            TypeTree::Other { parts } => TypeShape::Other { parts: shapes(parts@) },
        }
    }
}

/// The values of a sequence of trees.
pub open spec fn shapes(s: Seq<TypeTree>) -> Seq<TypeShape>
    decreases s,
{
    if s.len() == 0 {
        Seq::empty()
    } else {
        shapes(s.drop_last()).push(s.last().shape())
    }
}

/// A lifetime that `#[name_it]` lets stand in a signature: `'static`, `'fut`
/// or `'_`.
pub open spec fn allowed_lifetime(n: Seq<char>) -> bool {
    n == static_name() || n == fut_name() || n == underscore()
}

/// Whether every lifetime that a type names is allowed.
pub open spec fn lifetimes_allowed(t: TypeShape) -> bool
    decreases t,
{
    match t {
        TypeShape::Lifetime(n) => allowed_lifetime(n),
        TypeShape::Reference { lifetime, mutable, elem } => (match lifetime {
            Some(l) => allowed_lifetime(l),
            None => true,
        }) && lifetimes_allowed(*elem),
        TypeShape::TraitObject { bounds } => all_lifetimes_allowed(bounds),
        TypeShape::ImplTrait { bounds } => all_lifetimes_allowed(bounds),
        TypeShape::Other { parts } => all_lifetimes_allowed(parts),
    }
}

/// Whether every lifetime that the types of `s` name is allowed.
pub open spec fn all_lifetimes_allowed(s: Seq<TypeShape>) -> bool
    decreases s,
{
    if s.len() == 0 {
        true
    } else {
        all_lifetimes_allowed(s.drop_last()) && lifetimes_allowed(s.last())
    }
}

/// Whether some bound of a trait object is a lifetime.
pub open spec fn has_lifetime_bound(bounds: Seq<TypeShape>) -> bool {
    exists|i: int| 0 <= i < bounds.len() && #[trigger] bounds[i] is Lifetime
}

/// The lifetime that a written lifetime stands for in the signature of a
/// named future's function: `'_` is the future's own lifetime `'fut`; any
/// other lifetime stays.
pub open spec fn fill_lifetime(l: Seq<char>) -> Seq<char> {
    if l == underscore() {
        fut_name()
    } else {
        l
    }
}

/// The type with every elided lifetime tied to the future's lifetime
/// `'fut`: a reference without a lifetime gets `'fut`, a trait object
/// without a lifetime bound gets the bound `'fut` after its other bounds,
/// and each `'_` becomes `'fut`; the rest is kept.
pub open spec fn elide(t: TypeShape) -> TypeShape
    decreases t,
{
    match t {
        TypeShape::Lifetime(n) => TypeShape::Lifetime(fill_lifetime(n)),
        TypeShape::Reference { lifetime, mutable, elem } => TypeShape::Reference {
            lifetime: Some(
                match lifetime {
                    Some(l) => fill_lifetime(l),
                    None => fut_name(),
                },
            ),
            mutable,
            elem: Box::new(elide(*elem)),
        },
        TypeShape::TraitObject { bounds } => TypeShape::TraitObject {
            bounds: if has_lifetime_bound(bounds) {
                elide_all(bounds)
            } else {
                elide_all(bounds).push(TypeShape::Lifetime(fut_name()))
            },
        },
        TypeShape::ImplTrait { bounds } => TypeShape::ImplTrait { bounds: elide_all(bounds) },
        TypeShape::Other { parts } => TypeShape::Other { parts: elide_all(parts) },
    }
}

/// [`elide`] on each type of `s`.
pub open spec fn elide_all(s: Seq<TypeShape>) -> Seq<TypeShape>
    decreases s,
{
    if s.len() == 0 {
        s
    } else {
        elide_all(s.drop_last()).push(elide(s.last()))
    }
}

/// Whether the type names the lifetime `'fut`.
pub open spec fn names_fut(t: TypeShape) -> bool
    decreases t,
{
    match t {
        TypeShape::Lifetime(n) => n == fut_name(),
        TypeShape::Reference { lifetime, elem, .. } => lifetime == Some(fut_name()) || names_fut(*elem),
        TypeShape::TraitObject { bounds } => any_names_fut(bounds),
        TypeShape::ImplTrait { bounds } => any_names_fut(bounds),
        TypeShape::Other { parts } => any_names_fut(parts),
    }
}

/// Whether some type of `s` names the lifetime `'fut`.
pub open spec fn any_names_fut(s: Seq<TypeShape>) -> bool
    decreases s,
{
    if s.len() == 0 {
        false
    } else {
        any_names_fut(s.drop_last()) || names_fut(s.last())
    }
}

} // verus!
