use vstd::prelude::*;
use crate::errors::NameItError;
use crate::names::{copy_names_from, is_self, make_super, names, self_name, super_name, Name};

verus! {

/// The visibility of an item, as written before it.
pub enum Visibility {
    /// `pub`
    Public,
    /// `crate`
    Crate,
    /// `pub(self)`, `pub(super)`, `pub(crate)`, `pub(in a::b)`: `in_token` says
    /// whether `in` is written, `leading_colon` whether the path starts with `::`.
    Restricted { in_token: bool, leading_colon: bool, path: Vec<Name> },
    /// No visibility written: private.
    Inherited,
}

/// The mathematical value of a [`Visibility`].
pub enum VisibilityView {
    Public,
    Crate,
    Restricted { in_token: bool, leading_colon: bool, path: Seq<Seq<char>> },
    Inherited,
}

impl View for Visibility {
    type V = VisibilityView;

    open spec fn view(&self) -> VisibilityView {
        match self {
            Visibility::Public => VisibilityView::Public,
            Visibility::Crate => VisibilityView::Crate,
            Visibility::Restricted { in_token, leading_colon, path } => VisibilityView::Restricted {
                in_token: *in_token,
                leading_colon: *leading_colon,
                path: names(path@),
            },
            Visibility::Inherited => VisibilityView::Inherited,
        }
    }
}

/// The visibility given to an item that moves into a module nested in the
/// one it was written in: `pub` and `crate` stay; a path that starts with
/// `self` starts with `super` instead; any other path gets `super` in front
/// (so `pub(crate)` becomes `pub(super::crate)` and `pub(super)` becomes
/// `pub(super::super)`, both without `in`, which rustc does not accept); a
/// private item becomes `pub(super)`. An empty path is refused.
pub open spec fn bumped(v: VisibilityView) -> Result<VisibilityView, NameItError> {
    match v {
        VisibilityView::Public => Ok(VisibilityView::Public),
        VisibilityView::Crate => Ok(VisibilityView::Crate),
        VisibilityView::Restricted { in_token, leading_colon, path } => if path.len() == 0 {
            Err(NameItError::EmptyVisibilityPath)
        } else if path[0] == self_name() {
            Ok(VisibilityView::Restricted { in_token, leading_colon, path: path.update(0, super_name()) })
        } else {
            Ok(VisibilityView::Restricted { in_token, leading_colon, path: seq![super_name()] + path })
        },
        VisibilityView::Inherited => Ok(VisibilityView::Restricted {
            in_token: false,
            leading_colon: false,
            path: seq![super_name()],
        }),
    }
}

/// The visibility of the function that `#[name_it]` moves into its own
/// module, as [`bumped`] states it.
pub fn bump_visibility(vis: &Visibility) -> (r: Result<Visibility, NameItError>)
    ensures
        match r {
            Ok(v) => bumped(vis@) == Ok::<VisibilityView, NameItError>(v@),
            Err(e) => bumped(vis@) == Err::<VisibilityView, NameItError>(e),
        },
{
    match vis {
        Visibility::Public => Ok(Visibility::Public),
        Visibility::Crate => Ok(Visibility::Crate),
        Visibility::Restricted { in_token, leading_colon, path } => {
            if path.len() == 0 {
                return Err(NameItError::EmptyVisibilityPath);
            }
            let mut out: Vec<Name> = Vec::new();
            out.push(make_super());
            let skip: usize = if is_self(&path[0]) { 1 } else { 0 };
            let rest = copy_names_from(path, skip);
            let ghost first = out@;
            let mut rest_mut = rest;
            out.append(&mut rest_mut);
            proof {
                assert(names(out@) =~= seq![super_name()] + names(rest@));
                if skip == 1 {
                    assert(names(out@) =~= names(path@).update(0, super_name()));
                } else {
                    assert(names(out@) =~= seq![super_name()] + names(path@));
                }
            }
            Ok(Visibility::Restricted { in_token: *in_token, leading_colon: *leading_colon, path: out })
        },
        Visibility::Inherited => {
            let mut out: Vec<Name> = Vec::new();
            out.push(make_super());
            assert(names(out@) =~= seq![super_name()]);
            Ok(Visibility::Restricted { in_token: false, leading_colon: false, path: out })
        },
    }
}

} // verus!
