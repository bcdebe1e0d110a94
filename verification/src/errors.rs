use vstd::prelude::*;

verus! {

/// Why an expansion refuses its input.
#[derive(Debug, Clone, Copy, PartialEq, Eq, Structural)]
pub enum NameItError {
    /// The item is not a function.
    NotAFunction,
    /// The argument of `#[name_it]` is not a single identifier.
    AttrNotIdent,
    /// The function is not `async`.
    NotAsync,
    /// The function has generic parameters, or takes an `impl Trait` argument.
    Generics,
    /// A lifetime other than `'static`, `'fut` and `'_` stands in the signature.
    CustomLifetime,
    /// A `pub(in ..)` visibility with an empty path.
    EmptyVisibilityPath,
    /// The function takes `self`.
    Method,
    /// An argument's pattern is not a plain identifier.
    PatternNotIdent,
    /// A method takes `mut self` by value: the argument `this: mut Ty` that
    /// it would become does not parse, and the expansion panics with the
    /// text of those tokens.
    ReceiverByMutValue,
}

/// The fixed text that the expansion reports for `e`; `None` for
/// [`NameItError::ReceiverByMutValue`], whose text is that of the tokens
/// that failed to parse.
pub open spec fn message_of(e: NameItError) -> Option<Seq<char>> {
    match e {
        NameItError::ReceiverByMutValue => None,
        _ => Some(fixed_message_of(e)),
    }
}

/// The fixed text of each error but [`NameItError::ReceiverByMutValue`].
pub open spec fn fixed_message_of(e: NameItError) -> Seq<char> {
    match e {
        NameItError::NotAFunction => "#[name_it] accepts only a function"@,
        NameItError::AttrNotIdent => "#[name_it] sole argument must be an ident"@,
        NameItError::NotAsync => "#[name_it] only works on async functions"@,
        NameItError::Generics => "generics are not supported by #[name_it] yet"@,
        NameItError::CustomLifetime => "custom lifetimes in #[name_it] args are not supported yet"@,
        NameItError::EmptyVisibilityPath => "empty path in visibility declration"@,
        NameItError::Method => "methods are not supported by #[name_it]"@,
        NameItError::PatternNotIdent => "only simple `ident` patterns in function args are supported by #[name_it] for now"@,
        NameItError::ReceiverByMutValue => Seq::empty(),
    }
}

impl NameItError {
    /// The fixed text that the expansion reports for this error, if it has
    /// one.
    pub fn message(&self) -> (m: Option<&'static str>)
        ensures
            match m {
                Some(t) => message_of(*self) == Some(t@),
                None => message_of(*self) is None,
            },
    {
        let t = match self {
            NameItError::NotAFunction => "#[name_it] accepts only a function",
            NameItError::AttrNotIdent => "#[name_it] sole argument must be an ident",
            NameItError::NotAsync => "#[name_it] only works on async functions",
            NameItError::Generics => "generics are not supported by #[name_it] yet",
            NameItError::CustomLifetime => "custom lifetimes in #[name_it] args are not supported yet",
            NameItError::EmptyVisibilityPath => "empty path in visibility declration",
            NameItError::Method => "methods are not supported by #[name_it]",
            NameItError::PatternNotIdent => "only simple `ident` patterns in function args are supported by #[name_it] for now",
            NameItError::ReceiverByMutValue => return None,
        };
        Some(t)
    }
}

} // verus!
