use vstd::prelude::*;

verus! {

/// An identifier, by its characters (for a lifetime, without the apostrophe).
pub type Name = Vec<char>;

/// Whether two names are the same.
pub fn same_name(a: &Name, b: &Name) -> (same: bool)
    ensures
        same == (a@ == b@),
{
    if a.len() != b.len() {
        return false;
    }
    let mut i: usize = 0;
    while i < a.len()
        invariant
            a@.len() == b@.len(),
            i <= a@.len(),
            forall|j: int| 0 <= j < i ==> a@[j] == b@[j],
        decreases a@.len() - i,
    {
        if a[i] != b[i] {
            return false;
        }
        i = i + 1;
    }
    assert(a@ =~= b@);
    true
}

/// A copy of `n`.
pub fn copy_name(n: &Name) -> (c: Name)
    ensures
        c@ == n@,
{
    let mut c: Name = Vec::new();
    let mut i: usize = 0;
    while i < n.len()
        invariant
            i <= n@.len(),
            c@ == n@.take(i as int),
        decreases n@.len() - i,
    {
        c.push(n[i]);
        i = i + 1;
        assert(c@ =~= n@.take(i as int));
    }
    assert(n@.take(n@.len() as int) =~= n@);
    c
}

/// `prefix`, then `n`, then `suffix`.
pub fn join3(prefix: &Name, n: &Name, suffix: &Name) -> (j: Name)
    ensures
        j@ == prefix@ + n@ + suffix@,
{
    let mut j = copy_name(prefix);
    let mut i: usize = 0;
    while i < n.len()
        invariant
            i <= n@.len(),
            j@ == prefix@ + n@.take(i as int),
        decreases n@.len() - i,
    {
        j.push(n[i]);
        i = i + 1;
        assert(j@ =~= prefix@ + n@.take(i as int));
    }
    assert(n@.take(n@.len() as int) =~= n@);
    let mut k: usize = 0;
    while k < suffix.len()
        invariant
            k <= suffix@.len(),
            j@ == prefix@ + n@ + suffix@.take(k as int),
        decreases suffix@.len() - k,
    {
        j.push(suffix[k]);
        k = k + 1;
        assert(j@ =~= prefix@ + n@ + suffix@.take(k as int));
    }
    assert(suffix@.take(suffix@.len() as int) =~= suffix@);
    j
}

/// The prefix `r#` of a raw identifier.
pub open spec fn raw_prefix() -> Seq<char> {
    seq!['r', '#']
}

/// The name without its raw-identifier prefix `r#`, as it reads when it is
/// put into a longer identifier.
pub open spec fn unraw(n: Seq<char>) -> Seq<char> {
    if n.len() >= 2 && n.take(2) == raw_prefix() {
        n.skip(2)
    } else {
        n
    }
}

/// `n` without its raw-identifier prefix, as [`unraw`] states.
pub fn unraw_name(n: &Name) -> (u: Name)
    ensures
        u@ == unraw(n@),
{
    if n.len() >= 2 && n[0] == 'r' && n[1] == '#' {
        assert(n@.take(2) =~= raw_prefix());
        let mut u: Name = Vec::new();
        let mut i: usize = 2;
        while i < n.len()
            invariant
                2 <= i <= n@.len(),
                u@ == n@.subrange(2, i as int),
            decreases n@.len() - i,
        {
            u.push(n[i]);
            i = i + 1;
            assert(u@ =~= n@.subrange(2, i as int));
        }
        assert(u@ =~= n@.skip(2));
        u
    } else {
        proof {
            if n@.len() >= 2 && n@.take(2) == raw_prefix() {
                assert(n@.take(2)[0] == n@[0] && n@.take(2)[1] == n@[1]);
            }
        }
        copy_name(n)
    }
}

/// The lifetime `'_`, by its name.
pub open spec fn underscore() -> Seq<char> {
    seq!['_']
}

/// The lifetime `'static`, by its name.
pub open spec fn static_name() -> Seq<char> {
    seq!['s', 't', 'a', 't', 'i', 'c']
}

/// The lifetime `'fut`, by its name.
pub open spec fn fut_name() -> Seq<char> {
    seq!['f', 'u', 't']
}

/// The path segment `self`.
pub open spec fn self_name() -> Seq<char> {
    seq!['s', 'e', 'l', 'f']
}

/// The path segment `super`.
pub open spec fn super_name() -> Seq<char> {
    seq!['s', 'u', 'p', 'e', 'r']
}

/// Makes the name `'_`.
pub fn make_underscore() -> (n: Name)
    ensures
        n@ == underscore(),
{
    let n: Name = vec!['_'];
    assert(n@ =~= underscore());
    n
}

/// Makes the name `'fut`.
pub fn make_fut() -> (n: Name)
    ensures
        n@ == fut_name(),
{
    let n: Name = vec!['f', 'u', 't'];
    assert(n@ =~= fut_name());
    n
}

/// Makes the name `super`.
pub fn make_super() -> (n: Name)
    ensures
        n@ == super_name(),
{
    let n: Name = vec!['s', 'u', 'p', 'e', 'r'];
    assert(n@ =~= super_name());
    n
}

/// Whether `n` is `self`.
pub fn is_self(n: &Name) -> (b: bool)
    ensures
        b == (n@ == self_name()),
{
    let s: Name = vec!['s', 'e', 'l', 'f'];
    assert(s@ =~= self_name());
    same_name(n, &s)
}

} // verus!

verus! {

/// The values of a sequence of names.
pub open spec fn names(s: Seq<Name>) -> Seq<Seq<char>> {
    Seq::new(s.len(), |i: int| s[i]@)
}

/// A copy of `s[from..]`.
pub fn copy_names_from(s: &Vec<Name>, from: usize) -> (c: Vec<Name>)
    requires
        from <= s@.len(),
    ensures
        names(c@) == names(s@).skip(from as int),
{
    let mut c: Vec<Name> = Vec::new();
    let mut i: usize = from;
    while i < s.len()
        invariant
            from <= i <= s@.len(),
            c@.len() == i - from,
            forall|j: int| 0 <= j < c@.len() ==> (#[trigger] c@[j])@ == s@[from + j]@,
        decreases s@.len() - i,
    {
        let n = copy_name(&s[i]);
        c.push(n);
        i = i + 1;
    }
    assert(names(c@) =~= names(s@).skip(from as int));
    c
}

} // verus!
