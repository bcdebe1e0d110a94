use vstd::prelude::*;
use crate::names::Name;

verus! {

/// The order of names: character by character, a proper prefix first.
pub open spec fn lex_lt(a: Seq<char>, b: Seq<char>) -> bool
    decreases a.len(),
{
    if a.len() == 0 {
        b.len() > 0
    } else if b.len() == 0 {
        false
    } else if a[0] < b[0] {
        true
    } else if a[0] == b[0] {
        lex_lt(a.drop_first(), b.drop_first())
    } else {
        false
    }
}

/// No name comes before itself.
pub proof fn lemma_lex_irreflexive(a: Seq<char>)
    ensures
        !lex_lt(a, a),
    decreases a.len(),
{
    if a.len() > 0 {
        lemma_lex_irreflexive(a.drop_first());
    }
}

/// Of two names, at most one comes first.
pub proof fn lemma_lex_asymmetric(a: Seq<char>, b: Seq<char>)
    ensures
        !(lex_lt(a, b) && lex_lt(b, a)),
    decreases a.len(),
{
    if a.len() > 0 && b.len() > 0 && a[0] == b[0] {
        lemma_lex_asymmetric(a.drop_first(), b.drop_first());
    }
}

/// Of two different names, one comes first.
pub proof fn lemma_lex_total(a: Seq<char>, b: Seq<char>)
    ensures
        a != b ==> lex_lt(a, b) || lex_lt(b, a),
    decreases a.len(),
{
    if a.len() > 0 && b.len() > 0 && a[0] == b[0] {
        lemma_lex_total(a.drop_first(), b.drop_first());
        if a.drop_first() == b.drop_first() {
            assert(a =~= seq![a[0]] + a.drop_first());
            assert(b =~= seq![b[0]] + b.drop_first());
        }
    } else if a.len() == 0 && b.len() == 0 {
        assert(a =~= b);
    }
}

/// The order is transitive.
pub proof fn lemma_lex_transitive(a: Seq<char>, b: Seq<char>, c: Seq<char>)
    requires
        lex_lt(a, b),
        lex_lt(b, c),
    ensures
        lex_lt(a, c),
    decreases a.len(),
{
    if a.len() > 0 && b.len() > 0 && c.len() > 0 && a[0] == b[0] && b[0] == c[0] {
        lemma_lex_transitive(a.drop_first(), b.drop_first(), c.drop_first());
    }
}

/// Whether `a` comes before `b`.
pub fn name_lt(a: &Name, b: &Name) -> (lt: bool)
    ensures
        lt == lex_lt(a@, b@),
{
    let mut i: usize = 0;
    assert(a@.skip(0) =~= a@);
    assert(b@.skip(0) =~= b@);
    while i < a.len() && i < b.len()
        invariant
            i <= a@.len(),
            i <= b@.len(),
            lex_lt(a@, b@) == lex_lt(a@.skip(i as int), b@.skip(i as int)),
        decreases a@.len() - i,
    {
        let ghost sa = a@.skip(i as int);
        let ghost sb = b@.skip(i as int);
        assert(sa.drop_first() =~= a@.skip(i as int + 1));
        assert(sb.drop_first() =~= b@.skip(i as int + 1));
        if a[i] < b[i] {
            return true;
        }
        if a[i] != b[i] {
            return false;
        }
        i = i + 1;
    }
    i < b.len()
}

/// `n` put into the ordered names `s`, as into an ordered set: before the
/// first name that comes after it, and not at all where it is there already.
pub open spec fn insert_sorted(s: Seq<Seq<char>>, n: Seq<char>) -> Seq<Seq<char>>
    decreases s.len(),
{
    if s.len() == 0 {
        seq![n]
    } else if s[0] == n {
        s
    } else if lex_lt(n, s[0]) {
        seq![n] + s
    } else {
        seq![s[0]] + insert_sorted(s.drop_first(), n)
    }
}

/// The names are in strictly increasing order.
pub open spec fn strictly_sorted(s: Seq<Seq<char>>) -> bool {
    forall|i: int, j: int| 0 <= i < j < s.len() ==> lex_lt(#[trigger] s[i], #[trigger] s[j])
}

/// Where the names before `k` come before `n`, [`insert_sorted`] keeps them
/// and goes on from `k`.
pub proof fn lemma_insert_skip(s: Seq<Seq<char>>, n: Seq<char>, k: int)
    requires
        0 <= k <= s.len(),
        forall|j: int| 0 <= j < k ==> lex_lt(#[trigger] s[j], n),
    ensures
        insert_sorted(s, n) == s.take(k) + insert_sorted(s.skip(k), n),
    decreases k,
{
    if k == 0 {
        assert(s.skip(0) =~= s);
        assert(s.take(0) + insert_sorted(s, n) =~= insert_sorted(s, n));
    } else {
        lemma_lex_irreflexive(n);
        lemma_lex_asymmetric(s[0], n);
        assert(s[0] != n);
        assert(!lex_lt(n, s[0]));
        let t = s.drop_first();
        assert forall|j: int| 0 <= j < k - 1 implies lex_lt(#[trigger] t[j], n) by {
            assert(t[j] == s[j + 1]);
        }
        lemma_insert_skip(t, n, k - 1);
        assert(t.skip(k - 1) =~= s.skip(k));
        assert(s.take(k) =~= seq![s[0]] + t.take(k - 1));
        assert(insert_sorted(s, n) =~= s.take(k) + insert_sorted(s.skip(k), n));
    }
}

/// [`insert_sorted`] of `n` into `s`.
///
/// The ordered set of names is kept as a sorted vector: vstd's contract for
/// `BTreeSet` holds only for keys whose ordering it models (`obeys_cmp`),
/// which a name (`Vec<char>`) is not, so with it nothing of the order in
/// which the names come out could be proved.
pub fn insert_name(s: &mut Vec<Name>, n: Name)
    ensures
        crate::names::names(final(s)@) == insert_sorted(crate::names::names(old(s)@), n@),
{
    let ghost ns = crate::names::names(s@);
    let mut k: usize = 0;
    while k < s.len() && name_lt(&s[k], &n)
        invariant
            k <= s@.len(),
            ns == crate::names::names(s@),
            forall|j: int| 0 <= j < k ==> lex_lt(#[trigger] ns[j], n@),
        decreases s@.len() - k,
    {
        k = k + 1;
    }
    proof {
        lemma_insert_skip(ns, n@, k as int);
    }
    if k < s.len() && crate::names::same_name(&s[k], &n) {
        assert(ns.skip(k as int)[0] == n@);
        assert(ns.take(k as int) + ns.skip(k as int) =~= ns);
        return;
    }
    proof {
        if k < s@.len() {
            lemma_lex_total(n@, ns[k as int]);
            assert(ns.skip(k as int)[0] == ns[k as int]);
            assert(seq![n@] + ns.skip(k as int) =~= insert_sorted(ns.skip(k as int), n@));
        } else {
            assert(ns.skip(k as int) =~= Seq::<Seq<char>>::empty());
        }
    }
    s.insert(k, n);
    assert(crate::names::names(s@) =~= ns.take(k as int) + (seq![n@] + ns.skip(k as int)));
}

} // verus!
