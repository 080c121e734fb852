use vstd::prelude::*;

verus! {

/// Concatenation of the first `n` inner sequences of `s`, in order.
/// This is the flattening primitive behind the fixed finger order:
/// per-finger lists are linearized by concatenating them left to right.
pub open spec fn concat_upto<T>(s: Seq<Seq<T>>, n: int) -> Seq<T>
    decreases n,
{
    if n <= 0 {
        Seq::empty()
    } else {
        concat_upto(s, n - 1) + s[n - 1]
    }
}

/// A shorter prefix concatenation is a prefix of a longer one, so its
/// length is no greater.
pub proof fn lemma_concat_upto_len_monotone<T>(s: Seq<Seq<T>>, m: int, n: int)
    requires
        m <= n,
    ensures
        concat_upto(s, m).len() <= concat_upto(s, n).len(),
    decreases n - m,
{
    if m < n {
        lemma_concat_upto_len_monotone(s, m, n - 1);
    }
}

/// Element `j` of inner sequence `f` sits at flat index
/// `concat_upto(s, f).len() + j` of the full concatenation.
pub proof fn lemma_concat_upto_index<T>(s: Seq<Seq<T>>, n: int, f: int, j: int)
    requires
        0 <= f < n,
        0 <= j < s[f].len(),
    ensures
        concat_upto(s, f).len() + j < concat_upto(s, n).len(),
        concat_upto(s, n)[concat_upto(s, f).len() + j] == s[f][j],
    decreases n,
{
    if f == n - 1 {
    } else {
        lemma_concat_upto_index(s, n - 1, f, j);
    }
}

/// Two outer sequences whose first `n` entries have equal lengths have
/// prefix concatenations of equal length.
pub proof fn lemma_concat_upto_len_congruent<T, U>(s1: Seq<Seq<T>>, s2: Seq<Seq<U>>, n: int)
    requires
        forall|i: int| 0 <= i < n ==> (#[trigger] s1[i]).len() == s2[i].len(),
    ensures
        concat_upto(s1, n).len() == concat_upto(s2, n).len(),
    decreases n,
{
    if n > 0 {
        lemma_concat_upto_len_congruent(s1, s2, n - 1);
    }
}

/// Two outer sequences that agree on their first `n` entries have the
/// same prefix concatenation.
pub proof fn lemma_concat_upto_congruent<T>(s1: Seq<Seq<T>>, s2: Seq<Seq<T>>, n: int)
    requires
        forall|i: int| 0 <= i < n ==> s1[i] == s2[i],
    ensures
        concat_upto(s1, n) == concat_upto(s2, n),
    decreases n,
{
    if n > 0 {
        lemma_concat_upto_congruent(s1, s2, n - 1);
    }
}

} // verus!
