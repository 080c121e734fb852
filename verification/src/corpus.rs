use vstd::prelude::*;

use crate::concat::concat_upto;

verus! {

/// An interned character symbol. Symbol 0 is the reserved sentinel that
/// stands for "no character assigned"; symbol `i > 0` stands for the
/// corpus's character number `i - 1`.
pub type CorpusChar = usize;

/// The symbol interner: maps characters to the compact numeric
/// identifiers the analysis engine works over, and back. This models
/// exactly the interning surface the assignment engine reads; frequency
/// statistics live with the external analysis service.
#[derive(Clone, Debug)]
pub struct Corpus {
    pub chars: Vec<char>,
}

/// First-match interning from index `i` on: the symbol of `c`, or 0
/// when `c` does not occur.
pub open spec fn sym_from(chars: Seq<char>, c: char, i: int) -> int
    decreases chars.len() - i,
{
    if i < 0 || i >= chars.len() {
        0
    } else if chars[i] == c {
        i + 1
    } else {
        sym_from(chars, c, i + 1)
    }
}

/// The symbol of character `c`: 0 for the null character and for any
/// character outside the corpus, otherwise one more than the index of
/// its first occurrence.
pub open spec fn sym_of(chars: Seq<char>, c: char) -> int {
    if c == '\0' {
        0
    } else {
        sym_from(chars, c, 0)
    }
}

/// The character of symbol `s`: the null character for the sentinel 0
/// and for any out-of-range symbol.
pub open spec fn char_of(chars: Seq<char>, s: int) -> char {
    if 1 <= s <= chars.len() {
        chars[s - 1]
    } else {
        '\0'
    }
}

/// What `sym_from` returns: 0 and no occurrence from `i` on, or one
/// more than the first occurrence at or after `i`.
pub proof fn lemma_sym_from_props(chars: Seq<char>, c: char, i: int)
    requires
        0 <= i <= chars.len(),
    ensures
        ({
            let r = sym_from(chars, c, i);
            ||| (r == 0 && forall|t: int| i <= t < chars.len() ==> chars[t] != c)
            ||| (i < r <= chars.len() && chars[r - 1] == c && forall|t: int|
                i <= t < r - 1 ==> chars[t] != c)
        }),
    decreases chars.len() - i,
{
    if i < chars.len() && chars[i] != c {
        lemma_sym_from_props(chars, c, i + 1);
    }
}

/// A well-formed corpus: no character is the null sentinel and no
/// character occurs twice, so interning and resolving invert each other.
pub open spec fn corpus_wf(chars: Seq<char>) -> bool {
    &&& forall|i: int| 0 <= i < chars.len() ==> chars[i] != '\0'
    &&& forall|i: int, j: int| 0 <= i < j < chars.len() ==> chars[i] != chars[j]
}

/// Resolving a valid symbol and interning the resulting character gives
/// the symbol back.
pub proof fn lemma_sym_of_char_of(chars: Seq<char>, s: int)
    requires
        corpus_wf(chars),
        0 <= s <= chars.len(),
    ensures
        sym_of(chars, char_of(chars, s)) == s,
{
    if s > 0 {
        let c = chars[s - 1];
        lemma_sym_from_props(chars, c, 0);
    }
}

/// Interning a character and resolving the resulting symbol gives the
/// character back when the corpus holds it, and the null sentinel
/// otherwise.
pub proof fn lemma_char_of_sym_of(chars: Seq<char>, c: char)
    requires
        corpus_wf(chars),
    ensures
        char_of(chars, sym_of(chars, c)) == if chars.contains(c) {
            c
        } else {
            '\0'
        },
{
    if c == '\0' {
        assert(!chars.contains(c));
    } else {
        lemma_sym_from_props(chars, c, 0);
        if chars.contains(c) {
            let w = choose|w: int| 0 <= w < chars.len() && chars[w] == c;
            assert(sym_from(chars, c, 0) != 0);
        }
    }
}

/// The character list that interning is built over: the groups
/// flattened in order, with the null character and every repeated
/// occurrence removed, first occurrences kept.
pub open spec fn dedup(s: Seq<char>) -> Seq<char>
    decreases s.len(),
{
    if s.len() == 0 {
        Seq::empty()
    } else {
        let rest = dedup(s.drop_last());
        if s.last() == '\0' || rest.contains(s.last()) {
            rest
        } else {
            rest.push(s.last())
        }
    }
}

/// Deduplication yields a well-formed corpus.
pub proof fn lemma_dedup_wf(s: Seq<char>)
    ensures
        corpus_wf(dedup(s)),
    decreases s.len(),
{
    if s.len() > 0 {
        lemma_dedup_wf(s.drop_last());
        let rest = dedup(s.drop_last());
        if s.last() != '\0' && !rest.contains(s.last()) {
            assert forall|i: int, j: int| 0 <= i < j < dedup(s).len() implies dedup(s)[i]
                != dedup(s)[j] by {
                if j == dedup(s).len() - 1 {
                    assert(rest.contains(rest[i]));
                }
            }
        }
    }
}

/// Deduplication keeps exactly the non-null characters.
pub proof fn lemma_dedup_contains(s: Seq<char>, c: char)
    ensures
        dedup(s).contains(c) <==> (s.contains(c) && c != '\0'),
    decreases s.len(),
{
    if s.len() > 0 {
        lemma_dedup_contains(s.drop_last(), c);
        let rest = dedup(s.drop_last());
        if dedup(s).contains(c) {
            let v = choose|v: int| 0 <= v < dedup(s).len() && dedup(s)[v] == c;
            if v < rest.len() {
                assert(rest[v] == c);
                let w = choose|w: int| 0 <= w < s.drop_last().len() && s.drop_last()[w] == c;
                assert(s[w] == c);
            } else {
                assert(c == s.last());
                assert(s[s.len() - 1] == c);
            }
        }
        if s.contains(c) && c != '\0' {
            let w = choose|w: int| 0 <= w < s.len() && s[w] == c;
            if w < s.len() - 1 {
                assert(s.drop_last()[w] == c);
                let v = choose|v: int| 0 <= v < rest.len() && rest[v] == c;
                assert(dedup(s)[v] == c);
            } else {
                assert(s.last() == c);
                if rest.contains(c) {
                    let v = choose|v: int| 0 <= v < rest.len() && rest[v] == c;
                    assert(dedup(s)[v] == c);
                } else {
                    assert(dedup(s).last() == c);
                }
            }
        }
    }
}

/// Whether `v` holds `c`.
fn vec_contains(v: &Vec<char>, c: char) -> (r: bool)
    ensures
        r == v@.contains(c),
{
    let mut i: usize = 0;
    while i < v.len()
        invariant
            i <= v@.len(),
            forall|t: int| 0 <= t < i ==> v@[t] != c,
        decreases v@.len() - i,
    {
        if v[i] == c {
            return true;
        }
        i = i + 1;
    }
    false
}

impl Corpus {
    /// The flattened views of the character groups.
    pub open spec fn groups_seq(char_list: Vec<Vec<char>>) -> Seq<Seq<char>> {
        Seq::new(char_list@.len(), |g: int| char_list@[g]@)
    }

    /// Build an interner over the given character groups, flattened in
    /// order. The null character and repeated characters are skipped,
    /// so every interned character has exactly one symbol, distinct
    /// from the reserved empty sentinel.
    pub fn with_char_list(char_list: Vec<Vec<char>>) -> (r: Corpus)
        ensures
            r.chars@ == dedup(
                concat_upto(Self::groups_seq(char_list), char_list@.len() as int),
            ),
            corpus_wf(r.chars@),
    {
        let groups = Ghost(Self::groups_seq(char_list));
        let mut chars: Vec<char> = Vec::new();
        let mut g: usize = 0;
        while g < char_list.len()
            invariant
                g <= char_list@.len(),
                groups@ == Self::groups_seq(char_list),
                chars@ == dedup(concat_upto(groups@, g as int)),
            decreases char_list@.len() - g,
        {
            let group = &char_list[g];
            let mut t: usize = 0;
            while t < group.len()
                invariant
                    g < char_list@.len(),
                    t <= group@.len(),
                    group@ == groups@[g as int],
                    groups@ == Self::groups_seq(char_list),
                    chars@ == dedup(concat_upto(groups@, g as int) + group@.take(t as int)),
                decreases group@.len() - t,
            {
                let c = group[t];
                let ghost prefix = concat_upto(groups@, g as int) + group@.take(t as int);
                proof {
                    assert((prefix + seq![c]).drop_last() =~= prefix);
                    assert((prefix + seq![c]).last() == c);
                    assert(concat_upto(groups@, g as int) + group@.take(t as int + 1) =~= prefix
                        + seq![c]);
                }
                if c != '\0' && !vec_contains(&chars, c) {
                    chars.push(c);
                }
                t = t + 1;
            }
            proof {
                assert(concat_upto(groups@, g as int) + group@.take(group@.len() as int)
                    =~= concat_upto(groups@, g as int + 1));
            }
            g = g + 1;
        }
        proof {
            lemma_dedup_wf(concat_upto(groups@, char_list@.len() as int));
        }
        Corpus { chars }
    }

    /// The symbol of `c`: the sentinel 0 for the null character and for
    /// any character the corpus does not hold.
    pub fn corpus_char(&self, c: char) -> (r: CorpusChar)
        ensures
            r as int == sym_of(self.chars@, c),
            r <= self.chars@.len(),
    {
        if c == '\0' {
            return 0;
        }
        let mut i: usize = 0;
        while i < self.chars.len()
            invariant
                c != '\0',
                i <= self.chars@.len(),
                forall|t: int| 0 <= t < i ==> self.chars@[t] != c,
            decreases self.chars@.len() - i,
        {
            if self.chars[i] == c {
                proof {
                    lemma_sym_from_props(self.chars@, c, 0);
                    let r = sym_from(self.chars@, c, 0);
                    assert(self.chars@[i as int] == c);
                    assert(r != 0);
                    assert(!(r - 1 < i)) by {
                        if r - 1 < i {
                            assert(self.chars@[r - 1] == c);
                        }
                    }
                    assert(r == i + 1);
                }
                return i + 1;
            }
            i = i + 1;
        }
        proof {
            lemma_sym_from_props(self.chars@, c, 0);
        }
        0
    }

    /// The character of symbol `c`: the null character for the sentinel
    /// 0 and for any out-of-range symbol.
    pub fn uncorpus_unigram(&self, c: CorpusChar) -> (r: char)
        ensures
            r == char_of(self.chars@, c as int),
    {
        if 1 <= c && c <= self.chars.len() {
            self.chars[c - 1]
        } else {
            '\0'
        }
    }
}

/// The resolved layout matrix the analysis engine consumes: one symbol
/// per physical key in the fixed finger order, followed by one per
/// combo in declaration order.
#[derive(Clone, Debug)]
pub struct Layout {
    pub matrix: Vec<CorpusChar>,
}

impl Layout {
    /// Exchange the symbols at two slots: the optimization primitive
    /// the analysis engine mutates a layout with.
    pub fn swap(&mut self, a: usize, b: usize)
        requires
            a < old(self).matrix@.len(),
            b < old(self).matrix@.len(),
        ensures
            final(self).matrix@ == old(self).matrix@.update(
                a as int,
                old(self).matrix@[b as int],
            ).update(b as int, old(self).matrix@[a as int]),
    {
        let va = self.matrix[a];
        let vb = self.matrix[b];
        self.matrix.set(a, vb);
        self.matrix.set(b, va);
    }
}

} // verus!
