use vstd::prelude::*;

use crate::assign::first_free_combo;
use crate::assign::fixed_chars;
use crate::assign::flex_chars;
use crate::assign::lemma_flex_chars_len;
use crate::assign::lemma_resolve_upto_wf;
use crate::assign::matrix_matches;
use crate::assign::padded_fingers;
use crate::assign::place_char;
use crate::assign::place_chars;
use crate::assign::resolve_upto;
use crate::assign::spec_char_matrix;
use crate::assign::state_wf;
use crate::assign::AssignState;
use crate::concat::concat_upto;
use crate::concat::lemma_concat_upto_index;
use crate::concat::lemma_concat_upto_len_congruent;
use crate::corpus::corpus_wf;
use crate::corpus::lemma_sym_of_char_of;
use crate::corpus::sym_of;
use crate::corpus::CorpusChar;
use crate::finger::Finger;
use crate::geometry::combo_touches;
use crate::geometry::Combo;
use crate::geometry::Keyboard;
use crate::layout_data::KeyComponent;
use crate::layout_data::LayoutData;
use crate::layout_data::LayoutFormat;
use crate::project::fixed_projection;

verus! {

/// Order determinism: the resolved matrix is pinned slot for slot by
/// the encoding, the geometry and the interner, so any two matrices
/// that the assignment contract admits for the same inputs are equal.
/// Resolving the same encoding twice therefore yields identical
/// matrices.
pub proof fn lemma_order_determinism(
    m1: Seq<CorpusChar>,
    m2: Seq<CorpusChar>,
    cm: Seq<char>,
    chars: Seq<char>,
)
    requires
        matrix_matches(m1, cm, chars),
        matrix_matches(m2, cm, chars),
    ensures
        m1 == m2,
{
    assert forall|i: int| 0 <= i < m1.len() implies m1[i] == m2[i] by {
        assert(m1[i] as int == sym_of(chars, cm[i]));
        assert(m2[i] as int == sym_of(chars, cm[i]));
    }
    assert(m1 =~= m2);
}

/// Capacity conservation: in the matrix a Flexible encoding resolves
/// to, every finger contributes a segment of exactly its declared
/// physical key count — never more, never less — and the segments
/// start at the same flat offsets as the geometry's key lists.
pub proof fn lemma_capacity_conservation(kb: Keyboard, comps: Seq<KeyComponent>, f: int)
    requires
        0 <= f < 10,
    ensures
        padded_fingers(kb, resolve_upto(kb, comps, comps.len() as int))[f].len() == kb.cap(f),
        concat_upto(padded_fingers(kb, resolve_upto(kb, comps, comps.len() as int)), f).len()
            == kb.key_offset(f),
{
    lemma_resolve_upto_wf(kb, comps, comps.len() as int);
    let st = resolve_upto(kb, comps, comps.len() as int);
    lemma_concat_upto_len_congruent(padded_fingers(kb, st), kb.keys_seq(), f);
}

/// In the resolved matrix of a Flexible encoding, the character at
/// offset `j` of finger `f`'s segment is exactly character `j` of that
/// finger's padded output.
pub proof fn lemma_flex_segment(kb: Keyboard, comps: Seq<KeyComponent>, f: int, j: int)
    requires
        0 <= f < 10,
        0 <= j < kb.cap(f),
    ensures
        flex_chars(kb, comps)[kb.key_offset(f) + j] == padded_fingers(
            kb,
            resolve_upto(kb, comps, comps.len() as int),
        )[f][j],
{
    lemma_capacity_conservation(kb, comps, f);
    let st = resolve_upto(kb, comps, comps.len() as int);
    lemma_concat_upto_index(padded_fingers(kb, st), 10, f, j);
}

/// Shape: a resolved matrix always has exactly `kb_size + combo_count`
/// slots, and an encoding is refused exactly when it cannot fill that
/// shape — a Fixed encoding longer than the physical key count; a
/// Flexible encoding is never refused, its padding fixing the length.
pub proof fn lemma_resolved_shape(l: LayoutData, kb: Keyboard)
    ensures
        spec_char_matrix(l, kb) matches Some(cm) ==> cm.len() == kb.kb_size() + kb.combo_count(),
        spec_char_matrix(l, kb) is None <==> (l.format matches LayoutFormat::Fixed(slots)
            && slots@.len() > kb.kb_size()),
{
    match l.format {
        LayoutFormat::Fixed(slots) => {
        },
        LayoutFormat::Flexible(comps) => {
            lemma_flex_chars_len(kb, comps@);
        },
    }
}

/// Round trip: on a geometry without combos, a matrix of valid symbols
/// of a well-formed interner projects to a Fixed encoding that
/// resolves straight back to it — the projected slot list is accepted,
/// and the matrix it resolves to is the original, slot for slot.
pub proof fn lemma_fixed_round_trip(kb: Keyboard, m: Seq<CorpusChar>, chars: Seq<char>)
    requires
        corpus_wf(chars),
        kb.combo_count() == 0,
        m.len() == kb.kb_size(),
        forall|i: int| 0 <= i < m.len() ==> (#[trigger] m[i]) <= chars.len(),
    ensures
        fixed_projection(m, chars).len() <= kb.kb_size(),
        matrix_matches(m, fixed_chars(fixed_projection(m, chars), kb), chars),
{
    let slots = fixed_projection(m, chars);
    let cm = fixed_chars(slots, kb);
    assert forall|i: int| 0 <= i < m.len() implies (#[trigger] m[i]) as int == sym_of(
        chars,
        cm[i],
    ) by {
        lemma_sym_of_char_of(chars, m[i] as int);
    }
}

/// The still-free combo slots touching finger `f`, in declaration
/// order, from slot `j` on: the slots overflow characters claim.
pub open spec fn free_positions(combos: Seq<Combo>, slots: Seq<char>, f: Finger, j: int) -> Seq<
    int,
>
    decreases slots.len() - j,
{
    if j < 0 || j >= slots.len() || j >= combos.len() {
        Seq::empty()
    } else if slots[j] == '\0' && combo_touches(combos[j], f) {
        seq![j] + free_positions(combos, slots, f, j + 1)
    } else {
        free_positions(combos, slots, f, j + 1)
    }
}

/// Free positions depend only on the slots from `j` on.
proof fn lemma_free_positions_congruent(
    combos: Seq<Combo>,
    s1: Seq<char>,
    s2: Seq<char>,
    f: Finger,
    j: int,
)
    requires
        s1.len() == s2.len(),
        forall|t: int| j <= t < s1.len() ==> s1[t] == s2[t],
    ensures
        free_positions(combos, s1, f, j) == free_positions(combos, s2, f, j),
    decreases s1.len() - j,
{
    if 0 <= j < s1.len() {
        lemma_free_positions_congruent(combos, s1, s2, f, j + 1);
    }
}

/// Every free position lies in `[j, slots.len())`, is itself free and
/// touching, and the positions are strictly increasing.
proof fn lemma_free_positions_props(combos: Seq<Combo>, slots: Seq<char>, f: Finger, j: int)
    requires
        slots.len() == combos.len(),
    ensures
        ({
            let fp = free_positions(combos, slots, f, j);
            &&& forall|t: int|
                0 <= t < fp.len() ==> j <= #[trigger] fp[t] < slots.len() && slots[fp[t]] == '\0'
                    && combo_touches(combos[fp[t]], f)
            &&& forall|t1: int, t2: int|
                0 <= t1 < t2 < fp.len() ==> #[trigger] fp[t1] < #[trigger] fp[t2]
        }),
    decreases slots.len() - j,
{
    if 0 <= j < slots.len() {
        lemma_free_positions_props(combos, slots, f, j + 1);
        let rest = free_positions(combos, slots, f, j + 1);
        let fp = free_positions(combos, slots, f, j);
        if slots[j] == '\0' && combo_touches(combos[j], f) {
            assert(fp == seq![j] + rest);
            assert forall|t: int|
                0 <= t < fp.len() implies j <= #[trigger] fp[t] < slots.len() && slots[fp[t]]
                == '\0' && combo_touches(combos[fp[t]], f) by {
                if t == 0 {
                    assert(fp[0] == j);
                } else {
                    assert(fp[t] == rest[t - 1]);
                }
            }
            assert forall|t1: int, t2: int|
                0 <= t1 < t2 < fp.len() implies #[trigger] fp[t1] < #[trigger] fp[t2] by {
                assert(fp[t2] == rest[t2 - 1]);
                if t1 == 0 {
                    assert(fp[t1] == j);
                } else {
                    assert(fp[t1] == rest[t1 - 1]);
                }
            }
        }
    }
}

/// `first_free_combo` returns the head of the free-position list, or
/// -1 when that list is empty.
proof fn lemma_first_free_is_head(combos: Seq<Combo>, slots: Seq<char>, f: Finger, j: int)
    requires
        slots.len() == combos.len(),
    ensures
        ({
            let fp = free_positions(combos, slots, f, j);
            first_free_combo(combos, slots, f, j) == if fp.len() == 0 {
                -1
            } else {
                fp[0]
            }
        }),
    decreases slots.len() - j,
{
    if 0 <= j < slots.len() {
        lemma_first_free_is_head(combos, slots, f, j + 1);
    }
}

/// Claiming the first free position with a real character removes
/// exactly it from the free-position list.
proof fn lemma_claim_head(combos: Seq<Combo>, slots: Seq<char>, f: Finger, j: int, c: char)
    requires
        slots.len() == combos.len(),
        c != '\0',
        free_positions(combos, slots, f, j).len() > 0,
    ensures
        free_positions(combos, slots.update(free_positions(combos, slots, f, j)[0], c), f, j)
            == free_positions(combos, slots, f, j).drop_first(),
    decreases slots.len() - j,
{
    let fp = free_positions(combos, slots, f, j);
    let slots2 = slots.update(fp[0], c);
    lemma_free_positions_props(combos, slots, f, j);
    if slots[j] == '\0' && combo_touches(combos[j], f) {
        assert(fp[0] == j);
        assert(!(slots2[j] == '\0'));
        lemma_free_positions_congruent(combos, slots, slots2, f, j + 1);
        assert(free_positions(combos, slots2, f, j) == free_positions(combos, slots, f, j + 1));
        assert(fp.drop_first() =~= free_positions(combos, slots, f, j + 1));
    } else {
        assert(fp == free_positions(combos, slots, f, j + 1));
        lemma_claim_head(combos, slots, f, j + 1, c);
        assert(slots2[j] == slots[j]);
    }
}

/// The claim phase of overflow routing: placing characters on a finger
/// whose physical capacity is exhausted claims, one per character, the
/// first still-free combo slots touching it, in declaration order,
/// and drops the characters left once none is free.
proof fn lemma_claim_phase(kb: Keyboard, st: AssignState, f: Finger, keys: Seq<char>, i: int)
    requires
        state_wf(kb, st),
        st.fingers[f.as_int()].len() == kb.cap(f.as_int()),
        0 <= i <= keys.len(),
        forall|t: int| i <= t < keys.len() ==> keys[t] != '\0',
    ensures
        ({
            let st2 = place_chars(kb, st, f, keys, i);
            let fp = free_positions(kb.combos@, st.combos, f, 0);
            let k = keys.len() - i;
            let claimed = if k <= fp.len() {
                k as int
            } else {
                fp.len() as int
            };
            &&& st2.fingers == st.fingers
            &&& st2.combos.len() == st.combos.len()
            &&& forall|t: int| 0 <= t < claimed ==> st2.combos[#[trigger] fp[t]] == keys[i + t]
            &&& forall|j: int|
                0 <= j < st.combos.len() && !fp.take(claimed).contains(j) ==> st2.combos[j]
                    == st.combos[j]
            &&& free_positions(kb.combos@, st2.combos, f, 0) == fp.skip(claimed)
        }),
    decreases keys.len() - i,
{
    let st2 = place_chars(kb, st, f, keys, i);
    let fp = free_positions(kb.combos@, st.combos, f, 0);
    let k = keys.len() - i;
    let claimed = if k <= fp.len() {
        k as int
    } else {
        fp.len() as int
    };
    lemma_free_positions_props(kb.combos@, st.combos, f, 0);
    lemma_first_free_is_head(kb.combos@, st.combos, f, 0);
    if i >= keys.len() {
        assert(fp.skip(0) =~= fp);
    } else if fp.len() == 0 {
        let st_mid = place_char(kb, st, f, keys[i]);
        assert(st_mid == st);
        lemma_claim_phase(kb, st, f, keys, i + 1);
        assert(fp.take(claimed) =~= fp);
    } else {
        let st_mid = AssignState { fingers: st.fingers, combos: st.combos.update(fp[0], keys[i]) };
        assert(place_char(kb, st, f, keys[i]) == st_mid);
        lemma_claim_head(kb.combos@, st.combos, f, 0, keys[i]);
        let fp_mid = free_positions(kb.combos@, st_mid.combos, f, 0);
        assert(fp_mid == fp.drop_first());
        lemma_claim_phase(kb, st_mid, f, keys, i + 1);
        let k_mid = keys.len() - (i + 1);
        let claimed_mid = if k_mid <= fp_mid.len() {
            k_mid as int
        } else {
            fp_mid.len() as int
        };
        assert(claimed_mid == claimed - 1);
        assert(st2 == place_chars(kb, st_mid, f, keys, i + 1));
        // the head slot keeps its character: it is not among the later
        // free positions, all of which lie strictly after it
        assert forall|t: int| 0 <= t < claimed implies st2.combos[#[trigger] fp[t]] == keys[i
            + t] by {
            if t == 0 {
                assert(!fp_mid.take(claimed_mid).contains(fp[0])) by {
                    if fp_mid.take(claimed_mid).contains(fp[0]) {
                        let w = choose|w: int|
                            0 <= w < claimed_mid && fp_mid.take(claimed_mid)[w] == fp[0];
                        assert(fp[w + 1] == fp[0]);
                    }
                }
                assert(st2.combos[fp[0]] == st_mid.combos[fp[0]]);
            } else {
                assert(fp_mid[t - 1] == fp[t]);
                assert(st2.combos[fp_mid[t - 1]] == keys[i + 1 + (t - 1)]);
            }
        }
        assert forall|j: int|
            0 <= j < st.combos.len() && !fp.take(claimed).contains(j) implies st2.combos[j]
            == st.combos[j] by {
            assert(fp.take(claimed)[0] == fp[0]);
            assert(j != fp[0]);
            assert(st_mid.combos[j] == st.combos[j]);
            assert(!fp_mid.take(claimed_mid).contains(j)) by {
                if fp_mid.take(claimed_mid).contains(j) {
                    let w = choose|w: int|
                        0 <= w < claimed_mid && fp_mid.take(claimed_mid)[w] == j;
                    assert(fp[w + 1] == j);
                    assert(fp.take(claimed)[w + 1] == j);
                }
            }
        }
        assert(free_positions(kb.combos@, st2.combos, f, 0) == fp_mid.skip(claimed_mid));
        assert(fp_mid.skip(claimed_mid) =~= fp.skip(claimed));
    }
}

/// Overflow routing: a single-candidate component placing `n`
/// characters on finger `f` appends the first characters while the
/// finger has spare physical capacity, then claims exactly
/// `min(overflow, free)` still-free combo slots touching `f` — the
/// first such slots, in combo declaration order — with the next
/// characters, one each, and drops any remainder. Slots not claimed
/// keep their contents. Stated for components of real characters: the
/// sentinel is no author character.
pub proof fn lemma_overflow_routing(kb: Keyboard, st: AssignState, f: Finger, keys: Seq<char>, i: int)
    requires
        state_wf(kb, st),
        0 <= i <= keys.len(),
        forall|t: int| i <= t < keys.len() ==> keys[t] != '\0',
    ensures
        ({
            let fi = f.as_int();
            let cap = kb.cap(fi) as int;
            let used = st.fingers[fi].len() as int;
            let n = keys.len() - i;
            let phys = if n <= cap - used {
                n as int
            } else {
                cap - used
            };
            let fp = free_positions(kb.combos@, st.combos, f, 0);
            let k = n - phys;
            let claimed = if k <= fp.len() {
                k as int
            } else {
                fp.len() as int
            };
            let st2 = place_chars(kb, st, f, keys, i);
            &&& st2.fingers == st.fingers.update(
                fi,
                st.fingers[fi] + keys.subrange(i, i + phys),
            )
            &&& st2.combos.len() == st.combos.len()
            &&& forall|t: int|
                0 <= t < claimed ==> st2.combos[#[trigger] fp[t]] == keys[i + phys + t]
            &&& forall|j: int|
                0 <= j < st.combos.len() && !fp.take(claimed).contains(j) ==> st2.combos[j]
                    == st.combos[j]
        }),
    decreases keys.len() - i,
{
    let fi = f.as_int();
    let cap = kb.cap(fi) as int;
    let used = st.fingers[fi].len() as int;
    let n = keys.len() - i;
    let phys = if n <= cap - used {
        n as int
    } else {
        cap - used
    };
    let fp = free_positions(kb.combos@, st.combos, f, 0);
    let st2 = place_chars(kb, st, f, keys, i);
    if i >= keys.len() {
        assert(st.fingers[fi] + keys.subrange(i, i) =~= st.fingers[fi]);
        assert(st.fingers.update(fi, st.fingers[fi] + keys.subrange(i, i)) =~= st.fingers);
    } else if used < cap {
        let st_mid = place_char(kb, st, f, keys[i]);
        assert(st_mid.fingers == st.fingers.update(fi, st.fingers[fi].push(keys[i])));
        assert(st_mid.combos == st.combos);
        lemma_free_positions_congruent(kb.combos@, st.combos, st_mid.combos, f, 0);
        lemma_overflow_routing(kb, st_mid, f, keys, i + 1);
        let used_mid = st_mid.fingers[fi].len() as int;
        assert(used_mid == used + 1);
        let phys_mid = if (n - 1) <= cap - used_mid {
            n - 1
        } else {
            cap - used_mid
        };
        assert(phys_mid == phys - 1);
        assert(st_mid.fingers[fi] + keys.subrange(i + 1, i + 1 + phys_mid) =~= st.fingers[fi]
            + keys.subrange(i, i + phys));
        assert(st2.fingers == st_mid.fingers.update(
            fi,
            st_mid.fingers[fi] + keys.subrange(i + 1, i + 1 + phys_mid),
        ));
        assert(st2.fingers =~= st.fingers.update(fi, st.fingers[fi] + keys.subrange(i, i + phys)));
    } else {
        assert(used == cap);
        assert(phys == 0);
        lemma_claim_phase(kb, st, f, keys, i);
        assert(st.fingers[fi] + keys.subrange(i, i) =~= st.fingers[fi]);
        assert(st.fingers.update(fi, st.fingers[fi] + keys.subrange(i, i)) =~= st.fingers);
    }
}

} // verus!
