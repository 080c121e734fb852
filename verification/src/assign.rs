use vstd::prelude::*;

use crate::concat::concat_upto;
use crate::concat::lemma_concat_upto_index;
use crate::concat::lemma_concat_upto_len_congruent;
use crate::corpus::sym_of;
use crate::corpus::Corpus;
use crate::corpus::CorpusChar;
use crate::finger::Finger;
use crate::geometry::combo_touches;
use crate::geometry::Combo;
use crate::geometry::Keyboard;
use crate::layout_data::KeyComponent;
use crate::layout_data::LayoutData;
use crate::layout_data::LayoutFormat;

verus! {

/// The assignment algorithm's working state: the characters placed on
/// each finger so far, and one slot per combo, holding the empty
/// sentinel while unclaimed.
pub struct AssignState {
    pub fingers: Seq<Seq<char>>,
    pub combos: Seq<char>,
}

/// The state before any component is processed: nothing on any finger,
/// every combo slot unclaimed.
pub open spec fn init_state(kb: Keyboard) -> AssignState {
    AssignState {
        fingers: Seq::new(10, |f: int| Seq::<char>::empty()),
        combos: Seq::new(kb.combo_count(), |j: int| '\0'),
    }
}

/// A state that fits the keyboard: ten finger outputs, none beyond its
/// finger's physical capacity, and one slot per combo.
pub open spec fn state_wf(kb: Keyboard, st: AssignState) -> bool {
    &&& st.fingers.len() == 10
    &&& st.combos.len() == kb.combo_count()
    &&& forall|f: int| 0 <= f < 10 ==> (#[trigger] st.fingers[f]).len() <= kb.cap(f)
}

/// Index of the first still-unclaimed combo slot at or after `j` whose
/// combo touches finger `f`, or -1 when there is none. Combos are
/// scanned in declaration order.
pub open spec fn first_free_combo(combos: Seq<Combo>, slots: Seq<char>, f: Finger, j: int) -> int
    decreases slots.len() - j,
{
    if j < 0 || j >= slots.len() || j >= combos.len() {
        -1
    } else if slots[j] == '\0' && combo_touches(combos[j], f) {
        j
    } else {
        first_free_combo(combos, slots, f, j + 1)
    }
}

/// What `first_free_combo` returns: -1 and no free touching slot from
/// `i` on, or the first free touching slot at or after `i`.
pub proof fn lemma_first_free_props(combos: Seq<Combo>, slots: Seq<char>, f: Finger, i: int)
    requires
        0 <= i <= slots.len(),
        slots.len() == combos.len(),
    ensures
        ({
            let r = first_free_combo(combos, slots, f, i);
            ||| (r == -1 && forall|t: int|
                i <= t < slots.len() ==> !(slots[t] == '\0' && combo_touches(combos[t], f)))
            ||| (i <= r < slots.len() && slots[r] == '\0' && combo_touches(combos[r], f)
                && forall|t: int|
                i <= t < r ==> !(slots[t] == '\0' && combo_touches(combos[t], f)))
        }),
    decreases slots.len() - i,
{
    if i < slots.len() && !(slots[i] == '\0' && combo_touches(combos[i], f)) {
        lemma_first_free_props(combos, slots, f, i + 1);
    }
}

/// Place one character on finger `f`: append it while the finger has
/// spare physical capacity, otherwise claim the first free combo slot
/// touching `f`; with neither available the character is dropped.
pub open spec fn place_char(kb: Keyboard, st: AssignState, f: Finger, c: char) -> AssignState {
    let fi = f.as_int();
    if st.fingers[fi].len() < kb.cap(fi) {
        AssignState { fingers: st.fingers.update(fi, st.fingers[fi].push(c)), combos: st.combos }
    } else {
        let j = first_free_combo(kb.combos@, st.combos, f, 0);
        if j >= 0 {
            AssignState { fingers: st.fingers, combos: st.combos.update(j, c) }
        } else {
            st
        }
    }
}

/// Place the characters of a single-candidate component on finger `f`,
/// in order.
pub open spec fn place_chars(
    kb: Keyboard,
    st: AssignState,
    f: Finger,
    keys: Seq<char>,
    i: int,
) -> AssignState
    decreases keys.len() - i,
{
    if i < 0 || i >= keys.len() {
        st
    } else {
        place_chars(kb, place_char(kb, st, f, keys[i]), f, keys, i + 1)
    }
}

/// Whether finger `f` can take one more character in state `st`, by
/// spare physical capacity or by a free combo slot touching it.
pub open spec fn can_place(kb: Keyboard, st: AssignState, f: Finger) -> bool {
    ||| st.fingers[f.as_int()].len() < kb.cap(f.as_int())
    ||| first_free_combo(kb.combos@, st.combos, f, 0) >= 0
}

/// Place a multi-candidate component's character: try each candidate
/// finger in listed order and stop at the first that can take it; when
/// none can, the character is dropped. Exactly one placement is made.
pub open spec fn place_multi(
    kb: Keyboard,
    st: AssignState,
    cand: Seq<Finger>,
    c: char,
    i: int,
) -> AssignState
    decreases cand.len() - i,
{
    if i < 0 || i >= cand.len() {
        st
    } else if can_place(kb, st, cand[i]) {
        place_char(kb, st, cand[i], c)
    } else {
        place_multi(kb, st, cand, c, i + 1)
    }
}

/// Process one component. A single-candidate component places each of
/// its characters in order; a multi-candidate component places only
/// the first character of its key list, as authored layouts use such
/// components with a single character; a component with no characters
/// places nothing.
pub open spec fn place_component(kb: Keyboard, st: AssignState, comp: KeyComponent) -> AssignState {
    if comp.finger@.len() == 1 {
        place_chars(kb, st, comp.finger@[0], comp.keys@, 0)
    } else if comp.keys@.len() > 0 {
        place_multi(kb, st, comp.finger@, comp.keys@[0], 0)
    } else {
        st
    }
}

/// The state after the first `n` components, processed strictly in
/// encoding order.
pub open spec fn resolve_upto(kb: Keyboard, comps: Seq<KeyComponent>, n: int) -> AssignState
    decreases n,
{
    if n <= 0 {
        init_state(kb)
    } else {
        place_component(kb, resolve_upto(kb, comps, n - 1), comps[n - 1])
    }
}

/// One finger's output padded with the empty sentinel up to its
/// physical capacity.
pub open spec fn pad_seg(s: Seq<char>, cap: nat) -> Seq<char> {
    if s.len() >= cap {
        s
    } else {
        s + Seq::new((cap - s.len()) as nat, |t: int| '\0')
    }
}

/// Every finger's output padded to its capacity, so each finger
/// contributes exactly its declared key count.
pub open spec fn padded_fingers(kb: Keyboard, st: AssignState) -> Seq<Seq<char>> {
    Seq::new(10, |f: int| pad_seg(st.fingers[f], kb.cap(f)))
}

/// The char-level matrix a Flexible encoding resolves to: the padded
/// finger outputs flattened in the fixed finger order, then the combo
/// slots in declaration order.
pub open spec fn flex_chars(kb: Keyboard, comps: Seq<KeyComponent>) -> Seq<char> {
    let st = resolve_upto(kb, comps, comps.len() as int);
    concat_upto(padded_fingers(kb, st), 10) + st.combos
}

/// Placing one character preserves state well-formedness.
pub proof fn lemma_place_char_wf(kb: Keyboard, st: AssignState, f: Finger, c: char)
    requires
        state_wf(kb, st),
    ensures
        state_wf(kb, place_char(kb, st, f, c)),
{
    let fi = f.as_int();
    if st.fingers[fi].len() < kb.cap(fi) {
    } else {
        lemma_first_free_props(kb.combos@, st.combos, f, 0);
    }
}

/// Placing a component's characters preserves well-formedness.
pub proof fn lemma_place_chars_wf(
    kb: Keyboard,
    st: AssignState,
    f: Finger,
    keys: Seq<char>,
    i: int,
)
    requires
        state_wf(kb, st),
    ensures
        state_wf(kb, place_chars(kb, st, f, keys, i)),
    decreases keys.len() - i,
{
    if 0 <= i < keys.len() {
        lemma_place_char_wf(kb, st, f, keys[i]);
        lemma_place_chars_wf(kb, place_char(kb, st, f, keys[i]), f, keys, i + 1);
    }
}

/// Multi-candidate placement preserves well-formedness.
pub proof fn lemma_place_multi_wf(
    kb: Keyboard,
    st: AssignState,
    cand: Seq<Finger>,
    c: char,
    i: int,
)
    requires
        state_wf(kb, st),
    ensures
        state_wf(kb, place_multi(kb, st, cand, c, i)),
    decreases cand.len() - i,
{
    if 0 <= i < cand.len() {
        if can_place(kb, st, cand[i]) {
            lemma_place_char_wf(kb, st, cand[i], c);
        } else {
            lemma_place_multi_wf(kb, st, cand, c, i + 1);
        }
    }
}

/// Processing components preserves well-formedness, from the initial
/// state on.
pub proof fn lemma_resolve_upto_wf(kb: Keyboard, comps: Seq<KeyComponent>, n: int)
    ensures
        state_wf(kb, resolve_upto(kb, comps, n)),
    decreases n,
{
    if n <= 0 {
    } else {
        lemma_resolve_upto_wf(kb, comps, n - 1);
        let st = resolve_upto(kb, comps, n - 1);
        let comp = comps[n - 1];
        if comp.finger@.len() == 1 {
            lemma_place_chars_wf(kb, st, comp.finger@[0], comp.keys@, 0);
        } else if comp.keys@.len() > 0 {
            lemma_place_multi_wf(kb, st, comp.finger@, comp.keys@[0], 0);
        }
    }
}

/// The character a Fixed encoding assigns to flat slot `i`: the slot's
/// character, the empty sentinel for a `None` slot, and the empty
/// sentinel for every slot past the encoding's end.
pub open spec fn fixed_char_at(slots: Seq<Option<char>>, i: int) -> char {
    if 0 <= i < slots.len() {
        match slots[i] {
            Some(c) => c,
            None => '\0',
        }
    } else {
        '\0'
    }
}

/// The char-level matrix a Fixed encoding resolves to: each slot on
/// its physical key in the fixed finger order, missing trailing slots
/// implicitly empty, and every combo slot empty — the Fixed encoding
/// never addresses combos.
pub open spec fn fixed_chars(slots: Seq<Option<char>>, kb: Keyboard) -> Seq<char> {
    Seq::new(kb.kb_size() + kb.combo_count(), |i: int| fixed_char_at(slots, i))
}

/// The char-level matrix an encoding resolves to against a geometry,
/// or `None` when the encoding does not fit it: a Fixed encoding is
/// rejected exactly when it is longer than the physical key count.
pub open spec fn spec_char_matrix(l: LayoutData, kb: Keyboard) -> Option<Seq<char>> {
    match l.format {
        LayoutFormat::Fixed(slots) => if slots@.len() <= kb.kb_size() {
            Some(fixed_chars(slots@, kb))
        } else {
            None
        },
        LayoutFormat::Flexible(comps) => Some(flex_chars(kb, comps@)),
    }
}

/// Whether symbol matrix `m` is char matrix `cm` translated through the
/// interner character list `chars`, slot by slot.
pub open spec fn matrix_matches(m: Seq<CorpusChar>, cm: Seq<char>, chars: Seq<char>) -> bool {
    &&& m.len() == cm.len()
    &&& forall|i: int| 0 <= i < m.len() ==> (#[trigger] m[i]) as int == sym_of(chars, cm[i])
}

/// A Flexible encoding always resolves to a matrix of exactly
/// `kb_size + combo_count` characters: the padding step fixes every
/// finger's contribution at its declared key count, and each combo
/// contributes exactly one slot.
pub proof fn lemma_flex_chars_len(kb: Keyboard, comps: Seq<KeyComponent>)
    ensures
        flex_chars(kb, comps).len() == kb.kb_size() + kb.combo_count(),
{
    lemma_resolve_upto_wf(kb, comps, comps.len() as int);
    let st = resolve_upto(kb, comps, comps.len() as int);
    lemma_concat_upto_len_congruent(padded_fingers(kb, st), kb.keys_seq(), 10);
}

/// The spec-level contents of a vector of finger outputs.
pub open spec fn finger_views(v: Vec<Vec<char>>) -> Seq<Seq<char>> {
    Seq::new(v@.len(), |i: int| v@[i]@)
}

/// The spec-level state held by the two working vectors.
pub open spec fn exec_state(fingers: Vec<Vec<char>>, combos: Vec<char>) -> AssignState {
    AssignState { fingers: finger_views(fingers), combos: combos@ }
}

/// Index of the first still-unclaimed combo slot whose combo touches
/// finger `f`, scanning combos in declaration order.
fn find_free_combo(kb: &Keyboard, slots: &Vec<char>, f: Finger) -> (r: Option<usize>)
    requires
        slots@.len() == kb.combos@.len(),
    ensures
        match r {
            Some(j) => j as int == first_free_combo(kb.combos@, slots@, f, 0),
            None => first_free_combo(kb.combos@, slots@, f, 0) == -1,
        },
{
    let mut j: usize = 0;
    while j < kb.combos.len()
        invariant
            slots@.len() == kb.combos@.len(),
            j <= kb.combos@.len(),
            forall|t: int|
                0 <= t < j ==> !(slots@[t] == '\0' && combo_touches(#[trigger] kb.combos@[t], f)),
        decreases kb.combos@.len() - j,
    {
        if slots[j] == '\0' && kb.combos[j].touches(f) {
            proof {
                lemma_first_free_props(kb.combos@, slots@, f, 0);
            }
            return Some(j);
        }
        j = j + 1;
    }
    proof {
        lemma_first_free_props(kb.combos@, slots@, f, 0);
    }
    None
}

/// Place one character on finger `f` in the working state, exactly as
/// `place_char` describes.
fn place_char_exec(
    kb: &Keyboard,
    fingers: &mut Vec<Vec<char>>,
    combos: &mut Vec<char>,
    f: Finger,
    c: char,
)
    requires
        old(fingers)@.len() == 10,
        old(combos)@.len() == kb.combos@.len(),
    ensures
        final(fingers)@.len() == 10,
        final(combos)@.len() == kb.combos@.len(),
        exec_state(*final(fingers), *final(combos)) == place_char(
            *kb,
            exec_state(*old(fingers), *old(combos)),
            f,
            c,
        ),
{
    let ghost st0 = exec_state(*old(fingers), *old(combos));
    let fi = f.as_usize();
    proof {
        assert(st0.fingers[fi as int] == fingers@[fi as int]@);
    }
    if fingers[fi].len() < kb.keys.map[fi].len() {
        fingers[fi].push(c);
        proof {
            let st2 = place_char(*kb, st0, f, c);
            assert(finger_views(*fingers) =~= st2.fingers);
            assert(exec_state(*fingers, *combos) == st2);
        }
    } else {
        match find_free_combo(kb, combos, f) {
            Some(j) => {
                proof {
                    lemma_first_free_props(kb.combos@, combos@, f, 0);
                }
                combos.set(j, c);
                proof {
                    let st2 = place_char(*kb, st0, f, c);
                    assert(finger_views(*fingers) =~= st2.fingers);
                    assert(combos@ =~= st2.combos);
                    assert(exec_state(*fingers, *combos) == st2);
                }
            },
            None => {
                proof {
                    let st2 = place_char(*kb, st0, f, c);
                    assert(finger_views(*fingers) =~= st2.fingers);
                    assert(exec_state(*fingers, *combos) == st2);
                }
            },
        }
    }
}

/// Place a single-candidate component's characters on finger `f`, in
/// order, exactly as `place_chars` describes.
fn place_chars_exec(
    kb: &Keyboard,
    fingers: &mut Vec<Vec<char>>,
    combos: &mut Vec<char>,
    f: Finger,
    keys: &Vec<char>,
)
    requires
        old(fingers)@.len() == 10,
        old(combos)@.len() == kb.combos@.len(),
    ensures
        final(fingers)@.len() == 10,
        final(combos)@.len() == kb.combos@.len(),
        exec_state(*final(fingers), *final(combos)) == place_chars(
            *kb,
            exec_state(*old(fingers), *old(combos)),
            f,
            keys@,
            0,
        ),
{
    let ghost st0 = exec_state(*old(fingers), *old(combos));
    let mut i: usize = 0;
    while i < keys.len()
        invariant
            fingers@.len() == 10,
            combos@.len() == kb.combos@.len(),
            i <= keys@.len(),
            place_chars(*kb, st0, f, keys@, 0) == place_chars(
                *kb,
                exec_state(*fingers, *combos),
                f,
                keys@,
                i as int,
            ),
        decreases keys@.len() - i,
    {
        place_char_exec(kb, fingers, combos, f, keys[i]);
        i = i + 1;
    }
}

/// Place a multi-candidate component's character on the first listed
/// candidate finger that can take it, exactly as `place_multi`
/// describes.
fn place_multi_exec(
    kb: &Keyboard,
    fingers: &mut Vec<Vec<char>>,
    combos: &mut Vec<char>,
    cand: &Vec<Finger>,
    c: char,
)
    requires
        old(fingers)@.len() == 10,
        old(combos)@.len() == kb.combos@.len(),
    ensures
        final(fingers)@.len() == 10,
        final(combos)@.len() == kb.combos@.len(),
        exec_state(*final(fingers), *final(combos)) == place_multi(
            *kb,
            exec_state(*old(fingers), *old(combos)),
            cand@,
            c,
            0,
        ),
{
    let ghost st0 = exec_state(*old(fingers), *old(combos));
    let mut i: usize = 0;
    while i < cand.len()
        invariant
            fingers@.len() == 10,
            combos@.len() == kb.combos@.len(),
            i <= cand@.len(),
            st0 == exec_state(*old(fingers), *old(combos)),
            exec_state(*fingers, *combos) == st0,
            place_multi(*kb, st0, cand@, c, 0) == place_multi(*kb, st0, cand@, c, i as int),
        decreases cand@.len() - i,
    {
        let f = cand[i];
        let fi = f.as_usize();
        proof {
            assert(st0.fingers[fi as int] == fingers@[fi as int]@);
        }
        if fingers[fi].len() < kb.keys.map[fi].len() {
            proof {
                assert(can_place(*kb, st0, f));
                assert(place_multi(*kb, st0, cand@, c, i as int) == place_char(*kb, st0, f, c));
            }
            place_char_exec(kb, fingers, combos, f, c);
            return;
        }
        match find_free_combo(kb, combos, f) {
            Some(_) => {
                proof {
                    assert(can_place(*kb, st0, f));
                    assert(place_multi(*kb, st0, cand@, c, i as int) == place_char(
                        *kb,
                        st0,
                        f,
                        c,
                    ));
                }
                place_char_exec(kb, fingers, combos, f, c);
                return;
            },
            None => {
                proof {
                    assert(!can_place(*kb, st0, f));
                    assert(place_multi(*kb, st0, cand@, c, i as int) == place_multi(
                        *kb,
                        st0,
                        cand@,
                        c,
                        i as int + 1,
                    ));
                }
            },
        }
        i = i + 1;
    }
}

/// Resolve a Fixed encoding: each slot goes to its physical key in the
/// fixed finger order, missing trailing slots and every combo slot
/// stay empty, and an encoding longer than the physical key count is
/// rejected.
pub(crate) fn resolve_fixed(slots: &Vec<Option<char>>, kb: &Keyboard, corpus: &Corpus) -> (r:
    Option<Vec<CorpusChar>>)
    ensures
        match r {
            Some(m) => slots@.len() <= kb.kb_size() && matrix_matches(
                m@,
                fixed_chars(slots@, *kb),
                corpus.chars@,
            ),
            None => slots@.len() > kb.kb_size(),
        },
{
    let mut matrix: Vec<CorpusChar> = Vec::new();
    let mut si: usize = 0;
    let mut f: usize = 0;
    while f < 10
        invariant
            f <= 10,
            matrix@.len() == kb.key_offset(f as int),
            si as int == if slots@.len() <= matrix@.len() {
                slots@.len() as int
            } else {
                matrix@.len() as int
            },
            forall|t: int|
                0 <= t < matrix@.len() ==> (#[trigger] matrix@[t]) as int == sym_of(
                    corpus.chars@,
                    fixed_char_at(slots@, t),
                ),
        decreases 10 - f,
    {
        let keys_len = kb.keys.map[f].len();
        proof {
            assert(kb.keys_seq()[f as int] == kb.finger_keys(f as int));
        }
        let mut j: usize = 0;
        while j < keys_len
            invariant
                f < 10,
                j <= keys_len,
                keys_len == kb.cap(f as int),
                matrix@.len() == kb.key_offset(f as int) + j,
                si as int == if slots@.len() <= matrix@.len() {
                    slots@.len() as int
                } else {
                    matrix@.len() as int
                },
                forall|t: int|
                    0 <= t < matrix@.len() ==> (#[trigger] matrix@[t]) as int == sym_of(
                        corpus.chars@,
                        fixed_char_at(slots@, t),
                    ),
            decreases keys_len - j,
        {
            if si < slots.len() {
                match slots[si] {
                    Some(c) => {
                        let s = corpus.corpus_char(c);
                        matrix.push(s);
                    },
                    None => {
                        matrix.push(0);
                    },
                }
                si = si + 1;
            } else {
                matrix.push(0);
            }
            j = j + 1;
        }
        proof {
            assert(kb.key_offset(f as int + 1) == kb.key_offset(f as int) + kb.cap(f as int));
        }
        f = f + 1;
    }
    proof {
        assert(matrix@.len() == kb.kb_size());
    }
    if si < slots.len() {
        return None;
    }
    let mut k: usize = 0;
    while k < kb.combos.len()
        invariant
            k <= kb.combos@.len(),
            slots@.len() <= kb.kb_size(),
            matrix@.len() == kb.kb_size() + k,
            forall|t: int|
                0 <= t < matrix@.len() ==> (#[trigger] matrix@[t]) as int == sym_of(
                    corpus.chars@,
                    fixed_char_at(slots@, t),
                ),
        decreases kb.combos@.len() - k,
    {
        matrix.push(0);
        k = k + 1;
    }
    Some(matrix)
}

/// Resolve a Flexible encoding: process the components in encoding
/// order, pad every finger's output to its capacity, flatten in the
/// fixed finger order, append the combo slots, and translate every
/// character through the interner. The resolved length is always
/// exactly `kb_size + combo_count`, which the shape lemma proves, so
/// no runtime length validation can fail.
pub(crate) fn resolve_flexible(comps: &Vec<KeyComponent>, kb: &Keyboard, corpus: &Corpus) -> (r:
    Vec<CorpusChar>)
    ensures
        matrix_matches(r@, flex_chars(*kb, comps@), corpus.chars@),
{
    let mut fingers: Vec<Vec<char>> = Vec::new();
    let mut t: usize = 0;
    while t < 10
        invariant
            t <= 10,
            fingers@.len() == t,
            forall|i: int| 0 <= i < t ==> (#[trigger] fingers@[i])@.len() == 0,
        decreases 10 - t,
    {
        fingers.push(Vec::new());
        t = t + 1;
    }
    let mut combos: Vec<char> = Vec::new();
    let mut t2: usize = 0;
    while t2 < kb.combos.len()
        invariant
            t2 <= kb.combos@.len(),
            combos@.len() == t2,
            forall|i: int| 0 <= i < t2 ==> combos@[i] == '\0',
        decreases kb.combos@.len() - t2,
    {
        combos.push('\0');
        t2 = t2 + 1;
    }
    proof {
        assert forall|i: int| 0 <= i < 10 implies finger_views(fingers)[i] == init_state(
            *kb,
        ).fingers[i] by {
            assert(fingers@[i]@ =~= Seq::<char>::empty());
        }
        assert(finger_views(fingers) =~= init_state(*kb).fingers);
        assert(combos@ =~= init_state(*kb).combos);
        assert(exec_state(fingers, combos) == init_state(*kb));
    }
    let mut ci: usize = 0;
    while ci < comps.len()
        invariant
            ci <= comps@.len(),
            fingers@.len() == 10,
            combos@.len() == kb.combos@.len(),
            exec_state(fingers, combos) == resolve_upto(*kb, comps@, ci as int),
        decreases comps@.len() - ci,
    {
        let comp = &comps[ci];
        if comp.finger.len() == 1 {
            let f = comp.finger[0];
            place_chars_exec(kb, &mut fingers, &mut combos, f, &comp.keys);
        } else if comp.keys.len() > 0 {
            place_multi_exec(kb, &mut fingers, &mut combos, &comp.finger, comp.keys[0]);
        }
        proof {
            assert(resolve_upto(*kb, comps@, ci as int + 1) == place_component(
                *kb,
                resolve_upto(*kb, comps@, ci as int),
                comps@[ci as int],
            ));
        }
        ci = ci + 1;
    }
    let ghost st = resolve_upto(*kb, comps@, comps@.len() as int);
    proof {
        lemma_resolve_upto_wf(*kb, comps@, comps@.len() as int);
    }
    let mut f: usize = 0;
    while f < 10
        invariant
            f <= 10,
            fingers@.len() == 10,
            combos@ == st.combos,
            state_wf(*kb, st),
            forall|f2: int|
                0 <= f2 < f ==> (#[trigger] fingers@[f2])@ == pad_seg(st.fingers[f2], kb.cap(f2)),
            forall|f2: int| f <= f2 < 10 ==> (#[trigger] fingers@[f2])@ == st.fingers[f2],
        decreases 10 - f,
    {
        let cap_f = kb.keys.map[f].len();
        proof {
            assert(kb.keys_seq()[f as int] == kb.finger_keys(f as int));
            assert(fingers@[f as int]@.take(st.fingers[f as int].len() as int) =~= st.fingers[f as int]);
        }
        while fingers[f].len() < cap_f
            invariant
                f < 10,
                fingers@.len() == 10,
                combos@ == st.combos,
                state_wf(*kb, st),
                cap_f == kb.cap(f as int),
                forall|f2: int|
                    0 <= f2 < f ==> (#[trigger] fingers@[f2])@ == pad_seg(
                        st.fingers[f2],
                        kb.cap(f2),
                    ),
                forall|f2: int| f < f2 < 10 ==> (#[trigger] fingers@[f2])@ == st.fingers[f2],
                st.fingers[f as int].len() <= fingers@[f as int]@.len() <= cap_f,
                fingers@[f as int]@.take(st.fingers[f as int].len() as int) == st.fingers[f as int],
                forall|u: int|
                    st.fingers[f as int].len() <= u < fingers@[f as int]@.len() ==> fingers@[f as int]@[u] == '\0',
            decreases cap_f - fingers@[f as int]@.len(),
        {
            fingers[f].push('\0');
            proof {
                assert(fingers@[f as int]@.take(st.fingers[f as int].len() as int) =~= st.fingers[f as int]);
            }
        }
        proof {
            assert(fingers@[f as int]@ =~= pad_seg(st.fingers[f as int], kb.cap(f as int)));
        }
        f = f + 1;
    }
    let ghost pf = padded_fingers(*kb, st);
    let ghost flex = flex_chars(*kb, comps@);
    proof {
        assert(finger_views(fingers) =~= pf);
        assert(flex == concat_upto(pf, 10) + st.combos);
    }
    let mut matrix: Vec<CorpusChar> = Vec::new();
    let mut f2: usize = 0;
    while f2 < 10
        invariant
            f2 <= 10,
            fingers@.len() == 10,
            combos@ == st.combos,
            finger_views(fingers) == pf,
            flex == concat_upto(pf, 10) + st.combos,
            matrix@.len() == concat_upto(pf, f2 as int).len(),
            forall|u: int|
                0 <= u < matrix@.len() ==> (#[trigger] matrix@[u]) as int == sym_of(
                    corpus.chars@,
                    flex[u],
                ),
        decreases 10 - f2,
    {
        let seg_len = fingers[f2].len();
        let mut j: usize = 0;
        while j < seg_len
            invariant
                f2 < 10,
                j <= seg_len,
                fingers@.len() == 10,
                finger_views(fingers) == pf,
                flex == concat_upto(pf, 10) + st.combos,
                seg_len == pf[f2 as int].len(),
                matrix@.len() == concat_upto(pf, f2 as int).len() + j,
                forall|u: int|
                    0 <= u < matrix@.len() ==> (#[trigger] matrix@[u]) as int == sym_of(
                        corpus.chars@,
                        flex[u],
                    ),
            decreases seg_len - j,
        {
            let c = fingers[f2][j];
            let s = corpus.corpus_char(c);
            proof {
                lemma_concat_upto_index(pf, 10, f2 as int, j as int);
            }
            matrix.push(s);
            j = j + 1;
        }
        proof {
            assert(concat_upto(pf, f2 as int + 1).len() == concat_upto(pf, f2 as int).len() + pf[f2 as int].len());
        }
        f2 = f2 + 1;
    }
    let mut k: usize = 0;
    while k < combos.len()
        invariant
            k <= combos@.len(),
            combos@ == st.combos,
            flex == concat_upto(pf, 10) + st.combos,
            matrix@.len() == concat_upto(pf, 10).len() + k,
            forall|u: int|
                0 <= u < matrix@.len() ==> (#[trigger] matrix@[u]) as int == sym_of(
                    corpus.chars@,
                    flex[u],
                ),
        decreases combos@.len() - k,
    {
        let s = corpus.corpus_char(combos[k]);
        matrix.push(s);
        k = k + 1;
    }
    matrix
}

} // verus!
