use vstd::prelude::*;

use crate::concat::lemma_concat_upto_len_monotone;
use crate::corpus::char_of;
use crate::corpus::Corpus;
use crate::corpus::CorpusChar;
use crate::corpus::Layout;
use crate::finger::Finger;
use crate::geometry::KeyCoord;
use crate::geometry::Keyboard;
use crate::layout_data::KeyComponent;
use crate::layout_data::LayoutData;
use crate::layout_data::LayoutFormat;

verus! {

/// A decoded sequence with every empty sentinel removed, order kept.
pub open spec fn nonsentinel(s: Seq<char>) -> Seq<char>
    decreases s.len(),
{
    if s.len() == 0 {
        Seq::empty()
    } else if s.last() == '\0' {
        nonsentinel(s.drop_last())
    } else {
        nonsentinel(s.drop_last()).push(s.last())
    }
}

/// The decoded characters of finger `f`'s matrix segment, in slot
/// order.
pub open spec fn decoded_seg(kb: Keyboard, m: Seq<CorpusChar>, chars: Seq<char>, f: int) -> Seq<
    char,
> {
    Seq::new(kb.cap(f), |j: int| char_of(chars, m[kb.key_offset(f) + j] as int))
}

/// What one projected component holds: its candidate fingers, layer
/// and characters, at the spec level.
pub struct CompSpec {
    pub fingers: Seq<Finger>,
    pub layer: u8,
    pub keys: Seq<char>,
}

/// Whether an emitted component holds exactly what the spec-level
/// record says.
pub open spec fn comp_matches(c: KeyComponent, s: CompSpec) -> bool {
    &&& c.finger@ == s.fingers
    &&& c.layer == s.layer
    &&& c.keys@ == s.keys
}

/// Whether an emitted component list matches a spec-level record list,
/// entry by entry.
pub open spec fn comps_match(comps: Seq<KeyComponent>, specs: Seq<CompSpec>) -> bool {
    &&& comps.len() == specs.len()
    &&& forall|t: int| 0 <= t < comps.len() ==> comp_matches(#[trigger] comps[t], specs[t])
}

/// Components projected from the first `f` finger segments: one per
/// finger holding at least one non-sentinel character, carrying that
/// finger (read off its first key), the layer of its first key, and
/// the decoded characters in slot order.
pub open spec fn proj_fingers(kb: Keyboard, m: Seq<CorpusChar>, chars: Seq<char>, f: int) -> Seq<
    CompSpec,
>
    decreases f,
{
    if f <= 0 {
        Seq::empty()
    } else {
        let prev = proj_fingers(kb, m, chars, f - 1);
        let d = nonsentinel(decoded_seg(kb, m, chars, f - 1));
        if d.len() > 0 {
            prev.push(
                CompSpec {
                    fingers: seq![kb.finger_keys(f - 1)[0].finger],
                    layer: kb.finger_keys(f - 1)[0].pos.layer,
                    keys: d,
                },
            )
        } else {
            prev
        }
    }
}

/// Components projected from the first `k` combo slots: one per combo
/// whose slot holds a real character, carrying the fingers its
/// coordinates touch, the layer of its first coordinate, and that one
/// character.
pub open spec fn proj_combos(kb: Keyboard, m: Seq<CorpusChar>, chars: Seq<char>, k: int) -> Seq<
    CompSpec,
>
    decreases k,
{
    if k <= 0 {
        Seq::empty()
    } else {
        let prev = proj_combos(kb, m, chars, k - 1);
        let c = char_of(chars, m[kb.kb_size() + (k - 1)] as int);
        if c == '\0' {
            prev
        } else {
            let combo = kb.combos@[k - 1];
            prev.push(
                CompSpec {
                    fingers: combo.coords@.map_values(|kc: KeyCoord| kc.finger),
                    layer: combo.coords@[0].pos.layer,
                    keys: seq![c],
                },
            )
        }
    }
}

/// Everything the Flexible projection of a matrix emits: the finger
/// components in the fixed finger order, then the combo components in
/// declaration order.
pub open spec fn flex_projection(kb: Keyboard, m: Seq<CorpusChar>, chars: Seq<char>) -> Seq<
    CompSpec,
> {
    proj_fingers(kb, m, chars, 10) + proj_combos(kb, m, chars, kb.combo_count() as int)
}

/// The Fixed projection of a matrix: every slot decoded through the
/// interner, the sentinel becoming `None`.
pub open spec fn fixed_projection(m: Seq<CorpusChar>, chars: Seq<char>) -> Seq<Option<char>> {
    Seq::new(
        m.len(),
        |i: int|
            if m[i] == 0 {
                None
            } else {
                Some(char_of(chars, m[i] as int))
            },
    )
}

impl LayoutData {
    /// Project a resolved matrix back to a Fixed encoding: a pure
    /// slot-by-slot readout, always successful.
    pub fn fixed_from_layout(layout: &Layout, corpus: &Corpus) -> (r: LayoutData)
        ensures
            r.name@ == Seq::<char>::empty(),
            r.authors@.len() == 0,
            r.note is None,
            r.format matches LayoutFormat::Fixed(slots) && slots@ == fixed_projection(
                layout.matrix@,
                corpus.chars@,
            ),
    {
        let mut slots: Vec<Option<char>> = Vec::new();
        let mut i: usize = 0;
        while i < layout.matrix.len()
            invariant
                i <= layout.matrix@.len(),
                slots@.len() == i,
                forall|t: int|
                    0 <= t < i ==> slots@[t] == fixed_projection(layout.matrix@, corpus.chars@)[t],
            decreases layout.matrix@.len() - i,
        {
            let sym = layout.matrix[i];
            if sym == 0 {
                slots.push(None);
            } else {
                slots.push(Some(corpus.uncorpus_unigram(sym)));
            }
            i = i + 1;
        }
        proof {
            assert(slots@ =~= fixed_projection(layout.matrix@, corpus.chars@));
        }
        LayoutData::from_format(LayoutFormat::Fixed(slots))
    }

    /// Project a resolved matrix back to a Flexible encoding: walk the
    /// finger segments in the fixed finger order collecting each
    /// finger's real characters into one component, then emit one
    /// component per claimed combo slot. A pure readout of a matrix of
    /// the geometry's exact shape.
    pub fn flexible_from_keyboard_layout(kb: &Keyboard, layout: &Layout, corpus: &Corpus) -> (r:
        LayoutData)
        requires
            layout.matrix@.len() == kb.kb_size() + kb.combo_count(),
            kb.combos_nonempty(),
        ensures
            r.name@ == Seq::<char>::empty(),
            r.authors@.len() == 0,
            r.note is None,
            r.format matches LayoutFormat::Flexible(comps) && comps_match(
                comps@,
                flex_projection(*kb, layout.matrix@, corpus.chars@),
            ),
    {
        let ghost m = layout.matrix@;
        let ghost chars = corpus.chars@;
        let n = layout.matrix.len();
        let mut components: Vec<KeyComponent> = Vec::new();
        let mut i: usize = 0;
        let mut f: usize = 0;
        while f < 10
            invariant
                f <= 10,
                i == kb.key_offset(f as int),
                m == layout.matrix@,
                chars == corpus.chars@,
                layout.matrix@.len() == kb.kb_size() + kb.combo_count(),
                layout.matrix@.len() <= usize::MAX,
                comps_match(components@, proj_fingers(*kb, m, chars, f as int)),
            decreases 10 - f,
        {
            let finger_keys = &kb.keys.map[f];
            proof {
                assert(kb.keys_seq()[f as int] == kb.finger_keys(f as int));
                lemma_concat_upto_len_monotone(kb.keys_seq(), f as int + 1, 10);
                assert(decoded_seg(*kb, m, chars, f as int).take(0) =~= Seq::<char>::empty());
            }
            let ghost seg = decoded_seg(*kb, m, chars, f as int);
            let mut collected: Vec<char> = Vec::new();
            let mut j: usize = 0;
            while j < finger_keys.len()
                invariant
                    f < 10,
                    j <= finger_keys@.len(),
                    finger_keys@ == kb.finger_keys(f as int),
                    i == kb.key_offset(f as int) + j,
                    m == layout.matrix@,
                    chars == corpus.chars@,
                    layout.matrix@.len() == kb.kb_size() + kb.combo_count(),
                    layout.matrix@.len() <= usize::MAX,
                    kb.key_offset(f as int) + kb.cap(f as int) <= kb.kb_size(),
                    seg == decoded_seg(*kb, m, chars, f as int),
                    collected@ == nonsentinel(seg.take(j as int)),
                decreases finger_keys@.len() - j,
            {
                let key = corpus.uncorpus_unigram(layout.matrix[i]);
                proof {
                    assert(seg.take(j as int + 1).drop_last() =~= seg.take(j as int));
                    assert(seg.take(j as int + 1).last() == seg[j as int]);
                    assert(seg[j as int] == char_of(chars, m[kb.key_offset(f as int) + j] as int));
                }
                if key != '\0' {
                    collected.push(key);
                }
                i = i + 1;
                j = j + 1;
            }
            proof {
                assert(seg.take(kb.cap(f as int) as int) =~= seg);
            }
            if collected.len() > 0 {
                let mut fv: Vec<Finger> = Vec::new();
                fv.push(finger_keys[0].finger);
                let layer = finger_keys[0].pos.layer;
                let comp = KeyComponent { finger: fv, layer, keys: collected };
                proof {
                    assert(comp.finger@ =~= seq![kb.finger_keys(f as int)[0].finger]);
                }
                components.push(comp);
            }
            f = f + 1;
        }
        proof {
            assert(i == kb.kb_size());
        }
        let mut k: usize = 0;
        while k < kb.combos.len()
            invariant
                k <= kb.combos@.len(),
                i == kb.kb_size() + k,
                m == layout.matrix@,
                chars == corpus.chars@,
                layout.matrix@.len() == kb.kb_size() + kb.combo_count(),
                layout.matrix@.len() <= usize::MAX,
                kb.combos_nonempty(),
                comps_match(
                    components@,
                    proj_fingers(*kb, m, chars, 10) + proj_combos(*kb, m, chars, k as int),
                ),
            decreases kb.combos@.len() - k,
        {
            let combo = &kb.combos[k];
            let layer = combo.coords[0].pos.layer;
            let key = corpus.uncorpus_unigram(layout.matrix[i]);
            i = i + 1;
            if key != '\0' {
                let mut fv: Vec<Finger> = Vec::new();
                let mut t: usize = 0;
                while t < combo.coords.len()
                    invariant
                        t <= combo.coords@.len(),
                        fv@.len() == t,
                        forall|u: int| 0 <= u < t ==> fv@[u] == combo.coords@[u].finger,
                    decreases combo.coords@.len() - t,
                {
                    fv.push(combo.coords[t].finger);
                    t = t + 1;
                }
                let mut kv: Vec<char> = Vec::new();
                kv.push(key);
                let comp = KeyComponent { finger: fv, layer, keys: kv };
                proof {
                    assert(comp.finger@ =~= kb.combos@[k as int].coords@.map_values(
                        |kc: KeyCoord| kc.finger,
                    ));
                    assert(comp.keys@ =~= seq![char_of(chars, m[kb.kb_size() + k] as int)]);
                }
                components.push(comp);
            }
            k = k + 1;
        }
        LayoutData::from_format(LayoutFormat::Flexible(components))
    }
}

} // verus!
