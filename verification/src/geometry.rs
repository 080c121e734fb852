use vstd::prelude::*;

use crate::concat::concat_upto;
use crate::concat::lemma_concat_upto_index;
use crate::concat::lemma_concat_upto_len_monotone;
use crate::finger::Finger;
use crate::finger::FingerMap;

verus! {

/// A physical key site: column, row and layer.
#[derive(Copy, Clone, Debug, PartialEq, Eq, Hash, Structural)]
pub struct Pos {
    pub col: u8,
    pub row: u8,
    pub layer: u8,
}

/// A physical key: its position and the finger assigned to operate it.
#[derive(Copy, Clone, Debug, PartialEq, Eq, Structural)]
pub struct KeyCoord {
    pub pos: Pos,
    pub finger: Finger,
}

/// A chorded input: several keys whose simultaneous activation produces
/// one output slot distinct from any single key.
#[derive(Clone, Debug)]
pub struct Combo {
    pub coords: Vec<KeyCoord>,
}

/// Whether combo coordinate `a` addresses key position `b`: combos are
/// position-addressed by (row, col); the layer is not compared.
pub open spec fn pos_matches(a: Pos, b: Pos) -> bool {
    a.row == b.row && a.col == b.col
}

/// Index of the first key in `keys` (from `i` on) whose (row, col)
/// matches `p`, or -1 when there is none.
pub open spec fn find_pos(keys: Seq<KeyCoord>, p: Pos, i: int) -> int
    decreases keys.len() - i,
{
    if i < 0 || i >= keys.len() {
        -1
    } else if pos_matches(p, keys[i].pos) {
        i
    } else {
        find_pos(keys, p, i + 1)
    }
}

/// What `find_pos` returns: either -1 and nothing from `i` on matches,
/// or the first matching index at or after `i`.
pub proof fn lemma_find_pos_props(keys: Seq<KeyCoord>, p: Pos, i: int)
    requires
        0 <= i <= keys.len(),
    ensures
        ({
            let r = find_pos(keys, p, i);
            ||| (r == -1 && forall|t: int| i <= t < keys.len() ==> !pos_matches(p, keys[t].pos))
            ||| (i <= r < keys.len() && pos_matches(p, keys[r].pos) && forall|t: int|
                i <= t < r ==> !pos_matches(p, keys[t].pos))
        }),
    decreases keys.len() - i,
{
    if i < keys.len() && !pos_matches(p, keys[i].pos) {
        lemma_find_pos_props(keys, p, i + 1);
    }
}

/// Whether some coordinate of `c` is operated by finger `f`.
pub open spec fn combo_touches(c: Combo, f: Finger) -> bool {
    exists|i: int| 0 <= i < c.coords@.len() && c.coords@[i].finger == f
}

impl Combo {
    /// Whether some coordinate of this combo is operated by finger `f`.
    pub fn touches(&self, f: Finger) -> (r: bool)
        ensures
            r == combo_touches(*self, f),
    {
        let mut i: usize = 0;
        while i < self.coords.len()
            invariant
                i <= self.coords@.len(),
                forall|t: int| 0 <= t < i ==> self.coords@[t].finger != f,
            decreases self.coords@.len() - i,
        {
            if self.coords[i].finger == f {
                return true;
            }
            i = i + 1;
        }
        false
    }
}

/// The physical keyboard: each finger's ordered key list, the combo
/// list, and the derived flat positions of each combo's coordinates.
#[derive(Debug)]
pub struct Keyboard {
    pub keys: FingerMap<Vec<KeyCoord>>,
    pub combos: Vec<Combo>,
    pub combo_indexes: Vec<Vec<usize>>,
}

impl Keyboard {
    /// The key list of the finger at index `f` of the flattening order.
    pub open spec fn finger_keys(self, f: int) -> Seq<KeyCoord> {
        self.keys.map@[f]@
    }

    /// All ten key lists, in the fixed finger order.
    pub open spec fn keys_seq(self) -> Seq<Seq<KeyCoord>> {
        Seq::new(10, |f: int| self.finger_keys(f))
    }

    /// Physical key capacity of the finger at index `f`.
    pub open spec fn cap(self, f: int) -> nat {
        self.finger_keys(f).len()
    }

    /// Flat index at which finger `f`'s segment starts.
    pub open spec fn key_offset(self, f: int) -> nat {
        concat_upto(self.keys_seq(), f).len()
    }

    /// All physical keys, flattened in the fixed finger order.
    pub open spec fn flat_keys(self) -> Seq<KeyCoord> {
        concat_upto(self.keys_seq(), 10)
    }

    /// Total physical key count.
    pub open spec fn kb_size(self) -> nat {
        self.flat_keys().len()
    }

    /// Number of combos.
    pub open spec fn combo_count(self) -> nat {
        self.combos@.len()
    }

    /// Every combo has at least one coordinate. A combo that chords no
    /// keys is meaningless; projection reads each combo's first
    /// coordinate for its layer.
    pub open spec fn combos_nonempty(self) -> bool {
        forall|k: int| 0 <= k < self.combos@.len() ==> (#[trigger] self.combos@[k]).coords@.len() > 0
    }

    /// Every coordinate of every combo addresses some physical key.
    /// A keyboard description violating this is internally inconsistent.
    pub open spec fn spec_combos_resolvable(self) -> bool {
        forall|k: int, i: int|
            0 <= k < self.combos@.len() && 0 <= i < (#[trigger] self.combos@[k]).coords@.len()
                ==> find_pos(self.flat_keys(), (#[trigger] self.combos@[k].coords@[i]).pos, 0) >= 0
    }

    /// One derived index row is correct for one combo: entry `i` is the
    /// flat index of the first key matching coordinate `i` by (row, col).
    pub open spec fn combo_index_row_ok(self, c: Combo, row: Seq<usize>) -> bool {
        &&& row.len() == c.coords@.len()
        &&& forall|i: int|
            0 <= i < row.len() ==> (#[trigger] row[i]) as int == find_pos(
                self.flat_keys(),
                c.coords@[i].pos,
                0,
            )
    }

    /// The whole derived index table is correct for this keyboard.
    pub open spec fn combo_indexes_correct(self) -> bool {
        &&& self.combo_indexes@.len() == self.combos@.len()
        &&& forall|k: int|
            0 <= k < self.combos@.len() ==> self.combo_index_row_ok(
                self.combos@[k],
                (#[trigger] self.combo_indexes@[k])@,
            )
    }

    /// Total physical key count, or `None` when it does not fit a usize.
    pub fn total_keys(&self) -> (r: Option<usize>)
        ensures
            match r {
                Some(n) => n == self.kb_size(),
                None => self.kb_size() > usize::MAX,
            },
    {
        let mut acc: usize = 0;
        let mut f: usize = 0;
        while f < 10
            invariant
                f <= 10,
                acc == self.key_offset(f as int),
            decreases 10 - f,
        {
            let len = self.keys.map[f].len();
            proof {
                assert(self.keys_seq()[f as int] == self.finger_keys(f as int));
            }
            if usize::MAX - acc < len {
                proof {
                    lemma_concat_upto_len_monotone(self.keys_seq(), f as int + 1, 10);
                }
                return None;
            }
            acc = acc + len;
            f = f + 1;
        }
        Some(acc)
    }

    /// Whether some physical key matches `p` by (row, col).
    fn position_exists(&self, p: Pos) -> (r: bool)
        ensures
            r == (find_pos(self.flat_keys(), p, 0) >= 0),
    {
        let mut f: usize = 0;
        while f < 10
            invariant
                f <= 10,
                forall|f2: int, j2: int|
                    0 <= f2 < f && 0 <= j2 < self.finger_keys(f2).len() ==> !pos_matches(
                        p,
                        (#[trigger] self.finger_keys(f2)[j2]).pos,
                    ),
            decreases 10 - f,
        {
            let keys = &self.keys.map[f];
            let mut j: usize = 0;
            while j < keys.len()
                invariant
                    f < 10,
                    j <= keys@.len(),
                    keys@ == self.finger_keys(f as int),
                    forall|f2: int, j2: int|
                        0 <= f2 < f && 0 <= j2 < self.finger_keys(f2).len() ==> !pos_matches(
                            p,
                            (#[trigger] self.finger_keys(f2)[j2]).pos,
                        ),
                    forall|j2: int|
                        0 <= j2 < j ==> !pos_matches(p, (#[trigger] self.finger_keys(f as int)[j2]).pos),
                decreases keys@.len() - j,
            {
                let kc = &keys[j];
                if p.row == kc.pos.row && p.col == kc.pos.col {
                    proof {
                        lemma_concat_upto_index(self.keys_seq(), 10, f as int, j as int);
                        lemma_find_pos_props(self.flat_keys(), p, 0);
                    }
                    return true;
                }
                j = j + 1;
            }
            f = f + 1;
        }
        proof {
            lemma_find_pos_props(self.flat_keys(), p, 0);
            if find_pos(self.flat_keys(), p, 0) >= 0 {
                let r = find_pos(self.flat_keys(), p, 0);
                lemma_flat_decompose(*self, r);
            }
        }
        false
    }

    /// Whether every combo coordinate addresses some physical key, so
    /// that the derived combo indexes can be resolved.
    pub fn combos_resolvable(&self) -> (r: bool)
        ensures
            r == self.spec_combos_resolvable(),
    {
        let mut k: usize = 0;
        while k < self.combos.len()
            invariant
                k <= self.combos@.len(),
                forall|k2: int, i2: int|
                    0 <= k2 < k && 0 <= i2 < (#[trigger] self.combos@[k2]).coords@.len()
                        ==> find_pos(
                        self.flat_keys(),
                        (#[trigger] self.combos@[k2].coords@[i2]).pos,
                        0,
                    ) >= 0,
            decreases self.combos@.len() - k,
        {
            let coords = &self.combos[k].coords;
            let mut i: usize = 0;
            while i < coords.len()
                invariant
                    k < self.combos@.len(),
                    i <= coords@.len(),
                    coords@ == self.combos@[k as int].coords@,
                    forall|k2: int, i2: int|
                        0 <= k2 < k && 0 <= i2 < (#[trigger] self.combos@[k2]).coords@.len()
                            ==> find_pos(
                            self.flat_keys(),
                            (#[trigger] self.combos@[k2].coords@[i2]).pos,
                            0,
                        ) >= 0,
                    forall|i2: int|
                        0 <= i2 < i ==> find_pos(
                            self.flat_keys(),
                            (#[trigger] self.combos@[k as int].coords@[i2]).pos,
                            0,
                        ) >= 0,
                decreases coords@.len() - i,
            {
                if !self.position_exists(coords[i].pos) {
                    return false;
                }
                i = i + 1;
            }
            k = k + 1;
        }
        true
    }

    /// Flat index of the first physical key matching `p` by (row, col).
    fn find_position(&self, p: Pos) -> (r: Option<usize>)
        requires
            self.kb_size() <= usize::MAX,
        ensures
            match r {
                Some(t) => t as int == find_pos(self.flat_keys(), p, 0),
                None => find_pos(self.flat_keys(), p, 0) == -1,
            },
    {
        let mut idx: usize = 0;
        let mut f: usize = 0;
        while f < 10
            invariant
                f <= 10,
                idx == self.key_offset(f as int),
                self.kb_size() <= usize::MAX,
                forall|t: int| 0 <= t < idx ==> !pos_matches(p, (#[trigger] self.flat_keys()[t]).pos),
            decreases 10 - f,
        {
            let keys = &self.keys.map[f];
            let mut j: usize = 0;
            while j < keys.len()
                invariant
                    f < 10,
                    j <= keys@.len(),
                    keys@ == self.finger_keys(f as int),
                    idx == self.key_offset(f as int) + j,
                    self.kb_size() <= usize::MAX,
                    forall|t: int| 0 <= t < idx ==> !pos_matches(p, (#[trigger] self.flat_keys()[t]).pos),
                decreases keys@.len() - j,
            {
                proof {
                    lemma_concat_upto_index(self.keys_seq(), 10, f as int, j as int);
                }
                let kc = &keys[j];
                if p.row == kc.pos.row && p.col == kc.pos.col {
                    proof {
                        lemma_find_pos_props(self.flat_keys(), p, 0);
                    }
                    return Some(idx);
                }
                j = j + 1;
                idx = idx + 1;
            }
            proof {
                assert(self.keys_seq()[f as int] == self.finger_keys(f as int));
                assert(self.key_offset(f as int + 1) == self.key_offset(f as int) + self.cap(
                    f as int,
                ));
            }
            f = f + 1;
        }
        proof {
            lemma_find_pos_props(self.flat_keys(), p, 0);
        }
        None
    }

    /// Resolve, for each combo, the flat physical-key index of each of
    /// its coordinates, and store the table on the keyboard. A combo
    /// coordinate absent from the key list is a configuration-integrity
    /// violation, excluded by precondition; `combos_resolvable` checks it.
    pub fn process_combo_indexes(&mut self)
        requires
            old(self).spec_combos_resolvable(),
            old(self).kb_size() <= usize::MAX,
        ensures
            final(self).keys == old(self).keys,
            final(self).combos == old(self).combos,
            final(self).combo_indexes_correct(),
    {
        let mut indexes: Vec<Vec<usize>> = Vec::new();
        let mut k: usize = 0;
        while k < self.combos.len()
            invariant
                *self == *old(self),
                self.spec_combos_resolvable(),
                self.kb_size() <= usize::MAX,
                k <= self.combos@.len(),
                indexes@.len() == k,
                forall|k2: int|
                    0 <= k2 < k ==> self.combo_index_row_ok(
                        self.combos@[k2],
                        (#[trigger] indexes@[k2])@,
                    ),
            decreases self.combos@.len() - k,
        {
            let coords = &self.combos[k].coords;
            let mut row: Vec<usize> = Vec::new();
            let mut i: usize = 0;
            while i < coords.len()
                invariant
                    *self == *old(self),
                    self.spec_combos_resolvable(),
                    self.kb_size() <= usize::MAX,
                    k < self.combos@.len(),
                    coords@ == self.combos@[k as int].coords@,
                    i <= coords@.len(),
                    row@.len() == i,
                    forall|i2: int|
                        0 <= i2 < i ==> (#[trigger] row@[i2]) as int == find_pos(
                            self.flat_keys(),
                            self.combos@[k as int].coords@[i2].pos,
                            0,
                        ),
                decreases coords@.len() - i,
            {
                match self.find_position(coords[i].pos) {
                    Some(t) => {
                        row.push(t);
                    },
                    None => {
                        proof {
                            assert(false);
                        }
                    },
                }
                i = i + 1;
            }
            indexes.push(row);
            k = k + 1;
        }
        self.combo_indexes = indexes;
        proof {
            assert(self.keys_seq() =~= old(self).keys_seq());
        }
    }
}

/// Any flat key index falls inside some finger's segment; used to turn
/// per-finger facts into facts about the flattened key list.
pub proof fn lemma_flat_decompose(kb: Keyboard, t: int)
    requires
        0 <= t < kb.kb_size(),
    ensures
        exists|f: int, j: int|
            0 <= f < 10 && 0 <= j < kb.cap(f) && kb.flat_keys()[t] == kb.finger_keys(f)[j],
{
    lemma_flat_decompose_upto(kb, 10, t);
}

proof fn lemma_flat_decompose_upto(kb: Keyboard, n: int, t: int)
    requires
        0 <= n <= 10,
        0 <= t < concat_upto(kb.keys_seq(), n).len(),
    ensures
        exists|f: int, j: int|
            0 <= f < n && 0 <= j < kb.cap(f) && concat_upto(kb.keys_seq(), n)[t]
                == kb.finger_keys(f)[j],
    decreases n,
{
    let s = kb.keys_seq();
    if t < concat_upto(s, n - 1).len() {
        lemma_flat_decompose_upto(kb, n - 1, t);
        let (f, j): (int, int) = choose|f: int, j: int|
            0 <= f < n - 1 && 0 <= j < kb.cap(f) && concat_upto(s, n - 1)[t]
                == kb.finger_keys(f)[j];
        lemma_concat_upto_len_monotone(s, f, n - 1);
        assert(concat_upto(s, n)[t] == concat_upto(s, n - 1)[t]);
        assert(0 <= f < n && 0 <= j < kb.cap(f) && concat_upto(s, n)[t] == kb.finger_keys(f)[j]);
    } else {
        let j = t - concat_upto(s, n - 1).len();
        assert(concat_upto(s, n)[t] == s[n - 1][j]);
        assert(0 <= n - 1 < n && 0 <= j < kb.cap(n - 1) && concat_upto(s, n)[t]
            == kb.finger_keys(n - 1)[j]);
    }
}

} // verus!
