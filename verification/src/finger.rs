use vstd::prelude::*;

verus! {

/// The side of the keyboard a finger belongs to.
#[derive(Copy, Clone, Debug, PartialEq, Eq, Structural)]
pub enum Hand {
    Left,
    Right,
}

/// One of the ten fingers. The declaration order (left pinky through
/// left thumb, then right thumb through right pinky) is the fixed
/// flattening order used to linearize per-finger key lists everywhere.
#[derive(Copy, Clone, Debug, PartialEq, Eq, Structural)]
pub enum Finger {
    LP,
    LR,
    LM,
    LI,
    LT,
    RT,
    RI,
    RM,
    RR,
    RP,
}

/// The kind of a finger, independent of hand.
#[derive(Copy, Clone, Debug, PartialEq, Eq, Structural)]
pub enum FingerKind {
    Pinky,
    Ring,
    Middle,
    Index,
    Thumb,
}

impl Finger {
    /// Position of this finger in the fixed flattening order.
    pub open spec fn as_int(self) -> int {
        match self {
            Finger::LP => 0,
            Finger::LR => 1,
            Finger::LM => 2,
            Finger::LI => 3,
            Finger::LT => 4,
            Finger::RT => 5,
            Finger::RI => 6,
            Finger::RM => 7,
            Finger::RR => 8,
            Finger::RP => 9,
        }
    }

    /// Index of this finger in the fixed flattening order.
    pub fn as_usize(self) -> (r: usize)
        ensures
            r == self.as_int(),
            r < 10,
    {
        match self {
            Finger::LP => 0,
            Finger::LR => 1,
            Finger::LM => 2,
            Finger::LI => 3,
            Finger::LT => 4,
            Finger::RT => 5,
            Finger::RI => 6,
            Finger::RM => 7,
            Finger::RR => 8,
            Finger::RP => 9,
        }
    }

    /// The finger at a given index of the flattening order.
    pub fn from_usize(i: usize) -> (r: Finger)
        requires
            i < 10,
        ensures
            r.as_int() == i,
    {
        match i {
            0 => Finger::LP,
            1 => Finger::LR,
            2 => Finger::LM,
            3 => Finger::LI,
            4 => Finger::LT,
            5 => Finger::RT,
            6 => Finger::RI,
            7 => Finger::RM,
            8 => Finger::RR,
            _ => Finger::RP,
        }
    }

    /// Which hand this finger belongs to.
    pub fn hand(self) -> (r: Hand)
        ensures
            r == self.spec_hand(),
    {
        match self {
            Finger::LP | Finger::LR | Finger::LM | Finger::LI | Finger::LT => Hand::Left,
            Finger::RP | Finger::RM | Finger::RR | Finger::RI | Finger::RT => Hand::Right,
        }
    }

    pub open spec fn spec_hand(self) -> Hand {
        match self {
            Finger::LP | Finger::LR | Finger::LM | Finger::LI | Finger::LT => Hand::Left,
            Finger::RP | Finger::RM | Finger::RR | Finger::RI | Finger::RT => Hand::Right,
        }
    }

    /// Which kind of finger this is.
    pub fn kind(self) -> (r: FingerKind)
        ensures
            r == self.spec_kind(),
    {
        match self {
            Finger::LT | Finger::RT => FingerKind::Thumb,
            Finger::LI | Finger::RI => FingerKind::Index,
            Finger::LM | Finger::RM => FingerKind::Middle,
            Finger::LR | Finger::RR => FingerKind::Ring,
            Finger::LP | Finger::RP => FingerKind::Pinky,
        }
    }

    pub open spec fn spec_kind(self) -> FingerKind {
        match self {
            Finger::LT | Finger::RT => FingerKind::Thumb,
            Finger::LI | Finger::RI => FingerKind::Index,
            Finger::LM | Finger::RM => FingerKind::Middle,
            Finger::LR | Finger::RR => FingerKind::Ring,
            Finger::LP | Finger::RP => FingerKind::Pinky,
        }
    }
}

/// A value for each of the ten fingers, indexed in flattening order.
#[derive(Debug)]
pub struct FingerMap<T> {
    pub map: [T; 10],
}

impl<T> FingerMap<T> {
    /// The entry for one finger.
    pub fn get(&self, finger: Finger) -> (r: &T)
        ensures
            *r == self.map@[finger.as_int()],
    {
        &self.map[finger.as_usize()]
    }
}

} // verus!
