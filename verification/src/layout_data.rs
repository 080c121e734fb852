use vstd::prelude::*;

use crate::finger::Finger;

verus! {

/// One unit of author intent: an ordered list of characters to place
/// on one of several candidate fingers, on a given layer.
#[derive(Clone, Debug)]
pub struct KeyComponent {
    /// Candidate fingers for the keys, in priority order. One entry is
    /// unambiguous; several mean "try these fingers in order".
    pub finger: Vec<Finger>,
    /// Layer that the keys occupy.
    pub layer: u8,
    /// The characters to place, in order.
    pub keys: Vec<char>,
}

/// The two author-facing layout encodings.
#[derive(Clone, Debug)]
pub enum LayoutFormat {
    /// An ordered slot list: entry `i` belongs to the `i`-th physical
    /// key in the fixed finger order; `None` is an empty slot. Combo
    /// slots are never addressed by this encoding.
    Fixed(Vec<Option<char>>),
    /// An ordered component list, resolved by the assignment algorithm.
    Flexible(Vec<KeyComponent>),
}

/// An authored layout: its metadata and its encoding. A value type,
/// regenerated wholesale by projection rather than mutated.
#[derive(Clone, Debug)]
pub struct LayoutData {
    pub name: String,
    pub authors: Vec<String>,
    pub note: Option<String>,
    pub format: LayoutFormat,
}

impl LayoutData {
    /// A layout holding the given encoding and empty metadata.
    pub fn from_format(format: LayoutFormat) -> (r: LayoutData)
        ensures
            r.name@ == Seq::<char>::empty(),
            r.authors@ == Seq::<String>::empty(),
            r.note is None,
            r.format == format,
    {
        LayoutData { name: String::new(), authors: Vec::new(), note: None, format }
    }

    /// The same layout under a new name.
    pub fn name(self, name: String) -> (r: LayoutData)
        ensures
            r.name == name,
            r.authors == self.authors,
            r.note == self.note,
            r.format == self.format,
    {
        Self { name, ..self }
    }

    /// The same layout with new authors.
    pub fn authors(self, authors: Vec<String>) -> (r: LayoutData)
        ensures
            r.name == self.name,
            r.authors == authors,
            r.note == self.note,
            r.format == self.format,
    {
        Self { authors, ..self }
    }

    /// The same layout with a note attached.
    pub fn note(self, note: String) -> (r: LayoutData)
        ensures
            r.name == self.name,
            r.authors == self.authors,
            r.note == Some(note),
            r.format == self.format,
    {
        Self { note: Some(note), ..self }
    }
}

} // verus!
