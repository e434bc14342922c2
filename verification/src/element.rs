//! Element identity: element ids and the counter that hands them out, and
//! the element kinds.

use vstd::prelude::*;

verus! {

/// Unique element identifier.
#[derive(Debug, Clone, Copy, PartialEq, Eq, Hash, Structural)]
pub struct ElementId(u64);

impl ElementId {
    /// The raw value.
    pub closed spec fn value(self) -> u64 {
        self.0
    }

    /// A new element id: the next value of the counter, which advances.
    pub fn new(counter: &mut IdCounter) -> (id: Self)
        ensures
            id.value() == old(counter).next,
            final(counter).next == (if old(counter).next == u64::MAX {
                0
            } else {
                (old(counter).next + 1) as u64
            }),
    {
        ElementId(counter.fetch_next())
    }

    /// The id of the root element: 0.
    pub fn root() -> (id: Self)
        ensures
            id.value() == 0,
    {
        ElementId(0)
    }

    /// The id with the given raw value.
    pub fn from_raw(raw: u64) -> (id: Self)
        ensures
            id.value() == raw,
    {
        ElementId(raw)
    }

    /// The raw value.
    pub fn as_u64(&self) -> (r: u64)
        ensures
            r == self.value(),
    {
        self.0
    }
}

/// The counter that element ids are drawn from: it starts at 1 (0 is the
/// root's) and counts up, wrapping around at the end of the range.
#[derive(Debug, Clone, Copy, PartialEq, Eq, Structural)]
pub struct IdCounter {
    pub next: u64,
}

impl IdCounter {
    /// A counter whose first id is 1.
    pub fn new() -> (c: Self)
        ensures
            c.next == 1,
    {
        IdCounter { next: 1 }
    }

    /// Hands out the next value and advances (wrapping).
    pub fn fetch_next(&mut self) -> (v: u64)
        ensures
            v == old(self).next,
            final(self).next == (if v == u64::MAX { 0 } else { (v + 1) as u64 }),
    {
        let v = self.next;
        self.next = if v == u64::MAX {
            0
        } else {
            v + 1
        };
        v
    }

}

/// Element type.
#[derive(Debug, Clone, Copy, PartialEq, Eq, Structural)]
pub enum ElementType {
    /// Root element
    Root,
    /// Box container element
    Box,
    /// Text element
    Text,
    /// Virtual text (nested inside Text)
    VirtualText,
}

impl ElementType {
    /// Whether this is a text element (plain or nested).
    pub fn is_text(&self) -> (r: bool)
        ensures
            r == (*self == ElementType::Text || *self == ElementType::VirtualText),
    {
        matches!(self, ElementType::Text | ElementType::VirtualText)
    }

    /// Whether this is a box element.
    pub fn is_box(&self) -> (r: bool)
        ensures
            r == (*self == ElementType::Box),
    {
        matches!(self, ElementType::Box)
    }

    /// Whether this is the root element.
    pub fn is_root(&self) -> (r: bool)
        ensures
            r == (*self == ElementType::Root),
    {
        matches!(self, ElementType::Root)
    }
}

} // verus!
