//! A cursor over any vector of items.
use vstd::prelude::*;

verus! {

/// A cursor over a vector of items that can move forward with `next` and back with
/// `step_back`. The position keeps advancing past the end, so that every `next` can be undone
/// by one `step_back`.
pub struct StepbackIterator<T: Clone> {
    items: Vec<T>,
    pos: usize,
}

impl<T: Clone> StepbackIterator<T> {
    /// The items walked over.
    pub closed spec fn items(&self) -> Seq<T> {
        self.items@
    }

    /// The current position; it may lie past the end of the items.
    pub closed spec fn pos(&self) -> nat {
        self.pos as nat
    }

    /// Starts at the first item.
    pub fn new(items: Vec<T>) -> (r: Self)
        ensures
            r.items() == items@,
            r.pos() == 0,
    {
        StepbackIterator { items, pos: 0 }
    }

    /// Returns the item at the current position, or `None` past the end, and advances.
    pub fn next(&mut self) -> (r: Option<T>)
        requires
            old(self).pos() < old(self).items().len() || old(self).pos() < usize::MAX,
        ensures
            final(self).items() == old(self).items(),
            final(self).pos() == old(self).pos() + 1,
            old(self).pos() < old(self).items().len() ==> r.is_some() && cloned(
                old(self).items()[old(self).pos() as int],
                r.unwrap(),
            ),
            old(self).pos() >= old(self).items().len() ==> r.is_none(),
    {
        if self.pos >= self.items.len() {
            self.pos = self.pos + 1;
            None
        } else {
            let item = self.items[self.pos].clone();
            self.pos = self.pos + 1;
            Some(item)
        }
    }

    /// Moves one position back; does nothing at the start.
    pub fn step_back(&mut self)
        ensures
            final(self).items() == old(self).items(),
            old(self).pos() == 0 ==> final(self).pos() == 0,
            old(self).pos() > 0 ==> final(self).pos() == old(self).pos() - 1,
    {
        if self.pos > 0 {
            self.pos = self.pos - 1;
        }
    }

    /// Returns the item at the current position without moving.
    pub fn peek(&self) -> (r: Option<T>)
        ensures
            self.pos() < self.items().len() ==> r.is_some() && cloned(
                self.items()[self.pos() as int],
                r.unwrap(),
            ),
            self.pos() >= self.items().len() ==> r.is_none(),
    {
        if self.pos >= self.items.len() {
            None
        } else {
            Some(self.items[self.pos].clone())
        }
    }

    /// Whether the position is at or past the end.
    pub fn is_exhausted(&self) -> (r: bool)
        ensures
            r == (self.pos() >= self.items().len()),
    {
        self.pos >= self.items.len()
    }
}

} // verus!
