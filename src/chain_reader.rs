//! A cursor over a sequence of items.
use vstd::prelude::*;

verus! {

/// A cursor over `items`; `pos` may run past the end, where nothing is current.
pub struct ChainReader<T> {
    pos: usize,
    items: Vec<T>,
}

impl<T> ChainReader<T> {
    pub closed spec fn spec_pos(&self) -> nat {
        self.pos as nat
    }

    pub closed spec fn spec_items(&self) -> Seq<T> {
        self.items@
    }

    pub fn new(items: Vec<T>) -> (r: Self)
        ensures
            r.spec_pos() == 0,
            r.spec_items() == items@,
    {
        ChainReader { pos: 0, items }
    }

    /// Moves one item on; the position saturates at the end of the items.
    pub fn advance(&mut self)
        ensures
            final(self).spec_items() == old(self).spec_items(),
            final(self).spec_pos() == if old(self).spec_pos() < old(self).spec_items().len() {
                (old(self).spec_pos() + 1) as nat
            } else {
                old(self).spec_pos()
            },
    {
        if self.pos < self.items.len() {
            self.pos = self.pos + 1;
        }
    }

    /// The current item, if the cursor is not past the end.
    pub fn get_current(&self) -> (r: Option<&T>)
        ensures
            r matches Some(t) <==> 0 <= self.spec_pos() < self.spec_items().len(),
            r matches Some(t) ==> *t == self.spec_items()[self.spec_pos() as int],
    {
        if self.pos < self.items.len() {
            Some(&self.items[self.pos])
        } else {
            None
        }
    }

    /// The current item, moving past it.
    pub fn eat(&mut self) -> (r: Option<&T>)
        ensures
            final(self).spec_items() == old(self).spec_items(),
            r matches Some(t) <==> old(self).spec_pos() < old(self).spec_items().len(),
            r matches Some(t) ==> *t == old(self).spec_items()[old(self).spec_pos() as int]
                && final(self).spec_pos() == old(self).spec_pos() + 1,
            r is None ==> final(self).spec_pos() == old(self).spec_pos(),
    {
        if self.pos < self.items.len() {
            self.pos = self.pos + 1;
            Some(&self.items[self.pos - 1])
        } else {
            None
        }
    }

    pub fn get_pos(&self) -> (r: usize)
        ensures
            r == self.spec_pos(),
    {
        self.pos
    }

    /// All the items.
    pub fn items(&self) -> (r: &Vec<T>)
        ensures
            r@ == self.spec_items(),
    {
        &self.items
    }

    /// The number of items.
    pub fn len(&self) -> (r: usize)
        ensures
            r == self.spec_items().len(),
    {
        self.items.len()
    }
}

} // verus!
