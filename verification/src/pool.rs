//! A pool of items that are free for reuse, such as the indices of the
//! slots of a buffer.

use vstd::prelude::*;

verus! {

/// The items that are free, in the order in which they were given back. The
/// item that was given back last is handed out first.
#[derive(Debug)]
pub struct Pool<Item> {
    free: Vec<Item>,
}

impl<Item> View for Pool<Item> {
    type V = Seq<Item>;

    closed spec fn view(&self) -> Seq<Item> {
        self.free@
    }
}

impl<Item> Pool<Item> {
    /// A pool without items.
    pub fn new() -> (r: Self)
        ensures
            r@ == Seq::<Item>::empty(),
    {
        Pool { free: Vec::new() }
    }

    /// Hands out the item that was given back last, if the pool has one.
    pub fn pop(&mut self) -> (r: Option<Item>)
        ensures
            old(self)@.len() == 0 ==> r is None && final(self)@ == old(self)@,
            old(self)@.len() > 0 ==> r == Some(old(self)@.last()) && final(self)@ == old(self)@.drop_last(),
    {
        self.free.pop()
    }

    /// Gives an item back to the pool.
    pub fn push(&mut self, item: Item)
        ensures
            final(self)@ == old(self)@.push(item),
    {
        self.free.push(item)
    }

    /// The number of items that are free.
    pub fn len(&self) -> (r: usize)
        ensures
            r == self@.len(),
    {
        self.free.len()
    }
}

/// A value together with the item that it holds from a pool. The item goes
/// back to the pool when the value is released.
#[derive(Debug)]
pub struct PoolGuard<Item: Copy, T> {
    pub elem: T,
    pub item: Item,
}

impl<Item: Copy, T> PoolGuard<Item, T> {
    /// Guards `elem`, which holds `item`.
    pub fn new(elem: T, item: Item) -> (r: Self)
        ensures
            r.elem == elem,
            r.item == item,
    {
        PoolGuard { elem, item }
    }

    /// The guarded value.
    pub fn deref(&self) -> (r: &T)
        ensures
            *r == self.elem,
    {
        &self.elem
    }

    /// Ends the guard: the item goes back to the pool that it came from, and
    /// the value is handed out.
    pub fn release(self, pool: &mut Pool<Item>) -> (r: T)
        ensures
            r == self.elem,
            final(pool)@ == old(pool)@.push(self.item),
    {
        pool.push(self.item);
        self.elem
    }
}

} // verus!
