//! General queue used by the scheduler's lists, wait lists and partition
//! tables: a doubly-linked list of node ids with caller-chosen link-field
//! indices.
//!
//! Nodes are integer ids into whatever registry owns them; `prev_i` and
//! `next_i` record which pointer slots of an intrusive node this list
//! threads, so several lists can share one node type.

use vstd::prelude::*;

verus! {

/// Doubly-linked list of node ids; `items` is the traversal order, head
/// first.
pub struct LinkedList {
    pub prev_i: u8,
    pub next_i: u8,
    pub items: Vec<usize>,
}

impl LinkedList {
    /// A list threading pointer slots `prev_i` and `next_i`.
    pub fn new(prev_i: u8, next_i: u8) -> (r: LinkedList)
        ensures
            r.prev_i == prev_i,
            r.next_i == next_i,
            r.items@.len() == 0,
    {
        LinkedList { prev_i, next_i, items: Vec::new() }
    }

    /// Reset to empty, recording the link-field indices.
    pub fn init(&mut self, prev_i: u8, next_i: u8)
        ensures
            final(self).prev_i == prev_i,
            final(self).next_i == next_i,
            final(self).items@.len() == 0,
    {
        self.prev_i = prev_i;
        self.next_i = next_i;
        self.items.clear();
    }

    pub fn is_empty(&self) -> (r: bool)
        ensures
            r == (self.items@.len() == 0),
    {
        self.items.len() == 0
    }

    pub fn len(&self) -> (r: usize)
        ensures
            r == self.items@.len(),
    {
        self.items.len()
    }

    /// Whether `n` sits on the list.
    pub fn contains(&self, n: usize) -> (r: bool)
        ensures
            r == self.items@.contains(n),
    {
        let mut i: usize = 0;
        while i < self.items.len()
            invariant
                i <= self.items@.len(),
                forall|k: int| 0 <= k < i ==> self.items@[k] != n,
            decreases self.items@.len() - i,
        {
            if self.items[i] == n {
                return true;
            }
            i += 1;
        }
        false
    }

    /// Append `n` at the tail. A node already on the list is an internal
    /// error, excluded by precondition.
    pub fn append(&mut self, n: usize)
        requires
            !old(self).items@.contains(n),
        ensures
            final(self).items@ == old(self).items@.push(n),
            final(self).prev_i == old(self).prev_i,
            final(self).next_i == old(self).next_i,
    {
        self.items.push(n);
    }

    /// Put `n` at the head. A node already on the list is an internal
    /// error, excluded by precondition.
    pub fn push_head(&mut self, n: usize)
        requires
            !old(self).items@.contains(n),
        ensures
            final(self).items@ == seq![n].add(old(self).items@),
            final(self).prev_i == old(self).prev_i,
            final(self).next_i == old(self).next_i,
    {
        self.items.insert(0, n);
        proof {
            assert(self.items@ =~= seq![n].add(old(self).items@));
        }
    }

    /// Detach and return the head.
    pub fn pop_head(&mut self) -> (r: Option<usize>)
        ensures
            final(self).prev_i == old(self).prev_i,
            final(self).next_i == old(self).next_i,
            old(self).items@.len() == 0 ==> r is None && final(self).items@ == old(self).items@,
            old(self).items@.len() > 0 ==> r == Some(old(self).items@[0]) && final(self).items@
                == old(self).items@.drop_first(),
    {
        if self.items.len() == 0 {
            None
        } else {
            let n = self.items.remove(0);
            proof {
                assert(self.items@ =~= old(self).items@.drop_first());
            }
            Some(n)
        }
    }

    /// The head, left in place.
    pub fn first(&self) -> (r: Option<usize>)
        ensures
            self.items@.len() == 0 ==> r is None,
            self.items@.len() > 0 ==> r == Some(self.items@[0]),
    {
        if self.items.len() == 0 {
            None
        } else {
            Some(self.items[0])
        }
    }

    /// The node ids in traversal order.
    pub fn iter(&self) -> (r: Vec<usize>)
        ensures
            r@ == self.items@,
    {
        let mut out: Vec<usize> = Vec::new();
        let mut i: usize = 0;
        while i < self.items.len()
            invariant
                i <= self.items@.len(),
                out@ == self.items@.subrange(0, i as int),
            decreases self.items@.len() - i,
        {
            out.push(self.items[i]);
            proof {
                assert(out@ =~= self.items@.subrange(0, i + 1));
            }
            i += 1;
        }
        proof {
            assert(out@ =~= self.items@);
        }
        out
    }

    /// The raw ids in traversal order, the address-yielding walk.
    pub fn raw_iter(&self) -> (r: Vec<usize>)
        ensures
            r@ == self.items@,
    {
        self.iter()
    }
}

} // verus!
