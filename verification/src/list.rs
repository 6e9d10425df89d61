//! Plain doubly-linked queue of node ids.
//!
//! Nodes are named by stable integer ids instead of addresses; the list
//! keeps their visiting order, and head and tail sentinels stay implicit.

use vstd::prelude::*;

verus! {

/// Link cell of one node.
#[derive(Clone, Copy, PartialEq, Eq, Structural, Debug)]
pub struct Node {
    pub prev: usize,
    pub next: usize,
}

impl Node {
    /// A detached node.
    pub fn new() -> (r: Node)
        ensures
            r.prev == 0,
            r.next == 0,
    {
        Node { prev: 0, next: 0 }
    }
}

/// Queue of node ids in list order, head first.
pub struct List {
    pub items: Vec<usize>,
}

impl List {
    pub fn new() -> (r: List)
        ensures
            r.items@.len() == 0,
    {
        List { items: Vec::new() }
    }

    /// Empty the list, as right after construction.
    pub fn init(&mut self)
        ensures
            final(self).items@.len() == 0,
    {
        self.items.clear();
    }

    pub fn is_empty(&self) -> (r: bool)
        ensures
            r == (self.items@.len() == 0),
    {
        self.items.len() == 0
    }

    pub fn len(&self) -> (r: usize)
        ensures
            r == self.items@.len(),
    {
        self.items.len()
    }

    /// Put `n` at the head.
    pub fn prepend(&mut self, n: usize)
        ensures
            final(self).items@ == seq![n].add(old(self).items@),
    {
        self.items.insert(0, n);
        proof {
            assert(self.items@ =~= seq![n].add(old(self).items@));
        }
    }

    /// Put `n` at the tail.
    pub fn append(&mut self, n: usize)
        ensures
            final(self).items@ == old(self).items@.push(n),
    {
        self.items.push(n);
    }

    /// Detach and return the head.
    pub fn pop_head(&mut self) -> (r: Option<usize>)
        ensures
            old(self).items@.len() == 0 ==> r is None && final(self).items@ == old(self).items@,
            old(self).items@.len() > 0 ==> r == Some(old(self).items@[0]) && final(self).items@
                == old(self).items@.drop_first(),
    {
        if self.items.len() == 0 {
            None
        } else {
            let n = self.items.remove(0);
            proof {
                assert(self.items@ =~= old(self).items@.drop_first());
            }
            Some(n)
        }
    }

    /// Whether `n` sits on the list.
    pub fn contains(&self, n: usize) -> (r: bool)
        ensures
            r == self.items@.contains(n),
    {
        let mut i: usize = 0;
        while i < self.items.len()
            invariant
                i <= self.items@.len(),
                forall|k: int| 0 <= k < i ==> self.items@[k] != n,
            decreases self.items@.len() - i,
        {
            if self.items[i] == n {
                return true;
            }
            i += 1;
        }
        false
    }

    /// The ids in visiting order, head first.
    pub fn traverse(&self) -> (r: Vec<usize>)
        ensures
            r@ == self.items@,
    {
        let mut out: Vec<usize> = Vec::new();
        let mut i: usize = 0;
        while i < self.items.len()
            invariant
                i <= self.items@.len(),
                out@ == self.items@.subrange(0, i as int),
            decreases self.items@.len() - i,
        {
            out.push(self.items[i]);
            proof {
                assert(out@ =~= self.items@.subrange(0, i + 1));
            }
            i += 1;
        }
        proof {
            assert(out@ =~= self.items@);
        }
        out
    }
}

} // verus!
