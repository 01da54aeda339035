//! A stack of integers whose nodes also hold a link to the node before them.
//! Each node owns both neighbours, so a node cannot be linked from two sides at
//! once: the stack can be emptied but has no way to grow.
use vstd::prelude::*;

verus! {

struct Node {
    val: i32,
    next: Option<Box<Node>>,
    prev: Option<Box<Node>>,
}

/// The values from `link` to the end of the list along `next`, nearest first.
spec fn link_view(link: Option<Box<Node>>) -> Seq<i32>
    decreases link,
{
    match link {
        Some(node) => seq![node.val] + link_view(node.next),
        None => Seq::empty(),
    }
}

/// A last-in, first-out stack with links in both directions.
pub struct LinkedStack {
    head: Option<Box<Node>>,
    tail: Option<Box<Node>>,
}

impl View for LinkedStack {
    /// The values on the stack, top first.
    type V = Seq<i32>;

    closed spec fn view(&self) -> Seq<i32> {
        link_view(self.head)
    }
}

impl LinkedStack {
    /// An empty stack.
    pub fn new() -> (s: Self)
        ensures
            s@ == Seq::<i32>::empty(),
    {
        LinkedStack { head: None, tail: None }
    }

    /// Take the top value off, if there is one; the new top loses its link back.
    pub fn pop(&mut self) -> (r: Option<i32>)
        ensures
            old(self)@.len() == 0 ==> r is None && final(self)@ == old(self)@,
            old(self)@.len() > 0 ==> r == Some(old(self)@[0]) && final(self)@
                == old(self)@.drop_first(),
    {
        match self.head.take() {
            Some(node) => {
                let node = *node;
                let val = node.val;
                let mut rest = node.next;
                let ghost before = rest;
                match &mut rest {
                    Some(next) => {
                        next.prev = None;
                    },
                    None => {},
                }
                assert(link_view(rest) == link_view(before)) by {
                    if rest is Some {
                        assert(rest->0.val == before->0.val);
                        assert(rest->0.next == before->0.next);
                    }
                }
                self.head = rest;
                proof {
                    assert(old(self)@ =~= seq![val] + final(self)@);
                }
                Some(val)
            },
            None => None,
        }
    }
}

} // verus!
