//! A stack of integers held as a singly linked list.
use vstd::prelude::*;

verus! {

struct Node {
    val: i32,
    next: Option<Box<Node>>,
}

/// The values from `link` to the end of the list, nearest first.
spec fn link_view(link: Option<Box<Node>>) -> Seq<i32>
    decreases link,
{
    match link {
        Some(node) => seq![node.val] + link_view(node.next),
        None => Seq::empty(),
    }
}

/// A last-in, first-out stack of integers.
pub struct LinkedStack {
    head: Option<Box<Node>>,
}

impl View for LinkedStack {
    /// The values on the stack, top first.
    type V = Seq<i32>;

    closed spec fn view(&self) -> Seq<i32> {
        link_view(self.head)
    }
}

impl LinkedStack {
    /// An empty stack.
    pub fn new() -> (s: Self)
        ensures
            s@ == Seq::<i32>::empty(),
    {
        LinkedStack { head: None }
    }

    /// Put `val` on top.
    pub fn push(&mut self, val: i32)
        ensures
            final(self)@ == seq![val] + old(self)@,
    {
        let new_node = Box::new(Node { val, next: self.head.take() });
        self.head = Some(new_node);
    }

    /// Take the top value off, if there is one.
    pub fn pop(&mut self) -> (r: Option<i32>)
        ensures
            old(self)@.len() == 0 ==> r is None && final(self)@ == old(self)@,
            old(self)@.len() > 0 ==> r == Some(old(self)@[0]) && final(self)@
                == old(self)@.drop_first(),
    {
        match self.head.take() {
            Some(node) => {
                let node = *node;
                self.head = node.next;
                proof {
                    assert(old(self)@ =~= seq![node.val] + final(self)@);
                }
                Some(node.val)
            },
            None => None,
        }
    }
}

} // verus!
