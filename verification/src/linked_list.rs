//! A singly linked list of machine integers with front insertion and
//! removal.

use vstd::prelude::*;

use crate::text::push_number;

verus! {

/// One cell of the list.
pub struct Node {
    value: u32,
    next: Option<Box<Node>>,
}

/// The values hanging off `n`, front first.
pub closed spec fn node_seq(n: Option<Box<Node>>) -> Seq<u32>
    decreases n,
{
    match n {
        None => Seq::empty(),
        Some(node) => seq![node.value] + node_seq(node.next),
    }
}

/// The values of `n` itself and its successors, front first.
pub closed spec fn node_view(n: Node) -> Seq<u32> {
    seq![n.value] + node_seq(n.next)
}

impl Node {
    /// A cell holding `value` in front of `next`.
    pub fn new(value: u32, next: Option<Box<Node>>) -> (r: Node)
        ensures
            node_view(r) == seq![value] + node_seq(next),
    {
        Node { value, next }
    }
}

/// A singly linked list of machine integers; its view is the sequence of
/// values, front first.
pub struct LinkedList {
    head: Option<Box<Node>>,
    size: usize,
}

impl View for LinkedList {
    type V = Seq<u32>;

    closed spec fn view(&self) -> Seq<u32> {
        node_seq(self.head)
    }
}

impl LinkedList {
    /// The recorded size agrees with the number of values.
    pub closed spec fn wf(self) -> bool {
        self.size == node_seq(self.head).len()
    }

    /// Creates the empty list.
    pub fn new() -> (r: LinkedList)
        ensures
            r.wf(),
            r@ == Seq::<u32>::empty(),
    {
        LinkedList { head: None, size: 0 }
    }

    /// The number of values held.
    pub fn get_size(&self) -> (r: usize)
        requires
            self.wf(),
        ensures
            r == self@.len(),
    {
        self.size
    }

    /// Whether the list holds nothing.
    pub fn empty(&self) -> (r: bool)
        requires
            self.wf(),
        ensures
            r == (self@.len() == 0),
    {
        self.size == 0
    }

    /// Inserts `val` at the front.
    pub fn push(&mut self, val: u32)
        requires
            old(self).wf(),
            old(self)@.len() < usize::MAX,
        ensures
            final(self).wf(),
            final(self)@ == seq![val] + old(self)@,
    {
        let new_node: Box<Node> = Box::new(Node::new(val, self.head.take()));
        self.head = Some(new_node);
        self.size = self.size + 1;
    }

    /// The values as text, each preceded by a space, front first.
    pub fn display(&self) -> (r: String) {
        let mut out = String::new();
        let mut cur: &Option<Box<Node>> = &self.head;
        while cur.is_some()
            decreases node_seq(*cur).len(),
        {
            match cur {
                Some(node) => {
                    out.append(" ");
                    push_number(&mut out, node.value as usize);
                    cur = &node.next;
                },
                None => {
                    proof {
                        assert(false);
                    }
                },
            }
        }
        out
    }

    /// Removes and returns the front value; nothing when the list is
    /// empty.
    pub fn pop(&mut self) -> (r: Option<u32>)
        requires
            old(self).wf(),
        ensures
            final(self).wf(),
            old(self)@.len() == 0 ==> r is None && final(self)@ == old(self)@,
            old(self)@.len() > 0 ==> r == Some(old(self)@[0]) && final(self)@ == old(
                self,
            )@.drop_first(),
    {
        match self.head.take() {
            None => None,
            Some(node) => {
                proof {
                    assert((seq![node.value] + node_seq(node.next)).drop_first() =~= node_seq(
                        node.next,
                    ));
                }
                self.head = node.next;
                self.size = self.size - 1;
                Some(node.value)
            },
        }
    }
}

} // verus!
