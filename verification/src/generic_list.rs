//! A generic singly linked list with front insertion and removal,
//! structural equality, and extraction into a vector.

use vstd::prelude::*;

use vstd::std_specs::cmp::PartialEqSpec;
use vstd::std_specs::cmp::PartialEqSpecImpl;

verus! {

/// One cell of the list.
pub struct Node<T> {
    value: T,
    next: Option<Box<Node<T>>>,
}

/// The values hanging off `n`, front first.
pub closed spec fn node_seq<T>(n: Option<Box<Node<T>>>) -> Seq<T>
    decreases n,
{
    match n {
        None => Seq::empty(),
        Some(node) => seq![node.value] + node_seq(node.next),
    }
}

/// The values of `n` itself and its successors, front first.
pub closed spec fn node_view<T>(n: Node<T>) -> Seq<T> {
    seq![n.value] + node_seq(n.next)
}

impl<T> Node<T> {
    /// A cell holding `value` in front of `next`.
    pub fn new(value: T, next: Option<Box<Node<T>>>) -> (r: Node<T>)
        ensures
            node_view(r) == seq![value] + node_seq(next),
    {
        Node { value, next }
    }
}

/// A generic singly linked list; its view is the sequence of values, front
/// first.
pub struct LinkedList<T> {
    head: Option<Box<Node<T>>>,
    size: usize,
}

impl<T> View for LinkedList<T> {
    type V = Seq<T>;

    closed spec fn view(&self) -> Seq<T> {
        node_seq(self.head)
    }
}

impl<T> LinkedList<T> {
    /// The recorded size agrees with the number of values.
    pub closed spec fn wf(self) -> bool {
        self.size == node_seq(self.head).len()
    }

    /// Creates the empty list.
    pub fn new() -> (r: LinkedList<T>)
        ensures
            r.wf(),
            r@ == Seq::<T>::empty(),
    {
        LinkedList { head: None, size: 0 }
    }

    /// The number of values held.
    pub fn get_size(&self) -> (r: usize)
        requires
            self.wf(),
        ensures
            r == self@.len(),
    {
        self.size
    }

    /// Whether the list holds nothing.
    pub fn empty(&self) -> (r: bool)
        requires
            self.wf(),
        ensures
            r == (self@.len() == 0),
    {
        self.size == 0
    }

    /// Inserts `val` at the front.
    pub fn push(&mut self, val: T)
        requires
            old(self).wf(),
            old(self)@.len() < usize::MAX,
        ensures
            final(self).wf(),
            final(self)@ == seq![val] + old(self)@,
    {
        let new_node: Box<Node<T>> = Box::new(Node::new(val, self.head.take()));
        self.head = Some(new_node);
        self.size = self.size + 1;
    }

    /// Removes and returns the front value; nothing when the list is
    /// empty.
    pub fn pop(&mut self) -> (r: Option<T>)
        requires
            old(self).wf(),
        ensures
            final(self).wf(),
            old(self)@.len() == 0 ==> r is None && final(self)@ == old(self)@,
            old(self)@.len() > 0 ==> ((r matches Some(v) && v == old(self)@[0]) && final(self)@
                == old(self)@.drop_first()),
    {
        match self.head.take() {
            None => None,
            Some(node) => {
                proof {
                    assert((seq![node.value] + node_seq(node.next)).drop_first() =~= node_seq(
                        node.next,
                    ));
                }
                let inner = *node;
                self.head = inner.next;
                self.size = self.size - 1;
                Some(inner.value)
            },
        }
    }
}

impl<T: Copy> LinkedList<T> {
    /// The values as a vector, front first.
    pub fn to_vec(&self) -> (r: Vec<T>)
        requires
            self.wf(),
        ensures
            r@ == self@,
    {
        let mut out: Vec<T> = Vec::new();
        let mut cur: &Option<Box<Node<T>>> = &self.head;
        while cur.is_some()
            invariant
                self@ == out@ + node_seq(*cur),
            decreases node_seq(*cur).len(),
        {
            match cur {
                Some(node) => {
                    out.push(node.value);
                    cur = &node.next;
                },
                None => {
                    proof {
                        assert(false);
                    }
                },
            }
        }
        proof {
            assert(out@ + node_seq(*cur) =~= out@);
        }
        out
    }
}

/// A deep copy of the chain from `n` on, value for value.
fn clone_nodes<T: Copy>(n: &Option<Box<Node<T>>>) -> (r: Option<Box<Node<T>>>)
    ensures
        node_seq(r) == node_seq(*n),
    decreases node_seq(*n).len(),
{
    match n {
        None => None,
        Some(node) => {
            let next = clone_nodes(&node.next);
            Some(Box::new(Node { value: node.value, next }))
        },
    }
}

impl<T: Copy> Clone for LinkedList<T> {
    /// A deep copy holding the same values in the same order.
    fn clone(&self) -> (r: Self)
        ensures
            r@ == self@,
            self.wf() ==> r.wf(),
    {
        LinkedList { head: clone_nodes(&self.head), size: self.size }
    }
}

/// Two value sequences agree pointwise under the element type's equality
/// specification.
pub open spec fn seqs_eq_by<T: PartialEqSpec>(a: Seq<T>, b: Seq<T>) -> bool {
    a.len() == b.len() && forall|i: int| 0 <= i < a.len() ==> #[trigger] a[i].eq_spec(&b[i])
}

/// The common prefixes of two value sequences agree pointwise under the
/// element type's equality specification.
pub open spec fn prefixes_eq_by<T: PartialEqSpec>(a: Seq<T>, b: Seq<T>) -> bool {
    forall|i: int| 0 <= i < a.len() && i < b.len() ==> #[trigger] a[i].eq_spec(&b[i])
}

/// What list equality compares: the recorded sizes, and the values up to
/// the shorter chain. On well-formed lists this is exactly elementwise
/// equality of the value sequences (`lemma_list_eq_spec_is_seq_eq`).
pub closed spec fn list_eq_spec<T: PartialEq>(a: LinkedList<T>, b: LinkedList<T>) -> bool {
    a.size == b.size && prefixes_eq_by(node_seq(a.head), node_seq(b.head))
}

/// On well-formed lists, list equality means the value sequences agree
/// elementwise.
pub proof fn lemma_list_eq_spec_is_seq_eq<T: PartialEq>(a: LinkedList<T>, b: LinkedList<T>)
    requires
        a.wf(),
        b.wf(),
    ensures
        list_eq_spec(a, b) == seqs_eq_by(a@, b@),
{
}

impl<T: PartialEq> PartialEq for LinkedList<T> {
    /// Two lists are equal when they record the same size and their values
    /// are pairwise equal.
    fn eq(&self, other: &Self) -> (r: bool) {
        if self.size != other.size {
            return false;
        }
        let mut p: &Option<Box<Node<T>>> = &self.head;
        let mut q: &Option<Box<Node<T>>> = &other.head;
        let ghost mut done: int = 0;
        while p.is_some() && q.is_some()
            invariant
                0 <= done <= self@.len(),
                done <= other@.len(),
                node_seq(*p) =~= self@.skip(done),
                node_seq(*q) =~= other@.skip(done),
                self.size == other.size,
                T::obeys_eq_spec() ==> forall|i: int|
                    0 <= i < done ==> #[trigger] self@[i].eq_spec(&other@[i]),
            decreases node_seq(*p).len(),
        {
            match (p, q) {
                (Some(pn), Some(qn)) => {
                    proof {
                        assert(node_seq(*p) == seq![pn.value] + node_seq(pn.next));
                        assert(node_seq(*q) == seq![qn.value] + node_seq(qn.next));
                        assert(node_seq(*q).len() > 0);
                        assert(self@.skip(done)[0] == self@[done]);
                        assert(other@.skip(done)[0] == other@[done]);
                        assert(self@[done] == pn.value);
                        assert(other@[done] == qn.value);
                    }
                    if !(pn.value == qn.value) {
                        return false;
                    }
                    proof {
                        assert(self@.skip(done).drop_first() =~= self@.skip(done + 1));
                        assert(other@.skip(done).drop_first() =~= other@.skip(done + 1));
                        assert(node_seq(pn.next) =~= self@.skip(done + 1));
                        assert(node_seq(qn.next) =~= other@.skip(done + 1));
                        done = done + 1;
                    }
                    p = &pn.next;
                    q = &qn.next;
                },
                _ => {
                    proof {
                        assert(false);
                    }
                },
            }
        }
        proof {
            if T::obeys_eq_spec() {
                assert(done == self@.len() || done == other@.len());
            }
        }
        true
    }
}

impl<T: PartialEq> PartialEqSpecImpl for LinkedList<T> {
    open spec fn obeys_eq_spec() -> bool {
        T::obeys_eq_spec()
    }

    open spec fn eq_spec(&self, other: &Self) -> bool {
        list_eq_spec(*self, *other)
    }
}

} // verus!
