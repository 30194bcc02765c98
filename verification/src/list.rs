//! A singly linked list of 32-bit integers with a cached length.

use vstd::prelude::*;

verus! {

struct Node {
    value: i32,
    next: Option<Box<Node>>,
}

/// The values hanging off a chain of nodes, front first.
spec fn seq_of(node: Option<Box<Node>>) -> Seq<i32>
    decreases node,
{
    match node {
        None => Seq::<i32>::empty(),
        Some(boxed) => seq![boxed.value] + seq_of(boxed.next),
    }
}

impl Node {
    fn new(value: i32, next: Option<Box<Node>>) -> (r: Node)
        ensures
            seq_of(Some(Box::new(r))) == seq![value] + seq_of(next),
    {
        let r = Node { value, next };
        proof {
            assert(seq_of(Some(Box::new(r))) =~= seq![value] + seq_of(r.next));
        }
        r
    }
}

/// The list: a chain of nodes and the number of values on it.
pub struct LinkedList {
    head: Option<Box<Node>>,
    size: usize,
}

impl View for LinkedList {
    type V = Seq<i32>;

    closed spec fn view(&self) -> Seq<i32> {
        seq_of(self.head)
    }
}

impl LinkedList {
    /// The cached length counts exactly the values on the chain.
    pub closed spec fn wf(&self) -> bool {
        self.size == self@.len()
    }

    pub fn new() -> (r: LinkedList)
        ensures
            r.wf(),
            r@ =~= Seq::<i32>::empty(),
    {
        LinkedList { head: None, size: 0 }
    }

    pub fn push_front(&mut self, value: i32)
        requires
            old(self).wf(),
            old(self)@.len() < usize::MAX,
        ensures
            final(self).wf(),
            final(self)@ == seq![value] + old(self)@,
    {
        self.head = Some(Box::new(Node::new(value, self.head.take())));
        self.size = self.size + 1;
    }

    pub fn pop_front(&mut self) -> (r: Option<i32>)
        requires
            old(self).wf(),
        ensures
            final(self).wf(),
            match r {
                None => old(self)@.len() == 0 && final(self)@ == old(self)@,
                Some(v) => old(self)@.len() > 0 && v == old(self)@[0] && final(self)@ == old(
                    self,
                )@.drop_first(),
            },
    {
        match self.head.take() {
            None => None,
            Some(node) => {
                proof {
                    assert(old(self)@ =~= seq![node.value] + seq_of(node.next));
                    assert(seq_of(node.next) =~= old(self)@.drop_first());
                }
                self.head = node.next;
                self.size = self.size - 1;
                Some(node.value)
            },
        }
    }

    pub fn size(&self) -> (r: usize)
        requires
            self.wf(),
        ensures
            r == self@.len(),
    {
        self.size
    }

    pub fn empty(&self) -> (r: bool)
        requires
            self.wf(),
        ensures
            r == (self@.len() == 0),
    {
        self.size == 0
    }
}

impl Default for LinkedList {
    fn default() -> (r: LinkedList)
        ensures
            r.wf(),
            r@ =~= Seq::<i32>::empty(),
    {
        LinkedList::new()
    }
}

} // verus!
