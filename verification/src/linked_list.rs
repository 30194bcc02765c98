//! A generic singly linked list with a cached length and two iterators:
//! one that consumes the list and one that clones values out of a borrowed
//! list.

use vstd::prelude::*;

use vstd::pervasive::cloned;

verus! {

pub struct Node<T> {
    value: T,
    next: Option<Box<Node<T>>>,
}

/// The values hanging off a chain of nodes, front first.
pub closed spec fn seq_of<T>(node: Option<Box<Node<T>>>) -> Seq<T>
    decreases node,
{
    match node {
        None => Seq::<T>::empty(),
        Some(boxed) => seq![boxed.value] + seq_of(boxed.next),
    }
}

impl<T> Node<T> {
    pub fn new(value: T, next: Option<Box<Node<T>>>) -> (r: Node<T>)
        ensures
            seq_of(Some(Box::new(r))) == seq![value] + seq_of(next),
    {
        let r = Node { value, next };
        proof {
            assert(seq_of(Some(Box::new(r))) =~= seq![value] + seq_of(r.next));
        }
        r
    }
}

/// The list: a chain of nodes and the number of values on it.
pub struct LinkedList<T> {
    head: Option<Box<Node<T>>>,
    size: usize,
}

impl<T> View for LinkedList<T> {
    type V = Seq<T>;

    closed spec fn view(&self) -> Seq<T> {
        seq_of(self.head)
    }
}

impl<T> LinkedList<T> {
    /// The cached length counts exactly the values on the chain.
    pub closed spec fn wf(&self) -> bool {
        self.size == self@.len()
    }

    pub fn new() -> (r: LinkedList<T>)
        ensures
            r.wf(),
            r@ =~= Seq::<T>::empty(),
    {
        LinkedList { head: None, size: 0 }
    }

    pub fn get_size(&self) -> (r: usize)
        requires
            self.wf(),
        ensures
            r == self@.len(),
    {
        self.size
    }

    pub fn is_empty(&self) -> (r: bool)
        requires
            self.wf(),
        ensures
            r == (self@.len() == 0),
    {
        self.size == 0
    }

    pub fn push_front(&mut self, value: T)
        requires
            old(self).wf(),
            old(self)@.len() < usize::MAX,
        ensures
            final(self).wf(),
            final(self)@ == seq![value] + old(self)@,
    {
        let new_node: Box<Node<T>> = Box::new(Node::new(value, self.head.take()));
        self.head = Some(new_node);
        self.size = self.size + 1;
    }

    pub fn pop_front(&mut self) -> (r: Option<T>)
        requires
            old(self).wf(),
        ensures
            final(self).wf(),
            match r {
                None => old(self)@.len() == 0 && final(self)@ == old(self)@,
                Some(v) => old(self)@.len() > 0 && v == old(self)@[0] && final(self)@ == old(
                    self,
                )@.drop_first(),
            },
    {
        match self.head.take() {
            None => None,
            Some(node) => {
                proof {
                    assert(old(self)@ =~= seq![node.value] + seq_of(node.next));
                    assert(seq_of(node.next) =~= old(self)@.drop_first());
                }
                self.head = node.next;
                self.size = self.size - 1;
                Some(node.value)
            },
        }
    }

    /// An iterator that consumes the list and hands its values out front
    /// first.
    pub fn into_iter(self) -> (r: LinkedListIter<T>)
        ensures
            r@ == self@,
    {
        LinkedListIter { cur: self.head }
    }

    /// An iterator over a borrowed list, cloning each value out.
    pub fn iter(&self) -> (r: RefLinkedListIter<'_, T>)
        ensures
            r@ == self@,
    {
        RefLinkedListIter { cur: &self.head }
    }
}

/// A fresh deep copy of a chain, cloning each value.
fn clone_chain<T: Clone>(node: &Option<Box<Node<T>>>) -> (r: Option<Box<Node<T>>>)
    ensures
        seq_of(r).len() == seq_of(*node).len(),
        forall|i: int|
            0 <= i < seq_of(r).len() ==> cloned(seq_of(*node)[i], #[trigger] seq_of(r)[i]),
    decreases *node,
{
    match node {
        None => None,
        Some(boxed) => {
            let value = boxed.value.clone();
            let rest = clone_chain(&boxed.next);
            let r = Some(Box::new(Node { value, next: rest }));
            proof {
                assert(seq_of(r) =~= seq![value] + seq_of(rest));
                assert(seq_of(*node) =~= seq![boxed.value] + seq_of(boxed.next));
                assert forall|i: int| 0 <= i < seq_of(r).len() implies cloned(
                    seq_of(*node)[i],
                    #[trigger] seq_of(r)[i],
                ) by {
                    if i > 0 {
                        assert(seq_of(r)[i] == seq_of(rest)[i - 1]);
                        assert(seq_of(*node)[i] == seq_of(boxed.next)[i - 1]);
                    }
                }
            }
            r
        },
    }
}

impl<T: Clone> Clone for LinkedList<T> {
    /// A deep copy of the whole chain.  Each copied value is a clone of the
    /// original at the same position; what a clone of a value is stays as
    /// open as the value type's own `clone` leaves it.
    fn clone(&self) -> (r: Self)
        ensures
            r@.len() == self@.len(),
            forall|i: int| 0 <= i < r@.len() ==> cloned(self@[i], #[trigger] r@[i]),
            self.wf() ==> r.wf(),
    {
        let head = clone_chain(&self.head);
        LinkedList { head, size: self.size }
    }
}

impl<T> Default for LinkedList<T> {
    fn default() -> (r: LinkedList<T>)
        ensures
            r.wf(),
            r@ =~= Seq::<T>::empty(),
    {
        LinkedList::new()
    }
}

/// Iterator that owns the remaining chain.
pub struct LinkedListIter<T> {
    cur: Option<Box<Node<T>>>,
}

impl<T> View for LinkedListIter<T> {
    type V = Seq<T>;

    closed spec fn view(&self) -> Seq<T> {
        seq_of(self.cur)
    }
}

impl<T> LinkedListIter<T> {
    /// The next value of the list, or `None` when the chain is exhausted.
    pub fn next(&mut self) -> (r: Option<T>)
        ensures
            match r {
                None => old(self)@.len() == 0 && final(self)@ == old(self)@,
                Some(v) => old(self)@.len() > 0 && v == old(self)@[0] && final(self)@ == old(
                    self,
                )@.drop_first(),
            },
    {
        match self.cur.take() {
            None => None,
            Some(node) => {
                proof {
                    assert(old(self)@ =~= seq![node.value] + seq_of(node.next));
                    assert(seq_of(node.next) =~= old(self)@.drop_first());
                }
                self.cur = node.next;
                Some(node.value)
            },
        }
    }
}

/// Iterator over a borrowed chain, cloning each value.
pub struct RefLinkedListIter<'a, T> {
    cur: &'a Option<Box<Node<T>>>,
}

impl<'a, T> View for RefLinkedListIter<'a, T> {
    type V = Seq<T>;

    closed spec fn view(&self) -> Seq<T> {
        seq_of(*self.cur)
    }
}

impl<'a, T: Clone> RefLinkedListIter<'a, T> {
    /// A clone of the next value of the list, or `None` when the chain is
    /// exhausted.
    pub fn next(&mut self) -> (r: Option<T>)
        ensures
            match r {
                None => old(self)@.len() == 0 && final(self)@ == old(self)@,
                Some(v) => old(self)@.len() > 0 && cloned(old(self)@[0], v) && final(self)@
                    == old(self)@.drop_first(),
            },
    {
        match self.cur {
            None => None,
            Some(node) => {
                proof {
                    assert(old(self)@ =~= seq![node.value] + seq_of(node.next));
                    assert(seq_of(node.next) =~= old(self)@.drop_first());
                }
                self.cur = &node.next;
                Some(node.value.clone())
            },
        }
    }
}

} // verus!
