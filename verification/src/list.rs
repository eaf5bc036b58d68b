//! A singly linked list of owned nodes. It sits beside the buffer as an
//! unrelated utility: single-threaded, no sharing, plain `Box` links.

use vstd::prelude::*;
use vstd::string::StringExecFns;

use crate::decimal::dec_rep;
use crate::decimal::decimal_string;

verus! {

/// One list node: a value and an optional link to the next node.
pub struct Node<T> {
    pub value: T,
    pub next: Option<Box<Node<T>>>,
}

/// The values stored from `node` onward, front first.
pub open spec fn node_seq<T>(node: Node<T>) -> Seq<T>
    decreases node,
{
    seq![node.value] + opt_seq(node.next)
}

/// The values stored from an optional node onward.
pub open spec fn opt_seq<T>(node: Option<Box<Node<T>>>) -> Seq<T>
    decreases node,
{
    match node {
        None => Seq::empty(),
        Some(next) => node_seq(*next),
    }
}

/// The message rejecting an insertion index `n` that lies outside the list.
pub open spec fn out_of_bounds_msg(n: nat) -> Seq<char> {
    "Index out of bounds: "@ + dec_rep(n)
}

impl<T> Node<T> {
    /// A fresh node holding `value`, linked to nothing.
    pub fn new(value: T) -> (node: Node<T>)
        ensures
            node.value == value,
            node.next is None,
            node_seq(node) == seq![value],
    {
        let node = Node { value, next: None };
        proof {
            assert(node_seq(node) =~= seq![value]);
        }
        node
    }

    /// Append `value` behind the last node reachable from this one.
    fn push_tail(&mut self, value: T)
        ensures
            node_seq(*final(self)) == node_seq(*old(self)).push(value),
        decreases *old(self),
    {
        match self.next.take() {
            None => {
                self.next = Some(Box::new(Node { value, next: None }));
                proof {
                    assert(node_seq(*self.next->0) =~= seq![value]);
                    assert(node_seq(*self) =~= node_seq(*old(self)).push(value));
                }
            },
            Some(mut boxed) => {
                (&mut *boxed).push_tail(value);
                self.next = Some(boxed);
                proof {
                    assert(node_seq(*self) =~= node_seq(*old(self)).push(value));
                }
            },
        }
    }

    /// Splice a node holding `value` in behind position `idx` of the values
    /// reachable from this node.
    fn insert_behind(&mut self, idx: usize, value: T)
        requires
            idx < node_seq(*old(self)).len(),
        ensures
            node_seq(*final(self)) == node_seq(*old(self)).insert(idx + 1, value),
        decreases *old(self),
    {
        if idx == 0 {
            let rest = self.next.take();
            self.next = Some(Box::new(Node { value, next: rest }));
            proof {
                assert(node_seq(*self.next->0) =~= seq![value] + opt_seq(old(self).next));
                assert(node_seq(*self) =~= node_seq(*old(self)).insert(1, value));
            }
        } else {
            let mut boxed = self.next.take().unwrap();
            (&mut *boxed).insert_behind(idx - 1, value);
            self.next = Some(boxed);
            proof {
                assert(node_seq(*self) =~= node_seq(*old(self)).insert(idx + 1, value));
            }
        }
    }

    /// The last value reachable from this node.
    fn last(&self) -> (r: &T)
        ensures
            *r == node_seq(*self).last(),
        decreases *self,
    {
        match &self.next {
            None => &self.value,
            Some(boxed) => boxed.last(),
        }
    }
}

/// A singly linked list that owns its nodes and tracks its length.
pub struct LinkedList<T> {
    pub head: Option<Box<Node<T>>>,
    pub length: usize,
}

impl<T> View for LinkedList<T> {
    type V = Seq<T>;

    /// The stored values, front first.
    open spec fn view(&self) -> Seq<T> {
        opt_seq(self.head)
    }
}

impl<T> LinkedList<T> {
    /// The stored length agrees with the number of linked nodes.
    pub open spec fn wf(&self) -> bool {
        self.length == self@.len()
    }

    /// An empty list.
    pub fn new() -> (l: LinkedList<T>)
        ensures
            l.wf(),
            l@ == Seq::<T>::empty(),
    {
        LinkedList { head: None, length: 0 }
    }

    /// Append `value` at the back.
    pub fn push_back(&mut self, value: T)
        requires
            old(self).wf(),
            old(self)@.len() < usize::MAX,
        ensures
            final(self).wf(),
            final(self)@ == old(self)@.push(value),
    {
        match self.head.take() {
            None => {
                self.head = Some(Box::new(Node { value, next: None }));
                proof {
                    assert(self@ =~= old(self)@.push(value));
                }
            },
            Some(mut boxed) => {
                (&mut *boxed).push_tail(value);
                self.head = Some(boxed);
            },
        }
        self.length = self.length + 1;
    }

    /// Insert `value` directly behind position `n`. An index outside the
    /// list is rejected with a message naming it, and the list is unchanged.
    pub fn insert_after(&mut self, n: usize, value: T) -> (r: Result<(), String>)
        requires
            old(self).wf(),
            old(self)@.len() < usize::MAX,
        ensures
            final(self).wf(),
            n < old(self)@.len() ==> {
                &&& r is Ok
                &&& final(self)@ == old(self)@.insert(n + 1, value)
            },
            n >= old(self)@.len() ==> {
                &&& *final(self) == *old(self)
                &&& r is Err
                &&& r->Err_0@ == out_of_bounds_msg(n as nat)
            },
    {
        if n >= self.length {
            let mut message = String::from_str("Index out of bounds: ");
            message.append(decimal_string(n).as_str());
            return Err(message);
        }
        let mut boxed = self.head.take().unwrap();
        (&mut *boxed).insert_behind(n, value);
        self.head = Some(boxed);
        self.length = self.length + 1;
        Ok(())
    }

    /// The back value, if the list is not empty.
    pub fn back(&self) -> (r: Option<&T>)
        ensures
            self@.len() == 0 ==> r is None,
            self@.len() > 0 ==> {
                &&& r is Some
                &&& *r->0 == self@.last()
            },
    {
        match &self.head {
            None => None,
            Some(boxed) => Some(boxed.last()),
        }
    }

    /// Iterate the stored values front to back, consuming the list.
    pub fn into_iter(self) -> (it: LinkedListIterator<T>)
        ensures
            it@ == self@,
    {
        LinkedListIterator { current: self.head }
    }
}

impl<T> Default for LinkedList<T> {
    /// An empty list.
    fn default() -> (l: Self)
        ensures
            l.wf(),
            l@ == Seq::<T>::empty(),
    {
        LinkedList::new()
    }
}

/// A consuming iterator over a list's values, front first.
pub struct LinkedListIterator<T> {
    current: Option<Box<Node<T>>>,
}

impl<T> View for LinkedListIterator<T> {
    type V = Seq<T>;

    /// The values not yet handed out, front first.
    closed spec fn view(&self) -> Seq<T> {
        opt_seq(self.current)
    }
}

impl<T> LinkedListIterator<T> {
    /// Hand out the front of the remaining values, if any remain.
    pub fn next(&mut self) -> (r: Option<T>)
        ensures
            old(self)@.len() == 0 ==> {
                &&& r is None
                &&& *final(self) == *old(self)
            },
            old(self)@.len() > 0 ==> {
                &&& r == Some::<T>(old(self)@[0])
                &&& final(self)@ == old(self)@.drop_first()
            },
    {
        match self.current.take() {
            None => None,
            Some(boxed) => {
                let node = *boxed;
                self.current = node.next;
                proof {
                    assert(self@ =~= old(self)@.drop_first());
                }
                Some(node.value)
            },
        }
    }
}

} // verus!

