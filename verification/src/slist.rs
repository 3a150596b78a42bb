//! A persistent stack with structural sharing: pushing gives a new stack
//! that points at the old one, and no stack is ever changed in place.

use std::rc::Rc;
use vstd::prelude::*;

verus! {

/// One cell of a stack: its value and the stack below it.
pub struct Node<T> {
    next: Option<Rc<Node<T>>>,
    value: T,
}

/// A stack that is never empty. Its view lists the values from the one
/// pushed first to the one pushed last.
pub struct SList<T> {
    head: Rc<Node<T>>,
}

/// Walks a stack from the value pushed last to the one pushed first.
pub struct SListIter<T> {
    next: Option<Rc<Node<T>>>,
}

impl<T> Node<T> {
    /// The values from this cell downwards: last pushed first.
    pub closed spec fn downwards(&self) -> Seq<T>
        decreases self,
    {
        match self.next {
            Some(below) => seq![self.value] + below.downwards(),
            None => seq![self.value],
        }
    }

    proof fn lemma_downwards_nonempty(&self)
        ensures
            self.downwards().len() > 0,
            self.downwards()[0] == self.value,
    {
    }
}

/// The values that a walk from `next` still has to give.
pub closed spec fn rest_of<T>(next: Option<Rc<Node<T>>>) -> Seq<T> {
    match next {
        Some(node) => node.downwards(),
        None => Seq::empty(),
    }
}

/// `std::rc::Rc::clone`: a second handle on the same cell. The contract
/// says that the new handle holds the value the old one holds, which is
/// what sharing a reference-counted pointer means.
#[verifier::external_body]
fn share<T>(cell: &Rc<Node<T>>) -> (same: Rc<Node<T>>)
    ensures
        same == *cell,
{
    cell.clone()
}

impl<T> View for SList<T> {
    type V = Seq<T>;

    closed spec fn view(&self) -> Seq<T> {
        self.head.downwards().reverse()
    }
}

impl<T> View for SListIter<T> {
    type V = Seq<T>;

    /// What is still to come, in the order in which it will come.
    closed spec fn view(&self) -> Seq<T> {
        rest_of(self.next)
    }
}

impl<T: Clone> SList<T> {
    /// A stack of one value.
    pub fn head(obj: T) -> (list: SList<T>)
        ensures
            list@ == seq![obj],
    {
        let list = SList { head: Rc::new(Node { next: None, value: obj }) };
        assert(list.head.downwards().reverse() =~= seq![obj]);
        list
    }

    /// A new stack with `obj` on top of this one, which stays as it was.
    pub fn plus(&self, obj: T) -> (list: SList<T>)
        ensures
            list@ == self@.push(obj),
    {
        let list = SList { head: Rc::new(Node { next: Some(share(&self.head)), value: obj }) };
        assert(list.head.downwards().reverse() =~= self.head.downwards().reverse().push(obj));
        list
    }

    /// The value pushed last.
    pub fn inner(&self) -> (top: &T)
        ensures
            self@.len() > 0,
            *top == self@.last(),
    {
        proof {
            self.head.lemma_downwards_nonempty();
        }
        &self.head.value
    }

    /// The values, from the one pushed first to the one pushed last.
    pub fn to_vec(&self) -> (values: Vec<T>)
        ensures
            values.len() == self@.len(),
            forall|i: int| 0 <= i < values.len() ==> cloned(self@[i], #[trigger] values[i]),
    {
        let mut down: Vec<T> = Vec::new();
        let mut walk = self.iter();
        let ghost all = walk@;
        loop
            invariant
                all == self@.reverse(),
                down.len() <= all.len(),
                walk@ == all.subrange(down.len() as int, all.len() as int),
                forall|i: int| 0 <= i < down.len() ==> cloned(all[i], #[trigger] down[i]),
            ensures
                down.len() == all.len(),
            decreases walk@.len(),
        {
            match walk.next() {
                Some(value) => {
                    down.push(value);
                },
                None => {
                    break ;
                },
            }
        }
        let mut values: Vec<T> = Vec::new();
        let n = down.len();
        while values.len() < n
            invariant
                n == all.len(),
                all == self@.reverse(),
                values.len() + down.len() == n,
                forall|i: int| 0 <= i < down.len() ==> cloned(all[i], #[trigger] down[i]),
                forall|i: int|
                    0 <= i < values.len() ==> cloned(all[n - 1 - i], #[trigger] values[i]),
            decreases down.len(),
        {
            let ghost before = down@;
            let value = down.pop().unwrap();
            assert(value == before[before.len() - 1]);
            values.push(value);
        }
        assert(forall|i: int| 0 <= i < n ==> all[n - 1 - i] == self@[i]);
        values
    }

    /// A walk over the values, from the one pushed last to the one pushed
    /// first.
    pub fn iter(&self) -> (walk: SListIter<T>)
        ensures
            walk@ == self@.reverse(),
    {
        let walk = SListIter { next: Some(share(&self.head)) };
        assert(self.head.downwards().reverse().reverse() =~= self.head.downwards());
        walk
    }

    /// The number of values, which is never zero.
    pub fn len(&self) -> (n: usize)
        ensures
            n == self@.len(),
            n > 0,
    {
        let v = self.to_vec();
        proof {
            self.head.lemma_downwards_nonempty();
        }
        v.len()
    }
}

impl<T: Clone> SListIter<T> {
    /// The next value of the walk, or `None` when the walk is over.
    pub fn next(&mut self) -> (item: Option<T>)
        ensures
            old(self)@.len() == 0 ==> item.is_none() && final(self)@ == old(self)@,
            old(self)@.len() > 0 ==> item.is_some() && cloned(old(self)@[0], item.unwrap())
                && final(self)@ == old(self)@.subrange(1, old(self)@.len() as int),
    {
        match &self.next {
            None => None,
            Some(node) => {
                let list = share(node);
                let value = list.value.clone();
                let ghost whole = list.downwards();
                self.next =
                match &list.next {
                    Some(below) => Some(share(below)),
                    None => None,
                };
                assert(rest_of(self.next) =~= whole.subrange(1, whole.len() as int));
                Some(value)
            },
        }
    }
}

} // verus!
