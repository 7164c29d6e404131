//! The shelf: a bounded queue of idle resources.
use crossbeam_queue::{ArrayQueue, PopError, PushError};
use vstd::prelude::*;

use crate::resource::Idle;

verus! {

/// The most resources that a shelf can be made for.
pub const MAX_CAPACITY: usize = usize::MAX / 32;

/// `crossbeam_queue::ArrayQueue`.
#[verifier::external_type_specification]
#[verifier::external_body]
#[verifier::reject_recursive_types(T)]
pub struct ExArrayQueue<T>(ArrayQueue<T>);

/// `crossbeam_queue::PopError`.
#[verifier::external_type_specification]
#[verifier::external_body]
pub struct ExPopError(PopError);

/// The keys in a `crossbeam_queue::ArrayQueue`, the next one to come out first.
pub uninterp spec fn queue_keys(queue: ArrayQueue<usize>) -> Seq<usize>;

/// The number of keys that a `crossbeam_queue::ArrayQueue` has room for.
pub uninterp spec fn queue_capacity(queue: ArrayQueue<usize>) -> nat;

/// `ArrayQueue::new` makes an empty queue. It panics on a capacity of zero, and on one whose
/// buffer, two words for each key, would be larger than an allocation can be.
#[verifier::external_body]
fn new_queue(capacity: usize) -> (queue: ArrayQueue<usize>)
    requires
        0 < capacity <= MAX_CAPACITY,
    ensures
        queue_keys(queue) == Seq::<usize>::empty(),
        queue_capacity(queue) == capacity,
{
    ArrayQueue::new(capacity)
}

/// `ArrayQueue::push` puts a key at the end of a queue that has room for it, and otherwise hands
/// it back.
#[verifier::external_body]
fn push_key(queue: &mut ArrayQueue<usize>, key: usize) -> (result: Result<(), usize>)
    ensures
        queue_capacity(*final(queue)) == queue_capacity(*old(queue)),
        result == if queue_keys(*old(queue)).len() < queue_capacity(*old(queue)) {
            Ok::<(), usize>(())
        } else {
            Err(key)
        },
        queue_keys(*final(queue)) == if result is Ok {
            queue_keys(*old(queue)).push(key)
        } else {
            queue_keys(*old(queue))
        },
{
    match queue.push(key) {
        Ok(()) => Ok(()),
        Err(PushError(key)) => Err(key),
    }
}

/// `ArrayQueue::pop` takes the first key out of a queue, and fails if there is none.
#[verifier::external_body]
fn pop_key(queue: &mut ArrayQueue<usize>) -> (result: Result<usize, PopError>)
    ensures
        queue_capacity(*final(queue)) == queue_capacity(*old(queue)),
        match result {
            Ok(key) => {
                &&& queue_keys(*old(queue)).len() > 0
                &&& key == queue_keys(*old(queue)).first()
                &&& queue_keys(*final(queue)) == queue_keys(*old(queue)).drop_first()
            },
            Err(_) => {
                &&& queue_keys(*old(queue)).len() == 0
                &&& queue_keys(*final(queue)) == queue_keys(*old(queue))
            },
        },
{
    queue.pop()
}

/// A queue of idle resources that holds no more than a given number of them.
///
/// The resources lie in slots; the queue holds the numbers of the slots that are taken.
pub struct Shelf<R>
where
    R: Send,
{
    order: ArrayQueue<usize>,
    slots: Vec<Option<Idle<R>>>,
    vacant: Vec<usize>,
}

impl<R> View for Shelf<R>
where
    R: Send,
{
    type V = Seq<Idle<R>>;

    /// The resources on the shelf, the next one to be taken first.
    closed spec fn view(&self) -> Seq<Idle<R>> {
        Seq::new(
            queue_keys(self.order).len(),
            |i: int| self.slots@[queue_keys(self.order)[i] as int]->0,
        )
    }
}

impl<R> Shelf<R>
where
    R: Send,
{
    /// The number of resources that the shelf has room for.
    pub closed spec fn capacity(&self) -> nat {
        queue_capacity(self.order)
    }

    /// No slot is in the queue twice, every slot in the queue holds a resource, and every other
    /// slot is vacant; there is at most one slot more than the shelf has room for.
    pub closed spec fn wf(&self) -> bool {
        let keys = queue_keys(self.order);
        &&& 0 < queue_capacity(self.order) <= MAX_CAPACITY
        &&& keys.len() <= queue_capacity(self.order)
        &&& keys.no_duplicates()
        &&& self.vacant@.no_duplicates()
        &&& self.slots@.len() == keys.len() + self.vacant@.len()
        &&& self.slots@.len() <= queue_capacity(self.order) + 1
        &&& forall|i: int|
            0 <= i < keys.len() ==> (#[trigger] keys[i]) < self.slots@.len()
                && self.slots@[keys[i] as int] is Some
        &&& forall|i: int|
            0 <= i < self.vacant@.len() ==> (#[trigger] self.vacant@[i]) < self.slots@.len()
                && self.slots@[self.vacant@[i] as int] is None
    }

    /// The shelf holds no more than it has room for.
    pub proof fn lemma_bounded(&self)
        requires
            self.wf(),
        ensures
            self@.len() <= self.capacity() <= MAX_CAPACITY,
            0 < self.capacity(),
    {
    }

    pub fn new(capacity: usize) -> (shelf: Self)
        requires
            0 < capacity <= MAX_CAPACITY,
        ensures
            shelf.wf(),
            shelf.capacity() == capacity,
            shelf@ == Seq::<Idle<R>>::empty(),
    {
        Self { order: new_queue(capacity), slots: Vec::new(), vacant: Vec::new() }
    }

    /// The number of resources on the shelf.
    pub fn len(&self) -> (len: usize)
        requires
            self.wf(),
        ensures
            len == self@.len(),
    {
        self.slots.len() - self.vacant.len()
    }

    /// Puts a resource at the end of the shelf, or hands it back if the shelf is full.
    pub fn push(&mut self, idle: Idle<R>) -> (result: Result<(), Idle<R>>)
        requires
            old(self).wf(),
        ensures
            final(self).wf(),
            final(self).capacity() == old(self).capacity(),
            result == if old(self)@.len() < old(self).capacity() {
                Ok::<(), Idle<R>>(())
            } else {
                Err(idle)
            },
            final(self)@ == if result is Ok {
                old(self)@.push(idle)
            } else {
                old(self)@
            },
    {
        let key: usize = match self.vacant.pop() {
            Some(key) => {
                self.slots[key] = Some(idle);
                key
            },
            None => {
                let key: usize = self.slots.len();
                self.slots.push(Some(idle));
                key
            },
        };
        match push_key(&mut self.order, key) {
            Ok(()) => Ok(()),
            Err(key) => {
                let idle = self.slots[key].take().unwrap();
                self.vacant.push(key);
                Err(idle)
            },
        }
    }

    /// Takes the first resource off the shelf, if there is one.
    pub fn pop(&mut self) -> (result: Option<Idle<R>>)
        requires
            old(self).wf(),
        ensures
            final(self).wf(),
            final(self).capacity() == old(self).capacity(),
            result == if old(self)@.len() > 0 {
                Some(old(self)@.first())
            } else {
                None
            },
            final(self)@ == if old(self)@.len() > 0 {
                old(self)@.drop_first()
            } else {
                old(self)@
            },
    {
        match pop_key(&mut self.order) {
            Ok(key) => {
                let idle = self.slots[key].take();
                self.vacant.push(key);
                idle
            },
            Err(_) => None,
        }
    }
}

} // verus!
