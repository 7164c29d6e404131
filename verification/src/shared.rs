//! The state of a pool whose resources are put back on the shelf by a [`Librarian`].
//!
//! [`Librarian`]: crate::librarian::Librarian
use tokio_sync::semaphore::Semaphore;
use vstd::prelude::*;

use crate::resource::Manage;
use crate::semaphore::semaphore_state;
use crate::shelf::{Shelf, MAX_CAPACITY};

verus! {

pub struct Shared<M>
where
    M: Manage,
{
    pub capacity: usize,
    /// Resources on the shelf are ready to be borrowed. A permit of `checked_out_count` has to be
    /// taken before grabbing one though.
    pub shelf: Shelf<M::Resource>,
    pub checked_out_count: Semaphore,
    pub created_count: usize,
    pub manager: M,
}

impl<M> Shared<M>
where
    M: Manage,
{
    /// The shelf has room for as many resources as the pool, and there is a permit for each one on
    /// it.
    pub open spec fn wf(&self) -> bool {
        &&& self.shelf.wf()
        &&& self.shelf.capacity() == self.capacity
        &&& semaphore_state(self.checked_out_count).permits() == self.shelf@.len()
        &&& semaphore_state(self.checked_out_count).wf()
    }

    pub fn new(capacity: usize, manager: M) -> (shared: Self)
        requires
            0 < capacity <= MAX_CAPACITY,
        ensures
            shared.wf(),
            shared.capacity == capacity,
            shared.shelf@.len() == 0,
            semaphore_state(shared.checked_out_count).available == 0,
            semaphore_state(shared.checked_out_count).assigned.is_empty(),
            semaphore_state(shared.checked_out_count).queue.len() == 0,
            shared.created_count == 0,
            shared.manager == manager,
    {
        Self {
            capacity,
            shelf: Shelf::new(capacity),
            checked_out_count: Semaphore::new(0),
            created_count: 0,
            manager,
        }
    }
}

} // verus!
