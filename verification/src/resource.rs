//! Resources and those who look after them.
use std::future::Future;

use vstd::prelude::*;

use crate::pool::Dependencies;
use crate::time::Instant;

verus! {

/// What a resource is found to be when it comes back.
#[derive(Clone, Copy, Debug, PartialEq, Eq, Structural)]
pub enum Status {
    Valid,
    Invalid,
}

/// A trait for managing the lifecycle of a resource.
pub trait Manage: Sized {
    type Resource: Send;

    type Dependencies: Dependencies;

    /// What a check-out is handed to the users of the pool as.
    type CheckOut;

    type Error;

    type CreateFuture: Future<Output = Result<Self::Resource, Self::Error>>;

    /// Creates a new instance of the managed resource.
    fn create(&self) -> Self::CreateFuture;

    /// Finds out whether a resource that comes back can be used again.
    fn status(&self, resource: &Self::Resource) -> Status;

    type RecycleFuture: Future<Output = Result<Option<Self::Resource>, Self::Error>>;

    /// Recycling a resource is done periodically to determine whether it is still valid and can be
    /// reused or if it is broken and must be discarded.
    fn recycle(&self, resource: Self::Resource) -> Self::RecycleFuture;
}

/// A resource that nobody uses, with the time at which it was last created or recycled.
#[derive(Debug)]
pub struct Idle<R>
where
    R: Send,
{
    pub resource: R,
    pub recycled_at: Instant,
}

impl<R> Idle<R>
where
    R: Send,
{
    pub fn new(resource: R, recycled_at: Instant) -> (idle: Self)
        ensures
            idle.resource == resource,
            idle.recycled_at == recycled_at,
    {
        Self { resource, recycled_at }
    }

    pub fn into_resource(self) -> (resource: R)
        ensures
            resource == self.resource,
    {
        self.resource
    }

    pub fn recycled_at(&self) -> (recycled_at: Instant)
        ensures
            recycled_at == self.recycled_at,
    {
        self.recycled_at
    }
}

} // verus!
