//! A generic resource pool.
//!
//! A pool hands out resources, takes them back, and makes new ones while it has room for them. To
//! use it, implement [`Manage`] for whoever creates and recycles the resources, set the pool up
//! with a [`Builder`], and take each check-out from one [`Step`](pool::Step) to the next with
//! [`Pool::check_out`], awaiting between two steps what the first of them asks for.
//!
//! A pool belongs to one task at a time. What is checked out of it is what its capacity leaves once
//! the resources on the shelf and those that can still be created are taken away; [`laws`] says what
//! follows from that.
pub mod inbox;
pub mod laws;
pub mod librarian;
pub mod machine;
pub mod pool;
pub mod resource;
pub mod semaphore;
pub mod shared;
pub mod shelf;
pub mod time;

pub use crate::librarian::Librarian;
pub use crate::pool::{Builder, CheckOut, LentCheckOut, Pool};
pub use crate::resource::{Manage, Status};
