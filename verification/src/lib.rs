//! Draining a lazily produced sequence of items into a growable container.
//!
//! A container that implements [`stream::StreamExtend`] lends itself, by an
//! exclusive borrow, to an extend operation. The operation is a resumable
//! computation without a scheduler of its own. Each time it is resumed it
//! polls the producer and inserts what is ready, in the order of production,
//! and it says what its driver has to do next: poll again, suspend until the
//! producer may have more, or stop because the producer is exhausted.
//! Dropping the operation at any moment leaves the container with the items
//! inserted so far.
//!
//! [`stream`] holds the contract, [`collections`] the containers that
//! realize it, and [`laws`] what holds of a whole operation.

pub mod collections;
pub mod laws;
pub mod stream;
