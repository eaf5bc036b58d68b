//! A fixed-capacity, thread-shared circular byte buffer.
//!
//! The core is [`ring::RingBuffer`]: a preallocated byte array with a read
//! cursor, a write cursor and an occupancy count, advanced modulo the
//! capacity. [`shared::SharedRingBuffer`] wraps it in a mutual-exclusion
//! lock so that parallel producers and consumers each run their whole
//! operation as one critical section.
//!
//! A small singly linked list lives beside it as an unrelated utility.

pub mod decimal;
pub mod list;
pub mod ring;
pub mod shared;

pub use list::LinkedList;
pub use list::LinkedListIterator;
pub use list::Node;
pub use ring::RingBuffer;
pub use ring::RingBufferError;
pub use shared::SharedRingBuffer;
