//! The containers that can be extended from a producer.

pub mod linked_list;
pub mod vec_deque;
