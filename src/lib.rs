//! A fixed-size task pool's decision logic and the fork-join merge sort built on it,
//! together with a few small standalone utilities.
pub mod calculator;
pub mod doubly_linked_list;
pub mod http;
pub mod life;
pub mod matrices;
pub mod pool;
pub mod singly_linked_list;
pub mod sort;
pub mod text;
pub mod university;
