use vstd::prelude::*;

pub mod arith;
pub mod around;
pub mod around_double;
pub mod close;
pub mod double;
pub mod error;
pub mod error_double;
pub mod exact;
pub mod laws;
pub mod number;
pub mod order;
pub mod relative;
pub mod roots;
pub mod roots_double;
pub mod round;
pub mod single;
