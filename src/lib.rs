//! Judging core of an online-judge service: the job model, the grading
//! state machine that drives one job through compilation and its test cases,
//! the filtered job registry and the identifier allocator.

pub mod controller;
pub mod err;
pub mod model;
pub mod registry;
