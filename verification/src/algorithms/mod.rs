//! The window-based rate-limiting algorithms.

pub mod fixed_window;
pub mod sliding_window_log;
pub mod sliding_window_counter;
