pub mod api;
pub mod args;
pub mod cache;
pub mod planner;
pub mod types;
