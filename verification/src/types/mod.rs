pub mod usage;
