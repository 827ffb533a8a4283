//! Hand-built content for exercising the kernel.

pub mod basic_level;
