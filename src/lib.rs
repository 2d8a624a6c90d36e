//! Composable allocator capabilities and an adapter that aborts on
//! out-of-memory instead of reporting an error.
pub mod abort;
pub mod capability;
pub mod layout;
pub mod region;
