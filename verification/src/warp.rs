//! The replies of the website, as the warp server sends them.
pub mod generic_handlers;
