//! What the console shows and what it is asked to record. Its pages only read; its one other
//! route records a signature, and does not create one.

pub mod deciding;
pub mod encoding;
pub mod filters;
pub mod pages;
pub mod rows;
pub mod shaping;
