//! What is known of each kind of backend without talking to a device.

pub mod escl;
pub mod ica;
pub mod native;
pub mod sane;
pub mod twain;
pub mod wia;
