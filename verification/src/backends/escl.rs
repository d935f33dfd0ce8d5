//! eSCL (AirScan): scanners reached over HTTP and found by mDNS.

pub mod capabilities;
pub mod device;
pub mod document;
pub mod session;
pub mod settings;
pub mod status;
