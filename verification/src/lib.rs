//! A uniform interface to document scanners: the data model, the backend
//! contract and registry, the eSCL protocol rules and scan state machine, and
//! the streaming event model with its session table.

pub mod backends;
pub mod events;
pub mod ffi;
pub mod models;
pub mod registry;
pub mod seqs;
pub mod text;

pub use models::{
    Backend, BackendProvider, Capabilities, ColorMode, PageMeta, PageSize, PapyrError, ScanArea,
    ScanConfig, ScanEvent, ScanSession, ScanSource, ScannerInfo,
};
