//! Orchestration of optical-disc rips: drive locking, classification of the
//! ripping tool's output, parsing of its disc and drive reports, the lifecycle
//! of one rip as a state machine, and the destination layout of its artifact.
//!
//! The library performs no I/O. A caller runs the external tool and touches
//! the filesystem, and hands the library what came back.
pub mod bytes;
pub mod decimal;
pub mod discord;
pub mod errors;
pub mod logging;
pub mod makemkv;
pub mod text;
