//! The verified core of the ConvertIA file converter: the conversion-outcome taxonomy and its
//! message catalogs, the basename-only log redaction, the open-target resolution, the temp
//! location test for output folders, and the decisions the host applies around each confined
//! engine run: the spawn plan check, the engine environment, the end-of-run and whole-group kill
//! rules, the per-leg privilege-drop record, the Windows integrity labels and the seccomp deny
//! filter.
pub mod domain;
pub mod ipc;
pub mod isolation;
pub mod label;
pub mod log_redact;
pub mod outcome;
pub mod paths;
pub mod platform;
pub mod seccomp;
pub mod text;
