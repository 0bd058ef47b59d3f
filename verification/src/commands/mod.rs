//! The pure parts of the shell's commands: patch arguments and their
//! conversion into configuration patches, and the diagnostics table.

pub mod diagnostics;
pub mod dto;

pub use diagnostics::{build_diagnostics, DiagnosticsDto, ServiceDiagnosticDto};
pub use dto::{ServicePatchDto, SettingsPatchDto};
