//! Error taxonomy of the execution service.
//!
//! Provisioning failures, failures while running the sandboxed child, and
//! the service-level wrapper around both. A timed-out run is not an error:
//! it is a normal outcome reported in the result itself.

use vstd::prelude::*;

verus! {

/// Why one external command run failed.
#[derive(Clone, PartialEq, Eq, Debug)]
pub enum RunProcessError {
    /// The command exited with a non-zero status, or was killed (no status).
    NonZeroStatusCode(Option<i32>),
    /// The run descriptor for the child could not be produced.
    SerializationFailed,
    /// Reading from or writing to the child failed; the message says how.
    IOError(String),
}

/// Why one execution request failed.
#[derive(Clone, PartialEq, Eq, Debug)]
pub enum RunLangError {
    /// Provisioning the toolchain failed.
    PluginInstallFailure(RunProcessError),
    /// Running the sandboxed child failed.
    RunLang(RunProcessError),
    /// Another I/O step of the request failed.
    IOError(String),
    /// The concurrency permit could not be acquired.
    SemaphoreError(String),
}

} // verus!
