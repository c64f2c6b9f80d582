//! Error type of the library.
//!
//! The enum captures the small set of domain errors that callers may want to
//! match on (e.g. "not initialised"); [`SynapseError::message`] gives the clear,
//! non-panicking text shown to the user.

use crate::text::{cat, cat3, decimal, to_decimal};
use vstd::prelude::*;

verus! {

/// Domain-level errors surfaced by Synapse.
#[derive(Debug, PartialEq, Eq)]
pub enum SynapseError {
    /// No `.synapse` directory was found walking up from the working directory.
    NotInitialized,
    /// The config file already exists and `--force` was not supplied.
    ConfigExists(String),
    /// A required graph operation is not yet supported by the active backend.
    Unsupported(String),
    /// The graph backend reported a failure.
    Backend(String),
    /// `synapse push` was invoked but `[share].push_enabled` is false.
    PushDisabled,
    /// The registry/repository for sharing is not configured.
    ShareNotConfigured,
    /// Push refused because the working tree has uncommitted changes.
    DirtyTree(usize),
    /// Push was not confirmed (interactive prompt declined or non-interactive
    /// without `--yes`).
    PushNotConfirmed,
    /// A registry network/transport call failed.
    RegistryNetwork(String),
    /// Registry authentication failed.
    RegistryAuth(String),
    /// A pulled graph failed its blake3 integrity check.
    IntegrityMismatch,
    /// Input that could not be understood (a manifest, a pattern, an argument),
    /// with the message to show.
    Invalid(String),
}

impl SynapseError {
    /// The text of the error.
    pub open spec fn text(self) -> Seq<char> {
        match self {
            SynapseError::NotInitialized =>
                "no Synapse workspace found (looked for `.synapse/synapse.toml`); run `synapse init` first"@,
            SynapseError::ConfigExists(p) => "`"@ + p@ + "` already exists; use --force to overwrite"@,
            SynapseError::Unsupported(m) => "graph operation not supported by the active backend: "@ + m@,
            SynapseError::Backend(m) => "graph backend error: "@ + m@,
            SynapseError::PushDisabled =>
                "push is disabled; set `push_enabled = true` in the [share] section of .synapse/synapse.toml to allow it"@,
            SynapseError::ShareNotConfigured =>
                "share target not configured; set `registry` and `repository` in the [share] section (or pass --registry/--repository)"@,
            SynapseError::DirtyTree(n) => "working tree has uncommitted changes ("@ + decimal(n as nat)
                + " file(s)); commit/stash or pass --allow-dirty (the graph is tagged by commit)"@,
            SynapseError::PushNotConfirmed =>
                "push not confirmed (interactive confirmation required, or pass --yes)"@,
            SynapseError::RegistryNetwork(m) => "registry network error: "@ + m@,
            SynapseError::RegistryAuth(m) => "registry authentication failed: "@ + m@,
            SynapseError::IntegrityMismatch =>
                "pulled graph failed integrity check (blake3 mismatch); the artifact may be corrupt"@,
            SynapseError::Invalid(m) => m@,
        }
    }

    /// The message shown to the user.
    pub fn message(&self) -> (r: String)
        ensures
            r@ == self.text(),
    {
        match self {
            SynapseError::NotInitialized =>
                "no Synapse workspace found (looked for `.synapse/synapse.toml`); run `synapse init` first".to_owned(),
            SynapseError::ConfigExists(p) => cat3("`", p.as_str(), "` already exists; use --force to overwrite"),
            SynapseError::Unsupported(m) => cat("graph operation not supported by the active backend: ", m.as_str()),
            SynapseError::Backend(m) => cat("graph backend error: ", m.as_str()),
            SynapseError::PushDisabled =>
                "push is disabled; set `push_enabled = true` in the [share] section of .synapse/synapse.toml to allow it".to_owned(),
            SynapseError::ShareNotConfigured =>
                "share target not configured; set `registry` and `repository` in the [share] section (or pass --registry/--repository)".to_owned(),
            SynapseError::DirtyTree(n) => {
                let d = to_decimal(*n as u64);
                cat3(
                    "working tree has uncommitted changes (",
                    d.as_str(),
                    " file(s)); commit/stash or pass --allow-dirty (the graph is tagged by commit)",
                )
            },
            SynapseError::PushNotConfirmed =>
                "push not confirmed (interactive confirmation required, or pass --yes)".to_owned(),
            SynapseError::RegistryNetwork(m) => cat("registry network error: ", m.as_str()),
            SynapseError::RegistryAuth(m) => cat("registry authentication failed: ", m.as_str()),
            SynapseError::IntegrityMismatch =>
                "pulled graph failed integrity check (blake3 mismatch); the artifact may be corrupt".to_owned(),
            SynapseError::Invalid(m) => m.clone(),
        }
    }
}

} // verus!
