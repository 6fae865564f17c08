//! The failure taxonomy of the host: every user-visible failure carries a
//! stable discriminant plus a readable message.

use vstd::prelude::*;
use crate::stream::StreamError;

verus! {

/// Why loading a plugin library failed: the file could not be opened, a
/// required export was missing, or the create call returned nothing.
#[derive(Debug, Clone, Copy, PartialEq, Eq, Structural)]
pub enum LoaderError {
    Load,
    Symbol,
    Creation,
}

/// Every failure the host surfaces.
#[derive(Debug, Clone, Copy, PartialEq, Eq, Structural)]
pub enum HostError {
    /// The plugin library could not be opened.
    LoadError,
    /// A required export was missing from the library.
    SymbolError,
    /// The create export returned no instance.
    CreationError,
    /// A lifecycle hook reported a nonzero status, or the operation was
    /// attempted from a state that forbids it.
    LifecycleError,
    /// The message handler failed or its response could not be read.
    MessageError,
    /// A streaming operation failed.
    Stream(StreamError),
    /// The id named no instance, or the plugin id did not match it.
    RegistryError,
}

impl HostError {
    /// The host error a load failure maps to.
    pub fn from_loader(e: LoaderError) -> (r: HostError)
        ensures
            r == match e {
                LoaderError::Load => HostError::LoadError,
                LoaderError::Symbol => HostError::SymbolError,
                LoaderError::Creation => HostError::CreationError,
            },
    {
        match e {
            LoaderError::Load => HostError::LoadError,
            LoaderError::Symbol => HostError::SymbolError,
            LoaderError::Creation => HostError::CreationError,
        }
    }

    /// A human-readable description of the failure.
    pub fn message(&self) -> (r: &'static str)
        ensures
            r@ == match self {
                HostError::LoadError => "failed to open the plugin library"@,
                HostError::SymbolError => "a required plugin export is missing"@,
                HostError::CreationError => "the plugin could not be created"@,
                HostError::LifecycleError => "a plugin lifecycle call failed"@,
                HostError::MessageError => "the plugin could not handle the message"@,
                HostError::Stream(_) => "a streaming operation failed"@,
                HostError::RegistryError => "no such plugin instance"@,
            },
    {
        match self {
            HostError::LoadError => "failed to open the plugin library",
            HostError::SymbolError => "a required plugin export is missing",
            HostError::CreationError => "the plugin could not be created",
            HostError::LifecycleError => "a plugin lifecycle call failed",
            HostError::MessageError => "the plugin could not handle the message",
            HostError::Stream(_) => "a streaming operation failed",
            HostError::RegistryError => "no such plugin instance",
        }
    }
}

} // verus!
