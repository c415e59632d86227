//! Error kinds of the engine and of plugins.

use vstd::prelude::*;

verus! {

/// Error of a tensor operation.
#[derive(Clone, Debug, PartialEq, Eq)]
pub enum HoduError {
    /// A shape, rank or element type that the operation does not accept.
    InvalidArgument(String),
    /// A dispatch-time impossibility: an op tag or element type that no kernel takes.
    BackendError(String),
    /// An allocation, launch or transfer that the device refused.
    DeviceError(String),
    /// A capability that this build does not have.
    NotSupported(String),
}

/// Error of a plugin operation.
#[derive(Clone, Debug, PartialEq, Eq)]
#[non_exhaustive]
pub enum PluginError {
    /// Capability not supported (a runner, a builder, a loader).
    NotSupported(String),
    /// Invalid input or argument.
    InvalidInput(String),
    /// Input or output failure, with its message.
    Io { message: String },
    /// Execution error.
    Execution(String),
    /// Internal error.
    Internal(String),
    /// A file could not be loaded.
    Load(String),
    /// A file could not be saved.
    Save(String),
}

impl PluginError {
    /// An input or output error with just a message.
    pub fn io(message: &str) -> (r: PluginError)
        ensures
            r matches PluginError::Io { message: m } && m@ == message@,
    {
        PluginError::Io { message: String::from_str(message) }
    }

    /// An input or output error built from the message of an underlying error.
    pub fn io_with_source(source_message: String) -> (r: PluginError)
        ensures
            r matches PluginError::Io { message: m } && m@ == source_message@,
    {
        PluginError::Io { message: source_message }
    }

    /// The error's message, prefixed by its kind.
    pub fn message(&self) -> (r: String)
        ensures
            r@ == plugin_error_text(*self),
    {
        let (prefix, msg) = match self {
            PluginError::NotSupported(m) => ("not supported: ", m),
            PluginError::InvalidInput(m) => ("invalid input: ", m),
            PluginError::Io { message } => ("io error: ", message),
            PluginError::Execution(m) => ("execution error: ", m),
            PluginError::Internal(m) => ("internal error: ", m),
            PluginError::Load(m) => ("load error: ", m),
            PluginError::Save(m) => ("save error: ", m),
        };
        let mut out = String::from_str(prefix);
        out.append(msg.as_str());
        out
    }
}

pub open spec fn plugin_error_text(e: PluginError) -> Seq<char> {
    match e {
        PluginError::NotSupported(m) => "not supported: "@ + m@,
        PluginError::InvalidInput(m) => "invalid input: "@ + m@,
        PluginError::Io { message } => "io error: "@ + message@,
        PluginError::Execution(m) => "execution error: "@ + m@,
        PluginError::Internal(m) => "internal error: "@ + m@,
        PluginError::Load(m) => "load error: "@ + m@,
        PluginError::Save(m) => "save error: "@ + m@,
    }
}

} // verus!
