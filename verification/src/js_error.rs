//! Errors surfaced by the bridge.
//!
//! Construction-time failures are [`LoadError`]s; call-time failures are
//! [`CallError`]s.  Every public entry point returns a result: nothing is
//! silently truncated or substituted on error.

use vstd::prelude::*;
use vstd::string::StringExecFns;

verus! {

/// A failure while loading script source into a session.
#[derive(Debug)]
pub enum LoadError {
    /// The source could not be parsed.
    Syntax(String),
    /// The top-level evaluation of the source threw.
    Runtime(String),
    /// The source file could not be read.
    Io(String),
}

/// A failure while invoking a function of a loaded script.
#[derive(Debug)]
pub enum CallError {
    /// The event loop quiesced but the return callback never delivered a
    /// value into the call's slot.
    NoResult,
    /// The call was forcibly terminated by the timeout watcher.
    Timeout,
    /// The called function threw, and the namespace wrapper tagged the
    /// thrown text; the message is that text.
    Application(String),
    /// The engine reported a runtime failure while executing the call.
    EngineRuntime(String),
    /// A value could not be decoded into the expected shape; the message
    /// names what was expected.
    DecodeError(String),
}

/// A failure while encoding an argument for the engine.
#[derive(Debug)]
pub struct EncodeError {
    pub message: String,
}

/// The result of one call into a loaded script.  A typed interface names
/// this wrapper in a declared return type to receive call failures as
/// values instead of stopping.
pub type JsResult<T> = Result<T, CallError>;

impl CallError {
    /// A short description of the error, with the carried message where one
    /// exists.
    pub fn message(&self) -> (m: String)
        ensures
            self is NoResult ==> m@ == "no result"@,
            self is Timeout ==> m@ == "timed out"@,
            self matches CallError::Application(t) ==> m@ == t@,
            self matches CallError::EngineRuntime(t) ==> m@ == t@,
            self matches CallError::DecodeError(t) ==> m@ == t@,
    {
        match self {
            CallError::NoResult => String::from_str("no result"),
            CallError::Timeout => String::from_str("timed out"),
            CallError::Application(t) => t.clone(),
            CallError::EngineRuntime(t) => t.clone(),
            CallError::DecodeError(t) => t.clone(),
        }
    }
}

impl LoadError {
    /// The message carried by the error.
    pub fn message(&self) -> (m: String)
        ensures
            self matches LoadError::Syntax(t) ==> m@ == t@,
            self matches LoadError::Runtime(t) ==> m@ == t@,
            self matches LoadError::Io(t) ==> m@ == t@,
    {
        match self {
            LoadError::Syntax(t) => t.clone(),
            LoadError::Runtime(t) => t.clone(),
            LoadError::Io(t) => t.clone(),
        }
    }
}

} // verus!
