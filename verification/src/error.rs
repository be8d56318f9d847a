//! The errors of the engine and of the program around it.

use vstd::prelude::*;
use vstd::std_specs::convert::FromSpecImpl;

verus! {

/// `serde_json`'s error type, which the engine turns into one of its own.
#[verifier::external_type_specification]
#[verifier::external_body]
pub struct ExJsonError(serde_json::Error);

/// An error of the engine.
#[derive(Clone, Debug, PartialEq, Eq)]
pub enum EngineError {
    WebSocketError(String),
    SerdeError(String),
}

/// An error of the program.
#[derive(Clone, Debug, PartialEq, Eq)]
pub enum AppError {
    EngineError(EngineError),
    SerdeError(String),
    ConfigError(String),
}

impl EngineError {
    /// The text that describes the error.
    pub open spec fn text(self) -> Seq<char> {
        match self {
            EngineError::WebSocketError(s) => "WebSocket error: "@ + s@,
            EngineError::SerdeError(s) => "Serialize/Deserialize error: "@ + s@,
        }
    }

    /// The text that describes the error.
    pub fn to_string(&self) -> (res: String)
        ensures
            res@ == self.text(),
    {
        match self {
            EngineError::WebSocketError(s) => String::from_str("WebSocket error: ").concat(s.as_str()),
            EngineError::SerdeError(s) => String::from_str("Serialize/Deserialize error: ").concat(s.as_str()),
        }
    }

    /// The engine's error for a failure to read or write JSON, which carries
    /// `serde_json`'s description of the failure: the text that `to_string`
    /// gives of `err` through its `Display`.
    pub fn from_serde(err: serde_json::Error) -> (res: EngineError)
        ensures
            res matches EngineError::SerdeError(text)
                && vstd::string::to_string_from_display_ensures::<serde_json::Error>(&err, text),
    {
        EngineError::SerdeError(err.to_string())
    }
}

impl AppError {
    /// The text that describes the error.
    pub open spec fn text(self) -> Seq<char> {
        match self {
            AppError::EngineError(e) => "EngineError -> "@ + e.text(),
            AppError::SerdeError(s) => "Serialize/Deserialize error: "@ + s@,
            AppError::ConfigError(s) => "config error: "@ + s@,
        }
    }

    /// The text that describes the error.
    pub fn to_string(&self) -> (res: String)
        ensures
            res@ == self.text(),
    {
        match self {
            AppError::EngineError(e) => {
                let inner = e.to_string();
                String::from_str("EngineError -> ").concat(inner.as_str())
            },
            AppError::SerdeError(s) => String::from_str("Serialize/Deserialize error: ").concat(s.as_str()),
            AppError::ConfigError(s) => String::from_str("config error: ").concat(s.as_str()),
        }
    }
}

impl From<EngineError> for AppError {
    fn from(e: EngineError) -> (res: AppError) {
        AppError::EngineError(e)
    }
}

impl FromSpecImpl<EngineError> for AppError {
    open spec fn obeys_from_spec() -> bool {
        true
    }

    open spec fn from_spec(e: EngineError) -> AppError {
        AppError::EngineError(e)
    }
}

} // verus!
