//! The errors of the scanner.

use vstd::prelude::*;
use vstd::std_specs::convert::FromSpecImpl;
use vstd::string::StringExecFns;

verus! {

/// What can go wrong. Each variant holds the message of the failure that it
/// stands for.
#[derive(Debug)]
pub enum NyxError {
    /// Reading a file or a directory failed.
    Io(String),
    /// The configuration could not be read.
    Toml(String),
    /// The result cache failed.
    Sql(String),
    /// A grammar could not be loaded.
    TreeSitter(String),
    /// No connection to the result cache could be had.
    Pool(String),
    /// The clock gave a time before the epoch.
    Time(String),
    /// A lock was poisoned.
    Poison(String),
    /// The analysis of a file was given up: the file that it was.
    CancelledFile(String),
    /// Any other failure, with its own message.
    Other(String),
    /// A plain message.
    Msg(String),
}

/// What the scanner returns where it can fail.
pub type NyxResult<T> = Result<T, NyxError>;

impl NyxError {
    /// The message that is shown for the error.
    pub open spec fn shown(self) -> Seq<char> {
        match self {
            NyxError::Io(m) => "I/O error: "@ + m@,
            NyxError::Toml(m) => "TOML parse error: "@ + m@,
            NyxError::Sql(m) => "SQLite error: "@ + m@,
            NyxError::TreeSitter(m) => "tree-sitter error: "@ + m@,
            NyxError::Pool(m) => "connection-pool error: "@ + m@,
            NyxError::Time(m) => "time error: "@ + m@,
            NyxError::Poison(m) => "poisoned lock: "@ + m@,
            NyxError::CancelledFile(m) => "cancelled: "@ + m@,
            NyxError::Other(m) => m@,
            NyxError::Msg(m) => m@,
        }
    }

    /// The message that is shown for the error.
    pub fn to_string(&self) -> (s: String)
        ensures
            s@ == self.shown(),
    {
        match self {
            NyxError::Io(m) => String::from_str("I/O error: ").concat(m.as_str()),
            NyxError::Toml(m) => String::from_str("TOML parse error: ").concat(m.as_str()),
            NyxError::Sql(m) => String::from_str("SQLite error: ").concat(m.as_str()),
            NyxError::TreeSitter(m) => String::from_str("tree-sitter error: ").concat(m.as_str()),
            NyxError::Pool(m) => String::from_str("connection-pool error: ").concat(m.as_str()),
            NyxError::Time(m) => String::from_str("time error: ").concat(m.as_str()),
            NyxError::Poison(m) => String::from_str("poisoned lock: ").concat(m.as_str()),
            NyxError::CancelledFile(m) => String::from_str("cancelled: ").concat(m.as_str()),
            NyxError::Other(m) => m.clone(),
            NyxError::Msg(m) => m.clone(),
        }
    }
}

impl From<&str> for NyxError {
    fn from(s: &str) -> (r: Self)
        ensures
            r matches NyxError::Msg(m) && m@ == s@,
    {
        NyxError::Msg(s.to_owned())
    }
}

impl FromSpecImpl<&str> for NyxError {
    open spec fn obeys_from_spec() -> bool {
        false
    }

    open spec fn from_spec(s: &str) -> Self {
        arbitrary()
    }
}

/// `std::io::Error`, taken as it is.
#[verifier::external_type_specification]
#[verifier::external_body]
pub struct ExIoError(std::io::Error);

/// `ToString::to_string` of an I/O error: its message. The message of an
/// error of the operating system is the system's own, so nothing is said of
/// it.
#[verifier::external_body]
fn io_error_text(e: &std::io::Error) -> (s: String) {
    e.to_string()
}

impl From<std::io::Error> for NyxError {
    fn from(e: std::io::Error) -> (r: Self)
        ensures
            r is Io,
    {
        NyxError::Io(io_error_text(&e))
    }
}

impl FromSpecImpl<std::io::Error> for NyxError {
    open spec fn obeys_from_spec() -> bool {
        false
    }

    open spec fn from_spec(e: std::io::Error) -> Self {
        arbitrary()
    }
}

impl From<String> for NyxError {
    fn from(s: String) -> (r: Self)
        ensures
            r == NyxError::Msg(s),
    {
        NyxError::Msg(s)
    }
}

impl FromSpecImpl<String> for NyxError {
    open spec fn obeys_from_spec() -> bool {
        true
    }

    open spec fn from_spec(s: String) -> Self {
        NyxError::Msg(s)
    }
}

} // verus!
