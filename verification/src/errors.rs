//! The library's errors. Failures of outside services (database, network,
//! files, formats) arrive here as their message text.

use vstd::prelude::*;
use vstd::string::*;

verus! {

#[derive(Debug, Clone, PartialEq, Eq)]
pub enum SymphonyError {
    Config(String),
    Provider { provider: String, message: String },
    Playback(String),
    Database(String),
    Network(String),
    Io(String),
    Serialization(String),
    TomlParse(String),
    Plugin(String),
    NotFound(String),
    Unsupported(String),
    Cache(String),
    Theme(String),
}

pub type Result<T> = std::result::Result<T, SymphonyError>;

/// The text an error shows.
pub open spec fn error_text(e: SymphonyError) -> Seq<char> {
    match e {
        SymphonyError::Config(m) => "Configuration error: "@ + m@,
        SymphonyError::Provider { provider, message } => "Provider error ("@ + provider@ + "): "@
            + message@,
        SymphonyError::Playback(m) => "Playback error: "@ + m@,
        SymphonyError::Database(m) => "Database error: "@ + m@,
        SymphonyError::Network(m) => "Network error: "@ + m@,
        SymphonyError::Io(m) => "IO error: "@ + m@,
        SymphonyError::Serialization(m) => "Serialization error: "@ + m@,
        SymphonyError::TomlParse(m) => "TOML parse error: "@ + m@,
        SymphonyError::Plugin(m) => "Plugin error: "@ + m@,
        SymphonyError::NotFound(m) => "Not found: "@ + m@,
        SymphonyError::Unsupported(m) => "Unsupported: "@ + m@,
        SymphonyError::Cache(m) => "Cache error: "@ + m@,
        SymphonyError::Theme(m) => "Theme error: "@ + m@,
    }
}

fn prefixed(prefix: &str, m: &String) -> (s: String)
    ensures
        s@ == prefix@ + m@,
{
    let mut s = String::from_str(prefix);
    s.append(m.as_str());
    s
}

impl SymphonyError {
    pub fn provider(provider: String, message: String) -> (e: Self)
        ensures
            e == (SymphonyError::Provider { provider, message }),
    {
        SymphonyError::Provider { provider, message }
    }

    pub fn playback(message: String) -> (e: Self)
        ensures
            e == SymphonyError::Playback(message),
    {
        SymphonyError::Playback(message)
    }

    pub fn config(message: String) -> (e: Self)
        ensures
            e == SymphonyError::Config(message),
    {
        SymphonyError::Config(message)
    }

    pub fn plugin(message: String) -> (e: Self)
        ensures
            e == SymphonyError::Plugin(message),
    {
        SymphonyError::Plugin(message)
    }

    pub fn not_found(message: String) -> (e: Self)
        ensures
            e == SymphonyError::NotFound(message),
    {
        SymphonyError::NotFound(message)
    }

    pub fn unsupported(message: String) -> (e: Self)
        ensures
            e == SymphonyError::Unsupported(message),
    {
        SymphonyError::Unsupported(message)
    }

    pub fn cache(message: String) -> (e: Self)
        ensures
            e == SymphonyError::Cache(message),
    {
        SymphonyError::Cache(message)
    }

    pub fn theme(message: String) -> (e: Self)
        ensures
            e == SymphonyError::Theme(message),
    {
        SymphonyError::Theme(message)
    }

    /// The text the error shows.
    pub fn message(&self) -> (s: String)
        ensures
            s@ == error_text(*self),
    {
        match self {
            SymphonyError::Config(m) => prefixed("Configuration error: ", m),
            SymphonyError::Provider { provider, message } => {
                let mut s = String::from_str("Provider error (");
                s.append(provider.as_str());
                s.append("): ");
                s.append(message.as_str());
                assert(s@ =~= error_text(*self));
                s
            },
            SymphonyError::Playback(m) => prefixed("Playback error: ", m),
            SymphonyError::Database(m) => prefixed("Database error: ", m),
            SymphonyError::Network(m) => prefixed("Network error: ", m),
            SymphonyError::Io(m) => prefixed("IO error: ", m),
            SymphonyError::Serialization(m) => prefixed("Serialization error: ", m),
            SymphonyError::TomlParse(m) => prefixed("TOML parse error: ", m),
            SymphonyError::Plugin(m) => prefixed("Plugin error: ", m),
            SymphonyError::NotFound(m) => prefixed("Not found: ", m),
            SymphonyError::Unsupported(m) => prefixed("Unsupported: ", m),
            SymphonyError::Cache(m) => prefixed("Cache error: ", m),
            SymphonyError::Theme(m) => prefixed("Theme error: ", m),
        }
    }
}

} // verus!
