use vstd::prelude::*;
use crate::text::{contains_text, find_text, split_whitespace, whitespace_words};

verus! {

/// `std::io::Error`, carried by the configuration error type.
#[verifier::external_type_specification]
#[verifier::external_body]
pub struct ExIoError(std::io::Error);

/// The configuration of the command-line tool, read from the environment.
#[derive(Debug)]
pub struct Config {
    /// Full connection string for the postgres DB
    pub db_connection_url: String,
}

/// Why the configuration could not be read.
#[derive(Debug)]
pub enum ConfigError {
    /// A variable is missing; it holds the variable's name.
    MissingEnvVar(String),
    /// A variable holds a value of the wrong form; it holds the name and the reason.
    InvalidEnvVar(String, String),
    /// Reading the environment file failed.
    Io(std::io::Error),
}

/// A configuration error as values.
pub enum ConfigFault {
    MissingEnvVar(Seq<char>),
    InvalidEnvVar(Seq<char>, Seq<char>),
    Io,
}

impl View for ConfigError {
    type V = ConfigFault;

    open spec fn view(&self) -> ConfigFault {
        match self {
            ConfigError::MissingEnvVar(name) => ConfigFault::MissingEnvVar(name@),
            ConfigError::InvalidEnvVar(name, reason) => ConfigFault::InvalidEnvVar(name@, reason@),
            ConfigError::Io(_) => ConfigFault::Io,
        }
    }
}

/// The text that marks a missing variable in a deserializer's message.
pub open spec fn not_found_text() -> Seq<char> {
    seq!['n', 'o', 't', ' ', 'f', 'o', 'u', 'n', 'd']
}

/// The name given where none can be told.
pub open spec fn unknown_text() -> Seq<char> {
    seq!['u', 'n', 'k', 'n', 'o', 'w', 'n']
}

/// Why reading the environment into a configuration failed, as the
/// deserializer reports it: a field whose variable is not set, or another
/// failure with its message.
#[derive(Debug)]
pub enum EnvError {
    /// No variable holds the field; it holds the field's name.
    MissingValue(String),
    /// Any other failure; it holds the message.
    Custom(String),
}

/// A deserializer's failure as values.
pub enum EnvFault {
    MissingValue(Seq<char>),
    Custom(Seq<char>),
}

impl View for EnvError {
    type V = EnvFault;

    open spec fn view(&self) -> EnvFault {
        match self {
            EnvError::MissingValue(field) => EnvFault::MissingValue(field@),
            EnvError::Custom(message) => EnvFault::Custom(message@),
        }
    }
}

/// The error that a deserializer's message stands for: a missing variable
/// where the message says "not found", named by the message's third word
/// (or "unknown" where it has fewer words); otherwise a variable of the
/// wrong form, with the whole message as the reason.
pub open spec fn message_fault(message: Seq<char>) -> ConfigFault {
    if contains_text(message, not_found_text()) {
        let words = whitespace_words(message);
        ConfigFault::MissingEnvVar(if words.len() > 2 { words[2] } else { unknown_text() })
    } else {
        ConfigFault::InvalidEnvVar(unknown_text(), message)
    }
}

/// The configuration error for a deserializer's failure: a field with no
/// variable is a missing variable, named by the field; another failure is
/// read from its message.
pub open spec fn env_error_fault(error: EnvFault) -> ConfigFault {
    match error {
        EnvFault::MissingValue(field) => ConfigFault::MissingEnvVar(field),
        EnvFault::Custom(message) => message_fault(message),
    }
}

impl ConfigError {
    /// The configuration error for the message with which reading the
    /// environment into `Config` failed.
    pub fn from_message(message: &str) -> (e: Self)
        ensures
            e@ == message_fault(message@),
    {
        proof {
            reveal_strlit("not found");
            reveal_strlit("unknown");
            assert("not found"@ =~= not_found_text());
            assert("unknown"@ =~= unknown_text());
        }
        if find_text(message, "not found") {
            let words = split_whitespace(message);
            if words.len() > 2 {
                let name = words[2].clone();
                assert(name@ == words.deep_view()[2]);
                ConfigError::MissingEnvVar(name)
            } else {
                ConfigError::MissingEnvVar("unknown".to_owned())
            }
        } else {
            ConfigError::InvalidEnvVar("unknown".to_owned(), message.to_owned())
        }
    }

    /// The configuration error for the failure with which reading the
    /// environment into `Config` failed.
    pub fn from_env_error(error: &EnvError) -> (e: Self)
        ensures
            e@ == env_error_fault(error@),
            error@ matches EnvFault::MissingValue(field) ==> e@ == ConfigFault::MissingEnvVar(field),
            error@ matches EnvFault::Custom(m) ==> !contains_text(m, not_found_text())
                ==> e@ == ConfigFault::InvalidEnvVar(unknown_text(), m),
    {
        match error {
            EnvError::MissingValue(field) => ConfigError::MissingEnvVar(field.clone()),
            EnvError::Custom(message) => ConfigError::from_message(message.as_str()),
        }
    }
}

} // verus!
