//! Error types of the hub.
//!
//! [`BackendError`] is the failure surface of the radio link and backends. [`ConfigError`]
//! covers configuration loading and validation, and [`CatHubError`] is the daemon's top-level
//! error. Failures of the operating system and of the TOML parser are carried as their text.

use vstd::prelude::*;

verus! {

/// A failure from the radio transport or a backend operation.
#[derive(Debug, Clone, PartialEq, Eq)]
pub enum BackendError {
    /// The transport failed (closed, write error, scheduler gone).
    Transport(String),
    /// A solicited command timed out waiting for its reply.
    Timeout,
    /// The radio (or bridge) rejected the command.
    Rejected(String),
    /// The operation is not supported by this backend.
    Unsupported,
}

/// What a failure of the radio says.
pub enum Failure {
    /// The transport failed.
    Transport(Seq<char>),
    /// A solicited command timed out.
    Timeout,
    /// The radio rejected the command.
    Rejected(Seq<char>),
    /// The operation is not supported.
    Unsupported,
}

impl View for BackendError {
    type V = Failure;

    open spec fn view(&self) -> Failure {
        match *self {
            BackendError::Transport(why) => Failure::Transport(why@),
            BackendError::Timeout => Failure::Timeout,
            BackendError::Rejected(why) => Failure::Rejected(why@),
            BackendError::Unsupported => Failure::Unsupported,
        }
    }
}

impl BackendError {
    /// The words that describe this failure.
    pub open spec fn text(self) -> Seq<char> {
        match self {
            BackendError::Transport(why) => "transport: "@ + why@,
            BackendError::Timeout => "timeout"@,
            BackendError::Rejected(why) => "rejected: "@ + why@,
            BackendError::Unsupported => "unsupported"@,
        }
    }

    /// Describe this failure in words.
    #[must_use]
    pub fn message(&self) -> (r: String)
        ensures
            r@ == self.text(),
    {
        match self {
            BackendError::Transport(why) => {
                let mut out = "transport: ".to_owned();
                out.append(why.as_str());
                out
            },
            BackendError::Timeout => "timeout".to_owned(),
            BackendError::Rejected(why) => {
                let mut out = "rejected: ".to_owned();
                out.append(why.as_str());
                out
            },
            BackendError::Unsupported => "unsupported".to_owned(),
        }
    }
}

/// A configuration load or validation failure.
#[derive(Debug, Clone, PartialEq, Eq)]
pub enum ConfigError {
    /// The config file could not be read.
    Io(String),
    /// The config file is not valid TOML or has the wrong shape.
    Parse(String),
    /// The config parsed but is semantically invalid.
    Invalid(String),
}

impl ConfigError {
    /// The words that describe this failure.
    pub open spec fn text(self) -> Seq<char> {
        match self {
            ConfigError::Io(why) => "reading config: "@ + why@,
            ConfigError::Parse(why) => "parsing config: "@ + why@,
            ConfigError::Invalid(why) => "invalid config: "@ + why@,
        }
    }

    /// Describe this failure in words.
    #[must_use]
    pub fn message(&self) -> (r: String)
        ensures
            r@ == self.text(),
    {
        match self {
            ConfigError::Io(why) => {
                let mut out = "reading config: ".to_owned();
                out.append(why.as_str());
                out
            },
            ConfigError::Parse(why) => {
                let mut out = "parsing config: ".to_owned();
                out.append(why.as_str());
                out
            },
            ConfigError::Invalid(why) => {
                let mut out = "invalid config: ".to_owned();
                out.append(why.as_str());
                out
            },
        }
    }
}

/// The daemon's top-level error.
#[derive(Debug, Clone, PartialEq, Eq)]
pub enum CatHubError {
    /// A configuration problem.
    Config(ConfigError),
    /// An I/O problem binding an endpoint, opening a port, or similar.
    Io(String),
    /// The configured backend could not be built or initialized.
    Backend(String),
}

impl CatHubError {
    /// The words that describe this failure. A configuration problem speaks for itself.
    pub open spec fn text(self) -> Seq<char> {
        match self {
            CatHubError::Config(e) => e.text(),
            CatHubError::Io(why) => "i/o: "@ + why@,
            CatHubError::Backend(why) => "backend: "@ + why@,
        }
    }

    /// Describe this failure in words.
    #[must_use]
    pub fn message(&self) -> (r: String)
        ensures
            r@ == self.text(),
    {
        match self {
            CatHubError::Config(e) => e.message(),
            CatHubError::Io(why) => {
                let mut out = "i/o: ".to_owned();
                out.append(why.as_str());
                out
            },
            CatHubError::Backend(why) => {
                let mut out = "backend: ".to_owned();
                out.append(why.as_str());
                out
            },
        }
    }
}

impl vstd::std_specs::convert::FromSpecImpl<ConfigError> for CatHubError {
    open spec fn obeys_from_spec() -> bool {
        true
    }

    open spec fn from_spec(e: ConfigError) -> Self {
        CatHubError::Config(e)
    }
}

impl From<ConfigError> for CatHubError {
    fn from(e: ConfigError) -> (r: Self) {
        CatHubError::Config(e)
    }
}

/// The words of an error start with where it comes from.
pub proof fn law_error_words(why: String, problem: ConfigError)
    ensures
        BackendError::Transport(why).text() == "transport: "@ + why@,
        BackendError::Rejected(why).text() == "rejected: "@ + why@,
        BackendError::Timeout.text() == "timeout"@,
        BackendError::Unsupported.text() == "unsupported"@,
        ConfigError::Io(why).text() == "reading config: "@ + why@,
        ConfigError::Parse(why).text() == "parsing config: "@ + why@,
        ConfigError::Invalid(why).text() == "invalid config: "@ + why@,
        CatHubError::Config(problem).text() == problem.text(),
        CatHubError::Io(why).text() == "i/o: "@ + why@,
        CatHubError::Backend(why).text() == "backend: "@ + why@,
{
}

} // verus!
