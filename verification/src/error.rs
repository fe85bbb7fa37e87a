//! Error taxonomy: one type per component boundary.
//!
//! Codec failures never carry payloads out of the library; store and
//! delivery failures are reported as plain variants so that callers can
//! route a single-line message back to the command's origin.

use vstd::prelude::*;

verus! {

/// Raised while parsing a command string into a structured command.
#[derive(Debug, PartialEq, Eq, Clone)]
pub struct ParseError {
    pub message: Option<String>,
}

impl ParseError {
    pub fn new(message: String) -> (r: Self)
        ensures
            r.message == Some(message),
    {
        ParseError { message: Some(message) }
    }

    pub fn get_message(&self) -> (r: &Option<String>)
        ensures
            r == &self.message,
    {
        &self.message
    }

    /// The single-line text of this error.
    pub open spec fn spec_describe(&self) -> Seq<char> {
        match self.message {
            Some(m) => "error occurred while parsing: "@ + m@,
            None => "error occurred while parsing"@,
        }
    }

    /// Render the single-line text of this error.
    pub fn describe(&self) -> (r: String)
        ensures
            r@ == self.spec_describe(),
    {
        match &self.message {
            Some(m) => {
                let mut out = String::from_str("error occurred while parsing: ");
                out.append(m.as_str());
                out
            },
            None => String::from_str("error occurred while parsing"),
        }
    }
}

/// Malformed bytes handed to the codec: the frame is dropped, the
/// process keeps running.
#[derive(Debug, PartialEq, Eq, Clone)]
pub enum CodecError {
    /// The bytes are not a valid encoding of any protocol message.
    Malformed,
}

/// A persistence failure reported by the notification store backend.
#[derive(Debug, PartialEq, Eq, Clone)]
pub enum StoreError {
    /// The backing database reported an error.
    Backend,
    /// A stored value could not be decoded into a notification record.
    Corrupt,
}

/// Failures while building or delivering a notification.
#[derive(Debug, PartialEq, Eq, Clone)]
pub enum NotificationError {
    Desktop,
    Slack,
    Discord,
    EmptyConfiguration,
    NewNotification(ParseError),
    EmptyTimeValues,
}

/// Failures on the client side of the local transport.
#[derive(Debug, PartialEq, Eq, Clone)]
pub enum UdsHandlerError {
    NoSubcommand,
    ParseError(ParseError),
    SocketError,
    EncodeFailed,
    DecodeFailed(CodecError),
}

/// Failures while loading the configuration snapshot.
#[derive(Debug, PartialEq, Eq, Clone)]
pub enum ConfigurationError {
    FileNotFound,
    FileOpenError,
    JsonError,
    SlackConfigNotFound,
    DiscordConfigNotFound,
    UnspecifiedWorkTime,
    UnspecifiedBreakTime,
    LoadFail,
}

impl CodecError {
    pub open spec fn spec_describe(&self) -> Seq<char> {
        "failed to decode message"@
    }

    /// Render the single-line text of this error.
    pub fn describe(&self) -> (r: String)
        ensures
            r@ == self.spec_describe(),
    {
        String::from_str("failed to decode message")
    }
}

impl StoreError {
    pub open spec fn spec_describe(&self) -> Seq<char> {
        match self {
            StoreError::Backend => "the store backend failed"@,
            StoreError::Corrupt => "a stored record is corrupt"@,
        }
    }

    /// Render the single-line text of this error.
    pub fn describe(&self) -> (r: String)
        ensures
            r@ == self.spec_describe(),
    {
        match self {
            StoreError::Backend => String::from_str("the store backend failed"),
            StoreError::Corrupt => String::from_str("a stored record is corrupt"),
        }
    }
}

impl NotificationError {
    pub open spec fn spec_describe(&self) -> Seq<char> {
        match self {
            NotificationError::Desktop => "NotificationError::Desktop"@,
            NotificationError::Slack => "NotificationError::Slack"@,
            NotificationError::Discord => "NotificationError::Discord"@,
            NotificationError::EmptyConfiguration => "configuration is empty"@,
            NotificationError::NewNotification(e) => "failed to get new notification: "@
                + e.spec_describe(),
            NotificationError::EmptyTimeValues => "Cannot create a notification with 0 work time and 0 break time"@,
        }
    }

    /// Render the single-line text of this error.
    pub fn describe(&self) -> (r: String)
        ensures
            r@ == self.spec_describe(),
    {
        match self {
            NotificationError::Desktop => String::from_str("NotificationError::Desktop"),
            NotificationError::Slack => String::from_str("NotificationError::Slack"),
            NotificationError::Discord => String::from_str("NotificationError::Discord"),
            NotificationError::EmptyConfiguration => String::from_str("configuration is empty"),
            NotificationError::NewNotification(e) => {
                let mut out = String::from_str("failed to get new notification: ");
                let inner = e.describe();
                out.append(inner.as_str());
                out
            },
            NotificationError::EmptyTimeValues => String::from_str(
                "Cannot create a notification with 0 work time and 0 break time",
            ),
        }
    }
}

impl UdsHandlerError {
    pub open spec fn spec_describe(&self) -> Seq<char> {
        match self {
            UdsHandlerError::NoSubcommand => "subcommand is not present at runtime"@,
            UdsHandlerError::ParseError(_) => "failed to parse"@,
            UdsHandlerError::SocketError => "failed to handle socket method"@,
            UdsHandlerError::EncodeFailed => "failed to encode message"@,
            UdsHandlerError::DecodeFailed(_) => "failed to decode message"@,
        }
    }

    /// Render the single-line text of this error.
    pub fn describe(&self) -> (r: String)
        ensures
            r@ == self.spec_describe(),
    {
        match self {
            UdsHandlerError::NoSubcommand => String::from_str(
                "subcommand is not present at runtime",
            ),
            UdsHandlerError::ParseError(_) => String::from_str("failed to parse"),
            UdsHandlerError::SocketError => String::from_str("failed to handle socket method"),
            UdsHandlerError::EncodeFailed => String::from_str("failed to encode message"),
            UdsHandlerError::DecodeFailed(_) => String::from_str("failed to decode message"),
        }
    }
}

impl ConfigurationError {
    pub open spec fn spec_describe(&self) -> Seq<char> {
        match self {
            ConfigurationError::FileNotFound => "can not find configuration file"@,
            ConfigurationError::FileOpenError => "failed to open the file"@,
            ConfigurationError::JsonError => "failed to deserialize json"@,
            ConfigurationError::SlackConfigNotFound => "can not find slack config in json"@,
            ConfigurationError::DiscordConfigNotFound => "can not find discord config in json"@,
            ConfigurationError::UnspecifiedWorkTime => "not specified"@,
            ConfigurationError::UnspecifiedBreakTime => "not specified"@,
            ConfigurationError::LoadFail => "failed to load"@,
        }
    }

    /// Render the single-line text of this error.
    pub fn describe(&self) -> (r: String)
        ensures
            r@ == self.spec_describe(),
    {
        match self {
            ConfigurationError::FileNotFound => String::from_str("can not find configuration file"),
            ConfigurationError::FileOpenError => String::from_str("failed to open the file"),
            ConfigurationError::JsonError => String::from_str("failed to deserialize json"),
            ConfigurationError::SlackConfigNotFound => String::from_str(
                "can not find slack config in json",
            ),
            ConfigurationError::DiscordConfigNotFound => String::from_str(
                "can not find discord config in json",
            ),
            ConfigurationError::UnspecifiedWorkTime => String::from_str("not specified"),
            ConfigurationError::UnspecifiedBreakTime => String::from_str("not specified"),
            ConfigurationError::LoadFail => String::from_str("failed to load"),
        }
    }
}

/// Failures while executing one dispatched command; converted to a
/// single output line routed to the command's origin.
#[derive(Debug, PartialEq, Eq, Clone)]
pub enum UserInputHandlerError {
    NoSubcommand,
    ParseError(ParseError),
    CommandMatchError,
    NotificationError(NotificationError),
    SledError(StoreError),
}

impl UserInputHandlerError {
    pub open spec fn spec_describe(&self) -> Seq<char> {
        match self {
            UserInputHandlerError::NoSubcommand => "subcommand is not present at runtime"@,
            UserInputHandlerError::ParseError(e) => "failed to parse: "@ + e.spec_describe(),
            UserInputHandlerError::CommandMatchError => "failed to get matches"@,
            UserInputHandlerError::NotificationError(e) => e.spec_describe(),
            UserInputHandlerError::SledError(e) => e.spec_describe(),
        }
    }

    /// The single output line a failed command turns into, routed to
    /// the command's origin like any other output.
    pub fn describe(&self) -> (r: String)
        ensures
            r@ == self.spec_describe(),
    {
        match self {
            UserInputHandlerError::NoSubcommand => String::from_str(
                "subcommand is not present at runtime",
            ),
            UserInputHandlerError::ParseError(e) => {
                let mut out = String::from_str("failed to parse: ");
                let inner = e.describe();
                out.append(inner.as_str());
                out
            },
            UserInputHandlerError::CommandMatchError => String::from_str("failed to get matches"),
            UserInputHandlerError::NotificationError(e) => e.describe(),
            UserInputHandlerError::SledError(e) => e.describe(),
        }
    }
}

impl From<StoreError> for UserInputHandlerError {
    fn from(error: StoreError) -> (r: Self) {
        UserInputHandlerError::SledError(error)
    }
}

impl vstd::std_specs::convert::FromSpecImpl<StoreError> for UserInputHandlerError {
    open spec fn obeys_from_spec() -> bool {
        true
    }

    open spec fn from_spec(error: StoreError) -> Self {
        UserInputHandlerError::SledError(error)
    }
}

} // verus!
