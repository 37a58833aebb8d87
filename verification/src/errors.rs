//! Error types shared across the library, each with the human-readable
//! message that describes it.

use vstd::prelude::*;
use crate::strutil::{owned, push_str};

verus! {

/// `prefix` followed by `body`, as a new string.
fn joined(prefix: &str, body: &str) -> (s: String)
    ensures
        s@ == prefix@ + body@,
{
    let mut s = owned(prefix);
    push_str(&mut s, body);
    s
}

/// `prefix` followed by `body` followed by `suffix`, as a new string.
fn framed(prefix: &str, body: &str, suffix: &str) -> (s: String)
    ensures
        s@ == prefix@ + body@ + suffix@,
{
    let mut s = owned(prefix);
    push_str(&mut s, body);
    push_str(&mut s, suffix);
    s
}

/// A general console error carrying a message.
#[derive(Debug)]
pub struct ConsoleError {
    pub message: String,
}

impl ConsoleError {
    /// An error with the given message.
    pub fn new(message: &str) -> (e: Self)
        ensures
            e.message@ == message@,
    {
        ConsoleError { message: owned(message) }
    }

    /// `Console error: <message>`.
    pub fn to_string(&self) -> (s: String)
        ensures
            s@ == "Console error: "@ + self.message@,
    {
        joined("Console error: ", self.message.as_str())
    }
}

/// Errors in parsing or applying a style.
#[derive(Debug, Clone)]
pub enum StyleError {
    /// A style definition could not be parsed.
    Syntax(String),
    /// A named style does not exist.
    Missing(String),
    /// The style stack was misused.
    Stack(String),
    /// An attribute name is not known.
    UnknownAttribute(String),
}

impl StyleError {
    /// The message describing this error.
    pub fn to_string(&self) -> (s: String)
        ensures
            s@ == match self {
                StyleError::Syntax(m) => "Style syntax error: "@ + m@,
                StyleError::Missing(m) => "Missing style: '"@ + m@ + "'"@,
                StyleError::Stack(m) => "Style stack error: "@ + m@,
                StyleError::UnknownAttribute(m) => "Unknown style attribute: '"@ + m@ + "'"@,
            },
    {
        match self {
            StyleError::Syntax(m) => joined("Style syntax error: ", m.as_str()),
            StyleError::Missing(m) => framed("Missing style: '", m.as_str(), "'"),
            StyleError::Stack(m) => joined("Style stack error: ", m.as_str()),
            StyleError::UnknownAttribute(m) => framed("Unknown style attribute: '", m.as_str(), "'"),
        }
    }
}

/// Errors in markup tags.
#[derive(Debug, Clone)]
pub enum MarkupError {
    /// An opening tag was never closed.
    UnmatchedOpen(String),
    /// A closing tag had no matching opening tag.
    UnmatchedClose(String),
    /// A tag could not be parsed.
    MalformedTag(String),
}

impl MarkupError {
    /// The message describing this error.
    pub fn to_string(&self) -> (s: String)
        ensures
            s@ == match self {
                MarkupError::UnmatchedOpen(t) => "Unmatched opening tag: '["@ + t@ + "]'"@,
                MarkupError::UnmatchedClose(t) => "Unmatched closing tag: '[/"@ + t@ + "]'"@,
                MarkupError::MalformedTag(m) => "Malformed markup tag: "@ + m@,
            },
    {
        match self {
            MarkupError::UnmatchedOpen(t) => framed("Unmatched opening tag: '[", t.as_str(), "]'"),
            MarkupError::UnmatchedClose(t) => framed("Unmatched closing tag: '[/", t.as_str(), "]'"),
            MarkupError::MalformedTag(m) => joined("Malformed markup tag: ", m.as_str()),
        }
    }
}

/// An object could not be rendered; holds the name of its type.
#[derive(Debug, Clone)]
pub struct NotRenderableError(pub String);

impl NotRenderableError {
    /// The error for the named type.
    pub fn new(type_label: &str) -> (e: Self)
        ensures
            e.0@ == type_label@,
    {
        NotRenderableError(owned(type_label))
    }

    /// `Object of type '<name>' is not renderable`.
    pub fn to_string(&self) -> (s: String)
        ensures
            s@ == "Object of type '"@ + self.0@ + "' is not renderable"@,
    {
        framed("Object of type '", self.0.as_str(), "' is not renderable")
    }
}

/// Errors of a live display.
#[derive(Debug, Clone)]
pub enum LiveError {
    /// The alternate screen is not available.
    NoAltScreen,
    /// The display was used before it was started.
    NotStarted,
    /// The display was started twice.
    AlreadyStarted,
    /// The content did not fit.
    Overflow(String),
}

impl LiveError {
    /// The message describing this error.
    pub fn to_string(&self) -> (s: String)
        ensures
            s@ == match self {
                LiveError::NoAltScreen => "Alternate screen mode is not available"@,
                LiveError::NotStarted => "Live display has not been started"@,
                LiveError::AlreadyStarted => "Live display is already running"@,
                LiveError::Overflow(m) => "Live display overflow: "@ + m@,
            },
    {
        match self {
            LiveError::NoAltScreen => owned("Alternate screen mode is not available"),
            LiveError::NotStarted => owned("Live display has not been started"),
            LiveError::AlreadyStarted => owned("Live display is already running"),
            LiveError::Overflow(m) => joined("Live display overflow: ", m.as_str()),
        }
    }
}

} // verus!
