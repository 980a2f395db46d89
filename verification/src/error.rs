//! Typed failures of the transport and of the protocol layer, with the
//! messages they display.

use vstd::prelude::*;
use crate::text::{concat, owned};

verus! {

/// Transport-layer failures.
#[derive(Debug, Clone, PartialEq, Eq)]
pub enum TransportError {
    NotConnected,
    Io(String),
    Serial(String),
    Rejected(String),
    MockUnhandled(String),
    InvalidFrame(String),
}

impl TransportError {
    /// The message this error displays.
    pub open spec fn text(self) -> Seq<char> {
        match self {
            TransportError::NotConnected => "transport not connected"@,
            TransportError::Io(s) => "i/o error: "@ + s@,
            TransportError::Serial(s) => "serial error: "@ + s@,
            TransportError::Rejected(s) => "command rejected by device: "@ + s@,
            TransportError::MockUnhandled(s) => "mock transport: no handler registered for command "@
                + s@,
            TransportError::InvalidFrame(s) => "invalid frame: "@ + s@,
        }
    }

    /// The message this error displays.
    pub fn message(&self) -> (r: String)
        ensures
            r@ == self.text(),
    {
        match self {
            TransportError::NotConnected => owned("transport not connected"),
            TransportError::Io(s) => concat("i/o error: ", s.as_str()),
            TransportError::Serial(s) => concat("serial error: ", s.as_str()),
            TransportError::Rejected(s) => concat("command rejected by device: ", s.as_str()),
            TransportError::MockUnhandled(s) => concat(
                "mock transport: no handler registered for command ",
                s.as_str(),
            ),
            TransportError::InvalidFrame(s) => concat("invalid frame: ", s.as_str()),
        }
    }
}

/// Typed Flipper protocol errors.
#[derive(Debug, Clone, PartialEq, Eq)]
pub enum FlipperError {
    Transport(TransportError),
    Parse(String),
    Rejected(String),
    /// An I/O failure, by the text of the underlying error.
    Io(String),
    NotConnected,
    Unsupported(&'static str),
}

impl FlipperError {
    /// The message this error displays.
    pub open spec fn text(self) -> Seq<char> {
        match self {
            FlipperError::Transport(e) => "transport error: "@ + e.text(),
            FlipperError::Parse(s) => "protocol parse error: "@ + s@,
            FlipperError::Rejected(s) => "device rejected request: "@ + s@,
            FlipperError::Io(s) => "io error: "@ + s@,
            FlipperError::NotConnected => "device is not connected; call hello() first"@,
            FlipperError::Unsupported(s) => "unsupported operation on this firmware: "@ + s@,
        }
    }

    /// The message this error displays.
    pub fn message(&self) -> (r: String)
        ensures
            r@ == self.text(),
    {
        match self {
            FlipperError::Transport(e) => {
                let inner = e.message();
                let r = concat("transport error: ", inner.as_str());
                assert(r@ == "transport error: "@ + e.text());
                r
            },
            FlipperError::Parse(s) => concat("protocol parse error: ", s.as_str()),
            FlipperError::Rejected(s) => concat("device rejected request: ", s.as_str()),
            FlipperError::Io(s) => concat("io error: ", s.as_str()),
            FlipperError::NotConnected => owned("device is not connected; call hello() first"),
            FlipperError::Unsupported(s) => concat("unsupported operation on this firmware: ", s),
        }
    }
}

} // verus!
