//! Errors of the iAP2 stack.

use vstd::prelude::*;

use crate::text::{decimal, owned, push_number, push_text};

verus! {

broadcast use vstd::string::group_string_axioms;

/// The errors that the library's operations report. The transport-level
/// errors of the Bluetooth stack and of I/O are added by the code that owns
/// the transport.
#[derive(Debug)]
pub enum Iap2Error {
    Protocol(String),
    AuthenticationFailed(String),
    Mfi(String),
    InvalidPacket(String),
    Timeout,
    SessionNotFound(u8),
    ChannelClosed,
    ConnectionClosed,
}

pub type Result<T> = core::result::Result<T, Iap2Error>;

/// The fixed text that starts the description of an error.
pub open spec fn error_prefix(e: Iap2Error) -> Seq<char> {
    match e {
        Iap2Error::Protocol(_) => "Protocol error: "@,
        Iap2Error::AuthenticationFailed(_) => "Authentication failed: "@,
        Iap2Error::Mfi(_) => "MFi error: "@,
        Iap2Error::InvalidPacket(_) => "Invalid packet: "@,
        Iap2Error::Timeout => "Timeout"@,
        Iap2Error::SessionNotFound(_) => "Session not found: "@,
        Iap2Error::ChannelClosed => "Channel closed"@,
        Iap2Error::ConnectionClosed => "Connection closed"@,
    }
}

/// The description of an error: its fixed text, followed by its detail.
pub open spec fn error_text(e: Iap2Error) -> Seq<char> {
    match e {
        Iap2Error::Protocol(s) => error_prefix(e) + s@,
        Iap2Error::AuthenticationFailed(s) => error_prefix(e) + s@,
        Iap2Error::Mfi(s) => error_prefix(e) + s@,
        Iap2Error::InvalidPacket(s) => error_prefix(e) + s@,
        Iap2Error::SessionNotFound(id) => error_prefix(e) + decimal(id as nat),
        _ => error_prefix(e),
    }
}

impl Iap2Error {
    /// The human-readable description of the error: a fixed text for the
    /// kind of error, followed by its detail.
    pub fn to_string(&self) -> (r: String)
        ensures
            r@ == error_text(*self),
    {
        let mut r: String;
        match self {
            Iap2Error::Protocol(s) => {
                r = owned("Protocol error: ");
                push_text(&mut r, s.as_str());
            },
            Iap2Error::AuthenticationFailed(s) => {
                r = owned("Authentication failed: ");
                push_text(&mut r, s.as_str());
            },
            Iap2Error::Mfi(s) => {
                r = owned("MFi error: ");
                push_text(&mut r, s.as_str());
            },
            Iap2Error::InvalidPacket(s) => {
                r = owned("Invalid packet: ");
                push_text(&mut r, s.as_str());
            },
            Iap2Error::Timeout => {
                r = owned("Timeout");
            },
            Iap2Error::SessionNotFound(id) => {
                r = owned("Session not found: ");
                push_number(&mut r, *id as u64);
            },
            Iap2Error::ChannelClosed => {
                r = owned("Channel closed");
            },
            Iap2Error::ConnectionClosed => {
                r = owned("Connection closed");
            },
        }
        r
    }
}

} // verus!
