//! The failure kinds shared by every component.

use vstd::prelude::*;
use vstd::string::*;

verus! {

/// Everything that can go wrong in the core. Variants that carry a `String`
/// hold a human-readable reason.
#[derive(Debug, Clone, PartialEq, Eq)]
pub enum VoyageError {
    NotInitialized,
    AlreadyInitialized,
    LockError,
    InvalidPacket(String),
    SocketError(String),
    NatTableFull,
    Connection(String),
    Nat(String),
    Rule(String),
    Socks5Error(String),
    IoError(String),
    ConfigError(String),
}

impl VoyageError {
    /// The text that `message` produces.
    pub open spec fn spec_message(&self) -> Seq<char> {
        match self {
            VoyageError::NotInitialized => "Core not initialized"@,
            VoyageError::AlreadyInitialized => "Core already initialized"@,
            VoyageError::LockError => "Lock error"@,
            VoyageError::InvalidPacket(m) => "Invalid packet: "@ + m@,
            VoyageError::SocketError(m) => "Socket error: "@ + m@,
            VoyageError::NatTableFull => "NAT table full"@,
            VoyageError::Connection(m) => "Connection error: "@ + m@,
            VoyageError::Nat(m) => "NAT error: "@ + m@,
            VoyageError::Rule(m) => "Rule error: "@ + m@,
            VoyageError::Socks5Error(m) => "SOCKS5 error: "@ + m@,
            VoyageError::IoError(m) => "IO error: "@ + m@,
            VoyageError::ConfigError(m) => "Configuration error: "@ + m@,
        }
    }

    /// The reason carried by the error, empty for the variants without one.
    pub open spec fn reason(&self) -> Seq<char> {
        match self {
            VoyageError::InvalidPacket(m) => m@,
            VoyageError::SocketError(m) => m@,
            VoyageError::Connection(m) => m@,
            VoyageError::Nat(m) => m@,
            VoyageError::Rule(m) => m@,
            VoyageError::Socks5Error(m) => m@,
            VoyageError::IoError(m) => m@,
            VoyageError::ConfigError(m) => m@,
            _ => Seq::empty(),
        }
    }

    /// Renders the error as a line of text: a fixed prefix per variant,
    /// followed by the reason where there is one.
    pub fn message(&self) -> (msg: String)
        ensures
            msg@ == self.spec_message(),
    {
        match self {
            VoyageError::NotInitialized => String::from_str("Core not initialized"),
            VoyageError::AlreadyInitialized => String::from_str("Core already initialized"),
            VoyageError::LockError => String::from_str("Lock error"),
            VoyageError::InvalidPacket(m) => String::from_str("Invalid packet: ").concat(
                m.as_str(),
            ),
            VoyageError::SocketError(m) => String::from_str("Socket error: ").concat(m.as_str()),
            VoyageError::NatTableFull => String::from_str("NAT table full"),
            VoyageError::Connection(m) => String::from_str("Connection error: ").concat(
                m.as_str(),
            ),
            VoyageError::Nat(m) => String::from_str("NAT error: ").concat(m.as_str()),
            VoyageError::Rule(m) => String::from_str("Rule error: ").concat(m.as_str()),
            VoyageError::Socks5Error(m) => String::from_str("SOCKS5 error: ").concat(m.as_str()),
            VoyageError::IoError(m) => String::from_str("IO error: ").concat(m.as_str()),
            VoyageError::ConfigError(m) => String::from_str("Configuration error: ").concat(
                m.as_str(),
            ),
        }
    }
}

/// Builds an `InvalidPacket` error with the given reason.
pub fn invalid_packet(reason: &str) -> (e: VoyageError)
    ensures
        e matches VoyageError::InvalidPacket(m) && m@ == reason@,
{
    VoyageError::InvalidPacket(String::from_str(reason))
}

/// Builds a `Socks5Error` with the given reason.
pub fn socks5_error(reason: &str) -> (e: VoyageError)
    ensures
        e matches VoyageError::Socks5Error(m) && m@ == reason@,
{
    VoyageError::Socks5Error(String::from_str(reason))
}

/// Builds a `ConfigError` with the given reason.
pub fn config_error(reason: &str) -> (e: VoyageError)
    ensures
        e matches VoyageError::ConfigError(m) && m@ == reason@,
{
    VoyageError::ConfigError(String::from_str(reason))
}

} // verus!
