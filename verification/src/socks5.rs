//! The SOCKS5 client protocol: the messages of the greeting, of user and
//! password authentication and of the CONNECT request, and the steps by
//! which a tunnel is set up.

use bytes::BytesMut;
use vstd::prelude::*;
use vstd::string::*;

use crate::addr::{parse_ip_text, IpAddr, SocketAddr};
use crate::buffer::{
    buffer_bytes, buffer_new, buffer_put, buffer_put_slice, buffer_put_u16, buffer_put_u8,
};
use crate::error::{config_error, socks5_error, VoyageError};
use crate::packet::u16_be_bytes;
use crate::text::to_chars;

verus! {

/// The protocol version byte.
pub const SOCKS5_VERSION: u8 = 0x05;

/// Authentication methods.
#[derive(Debug, Clone, Copy, PartialEq, Eq, Structural)]
pub enum AuthMethod {
    NoAuth,
    UsernamePassword,
    NoAcceptable,
}

impl AuthMethod {
    /// The method that a method byte names: 0 is no authentication, 2 is
    /// user and password, and every other byte is no acceptable method.
    pub open spec fn spec_from(value: u8) -> AuthMethod {
        if value == 0x00 {
            AuthMethod::NoAuth
        } else if value == 0x02 {
            AuthMethod::UsernamePassword
        } else {
            AuthMethod::NoAcceptable
        }
    }

    /// The byte of the method on the wire.
    pub open spec fn spec_code(self) -> u8 {
        match self {
            AuthMethod::NoAuth => 0x00,
            AuthMethod::UsernamePassword => 0x02,
            AuthMethod::NoAcceptable => 0xFF,
        }
    }

    /// The byte of the method on the wire.
    pub fn code(&self) -> (c: u8)
        ensures
            c == self.spec_code(),
    {
        match self {
            AuthMethod::NoAuth => 0x00,
            AuthMethod::UsernamePassword => 0x02,
            AuthMethod::NoAcceptable => 0xFF,
        }
    }
}

impl From<u8> for AuthMethod {
    fn from(value: u8) -> (m: AuthMethod) {
        if value == 0x00 {
            AuthMethod::NoAuth
        } else if value == 0x02 {
            AuthMethod::UsernamePassword
        } else {
            AuthMethod::NoAcceptable
        }
    }
}

impl vstd::std_specs::convert::FromSpecImpl<u8> for AuthMethod {
    open spec fn obeys_from_spec() -> bool {
        true
    }

    open spec fn from_spec(value: u8) -> AuthMethod {
        AuthMethod::spec_from(value)
    }
}

/// Commands of a request.
#[derive(Debug, Clone, Copy, PartialEq, Eq, Structural)]
pub enum Command {
    Connect,
    Bind,
    UdpAssociate,
}

impl Command {
    /// The byte of the command on the wire.
    pub open spec fn spec_code(self) -> u8 {
        match self {
            Command::Connect => 0x01,
            Command::Bind => 0x02,
            Command::UdpAssociate => 0x03,
        }
    }

    /// The byte of the command on the wire.
    pub fn code(&self) -> (c: u8)
        ensures
            c == self.spec_code(),
    {
        match self {
            Command::Connect => 0x01,
            Command::Bind => 0x02,
            Command::UdpAssociate => 0x03,
        }
    }
}

/// Address types of a request or a reply.
#[derive(Debug, Clone, Copy, PartialEq, Eq, Structural)]
pub enum AddressType {
    IPv4,
    DomainName,
    IPv6,
}

impl AddressType {
    /// The byte of the address type on the wire.
    pub open spec fn spec_code(self) -> u8 {
        match self {
            AddressType::IPv4 => 0x01,
            AddressType::DomainName => 0x03,
            AddressType::IPv6 => 0x04,
        }
    }

    /// The byte of the address type on the wire.
    pub fn code(&self) -> (c: u8)
        ensures
            c == self.spec_code(),
    {
        match self {
            AddressType::IPv4 => 0x01,
            AddressType::DomainName => 0x03,
            AddressType::IPv6 => 0x04,
        }
    }
}

/// Reply codes of the server.
#[derive(Debug, Clone, Copy, PartialEq, Eq, Structural)]
pub enum ReplyCode {
    Succeeded,
    GeneralFailure,
    ConnectionNotAllowed,
    NetworkUnreachable,
    HostUnreachable,
    ConnectionRefused,
    TtlExpired,
    CommandNotSupported,
    AddressTypeNotSupported,
}

impl ReplyCode {
    /// The reply that a reply byte names: 0 to 8 in the order of the
    /// variants, and a general failure for every other byte.
    pub open spec fn spec_from(value: u8) -> ReplyCode {
        if value == 0x00 {
            ReplyCode::Succeeded
        } else if value == 0x01 {
            ReplyCode::GeneralFailure
        } else if value == 0x02 {
            ReplyCode::ConnectionNotAllowed
        } else if value == 0x03 {
            ReplyCode::NetworkUnreachable
        } else if value == 0x04 {
            ReplyCode::HostUnreachable
        } else if value == 0x05 {
            ReplyCode::ConnectionRefused
        } else if value == 0x06 {
            ReplyCode::TtlExpired
        } else if value == 0x07 {
            ReplyCode::CommandNotSupported
        } else if value == 0x08 {
            ReplyCode::AddressTypeNotSupported
        } else {
            ReplyCode::GeneralFailure
        }
    }

    /// The byte of the reply on the wire.
    pub open spec fn spec_code(self) -> u8 {
        match self {
            ReplyCode::Succeeded => 0x00,
            ReplyCode::GeneralFailure => 0x01,
            ReplyCode::ConnectionNotAllowed => 0x02,
            ReplyCode::NetworkUnreachable => 0x03,
            ReplyCode::HostUnreachable => 0x04,
            ReplyCode::ConnectionRefused => 0x05,
            ReplyCode::TtlExpired => 0x06,
            ReplyCode::CommandNotSupported => 0x07,
            ReplyCode::AddressTypeNotSupported => 0x08,
        }
    }

    /// The reply in words.
    pub open spec fn spec_error_message(self) -> Seq<char> {
        match self {
            ReplyCode::Succeeded => "Succeeded"@,
            ReplyCode::GeneralFailure => "General SOCKS server failure"@,
            ReplyCode::ConnectionNotAllowed => "Connection not allowed by ruleset"@,
            ReplyCode::NetworkUnreachable => "Network unreachable"@,
            ReplyCode::HostUnreachable => "Host unreachable"@,
            ReplyCode::ConnectionRefused => "Connection refused"@,
            ReplyCode::TtlExpired => "TTL expired"@,
            ReplyCode::CommandNotSupported => "Command not supported"@,
            ReplyCode::AddressTypeNotSupported => "Address type not supported"@,
        }
    }

    /// The byte of the reply on the wire.
    pub fn code(&self) -> (c: u8)
        ensures
            c == self.spec_code(),
            Self::spec_from(c) == *self,
    {
        match self {
            ReplyCode::Succeeded => 0x00,
            ReplyCode::GeneralFailure => 0x01,
            ReplyCode::ConnectionNotAllowed => 0x02,
            ReplyCode::NetworkUnreachable => 0x03,
            ReplyCode::HostUnreachable => 0x04,
            ReplyCode::ConnectionRefused => 0x05,
            ReplyCode::TtlExpired => 0x06,
            ReplyCode::CommandNotSupported => 0x07,
            ReplyCode::AddressTypeNotSupported => 0x08,
        }
    }

    /// The reply in words.
    pub fn to_error_message(&self) -> (s: &'static str)
        ensures
            s@ == self.spec_error_message(),
    {
        match self {
            ReplyCode::Succeeded => "Succeeded",
            ReplyCode::GeneralFailure => "General SOCKS server failure",
            ReplyCode::ConnectionNotAllowed => "Connection not allowed by ruleset",
            ReplyCode::NetworkUnreachable => "Network unreachable",
            ReplyCode::HostUnreachable => "Host unreachable",
            ReplyCode::ConnectionRefused => "Connection refused",
            ReplyCode::TtlExpired => "TTL expired",
            ReplyCode::CommandNotSupported => "Command not supported",
            ReplyCode::AddressTypeNotSupported => "Address type not supported",
        }
    }
}

impl From<u8> for ReplyCode {
    fn from(value: u8) -> (r: ReplyCode) {
        if value == 0x00 {
            ReplyCode::Succeeded
        } else if value == 0x01 {
            ReplyCode::GeneralFailure
        } else if value == 0x02 {
            ReplyCode::ConnectionNotAllowed
        } else if value == 0x03 {
            ReplyCode::NetworkUnreachable
        } else if value == 0x04 {
            ReplyCode::HostUnreachable
        } else if value == 0x05 {
            ReplyCode::ConnectionRefused
        } else if value == 0x06 {
            ReplyCode::TtlExpired
        } else if value == 0x07 {
            ReplyCode::CommandNotSupported
        } else if value == 0x08 {
            ReplyCode::AddressTypeNotSupported
        } else {
            ReplyCode::GeneralFailure
        }
    }
}

impl vstd::std_specs::convert::FromSpecImpl<u8> for ReplyCode {
    open spec fn obeys_from_spec() -> bool {
        true
    }

    open spec fn from_spec(value: u8) -> ReplyCode {
        ReplyCode::spec_from(value)
    }
}

/// The destination of a tunnel: an IP address with a port, or a domain name
/// with a port.
#[derive(Debug, Clone)]
pub enum TargetAddr {
    Ip(SocketAddr),
    Domain(String, u16),
}

/// The length byte of a text of `len` bytes: the length itself up to 255,
/// and its low eight bits beyond.
pub open spec fn length_byte(len: nat) -> u8 {
    (len % 256) as u8
}

impl TargetAddr {
    /// The port of the destination.
    pub open spec fn spec_port(&self) -> u16 {
        match self {
            TargetAddr::Ip(addr) => addr.spec_port(),
            TargetAddr::Domain(_, port) => *port,
        }
    }

    /// The destination on the wire: the address type, the address, and the
    /// port with its more significant byte first. An IPv4 address is type 1
    /// with four octets, an IPv6 address type 4 with sixteen, and a domain
    /// name type 3 with a length byte before the bytes of the name.
    pub open spec fn spec_encode(&self) -> Seq<u8> {
        match self {
            TargetAddr::Ip(SocketAddr::V4(a)) => seq![0x01u8] + a.ip.spec_octets() + u16_be_bytes(
                a.port,
            ),
            TargetAddr::Ip(SocketAddr::V6(a)) => seq![0x04u8] + a.ip.spec_octets() + u16_be_bytes(
                a.port,
            ),
            TargetAddr::Domain(domain, port) => seq![
                0x03u8,
                length_byte(vstd::utf8::encode_utf8(domain@).len()),
            ] + vstd::utf8::encode_utf8(domain@) + u16_be_bytes(*port),
        }
    }

    /// Whether the wire form fits a buffer.
    pub open spec fn fits(&self) -> bool {
        self.spec_encode().len() <= isize::MAX
    }

    /// The destination at a socket address.
    pub fn from_socket_addr(addr: SocketAddr) -> (target: TargetAddr)
        ensures
            target == TargetAddr::Ip(addr),
    {
        TargetAddr::Ip(addr)
    }

    /// The destination at a domain name and a port.
    pub fn from_domain(domain: &str, port: u16) -> (target: TargetAddr)
        ensures
            target matches TargetAddr::Domain(d, p) && d@ == domain@ && p == port,
    {
        TargetAddr::Domain(String::from_str(domain), port)
    }

    /// The port of the destination.
    pub fn port(&self) -> (port: u16)
        ensures
            port == self.spec_port(),
    {
        match self {
            TargetAddr::Ip(addr) => addr.port(),
            TargetAddr::Domain(_, port) => *port,
        }
    }

    /// Encodes the destination for the wire.
    pub fn encode(&self) -> (buf: BytesMut)
        requires
            self.fits(),
        ensures
            buffer_bytes(buf) == self.spec_encode(),
    {
        let mut buf = buffer_new();
        match self {
            TargetAddr::Ip(SocketAddr::V4(addr)) => {
                buffer_put_u8(&mut buf, AddressType::IPv4.code());
                let octets = addr.ip().octets();
                buffer_put_slice(&mut buf, octets.as_slice());
                buffer_put_u16(&mut buf, addr.port());
                assert(buffer_bytes(buf) =~= self.spec_encode());
            },
            TargetAddr::Ip(SocketAddr::V6(addr)) => {
                buffer_put_u8(&mut buf, AddressType::IPv6.code());
                let octets = addr.ip().octets();
                buffer_put_slice(&mut buf, octets.as_slice());
                buffer_put_u16(&mut buf, addr.port());
                assert(buffer_bytes(buf) =~= self.spec_encode());
            },
            TargetAddr::Domain(domain, port) => {
                buffer_put_u8(&mut buf, AddressType::DomainName.code());
                let domain_bytes = domain.as_str().as_bytes();
                buffer_put_u8(&mut buf, (domain_bytes.len() % 256) as u8);
                buffer_put_slice(&mut buf, domain_bytes);
                buffer_put_u16(&mut buf, *port);
                assert(buffer_bytes(buf) =~= self.spec_encode());
            },
        }
        buf
    }
}

/// A client of one SOCKS5 proxy, with the credentials to offer where it has
/// both a user name and a password.
#[derive(Debug, Clone)]
pub struct Socks5Client {
    pub proxy_addr: SocketAddr,
    pub username: Option<String>,
    pub password: Option<String>,
}

/// Where the setting up of a tunnel stands. Each state but `Init` and the
/// two last ones waits for bytes from the server. The selection of the
/// method and the passing of authentication have no state of their own: the
/// step that takes them in sends the next message at once.
#[derive(Debug, Clone, Copy, PartialEq, Eq, Structural)]
pub enum HandshakeState {
    /// Nothing was sent.
    Init,
    /// The greeting went out; the method selection is awaited.
    GreetingSent,
    /// The method was selected and the credentials went out; the verdict is
    /// awaited.
    AuthSent,
    /// The method was selected, authentication was passed where it was asked
    /// for, and the request went out; the head of the reply is awaited.
    RequestSent,
    /// The reply says that the request succeeded and that the bound address
    /// is a domain name; the length of the name is awaited.
    ReplyDomainLength,
    /// The reply says that the request succeeded; what is left of the bound
    /// address is awaited, to be thrown away.
    ReplyReceived,
    /// The tunnel stands.
    Connected,
    /// The tunnel was refused; the stream is to be closed.
    Failed,
}

/// What happened on the stream to the proxy.
#[derive(Debug, Clone)]
pub enum HandshakeEvent {
    /// The stream to the proxy stands.
    Start,
    /// The bytes that were asked for have come.
    Received(Vec<u8>),
    /// Reading or writing failed, for the given reason.
    IoFailed(String),
}

/// An event with its data as plain values.
pub enum HandshakeEventView {
    Start,
    Received(Seq<u8>),
    IoFailed(Seq<char>),
}

impl View for HandshakeEvent {
    type V = HandshakeEventView;

    open spec fn view(&self) -> HandshakeEventView {
        match self {
            HandshakeEvent::Start => HandshakeEventView::Start,
            HandshakeEvent::Received(data) => HandshakeEventView::Received(data@),
            HandshakeEvent::IoFailed(reason) => HandshakeEventView::IoFailed(reason@),
        }
    }
}

/// What to do next on the stream to the proxy.
#[derive(Debug)]
pub enum HandshakeAction {
    /// Write the bytes, then read exactly so many bytes and hand them in.
    SendAndReceive(BytesMut, usize),
    /// Read exactly so many bytes and hand them in.
    Receive(usize),
    /// Nothing: the stream is the tunnel.
    Done,
    /// Close the stream and give up with this error.
    Fail(VoyageError),
}

/// An action with its data as plain values; a failure with its reason.
pub enum HandshakeActionView {
    SendAndReceive(Seq<u8>, nat),
    Receive(nat),
    Done,
    Fail(Seq<char>),
}

impl View for HandshakeAction {
    type V = HandshakeActionView;

    open spec fn view(&self) -> HandshakeActionView {
        match self {
            HandshakeAction::SendAndReceive(buf, n) => HandshakeActionView::SendAndReceive(
                buffer_bytes(*buf),
                *n as nat,
            ),
            HandshakeAction::Receive(n) => HandshakeActionView::Receive(*n as nat),
            HandshakeAction::Done => HandshakeActionView::Done,
            HandshakeAction::Fail(e) => HandshakeActionView::Fail(e.reason()),
        }
    }
}

/// A failure with the given reason.
pub open spec fn failure(reason: Seq<char>) -> (HandshakeState, HandshakeActionView) {
    (HandshakeState::Failed, HandshakeActionView::Fail(reason))
}

/// The text that an optional string holds; the empty text where there is
/// none.
pub open spec fn text_of(s: Option<String>) -> Seq<char> {
    match s {
        Some(t) => t@,
        None => Seq::empty(),
    }
}

/// The bytes of a text on the wire.
pub open spec fn wire_bytes(text: Seq<char>) -> Seq<u8> {
    vstd::utf8::encode_utf8(text)
}

impl Socks5Client {
    /// Whether the client has both a user name and a password.
    pub open spec fn has_credentials(&self) -> bool {
        self.username is Some && self.password is Some
    }

    /// The greeting: the version, the number of methods on offer, and the
    /// methods. A client with credentials offers no authentication and user
    /// with password; any other client offers no authentication alone.
    pub open spec fn greeting_bytes(&self) -> Seq<u8> {
        if self.has_credentials() {
            seq![0x05u8, 2u8, 0x00u8, 0x02u8]
        } else {
            seq![0x05u8, 1u8, 0x00u8]
        }
    }

    /// The authentication request for a user name and a password: the
    /// version 1, then each of the two with its length byte before it.
    pub open spec fn auth_request_bytes(username: Seq<char>, password: Seq<char>) -> Seq<u8> {
        seq![0x01u8, length_byte(wire_bytes(username).len())] + wire_bytes(username) + seq![
            length_byte(wire_bytes(password).len()),
        ] + wire_bytes(password)
    }

    /// The CONNECT request for a destination: the version, the command 1, a
    /// zero byte, and the destination.
    pub open spec fn connect_request_bytes(target: &TargetAddr) -> Seq<u8> {
        seq![0x05u8, 0x01u8, 0x00u8] + target.spec_encode()
    }

    /// Whether the messages for this client and destination fit a buffer.
    pub open spec fn fits(&self, target: &TargetAddr) -> bool {
        &&& Self::connect_request_bytes(target).len() <= isize::MAX
        &&& self.credentials_fit()
    }

    /// Whether the authentication request fits a buffer.
    pub open spec fn credentials_fit(&self) -> bool {
        wire_bytes(text_of(self.username)).len() + wire_bytes(text_of(self.password)).len() + 3
            <= isize::MAX
    }

    /// Whether the messages for this client and destination fit a buffer.
    pub fn can_serve(&self, target: &TargetAddr) -> (r: bool)
        ensures
            r == self.fits(target),
    {
        let max: usize = isize::MAX as usize;
        let target_fits = match target {
            TargetAddr::Ip(_) => true,
            TargetAddr::Domain(domain, _) => domain.as_str().as_bytes().len() <= max - 7,
        };
        target_fits && self.credentials_fit_check()
    }

    /// Whether the authentication request fits a buffer.
    fn credentials_fit_check(&self) -> (r: bool)
        ensures
            r == self.credentials_fit(),
    {
        proof {
            reveal_with_fuel(vstd::utf8::encode_utf8, 1);
            assert(wire_bytes(Seq::<char>::empty()).len() == 0);
        }
        let user_len: usize = match &self.username {
            Some(u) => u.as_str().as_bytes().len(),
            None => 0,
        };
        let pass_len: usize = match &self.password {
            Some(p) => p.as_str().as_bytes().len(),
            None => 0,
        };
        let max: usize = isize::MAX as usize;
        user_len <= max - 3 && pass_len <= max - 3 - user_len
    }

    /// A client without credentials.
    pub fn new(proxy_addr: SocketAddr) -> (client: Socks5Client)
        ensures
            client.proxy_addr == proxy_addr,
            client.username is None,
            client.password is None,
    {
        Socks5Client { proxy_addr, username: None, password: None }
    }

    /// A client with a user name and a password.
    pub fn with_auth(proxy_addr: SocketAddr, username: &str, password: &str) -> (client:
        Socks5Client)
        ensures
            client.proxy_addr == proxy_addr,
            client.username matches Some(u) && u@ == username@,
            client.password matches Some(p) && p@ == password@,
    {
        Socks5Client {
            proxy_addr,
            username: Some(String::from_str(username)),
            password: Some(String::from_str(password)),
        }
    }

    /// Builds the greeting.
    pub fn greeting(&self) -> (buf: BytesMut)
        ensures
            buffer_bytes(buf) == self.greeting_bytes(),
    {
        let mut buf = buffer_new();
        buffer_put_u8(&mut buf, SOCKS5_VERSION);
        if self.username.is_some() && self.password.is_some() {
            buffer_put_u8(&mut buf, 2);
            buffer_put_u8(&mut buf, AuthMethod::NoAuth.code());
            buffer_put_u8(&mut buf, AuthMethod::UsernamePassword.code());
        } else {
            buffer_put_u8(&mut buf, 1);
            buffer_put_u8(&mut buf, AuthMethod::NoAuth.code());
        }
        assert(buffer_bytes(buf) =~= self.greeting_bytes());
        buf
    }

    /// Builds the authentication request. Fails where the user name or the
    /// password is missing.
    pub fn auth_request(&self) -> (r: Result<BytesMut, VoyageError>)
        requires
            self.credentials_fit(),
        ensures
            match r {
                Ok(buf) => self.username matches Some(u) && self.password matches Some(p)
                    && buffer_bytes(buf) == Self::auth_request_bytes(u@, p@),
                Err(e) => e matches VoyageError::Socks5Error(m) && if self.username is None {
                    m@ == "Authentication required but no username"@
                } else {
                    self.password is None && m@ == "Authentication required but no password"@
                },
            },
    {
        let username = match &self.username {
            Some(u) => u,
            None => {
                return Err(socks5_error("Authentication required but no username"));
            },
        };
        let password = match &self.password {
            Some(p) => p,
            None => {
                return Err(socks5_error("Authentication required but no password"));
            },
        };
        let user_bytes = username.as_str().as_bytes();
        let pass_bytes = password.as_str().as_bytes();
        let mut buf = buffer_new();
        buffer_put_u8(&mut buf, 0x01);
        buffer_put_u8(&mut buf, (user_bytes.len() % 256) as u8);
        buffer_put_slice(&mut buf, user_bytes);
        buffer_put_u8(&mut buf, (pass_bytes.len() % 256) as u8);
        buffer_put_slice(&mut buf, pass_bytes);
        assert(buffer_bytes(buf) =~= Self::auth_request_bytes(username@, password@));
        Ok(buf)
    }

    /// Builds the CONNECT request for a destination.
    pub fn connect_request(target: &TargetAddr) -> (buf: BytesMut)
        requires
            Self::connect_request_bytes(target).len() <= isize::MAX,
        ensures
            buffer_bytes(buf) == Self::connect_request_bytes(target),
    {
        let mut buf = buffer_new();
        buffer_put_u8(&mut buf, SOCKS5_VERSION);
        buffer_put_u8(&mut buf, Command::Connect.code());
        buffer_put_u8(&mut buf, 0x00);
        buffer_put(&mut buf, target.encode());
        assert(buffer_bytes(buf) =~= Self::connect_request_bytes(target));
        buf
    }

    /// What follows the server's method selection. The selection is two
    /// bytes: the version, which must be 5, and the method. Without
    /// authentication the request goes out; with user and password the
    /// credentials go out, where the client has them; any other method is
    /// refused.
    pub open spec fn after_method_selection(&self, target: &TargetAddr, data: Seq<u8>) -> (
        HandshakeState,
        HandshakeActionView,
    ) {
        if data.len() != 2 {
            failure("Unexpected reply length"@)
        } else if data[0] != 0x05 {
            failure("Invalid SOCKS version"@)
        } else {
            match AuthMethod::spec_from(data[1]) {
                AuthMethod::NoAuth => (
                    HandshakeState::RequestSent,
                    HandshakeActionView::SendAndReceive(Self::connect_request_bytes(target), 4),
                ),
                AuthMethod::UsernamePassword => match (self.username, self.password) {
                    (Some(u), Some(p)) => (
                        HandshakeState::AuthSent,
                        HandshakeActionView::SendAndReceive(Self::auth_request_bytes(u@, p@), 2),
                    ),
                    (None, _) => failure("Authentication required but no username"@),
                    (Some(_), None) => failure("Authentication required but no password"@),
                },
                AuthMethod::NoAcceptable => failure("No acceptable auth method"@),
            }
        }
    }

    /// What follows the server's verdict on the credentials. The verdict is
    /// two bytes; the second one is the status, and any status but 0 is a
    /// refusal.
    pub open spec fn after_auth_reply(target: &TargetAddr, data: Seq<u8>) -> (
        HandshakeState,
        HandshakeActionView,
    ) {
        if data.len() != 2 {
            failure("Unexpected reply length"@)
        } else if data[1] != 0x00 {
            failure("Authentication failed"@)
        } else {
            (
                HandshakeState::RequestSent,
                HandshakeActionView::SendAndReceive(Self::connect_request_bytes(target), 4),
            )
        }
    }

    /// What follows the head of the server's reply. The head is four bytes:
    /// the version, which must be 5, the reply code, which must be 0, a
    /// reserved byte, and the type of the bound address, which says how many
    /// bytes are left to read: 6 for IPv4, 18 for IPv6, and for a domain
    /// name one byte that holds the length of the name.
    pub open spec fn after_reply_header(data: Seq<u8>) -> (HandshakeState, HandshakeActionView) {
        if data.len() != 4 {
            failure("Unexpected reply length"@)
        } else if data[0] != 0x05 {
            failure("Invalid SOCKS version in reply"@)
        } else if ReplyCode::spec_from(data[1]) != ReplyCode::Succeeded {
            failure(ReplyCode::spec_from(data[1]).spec_error_message())
        } else if data[3] == 0x01 {
            (HandshakeState::ReplyReceived, HandshakeActionView::Receive(6))
        } else if data[3] == 0x03 {
            (HandshakeState::ReplyDomainLength, HandshakeActionView::Receive(1))
        } else if data[3] == 0x04 {
            (HandshakeState::ReplyReceived, HandshakeActionView::Receive(18))
        } else {
            failure("Unknown address type in reply"@)
        }
    }

    /// What follows the length byte of a bound domain name: the name and the
    /// two bytes of the port are left to read.
    pub open spec fn after_domain_length(data: Seq<u8>) -> (HandshakeState, HandshakeActionView) {
        if data.len() != 1 {
            failure("Unexpected reply length"@)
        } else {
            (HandshakeState::ReplyReceived, HandshakeActionView::Receive((data[0] + 2) as nat))
        }
    }

    /// The next state and the action to take, from a state and an event.
    ///
    /// The two last states stay as they are. In any other state a failure
    /// of the stream ends the handshake with its reason. `Start` is expected
    /// in `Init` alone and bytes in the states that wait for them; anything
    /// else ends the handshake.
    pub open spec fn spec_step(
        &self,
        target: &TargetAddr,
        state: HandshakeState,
        event: HandshakeEventView,
    ) -> (HandshakeState, HandshakeActionView) {
        match state {
            HandshakeState::Connected => (HandshakeState::Connected, HandshakeActionView::Done),
            HandshakeState::Failed => failure("Handshake has failed"@),
            _ => match event {
                HandshakeEventView::IoFailed(reason) => failure(reason),
                HandshakeEventView::Start => if state == HandshakeState::Init {
                    (
                        HandshakeState::GreetingSent,
                        HandshakeActionView::SendAndReceive(self.greeting_bytes(), 2),
                    )
                } else {
                    failure("Unexpected event"@)
                },
                HandshakeEventView::Received(data) => match state {
                    HandshakeState::GreetingSent => self.after_method_selection(target, data),
                    HandshakeState::AuthSent => Self::after_auth_reply(target, data),
                    HandshakeState::RequestSent => Self::after_reply_header(data),
                    HandshakeState::ReplyDomainLength => Self::after_domain_length(data),
                    HandshakeState::ReplyReceived => (
                        HandshakeState::Connected,
                        HandshakeActionView::Done,
                    ),
                    _ => failure("Unexpected event"@),
                },
            },
        }
    }

    /// Decides on the server's method selection.
    pub fn on_method_selection(&self, target: &TargetAddr, data: &[u8]) -> (next: (
        HandshakeState,
        HandshakeAction,
    ))
        requires
            self.fits(target),
        ensures
            (next.0, next.1@) == self.after_method_selection(target, data@),
            next.1 matches HandshakeAction::Fail(e) ==> e is Socks5Error,
    {
        if data.len() != 2 {
            return fail("Unexpected reply length");
        }
        if data[0] != SOCKS5_VERSION {
            return fail("Invalid SOCKS version");
        }
        match AuthMethod::from(data[1]) {
            AuthMethod::NoAuth => (
                HandshakeState::RequestSent,
                HandshakeAction::SendAndReceive(Self::connect_request(target), 4),
            ),
            AuthMethod::UsernamePassword => match self.auth_request() {
                Ok(buf) => (HandshakeState::AuthSent, HandshakeAction::SendAndReceive(buf, 2)),
                Err(e) => (HandshakeState::Failed, HandshakeAction::Fail(e)),
            },
            AuthMethod::NoAcceptable => fail("No acceptable auth method"),
        }
    }

    /// Decides on the server's verdict on the credentials.
    pub fn on_auth_reply(target: &TargetAddr, data: &[u8]) -> (next: (
        HandshakeState,
        HandshakeAction,
    ))
        requires
            Self::connect_request_bytes(target).len() <= isize::MAX,
        ensures
            (next.0, next.1@) == Self::after_auth_reply(target, data@),
            next.1 matches HandshakeAction::Fail(e) ==> e is Socks5Error,
    {
        if data.len() != 2 {
            return fail("Unexpected reply length");
        }
        if data[1] != 0x00 {
            return fail("Authentication failed");
        }
        (
            HandshakeState::RequestSent,
            HandshakeAction::SendAndReceive(Self::connect_request(target), 4),
        )
    }

    /// Decides on the head of the server's reply.
    pub fn on_reply_header(data: &[u8]) -> (next: (HandshakeState, HandshakeAction))
        ensures
            (next.0, next.1@) == Self::after_reply_header(data@),
            next.1 matches HandshakeAction::Fail(e) ==> e is Socks5Error,
    {
        if data.len() != 4 {
            return fail("Unexpected reply length");
        }
        if data[0] != SOCKS5_VERSION {
            return fail("Invalid SOCKS version in reply");
        }
        let reply_code = ReplyCode::from(data[1]);
        if reply_code != ReplyCode::Succeeded {
            return fail(reply_code.to_error_message());
        }
        let addr_type = data[3];
        if addr_type == 0x01 {
            (HandshakeState::ReplyReceived, HandshakeAction::Receive(6))
        } else if addr_type == 0x03 {
            (HandshakeState::ReplyDomainLength, HandshakeAction::Receive(1))
        } else if addr_type == 0x04 {
            (HandshakeState::ReplyReceived, HandshakeAction::Receive(18))
        } else {
            fail("Unknown address type in reply")
        }
    }

    /// Decides on the length byte of a bound domain name.
    pub fn on_domain_length(data: &[u8]) -> (next: (HandshakeState, HandshakeAction))
        ensures
            (next.0, next.1@) == Self::after_domain_length(data@),
            next.1 matches HandshakeAction::Fail(e) ==> e is Socks5Error,
    {
        if data.len() != 1 {
            return fail("Unexpected reply length");
        }
        (HandshakeState::ReplyReceived, HandshakeAction::Receive(data[0] as usize + 2))
    }

    /// The next state and the action to take on the stream, from the state
    /// and what happened on the stream. Every failure is a `Socks5Error`
    /// with its reason.
    pub fn step(&self, target: &TargetAddr, state: HandshakeState, event: &HandshakeEvent) -> (next:
        (HandshakeState, HandshakeAction))
        requires
            self.fits(target),
        ensures
            (next.0, next.1@) == self.spec_step(target, state, event@),
            next.1 matches HandshakeAction::Fail(e) ==> e is Socks5Error,
    {
        match state {
            HandshakeState::Connected => (HandshakeState::Connected, HandshakeAction::Done),
            HandshakeState::Failed => fail("Handshake has failed"),
            _ => match event {
                HandshakeEvent::IoFailed(reason) => fail(reason.as_str()),
                HandshakeEvent::Start => match state {
                    HandshakeState::Init => (
                        HandshakeState::GreetingSent,
                        HandshakeAction::SendAndReceive(self.greeting(), 2),
                    ),
                    _ => fail("Unexpected event"),
                },
                HandshakeEvent::Received(data) => match state {
                    HandshakeState::GreetingSent => self.on_method_selection(
                        target,
                        data.as_slice(),
                    ),
                    HandshakeState::AuthSent => Self::on_auth_reply(target, data.as_slice()),
                    HandshakeState::RequestSent => Self::on_reply_header(data.as_slice()),
                    HandshakeState::ReplyDomainLength => Self::on_domain_length(data.as_slice()),
                    HandshakeState::ReplyReceived => (
                        HandshakeState::Connected,
                        HandshakeAction::Done,
                    ),
                    _ => fail("Unexpected event"),
                },
            },
        }
    }
}

/// The failure with the given reason.
fn fail(reason: &str) -> (next: (HandshakeState, HandshakeAction))
    ensures
        (next.0, next.1@) == failure(reason@),
        next.1 matches HandshakeAction::Fail(e) && e is Socks5Error,
{
    (HandshakeState::Failed, HandshakeAction::Fail(socks5_error(reason)))
}

/// A client for the proxy at `host`, which is an IPv4 or IPv6 address in its
/// text form, with the credentials where both are given. Any other host is
/// refused with a `ConfigError`: names are not resolved here.
pub fn create_socks5_client(
    host: &str,
    port: u16,
    username: Option<&str>,
    password: Option<&str>,
) -> (r: Result<Socks5Client, VoyageError>)
    ensures
        match r {
            Ok(client) => {
                &&& parse_ip_text(host@) matches Some(ip) && client.proxy_addr
                    == SocketAddr::spec_new(ip, port)
                &&& match (username, password) {
                    (Some(u), Some(p)) => {
                        &&& client.username matches Some(cu) && cu@ == u@
                        &&& client.password matches Some(cp) && cp@ == p@
                    },
                    _ => client.username is None && client.password is None,
                }
            },
            Err(e) => {
                &&& parse_ip_text(host@) is None
                &&& e matches VoyageError::ConfigError(m) && m@
                    == "Hostname resolution not supported in sync context"@
            },
        },
{
    let chars = to_chars(host);
    let addr = match IpAddr::parse(chars.as_slice()) {
        Some(ip) => SocketAddr::new(ip, port),
        None => {
            return Err(config_error("Hostname resolution not supported in sync context"));
        },
    };
    Ok(
        match (username, password) {
            (Some(u), Some(p)) => Socks5Client::with_auth(addr, u, p),
            _ => Socks5Client::new(addr),
        },
    )
}

} // verus!
