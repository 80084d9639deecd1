use vstd::prelude::*;

use crate::text::{decimal_text, decimal_u8};

pub mod text;
pub mod ethan_proto;
pub mod socks5_proto;
pub mod net;
pub mod dns_config;
pub mod route_config;
pub mod app_config;
pub mod socks5_inbound;
pub mod ethan_inbound;
pub mod ethan_outbound;
pub mod dns_resolver;
pub mod utils;
pub mod gui;
pub mod start_args;
pub mod factory;
pub mod system_proxy;
pub mod geoip;

verus! {

/// Carries an I/O error of a failed TLS handshake.
#[verifier::external_type_specification]
#[verifier::external_body]
pub struct ExIoError(std::io::Error);

/// The errors of the proxy's protocol handling.
#[derive(Debug)]
pub enum ProxyError {
    Socks5VersionIncorrect,
    Socks5AuthError(String),
    Socks5NoSupportAuthMethod,
    Socks5AuthReject,
    Socks5CmdParseError(u8),
    Socks5UnknownAtyp,
    EthanAuthFailed(String),
    EthanAuthUserPwdIncorrect(String, String),
    EthanBindError(String),
    TlsHandshakeError(std::io::Error),
    EthanAuthRequestParseError,
    LengthNotMatchedAggree(String),
    Socks5NotSupportAuthmethod,
}

/// Calls the `Display` of `std::io::Error`. Nothing is claimed of the text:
/// it comes from the operating system.
#[verifier::external_body]
fn io_error_text(e: &std::io::Error) -> String {
    e.to_string()
}

/// `prefix` followed by `tail`.
fn joined(prefix: &str, tail: &str) -> (r: String)
    ensures
        r@ == prefix@ + tail@,
{
    let mut s = prefix.to_string();
    s.append(tail);
    s
}

impl ProxyError {
    /// The message that describes the error.
    pub fn message(&self) -> (r: String)
        ensures
            match self {
                ProxyError::Socks5AuthError(m) => r@ == "Socks5 auth failed! "@ + m@,
                ProxyError::Socks5VersionIncorrect => r@ == "Socks5 version is incorrect"@,
                ProxyError::Socks5NoSupportAuthMethod => r@
                    == "There is no auth method supported by both the client and the server"@,
                ProxyError::Socks5CmdParseError(v) => r@ == "Unknown Socks5 command type value:"@
                    + decimal_text(*v as nat),
                ProxyError::Socks5UnknownAtyp => r@ == "UnKnwon ATYP or parse atyp address faild!"@,
                ProxyError::EthanAuthUserPwdIncorrect(u, p) => r@ == "User and pwd not incorrect, "@
                    + u@ + " "@ + p@,
                ProxyError::EthanAuthFailed(m) => r@ == "Ethan auth failed, reason: "@ + m@,
                ProxyError::EthanBindError(m) => r@ == "Ethan bind failed, reason: "@ + m@,
                ProxyError::TlsHandshakeError(_) => r@.len() >= "Tls hand shake failed, "@.len()
                    && r@.take("Tls hand shake failed, "@.len() as int)
                    == "Tls hand shake failed, "@,
                ProxyError::EthanAuthRequestParseError => r@
                    == "Ethan proto auth request parse failed!"@,
                ProxyError::LengthNotMatchedAggree(m) => r@
                    == "The length is not matched with aggree, "@ + m@,
                ProxyError::Socks5NotSupportAuthmethod => r@
                    == "Server doesnot supported that auth method"@,
                ProxyError::Socks5AuthReject => r@ == "Server reject auth"@,
            },
    {
        match self {
            ProxyError::Socks5AuthError(m) => joined("Socks5 auth failed! ", m.as_str()),
            ProxyError::Socks5VersionIncorrect => "Socks5 version is incorrect".to_string(),
            ProxyError::Socks5NoSupportAuthMethod => {
                "There is no auth method supported by both the client and the server".to_string()
            },
            ProxyError::Socks5CmdParseError(v) => {
                let digits = decimal_u8(*v);
                joined("Unknown Socks5 command type value:", digits.as_str())
            },
            ProxyError::Socks5UnknownAtyp => "UnKnwon ATYP or parse atyp address faild!".to_string(),
            ProxyError::EthanAuthUserPwdIncorrect(u, p) => {
                let mut s = joined("User and pwd not incorrect, ", u.as_str());
                s.append(" ");
                s.append(p.as_str());
                s
            },
            ProxyError::EthanAuthFailed(m) => joined("Ethan auth failed, reason: ", m.as_str()),
            ProxyError::EthanBindError(m) => joined("Ethan bind failed, reason: ", m.as_str()),
            ProxyError::TlsHandshakeError(e) => {
                let text = io_error_text(e);
                let r = joined("Tls hand shake failed, ", text.as_str());
                assert(r@.take("Tls hand shake failed, "@.len() as int) =~= "Tls hand shake failed, "@);
                r
            },
            ProxyError::EthanAuthRequestParseError => {
                "Ethan proto auth request parse failed!".to_string()
            },
            ProxyError::LengthNotMatchedAggree(m) => {
                joined("The length is not matched with aggree, ", m.as_str())
            },
            ProxyError::Socks5NotSupportAuthmethod => {
                "Server doesnot supported that auth method".to_string()
            },
            ProxyError::Socks5AuthReject => "Server reject auth".to_string(),
        }
    }
}

} // verus!
