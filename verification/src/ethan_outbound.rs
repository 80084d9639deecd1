//! The client side of the Ethan protocol: presenting the user and password,
//! asking for a target, and reading the server's answers.
use vstd::prelude::*;

use std::sync::Arc;

use crate::app_config::EthanOutBoundConfig;
use crate::ethan_proto::{
    auth_encoding, connect_encoding, domain_len, length_byte, AuthRequest, AuthView, ConnectRequest,
    EthanResponse,
};
use crate::text::append_bytes;
use crate::ProxyError;

verus! {

/// A frame: the length of the payload modulo 256, then the payload.
pub open spec fn frame(payload: Seq<u8>) -> Seq<u8> {
    seq![length_byte(payload.len())] + payload
}

/// Puts a payload into a frame.
pub fn framed(payload: &[u8]) -> (r: Vec<u8>)
    ensures
        r@ == frame(payload@),
{
    let mut r: Vec<u8> = Vec::new();
    r.push((payload.len() % 256) as u8);
    append_bytes(&mut r, payload);
    assert(r@ =~= frame(payload@));
    r
}

/// The reason a failure response carries, or a stand-in when it carries none.
pub open spec fn failure_reason(r: EthanResponse) -> Seq<char> {
    match r@.reason {
        Some(s) => s,
        None => "server not return auth failed reason"@,
    }
}

fn reason_or_default(response: &EthanResponse) -> (r: String)
    ensures
        r@ == failure_reason(*response),
{
    match response.reason() {
        Some(s) => s.clone(),
        None => "server not return auth failed reason".to_string(),
    }
}

/// An Ethan outbound with its configuration.
pub struct EthanOutBound {
    config: Arc<EthanOutBoundConfig>,
}

impl EthanOutBound {
    pub fn new(config: Arc<EthanOutBoundConfig>) -> (r: Self)
        ensures
            r.config_spec() == *config,
    {
        EthanOutBound { config }
    }

    pub closed spec fn config_spec(&self) -> EthanOutBoundConfig {
        *self.config
    }

    pub fn config(&self) -> (r: &EthanOutBoundConfig)
        ensures
            *r == self.config_spec(),
    {
        &self.config
    }

    /// The framed authentication request with the configured user and password.
    pub fn auth_frame(&self) -> (r: Vec<u8>)
        ensures
            r@ == frame(
                auth_encoding(
                    AuthView { uid: self.config_spec().uid_spec(), pwd: self.config_spec().pwd_spec() },
                ),
            ),
    {
        let request = AuthRequest::new(self.config.uid().to_string(), self.config.pwd().to_string());
        let bytes = request.into_bytes();
        framed(bytes.as_slice())
    }

    /// The framed connect request.
    pub fn connect_frame(&self, request: &ConnectRequest) -> (r: Vec<u8>)
        requires
            domain_len(request@.dst) < 255,
        ensures
            r@ == frame(connect_encoding(request@)),
    {
        let bytes = request.as_bytes();
        framed(bytes.as_slice())
    }
}

/// The result of authentication that a response tells: success, or failure
/// with the response's reason.
pub fn auth_result(response: &EthanResponse) -> (r: Result<(), ProxyError>)
    ensures
        response@.res ==> r is Ok,
        !response@.res ==> (r matches Err(ProxyError::EthanAuthFailed(m)) && m@ == failure_reason(
            *response,
        )),
{
    if response.res() {
        Ok(())
    } else {
        Err(ProxyError::EthanAuthFailed(reason_or_default(response)))
    }
}

/// The result of a connect request that a response tells: success, or failure
/// with the response's reason.
pub fn bind_result(response: &EthanResponse) -> (r: Result<(), ProxyError>)
    ensures
        response@.res ==> r is Ok,
        !response@.res ==> (r matches Err(ProxyError::EthanBindError(m)) && m@ == failure_reason(
            *response,
        )),
{
    if response.res() {
        Ok(())
    } else {
        Err(ProxyError::EthanBindError(reason_or_default(response)))
    }
}

} // verus!
