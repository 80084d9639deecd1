//! The server side of the Ethan protocol: checking the client's user and
//! password, and answering its connect request.
use vstd::prelude::*;

use std::sync::Arc;

use crate::app_config::EthanInBoundConfig;
use crate::app_config::EthanOutBoundConfig;
use crate::ethan_outbound::frame;
use crate::ethan_proto::{
    auth_encoding, first_separator, has_separator, lemma_auth_view_roundtrip, separator_char,
    AuthRequest, AuthView, EthanResponse,
};
use crate::text::lossy_text;
use crate::ProxyError;

verus! {

/// The number of bytes still to read of a frame (a length byte, then that
/// many bytes), given the bytes read so far.
pub open spec fn frame_missing_spec(b: Seq<u8>) -> int {
    if b.len() == 0 {
        1
    } else if b.len() < 1 + b[0] {
        1 + b[0] - b.len()
    } else {
        0
    }
}

/// How many bytes of a frame are still to read.
pub fn frame_missing(buf: &[u8]) -> (r: usize)
    ensures
        r == frame_missing_spec(buf@),
{
    if buf.len() == 0 {
        1
    } else if buf.len() < 1 + buf[0] as usize {
        1 + buf[0] as usize - buf.len()
    } else {
        0
    }
}

/// What an authentication request came to.
#[derive(Debug)]
pub enum AuthOutcome {
    /// The request holds no separator; nothing is answered.
    Malformed(ProxyError),
    /// The answer to send, and the result of the check.
    Checked(EthanResponse, Result<(), ProxyError>),
}

/// An Ethan inbound with its configuration.
pub struct EthanInBound {
    config: Arc<EthanInBoundConfig>,
}

impl EthanInBound {
    pub fn new(config: Arc<EthanInBoundConfig>) -> (r: Self)
        ensures
            r.config_spec() == *config,
    {
        EthanInBound { config }
    }

    pub closed spec fn config_spec(&self) -> EthanInBoundConfig {
        *self.config
    }

    pub fn config(&self) -> (r: &EthanInBoundConfig)
        ensures
            *r == self.config_spec(),
    {
        &self.config
    }

    /// Checks an authentication request against the configured user and
    /// password. A request that holds them is answered with success and no
    /// reason; any other well-formed request with failure and the reason
    /// "uid and pwd is incorrect", and fails with the user and password given.
    pub fn check_auth(&self, payload: &[u8]) -> (r: AuthOutcome)
        ensures
            !has_separator(payload@) ==> (r matches AuthOutcome::Malformed(e)
                && e is EthanAuthRequestParseError),
            has_separator(payload@) ==> {
                let uid = lossy_text(payload@.take(first_separator(payload@)));
                let pwd = lossy_text(payload@.skip(first_separator(payload@) + 4));
                let ok = uid == self.config_spec().uid_spec() && pwd
                    == self.config_spec().pwd_spec();
                r matches AuthOutcome::Checked(resp, res) && resp@.res == ok && (ok ==> resp@.reason is None
                    && res is Ok) && (!ok ==> resp@.reason == Some("uid and pwd is incorrect"@) && (
                res matches Err(ProxyError::EthanAuthUserPwdIncorrect(u, p)) && u@ == uid && p@
                    == pwd))
            },
    {
        let request = match AuthRequest::try_from(payload) {
            Ok(request) => request,
            Err(e) => {
                return AuthOutcome::Malformed(e);
            },
        };
        let uid_in_config = self.config.uid().to_string();
        let pwd_in_config = self.config.pwd().to_string();
        let uid = request.uid().to_string();
        let pwd = request.pwd().to_string();
        if uid == uid_in_config && pwd == pwd_in_config {
            AuthOutcome::Checked(EthanResponse::new(true, None), Ok(()))
        } else {
            let reason = "uid and pwd is incorrect".to_string();
            AuthOutcome::Checked(
                EthanResponse::new(false, Some(reason)),
                Err(ProxyError::EthanAuthUserPwdIncorrect(uid, pwd)),
            )
        }
    }
}

/// A framed payload of fewer than 256 bytes is read exactly: before any byte
/// the length byte is missing, and after the first `k` bytes exactly the rest
/// of the frame is; nothing is missing of the whole frame.
pub proof fn law_frame_read_exactly(payload: Seq<u8>, k: int)
    requires
        payload.len() < 256,
        0 <= k <= payload.len() + 1,
    ensures
        frame_missing_spec(frame(payload).take(k)) == (if k == 0 {
            1
        } else {
            payload.len() + 1 - k
        }),
        frame(payload).skip(1) == payload,
{
    let f = frame(payload);
    assert(f.len() == payload.len() + 1);
    assert(f[0] == payload.len());
    if k > 0 {
        assert(f.take(k)[0] == f[0]);
    }
    assert(f.skip(1) =~= payload);
}

/// The user and password of a client are those a server reads from the
/// client's authentication frame: when they are the server's own, and the
/// user does not hold the separator character, the server finds them there
/// and accepts the client.
pub proof fn law_client_credentials_accepted(client: EthanOutBoundConfig, server: EthanInBoundConfig)
    requires
        client.uid_spec() == server.uid_spec(),
        client.pwd_spec() == server.pwd_spec(),
        !client.uid_spec().contains(separator_char()),
    ensures
        ({
            let p = auth_encoding(AuthView { uid: client.uid_spec(), pwd: client.pwd_spec() });
            &&& has_separator(p)
            &&& lossy_text(p.take(first_separator(p))) == server.uid_spec()
            &&& lossy_text(p.skip(first_separator(p) + 4)) == server.pwd_spec()
        }),
{
    lemma_auth_view_roundtrip(AuthView { uid: client.uid_spec(), pwd: client.pwd_spec() });
}

/// The answer to a connect request: success when the target was reached,
/// else failure with the message of the error.
pub fn bind_response(reached: Result<(), String>) -> (r: EthanResponse)
    ensures
        reached is Ok ==> r@.res && r@.reason is None,
        reached matches Err(m) ==> !r@.res && r@.reason == Some(m@),
{
    match reached {
        Ok(()) => EthanResponse::new(true, None),
        Err(m) => EthanResponse::new(false, Some(m)),
    }
}

/// A plain Ethan server that listens on a port.
#[derive(Debug, Clone, Copy, PartialEq, Eq)]
pub struct EthanServer {
    listen_port: u16,
}

impl EthanServer {
    pub fn new(port: u16) -> (r: Self)
        ensures
            r.port_spec() == port,
    {
        EthanServer { listen_port: port }
    }

    pub closed spec fn port_spec(&self) -> u16 {
        self.listen_port
    }

    /// The port to listen on.
    pub fn port(&self) -> (r: u16)
        ensures
            r == self.port_spec(),
    {
        self.listen_port
    }
}

} // verus!
