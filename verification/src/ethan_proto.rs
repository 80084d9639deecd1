//! The Ethan protocol: what the client and the server of the proxy exchange.
//!
//! * a connect request: the target port (big endian) and the target address;
//! * a response: a result flag and an optional reason;
//! * an authentication request: the user id and the password joined by the
//!   character U+1F48C.
use vstd::prelude::*;
use vstd::utf8::*;

use crate::socks5_proto::SocksAddressType;
use crate::text::{append_bytes, lemma_lossy_text_of_encoding, lossy_string, lossy_text};
use crate::ProxyError;

verus! {

broadcast use vstd::array::group_array_axioms;

/// An error in decoding an Ethan message.
#[derive(Debug, PartialEq, Eq, Clone, Copy)]
pub enum EthanProtoError {
    /// The address flag byte is none of 1 (IPv4), 2 (IPv6) and 3 (domain name).
    UnknownFlag(u8),
}

/// The target address of a connect request.
#[derive(Debug, PartialEq, Eq, Clone)]
pub enum DstType {
    Ipv4([u8; 4]),
    Ipv6([u8; 16]),
    DomainName(String),
}

/// A target address as plain values.
pub enum DstView {
    Ipv4(Seq<u8>),
    Ipv6(Seq<u8>),
    DomainName(Seq<char>),
}

impl View for DstType {
    type V = DstView;

    open spec fn view(&self) -> DstView {
        match self {
            DstType::Ipv4(a) => DstView::Ipv4(a@),
            DstType::Ipv6(a) => DstView::Ipv6(a@),
            DstType::DomainName(s) => DstView::DomainName(s@),
        }
    }
}

/// The byte that carries a length: the length modulo 256.
pub open spec fn length_byte(n: nat) -> u8 {
    (n % 256) as u8
}

/// The wire form of a target address: a flag byte, then the four or sixteen
/// address bytes, or the length of the name and the UTF-8 bytes of the name.
pub open spec fn dst_encoding(d: DstView) -> Seq<u8> {
    match d {
        DstView::Ipv4(a) => seq![1u8] + a,
        DstView::Ipv6(a) => seq![2u8] + a,
        DstView::DomainName(s) => seq![3u8, length_byte(encode_utf8(s).len())] + encode_utf8(s),
    }
}

/// The number of bytes of the wire form of a target address.
pub open spec fn dst_encoded_len(d: DstView) -> nat {
    match d {
        DstView::Ipv4(_) => 5,
        DstView::Ipv6(_) => 17,
        DstView::DomainName(s) => encode_utf8(s).len() + 2,
    }
}

/// Bytes that hold a whole address flag and, for a known flag, a whole address.
pub open spec fn dst_decodable(b: Seq<u8>) -> bool {
    &&& b.len() >= 1
    &&& b[0] == 1 ==> b.len() >= 5
    &&& b[0] == 2 ==> b.len() >= 17
    &&& b[0] == 3 ==> b.len() >= 2 && b.len() - 2 >= b[1]
}

/// The address that bytes start with; `None` for an unknown flag. Bytes after
/// the address are ignored.
pub open spec fn dst_decoding(b: Seq<u8>) -> Option<DstView> {
    if b[0] == 1 {
        Some(DstView::Ipv4(b.subrange(1, 5)))
    } else if b[0] == 2 {
        Some(DstView::Ipv6(b.subrange(1, 17)))
    } else if b[0] == 3 {
        Some(DstView::DomainName(lossy_text(b.subrange(2, 2 + b[1]))))
    } else {
        None
    }
}

/// The UTF-8 length of a domain name, if `d` is one.
pub open spec fn domain_len(d: DstView) -> nat {
    match d {
        DstView::DomainName(s) => encode_utf8(s).len(),
        _ => 0,
    }
}

impl DstType {
    /// The number of bytes of the wire form.
    pub fn len(&self) -> (r: usize)
        requires
            domain_len(self@) + 2 <= usize::MAX,
        ensures
            r == dst_encoded_len(self@),
    {
        match self {
            DstType::Ipv4(_) => 5,
            DstType::Ipv6(_) => 17,
            DstType::DomainName(s) => s.as_str().len() + 2,
        }
    }

    /// The wire form. A domain name must be shorter than 255 bytes.
    pub fn as_bytes(&self) -> (v: Vec<u8>)
        requires
            domain_len(self@) < 255,
        ensures
            v@ == dst_encoding(self@),
    {
        let mut v: Vec<u8> = Vec::new();
        match self {
            DstType::Ipv4(a) => {
                v.push(1u8);
                append_bytes(&mut v, a.as_slice());
            },
            DstType::Ipv6(a) => {
                v.push(2u8);
                append_bytes(&mut v, a.as_slice());
            },
            DstType::DomainName(s) => {
                let b = s.as_str().as_bytes();
                v.push(3u8);
                v.push(b.len() as u8);
                append_bytes(&mut v, b);
                assert(v@ =~= dst_encoding(self@));
            },
        }
        assert(v@ =~= dst_encoding(self@));
        v
    }

    /// Decodes the address that `val` starts with.
    pub fn from_bytes(val: &[u8]) -> (r: Result<DstType, EthanProtoError>)
        requires
            dst_decodable(val@),
        ensures
            r is Ok <==> dst_decoding(val@) is Some,
            r matches Ok(d) ==> dst_decoding(val@) == Some(d@),
            r matches Err(e) ==> e == EthanProtoError::UnknownFlag(val@[0]),
    {
        let flag = val[0];
        if flag == 1 {
            let a: [u8; 4] = [val[1], val[2], val[3], val[4]];
            assert(a@ =~= val@.subrange(1, 5));
            Ok(DstType::Ipv4(a))
        } else if flag == 2 {
            let a: [u8; 16] = [
                val[1],
                val[2],
                val[3],
                val[4],
                val[5],
                val[6],
                val[7],
                val[8],
                val[9],
                val[10],
                val[11],
                val[12],
                val[13],
                val[14],
                val[15],
                val[16],
            ];
            assert(a@ =~= val@.subrange(1, 17));
            Ok(DstType::Ipv6(a))
        } else if flag == 3 {
            let lens = val[1] as usize;
            let name = lossy_string(vstd::slice::slice_subrange(val, 2, 2 + lens));
            Ok(DstType::DomainName(name))
        } else {
            Err(EthanProtoError::UnknownFlag(flag))
        }
    }
}

/// A request to connect to a target: port and address.
#[derive(Debug, PartialEq, Eq, Clone)]
pub struct ConnectRequest {
    dst_port: u16,
    dst_type: DstType,
}

/// A connect request as plain values.
pub struct ConnectView {
    pub port: u16,
    pub dst: DstView,
}

impl View for ConnectRequest {
    type V = ConnectView;

    closed spec fn view(&self) -> ConnectView {
        ConnectView { port: self.dst_port, dst: self.dst_type@ }
    }
}

/// The two bytes of a port, most significant first.
pub open spec fn port_bytes(p: u16) -> Seq<u8> {
    seq![(p / 256) as u8, (p % 256) as u8]
}

/// The wire form of a connect request: the port, then the address.
pub open spec fn connect_encoding(r: ConnectView) -> Seq<u8> {
    port_bytes(r.port) + dst_encoding(r.dst)
}

/// Bytes that hold a whole port and a decodable address.
pub open spec fn connect_decodable(b: Seq<u8>) -> bool {
    b.len() >= 2 && dst_decodable(b.skip(2))
}

/// The connect request that bytes start with; `None` for an unknown flag.
pub open spec fn connect_decoding(b: Seq<u8>) -> Option<ConnectView> {
    match dst_decoding(b.skip(2)) {
        Some(d) => Some(ConnectView { port: (b[0] * 256 + b[1]) as u16, dst: d }),
        None => None,
    }
}

/// The SOCKS5 address type of a target address.
pub open spec fn address_type_of(d: DstView) -> SocksAddressType {
    match d {
        DstView::Ipv4(_) => SocksAddressType::Ipv4,
        DstView::Ipv6(_) => SocksAddressType::Ipv6,
        DstView::DomainName(_) => SocksAddressType::Domain,
    }
}

/// The address bytes of a target: the octets, or the UTF-8 bytes of the name.
pub open spec fn address_bytes(d: DstView) -> Seq<u8> {
    match d {
        DstView::Ipv4(a) => a,
        DstView::Ipv6(a) => a,
        DstView::DomainName(s) => encode_utf8(s),
    }
}

/// The target that a SOCKS5 request names: the first four bytes for IPv4, the
/// sixteen bytes for IPv6 (all zero when there are not exactly sixteen), and
/// the lossy decoding of the bytes for a domain name.
pub open spec fn socks_target(atyp: SocksAddressType, address: Seq<u8>) -> DstView {
    match atyp {
        SocksAddressType::Ipv4 => DstView::Ipv4(address.take(4)),
        SocksAddressType::Domain => DstView::DomainName(lossy_text(address)),
        SocksAddressType::Ipv6 => DstView::Ipv6(
            if address.len() == 16 {
                address
            } else {
                Seq::new(16, |i: int| 0u8)
            },
        ),
    }
}

impl ConnectRequest {
    pub fn new(port: u16, t: DstType) -> (r: Self)
        ensures
            r@ == (ConnectView { port: port, dst: t@ }),
    {
        ConnectRequest { dst_port: port, dst_type: t }
    }

    /// The wire form: the port, then the target. A domain name must be
    /// shorter than 255 bytes.
    pub fn as_bytes(&self) -> (v: Vec<u8>)
        requires
            domain_len(self@.dst) < 255,
        ensures
            v@ == connect_encoding(self@),
    {
        let mut v: Vec<u8> = Vec::new();
        let port = self.dst_port;
        v.push((port / 256) as u8);
        v.push((port % 256) as u8);
        match &self.dst_type {
            DstType::Ipv4(a) => {
                v.push(1u8);
                append_bytes(&mut v, a.as_slice());
            },
            DstType::Ipv6(a) => {
                v.push(2u8);
                append_bytes(&mut v, a.as_slice());
            },
            DstType::DomainName(s) => {
                let b = s.as_str().as_bytes();
                v.push(3u8);
                v.push((b.len() % 256) as u8);
                append_bytes(&mut v, b);
            },
        }
        assert(v@ =~= connect_encoding(self@));
        v
    }

    /// The target address.
    pub closed spec fn dst_spec(&self) -> DstType {
        self.dst_type
    }

    pub fn dst_type(&self) -> (r: &DstType)
        ensures
            *r == self.dst_spec(),
            r@ == self@.dst,
    {
        &self.dst_type
    }

    /// The SOCKS5 address type of the target.
    pub fn dst_as_atp(&self) -> (r: SocksAddressType)
        ensures
            r == address_type_of(self@.dst),
    {
        match &self.dst_type {
            DstType::Ipv4(_) => SocksAddressType::Ipv4,
            DstType::Ipv6(_) => SocksAddressType::Ipv6,
            DstType::DomainName(_) => SocksAddressType::Domain,
        }
    }

    /// The address bytes of the target.
    pub fn addr(&self) -> (r: Vec<u8>)
        ensures
            r@ == address_bytes(self@.dst),
    {
        let mut v: Vec<u8> = Vec::new();
        match &self.dst_type {
            DstType::Ipv4(a) => append_bytes(&mut v, a.as_slice()),
            DstType::Ipv6(a) => append_bytes(&mut v, a.as_slice()),
            DstType::DomainName(s) => append_bytes(&mut v, s.as_str().as_bytes()),
        }
        assert(v@ =~= address_bytes(self@.dst));
        v
    }

    pub fn port(&self) -> (r: u16)
        ensures
            r == self@.port,
    {
        self.dst_port
    }

    /// Decodes the connect request that `value` starts with.
    pub fn try_from(value: &[u8]) -> (r: Result<ConnectRequest, EthanProtoError>)
        requires
            connect_decodable(value@),
        ensures
            r is Ok <==> connect_decoding(value@) is Some,
            r matches Ok(c) ==> connect_decoding(value@) == Some(c@),
            r matches Err(e) ==> e == EthanProtoError::UnknownFlag(value@[2]),
    {
        let port: u16 = (value[0] as u16) * 256 + (value[1] as u16);
        let rest = vstd::slice::slice_subrange(value, 2, value.len());
        assert(rest@ =~= value@.skip(2));
        let dst = DstType::from_bytes(rest)?;
        Ok(ConnectRequest { dst_port: port, dst_type: dst })
    }

    /// The connect request that a SOCKS5 request names with address type
    /// `atyp`, address bytes `address` and port `port`. An IPv4 address needs
    /// at least four bytes.
    pub fn from_socks_address(atyp: SocksAddressType, address: &[u8], port: u16) -> (r: Self)
        requires
            atyp == SocksAddressType::Ipv4 ==> address@.len() >= 4,
        ensures
            r@ == (ConnectView { port: port, dst: socks_target(atyp, address@) }),
    {
        match atyp {
            SocksAddressType::Ipv4 => {
                let a: [u8; 4] = [address[0], address[1], address[2], address[3]];
                assert(a@ =~= address@.take(4));
                ConnectRequest { dst_port: port, dst_type: DstType::Ipv4(a) }
            },
            SocksAddressType::Domain => {
                let dn = lossy_string(address);
                ConnectRequest { dst_port: port, dst_type: DstType::DomainName(dn) }
            },
            SocksAddressType::Ipv6 => {
                let a: [u8; 16] = if address.len() == 16 {
                    let a: [u8; 16] = [
                        address[0],
                        address[1],
                        address[2],
                        address[3],
                        address[4],
                        address[5],
                        address[6],
                        address[7],
                        address[8],
                        address[9],
                        address[10],
                        address[11],
                        address[12],
                        address[13],
                        address[14],
                        address[15],
                    ];
                    assert(a@ =~= address@);
                    a
                } else {
                    let a: [u8; 16] = [0u8, 0, 0, 0, 0, 0, 0, 0, 0, 0, 0, 0, 0, 0, 0, 0];
                    assert(a@ =~= Seq::new(16, |i: int| 0u8));
                    a
                };
                ConnectRequest { dst_port: port, dst_type: DstType::Ipv6(a) }
            },
        }
    }
}


/// The answer to an authentication or a connect request.
#[derive(Debug, PartialEq, Eq)]
pub struct EthanResponse {
    res: bool,
    reason: Option<String>,
}

/// A response as plain values.
pub struct ResponseView {
    pub res: bool,
    pub reason: Option<Seq<char>>,
}

impl View for EthanResponse {
    type V = ResponseView;

    closed spec fn view(&self) -> ResponseView {
        ResponseView {
            res: self.res,
            reason: match self.reason {
                Some(s) => Some(s@),
                None => None,
            },
        }
    }
}

/// The wire form of a response: 1 or 0 for the result, then the length of
/// the reason (0 for none) and its UTF-8 bytes.
pub open spec fn response_encoding(r: ResponseView) -> Seq<u8> {
    seq![if r.res { 1u8 } else { 0u8 }] + match r.reason {
        Some(s) => seq![length_byte(encode_utf8(s).len())] + encode_utf8(s),
        None => seq![0u8],
    }
}

/// Bytes that hold a result byte, a length byte and that many reason bytes.
pub open spec fn response_decodable(b: Seq<u8>) -> bool {
    b.len() >= 2 && b[1] <= b.len() - 2
}

/// The response that bytes start with: any nonzero result byte is success,
/// and a zero length means no reason.
pub open spec fn response_decoding(b: Seq<u8>) -> ResponseView {
    ResponseView {
        res: b[0] != 0,
        reason: if b[1] > 0 {
            Some(lossy_text(b.subrange(2, 2 + b[1])))
        } else {
            None
        },
    }
}

impl EthanResponse {
    pub fn new(res: bool, reason: Option<String>) -> (r: Self)
        ensures
            r@.res == res,
            r@.reason == (match reason {
                Some(s) => Some(s@),
                None => None::<Seq<char>>,
            }),
    {
        EthanResponse { res, reason }
    }

    pub fn res(&self) -> (r: bool)
        ensures
            r == self@.res,
    {
        self.res
    }

    pub fn reason(&self) -> (r: &Option<String>)
        ensures
            (match *r {
                Some(s) => Some(s@),
                None => None::<Seq<char>>,
            }) == self@.reason,
    {
        &self.reason
    }

    /// The wire form. The length byte of the reason is its length modulo 256.
    pub fn as_bytes(&self) -> (v: Vec<u8>)
        ensures
            v@ == response_encoding(self@),
    {
        let mut v: Vec<u8> = Vec::new();
        if self.res {
            v.push(1u8);
        } else {
            v.push(0u8);
        }
        match &self.reason {
            Some(s) => {
                let b = s.as_str().as_bytes();
                v.push((b.len() % 256) as u8);
                append_bytes(&mut v, b);
            },
            None => {
                v.push(0u8);
            },
        }
        assert(v@ =~= response_encoding(self@));
        v
    }

    /// The wire form preceded by its own length byte (the length modulo 256).
    pub fn into_response_bytes(self) -> (v: Vec<u8>)
        ensures
            v@ == seq![length_byte(response_encoding(self@).len())] + response_encoding(self@),
    {
        let mut bytes = self.as_bytes();
        let n = bytes.len();
        bytes.insert(0, (n % 256) as u8);
        assert(bytes@ =~= seq![length_byte(response_encoding(self@).len())] + response_encoding(
            self@,
        ));
        bytes
    }

    /// Decodes the response that `value` starts with.
    pub fn try_from(value: &[u8]) -> (r: Self)
        requires
            response_decodable(value@),
        ensures
            r@ == response_decoding(value@),
    {
        let res = value[0] != 0;
        let str_lens = value[1] as usize;
        if str_lens > 0 {
            let text = lossy_string(vstd::slice::slice_subrange(value, 2, 2 + str_lens));
            EthanResponse { res, reason: Some(text) }
        } else {
            EthanResponse { res, reason: None }
        }
    }
}

/// The user id and the password that a client presents.
#[derive(Debug, PartialEq, Eq)]
pub struct AuthRequest {
    uid: String,
    pwd: String,
}

/// An authentication request as plain values.
pub struct AuthView {
    pub uid: Seq<char>,
    pub pwd: Seq<char>,
}

impl View for AuthRequest {
    type V = AuthView;

    closed spec fn view(&self) -> AuthView {
        AuthView { uid: self.uid@, pwd: self.pwd@ }
    }
}

/// The UTF-8 bytes of U+1F48C, which separate the user id from the password.
pub open spec fn separator() -> Seq<u8> {
    seq![0xF0u8, 0x9Fu8, 0x92u8, 0x8Cu8]
}

/// The separator stands at byte `i` of `b`.
pub open spec fn separator_at(b: Seq<u8>, i: int) -> bool {
    0 <= i && i + 4 <= b.len() && b.subrange(i, i + 4) == separator()
}

/// The separator stands somewhere in `b`.
pub open spec fn has_separator(b: Seq<u8>) -> bool {
    exists|i: int| separator_at(b, i)
}

/// Where the separator first stands in `b`.
pub open spec fn first_separator(b: Seq<u8>) -> int {
    choose|i: int| separator_at(b, i) && forall|j: int| 0 <= j < i ==> !separator_at(b, j)
}

/// The wire form of an authentication request: user id, separator, password.
pub open spec fn auth_encoding(r: AuthView) -> Seq<u8> {
    encode_utf8(r.uid) + separator() + encode_utf8(r.pwd)
}

/// Whether the separator stands at byte `i` of `b`.
fn is_separator_at(b: &[u8], i: usize) -> (r: bool)
    requires
        i + 4 <= b@.len(),
    ensures
        r == separator_at(b@, i as int),
{
    let r = b[i] == 0xF0u8 && b[i + 1] == 0x9Fu8 && b[i + 2] == 0x92u8 && b[i + 3] == 0x8Cu8;
    assert(r ==> b@.subrange(i as int, i + 4) =~= separator());
    assert(b@.subrange(i as int, i + 4) =~= separator() ==> b@.subrange(i as int, i + 4)[0] == 0xF0u8
        && b@.subrange(i as int, i + 4)[1] == 0x9Fu8 && b@.subrange(i as int, i + 4)[2] == 0x92u8
        && b@.subrange(i as int, i + 4)[3] == 0x8Cu8);
    r
}

impl AuthRequest {
    pub fn new(uid: String, pwd: String) -> (r: Self)
        ensures
            r@ == (AuthView { uid: uid@, pwd: pwd@ }),
    {
        AuthRequest { uid, pwd }
    }

    /// The wire form: user id, separator, password.
    pub fn as_bytes(&self) -> (v: Vec<u8>)
        ensures
            v@ == auth_encoding(self@),
    {
        let mut v: Vec<u8> = Vec::new();
        append_bytes(&mut v, self.uid.as_str().as_bytes());
        v.push(0xF0u8);
        v.push(0x9Fu8);
        v.push(0x92u8);
        v.push(0x8Cu8);
        append_bytes(&mut v, self.pwd.as_str().as_bytes());
        assert(v@ =~= auth_encoding(self@));
        v
    }

    /// The wire form, consuming the request.
    pub fn into_bytes(self) -> (v: Vec<u8>)
        ensures
            v@ == auth_encoding(self@),
    {
        self.as_bytes()
    }

    pub fn uid(&self) -> (r: &str)
        ensures
            r@ == self@.uid,
    {
        self.uid.as_str()
    }

    pub fn pwd(&self) -> (r: &str)
        ensures
            r@ == self@.pwd,
    {
        self.pwd.as_str()
    }

    /// Splits `value` at the first separator: the text before it is the user
    /// id, the text after it the password, both decoded lossily.
    pub fn try_from(value: &[u8]) -> (r: Result<Self, ProxyError>)
        ensures
            r is Ok <==> has_separator(value@),
            r matches Ok(a) ==> a@ == (AuthView {
                uid: lossy_text(value@.take(first_separator(value@))),
                pwd: lossy_text(value@.skip(first_separator(value@) + 4)),
            }),
            r matches Err(e) ==> e is EthanAuthRequestParseError,
    {
        let n = value.len();
        let mut i: usize = 0;
        while n >= 4 && i <= n - 4
            invariant
                n == value@.len(),
                forall|j: int| 0 <= j < i ==> !separator_at(value@, j),
            decreases n - i,
        {
            if is_separator_at(value, i) {
                assert(separator_at(value@, i as int) && forall|j: int|
                    0 <= j < i ==> !separator_at(value@, j));
                let ghost k = first_separator(value@);
                assert(k == i as int) by {
                    if k < i {
                    } else if k > i {
                    }
                }
                let uid = lossy_string(vstd::slice::slice_subrange(value, 0, i));
                let pwd = lossy_string(vstd::slice::slice_subrange(value, i + 4, n));
                assert(value@.subrange(0, i as int) =~= value@.take(i as int));
                assert(value@.subrange(i + 4, n as int) =~= value@.skip(i + 4));
                return Ok(AuthRequest { uid, pwd });
            }
            i = i + 1;
        }
        assert(!has_separator(value@)) by {
            assert forall|j: int| !separator_at(value@, j) by {
                if 0 <= j < i {
                }
            }
        }
        Err(ProxyError::EthanAuthRequestParseError)
    }
}


/// Whether bytes hold a whole decodable address.
pub fn is_dst_decodable(b: &[u8]) -> (r: bool)
    ensures
        r == dst_decodable(b@),
{
    if b.len() < 1 {
        return false;
    }
    let n = b.len();
    if b[0] == 1 {
        n >= 5
    } else if b[0] == 2 {
        n >= 17
    } else if b[0] == 3 {
        n >= 2 && n - 2 >= b[1] as usize
    } else {
        true
    }
}

/// Whether bytes hold a whole port and a decodable address.
pub fn is_connect_decodable(b: &[u8]) -> (r: bool)
    ensures
        r == connect_decodable(b@),
{
    if b.len() < 2 {
        return false;
    }
    let rest = vstd::slice::slice_subrange(b, 2, b.len());
    assert(rest@ =~= b@.skip(2));
    is_dst_decodable(rest)
}

/// Whether bytes hold a whole response.
pub fn is_response_decodable(b: &[u8]) -> (r: bool)
    ensures
        r == response_decodable(b@),
{
    b.len() >= 2 && (b[1] as usize) <= b.len() - 2
}

// ---------------------------------------------------------------------------
// Laws: what is read back from a wire form.
/// An address that the wire format can carry: four or sixteen address bytes,
/// or a domain name of at most 255 bytes.
pub open spec fn dst_carried(d: DstView) -> bool {
    match d {
        DstView::Ipv4(a) => a.len() == 4,
        DstView::Ipv6(a) => a.len() == 16,
        DstView::DomainName(s) => encode_utf8(s).len() < 256,
    }
}

proof fn lemma_dst_view_roundtrip(d: DstView)
    requires
        dst_carried(d),
    ensures
        dst_decodable(dst_encoding(d)),
        dst_decoding(dst_encoding(d)) == Some(d),
{
    let e = dst_encoding(d);
    match d {
        DstView::Ipv4(a) => {
            assert(e.subrange(1, 5) =~= a);
        },
        DstView::Ipv6(a) => {
            assert(e.subrange(1, 17) =~= a);
        },
        DstView::DomainName(s) => {
            let t = encode_utf8(s);
            assert(e[1] == t.len());
            assert(e.subrange(2, 2 + e[1]) =~= t);
            lemma_lossy_text_of_encoding(s);
        },
    }
}

/// Every address, with a domain name of at most 255 bytes, is read back
/// unchanged from its wire form.
pub proof fn law_dst_roundtrip(d: DstType)
    requires
        domain_len(d@) < 256,
    ensures
        dst_decodable(dst_encoding(d@)),
        dst_decoding(dst_encoding(d@)) == Some(d@),
{
    lemma_dst_view_roundtrip(d@);
}

/// Every connect request, with a domain name of at most 255 bytes, is read
/// back unchanged from its wire form.
pub proof fn law_connect_request_roundtrip(r: ConnectRequest)
    requires
        domain_len(r@.dst) < 256,
    ensures
        connect_decodable(connect_encoding(r@)),
        connect_decoding(connect_encoding(r@)) == Some(r@),
{
    let e = connect_encoding(r@);
    lemma_dst_view_roundtrip(r.dst_type@);
    assert(e.skip(2) =~= dst_encoding(r@.dst));
    let p = r@.port;
    assert((e[0] * 256 + e[1]) as u16 == p);
}

/// A request's SOCKS5 address type and address bytes name its target again.
pub proof fn law_socks_address_roundtrip(r: ConnectRequest)
    ensures
        socks_target(address_type_of(r@.dst), address_bytes(r@.dst)) == r@.dst,
{
    match r.dst_type@ {
        DstView::Ipv4(a) => {
            assert(a.take(4) =~= a);
        },
        DstView::Ipv6(a) => {},
        DstView::DomainName(n) => {
            lemma_lossy_text_of_encoding(n);
        },
    }
}

/// A response is read back unchanged from its wire form when it has no reason
/// or a nonempty reason of at most 255 bytes.
pub proof fn law_response_roundtrip(r: EthanResponse)
    requires
        r@.reason matches Some(s) ==> 0 < encode_utf8(s).len() < 256,
    ensures
        response_decodable(response_encoding(r@)),
        response_decoding(response_encoding(r@)) == r@,
{
    let e = response_encoding(r@);
    match r@.reason {
        Some(s) => {
            let t = encode_utf8(s);
            assert(e.subrange(2, 2 + e[1]) =~= t);
            lemma_lossy_text_of_encoding(s);
        },
        None => {},
    }
}

/// An authentication request whose user id does not hold the separator
/// character is read back unchanged from its wire form.
pub proof fn law_auth_request_roundtrip(r: AuthRequest)
    requires
        !r@.uid.contains(separator_char()),
    ensures
        has_separator(auth_encoding(r@)),
        first_separator(auth_encoding(r@)) == encode_utf8(r@.uid).len(),
        lossy_text(auth_encoding(r@).take(first_separator(auth_encoding(r@)))) == r@.uid,
        lossy_text(auth_encoding(r@).skip(first_separator(auth_encoding(r@)) + 4)) == r@.pwd,
{
    lemma_auth_view_roundtrip(r@);
}

/// The character whose UTF-8 bytes separate the user id from the password.
pub open spec fn separator_char() -> char {
    '\u{1F48C}'
}

/// The encoding of a single character.
proof fn lemma_encode_single(c: char)
    ensures
        encode_utf8(seq![c]) == encode_scalar(c as u32),
{
    let t = seq![c];
    assert(t[0] == c);
    assert(t.drop_first() =~= Seq::<char>::empty());
    assert(encode_utf8(t.drop_first()) =~= Seq::<u8>::empty());
    assert(encode_utf8(t) =~= encode_scalar(c as u32));
}

/// The separator character's encoding is the separator.
proof fn lemma_separator_char_encoding()
    ensures
        encode_utf8(seq![separator_char()]) == separator(),
{
    assert(separator_char() as u32 == 0x1F48Cu32);
    assert(leading_byte_width_4(0x1F48Cu32) == 0xF0u8) by (bit_vector);
    assert(third_last_continuation_byte(0x1F48Cu32) == 0x9Fu8) by (bit_vector);
    assert(second_last_continuation_byte(0x1F48Cu32) == 0x92u8) by (bit_vector);
    assert(last_continuation_byte(0x1F48Cu32) == 0x8Cu8) by (bit_vector);
    lemma_encode_single(separator_char());
    assert(encode_scalar(0x1F48Cu32) =~= separator());
}

/// Encoding two texts one after the other is encoding their concatenation.
proof fn lemma_encode_concat(a: Seq<char>, b: Seq<char>)
    ensures
        encode_utf8(a + b) == encode_utf8(a) + encode_utf8(b),
    decreases a.len(),
{
    if a.len() == 0 {
        assert(a + b =~= b);
        assert(encode_utf8(a) =~= Seq::<u8>::empty());
        assert(encode_utf8(b) =~= encode_utf8(a) + encode_utf8(b));
    } else {
        assert((a + b).drop_first() =~= a.drop_first() + b);
        assert((a + b)[0] == a[0]);
        lemma_encode_concat(a.drop_first(), b);
        assert(encode_utf8(a + b) =~= encode_utf8(a) + encode_utf8(b));
    }
}

/// Only a separator character in a text puts the separator into its
/// encoding: the separator starting inside the encoding of `s`, whatever
/// bytes `t` follow, means `s` holds the separator character.
proof fn lemma_separator_needs_char(s: Seq<char>, t: Seq<u8>, p: int)
    requires
        0 <= p < encode_utf8(s).len(),
        separator_at(encode_utf8(s) + t, p),
    ensures
        s.contains(separator_char()),
    decreases s.len(),
{
    let c = s[0];
    let x = c as u32;
    char_is_scalar(c);
    let e0 = encode_scalar(x);
    let rest = encode_utf8(s.drop_first());
    let e = encode_utf8(s) + t;
    assert(encode_utf8(s) == e0 + rest);
    assert(e =~= e0 + (rest + t));
    let w = e.subrange(p, p + 4);
    assert(w == separator());
    assert(w[0] == e[p]);
    if p < e0.len() {
        assert(e[p] == e0[p]);
        if has_width_1_encoding(x) {
            assert(leading_byte_width_1(x) != 0xF0u8) by (bit_vector);
        } else if has_width_2_encoding(x) {
            assert(leading_byte_width_2(x) != 0xF0u8) by (bit_vector);
            assert(last_continuation_byte(x) != 0xF0u8) by (bit_vector);
        } else if has_width_3_encoding(x) {
            assert(leading_byte_width_3(x) != 0xF0u8) by (bit_vector);
            assert(second_last_continuation_byte(x) != 0xF0u8) by (bit_vector);
            assert(last_continuation_byte(x) != 0xF0u8) by (bit_vector);
        } else {
            assert(third_last_continuation_byte(x) != 0xF0u8) by (bit_vector);
            assert(second_last_continuation_byte(x) != 0xF0u8) by (bit_vector);
            assert(last_continuation_byte(x) != 0xF0u8) by (bit_vector);
            assert(p == 0);
            assert(e0 =~= w);
            lemma_encode_single(c);
            lemma_separator_char_encoding();
            encode_utf8_decode_utf8(seq![c]);
            encode_utf8_decode_utf8(seq![separator_char()]);
            assert(seq![c][0] == c);
            assert(c == separator_char());
        }
        assert(s[0] == separator_char());
    } else {
        let q = p - e0.len();
        assert((rest + t).subrange(q, q + 4) =~= w);
        assert(separator_at(rest + t, q));
        lemma_separator_needs_char(s.drop_first(), t, q);
        let i = choose|i: int| 0 <= i < s.drop_first().len() && s.drop_first()[i] == separator_char();
        assert(s[i + 1] == separator_char());
    }
}

/// The first index of `c` in `s`, when `s` holds it.
proof fn lemma_first_index(s: Seq<char>, c: char) -> (i: int)
    requires
        s.contains(c),
    ensures
        0 <= i < s.len(),
        s[i] == c,
        forall|j: int| 0 <= j < i ==> s[j] != c,
    decreases s.len(),
{
    if s[0] == c {
        0
    } else {
        let k = choose|k: int| 0 <= k < s.len() && s[k] == c;
        assert(s.drop_first()[k - 1] == c);
        let i = lemma_first_index(s.drop_first(), c);
        assert forall|j: int| 0 <= j < i + 1 implies s[j] != c by {
            if j > 0 {
                assert(s[j] == s.drop_first()[j - 1]);
            }
        }
        i + 1
    }
}

/// For bytes that are valid UTF-8, an authentication request is read from
/// their text: it fails exactly when the text holds no separator character;
/// otherwise the user id is the text before the first separator character
/// and the password the text after it.
pub proof fn law_auth_request_of_text(value: Seq<u8>)
    requires
        valid_utf8(value),
    ensures
        has_separator(value) <==> decode_utf8(value).contains(separator_char()),
        has_separator(value) ==> ({
            let uid = lossy_text(value.take(first_separator(value)));
            let pwd = lossy_text(value.skip(first_separator(value) + 4));
            &&& uid + seq![separator_char()] + pwd == decode_utf8(value)
            &&& !uid.contains(separator_char())
        }),
{
    let s = decode_utf8(value);
    decode_utf8_encode_utf8(value);
    assert(encode_utf8(s) == value);
    if s.contains(separator_char()) {
        let i = lemma_first_index(s, separator_char());
        let u = s.take(i);
        let w = s.skip(i + 1);
        assert(s =~= u + seq![separator_char()] + w);
        lemma_encode_concat(u + seq![separator_char()], w);
        lemma_encode_concat(u, seq![separator_char()]);
        lemma_separator_char_encoding();
        let eu = encode_utf8(u);
        let n = eu.len() as int;
        assert(value =~= eu + (separator() + encode_utf8(w)));
        assert(value.subrange(n, n + 4) =~= separator());
        assert(separator_at(value, n));
        assert(!u.contains(separator_char())) by {
            if u.contains(separator_char()) {
                let j = choose|j: int| 0 <= j < u.len() && u[j] == separator_char();
                assert(s[j] == separator_char());
            }
        }
        assert forall|j: int| 0 <= j < n implies !separator_at(value, j) by {
            if separator_at(value, j) {
                lemma_separator_needs_char(u, separator() + encode_utf8(w), j);
            }
        }
        let k = first_separator(value);
        assert(k == n) by {
            if k < n {
            } else if k > n {
            }
        }
        assert(value.take(n) =~= eu);
        assert(value.skip(n + 4) =~= encode_utf8(w));
        lemma_lossy_text_of_encoding(u);
        lemma_lossy_text_of_encoding(w);
    } else {
        if has_separator(value) {
            let p = choose|p: int| separator_at(value, p);
            assert(value + Seq::<u8>::empty() =~= value);
            lemma_separator_needs_char(s, Seq::<u8>::empty(), p);
        }
    }
}

/// The user id and password are read back from the wire form of any pair
/// whose user id does not hold the separator character.
pub proof fn lemma_auth_view_roundtrip(v: AuthView)
    requires
        !v.uid.contains(separator_char()),
    ensures
        has_separator(auth_encoding(v)),
        first_separator(auth_encoding(v)) == encode_utf8(v.uid).len(),
        lossy_text(auth_encoding(v).take(first_separator(auth_encoding(v)))) == v.uid,
        lossy_text(auth_encoding(v).skip(first_separator(auth_encoding(v)) + 4)) == v.pwd,
{
    let u = encode_utf8(v.uid);
    assert(!has_separator(u)) by {
        if has_separator(u) {
            let p = choose|p: int| separator_at(u, p);
            assert(u + Seq::<u8>::empty() =~= u);
            lemma_separator_needs_char(v.uid, Seq::<u8>::empty(), p);
        }
    }
    let e = auth_encoding(v);
    let n = u.len() as int;
    assert(e.subrange(n, n + 4) =~= separator());
    assert(separator_at(e, n));
    assert forall|j: int| 0 <= j < n implies !separator_at(e, j) by {
        if j + 4 <= n {
            assert(e.subrange(j, j + 4) =~= u.subrange(j, j + 4));
            assert(!separator_at(u, j));
        } else {
            let w = e.subrange(j, j + 4);
            assert(w[n - j] == 0xF0u8);
            assert(separator()[n - j] != 0xF0u8);
        }
    }
    assert(separator_at(e, n) && forall|j: int| 0 <= j < n ==> !separator_at(e, j));
    let k = first_separator(e);
    assert(k == n) by {
        if k < n {
        } else if k > n {
        }
    }
    assert(e.take(n) =~= u);
    assert(e.skip(n + 4) =~= encode_utf8(v.pwd));
    lemma_lossy_text_of_encoding(v.uid);
    lemma_lossy_text_of_encoding(v.pwd);
}

} // verus!
