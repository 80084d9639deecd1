//! Choosing the inbound and the outbounds that a configuration names.
use vstd::prelude::*;

use std::sync::Arc;

use crate::app_config::{InBoundTypeConfig, OutBoundTypeConfig};
use crate::dns_config::DnsConfig;
use crate::ethan_inbound::EthanInBound;
use crate::ethan_outbound::EthanOutBound;
use crate::socks5_inbound::Socks5InBound;

verus! {

/// The inbound that a configuration names.
pub enum InBound {
    Socks5(Socks5InBound),
    Ethan(EthanInBound),
}

/// Builds inbounds from their configuration.
pub struct InBoundFactory;

impl InBoundFactory {
    /// A SOCKS5 inbound for a SOCKS5 configuration (with the name resolution
    /// settings), an Ethan inbound for an Ethan configuration.
    pub fn get(it: Arc<InBoundTypeConfig>, dns_conf: Arc<DnsConfig>) -> (r: InBound)
        ensures
            match *it {
                InBoundTypeConfig::Socks5(c) => r matches InBound::Socks5(s) && s.config_spec() == c
                    && s.dns_spec() == *dns_conf,
                InBoundTypeConfig::Ethan(c) => r matches InBound::Ethan(e) && e.config_spec() == c,
            },
    {
        match &*it {
            InBoundTypeConfig::Socks5(c) => InBound::Socks5(
                Socks5InBound::new(Arc::new(c.duplicate()), dns_conf),
            ),
            InBoundTypeConfig::Ethan(c) => InBound::Ethan(EthanInBound::new(Arc::new(c.duplicate()))),
        }
    }
}

/// The kinds of outbound.
#[derive(Debug, Clone, Copy, PartialEq, Eq, Structural)]
pub enum OutBoundType {
    Ethan,
    Direct,
}

/// The outbound that connects to the target itself.
#[derive(Debug, Clone, Copy, PartialEq, Eq)]
pub struct Direct;

/// The outbound that a configuration names.
pub enum OutBound {
    Ethan(EthanOutBound),
    Direct(Direct),
}

impl OutBound {
    /// The kind of this outbound.
    pub fn kind(&self) -> (r: OutBoundType)
        ensures
            r == (match self {
                OutBound::Ethan(_) => OutBoundType::Ethan,
                OutBound::Direct(_) => OutBoundType::Direct,
            }),
    {
        match self {
            OutBound::Ethan(_) => OutBoundType::Ethan,
            OutBound::Direct(_) => OutBoundType::Direct,
        }
    }
}

/// Builds outbounds from their configuration.
pub struct OutBoundFactory;

impl OutBoundFactory {
    /// An Ethan outbound for an Ethan configuration, the direct outbound for a
    /// direct one.
    pub fn get(t: &OutBoundTypeConfig) -> (r: OutBound)
        ensures
            match *t {
                OutBoundTypeConfig::Ethan(c) => r matches OutBound::Ethan(e) && e.config_spec() == c,
                OutBoundTypeConfig::Direct(_) => r is Direct,
            },
    {
        match t {
            OutBoundTypeConfig::Ethan(c) => OutBound::Ethan(EthanOutBound::new(Arc::new(c.duplicate()))),
            OutBoundTypeConfig::Direct(_) => OutBound::Direct(Direct),
        }
    }
}

} // verus!
