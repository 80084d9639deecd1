//! The command line of the proxy.
use vstd::prelude::*;

verus! {

/// The arguments the proxy starts with: the path of the configuration file,
/// when given.
#[derive(Debug, Clone, PartialEq, Eq)]
pub struct StartArgs {
    config: Option<String>,
}

impl StartArgs {
    pub fn new(config: Option<String>) -> (r: Self)
        ensures
            r.config_spec() == (match config {
                Some(c) => Some(c@),
                None => None::<Seq<char>>,
            }),
    {
        StartArgs { config }
    }

    pub closed spec fn config_spec(&self) -> Option<Seq<char>> {
        match self.config {
            Some(c) => Some(c@),
            None => None,
        }
    }

    /// The path of the configuration file, when given.
    pub fn config(&self) -> (r: Option<&str>)
        ensures
            (match r {
                Some(c) => Some(c@),
                None => None::<Seq<char>>,
            }) == self.config_spec(),
    {
        match &self.config {
            Some(c) => Some(c.as_str()),
            None => None,
        }
    }
}

} // verus!
