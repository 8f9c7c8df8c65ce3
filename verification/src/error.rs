//! The library's error type.

use vstd::prelude::*;
use crate::config::ConfigError;
use crate::notifications::ProviderError;
use crate::wg::WgError;

verus! {

#[derive(Debug)]
pub enum Error {
    /// A status was asked of an entry that is no client.
    UnableToGetStatusOfEntry,
    Message(String),
    ConfigErr(ConfigError),
    WgErr(WgError),
    ProviderErr(ProviderError),
}

impl From<ConfigError> for Error {
    fn from(e: ConfigError) -> (r: Self) {
        Error::ConfigErr(e)
    }
}

impl vstd::std_specs::convert::FromSpecImpl<ConfigError> for Error {
    open spec fn obeys_from_spec() -> bool {
        true
    }

    open spec fn from_spec(e: ConfigError) -> Self {
        Error::ConfigErr(e)
    }
}

impl From<WgError> for Error {
    fn from(e: WgError) -> (r: Self) {
        Error::WgErr(e)
    }
}

impl vstd::std_specs::convert::FromSpecImpl<WgError> for Error {
    open spec fn obeys_from_spec() -> bool {
        true
    }

    open spec fn from_spec(e: WgError) -> Self {
        Error::WgErr(e)
    }
}

impl From<ProviderError> for Error {
    fn from(e: ProviderError) -> (r: Self) {
        Error::ProviderErr(e)
    }
}

impl vstd::std_specs::convert::FromSpecImpl<ProviderError> for Error {
    open spec fn obeys_from_spec() -> bool {
        true
    }

    open spec fn from_spec(e: ProviderError) -> Self {
        Error::ProviderErr(e)
    }
}

} // verus!
