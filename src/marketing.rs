//! Token logo descriptions.

use vstd::prelude::*;

verus! {

/// A logo to upload, or to set at instantiation.
#[derive(Clone, Debug, PartialEq, Eq)]
pub enum Logo {
    /// A reference to an externally hosted logo, by HTTP or HTTPS URL.
    URL(String),
    /// Logo content stored on the chain.
    Embedded(EmbeddedLogo),
}

/// A logo stored on the chain, in one of the accepted formats.
#[derive(Clone, Debug, PartialEq, Eq)]
pub enum EmbeddedLogo {
    /// The bytes of an SVG file.
    SVG(Vec<u8>),
    /// The bytes of a PNG file.
    PNG(Vec<u8>),
}

/// Where a token's logo is: at a URL, or on the chain, to be fetched with
/// another call.
#[derive(Clone, Debug, PartialEq, Eq)]
pub enum LogoInfo {
    URL(String),
    Embedded,
}

impl Logo {
    /// What a query for the logo reports once `self` is stored.
    pub fn info(&self) -> (r: LogoInfo)
        ensures
            self is URL ==> (r matches LogoInfo::URL(u) && u@ == self->URL_0@),
            self is Embedded ==> r is Embedded,
    {
        match self {
            Logo::URL(u) => LogoInfo::URL(u.clone()),
            Logo::Embedded(_) => LogoInfo::Embedded,
        }
    }
}

} // verus!
