//! Conversion of SOAP messages from and to their XML text.

use vstd::prelude::*;

verus! {

/// A message that can be read from XML text.
pub trait TryFromXml: Sized {
    type Error;

    fn try_from_xml(xml_str: &str) -> Result<Self, Self::Error>;
}

/// A message that can be written as XML text.
pub trait ToXml {
    type Error;

    fn to_xml(&self) -> Result<String, Self::Error>;
}

} // verus!
