//! What can go wrong while the inputs of a link are checked.

use vstd::prelude::*;

verus! {

/// The texts that come with a request for a link.
#[derive(Clone, Copy, Debug, PartialEq, Eq, Structural)]
pub enum TextField {
    /// The address of the host that runs the controller.
    HostAddress,
    /// The AMS network identifier of the controller.
    DeviceIdentifier,
    /// The local AMS address to open the link from.
    SourceAddress,
}

/// Why no link was built.
#[derive(Clone, Copy, Debug, PartialEq, Eq, Structural)]
pub enum LinkError {
    /// A text that is needed was not given.
    MissingText(TextField),
    /// A text is not valid UTF-8.
    InvalidText(TextField),
    /// The host address is no IP address.
    AddressParse,
    /// The device identifier is no AMS network identifier.
    IdentifierParse,
    /// The discriminant of the source selector names no variant.
    UnknownSource(u8),
}

impl LinkError {
    /// The cause of the error, in words.
    pub open spec fn cause(self) -> Seq<char> {
        match self {
            LinkError::MissingText(_) => "null pointer"@,
            LinkError::InvalidText(_) => "invalid UTF-8 text"@,
            LinkError::AddressParse => "invalid IP address syntax"@,
            LinkError::IdentifierParse => "invalid NetID string"@,
            LinkError::UnknownSource(_) => "unknown source tag"@,
        }
    }

    /// The cause of the error, in words.
    pub fn message(&self) -> (text: &'static str)
        ensures
            text@ == self.cause(),
    {
        match self {
            LinkError::MissingText(_) => "null pointer",
            LinkError::InvalidText(_) => "invalid UTF-8 text",
            LinkError::AddressParse => "invalid IP address syntax",
            LinkError::IdentifierParse => "invalid NetID string",
            LinkError::UnknownSource(_) => "unknown source tag",
        }
    }
}

} // verus!
