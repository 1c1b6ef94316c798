//! The selector of the local AMS address that a link is opened from.

use crate::error::{LinkError, TextField};
use crate::net_id::{ams_address_of_text, lemma_ams_address_text_ascii, AmsAddress};
use vstd::prelude::*;

verus! {

/// Which way the local AMS address is chosen.
#[derive(Clone, Copy, Debug, PartialEq, Eq, Structural)]
pub enum SourceTag {
    /// The address is derived from the local socket.
    Auto,
    /// The address is given as text.
    Addr,
    /// The address is requested from the router that the link connects to.
    Request,
}

impl SourceTag {
    /// The tag that a discriminant byte stands for, if it stands for one.
    pub open spec fn of_raw(raw: u8) -> Option<SourceTag> {
        if raw == 0 {
            Some(SourceTag::Auto)
        } else if raw == 1 {
            Some(SourceTag::Addr)
        } else if raw == 2 {
            Some(SourceTag::Request)
        } else {
            None
        }
    }

    /// Decodes a discriminant byte; a byte that names no variant gives `None`.
    pub fn from_raw(raw: u8) -> (tag: Option<SourceTag>)
        ensures
            tag == SourceTag::of_raw(raw),
    {
        match raw {
            0 => Some(SourceTag::Auto),
            1 => Some(SourceTag::Addr),
            2 => Some(SourceTag::Request),
            _ => None,
        }
    }

    /// The discriminant byte of the tag.
    pub open spec fn raw(self) -> u8 {
        match self {
            SourceTag::Auto => 0,
            SourceTag::Addr => 1,
            SourceTag::Request => 2,
        }
    }

    /// The discriminant byte of the tag.
    pub fn to_raw(self) -> (raw: u8)
        ensures
            raw == self.raw(),
            SourceTag::of_raw(raw) == Some(self),
    {
        match self {
            SourceTag::Auto => 0,
            SourceTag::Addr => 1,
            SourceTag::Request => 2,
        }
    }
}

/// The selector as a caller gives it: the discriminant byte of a tag, and
/// the text that goes with the tag `Addr`. `addr` is `None` where the caller
/// gave no text.
#[derive(Clone, Debug, PartialEq, Eq)]
pub struct Source {
    pub tag: u8,
    pub addr: Option<Vec<u8>>,
}

/// The selector as a link takes it.
#[derive(Clone, Copy, Debug, PartialEq, Eq)]
pub enum LinkSource {
    /// Derive the address from the local socket.
    Auto,
    /// Use this address.
    Addr(AmsAddress),
    /// Request the address from the router.
    Request,
}

/// What a [`LinkSource`] holds, with the address as sequences.
pub enum LinkSourceView {
    Auto,
    Addr((Seq<u8>, u16)),
    Request,
}

impl View for LinkSource {
    type V = LinkSourceView;

    open spec fn view(&self) -> LinkSourceView {
        match *self {
            LinkSource::Auto => LinkSourceView::Auto,
            LinkSource::Addr(address) => LinkSourceView::Addr(address@),
            LinkSource::Request => LinkSourceView::Request,
        }
    }
}

/// The address that a source text stands for: the AMS address that it
/// writes, and the unspecified address where it writes none.
pub open spec fn source_address_of_text(bytes: Seq<u8>) -> (Seq<u8>, u16) {
    match ams_address_of_text(bytes) {
        Some(address) => address,
        None => AmsAddress::unspecified_view(),
    }
}

impl Source {
    /// The text that comes with the selector, as bytes.
    pub open spec fn text(self) -> Option<Seq<u8>> {
        match self.addr {
            Some(bytes) => Some(bytes@),
            None => None,
        }
    }

    /// The selector that a link takes for this one. A discriminant that
    /// names no tag is an error. The tags `Auto` and `Request` stand for
    /// themselves, whatever text comes with them. The tag `Addr` needs a
    /// text, and stands for the address that the text writes; a text that
    /// writes none gives the unspecified address, not an error. That
    /// leniency is deliberate: a caller who wants a malformed address
    /// refused checks it with [`AmsAddress::parse`] first.
    pub open spec fn resolved(self) -> Result<LinkSourceView, LinkError> {
        match SourceTag::of_raw(self.tag) {
            None => Err(LinkError::UnknownSource(self.tag)),
            Some(SourceTag::Auto) => Ok(LinkSourceView::Auto),
            Some(SourceTag::Request) => Ok(LinkSourceView::Request),
            Some(SourceTag::Addr) => match self.text() {
                None => Err(LinkError::MissingText(TextField::SourceAddress)),
                Some(bytes) => Ok(LinkSourceView::Addr(source_address_of_text(bytes))),
            },
        }
    }

    /// A selector with the tag `tag` and the text `addr`.
    pub fn new(tag: SourceTag, addr: Option<Vec<u8>>) -> (source: Source)
        ensures
            source.tag == tag.raw(),
            source.addr == addr,
    {
        Source { tag: tag.to_raw(), addr }
    }

    /// Converts the selector into the one that a link takes.
    pub fn resolve(&self) -> (source: Result<LinkSource, LinkError>)
        ensures
            match source {
                Ok(s) => self.resolved() == Ok::<LinkSourceView, LinkError>(s@),
                Err(e) => self.resolved() == Err::<LinkSourceView, LinkError>(e),
            },
    {
        match SourceTag::from_raw(self.tag) {
            None => Err(LinkError::UnknownSource(self.tag)),
            Some(SourceTag::Auto) => Ok(LinkSource::Auto),
            Some(SourceTag::Request) => Ok(LinkSource::Request),
            Some(SourceTag::Addr) => match &self.addr {
                None => Err(LinkError::MissingText(TextField::SourceAddress)),
                Some(bytes) => Ok(LinkSource::Addr(source_address(bytes.as_slice()))),
            },
        }
    }
}

/// A selector with the tag `Addr` and a text always resolves: to the address
/// that the text writes, and to the unspecified address where it writes none.
pub proof fn lemma_source_address(source: Source)
    requires
        source.tag == SourceTag::Addr.raw(),
        source.text() is Some,
    ensures
        ams_address_of_text(source.text().unwrap()) matches Some(address) ==> source.resolved()
            == Ok::<LinkSourceView, LinkError>(LinkSourceView::Addr(address)),
        ams_address_of_text(source.text().unwrap()) is None ==> source.resolved() == Ok::<
            LinkSourceView,
            LinkError,
        >(LinkSourceView::Addr(AmsAddress::unspecified_view())),
{
}

/// Reads a source text as an AMS address, with the unspecified address for
/// a text that writes none.
pub fn source_address(bytes: &[u8]) -> (address: AmsAddress)
    ensures
        address@ == source_address_of_text(bytes@),
{
    match core::str::from_utf8(bytes) {
        Ok(text) => match AmsAddress::parse(text) {
            Some(address) => address,
            None => AmsAddress::unspecified(),
        },
        Err(_) => {
            proof {
                if ams_address_of_text(bytes@) is Some {
                    lemma_ams_address_text_ascii(bytes@);
                }
            }
            AmsAddress::unspecified()
        },
    }
}

} // verus!
