//! The options of a link: its timeouts and its source selector.

use crate::error::LinkError;
use crate::source::{LinkSource, LinkSourceView, Source, SourceTag};
use crate::timeouts::{LinkTimeouts, OptionDuration, Timeouts};
use vstd::prelude::*;

verus! {

/// The options as a caller gives them.
#[derive(Clone, Debug, PartialEq, Eq)]
pub struct RemoteTwinCATOption {
    pub timeouts: Timeouts,
    pub source: Source,
}

/// The options as a link takes them.
#[derive(Clone, Copy, Debug, PartialEq, Eq)]
pub struct LinkOptions {
    pub timeouts: LinkTimeouts,
    pub source: LinkSource,
}

/// What [`LinkOptions`] hold, with the source as its view.
pub struct LinkOptionsView {
    pub timeouts: LinkTimeouts,
    pub source: LinkSourceView,
}

impl View for LinkOptions {
    type V = LinkOptionsView;

    open spec fn view(&self) -> LinkOptionsView {
        LinkOptionsView { timeouts: self.timeouts, source: self.source@ }
    }
}

impl RemoteTwinCATOption {
    /// The options that a link takes for these: the timeouts as they stand,
    /// and the source selector as it resolves.
    pub open spec fn resolved(self) -> Result<LinkOptionsView, LinkError> {
        match self.source.resolved() {
            Ok(source) => Ok(LinkOptionsView { timeouts: self.timeouts.resolved(), source }),
            Err(e) => Err(e),
        }
    }

    /// Converts the options into those that a link takes.
    pub fn resolve(&self) -> (options: Result<LinkOptions, LinkError>)
        ensures
            match options {
                Ok(o) => self.resolved() == Ok::<LinkOptionsView, LinkError>(o@),
                Err(e) => self.resolved() == Err::<LinkOptionsView, LinkError>(e),
            },
    {
        match self.source.resolve() {
            Ok(source) => Ok(LinkOptions { timeouts: LinkTimeouts::from(self.timeouts), source }),
            Err(e) => Err(e),
        }
    }
}

impl Default for RemoteTwinCATOption {
    /// No timeouts, and a source address derived from the local socket.
    fn default() -> (option: RemoteTwinCATOption)
        ensures
            option.timeouts.connect.get() is None,
            option.timeouts.read.get() is None,
            option.timeouts.write.get() is None,
            option.source.tag == SourceTag::Auto.raw(),
            option.source.addr is None,
    {
        RemoteTwinCATOption {
            timeouts: Timeouts {
                connect: OptionDuration::none(),
                read: OptionDuration::none(),
                write: OptionDuration::none(),
            },
            source: Source::new(SourceTag::Auto, None),
        }
    }
}

} // verus!
