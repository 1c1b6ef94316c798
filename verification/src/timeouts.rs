//! The timeouts of a link: each one a duration, or unset.

use vstd::prelude::*;
use vstd::std_specs::convert::FromSpecImpl;

verus! {

/// A span of time in nanoseconds.
#[derive(Clone, Copy, Debug, PartialEq, Eq, Structural)]
pub struct Duration {
    pub nanos: u64,
}

/// A duration that may be unset, in the layout of a flag and a value. The
/// value counts only where the flag is set.
#[derive(Clone, Copy, Debug, PartialEq, Eq, Structural)]
pub struct OptionDuration {
    pub has_value: bool,
    pub value: Duration,
}

impl OptionDuration {
    /// The duration that is held, if one is.
    pub open spec fn get(self) -> Option<Duration> {
        if self.has_value {
            Some(self.value)
        } else {
            None
        }
    }

    /// An unset duration.
    pub fn none() -> (unset: OptionDuration)
        ensures
            unset.get() is None,
            unset == (OptionDuration { has_value: false, value: Duration { nanos: 0 } }),
    {
        OptionDuration { has_value: false, value: Duration { nanos: 0 } }
    }

    /// A duration of `nanos` nanoseconds.
    pub fn some(nanos: u64) -> (set: OptionDuration)
        ensures
            set.get() == Some(Duration { nanos }),
            set == (OptionDuration { has_value: true, value: Duration { nanos } }),
    {
        OptionDuration { has_value: true, value: Duration { nanos } }
    }

    /// The duration that is held, if one is.
    pub fn to_option(self) -> (duration: Option<Duration>)
        ensures
            duration == self.get(),
    {
        if self.has_value {
            Some(self.value)
        } else {
            None
        }
    }
}

/// The timeouts as a caller gives them.
#[derive(Clone, Copy, Debug, PartialEq, Eq, Structural)]
pub struct Timeouts {
    pub connect: OptionDuration,
    pub read: OptionDuration,
    pub write: OptionDuration,
}

/// The timeouts as a link takes them: `None` asks for no timeout of that
/// kind.
#[derive(Clone, Copy, Debug, PartialEq, Eq, Structural)]
pub struct LinkTimeouts {
    pub connect: Option<Duration>,
    pub read: Option<Duration>,
    pub write: Option<Duration>,
}

impl Timeouts {
    /// The timeouts that a link takes for these: each one as it stands.
    pub open spec fn resolved(self) -> LinkTimeouts {
        LinkTimeouts { connect: self.connect.get(), read: self.read.get(), write: self.write.get() }
    }
}

impl From<Timeouts> for LinkTimeouts {
    /// Takes each timeout over as it stands.
    fn from(t: Timeouts) -> (converted: LinkTimeouts) {
        LinkTimeouts {
            connect: t.connect.to_option(),
            read: t.read.to_option(),
            write: t.write.to_option(),
        }
    }
}

impl FromSpecImpl<Timeouts> for LinkTimeouts {
    open spec fn obeys_from_spec() -> bool {
        true
    }

    open spec fn from_spec(t: Timeouts) -> LinkTimeouts {
        t.resolved()
    }
}

/// Each converted timeout depends on the given timeout of its own kind only,
/// and is unset exactly where that one is unset: a zero duration stays a
/// duration, and the value behind an unset flag is never taken.
pub proof fn lemma_timeouts_independent(a: Timeouts, b: Timeouts)
    ensures
        a.connect.get() == b.connect.get() ==> a.resolved().connect == b.resolved().connect,
        a.read.get() == b.read.get() ==> a.resolved().read == b.resolved().read,
        a.write.get() == b.write.get() ==> a.resolved().write == b.resolved().write,
        a.resolved().connect is None <==> !a.connect.has_value,
        a.resolved().read is None <==> !a.read.has_value,
        a.resolved().write is None <==> !a.write.has_value,
        a.connect.has_value ==> a.resolved().connect == Some(a.connect.value),
        a.read.has_value ==> a.resolved().read == Some(a.read.value),
        a.write.has_value ==> a.resolved().write == Some(a.write.value),
{
}

} // verus!
