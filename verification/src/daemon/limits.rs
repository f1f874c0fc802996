//! The descriptor limits of this process, as they were read.

use rustix::process::{getrlimit, setrlimit, Resource, Rlimit};
use vstd::prelude::*;

use crate::daemon::fd_budget::limit_request;

verus! {

/// Descriptor limits that were read from the system; there is no other way to
/// get one.
pub struct DescriptorLimits {
    soft: Option<u64>,
    hard: Option<u64>,
}

impl DescriptorLimits {
    /// The soft limit; `None` is unlimited.
    pub closed spec fn soft(&self) -> Option<u64> {
        self.soft
    }

    /// The hard limit; `None` is unlimited.
    pub closed spec fn hard(&self) -> Option<u64> {
        self.hard
    }

    /// The limits of this process, by `rustix::process::getrlimit`. Nothing is
    /// claimed of them: they are the machine's.
    #[verifier::external_body]
    pub(crate) fn read() -> (r: DescriptorLimits) {
        let limits = getrlimit(Resource::Nofile);
        DescriptorLimits { soft: limits.current, hard: limits.maximum }
    }

    /// The soft limit that was read.
    pub fn soft_limit(&self) -> (r: Option<u64>)
        ensures
            r == self.soft(),
    {
        self.soft
    }

    /// The hard limit that was read.
    pub fn hard_limit(&self) -> (r: Option<u64>)
        ensures
            r == self.hard(),
    {
        self.hard
    }

    /// Ask for other limits than those that were read, by
    /// `rustix::process::setrlimit`. Only the raise toward the budget may be
    /// asked for, beside the hard limit that was read. Whether the system
    /// agreed is returned, and nothing is claimed of it.
    #[verifier::external_body]
    pub(crate) fn request(self, soft: u64, hard: Option<u64>) -> (r: bool)
        requires
            limit_request(self.soft(), self.hard()) == Some((soft, hard)),
    {
        setrlimit(Resource::Nofile, Rlimit { current: Some(soft), maximum: hard }).is_ok()
    }
}

} // verus!
