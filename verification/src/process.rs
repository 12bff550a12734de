//! Process-level odds and ends: application metadata, extra exit codes,
//! and the flag through which a shutdown request reaches the game loop.

use vstd::prelude::*;

verus! {

/// Exit codes complementing the canonical success and failure codes.
#[derive(Debug, Copy, Clone)]
pub struct MoreExitCode;

impl MoreExitCode {
    pub const INVALID_ARGS: u8 = 2;
}

/// Descriptive data about the running application.
#[derive(Debug)]
pub struct AppMetadata {
    pub name: &'static str,
    pub version: &'static str,
    pub authors: &'static str,
    pub homepage: &'static str,
    pub exe: &'static str,
}

impl AppMetadata {
    #[must_use]
    pub fn name(&self) -> (r: &'static str)
        ensures
            r == self.name,
    {
        self.name
    }

    #[must_use]
    pub fn version(&self) -> (r: &'static str)
        ensures
            r == self.version,
    {
        self.version
    }

    #[must_use]
    pub fn authors(&self) -> (r: &'static str)
        ensures
            r == self.authors,
    {
        self.authors
    }

    #[must_use]
    pub fn homepage(&self) -> (r: &'static str)
        ensures
            r == self.homepage,
    {
        self.homepage
    }

    #[must_use]
    pub fn exe(&self) -> (r: &'static str)
        ensures
            r == self.exe,
    {
        self.exe
    }
}

/// A latch that records a request to shut the application down.
#[derive(Debug)]
pub struct ExitSignal {
    received: bool,
}

impl ExitSignal {
    pub closed spec fn spec_received(self) -> bool {
        self.received
    }

    pub fn new() -> (r: Self)
        ensures
            !r.spec_received(),
    {
        Self { received: false }
    }

    pub fn is_received(&self) -> (r: bool)
        ensures
            r == self.spec_received(),
    {
        self.received
    }

    pub fn mark_received(&mut self)
        ensures
            final(self).spec_received(),
    {
        self.received = true;
    }
}

} // verus!
