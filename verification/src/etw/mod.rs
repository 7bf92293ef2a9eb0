//! The ETW backend: a provider that writes engine events to the trace.
pub mod events;
pub mod provider;

pub use events::{EtwEvent, EtwEventId, EtwEventKind, EtwSeverity};
pub use provider::{EtwError, EtwProvider};

use vstd::prelude::*;

use crate::etw::provider::{start_result, stop_result};

verus! {

/// The ETW backend: its provider and whether the backend runs.
#[derive(Debug)]
pub struct EtwBackend {
    provider: EtwProvider,
    running: bool,
}

impl EtwBackend {
    pub closed spec fn provider_view(self) -> EtwProvider {
        self.provider
    }

    pub closed spec fn running_view(self) -> bool {
        self.running
    }

    pub fn new(provider: EtwProvider) -> (r: Self)
        ensures
            r.provider_view() == provider,
            !r.running_view(),
    {
        EtwBackend { provider, running: false }
    }

    /// Starts the provider; starting a running backend does nothing.
    pub fn start(&mut self) -> (r: Result<(), EtwError>)
        ensures
            old(self).running_view() ==> r is Ok && *final(self) == *old(self),
            !old(self).running_view() ==> {
                &&& r == start_result(
                    old(self).provider_view().running_view(),
                    old(self).provider_view().name_view(),
                )
                &&& final(self).running_view() == r is Ok
                &&& final(self).provider_view().name_view() == old(self).provider_view().name_view()
                &&& final(self).provider_view().running_view() == (old(self).provider_view().running_view() || r is Ok)
            },
    {
        if self.running {
            return Ok(());
        }
        let r = self.provider.start();
        if r.is_ok() {
            self.running = true;
        }
        r
    }

    /// Stops the provider; stopping a backend that does not run does
    /// nothing.
    pub fn stop(&mut self) -> (r: Result<(), EtwError>)
        ensures
            !old(self).running_view() ==> r is Ok && *final(self) == *old(self),
            old(self).running_view() ==> {
                &&& r == stop_result(old(self).provider_view().running_view())
                &&& final(self).running_view() == r is Err
                &&& final(self).provider_view().name_view() == old(self).provider_view().name_view()
                &&& !final(self).provider_view().running_view()
            },
    {
        if !self.running {
            return Ok(());
        }
        let r = self.provider.stop();
        if r.is_ok() {
            self.running = false;
        }
        r
    }

    pub fn is_running(&self) -> (r: bool)
        ensures
            r == self.running_view(),
    {
        self.running
    }

    pub fn provider(&self) -> (r: &EtwProvider)
        ensures
            *r == self.provider_view(),
    {
        &self.provider
    }

    pub fn provider_mut(&mut self) -> (r: &mut EtwProvider)
        ensures
            *r == old(self).provider_view(),
            final(self).provider_view() == *final(r),
            final(self).running_view() == old(self).running_view(),
    {
        &mut self.provider
    }
}

impl Default for EtwBackend {
    fn default() -> (r: Self)
        ensures
            r.provider_view().name_view() == "network-engine"@,
            !r.provider_view().running_view(),
            !r.running_view(),
    {
        Self::new(EtwProvider::default())
    }
}

} // verus!
