//! The ETW provider session: a named provider that is started, stopped and
//! asked to write events.
use vstd::prelude::*;

use crate::etw::events::{kind_number, EtwEvent, EtwEventId, EtwEventKind, EtwSeverity};
use crate::text::{is_blank, owned, str_is_blank};

verus! {

/// Why a provider refused a request.
#[derive(Debug, Clone, Copy, PartialEq, Eq, Structural)]
pub enum EtwError {
    AlreadyRunning,
    NotRunning,
    InvalidProviderName,
    EventRejected,
    RegistrationFailed,
}

/// The ETW trace level (1 critical to 5 verbose) under which an event of
/// this severity is written; debug and trace share the verbose level.
pub fn severity_to_etw_level(severity: EtwSeverity) -> (r: u8)
    ensures
        r == match severity {
            EtwSeverity::Critical => 1u8,
            EtwSeverity::Error => 2u8,
            EtwSeverity::Warning => 3u8,
            EtwSeverity::Info => 4u8,
            EtwSeverity::Debug | EtwSeverity::Trace => 5u8,
        },
{
    match severity {
        EtwSeverity::Critical => 1,
        EtwSeverity::Error => 2,
        EtwSeverity::Warning => 3,
        EtwSeverity::Info => 4,
        EtwSeverity::Debug | EtwSeverity::Trace => 5,
    }
}

/// What `EventRegister` returning `status` and the handle `handle` means:
/// a failed status or a zero handle is a failed registration.
pub fn registration_outcome(status: u32, handle: u64) -> (r: Result<u64, EtwError>)
    ensures
        status != 0 || handle == 0 ==> r == Err::<u64, EtwError>(EtwError::RegistrationFailed),
        status == 0 && handle != 0 ==> r == Ok::<u64, EtwError>(handle),
{
    if status != 0 || handle == 0 {
        return Err(EtwError::RegistrationFailed);
    }
    Ok(handle)
}

/// What `EventWriteString` returning `status` means: any failure rejects
/// the event.
pub fn write_outcome(status: u32) -> (r: Result<(), EtwError>)
    ensures
        status != 0 ==> r == Err::<(), EtwError>(EtwError::EventRejected),
        status == 0 ==> r is Ok,
{
    if status != 0 {
        return Err(EtwError::EventRejected);
    }
    Ok(())
}

/// What `start` answers a provider that is `running` and named `name`.
pub open spec fn start_result(running: bool, name: Seq<char>) -> Result<(), EtwError> {
    if running {
        Err(EtwError::AlreadyRunning)
    } else if is_blank(name) {
        Err(EtwError::InvalidProviderName)
    } else {
        Ok(())
    }
}

/// What `stop` answers a provider that is `running`.
pub open spec fn stop_result(running: bool) -> Result<(), EtwError> {
    if running {
        Ok(())
    } else {
        Err(EtwError::NotRunning)
    }
}

/// What `emit` answers for an event from `provider` carrying `message`:
/// a stopped provider writes nothing, and an event needs a provider name
/// and a message that are not blank.
pub open spec fn emit_result(running: bool, provider: Seq<char>, message: Seq<char>) -> Result<(), EtwError> {
    if !running {
        Err(EtwError::NotRunning)
    } else if is_blank(provider) || is_blank(message) {
        Err(EtwError::EventRejected)
    } else {
        Ok(())
    }
}

/// A provider with a usable name starts once and then refuses to start
/// again; stopping it succeeds once and then is refused.
pub proof fn lemma_provider_lifecycle(name: Seq<char>)
    requires
        !is_blank(name),
    ensures
        start_result(false, name) is Ok,
        start_result(true, name) == Err::<(), EtwError>(EtwError::AlreadyRunning),
        stop_result(true) is Ok,
        stop_result(false) == Err::<(), EtwError>(EtwError::NotRunning),
{
}

/// A named ETW provider and whether it is registered.
#[derive(Debug, Clone)]
pub struct EtwProvider {
    name: String,
    running: bool,
}

impl EtwProvider {
    pub closed spec fn name_view(self) -> Seq<char> {
        self.name@
    }

    pub closed spec fn running_view(self) -> bool {
        self.running
    }

    pub fn new(name: &str) -> (r: Self)
        ensures
            r.name_view() == name@,
            !r.running_view(),
    {
        EtwProvider { name: owned(name), running: false }
    }

    /// Registers the provider; refused when it runs already or its name
    /// is blank.
    pub fn start(&mut self) -> (r: Result<(), EtwError>)
        ensures
            r == start_result(old(self).running_view(), old(self).name_view()),
            final(self).name_view() == old(self).name_view(),
            final(self).running_view() == (old(self).running_view() || r is Ok),
    {
        if self.running {
            return Err(EtwError::AlreadyRunning);
        }
        if str_is_blank(self.name.as_str()) {
            return Err(EtwError::InvalidProviderName);
        }
        self.running = true;
        Ok(())
    }

    /// Unregisters the provider; refused when it is not running.
    pub fn stop(&mut self) -> (r: Result<(), EtwError>)
        ensures
            r == stop_result(old(self).running_view()),
            final(self).name_view() == old(self).name_view(),
            !final(self).running_view(),
    {
        if !self.running {
            return Err(EtwError::NotRunning);
        }
        self.running = false;
        Ok(())
    }

    pub fn is_running(&self) -> (r: bool)
        ensures
            r == self.running_view(),
    {
        self.running
    }

    pub fn name(&self) -> (r: &str)
        ensures
            r@ == self.name_view(),
    {
        self.name.as_str()
    }

    /// The identifier this provider writes events of `kind` under.
    pub fn event_id(&self, kind: EtwEventKind) -> (r: EtwEventId)
        ensures
            r.number() == kind_number(kind),
    {
        EtwEventId::for_kind(kind)
    }

    /// Writes `event`.
    pub fn emit(&self, event: &EtwEvent) -> (r: Result<(), EtwError>)
        ensures
            r == emit_result(self.running_view(), event.provider@, event.message@),
    {
        if !self.running {
            return Err(EtwError::NotRunning);
        }
        if str_is_blank(event.provider.as_str()) || str_is_blank(event.message.as_str()) {
            return Err(EtwError::EventRejected);
        }
        Ok(())
    }

    /// Writes an event of `kind` under this provider's name.
    pub fn emit_simple(&self, kind: EtwEventKind, severity: EtwSeverity, timestamp: u64, message: &str) -> (r: Result<(), EtwError>)
        ensures
            r == emit_result(self.running_view(), self.name_view(), message@),
    {
        let event = EtwEvent::new(
            EtwEventId::for_kind(kind),
            kind,
            severity,
            timestamp,
            self.name.as_str(),
            message,
        );
        self.emit(&event)
    }
}

impl Default for EtwProvider {
    fn default() -> (r: Self)
        ensures
            r.name_view() == "network-engine"@,
            !r.running_view(),
    {
        Self::new("network-engine")
    }
}

} // verus!
