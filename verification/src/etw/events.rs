//! ETW events: their kinds, severities, stable identifiers and the text
//! line each event is written as.
use vstd::prelude::*;

use crate::text::{owned, push_str};

verus! {

/// What an event reports.
#[derive(Debug, Clone, Copy, PartialEq, Eq, Structural, Hash)]
pub enum EtwEventKind {
    PacketObserved,
    FlowStarted,
    FlowUpdated,
    FlowEnded,
    InterfaceChanged,
    RouteChanged,
    NeighborChanged,
    BackendStarted,
    BackendStopped,
    BackendError,
    Diagnostic,
    CaptureStarted,
    CaptureStopped,
    BackendFailover,
    GatewayStateChange,
    PolicyApplied,
    DropRecorded,
    FilterInstalled,
}

/// How serious an event is.
#[derive(Debug, Clone, Copy, PartialEq, Eq, Structural)]
pub enum EtwSeverity {
    Trace,
    Debug,
    Info,
    Warning,
    Error,
    Critical,
}

impl EtwSeverity {
    /// The lower-case name of a severity.
    pub open spec fn name(self) -> Seq<char> {
        match self {
            EtwSeverity::Trace => "trace"@,
            EtwSeverity::Debug => "debug"@,
            EtwSeverity::Info => "info"@,
            EtwSeverity::Warning => "warning"@,
            EtwSeverity::Error => "error"@,
            EtwSeverity::Critical => "critical"@,
        }
    }

    pub fn as_str(self) -> (r: &'static str)
        ensures
            r@ == self.name(),
    {
        match self {
            EtwSeverity::Trace => "trace",
            EtwSeverity::Debug => "debug",
            EtwSeverity::Info => "info",
            EtwSeverity::Warning => "warning",
            EtwSeverity::Error => "error",
            EtwSeverity::Critical => "critical",
        }
    }
}

/// The number an event is written under. Each named identifier is the one
/// of an event kind; `Other` carries any other number. Two identifiers are
/// equal when their numbers are.
#[allow(non_camel_case_types)]
#[derive(Debug, Clone, Copy)]
pub enum EtwEventId {
    PACKET_OBSERVED,
    FLOW_STARTED,
    FLOW_UPDATED,
    FLOW_ENDED,
    INTERFACE_CHANGED,
    ROUTE_CHANGED,
    NEIGHBOR_CHANGED,
    BACKEND_STARTED,
    BACKEND_STOPPED,
    BACKEND_ERROR,
    DIAGNOSTIC,
    CAPTURE_STARTED,
    CAPTURE_STOPPED,
    BACKEND_FAILOVER,
    GATEWAY_STATE_CHANGE,
    POLICY_APPLIED,
    DROP_RECORDED,
    FILTER_INSTALLED,
    Other(u16),
}

/// The number written for events of each kind: the kinds are numbered
/// from one in declaration order.
pub open spec fn kind_number(kind: EtwEventKind) -> u16 {
    match kind {
        EtwEventKind::PacketObserved => 1,
        EtwEventKind::FlowStarted => 2,
        EtwEventKind::FlowUpdated => 3,
        EtwEventKind::FlowEnded => 4,
        EtwEventKind::InterfaceChanged => 5,
        EtwEventKind::RouteChanged => 6,
        EtwEventKind::NeighborChanged => 7,
        EtwEventKind::BackendStarted => 8,
        EtwEventKind::BackendStopped => 9,
        EtwEventKind::BackendError => 10,
        EtwEventKind::Diagnostic => 11,
        EtwEventKind::CaptureStarted => 12,
        EtwEventKind::CaptureStopped => 13,
        EtwEventKind::BackendFailover => 14,
        EtwEventKind::GatewayStateChange => 15,
        EtwEventKind::PolicyApplied => 16,
        EtwEventKind::DropRecorded => 17,
        EtwEventKind::FilterInstalled => 18,
    }
}

impl EtwEventId {
    /// The number of an identifier.
    pub open spec fn number(self) -> u16 {
        match self {
            EtwEventId::PACKET_OBSERVED => 1,
            EtwEventId::FLOW_STARTED => 2,
            EtwEventId::FLOW_UPDATED => 3,
            EtwEventId::FLOW_ENDED => 4,
            EtwEventId::INTERFACE_CHANGED => 5,
            EtwEventId::ROUTE_CHANGED => 6,
            EtwEventId::NEIGHBOR_CHANGED => 7,
            EtwEventId::BACKEND_STARTED => 8,
            EtwEventId::BACKEND_STOPPED => 9,
            EtwEventId::BACKEND_ERROR => 10,
            EtwEventId::DIAGNOSTIC => 11,
            EtwEventId::CAPTURE_STARTED => 12,
            EtwEventId::CAPTURE_STOPPED => 13,
            EtwEventId::BACKEND_FAILOVER => 14,
            EtwEventId::GATEWAY_STATE_CHANGE => 15,
            EtwEventId::POLICY_APPLIED => 16,
            EtwEventId::DROP_RECORDED => 17,
            EtwEventId::FILTER_INSTALLED => 18,
            EtwEventId::Other(n) => n,
        }
    }

    /// Each number has one identifier of this form: the named one where a
    /// kind uses the number, `Other` elsewhere.
    pub open spec fn is_canonical(self) -> bool {
        self matches EtwEventId::Other(n) ==> n == 0 || n > 18
    }

    /// The number written for this identifier.
    pub fn value(self) -> (r: u16)
        ensures
            r == self.number(),
    {
        match self {
            EtwEventId::PACKET_OBSERVED => 1,
            EtwEventId::FLOW_STARTED => 2,
            EtwEventId::FLOW_UPDATED => 3,
            EtwEventId::FLOW_ENDED => 4,
            EtwEventId::INTERFACE_CHANGED => 5,
            EtwEventId::ROUTE_CHANGED => 6,
            EtwEventId::NEIGHBOR_CHANGED => 7,
            EtwEventId::BACKEND_STARTED => 8,
            EtwEventId::BACKEND_STOPPED => 9,
            EtwEventId::BACKEND_ERROR => 10,
            EtwEventId::DIAGNOSTIC => 11,
            EtwEventId::CAPTURE_STARTED => 12,
            EtwEventId::CAPTURE_STOPPED => 13,
            EtwEventId::BACKEND_FAILOVER => 14,
            EtwEventId::GATEWAY_STATE_CHANGE => 15,
            EtwEventId::POLICY_APPLIED => 16,
            EtwEventId::DROP_RECORDED => 17,
            EtwEventId::FILTER_INSTALLED => 18,
            EtwEventId::Other(n) => n,
        }
    }

    /// The identifier written as `n`.
    pub fn from_value(n: u16) -> (r: Self)
        ensures
            r.number() == n,
            r.is_canonical(),
    {
        match n {
            1 => EtwEventId::PACKET_OBSERVED,
            2 => EtwEventId::FLOW_STARTED,
            3 => EtwEventId::FLOW_UPDATED,
            4 => EtwEventId::FLOW_ENDED,
            5 => EtwEventId::INTERFACE_CHANGED,
            6 => EtwEventId::ROUTE_CHANGED,
            7 => EtwEventId::NEIGHBOR_CHANGED,
            8 => EtwEventId::BACKEND_STARTED,
            9 => EtwEventId::BACKEND_STOPPED,
            10 => EtwEventId::BACKEND_ERROR,
            11 => EtwEventId::DIAGNOSTIC,
            12 => EtwEventId::CAPTURE_STARTED,
            13 => EtwEventId::CAPTURE_STOPPED,
            14 => EtwEventId::BACKEND_FAILOVER,
            15 => EtwEventId::GATEWAY_STATE_CHANGE,
            16 => EtwEventId::POLICY_APPLIED,
            17 => EtwEventId::DROP_RECORDED,
            18 => EtwEventId::FILTER_INSTALLED,
            _ => EtwEventId::Other(n),
        }
    }

    /// The identifier of events of `kind`.
    pub fn for_kind(kind: EtwEventKind) -> (r: Self)
        ensures
            r.number() == kind_number(kind),
            r.is_canonical(),
    {
        match kind {
            EtwEventKind::PacketObserved => EtwEventId::PACKET_OBSERVED,
            EtwEventKind::FlowStarted => EtwEventId::FLOW_STARTED,
            EtwEventKind::FlowUpdated => EtwEventId::FLOW_UPDATED,
            EtwEventKind::FlowEnded => EtwEventId::FLOW_ENDED,
            EtwEventKind::InterfaceChanged => EtwEventId::INTERFACE_CHANGED,
            EtwEventKind::RouteChanged => EtwEventId::ROUTE_CHANGED,
            EtwEventKind::NeighborChanged => EtwEventId::NEIGHBOR_CHANGED,
            EtwEventKind::BackendStarted => EtwEventId::BACKEND_STARTED,
            EtwEventKind::BackendStopped => EtwEventId::BACKEND_STOPPED,
            EtwEventKind::BackendError => EtwEventId::BACKEND_ERROR,
            EtwEventKind::Diagnostic => EtwEventId::DIAGNOSTIC,
            EtwEventKind::CaptureStarted => EtwEventId::CAPTURE_STARTED,
            EtwEventKind::CaptureStopped => EtwEventId::CAPTURE_STOPPED,
            EtwEventKind::BackendFailover => EtwEventId::BACKEND_FAILOVER,
            EtwEventKind::GatewayStateChange => EtwEventId::GATEWAY_STATE_CHANGE,
            EtwEventKind::PolicyApplied => EtwEventId::POLICY_APPLIED,
            EtwEventKind::DropRecorded => EtwEventId::DROP_RECORDED,
            EtwEventKind::FilterInstalled => EtwEventId::FILTER_INSTALLED,
        }
    }
}

impl PartialEq for EtwEventId {
    fn eq(&self, other: &Self) -> (r: bool) {
        self.value() == other.value()
    }
}

impl vstd::std_specs::cmp::PartialEqSpecImpl for EtwEventId {
    open spec fn obeys_eq_spec() -> bool {
        true
    }

    open spec fn eq_spec(&self, other: &Self) -> bool {
        self.number() == other.number()
    }
}

impl Eq for EtwEventId {
}

/// Distinct kinds are written under distinct numbers, and distinct
/// identifiers carry distinct numbers: a number names one kind.
pub proof fn lemma_event_ids_distinct(a: EtwEventKind, b: EtwEventKind, x: EtwEventId, y: EtwEventId)
    requires
        x.is_canonical(),
        y.is_canonical(),
    ensures
        kind_number(a) == kind_number(b) <==> a == b,
        x.number() == y.number() <==> x == y,
{
}

/// One event as written to the trace.
#[derive(Debug, Clone)]
pub struct EtwEvent {
    pub event_id: EtwEventId,
    pub kind: EtwEventKind,
    pub severity: EtwSeverity,
    pub timestamp: u64,
    pub provider: String,
    pub message: String,
}

impl EtwEvent {
    pub fn new(
        event_id: EtwEventId,
        kind: EtwEventKind,
        severity: EtwSeverity,
        timestamp: u64,
        provider: &str,
        message: &str,
    ) -> (r: Self)
        ensures
            r.event_id == event_id,
            r.kind == kind,
            r.severity == severity,
            r.timestamp == timestamp,
            r.provider@ == provider@,
            r.message@ == message@,
    {
        EtwEvent {
            event_id,
            kind,
            severity,
            timestamp,
            provider: owned(provider),
            message: owned(message),
        }
    }

    /// An event of `kind` with the identifier that belongs to it.
    fn of_kind(kind: EtwEventKind, severity: EtwSeverity, timestamp: u64, provider: &str, message: &str) -> (r: Self)
        ensures
            r.event_id.number() == kind_number(kind),
            r.event_id.is_canonical(),
            r.kind == kind,
            r.severity == severity,
            r.timestamp == timestamp,
            r.provider@ == provider@,
            r.message@ == message@,
    {
        Self::new(EtwEventId::for_kind(kind), kind, severity, timestamp, provider, message)
    }

    pub fn diagnostic(timestamp: u64, provider: &str, message: &str) -> (r: Self)
        ensures
            r.event_id == EtwEventId::DIAGNOSTIC,
            r.kind == EtwEventKind::Diagnostic,
            r.severity == EtwSeverity::Info,
            r.timestamp == timestamp,
            r.provider@ == provider@,
            r.message@ == message@,
    {
        Self::of_kind(EtwEventKind::Diagnostic, EtwSeverity::Info, timestamp, provider, message)
    }

    pub fn capture_started(timestamp: u64, provider: &str, message: &str) -> (r: Self)
        ensures
            r.event_id == EtwEventId::CAPTURE_STARTED,
            r.kind == EtwEventKind::CaptureStarted,
            r.severity == EtwSeverity::Info,
            r.timestamp == timestamp,
            r.provider@ == provider@,
            r.message@ == message@,
    {
        Self::of_kind(EtwEventKind::CaptureStarted, EtwSeverity::Info, timestamp, provider, message)
    }

    pub fn capture_stopped(timestamp: u64, provider: &str, message: &str) -> (r: Self)
        ensures
            r.event_id == EtwEventId::CAPTURE_STOPPED,
            r.kind == EtwEventKind::CaptureStopped,
            r.severity == EtwSeverity::Info,
            r.timestamp == timestamp,
            r.provider@ == provider@,
            r.message@ == message@,
    {
        Self::of_kind(EtwEventKind::CaptureStopped, EtwSeverity::Info, timestamp, provider, message)
    }

    pub fn backend_failover(timestamp: u64, provider: &str, message: &str) -> (r: Self)
        ensures
            r.event_id == EtwEventId::BACKEND_FAILOVER,
            r.kind == EtwEventKind::BackendFailover,
            r.severity == EtwSeverity::Warning,
            r.timestamp == timestamp,
            r.provider@ == provider@,
            r.message@ == message@,
    {
        Self::of_kind(EtwEventKind::BackendFailover, EtwSeverity::Warning, timestamp, provider, message)
    }

    pub fn gateway_state_change(timestamp: u64, provider: &str, message: &str) -> (r: Self)
        ensures
            r.event_id == EtwEventId::GATEWAY_STATE_CHANGE,
            r.kind == EtwEventKind::GatewayStateChange,
            r.severity == EtwSeverity::Info,
            r.timestamp == timestamp,
            r.provider@ == provider@,
            r.message@ == message@,
    {
        Self::of_kind(EtwEventKind::GatewayStateChange, EtwSeverity::Info, timestamp, provider, message)
    }

    pub fn policy_applied(timestamp: u64, provider: &str, message: &str) -> (r: Self)
        ensures
            r.event_id == EtwEventId::POLICY_APPLIED,
            r.kind == EtwEventKind::PolicyApplied,
            r.severity == EtwSeverity::Debug,
            r.timestamp == timestamp,
            r.provider@ == provider@,
            r.message@ == message@,
    {
        Self::of_kind(EtwEventKind::PolicyApplied, EtwSeverity::Debug, timestamp, provider, message)
    }

    pub fn drop_recorded(timestamp: u64, provider: &str, message: &str) -> (r: Self)
        ensures
            r.event_id == EtwEventId::DROP_RECORDED,
            r.kind == EtwEventKind::DropRecorded,
            r.severity == EtwSeverity::Warning,
            r.timestamp == timestamp,
            r.provider@ == provider@,
            r.message@ == message@,
    {
        Self::of_kind(EtwEventKind::DropRecorded, EtwSeverity::Warning, timestamp, provider, message)
    }

    pub fn filter_installed(timestamp: u64, provider: &str, message: &str) -> (r: Self)
        ensures
            r.event_id == EtwEventId::FILTER_INSTALLED,
            r.kind == EtwEventKind::FilterInstalled,
            r.severity == EtwSeverity::Info,
            r.timestamp == timestamp,
            r.provider@ == provider@,
            r.message@ == message@,
    {
        Self::of_kind(EtwEventKind::FilterInstalled, EtwSeverity::Info, timestamp, provider, message)
    }

    /// The line an event is written as: `[severity] provider: message`.
    pub open spec fn line(self) -> Seq<char> {
        "["@ + self.severity.name() + "] "@ + self.provider@ + ": "@ + self.message@
    }

    /// The event as its trace line.
    pub fn to_display_string(&self) -> (r: String)
        ensures
            r@ == self.line(),
    {
        let mut s = owned("[");
        push_str(&mut s, self.severity.as_str());
        push_str(&mut s, "] ");
        push_str(&mut s, self.provider.as_str());
        push_str(&mut s, ": ");
        push_str(&mut s, self.message.as_str());
        s
    }
}

} // verus!
