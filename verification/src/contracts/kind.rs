//! Identity of the backend kinds known to the engine.
use vstd::prelude::*;

use crate::text::str_eq;

verus! {

/// A backend implementation known to the engine.
#[derive(Debug, Clone, Copy, PartialEq, Eq, Hash, Structural)]
pub enum BackendKind {
    Npcap,
    WinDivert,
    Wfp,
    IpHelper,
    Etw,
}

impl BackendKind {
    /// The stable name of the kind.
    pub open spec fn spec_name(self) -> Seq<char> {
        match self {
            BackendKind::Npcap => "npcap"@,
            BackendKind::WinDivert => "windivert"@,
            BackendKind::Wfp => "wfp"@,
            BackendKind::IpHelper => "iphelper"@,
            BackendKind::Etw => "etw"@,
        }
    }

    pub open spec fn spec_description(self) -> Seq<char> {
        match self {
            BackendKind::Npcap => "Npcap Layer-2/raw packet acquisition backend"@,
            BackendKind::WinDivert => "WinDivert IP-layer interception and packet-action backend"@,
            BackendKind::Wfp => "Windows Filtering Platform backend"@,
            BackendKind::IpHelper => "Windows IP Helper network-state backend"@,
            BackendKind::Etw => "Windows ETW diagnostics and telemetry backend"@,
        }
    }

    /// Every kind, in declaration order.
    pub open spec fn spec_all() -> Seq<BackendKind> {
        seq![
            BackendKind::Npcap,
            BackendKind::WinDivert,
            BackendKind::Wfp,
            BackendKind::IpHelper,
            BackendKind::Etw,
        ]
    }

    /// No two kinds share a name.
    pub proof fn lemma_names_distinct(a: BackendKind, b: BackendKind)
        ensures
            a.spec_name() == b.spec_name() ==> a == b,
    {
        reveal_strlit("npcap");
        reveal_strlit("windivert");
        reveal_strlit("wfp");
        reveal_strlit("iphelper");
        reveal_strlit("etw");
        if a != b && a.spec_name() == b.spec_name() {
            assert(a.spec_name()[0] == b.spec_name()[0]);
            assert(a.spec_name().len() == b.spec_name().len());
        }
    }

    pub fn name(self) -> (r: &'static str)
        ensures
            r@ == self.spec_name(),
    {
        match self {
            BackendKind::Npcap => "npcap",
            BackendKind::WinDivert => "windivert",
            BackendKind::Wfp => "wfp",
            BackendKind::IpHelper => "iphelper",
            BackendKind::Etw => "etw",
        }
    }

    pub fn description(self) -> (r: &'static str)
        ensures
            r@ == self.spec_description(),
    {
        match self {
            BackendKind::Npcap => "Npcap Layer-2/raw packet acquisition backend",
            BackendKind::WinDivert => "WinDivert IP-layer interception and packet-action backend",
            BackendKind::Wfp => "Windows Filtering Platform backend",
            BackendKind::IpHelper => "Windows IP Helper network-state backend",
            BackendKind::Etw => "Windows ETW diagnostics and telemetry backend",
        }
    }

    /// Every kind, in declaration order.
    pub fn all() -> (r: Vec<BackendKind>)
        ensures
            r@ == Self::spec_all(),
    {
        vec![
            BackendKind::Npcap,
            BackendKind::WinDivert,
            BackendKind::Wfp,
            BackendKind::IpHelper,
            BackendKind::Etw,
        ]
    }

    /// The kind with this exact name.
    pub fn from_name(name: &str) -> (r: Option<BackendKind>)
        ensures
            r == spec_from_name(name@),
    {
        proof {
            reveal_strlit("npcap");
            reveal_strlit("windivert");
            reveal_strlit("wfp");
            reveal_strlit("iphelper");
            reveal_strlit("etw");
        }
        let r = if str_eq(name, "npcap") {
            Some(BackendKind::Npcap)
        } else if str_eq(name, "windivert") {
            Some(BackendKind::WinDivert)
        } else if str_eq(name, "wfp") {
            Some(BackendKind::Wfp)
        } else if str_eq(name, "iphelper") {
            Some(BackendKind::IpHelper)
        } else if str_eq(name, "etw") {
            Some(BackendKind::Etw)
        } else {
            None
        };
        proof {
            if let Some(k) = r {
                assert(k.spec_name() == name@);
                let c = choose|c: BackendKind| c.spec_name() == name@;
                BackendKind::lemma_names_distinct(c, k);
            } else {
                assert forall|k: BackendKind| k.spec_name() != name@ by {
                    match k {
                        BackendKind::Npcap => {},
                        BackendKind::WinDivert => {},
                        BackendKind::Wfp => {},
                        BackendKind::IpHelper => {},
                        BackendKind::Etw => {},
                    }
                }
            }
        }
        r
    }
}

/// The kind named `name`, if any.
pub open spec fn spec_from_name(name: Seq<char>) -> Option<BackendKind> {
    if exists|k: BackendKind| k.spec_name() == name {
        Some(choose|k: BackendKind| k.spec_name() == name)
    } else {
        None
    }
}

/// Looking a kind up by its own name gives the kind back.
pub proof fn lemma_from_name_round_trip(kind: BackendKind)
    ensures
        spec_from_name(kind.spec_name()) == Some(kind),
{
    let c = choose|c: BackendKind| c.spec_name() == kind.spec_name();
    BackendKind::lemma_names_distinct(c, kind);
}

} // verus!
