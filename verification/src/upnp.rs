//! Best-effort UPnP port forwarding, so viewers on a different network than
//! the host can connect P2P without needing a TURN relay server.
//!
//! Entirely optional and additive: if no UPnP-capable router is found, this
//! does nothing, and streaming falls back to whatever P2P connectivity STUN
//! alone can achieve.
//!
//! A 1:1 NAT mapping (external port == internal port) is required for a
//! mapped address to be a valid candidate, so the whole port range is
//! requested with matching external/internal ports.
use vstd::prelude::*;

verus! {

/// Wide enough to give one local port per concurrent viewer connection,
/// with headroom past the 5-viewer target.
pub const PORT_RANGE_MIN: u16 = 40000;

/// The last port of the range.
pub const PORT_RANGE_MAX: u16 = 40029;

/// How long to look for a gateway, in seconds.
pub const SEARCH_TIMEOUT_SECS: u64 = 3;

/// What port mappings are called on the router.
pub const MAPPING_NAME: &'static str = "Framewire";

/// A range of UDP ports mapped 1:1 through the LAN gateway.
pub struct PortForward {
    /// The router's public IP address.
    pub external_ip: String,
    pub port_min: u16,
    pub port_max: u16,
}

/// How far mapping the port range has come.
pub struct PortMapping {
    /// How many ports are mapped, counted from the first.
    mapped: u16,
    /// Whether a port could not be mapped.
    failed: bool,
}

impl PortMapping {
    /// How many ports are mapped, counted from the first.
    pub closed spec fn mapped(&self) -> nat {
        self.mapped as nat
    }

    /// Whether a port could not be mapped.
    pub closed spec fn failed(&self) -> bool {
        self.failed
    }

    #[verifier::type_invariant]
    closed spec fn within_range(&self) -> bool {
        self.mapped <= PORT_RANGE_MAX - PORT_RANGE_MIN + 1
    }

    /// Nothing is mapped yet.
    pub fn new() -> (m: Self)
        ensures
            m.mapped() == 0,
            !m.failed(),
    {
        PortMapping { mapped: 0, failed: false }
    }

    /// The port to map next; `None` once the range is used up or a port
    /// could not be mapped.
    pub fn next_port(&self) -> (port: Option<u16>)
        ensures
            port == if self.failed() || self.mapped() == PORT_RANGE_MAX - PORT_RANGE_MIN + 1 {
                None
            } else {
                Some((PORT_RANGE_MIN + self.mapped()) as u16)
            },
    {
        proof {
            use_type_invariant(self);
        }
        if self.failed || self.mapped == PORT_RANGE_MAX - PORT_RANGE_MIN + 1 {
            None
        } else {
            Some(PORT_RANGE_MIN + self.mapped)
        }
    }

    /// Takes note of whether the next port could be mapped.
    pub fn record(&mut self, ok: bool)
        requires
            !old(self).failed(),
            old(self).mapped() < PORT_RANGE_MAX - PORT_RANGE_MIN + 1,
        ensures
            final(self).mapped() == if ok {
                old(self).mapped() + 1
            } else {
                old(self).mapped()
            },
            final(self).failed() == !ok,
    {
        if ok {
            self.mapped = self.mapped + 1;
        } else {
            self.failed = true;
        }
    }

    /// The range that came out mapped; `None` if a port could not be mapped,
    /// or none has been.
    pub fn finish(self, external_ip: String) -> (forward: Option<PortForward>)
        ensures
            match forward {
                Some(f) => {
                    &&& self.mapped() > 0
                    &&& !self.failed()
                    &&& f.external_ip == external_ip
                    &&& f.port_min == PORT_RANGE_MIN
                    &&& f.port_max == PORT_RANGE_MIN + self.mapped() - 1
                    &&& f.port_max <= PORT_RANGE_MAX
                },
                None => self.mapped() == 0 || self.failed(),
            },
    {
        proof {
            use_type_invariant(&self);
        }
        if self.mapped == 0 || self.failed {
            None
        } else {
            Some(
                PortForward {
                    external_ip,
                    port_min: PORT_RANGE_MIN,
                    port_max: PORT_RANGE_MIN + (self.mapped - 1),
                },
            )
        }
    }
}

/// Ports are mapped one after the other: the first is 40000, after one that
/// could be mapped comes the next, up to 40029, and after one that could not
/// be mapped none does.
pub proof fn law_ports_are_mapped_in_order(
    first: PortMapping,
    first_port: Option<u16>,
    m: &mut PortMapping,
    ok: bool,
    port: Option<u16>,
    next: Option<u16>,
)
    requires
        call_ensures(PortMapping::new, (), first),
        call_ensures(PortMapping::next_port, (&first,), first_port),
        call_ensures(PortMapping::next_port, (old(m),), port),
        call_ensures(PortMapping::record, (m, ok), ()),
        call_ensures(PortMapping::next_port, (final(m),), next),
        old(m).mapped() < 30,
        !old(m).failed(),
    ensures
        first_port == Some(40000u16),
        port matches Some(p) && 40000 <= p <= 40029,
        !ok ==> next is None,
        ok && port->0 < 40029 ==> next == Some((port->0 + 1) as u16),
        ok && port->0 == 40029 ==> next is None,
{
}

/// The range that came out is what was mapped: from port 40000 on, as many
/// ports as were mapped, none beyond 40029; and there is none if a port could
/// not be mapped.
pub proof fn law_forwarded_range_is_what_was_mapped(
    m: PortMapping,
    external_ip: String,
    forward: Option<PortForward>,
)
    requires
        call_ensures(PortMapping::finish, (m, external_ip), forward),
    ensures
        forward is Some <==> m.mapped() > 0 && !m.failed(),
        forward matches Some(f) ==> {
            &&& f.external_ip@ == external_ip@
            &&& f.port_min == 40000
            &&& f.port_min <= f.port_max <= 40029
            &&& f.port_max - f.port_min + 1 == m.mapped()
        },
{
}

} // verus!
