//! The services the server offers, grouped by the port they listen on.
use vstd::prelude::*;

verus! {

/// The protocols a port can speak.
#[derive(Debug, Clone, Copy, PartialEq, Eq, Structural)]
pub enum ProtocolKind {
    Status,
    Login,
    Game,
}

/// A service: the protocol id a client names first, whether its messages
/// carry a checksum, whether the server speaks first, and its protocol.
#[derive(Debug, Clone, Copy, PartialEq, Eq, Structural)]
pub struct ServiceInfo {
    pub protocol_id: u8,
    pub checksummed: bool,
    pub server_sends_first: bool,
    pub kind: ProtocolKind,
}

/// A listening port and the services offered on it, in the order added.
#[derive(Debug, Clone)]
pub struct ServicePort {
    pub port: u16,
    pub services: Vec<ServiceInfo>,
}

/// The ports with their services, in the order the ports were first used.
pub struct ServiceManager {
    ports: Vec<ServicePort>,
}

/// The abstract view of a port.
pub open spec fn port_view(p: ServicePort) -> (u16, Seq<ServiceInfo>) {
    (p.port, p.services@)
}

impl View for ServiceManager {
    type V = Seq<(u16, Seq<ServiceInfo>)>;

    closed spec fn view(&self) -> Seq<(u16, Seq<ServiceInfo>)> {
        self.ports@.map_values(|p: ServicePort| port_view(p))
    }
}

/// The index of the first port numbered `port`, or the length.
pub open spec fn port_index(ports: Seq<(u16, Seq<ServiceInfo>)>, port: u16, i: int) -> int
    decreases ports.len() - i,
{
    if i < 0 || i >= ports.len() {
        ports.len() as int
    } else if ports[i].0 == port {
        i
    } else {
        port_index(ports, port, i + 1)
    }
}

impl Default for ServiceManager {
    fn default() -> (m: Self)
        ensures
            m@ == Seq::<(u16, Seq<ServiceInfo>)>::empty(),
    {
        ServiceManager::new()
    }
}

impl ServiceManager {
    /// No ports.
    pub fn new() -> (m: Self)
        ensures
            m@ == Seq::<(u16, Seq<ServiceInfo>)>::empty(),
    {
        let m = ServiceManager { ports: Vec::new() };
        assert(m@ =~= Seq::<(u16, Seq<ServiceInfo>)>::empty());
        m
    }

    /// Offers `info` on `port`: after the services already there, or on a
    /// new port at the end.
    pub fn add_service(&mut self, port: u16, info: ServiceInfo)
        ensures
            ({
                let k = port_index(old(self)@, port, 0);
                if k < old(self)@.len() {
                    final(self)@ == old(self)@.update(k, (port, old(self)@[k].1.push(info)))
                } else {
                    final(self)@ == old(self)@.push((port, seq![info]))
                }
            }),
    {
        let ghost ports = self@;
        let mut i: usize = 0;
        while i < self.ports.len()
            invariant
                i <= ports.len(),
                ports == self@,
                self@ == old(self)@,
                ports.len() == self.ports@.len(),
                port_index(ports, port, 0) == port_index(ports, port, i as int),
            decreases ports.len() - i,
        {
            if self.ports[i].port == port {
                assert(ports[i as int].0 == port);
                assert(port_index(ports, port, i as int) == i);
                let ghost before = self.ports@;
                let mut sp = self.ports.remove(i);
                sp.services.push(info);
                self.ports.insert(i, sp);
                proof {
                    assert(self@ =~= ports.update(i as int, (port, ports[i as int].1.push(info))));
                }
                return;
            }
            i = i + 1;
        }
        let mut services: Vec<ServiceInfo> = Vec::new();
        services.push(info);
        let ghost before = self.ports@;
        self.ports.push(ServicePort { port, services });
        proof {
            assert(self@ =~= ports.push((port, seq![info])));
        }
    }

    /// The ports with their services.
    pub fn ports(&self) -> (r: &[ServicePort])
        ensures
            r@.map_values(|p: ServicePort| port_view(p)) == self@,
    {
        self.ports.as_slice()
    }
}

} // verus!
