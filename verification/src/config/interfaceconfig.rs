//! The declaration of one interface.
use vstd::prelude::*;

verus! {

/// How an interface gets its address.
#[derive(Clone, Copy, Debug, PartialEq, Eq)]
pub enum InterfaceMode {
    Static,
    Dhcp,
}

/// The addressing of an interface, whatever its kind.
#[derive(Debug, PartialEq, Eq)]
pub struct GenericInterfaceConfig {
    pub mode: InterfaceMode,
    /// The static address.
    pub address: Option<String>,
    /// The prefix length of the static address.
    pub netmask: Option<u8>,
    /// The gateway of the default route.
    pub gateway: Option<String>,
    /// Whether to look for a router on the segment first, and to wait for
    /// it to disappear.
    pub do_failover: bool,
    /// The DHCP server on this interface.
    pub dhcp: InterfaceDhcpConfig,
}

/// The lease range that a DHCP server on the interface hands out.
#[derive(Debug, PartialEq, Eq)]
pub struct InterfaceDhcpConfig {
    pub enabled: bool,
    pub start: String,
    pub end: String,
    pub dns: String,
    pub router: String,
    pub netmask: String,
}

impl InterfaceDhcpConfig {
    /// Whether no DHCP server is to run.
    pub fn is_disabled(&self) -> (r: bool)
        ensures
            r == !self.enabled,
    {
        !self.enabled
    }
}

impl Default for InterfaceDhcpConfig {
    /// No server, and every field empty.
    fn default() -> (r: Self)
        ensures
            !r.enabled,
            r.start@ == Seq::<char>::empty(),
            r.end@ == Seq::<char>::empty(),
            r.dns@ == Seq::<char>::empty(),
            r.router@ == Seq::<char>::empty(),
            r.netmask@ == Seq::<char>::empty(),
    {
        InterfaceDhcpConfig {
            enabled: false,
            netmask: String::new(),
            router: String::new(),
            start: String::new(),
            end: String::new(),
            dns: String::new(),
        }
    }
}

impl GenericInterfaceConfig {
    /// Whether the addressing can be carried out: a static interface has
    /// both its address and its prefix length.
    pub open spec fn complete(self) -> bool {
        self.mode == InterfaceMode::Static ==> self.address.is_some() && self.netmask.is_some()
    }

    /// Whether the addressing can be carried out.
    pub fn is_complete(&self) -> (r: bool)
        ensures
            r == self.complete(),
    {
        match self.mode {
            InterfaceMode::Dhcp => true,
            InterfaceMode::Static => self.address.is_some() && self.netmask.is_some(),
        }
    }
}

/// An Ethernet interface.
#[derive(Debug, PartialEq, Eq)]
pub struct EthernetConfig {
    pub generic: GenericInterfaceConfig,
}

/// A bridge and its members.
#[derive(Debug, PartialEq, Eq)]
pub struct BridgeConfig {
    /// The names of the member interfaces, in the order in which they are
    /// attached.
    pub interfaces: Vec<String>,
    pub generic: GenericInterfaceConfig,
}

/// What is declared of an interface by its kind.
#[derive(Debug, PartialEq, Eq)]
pub enum InterfaceTypeConfig {
    Ethernet(EthernetConfig),
    Bridge(BridgeConfig),
}

/// What is declared of an interface whatever its kind.
#[derive(Debug, PartialEq, Eq)]
pub struct SharedInterfaceConfig {
    /// The interfaces that must be configured before this one.
    pub depends: Option<Vec<String>>,
    /// The services to start once this interface is configured.
    pub services: Vec<String>,
}

/// One declared interface.
#[derive(Debug, PartialEq, Eq)]
pub struct InterfaceConfig {
    pub shared: SharedInterfaceConfig,
    pub specific: InterfaceTypeConfig,
}

impl InterfaceConfig {
    /// The addressing of the interface.
    pub open spec fn generic(self) -> GenericInterfaceConfig {
        match self.specific {
            InterfaceTypeConfig::Ethernet(e) => e.generic,
            InterfaceTypeConfig::Bridge(b) => b.generic,
        }
    }
}

} // verus!
