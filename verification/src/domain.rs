//! Domain models shared by the adapters, the actors and the API.
//!
//! Each type has a view made of mathematical values (`Seq<char>` for text),
//! over which the contracts of the library are stated.
use vstd::prelude::*;

verus! {

/// System information: hostname, kernel version and uptime in seconds.
#[derive(Debug, Clone)]
pub struct SystemInfo {
    pub hostname: String,
    pub kernel_version: String,
    pub uptime: u64,
}

/// Physical network link information from dladm.
#[derive(Debug, Clone)]
pub struct PhysicalLink {
    /// Link name (e.g., "e1000g0")
    pub name: String,
    /// Media type (e.g., "Ethernet")
    pub media: String,
    /// Link state ("up", "down", "unknown")
    pub state: String,
    /// Link speed in Mbps
    pub speed: u64,
    /// Duplex mode ("full", "half", "unknown")
    pub duplex: String,
    /// MAC address
    pub mac: String,
    /// MTU size
    pub mtu: u32,
    /// User-defined friendly name
    pub friendly_name: Option<String>,
}

pub struct PhysicalLinkView {
    pub name: Seq<char>,
    pub media: Seq<char>,
    pub state: Seq<char>,
    pub speed: u64,
    pub duplex: Seq<char>,
    pub mac: Seq<char>,
    pub mtu: u32,
    pub friendly_name: Option<Seq<char>>,
}

impl View for PhysicalLink {
    type V = PhysicalLinkView;

    open spec fn view(&self) -> PhysicalLinkView {
        PhysicalLinkView {
            name: self.name@,
            media: self.media@,
            state: self.state@,
            speed: self.speed,
            duplex: self.duplex@,
            mac: self.mac@,
            mtu: self.mtu,
            friendly_name: self.friendly_name.deep_view(),
        }
    }
}

/// IP address configuration of an interface, from ipadm.
#[derive(Debug, Clone)]
pub struct NetworkAddress {
    /// Address object name (e.g., "e1000g0/v4")
    pub addrobj: String,
    /// Interface name (e.g., "e1000g0")
    pub interface: String,
    /// Address type ("static", "dhcp", "addrconf")
    pub addr_type: String,
    /// State ("ok", "tentative", "inaccessible", "disabled")
    pub state: String,
    /// IP address with prefix (e.g., "192.168.1.10/24")
    pub address: Option<String>,
}

pub struct NetworkAddressView {
    pub addrobj: Seq<char>,
    pub interface: Seq<char>,
    pub addr_type: Seq<char>,
    pub state: Seq<char>,
    pub address: Option<Seq<char>>,
}

impl View for NetworkAddress {
    type V = NetworkAddressView;

    open spec fn view(&self) -> NetworkAddressView {
        NetworkAddressView {
            addrobj: self.addrobj@,
            interface: self.interface@,
            addr_type: self.addr_type@,
            state: self.state@,
            address: self.address.deep_view(),
        }
    }
}

/// Combined network interface information: a physical link merged with its
/// IP address configuration.
#[derive(Debug, Clone)]
pub struct NetworkInterface {
    /// Interface/link name
    pub name: String,
    /// Link state ("up", "down")
    pub state: String,
    /// Primary IP address (without prefix)
    pub address: String,
    /// Subnet prefix length
    pub prefix_len: Option<u8>,
    /// MAC address
    pub mac: Option<String>,
    /// Link speed in Mbps
    pub speed: Option<u64>,
    /// MTU size
    pub mtu: Option<u32>,
    /// Address type ("static", "dhcp", "addrconf")
    pub addr_type: Option<String>,
    /// User-defined friendly name
    pub friendly_name: Option<String>,
}

pub struct NetworkInterfaceView {
    pub name: Seq<char>,
    pub state: Seq<char>,
    pub address: Seq<char>,
    pub prefix_len: Option<u8>,
    pub mac: Option<Seq<char>>,
    pub speed: Option<u64>,
    pub mtu: Option<u32>,
    pub addr_type: Option<Seq<char>>,
    pub friendly_name: Option<Seq<char>>,
}

impl View for NetworkInterface {
    type V = NetworkInterfaceView;

    open spec fn view(&self) -> NetworkInterfaceView {
        NetworkInterfaceView {
            name: self.name@,
            state: self.state@,
            address: self.address@,
            prefix_len: self.prefix_len,
            mac: self.mac.deep_view(),
            speed: self.speed,
            mtu: self.mtu,
            addr_type: self.addr_type.deep_view(),
            friendly_name: self.friendly_name.deep_view(),
        }
    }
}

/// Network configuration of the whole system.
#[derive(Debug, Clone)]
pub struct NetworkConfig {
    /// DNS servers (from /etc/resolv.conf)
    pub dns_servers: Vec<String>,
    /// DNS search domains
    pub dns_search: Vec<String>,
    /// Default gateway (from /etc/defaultrouter)
    pub gateway: Option<String>,
    /// Hostname
    pub hostname: String,
}

/// Request to configure a static IP address on an interface.
#[derive(Debug, Clone)]
pub struct SetAddressRequest {
    pub interface: String,
    pub address: String,
    pub prefix_len: u8,
}

/// Request to configure system network settings.
#[derive(Debug, Clone)]
pub struct SetNetworkConfigRequest {
    pub dns_servers: Option<Vec<String>>,
    pub dns_search: Option<Vec<String>>,
    pub gateway: Option<String>,
}

/// Package information from pkg(1).
#[derive(Debug, Clone)]
pub struct PackageInfo {
    pub name: String,
    pub version: String,
    pub build_time: String,
    pub status: String,
}

pub struct PackageInfoView {
    pub name: Seq<char>,
    pub version: Seq<char>,
    pub build_time: Seq<char>,
    pub status: Seq<char>,
}

impl View for PackageInfo {
    type V = PackageInfoView;

    open spec fn view(&self) -> PackageInfoView {
        PackageInfoView {
            name: self.name@,
            version: self.version@,
            build_time: self.build_time@,
            status: self.status@,
        }
    }
}

/// The result of running an administration command: whether it exited with
/// success, its exit code, and its standard output and error as text.
#[derive(Debug, Clone)]
pub struct CommandOutput {
    pub success: bool,
    pub code: Option<i32>,
    pub stdout: String,
    pub stderr: String,
}

/// The command ran and exited with success.
pub open spec fn succeeded(out: Result<CommandOutput, String>) -> bool {
    match out {
        Ok(o) => o.success,
        Err(_) => false,
    }
}

/// A copy of a package description.
pub fn copy_package(p: &PackageInfo) -> (r: PackageInfo)
    ensures
        r@ == p@,
{
    PackageInfo {
        name: p.name.clone(),
        version: p.version.clone(),
        build_time: p.build_time.clone(),
        status: p.status.clone(),
    }
}

} // verus!
