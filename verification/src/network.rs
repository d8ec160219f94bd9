//! Network state: Wi-Fi rows, cellular status and the service that keeps a snapshot of both.

pub mod activation;
pub mod control;
pub mod credentials;
pub mod events;
pub mod joining;
pub mod mobile;
pub mod profiles;
pub mod service;
pub mod service_laws;
pub mod settings;
pub mod wifi;

use vstd::prelude::*;
use crate::text::chars_of;

verus! {

/// Whether joining a network takes credentials.
#[derive(Clone, Copy, Debug, PartialEq, Eq, Structural)]
pub enum SecurityType {
    Open,
    Secured,
}

/// One visible access point, or one row made of several.
#[derive(Debug)]
pub struct WifiNetwork {
    pub ssid: String,
    /// Signal strength in percent.
    pub strength: i32,
    pub security: SecurityType,
    /// Whether the device is connected through this access point.
    pub active: bool,
    /// Whether a saved profile exists for the SSID.
    pub known: bool,
    pub known_network_path: Option<String>,
    /// Object path of the access point.
    pub path: Option<String>,
}

impl Clone for WifiNetwork {
    fn clone(&self) -> (copy: Self)
        ensures
            copy == *self,
    {
        WifiNetwork {
            ssid: self.ssid.clone(),
            strength: self.strength,
            security: self.security,
            active: self.active,
            known: self.known,
            known_network_path: self.known_network_path.clone(),
            path: self.path.clone(),
        }
    }
}

/// Wi-Fi part of the snapshot.
#[derive(Debug)]
pub struct WifiState {
    /// Whether the Wi-Fi hardware is enabled.
    pub enabled: Option<bool>,
    pub connected: bool,
    /// Whether the system has a Wi-Fi device.
    pub has_device: bool,
    /// SSID of the confirmed connection.
    pub ssid: Option<String>,
    /// Signal strength of the confirmed connection.
    pub strength: i32,
    pub scanning: bool,
    /// Whether a first list of networks has arrived.
    pub is_ready: bool,
    pub networks: Vec<WifiNetwork>,
    /// SSID of the attempt in progress.
    pub connecting_ssid: Option<String>,
    /// SSID of the attempt that failed last.
    pub failed_ssid: Option<String>,
}

/// What a [`WifiState`] holds, with its networks as a sequence.
pub struct WifiView {
    pub enabled: Option<bool>,
    pub connected: bool,
    pub has_device: bool,
    pub ssid: Option<String>,
    pub strength: i32,
    pub scanning: bool,
    pub is_ready: bool,
    pub networks: Seq<WifiNetwork>,
    pub connecting_ssid: Option<String>,
    pub failed_ssid: Option<String>,
}

impl View for WifiState {
    type V = WifiView;

    open spec fn view(&self) -> WifiView {
        WifiView {
            enabled: self.enabled,
            connected: self.connected,
            has_device: self.has_device,
            ssid: self.ssid,
            strength: self.strength,
            scanning: self.scanning,
            is_ready: self.is_ready,
            networks: self.networks@,
            connecting_ssid: self.connecting_ssid,
            failed_ssid: self.failed_ssid,
        }
    }
}

impl WifiView {
    /// Nothing known of the Wi-Fi device.
    pub open spec fn unknown() -> WifiView {
        WifiView {
            enabled: None,
            connected: false,
            has_device: false,
            ssid: None,
            strength: 0,
            scanning: false,
            is_ready: false,
            networks: Seq::empty(),
            connecting_ssid: None,
            failed_ssid: None,
        }
    }
}

impl WifiState {
    /// Nothing known of the Wi-Fi device.
    pub fn unknown() -> (state: Self)
        ensures
            state@ == WifiView::unknown(),
    {
        WifiState {
            enabled: None,
            connected: false,
            has_device: false,
            ssid: None,
            strength: 0,
            scanning: false,
            is_ready: false,
            networks: Vec::new(),
            connecting_ssid: None,
            failed_ssid: None,
        }
    }
}

impl Default for WifiState {
    fn default() -> (state: Self)
        ensures
            state@ == WifiView::unknown(),
    {
        WifiState::unknown()
    }
}

/// A copy of a list of networks.
pub fn copy_networks(networks: &Vec<WifiNetwork>) -> (copy: Vec<WifiNetwork>)
    ensures
        copy@ == networks@,
{
    let mut copy: Vec<WifiNetwork> = Vec::new();
    let mut i: usize = 0;
    while i < networks.len()
        invariant
            i <= networks@.len(),
            copy@ == networks@.take(i as int),
        decreases networks@.len() - i,
    {
        copy.push(networks[i].clone());
        i += 1;
    }
    proof {
        assert(networks@.take(i as int) =~= networks@);
    }
    copy
}

impl Clone for WifiState {
    fn clone(&self) -> (copy: Self)
        ensures
            copy@ == self@,
    {
        WifiState {
            enabled: self.enabled,
            connected: self.connected,
            has_device: self.has_device,
            ssid: self.ssid.clone(),
            strength: self.strength,
            scanning: self.scanning,
            is_ready: self.is_ready,
            networks: copy_networks(&self.networks),
            connecting_ssid: self.connecting_ssid.clone(),
            failed_ssid: self.failed_ssid.clone(),
        }
    }
}

/// Ethernet part of the snapshot.
#[derive(Debug)]
pub struct WiredState {
    /// Whether the wired connection is the primary link.
    pub connected: bool,
    pub has_device: bool,
    /// Interface name while connected.
    pub iface: Option<String>,
    /// Connection name while connected.
    pub name: Option<String>,
    /// Link speed in Mb/s while connected.
    pub speed: Option<u32>,
}

impl WiredState {
    pub open spec fn none() -> WiredState {
        WiredState { connected: false, has_device: false, iface: None, name: None, speed: None }
    }

    pub fn unknown() -> (state: Self)
        ensures
            state == WiredState::none(),
    {
        WiredState { connected: false, has_device: false, iface: None, name: None, speed: None }
    }
}

impl Default for WiredState {
    fn default() -> (state: Self)
        ensures
            state == WiredState::none(),
    {
        WiredState::unknown()
    }
}

impl Clone for WiredState {
    fn clone(&self) -> (copy: Self)
        ensures
            copy == *self,
    {
        WiredState {
            connected: self.connected,
            has_device: self.has_device,
            iface: self.iface.clone(),
            name: self.name.clone(),
            speed: self.speed,
        }
    }
}

/// Cellular part of the snapshot.
#[derive(Debug)]
pub struct MobileState {
    /// Whether the cellular connection is the primary link.
    pub is_primary: bool,
    /// Whether a cellular connection is active, primary or not.
    pub active: bool,
    pub connecting: bool,
    /// Whether a modem, a SIM and a profile are all present.
    pub supported: bool,
    /// Whether WWAN is enabled.
    pub enabled: Option<bool>,
    pub has_device: bool,
    pub name: Option<String>,
    pub operator: Option<String>,
    pub access_technology: Option<String>,
    /// Signal quality in percent.
    pub signal_quality: Option<u32>,
    /// Whether the last attempt failed.
    pub failed: bool,
}

impl MobileState {
    pub open spec fn none() -> MobileState {
        MobileState {
            is_primary: false,
            active: false,
            connecting: false,
            supported: false,
            enabled: None,
            has_device: false,
            name: None,
            operator: None,
            access_technology: None,
            signal_quality: None,
            failed: false,
        }
    }

    pub fn unknown() -> (state: Self)
        ensures
            state == MobileState::none(),
    {
        MobileState {
            is_primary: false,
            active: false,
            connecting: false,
            supported: false,
            enabled: None,
            has_device: false,
            name: None,
            operator: None,
            access_technology: None,
            signal_quality: None,
            failed: false,
        }
    }
}

impl Default for MobileState {
    fn default() -> (state: Self)
        ensures
            state == MobileState::none(),
    {
        MobileState::unknown()
    }
}

impl Clone for MobileState {
    fn clone(&self) -> (copy: Self)
        ensures
            copy == *self,
    {
        MobileState {
            is_primary: self.is_primary,
            active: self.active,
            connecting: self.connecting,
            supported: self.supported,
            enabled: self.enabled,
            has_device: self.has_device,
            name: self.name.clone(),
            operator: self.operator.clone(),
            access_technology: self.access_technology.clone(),
            signal_quality: self.signal_quality,
            failed: self.failed,
        }
    }
}

/// Snapshot of the whole network state.
#[derive(Debug)]
pub struct NmSnapshot {
    /// Whether NetworkManager is on the bus.
    pub available: bool,
    pub wifi: WifiState,
    pub wired: WiredState,
    pub mobile: MobileState,
    /// Type of the primary connection, such as `802-11-wireless`.
    pub primary_connection_type: Option<String>,
}

/// What an [`NmSnapshot`] holds.
pub struct SnapshotView {
    pub available: bool,
    pub wifi: WifiView,
    pub wired: WiredState,
    pub mobile: MobileState,
    pub primary_connection_type: Option<String>,
}

impl View for NmSnapshot {
    type V = SnapshotView;

    open spec fn view(&self) -> SnapshotView {
        SnapshotView {
            available: self.available,
            wifi: self.wifi@,
            wired: self.wired,
            mobile: self.mobile,
            primary_connection_type: self.primary_connection_type,
        }
    }
}

impl SnapshotView {
    pub open spec fn unknown() -> SnapshotView {
        SnapshotView {
            available: false,
            wifi: WifiView::unknown(),
            wired: WiredState::none(),
            mobile: MobileState::none(),
            primary_connection_type: None,
        }
    }
}

impl NmSnapshot {
    /// NetworkManager is not there and nothing is known.
    pub fn unknown() -> (snapshot: Self)
        ensures
            snapshot@ == SnapshotView::unknown(),
    {
        NmSnapshot {
            available: false,
            wifi: WifiState::unknown(),
            wired: WiredState::unknown(),
            mobile: MobileState::unknown(),
            primary_connection_type: None,
        }
    }
}

impl Clone for NmSnapshot {
    fn clone(&self) -> (copy: Self)
        ensures
            copy@ == self@,
    {
        NmSnapshot {
            available: self.available,
            wifi: self.wifi.clone(),
            wired: self.wired.clone(),
            mobile: self.mobile.clone(),
            primary_connection_type: self.primary_connection_type.clone(),
        }
    }
}

/// Whether the primary connection is an Ethernet link.
pub open spec fn wired_type(primary: Option<String>) -> bool {
    chars_of(primary) == Some("802-3-ethernet"@)
}

/// Whether the primary connection is an Ethernet link.
pub fn is_wired_connected(primary_type: &Option<String>) -> (yes: bool)
    ensures
        yes == wired_type(*primary_type),
{
    match primary_type {
        Some(t) => crate::text::str_eq(t.as_str(), "802-3-ethernet"),
        None => false,
    }
}

/// A link is wired by the type that NetworkManager has for Ethernet.
pub proof fn wired_links_are_told_by_type(primary: Option<String>)
    ensures
        primary is None ==> !wired_type(primary),
        primary is Some ==> (wired_type(primary) <==> primary->0@ == "802-3-ethernet"@),
{
}

/// Before anything was read nothing is there, connected, underway or on.
pub proof fn nothing_is_known_at_first()
    ensures
        ({
            let s = SnapshotView::unknown();
            &&& !s.available && s.primary_connection_type is None
            &&& s.wifi.enabled is None && !s.wifi.connected && !s.wifi.has_device && s.wifi.ssid is None
            &&& s.wifi.strength == 0 && !s.wifi.scanning && !s.wifi.is_ready && s.wifi.networks.len() == 0
            &&& s.wifi.connecting_ssid is None && s.wifi.failed_ssid is None
            &&& !s.wired.connected && !s.wired.has_device && s.wired.iface is None && s.wired.name is None && s.wired.speed is None
        }),
{
}

} // verus!
