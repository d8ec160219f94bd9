//! The network service: a snapshot, the bookkeeping behind it, and what each event does to both.
//!
//! The service performs no I/O. Every operation returns the actions that its caller has to
//! carry out, in order.

use vstd::prelude::*;
use crate::network::mobile;
use crate::network::wifi::{self, reconciled};
use crate::network::{
    NmSnapshot, SnapshotView, WifiNetwork, WifiView, WiredState,
    MobileState,
};
use crate::order::ranked;
use crate::text::{self, chars_of, views};

verus! {

/// Device type of an Ethernet adapter.
pub const ETHERNET_DEVICE_TYPE: u32 = 1;

/// Device type of a Wi-Fi adapter.
pub const WIFI_DEVICE_TYPE: u32 = 2;

/// Device type of a modem.
pub const MODEM_DEVICE_TYPE: u32 = 8;

/// What was read of the modem and its connection.
#[derive(Debug)]
pub struct MobileDeviceInfo {
    pub conn_name: Option<String>,
    pub operator_name: Option<String>,
    pub access_technology: Option<String>,
    pub signal_quality: Option<u32>,
    /// Whether a cellular connection is active.
    pub active: bool,
    /// Whether a cellular connection is starting.
    pub connecting: bool,
    pub supported: bool,
    pub has_modem: bool,
}

/// Something that background work reports to the service.
#[derive(Debug)]
#[allow(inconsistent_fields)]
pub enum NmUpdate {
    /// A Wi-Fi device was found.
    WifiDeviceFound { path: String, iface_name: Option<String> },
    /// The system has an Ethernet adapter.
    EthernetDeviceExists,
    /// The system has a modem.
    ModemDeviceExists,
    /// The devices could not be listed.
    DeviceDiscoveryFailed,
    /// Details of the active access point.
    ApDetails { ssid: Option<String>, strength: i32 },
    /// The active access point could not be read.
    ApDetailsFailed,
    /// A list of access points, read by the refresh with that generation.
    NetworksRefreshed { generation: u64, networks: Vec<WifiNetwork>, last_scan: Option<i64> },
    /// The list of access points should be read again.
    RefreshNetworks,
    /// A Wi-Fi attempt ended. `message` tells what went wrong beside the connection itself.
    ConnectionAttemptFinished { attempt: u64, ssid: String, success: bool, message: Option<String> },
    /// Details of the wired device.
    WiredDeviceInfo { iface_name: Option<String>, conn_name: Option<String>, speed: Option<u32> },
    /// Details of the modem and its connection.
    MobileDeviceInfo(MobileDeviceInfo),
    /// A cellular operation ended.
    MobileOperationFinished { attempt: u64, success: bool },
    /// The WWAN switch was set.
    MobileEnabled(bool),
}

/// Something that the caller has to do.
#[derive(Debug)]
pub enum NmAction {
    /// Hand the snapshot to every listener.
    Notify,
    /// Open the proxies of the Wi-Fi device.
    CreateWifiProxy { path: String },
    /// Read the list of access points, if there is a Wi-Fi proxy.
    RefreshNetworks { generation: u64 },
    /// Read the wired device.
    FetchWiredInfo,
    /// Read the modem.
    FetchMobileInfo,
    /// List the devices.
    DiscoverDevices,
    /// Drop the proxies of NetworkManager and of the Wi-Fi device.
    ClearProxies,
    /// Cancel the Wi-Fi activation in flight.
    CancelWifiActivation,
    /// Cancel the cellular activation in flight.
    CancelMobileActivation,
}

/// Wi-Fi bookkeeping.
#[derive(Debug)]
pub struct WifiInternal {
    pub iface_name: Option<String>,
    pub scan_in_progress: bool,
    /// Time of the last scan that NetworkManager reported.
    pub last_scan_value: Option<i64>,
    /// The SSIDs of saved profiles.
    pub known_ssids: Vec<String>,
    /// When they were last read, in milliseconds.
    pub known_ssids_last_refresh: Option<u64>,
    pub connecting_ssid: Option<String>,
    pub failed_ssid: Option<String>,
    /// Number of the current attempt.
    pub attempt: u64,
    /// Whether an activation can be cancelled.
    pub activation_cancel: bool,
    /// Every access point of the last list.
    pub networks: Vec<WifiNetwork>,
    /// Number of the current refresh.
    pub refresh_generation: u64,
    /// State of the Wi-Fi device.
    pub device_state: Option<u32>,
    /// Access point that the Wi-Fi device names.
    pub active_ap: Option<String>,
}

/// What a [`WifiInternal`] holds.
pub struct WifiInternalView {
    pub iface_name: Option<String>,
    pub scan_in_progress: bool,
    pub last_scan_value: Option<i64>,
    pub known_ssids: Set<Seq<char>>,
    pub known_ssids_last_refresh: Option<u64>,
    pub connecting_ssid: Option<String>,
    pub failed_ssid: Option<String>,
    pub attempt: u64,
    pub activation_cancel: bool,
    pub networks: Seq<WifiNetwork>,
    pub refresh_generation: u64,
    pub device_state: Option<u32>,
    pub active_ap: Option<String>,
}

impl View for WifiInternal {
    type V = WifiInternalView;

    open spec fn view(&self) -> WifiInternalView {
        WifiInternalView {
            iface_name: self.iface_name,
            scan_in_progress: self.scan_in_progress,
            last_scan_value: self.last_scan_value,
            known_ssids: views(self.known_ssids@).to_set(),
            known_ssids_last_refresh: self.known_ssids_last_refresh,
            connecting_ssid: self.connecting_ssid,
            failed_ssid: self.failed_ssid,
            attempt: self.attempt,
            activation_cancel: self.activation_cancel,
            networks: self.networks@,
            refresh_generation: self.refresh_generation,
            device_state: self.device_state,
            active_ap: self.active_ap,
        }
    }
}

impl WifiInternalView {
    pub open spec fn initial() -> WifiInternalView {
        WifiInternalView {
            iface_name: None,
            scan_in_progress: false,
            last_scan_value: None,
            known_ssids: Set::empty(),
            known_ssids_last_refresh: None,
            connecting_ssid: None,
            failed_ssid: None,
            attempt: 0,
            activation_cancel: false,
            networks: Seq::empty(),
            refresh_generation: 0,
            device_state: None,
            active_ap: None,
        }
    }
}

impl WifiInternal {
    pub fn new() -> (internal: Self)
        ensures
            internal@ == WifiInternalView::initial(),
    {
        proof {
            assert(views(Seq::empty()).to_set() =~= Set::empty());
        }
        WifiInternal {
            iface_name: None,
            scan_in_progress: false,
            last_scan_value: None,
            known_ssids: Vec::new(),
            known_ssids_last_refresh: None,
            connecting_ssid: None,
            failed_ssid: None,
            attempt: 0,
            activation_cancel: false,
            networks: Vec::new(),
            refresh_generation: 0,
            device_state: None,
            active_ap: None,
        }
    }
}

/// Cellular bookkeeping.
#[derive(Clone, Copy, Debug, PartialEq, Eq, Structural)]
pub struct MobileInternal {
    /// Whether a debounced refresh is waiting.
    pub refresh_pending: bool,
    /// Whether an attempt was started here that NetworkManager does not show yet.
    pub connecting_local: bool,
    /// Number of the current attempt.
    pub attempt: u64,
    /// Whether an activation can be cancelled.
    pub activation_cancel: bool,
}

impl MobileInternal {
    pub open spec fn initial() -> MobileInternal {
        MobileInternal { refresh_pending: false, connecting_local: false, attempt: 0, activation_cancel: false }
    }

    pub fn new() -> (internal: Self)
        ensures
            internal == MobileInternal::initial(),
    {
        MobileInternal { refresh_pending: false, connecting_local: false, attempt: 0, activation_cancel: false }
    }
}

/// The network service.
#[derive(Debug)]
pub struct NmService {
    pub snapshot: NmSnapshot,
    pub wifi: WifiInternal,
    pub mobile: MobileInternal,
}

/// What an [`NmService`] holds.
pub struct ServiceView {
    pub snapshot: SnapshotView,
    pub wifi: WifiInternalView,
    pub mobile: MobileInternal,
}

impl View for NmService {
    type V = ServiceView;

    open spec fn view(&self) -> ServiceView {
        ServiceView { snapshot: self.snapshot@, wifi: self.wifi@, mobile: self.mobile }
    }
}

/// A state and the actions on the way to it.
pub struct Step {
    pub state: ServiceView,
    pub actions: Seq<NmAction>,
}

/// The Wi-Fi state as it is shown: reconciled with the device, one row for each network, sorted.
#[verifier::opaque]
pub open spec fn shown(wifi: WifiView, internal: WifiInternalView) -> WifiView {
    let r = reconciled(wifi, internal.device_state, chars_of(internal.active_ap), internal.networks);
    WifiView { networks: ranked(wifi::deduped(r.networks)), ..r }
}

impl ServiceView {
    /// The same service with another Wi-Fi state in its snapshot.
    pub open spec fn with_wifi(self, wifi: WifiView) -> ServiceView {
        ServiceView { snapshot: SnapshotView { wifi, ..self.snapshot }, ..self }
    }

    /// The same service with another wired state in its snapshot.
    pub open spec fn with_wired(self, wired: WiredState) -> ServiceView {
        ServiceView { snapshot: SnapshotView { wired, ..self.snapshot }, ..self }
    }

    /// The same service with another cellular state in its snapshot.
    pub open spec fn with_mobile(self, mobile: MobileState) -> ServiceView {
        ServiceView { snapshot: SnapshotView { mobile, ..self.snapshot }, ..self }
    }

    /// The service as its listeners are told of it: the Wi-Fi part follows the device.
    pub open spec fn settled(self) -> ServiceView {
        self.with_wifi(shown(self.snapshot.wifi, self.wifi))
    }

    /// Tells the listeners, then goes on with `more`.
    pub open spec fn notified(self, more: Seq<NmAction>) -> Step {
        Step { state: self.settled(), actions: seq![NmAction::Notify] + more }
    }

    /// Tells the listeners if something changed.
    pub open spec fn notified_if(self, changed: bool) -> Step {
        if changed {
            self.notified(Seq::empty())
        } else {
            Step { state: self, actions: Seq::empty() }
        }
    }

    /// The service at the start of its next refresh.
    pub open spec fn next_refresh(self) -> ServiceView {
        ServiceView {
            wifi: WifiInternalView {
                refresh_generation: (self.wifi.refresh_generation + 1) as u64,
                ..self.wifi
            },
            ..self
        }
    }

    /// Tells the listeners, then refreshes the networks.
    pub open spec fn notified_and_refreshing(self) -> Step {
        let next = self.settled().next_refresh();
        Step {
            state: next,
            actions: seq![NmAction::Notify, NmAction::RefreshNetworks { generation: next.wifi.refresh_generation }],
        }
    }
}

/// Whether a list with scan time `last_scan` ends a scan that began after `previous`.
pub open spec fn scan_is_over(last_scan: Option<i64>, previous: Option<i64>) -> bool {
    match (last_scan, previous) {
        (None, _) => true,
        (Some(new), Some(old)) => new > old,
        (Some(_), None) => true,
    }
}

/// A Wi-Fi device is there: its proxies are opened.
pub open spec fn device_found(s: ServiceView, path: String, iface_name: Option<String>) -> Step {
    let named = ServiceView { wifi: WifiInternalView { iface_name, ..s.wifi }, ..s };
    let told = named.with_wifi(WifiView { has_device: true, ..s.snapshot.wifi }).notified_if(
        !s.snapshot.wifi.has_device,
    );
    Step { state: told.state, actions: told.actions.push(NmAction::CreateWifiProxy { path }) }
}

/// An Ethernet adapter is there.
pub open spec fn ethernet_found(s: ServiceView) -> Step {
    s.with_wired(
        WiredState { has_device: true, ..s.snapshot.wired },
    ).notified_if(!s.snapshot.wired.has_device)
}

/// A modem is there: it is read when it is new.
pub open spec fn modem_found(s: ServiceView) -> Step {
    if s.snapshot.mobile.has_device {
        Step { state: s, actions: Seq::empty() }
    } else {
        s.with_mobile(MobileState { has_device: true, ..s.snapshot.mobile }).notified(
            seq![NmAction::FetchMobileInfo],
        )
    }
}

/// The active access point was read.
pub open spec fn ap_read(s: ServiceView, ssid: Option<String>, strength: i32) -> Step {
    s.with_wifi(
        WifiView { connected: true, ssid, strength, ..s.snapshot.wifi },
    ).notified_and_refreshing()
}

/// The active access point could not be read.
pub open spec fn ap_lost(s: ServiceView) -> Step {
    s.with_wifi(
        WifiView { connected: false, ssid: None, strength: 0, ..s.snapshot.wifi },
    ).notified(Seq::empty())
}

/// A list of networks was read. One that an older refresh read is ignored.
pub open spec fn list_read(s: ServiceView, generation: u64, networks: Seq<WifiNetwork>, last_scan: Option<i64>) -> Step {
    if generation != s.wifi.refresh_generation {
        Step { state: s, actions: Seq::empty() }
    } else {
        let scanning = s.wifi.scan_in_progress && !scan_is_over(last_scan, s.wifi.last_scan_value);
        let internal = WifiInternalView {
            last_scan_value: if last_scan is Some { last_scan } else { s.wifi.last_scan_value },
            scan_in_progress: scanning,
            networks,
            ..s.wifi
        };
        let wifi = WifiView {
            is_ready: true,
            scanning,
            connecting_ssid: s.wifi.connecting_ssid,
            failed_ssid: s.wifi.failed_ssid,
            ..s.snapshot.wifi
        };
        ServiceView { wifi: internal, ..s }.with_wifi(wifi).notified(Seq::empty())
    }
}

/// The list of networks has to be read.
pub open spec fn refresh_asked(s: ServiceView) -> Step {
    let next = s.next_refresh();
    Step {
        state: next,
        actions: seq![NmAction::RefreshNetworks { generation: next.wifi.refresh_generation }],
    }
}

/// A Wi-Fi attempt ended. One that is not the current one is ignored.
pub open spec fn attempt_ended(s: ServiceView, attempt: u64, ssid: String, success: bool) -> Step {
    if attempt != s.wifi.attempt {
        Step { state: s, actions: Seq::empty() }
    } else {
        let failed_ssid = if success { None } else { Some(ssid) };
        let internal = WifiInternalView {
            connecting_ssid: None,
            failed_ssid,
            known_ssids_last_refresh: if success { s.wifi.known_ssids_last_refresh } else { None },
            ..s.wifi
        };
        ServiceView { wifi: internal, ..s }.with_wifi(
            WifiView { connecting_ssid: None, failed_ssid, ..s.snapshot.wifi },
        ).notified_and_refreshing()
    }
}

/// The wired device was read.
pub open spec fn wired_read(s: ServiceView, iface_name: Option<String>, conn_name: Option<String>, speed: Option<u32>) -> Step {
    let w = s.snapshot.wired;
    let changed = chars_of(w.iface) != chars_of(iface_name) || chars_of(w.name) != chars_of(conn_name) || w.speed
        != speed;
    if changed {
        s.with_wired(WiredState { iface: iface_name, name: conn_name, speed, ..w }).notified(Seq::empty())
    } else {
        Step { state: s, actions: Seq::empty() }
    }
}

/// Whether the cellular state already shows what was read.
pub open spec fn shows(m: MobileState, info: MobileDeviceInfo, connecting: bool) -> bool {
    &&& chars_of(m.name) == chars_of(info.conn_name)
    &&& chars_of(m.operator) == chars_of(info.operator_name)
    &&& chars_of(m.access_technology) == chars_of(info.access_technology)
    &&& m.signal_quality == info.signal_quality
    &&& m.active == info.active
    &&& m.connecting == connecting
    &&& m.supported == info.supported
    &&& m.has_device == info.has_modem
}

fn same_mobile(m: &MobileState, info: &MobileDeviceInfo, connecting: bool) -> (same: bool)
    ensures
        same == shows(*m, *info, connecting),
{
    text::opt_eq(&m.name, &info.conn_name) && text::opt_eq(&m.operator, &info.operator_name) && text::opt_eq(
        &m.access_technology,
        &info.access_technology,
    ) && m.signal_quality == info.signal_quality && m.active == info.active && m.connecting == connecting
        && m.supported == info.supported && m.has_device == info.has_modem
}

/// The modem was read. A local flag stands in for an attempt that the bus does not show yet.
pub open spec fn mobile_read(s: ServiceView, info: MobileDeviceInfo) -> Step {
    let (effective, clear) = mobile::resolved_connecting(s.mobile.connecting_local, info.active, info.connecting);
    let internal = MobileInternal {
        refresh_pending: false,
        connecting_local: s.mobile.connecting_local && !clear,
        ..s.mobile
    };
    let m = s.snapshot.mobile;
    let quiet = ServiceView { mobile: internal, ..s };
    if !shows(m, info, effective) {
        quiet.with_mobile(
            MobileState {
                name: info.conn_name,
                operator: info.operator_name,
                access_technology: info.access_technology,
                signal_quality: info.signal_quality,
                active: info.active,
                connecting: effective,
                supported: info.supported,
                has_device: info.has_modem,
                ..m
            },
        ).notified(Seq::empty())
    } else {
        Step { state: quiet, actions: Seq::empty() }
    }
}

/// A cellular operation ended. One that is not the current one is ignored.
pub open spec fn mobile_ended(s: ServiceView, attempt: u64, success: bool) -> Step {
    if attempt != s.mobile.attempt {
        Step { state: s, actions: Seq::empty() }
    } else {
        let quiet = ServiceView { mobile: MobileInternal { connecting_local: false, ..s.mobile }, ..s };
        let m = s.snapshot.mobile;
        quiet.with_mobile(MobileState { failed: !success, connecting: false, ..m }).notified_if(
            !success || m.failed || m.connecting,
        )
    }
}

/// The WWAN switch was set.
pub open spec fn mobile_enabled(s: ServiceView, enabled: bool) -> Step {
    s.with_mobile(
        MobileState { enabled: Some(enabled), ..s.snapshot.mobile },
    ).notified_if(s.snapshot.mobile.enabled != Some(enabled))
}

/// What the service makes of `update`.
pub open spec fn updated(s: ServiceView, update: NmUpdate) -> Step {
    match update {
        NmUpdate::WifiDeviceFound { path, iface_name } => device_found(s, path, iface_name),
        NmUpdate::EthernetDeviceExists => ethernet_found(s),
        NmUpdate::ModemDeviceExists => modem_found(s),
        NmUpdate::DeviceDiscoveryFailed => unavailable(s),
        NmUpdate::ApDetails { ssid, strength } => ap_read(s, ssid, strength),
        NmUpdate::ApDetailsFailed => ap_lost(s),
        NmUpdate::NetworksRefreshed { generation, networks, last_scan } => list_read(
            s,
            generation,
            networks@,
            last_scan,
        ),
        NmUpdate::RefreshNetworks => refresh_asked(s),
        NmUpdate::ConnectionAttemptFinished { attempt, ssid, success, message } => attempt_ended(
            s,
            attempt,
            ssid,
            success,
        ),
        NmUpdate::WiredDeviceInfo { iface_name, conn_name, speed } => wired_read(s, iface_name, conn_name, speed),
        NmUpdate::MobileDeviceInfo(info) => mobile_read(s, info),
        NmUpdate::MobileOperationFinished { attempt, success } => mobile_ended(s, attempt, success),
        NmUpdate::MobileEnabled(enabled) => mobile_enabled(s, enabled),
    }
}

/// The service once NetworkManager has left the bus.
pub open spec fn unavailable(s: ServiceView) -> Step {
    if s.snapshot.available {
        ServiceView { snapshot: SnapshotView::unknown(), ..s }.notified(seq![NmAction::ClearProxies])
    } else {
        Step { state: s, actions: Seq::empty() }
    }
}

impl NmService {
    /// A service that knows nothing yet.
    pub fn new() -> (service: Self)
        ensures
            service@ == (ServiceView {
                snapshot: SnapshotView::unknown(),
                wifi: WifiInternalView::initial(),
                mobile: MobileInternal::initial(),
            }),
    {
        NmService { snapshot: NmSnapshot::unknown(), wifi: WifiInternal::new(), mobile: MobileInternal::new() }
    }

    /// A copy of the snapshot.
    pub fn snapshot(&self) -> (snapshot: NmSnapshot)
        ensures
            snapshot@ == self.snapshot@,
    {
        self.snapshot.clone()
    }

    /// Brings the Wi-Fi part of the snapshot in line with the device, which every
    /// notification does first.
    pub fn reconcile_wifi_state(&mut self)
        ensures
            final(self)@ == old(self)@.settled(),
    {
        proof {
            reveal(shown);
        }
        let active_ap: Option<&str> = match &self.wifi.active_ap {
            Some(ap) => Some(ap.as_str()),
            None => None,
        };
        self.snapshot.wifi.reconcile_connection(self.wifi.device_state, active_ap, &self.wifi.networks);
        let rows = crate::network::copy_networks(&self.snapshot.wifi.networks);
        // Active access points are marked before rows are merged, so a weaker connected
        // access point keeps its row.
        self.snapshot.wifi.networks = wifi::sort_networks(wifi::dedupe_networks(rows));
    }

    /// Starts a refresh of the list of networks and returns its number.
    pub fn refresh_networks_async(&mut self) -> (generation: u64)
        requires
            old(self).wifi.refresh_generation < u64::MAX,
        ensures
            final(self)@ == old(self)@.next_refresh(),
            generation == final(self)@.wifi.refresh_generation,
    {
        self.wifi.refresh_generation = self.wifi.refresh_generation + 1;
        self.wifi.refresh_generation
    }

    /// Applies what background work reports and returns what there is to do.
    ///
    /// A list of networks that an older refresh read, and the end of an attempt that is not
    /// the current one, change nothing.
    pub fn apply_update(&mut self, update: NmUpdate) -> (actions: Vec<NmAction>)
        requires
            old(self).wifi.refresh_generation < u64::MAX,
        ensures
            final(self)@ == updated(old(self)@, update).state,
            actions@ == updated(old(self)@, update).actions,
    {
        match update {
            NmUpdate::WifiDeviceFound { path, iface_name } => self.on_device_found(path, iface_name),
            NmUpdate::EthernetDeviceExists => self.on_ethernet_found(),
            NmUpdate::ModemDeviceExists => self.on_modem_found(),
            NmUpdate::DeviceDiscoveryFailed => self.set_unavailable(),
            NmUpdate::ApDetails { ssid, strength } => self.on_ap_read(ssid, strength),
            NmUpdate::ApDetailsFailed => self.on_ap_lost(),
            NmUpdate::NetworksRefreshed { generation, networks, last_scan } => {
                self.on_list_read(generation, networks, last_scan)
            }
            NmUpdate::RefreshNetworks => self.on_refresh_asked(),
            NmUpdate::ConnectionAttemptFinished { attempt, ssid, success, message: _ } => {
                self.on_attempt_ended(attempt, ssid, success)
            }
            NmUpdate::WiredDeviceInfo { iface_name, conn_name, speed } => {
                self.on_wired_read(iface_name, conn_name, speed)
            }
            NmUpdate::MobileDeviceInfo(info) => self.on_mobile_read(info),
            NmUpdate::MobileOperationFinished { attempt, success } => self.on_mobile_ended(attempt, success),
            NmUpdate::MobileEnabled(enabled) => self.on_mobile_enabled(enabled),
        }
    }

    fn on_device_found(&mut self, path: String, iface_name: Option<String>) -> (actions: Vec<NmAction>)
        ensures
            final(self)@ == device_found(old(self)@, path, iface_name).state,
            actions@ == device_found(old(self)@, path, iface_name).actions,
    {
        let mut actions: Vec<NmAction> = Vec::new();
        self.wifi.iface_name = iface_name;
        let changed = !self.snapshot.wifi.has_device;
        self.snapshot.wifi.has_device = true;
        if changed {
            self.reconcile_wifi_state();
            actions.push(NmAction::Notify);
        }
        actions.push(NmAction::CreateWifiProxy { path });
        actions
    }

    fn on_ethernet_found(&mut self) -> (actions: Vec<NmAction>)
        ensures
            final(self)@ == ethernet_found(old(self)@).state,
            actions@ == ethernet_found(old(self)@).actions,
    {
        let mut actions: Vec<NmAction> = Vec::new();
        let changed = !self.snapshot.wired.has_device;
        self.snapshot.wired.has_device = true;
        if changed {
            self.reconcile_wifi_state();
            actions.push(NmAction::Notify);
        }
        actions
    }

    fn on_modem_found(&mut self) -> (actions: Vec<NmAction>)
        ensures
            final(self)@ == modem_found(old(self)@).state,
            actions@ == modem_found(old(self)@).actions,
    {
        let mut actions: Vec<NmAction> = Vec::new();
        if !self.snapshot.mobile.has_device {
            self.snapshot.mobile.has_device = true;
            self.reconcile_wifi_state();
            actions.push(NmAction::Notify);
            actions.push(NmAction::FetchMobileInfo);
        }
        actions
    }

    fn on_ap_read(&mut self, ssid: Option<String>, strength: i32) -> (actions: Vec<NmAction>)
        requires
            old(self).wifi.refresh_generation < u64::MAX,
        ensures
            final(self)@ == ap_read(old(self)@, ssid, strength).state,
            actions@ == ap_read(old(self)@, ssid, strength).actions,
    {
        let mut actions: Vec<NmAction> = Vec::new();
        self.snapshot.wifi.connected = true;
        self.snapshot.wifi.ssid = ssid;
        self.snapshot.wifi.strength = strength;
        self.reconcile_wifi_state();
        actions.push(NmAction::Notify);
        let generation: u64 = self.refresh_networks_async();
        actions.push(NmAction::RefreshNetworks { generation });
        actions
    }

    fn on_ap_lost(&mut self) -> (actions: Vec<NmAction>)
        ensures
            final(self)@ == ap_lost(old(self)@).state,
            actions@ == ap_lost(old(self)@).actions,
    {
        let mut actions: Vec<NmAction> = Vec::new();
        self.snapshot.wifi.connected = false;
        self.snapshot.wifi.ssid = None;
        self.snapshot.wifi.strength = 0;
        self.reconcile_wifi_state();
        actions.push(NmAction::Notify);
        actions
    }

    fn on_list_read(&mut self, generation: u64, networks: Vec<WifiNetwork>, last_scan: Option<i64>) -> (actions: Vec<NmAction>)
        ensures
            final(self)@ == list_read(old(self)@, generation, networks@, last_scan).state,
            actions@ == list_read(old(self)@, generation, networks@, last_scan).actions,
    {
        let mut actions: Vec<NmAction> = Vec::new();
        if generation == self.wifi.refresh_generation {
            let over = match (last_scan, self.wifi.last_scan_value) {
                (None, _) => true,
                (Some(new), Some(old_scan)) => new > old_scan,
                (Some(_), None) => true,
            };
            if last_scan.is_some() {
                self.wifi.last_scan_value = last_scan;
            }
            if over {
                self.wifi.scan_in_progress = false;
            }
            self.wifi.networks = networks;
            self.snapshot.wifi.is_ready = true;
            self.snapshot.wifi.scanning = self.wifi.scan_in_progress;
            self.snapshot.wifi.connecting_ssid = self.wifi.connecting_ssid.clone();
            self.snapshot.wifi.failed_ssid = self.wifi.failed_ssid.clone();
            self.reconcile_wifi_state();
            actions.push(NmAction::Notify);
        }
        actions
    }

    fn on_refresh_asked(&mut self) -> (actions: Vec<NmAction>)
        requires
            old(self).wifi.refresh_generation < u64::MAX,
        ensures
            final(self)@ == refresh_asked(old(self)@).state,
            actions@ == refresh_asked(old(self)@).actions,
    {
        let mut actions: Vec<NmAction> = Vec::new();
        let generation: u64 = self.refresh_networks_async();
        actions.push(NmAction::RefreshNetworks { generation });
        actions
    }

    fn on_attempt_ended(&mut self, attempt: u64, ssid: String, success: bool) -> (actions: Vec<NmAction>)
        requires
            old(self).wifi.refresh_generation < u64::MAX,
        ensures
            final(self)@ == attempt_ended(old(self)@, attempt, ssid, success).state,
            actions@ == attempt_ended(old(self)@, attempt, ssid, success).actions,
    {
        let mut actions: Vec<NmAction> = Vec::new();
        if attempt != self.wifi.attempt {
            return actions;
        }
        let failed_ssid = if success { None } else { Some(ssid) };
        // A network that failed must not show as saved from the cache.
        let last_refresh = if success { self.wifi.known_ssids_last_refresh } else { None };
        self.wifi.connecting_ssid = None;
        self.wifi.failed_ssid = failed_ssid.clone();
        self.wifi.known_ssids_last_refresh = last_refresh;
        self.snapshot.wifi.connecting_ssid = None;
        self.snapshot.wifi.failed_ssid = failed_ssid;
        self.reconcile_wifi_state();
        actions.push(NmAction::Notify);
        let generation: u64 = self.refresh_networks_async();
        actions.push(NmAction::RefreshNetworks { generation });
        actions
    }

    fn on_wired_read(&mut self, iface_name: Option<String>, conn_name: Option<String>, speed: Option<u32>) -> (actions: Vec<NmAction>)
        ensures
            final(self)@ == wired_read(old(self)@, iface_name, conn_name, speed).state,
            actions@ == wired_read(old(self)@, iface_name, conn_name, speed).actions,
    {
        let mut actions: Vec<NmAction> = Vec::new();
        let same = text::opt_eq(&self.snapshot.wired.iface, &iface_name) && text::opt_eq(
            &self.snapshot.wired.name,
            &conn_name,
        ) && self.snapshot.wired.speed == speed;
        if !same {
            self.snapshot.wired.iface = iface_name;
            self.snapshot.wired.name = conn_name;
            self.snapshot.wired.speed = speed;
            self.reconcile_wifi_state();
            actions.push(NmAction::Notify);
        }
        actions
    }

    fn on_mobile_read(&mut self, info: MobileDeviceInfo) -> (actions: Vec<NmAction>)
        ensures
            final(self)@ == mobile_read(old(self)@, info).state,
            actions@ == mobile_read(old(self)@, info).actions,
    {
        let mut actions: Vec<NmAction> = Vec::new();
        let (effective, clear) = mobile::resolve_mobile_connecting(
            self.mobile.connecting_local,
            info.active,
            info.connecting,
        );
        let connecting_local = self.mobile.connecting_local && !clear;
        self.mobile = MobileInternal { refresh_pending: false, connecting_local, ..self.mobile };
        if !same_mobile(&self.snapshot.mobile, &info, effective) {
            self.snapshot.mobile = MobileState {
                is_primary: self.snapshot.mobile.is_primary,
                active: info.active,
                connecting: effective,
                supported: info.supported,
                enabled: self.snapshot.mobile.enabled,
                has_device: info.has_modem,
                name: info.conn_name,
                operator: info.operator_name,
                access_technology: info.access_technology,
                signal_quality: info.signal_quality,
                failed: self.snapshot.mobile.failed,
            };
            self.reconcile_wifi_state();
            actions.push(NmAction::Notify);
        }
        actions
    }

    fn on_mobile_ended(&mut self, attempt: u64, success: bool) -> (actions: Vec<NmAction>)
        ensures
            final(self)@ == mobile_ended(old(self)@, attempt, success).state,
            actions@ == mobile_ended(old(self)@, attempt, success).actions,
    {
        let mut actions: Vec<NmAction> = Vec::new();
        if attempt == self.mobile.attempt {
            self.mobile.connecting_local = false;
            let changed = !success || self.snapshot.mobile.failed || self.snapshot.mobile.connecting;
            self.snapshot.mobile.failed = !success;
            self.snapshot.mobile.connecting = false;
            if changed {
                self.reconcile_wifi_state();
                actions.push(NmAction::Notify);
            }
        }
        actions
    }

    fn on_mobile_enabled(&mut self, enabled: bool) -> (actions: Vec<NmAction>)
        ensures
            final(self)@ == mobile_enabled(old(self)@, enabled).state,
            actions@ == mobile_enabled(old(self)@, enabled).actions,
    {
        let mut actions: Vec<NmAction> = Vec::new();
        let changed = self.snapshot.mobile.enabled != Some(enabled);
        self.snapshot.mobile.enabled = Some(enabled);
        if changed {
            self.reconcile_wifi_state();
            actions.push(NmAction::Notify);
        }
        actions
    }

    /// NetworkManager left the bus: the snapshot starts over.
    pub fn set_unavailable(&mut self) -> (actions: Vec<NmAction>)
        ensures
            final(self)@ == unavailable(old(self)@).state,
            actions@ == unavailable(old(self)@).actions,
    {
        let mut actions: Vec<NmAction> = Vec::new();
        if self.snapshot.available {
            self.snapshot = NmSnapshot::unknown();
            self.reconcile_wifi_state();
            actions.push(NmAction::Notify);
            actions.push(NmAction::ClearProxies);
        }
        actions
    }
}

/// A list of networks that an older refresh read changes nothing and causes nothing.
pub proof fn obsolete_list_changes_nothing(
    s: ServiceView,
    generation: u64,
    networks: Vec<WifiNetwork>,
    last_scan: Option<i64>,
)
    requires
        generation != s.wifi.refresh_generation,
    ensures
        updated(s, NmUpdate::NetworksRefreshed { generation, networks, last_scan }) == (Step {
            state: s,
            actions: Seq::empty(),
        }),
{
}

/// The end of a Wi-Fi attempt that is not the current one changes nothing and causes nothing.
pub proof fn obsolete_attempt_changes_nothing(
    s: ServiceView,
    attempt: u64,
    ssid: String,
    success: bool,
    message: Option<String>,
)
    requires
        attempt != s.wifi.attempt,
    ensures
        updated(s, NmUpdate::ConnectionAttemptFinished { attempt, ssid, success, message }) == (Step {
            state: s,
            actions: Seq::empty(),
        }),
{
}

/// The end of a cellular operation that is not the current one changes nothing and causes
/// nothing.
pub proof fn obsolete_mobile_completion_changes_nothing(s: ServiceView, attempt: u64, success: bool)
    requires
        attempt != s.mobile.attempt,
    ensures
        updated(s, NmUpdate::MobileOperationFinished { attempt, success }) == (Step {
            state: s,
            actions: Seq::empty(),
        }),
{
}

/// Telling the listeners twice tells them the same.
pub proof fn settling_is_idempotent(s: ServiceView)
    ensures
        s.settled().settled() == s.settled(),
{
    reveal(shown);
}

/// A row that is shown as active is the access point that the device confirms.
pub proof fn active_rows_are_confirmed(wifi: WifiView, internal: WifiInternalView, j: int)
    requires
        0 <= j < shown(wifi, internal).networks.len(),
        shown(wifi, internal).networks[j].active,
    ensures
        shown(wifi, internal).connected,
        chars_of(shown(wifi, internal).networks[j].path) == chars_of(internal.active_ap),
{
    reveal(shown);
    let r = reconciled(wifi, internal.device_state, chars_of(internal.active_ap), internal.networks);
    wifi::sorted_row_has_source(r.networks, j);
    let row = ranked(wifi::deduped(r.networks))[j];
    let i = choose|i: int|
        0 <= i < r.networks.len() && (#[trigger] r.networks[i]).path == row.path && r.networks[i].active == row.active;
    assert(r.networks[i].active);
}

/// While the device confirms an access point that is in the list, a row shows it as active.
pub proof fn confirmed_access_point_is_shown(wifi: WifiView, internal: WifiInternalView, i: int)
    requires
        wifi::confirmed(wifi.enabled, internal.device_state, chars_of(internal.active_ap)),
        0 <= i < internal.networks.len(),
        chars_of(internal.networks[i].path) == chars_of(internal.active_ap),
    ensures
        exists|j: int|
            0 <= j < shown(wifi, internal).networks.len() && (#[trigger] shown(wifi, internal).networks[j]).active
                && wifi::same_row(shown(wifi, internal).networks[j], internal.networks[i]),
{
    reveal(shown);
    let r = reconciled(wifi, internal.device_state, chars_of(internal.active_ap), internal.networks);
    assert(r.networks[i].active);
    wifi::active_network_has_sorted_row(r.networks, i);
    let rows = ranked(wifi::deduped(r.networks));
    let j = choose|j: int| 0 <= j < rows.len() && (#[trigger] rows[j]).active && wifi::same_row(rows[j], r.networks[i]);
    assert(shown(wifi, internal).networks[j].active);
}

} // verus!
