//! What the service does when the bus changes and when a user asks for something.

use vstd::prelude::*;
use crate::network::mobile::{is_mobile_connected, mobile_type};
use crate::network::profiles::{fresh, known_ssids_are_fresh, profile_ssids, WifiProfile, KNOWN_SSIDS_TTL_MS};
use crate::network::service::{
    attempt_ended, MobileInternal, NmAction, NmService, NmUpdate, ServiceView, Step, WifiInternalView,
    ETHERNET_DEVICE_TYPE, MODEM_DEVICE_TYPE, WIFI_DEVICE_TYPE,
};
use crate::network::wifi::marked;
use crate::network::{
    is_wired_connected, wired_type, MobileState, SnapshotView, WifiNetwork, WifiView, WiredState,
};
use crate::text::{self, chars_of, views};

verus! {

/// The switches and the primary link that NetworkManager reports.
#[derive(Debug)]
pub struct NmFlags {
    pub wifi_enabled: Option<bool>,
    pub mobile_enabled: Option<bool>,
    pub primary_connection_type: Option<String>,
}

/// The Wi-Fi state under the Wi-Fi switch: switching off ends the connection.
pub open spec fn wifi_switched(w: WifiView, enabled: Option<bool>) -> WifiView {
    if w.enabled == enabled {
        w
    } else if enabled == Some(false) {
        WifiView { enabled, connected: false, ssid: None, strength: 0, networks: marked(w.networks, None), ..w }
    } else {
        WifiView { enabled, ..w }
    }
}

/// The wired state under the primary link: losing it clears its details.
pub open spec fn wired_linked(w: WiredState, connected: bool) -> WiredState {
    if w.connected == connected {
        w
    } else if connected {
        WiredState { connected, ..w }
    } else {
        WiredState { connected, iface: None, name: None, speed: None, ..w }
    }
}

/// The service once NetworkManager's flags have been read.
pub open spec fn flags_read(s: ServiceView, flags: NmFlags) -> Step {
    let was = s.snapshot;
    let primary = flags.primary_connection_type;
    let same_primary = chars_of(was.primary_connection_type) == chars_of(primary);
    let now = SnapshotView {
        wifi: wifi_switched(was.wifi, flags.wifi_enabled),
        wired: wired_linked(was.wired, wired_type(primary)),
        mobile: MobileState { enabled: flags.mobile_enabled, is_primary: mobile_type(primary), ..was.mobile },
        primary_connection_type: if same_primary { was.primary_connection_type } else { primary },
        ..was
    };
    let mobile_changed = was.mobile.is_primary != mobile_type(primary);
    let changed = {
        ||| was.wifi.enabled != flags.wifi_enabled
        ||| was.mobile.enabled != flags.mobile_enabled
        ||| !same_primary
        ||| was.wired.connected != wired_type(primary)
        ||| mobile_changed
    };
    let told: Seq<NmAction> = if changed { seq![NmAction::Notify] } else { Seq::empty() };
    let wired: Seq<NmAction> = if !was.wired.connected && wired_type(primary) {
        seq![NmAction::FetchWiredInfo]
    } else {
        Seq::empty()
    };
    let mobile: Seq<NmAction> = if mobile_changed { seq![NmAction::FetchMobileInfo] } else { Seq::empty() };
    Step { state: ServiceView { snapshot: now, ..s }, actions: told + wired + mobile }
}

/// Every network without its active flag.
fn deactivated(networks: &Vec<WifiNetwork>) -> (rows: Vec<WifiNetwork>)
    ensures
        rows@ == marked(networks@, None),
{
    let mut rows: Vec<WifiNetwork> = Vec::new();
    let mut i: usize = 0;
    while i < networks.len()
        invariant
            i <= networks@.len(),
            rows@ == marked(networks@, None).take(i as int),
        decreases networks@.len() - i,
    {
        let mut row = networks[i].clone();
        row.active = false;
        rows.push(row);
        i += 1;
        proof {
            assert(marked(networks@, None).take(i as int) =~= marked(networks@, None).take(i - 1).push(
                marked(networks@, None)[i - 1],
            ));
        }
    }
    proof {
        assert(marked(networks@, None).take(i as int) =~= marked(networks@, None));
    }
    rows
}

/// Type and interface name of a device.
#[derive(Debug)]
pub struct DeviceInfo {
    pub dtype: u32,
    pub iface: Option<String>,
}

/// What was read of one device: its type and interface name, if they could be read.
#[derive(Debug)]
pub struct DeviceRead {
    pub path: String,
    pub device: Option<DeviceInfo>,
}

/// Whether a device of that type was read.
pub open spec fn has_type(devices: Seq<DeviceRead>, dtype: u32) -> bool {
    exists|i: int| 0 <= i < devices.len() && (#[trigger] devices[i]).device is Some && devices[i].device->0.dtype == dtype
}

/// The first device that was read as a Wi-Fi device.
pub open spec fn first_wifi(devices: Seq<DeviceRead>) -> Option<DeviceRead>
    decreases devices.len(),
{
    if devices.len() == 0 {
        None
    } else if devices[0].device is Some && devices[0].device->0.dtype == WIFI_DEVICE_TYPE {
        Some(devices[0])
    } else {
        first_wifi(devices.drop_first())
    }
}

/// What the list of devices means for the service.
pub open spec fn discovery(devices: Seq<DeviceRead>) -> Seq<NmUpdate> {
    let ethernet: Seq<NmUpdate> = if has_type(devices, ETHERNET_DEVICE_TYPE) {
        seq![NmUpdate::EthernetDeviceExists]
    } else {
        Seq::empty()
    };
    let modem: Seq<NmUpdate> = if has_type(devices, MODEM_DEVICE_TYPE) {
        seq![NmUpdate::ModemDeviceExists]
    } else {
        Seq::empty()
    };
    let wifi: Seq<NmUpdate> = match first_wifi(devices) {
        Some(d) => seq![NmUpdate::WifiDeviceFound { path: d.path, iface_name: d.device->0.iface }],
        None => Seq::empty(),
    };
    ethernet + modem + wifi
}

/// Reports which kinds of device exist, and the first Wi-Fi device.
pub fn discover_devices(devices: &Vec<DeviceRead>) -> (updates: Vec<NmUpdate>)
    ensures
        updates@ == discovery(devices@),
{
    let mut wifi: Option<NmUpdate> = None;
    let mut has_ethernet = false;
    let mut has_modem = false;
    let mut i: usize = 0;
    proof {
        assert(devices@.skip(0) =~= devices@);
    }
    while i < devices.len()
        invariant
            i <= devices@.len(),
            has_ethernet == has_type(devices@.take(i as int), ETHERNET_DEVICE_TYPE),
            has_modem == has_type(devices@.take(i as int), MODEM_DEVICE_TYPE),
            wifi is None ==> first_wifi(devices@) == first_wifi(devices@.skip(i as int)),
            wifi is Some ==> first_wifi(devices@) is Some && wifi->0 == (NmUpdate::WifiDeviceFound {
                path: first_wifi(devices@)->0.path,
                iface_name: first_wifi(devices@)->0.device->0.iface,
            }),
        decreases devices@.len() - i,
    {
        let read = &devices[i];
        proof {
            let seen = devices@.take(i as int);
            let more = devices@.take(i + 1);
            assert(more =~= seen.push(devices@[i as int]));
            assert(devices@.skip(i as int)[0] == devices@[i as int]);
            assert(devices@.skip(i as int).drop_first() =~= devices@.skip(i + 1));
            assert(more[i as int] == devices@[i as int]);
            lemma_has_type_push(seen, devices@[i as int], ETHERNET_DEVICE_TYPE);
            lemma_has_type_push(seen, devices@[i as int], MODEM_DEVICE_TYPE);
        }
        match &read.device {
            Some(device) => {
                let dtype: u32 = device.dtype;
                if dtype == WIFI_DEVICE_TYPE {
                    if wifi.is_none() {
                        wifi = Some(NmUpdate::WifiDeviceFound { path: read.path.clone(), iface_name: device.iface.clone() });
                    }
                } else if dtype == ETHERNET_DEVICE_TYPE {
                    has_ethernet = true;
                } else if dtype == MODEM_DEVICE_TYPE {
                    has_modem = true;
                }
            }
            None => {}
        }
        i += 1;
    }
    proof {
        assert(devices@.take(i as int) =~= devices@);
        assert(devices@.skip(i as int).len() == 0);
    }
    let mut updates: Vec<NmUpdate> = Vec::new();
    if has_ethernet {
        updates.push(NmUpdate::EthernetDeviceExists);
    }
    if has_modem {
        updates.push(NmUpdate::ModemDeviceExists);
    }
    match wifi {
        Some(update) => updates.push(update),
        None => {}
    }
    updates
}

proof fn lemma_has_type_push(seen: Seq<DeviceRead>, d: DeviceRead, dtype: u32)
    ensures
        has_type(seen.push(d), dtype) == (has_type(seen, dtype) || (d.device is Some && d.device->0.dtype == dtype)),
{
    let more = seen.push(d);
    assert(more[seen.len() as int] == d);
    if has_type(seen, dtype) {
        let k = choose|k: int| 0 <= k < seen.len() && (#[trigger] seen[k]).device is Some && seen[k].device->0.dtype == dtype;
        assert(more[k] == seen[k]);
    }
    if has_type(more, dtype) {
        let k = choose|k: int| 0 <= k < more.len() && (#[trigger] more[k]).device is Some && more[k].device->0.dtype == dtype;
        if k < seen.len() {
            assert(seen[k] == more[k]);
        }
    }
}

/// What a device that was added later means for the service.
pub fn check_device_type_for_network_devices(dtype: Option<u32>) -> (update: Option<NmUpdate>)
    ensures
        update == (if dtype == Some(ETHERNET_DEVICE_TYPE) {
            Some(NmUpdate::EthernetDeviceExists)
        } else if dtype == Some(MODEM_DEVICE_TYPE) {
            Some(NmUpdate::ModemDeviceExists)
        } else {
            None::<NmUpdate>
        }),
{
    match dtype {
        Some(t) => {
            if t == ETHERNET_DEVICE_TYPE {
                Some(NmUpdate::EthernetDeviceExists)
            } else if t == MODEM_DEVICE_TYPE {
                Some(NmUpdate::ModemDeviceExists)
            } else {
                None
            }
        }
        None => None,
    }
}

/// Whether a property change on the interface concerns a modem.
pub open spec fn modem_interface(iface: Option<Seq<char>>) -> bool {
    iface == Some("org.freedesktop.ModemManager1.Modem"@) || iface == Some(
        "org.freedesktop.ModemManager1.Modem.Modem3gpp"@,
    )
}

/// Whether a property change of ModemManager calls for a refresh.
pub fn modem_signal_refreshes(iface: Option<&str>) -> (yes: bool)
    ensures
        yes == modem_interface(
            (match iface {
                Some(i) => Some(i@),
                None => None,
            }),
        ),
{
    match iface {
        Some(name) => text::str_eq(name, "org.freedesktop.ModemManager1.Modem") || text::str_eq(
            name,
            "org.freedesktop.ModemManager1.Modem.Modem3gpp",
        ),
        None => false,
    }
}

/// A Wi-Fi attempt to carry out.
#[derive(Debug)]
pub struct WifiAttempt {
    pub attempt: u64,
    pub ssid: String,
    pub password: Option<String>,
    /// Access point to join, if one is known.
    pub ap: Option<String>,
}

/// The access point of the first row with that SSID.
pub open spec fn access_point_of(networks: Seq<WifiNetwork>, ssid: Seq<char>) -> Option<String>
    decreases networks.len(),
{
    if networks.len() == 0 {
        None
    } else if networks[0].ssid@ == ssid {
        networks[0].path
    } else {
        access_point_of(networks.drop_first(), ssid)
    }
}

fn find_access_point(networks: &Vec<WifiNetwork>, ssid: &str) -> (path: Option<String>)
    ensures
        path == access_point_of(networks@, ssid@),
{
    let mut i: usize = 0;
    proof {
        assert(networks@.skip(0) =~= networks@);
    }
    while i < networks.len()
        invariant
            i <= networks@.len(),
            access_point_of(networks@, ssid@) == access_point_of(networks@.skip(i as int), ssid@),
        decreases networks@.len() - i,
    {
        proof {
            assert(networks@.skip(i as int)[0] == networks@[i as int]);
            assert(networks@.skip(i as int).drop_first() =~= networks@.skip(i + 1));
        }
        if text::str_eq(networks[i].ssid.as_str(), ssid) {
            return networks[i].path.clone();
        }
        i += 1;
    }
    None
}

/// The service with its Wi-Fi attempt invalidated.
pub open spec fn wifi_aborted(s: ServiceView) -> Step {
    Step {
        state: ServiceView {
            wifi: WifiInternalView { attempt: (s.wifi.attempt + 1) as u64, activation_cancel: false, ..s.wifi },
            ..s
        },
        actions: if s.wifi.activation_cancel {
            seq![NmAction::CancelWifiActivation]
        } else {
            Seq::empty()
        },
    }
}

/// The service with its Wi-Fi attempt cancelled and no attempt shown.
pub open spec fn wifi_cancelled(s: ServiceView) -> Step {
    let aborted = wifi_aborted(s);
    let quiet = ServiceView {
        wifi: WifiInternalView { connecting_ssid: None, ..aborted.state.wifi },
        ..aborted.state
    };
    Step {
        state: quiet.with_wifi(WifiView { connecting_ssid: None, ..quiet.snapshot.wifi }).settled(),
        actions: aborted.actions.push(NmAction::Notify),
    }
}

/// The service while it joins `ssid`.
pub open spec fn wifi_joining(s: ServiceView, ssid: String) -> Step {
    let aborted = wifi_aborted(s);
    let begun = ServiceView {
        wifi: WifiInternalView {
            activation_cancel: true,
            failed_ssid: None,
            connecting_ssid: Some(ssid),
            ..aborted.state.wifi
        },
        ..aborted.state
    };
    Step {
        state: begun.with_wifi(
            WifiView { failed_ssid: None, connecting_ssid: Some(ssid), ..begun.snapshot.wifi },
        ).settled(),
        actions: aborted.actions.push(NmAction::Notify),
    }
}

/// The service with its cellular attempt invalidated.
pub open spec fn mobile_aborted(s: ServiceView) -> Step {
    Step {
        state: ServiceView {
            mobile: MobileInternal { attempt: (s.mobile.attempt + 1) as u64, activation_cancel: false, ..s.mobile },
            ..s
        },
        actions: if s.mobile.activation_cancel {
            seq![NmAction::CancelMobileActivation]
        } else {
            Seq::empty()
        },
    }
}

/// The service with its cellular attempt cancelled.
pub open spec fn mobile_cancelled(s: ServiceView) -> Step {
    let aborted = mobile_aborted(s);
    Step {
        state: ServiceView {
            mobile: MobileInternal { connecting_local: false, ..aborted.state.mobile },
            ..aborted.state
        },
        actions: aborted.actions,
    }
}

/// The service while WWAN is switched.
pub open spec fn mobile_switching(s: ServiceView, enabled: bool) -> Step {
    let cancelled = mobile_cancelled(s);
    let c = cancelled.state;
    let m = c.snapshot.mobile;
    let set = ServiceView { mobile: MobileInternal { connecting_local: enabled, ..c.mobile }, ..c }.with_mobile(
        MobileState { connecting: enabled, enabled: Some(enabled), active: enabled && m.active, ..m },
    );
    Step { state: set.settled(), actions: cancelled.actions.push(NmAction::Notify) }
}

/// The service while it opens or closes the cellular connection.
pub open spec fn mobile_starting(s: ServiceView, connect: bool) -> Step {
    let m = s.snapshot.mobile;
    let set = ServiceView { mobile: MobileInternal { connecting_local: connect, ..s.mobile }, ..s }.with_mobile(
        if connect {
            MobileState { connecting: true, failed: false, ..m }
        } else {
            MobileState { connecting: false, active: false, ..m }
        },
    ).settled();
    let aborted = mobile_aborted(set);
    Step {
        state: ServiceView {
            mobile: MobileInternal { activation_cancel: true, ..aborted.state.mobile },
            ..aborted.state
        },
        actions: seq![NmAction::Notify] + aborted.actions,
    }
}

/// The state after a read of the saved profiles that began at `now`.
pub open spec fn known_ssids_after(s: ServiceView, profiles: Result<Vec<WifiProfile>, String>, now: u64) -> ServiceView {
    match profiles {
        Ok(list) => ServiceView {
            wifi: WifiInternalView {
                known_ssids: profile_ssids(list@),
                known_ssids_last_refresh: Some(now),
                ..s.wifi
            },
            ..s
        },
        Err(_) => s,
    }
}

/// After an attempt that failed the saved profiles are read again, however short ago they were
/// read. After one that succeeded they are used as long as before.
pub proof fn failed_attempts_are_not_shown_from_the_cache(
    s: ServiceView,
    profiles: Vec<WifiProfile>,
    read_at: u64,
    ssid: String,
    success: bool,
    now: u64,
)
    ensures
        ({
            let read = known_ssids_after(s, Ok(profiles), read_at);
            let ended = attempt_ended(read, s.wifi.attempt, ssid, success).state;
            &&& ended.wifi.known_ssids == profile_ssids(profiles@)
            &&& fresh(ended.wifi.known_ssids_last_refresh, now) <==> success && now - read_at < KNOWN_SSIDS_TTL_MS
        }),
{
}

impl NmService {
    /// NetworkManager is on the bus, or is not.
    pub fn set_available(&mut self, available: bool) -> (actions: Vec<NmAction>)
        ensures
            ({
                let s = old(self)@;
                let step = ServiceView { snapshot: SnapshotView { available, ..s.snapshot }, ..s }.notified_if(
                    s.snapshot.available != available,
                );
                final(self)@ == step.state && actions@ == step.actions
            }),
    {
        let mut actions: Vec<NmAction> = Vec::new();
        let changed = self.snapshot.available != available;
        self.snapshot.available = available;
        if changed {
            self.reconcile_wifi_state();
            actions.push(NmAction::Notify);
        }
        actions
    }

    /// Takes over NetworkManager's flags, tells the listeners of any change, and has the
    /// devices read that the change concerns.
    pub fn update_nm_flags(&mut self, flags: NmFlags) -> (actions: Vec<NmAction>)
        ensures
            final(self)@ == flags_read(old(self)@, flags).state,
            actions@ == flags_read(old(self)@, flags).actions,
    {
        let wired_connected = is_wired_connected(&flags.primary_connection_type);
        let mobile_connected = is_mobile_connected(&flags.primary_connection_type);
        let same_primary = text::opt_eq(&self.snapshot.primary_connection_type, &flags.primary_connection_type);
        let wired_changed = self.snapshot.wired.connected != wired_connected;
        let mobile_changed = self.snapshot.mobile.is_primary != mobile_connected;
        let wifi_changed = self.snapshot.wifi.enabled != flags.wifi_enabled;
        let changed = wifi_changed || self.snapshot.mobile.enabled != flags.mobile_enabled || !same_primary
            || wired_changed || mobile_changed;
        if wifi_changed {
            self.switch_wifi(flags.wifi_enabled);
        }
        if wired_changed {
            self.link_wired(wired_connected);
        }
        self.snapshot.mobile.enabled = flags.mobile_enabled;
        self.snapshot.mobile.is_primary = mobile_connected;
        if !same_primary {
            self.snapshot.primary_connection_type = flags.primary_connection_type;
        }
        let mut actions: Vec<NmAction> = Vec::new();
        if changed {
            actions.push(NmAction::Notify);
        }
        if wired_changed && wired_connected {
            actions.push(NmAction::FetchWiredInfo);
        }
        if mobile_changed {
            actions.push(NmAction::FetchMobileInfo);
        }
        actions
    }

    fn switch_wifi(&mut self, enabled: Option<bool>)
        requires
            old(self).snapshot.wifi.enabled != enabled,
        ensures
            final(self)@ == old(self)@.with_wifi(wifi_switched(old(self)@.snapshot.wifi, enabled)),
    {
        self.snapshot.wifi.enabled = enabled;
        if enabled == Some(false) {
            self.snapshot.wifi.connected = false;
            self.snapshot.wifi.ssid = None;
            self.snapshot.wifi.strength = 0;
            self.snapshot.wifi.networks = deactivated(&self.snapshot.wifi.networks);
        }
    }

    fn link_wired(&mut self, connected: bool)
        requires
            old(self).snapshot.wired.connected != connected,
        ensures
            final(self)@ == old(self)@.with_wired(wired_linked(old(self)@.snapshot.wired, connected)),
    {
        self.snapshot.wired.connected = connected;
        if !connected {
            self.snapshot.wired.iface = None;
            self.snapshot.wired.name = None;
            self.snapshot.wired.speed = None;
        }
    }

    /// The device or its access point changed: the rows follow at once, the list afterwards.
    pub fn update_state(&mut self) -> (actions: Vec<NmAction>)
        requires
            old(self).wifi.refresh_generation < u64::MAX,
        ensures
            final(self)@ == old(self)@.notified_and_refreshing().state,
            actions@ == old(self)@.notified_and_refreshing().actions,
    {
        let mut actions: Vec<NmAction> = Vec::new();
        self.reconcile_wifi_state();
        actions.push(NmAction::Notify);
        let generation: u64 = self.refresh_networks_async();
        actions.push(NmAction::RefreshNetworks { generation });
        actions
    }

    /// Starts a scan, unless one is running. Returns whether a scan has to be requested.
    pub fn scan_networks(&mut self, has_proxy: bool) -> (request: bool)
        ensures
            request == (has_proxy && !old(self)@.wifi.scan_in_progress),
            request ==> final(self)@ == ({
                let s = old(self)@;
                ServiceView { wifi: WifiInternalView { scan_in_progress: true, ..s.wifi }, ..s }.with_wifi(
                    WifiView { scanning: true, ..s.snapshot.wifi },
                ).settled()
            }),
            !request ==> final(self)@ == old(self)@,
    {
        if self.wifi.scan_in_progress || !has_proxy {
            return false;
        }
        self.wifi.scan_in_progress = true;
        self.snapshot.wifi.scanning = true;
        self.reconcile_wifi_state();
        true
    }

    /// Forgets which network failed.
    pub fn clear_failed_state(&mut self)
        ensures
            final(self)@ == ({
                let s = old(self)@;
                ServiceView { wifi: WifiInternalView { failed_ssid: None, ..s.wifi }, ..s }.with_wifi(
                    WifiView { failed_ssid: None, ..s.snapshot.wifi },
                ).settled()
            }),
    {
        self.wifi.failed_ssid = None;
        self.snapshot.wifi.failed_ssid = None;
        self.reconcile_wifi_state();
    }

    /// Invalidates the Wi-Fi attempt in flight without touching the snapshot.
    pub fn abort_wifi_attempt(&mut self) -> (actions: Vec<NmAction>)
        requires
            old(self).wifi.attempt < u64::MAX,
        ensures
            final(self)@ == wifi_aborted(old(self)@).state,
            actions@ == wifi_aborted(old(self)@).actions,
    {
        let mut actions: Vec<NmAction> = Vec::new();
        self.wifi.attempt = self.wifi.attempt + 1;
        if self.wifi.activation_cancel {
            self.wifi.activation_cancel = false;
            actions.push(NmAction::CancelWifiActivation);
        }
        actions
    }

    /// Cancels the Wi-Fi attempt in flight and stops showing it.
    pub fn cancel_wifi_attempt(&mut self) -> (actions: Vec<NmAction>)
        requires
            old(self).wifi.attempt < u64::MAX,
        ensures
            final(self)@ == wifi_cancelled(old(self)@).state,
            actions@ == wifi_cancelled(old(self)@).actions,
    {
        let mut actions = self.abort_wifi_attempt();
        self.wifi.connecting_ssid = None;
        self.snapshot.wifi.connecting_ssid = None;
        self.reconcile_wifi_state();
        actions.push(NmAction::Notify);
        actions
    }

    /// Prepares to switch Wi-Fi: switching off cancels the attempt in flight.
    pub fn set_wifi_enabled(&mut self, enabled: bool) -> (actions: Vec<NmAction>)
        requires
            old(self).wifi.attempt < u64::MAX,
        ensures
            enabled ==> final(self)@ == old(self)@ && actions@.len() == 0,
            !enabled ==> final(self)@ == wifi_cancelled(old(self)@).state,
            !enabled ==> actions@ == wifi_cancelled(old(self)@).actions,
    {
        if enabled {
            Vec::new()
        } else {
            self.cancel_wifi_attempt()
        }
    }

    /// Begins to join a network. Without a device, or for an empty SSID, nothing happens.
    ///
    /// The attempt replaces the one in flight, and goes to the given access point or else to
    /// the one that the row of that SSID shows.
    pub fn connect_to_network(
        &mut self,
        ssid: &str,
        password: Option<&str>,
        ap: Option<&str>,
        has_device: bool,
    ) -> (begun: Option<(Vec<NmAction>, WifiAttempt)>)
        requires
            old(self).wifi.attempt < u64::MAX,
        ensures
            begun is Some <==> (has_device && ssid@.len() > 0),
            begun is None ==> final(self)@ == old(self)@,
            begun matches Some((actions, attempt)) ==> {
                &&& attempt.ssid@ == ssid@
                &&& final(self)@ == wifi_joining(old(self)@, attempt.ssid).state
                &&& actions@ == wifi_joining(old(self)@, attempt.ssid).actions
                &&& attempt.attempt == old(self)@.wifi.attempt + 1
                &&& attempt.attempt == final(self)@.wifi.attempt
                &&& chars_of(attempt.password) == (match password {
                    Some(p) => Some(p@),
                    None => None,
                })
                &&& match ap {
                    Some(path) => chars_of(attempt.ap) == Some(path@),
                    None => attempt.ap == access_point_of(final(self)@.snapshot.wifi.networks, ssid@),
                }
            },
    {
        if ssid.is_empty() || !has_device {
            return None;
        }
        let name = ssid.to_owned();
        let mut actions = self.abort_wifi_attempt();
        let attempt: u64 = self.wifi.attempt;
        self.wifi.activation_cancel = true;
        self.wifi.failed_ssid = None;
        self.wifi.connecting_ssid = Some(name.clone());
        self.snapshot.wifi.failed_ssid = None;
        self.snapshot.wifi.connecting_ssid = Some(name.clone());
        self.reconcile_wifi_state();
        actions.push(NmAction::Notify);
        let password = match password {
            Some(p) => Some(p.to_owned()),
            None => None,
        };
        let ap = match ap {
            Some(path) => Some(path.to_owned()),
            None => find_access_point(&self.snapshot.wifi.networks, ssid),
        };
        Some((actions, WifiAttempt { attempt, ssid: name, password, ap }))
    }

    /// Begins to disconnect from Wi-Fi: the attempt in flight is cancelled.
    pub fn disconnect(&mut self) -> (actions: Vec<NmAction>)
        requires
            old(self).wifi.attempt < u64::MAX,
        ensures
            final(self)@ == wifi_cancelled(old(self)@).state,
            actions@ == wifi_cancelled(old(self)@).actions,
    {
        self.cancel_wifi_attempt()
    }

    /// Whether the saved profiles have to be read before the next list.
    pub fn known_ssids_due(&self, now: u64) -> (due: bool)
        ensures
            due == !fresh(self@.wifi.known_ssids_last_refresh, now),
    {
        !known_ssids_are_fresh(self.wifi.known_ssids_last_refresh, now)
    }

    /// Takes in the saved profiles that a read begun at `now` gave. After a read that failed the SSIDs
    /// before are kept, and so is the time at which they were read.
    pub fn known_ssids_read(&mut self, profiles: &Result<Vec<WifiProfile>, String>, now: u64)
        ensures
            final(self)@ == known_ssids_after(old(self)@, *profiles, now),
    {
        if let Ok(list) = profiles {
            let mut ssids: Vec<String> = Vec::new();
            let mut i: usize = 0;
            let ghost all = list@.map_values(|p: WifiProfile| p.ssid@);
            while i < list.len()
                invariant
                    i <= list@.len(),
                    all == list@.map_values(|p: WifiProfile| p.ssid@),
                    views(ssids@) == all.take(i as int),
                decreases list@.len() - i,
            {
                let ghost before = views(ssids@);
                ssids.push(list[i].ssid.clone());
                proof {
                    assert(views(ssids@) =~= before.push(all[i as int]));
                    assert(all.take(i + 1) =~= all.take(i as int).push(all[i as int]));
                }
                i += 1;
            }
            proof {
                assert(all.take(i as int) =~= all);
            }
            self.wifi.known_ssids = ssids;
            self.wifi.known_ssids_last_refresh = Some(now);
        }
    }

    /// Saved networks have to be read again before the next list.
    pub fn invalidate_known_ssids(&mut self)
        ensures
            final(self)@ == (ServiceView {
                wifi: WifiInternalView { known_ssids_last_refresh: None, ..old(self)@.wifi },
                ..old(self)@
            }),
    {
        self.wifi.known_ssids_last_refresh = None;
    }

    /// Queues a refresh of the modem. Returns whether its timer has to be started: requests
    /// that come while one is waiting are part of it.
    pub fn queue_mobile_refresh(&mut self) -> (start_timer: bool)
        ensures
            start_timer == !old(self)@.mobile.refresh_pending,
            final(self)@ == (ServiceView {
                mobile: MobileInternal { refresh_pending: true, ..old(self)@.mobile },
                ..old(self)@
            }),
    {
        let start = !self.mobile.refresh_pending;
        self.mobile.refresh_pending = true;
        start
    }

    /// The timer of a queued refresh ran out: requests from now on need a new one.
    pub fn mobile_refresh_due(&mut self) -> (action: NmAction)
        ensures
            action == NmAction::FetchMobileInfo,
            final(self)@ == (ServiceView {
                mobile: MobileInternal { refresh_pending: false, ..old(self)@.mobile },
                ..old(self)@
            }),
    {
        self.mobile.refresh_pending = false;
        NmAction::FetchMobileInfo
    }

    /// Invalidates the cellular attempt in flight; the local flag is left to the caller.
    pub fn abort_mobile_attempt(&mut self) -> (actions: Vec<NmAction>)
        requires
            old(self).mobile.attempt < u64::MAX,
        ensures
            final(self)@ == mobile_aborted(old(self)@).state,
            actions@ == mobile_aborted(old(self)@).actions,
    {
        let mut actions: Vec<NmAction> = Vec::new();
        self.mobile.attempt = self.mobile.attempt + 1;
        if self.mobile.activation_cancel {
            self.mobile.activation_cancel = false;
            actions.push(NmAction::CancelMobileActivation);
        }
        actions
    }

    /// Cancels the cellular attempt in flight.
    pub fn cancel_mobile_attempt(&mut self) -> (actions: Vec<NmAction>)
        requires
            old(self).mobile.attempt < u64::MAX,
        ensures
            final(self)@ == mobile_cancelled(old(self)@).state,
            actions@ == mobile_cancelled(old(self)@).actions,
    {
        let actions = self.abort_mobile_attempt();
        self.mobile.connecting_local = false;
        actions
    }

    /// Begins to switch WWAN. Without NetworkManager only the attempt in flight is cancelled.
    pub fn set_mobile_enabled(&mut self, enabled: bool, has_proxy: bool) -> (actions: Vec<NmAction>)
        requires
            old(self).mobile.attempt < u64::MAX,
        ensures
            !has_proxy ==> final(self)@ == mobile_cancelled(old(self)@).state,
            !has_proxy ==> actions@ == mobile_cancelled(old(self)@).actions,
            has_proxy ==> final(self)@ == mobile_switching(old(self)@, enabled).state,
            has_proxy ==> actions@ == mobile_switching(old(self)@, enabled).actions,
    {
        let mut actions = self.cancel_mobile_attempt();
        if !has_proxy {
            return actions;
        }
        self.mobile.connecting_local = enabled;
        // Switching on usually makes the profile connect by itself.
        self.snapshot.mobile.connecting = enabled;
        self.snapshot.mobile.enabled = Some(enabled);
        self.snapshot.mobile.active = enabled && self.snapshot.mobile.active;
        self.reconcile_wifi_state();
        actions.push(NmAction::Notify);
        actions
    }

    /// Begins to connect the first cellular profile.
    pub fn connect_mobile(&mut self) -> (actions: Vec<NmAction>)
        requires
            old(self).mobile.attempt < u64::MAX,
        ensures
            final(self)@ == mobile_starting(old(self)@, true).state,
            actions@ == mobile_starting(old(self)@, true).actions,
    {
        self.mobile.connecting_local = true;
        self.snapshot.mobile.connecting = true;
        self.snapshot.mobile.failed = false;
        self.reconcile_wifi_state();
        self.start_mobile_connection()
    }

    /// Begins to disconnect the cellular connection.
    pub fn disconnect_mobile(&mut self) -> (actions: Vec<NmAction>)
        requires
            old(self).mobile.attempt < u64::MAX,
        ensures
            final(self)@ == mobile_starting(old(self)@, false).state,
            actions@ == mobile_starting(old(self)@, false).actions,
    {
        self.mobile.connecting_local = false;
        self.snapshot.mobile.connecting = false;
        self.snapshot.mobile.active = false;
        self.reconcile_wifi_state();
        self.start_mobile_connection()
    }

    fn start_mobile_connection(&mut self) -> (actions: Vec<NmAction>)
        requires
            old(self).mobile.attempt < u64::MAX,
        ensures
            final(self)@ == (ServiceView {
                mobile: MobileInternal { activation_cancel: true, ..mobile_aborted(old(self)@).state.mobile },
                ..mobile_aborted(old(self)@).state
            }),
            actions@ == seq![NmAction::Notify] + mobile_aborted(old(self)@).actions,
    {
        let mut actions: Vec<NmAction> = Vec::new();
        actions.push(NmAction::Notify);
        let mut aborted = self.abort_mobile_attempt();
        actions.append(&mut aborted);
        self.mobile.activation_cancel = true;
        actions
    }

    /// Forgets that the last cellular attempt failed. Returns whether the listeners have to be told.
    pub fn clear_mobile_failed_state(&mut self) -> (notify: bool)
        ensures
            notify == old(self)@.snapshot.mobile.failed,
            final(self)@ == old(self)@.with_mobile(
                MobileState { failed: false, ..old(self)@.snapshot.mobile },
            ).notified_if(notify).state,
    {
        let changed = self.snapshot.mobile.failed;
        self.snapshot.mobile.failed = false;
        if changed {
            self.reconcile_wifi_state();
        }
        changed
    }
}

} // verus!
