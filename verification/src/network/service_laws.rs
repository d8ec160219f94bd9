//! What holds of the network service, update by update.

use vstd::prelude::*;
use crate::network::control::{
    access_point_of, discovery, first_wifi, flags_read, has_type, mobile_cancelled, mobile_starting, mobile_switching,
    wifi_aborted, wifi_cancelled, wifi_joining, DeviceRead, NmFlags,
};
use crate::network::events::{heard, BusEvent};
use crate::network::service::{
    shown, unavailable, updated, MobileDeviceInfo, MobileInternal, NmAction, NmUpdate, ServiceView, WifiInternalView,
};
use crate::network::wifi::{
    deduped, no_network_has_two_rows, reconciled,
    rows_are_sorted_by_kind_strength_and_name,
};
use crate::network::{WifiNetwork, WifiView};
use crate::order::{ranked, ranked_is_stable_sort};
use crate::text::{chars_before, chars_of};

verus! {

proof fn lemma_shown(wifi: WifiView, internal: WifiInternalView)
    ensures
        ({
            let s = shown(wifi, internal);
            &&& s.enabled == wifi.enabled && s.has_device == wifi.has_device && s.scanning == wifi.scanning
            &&& s.is_ready == wifi.is_ready && s.connecting_ssid == wifi.connecting_ssid && s.failed_ssid == wifi.failed_ssid
        }),
{
    reveal(shown);
}

/// Listeners are told of a connection exactly if Wi-Fi is not switched off and its device is activated and names an
/// access point. Of two rows the active one stands before, a known network before one that is neither, then the
/// stronger, then the one whose SSID comes first; no two rows are of one SSID and security.
pub proof fn listeners_see_sorted_rows(wifi: WifiView, internal: WifiInternalView, i: int, j: int)
    requires
        0 <= i < j < shown(wifi, internal).networks.len(),
    ensures
        ({
            let s = shown(wifi, internal);
            let a = s.networks[i];
            let b = s.networks[j];
            &&& s.connected <==> wifi.enabled != Some(false) && internal.device_state == Some(100u32)
                && internal.active_ap is Some && internal.active_ap->0@ != "/"@
            &&& b.active ==> a.active
            &&& !a.active && !a.known ==> !b.active && !b.known
            &&& ((a.active && b.active) || (!a.active && !b.active && a.known == b.known)) ==> a.strength >= b.strength && (
            a.strength == b.strength ==> !chars_before(b.ssid@, a.ssid@))
            &&& a.ssid@ != b.ssid@ || a.security != b.security
        }),
{
    reveal(shown);
    let ap = chars_of(internal.active_ap);
    let r = reconciled(wifi, internal.device_state, ap, internal.networks);
    let rows = deduped(r.networks);
    rows_are_sorted_by_kind_strength_and_name(rows, i, j);
    lemma_sorted_distinct(rows, r.networks, i, j);
}

proof fn lemma_sorted_distinct(rows: Seq<WifiNetwork>, networks: Seq<WifiNetwork>, i: int, j: int)
    requires
        rows == deduped(networks),
        0 <= i < j < ranked(rows).len(),
    ensures
        ranked(rows)[i].ssid@ != ranked(rows)[j].ssid@ || ranked(rows)[i].security != ranked(rows)[j].security,
{
    let sorted = ranked(rows);
    ranked_is_stable_sort(rows);
    rows.to_multiset_ensures();
    sorted.to_multiset_ensures();
    assert(rows.no_duplicates()) by {
        assert forall|a: int, b: int| 0 <= a < rows.len() && 0 <= b < rows.len() && a != b implies rows[a] != rows[b] by {
            if a < b {
                no_network_has_two_rows(networks, a, b);
            } else {
                no_network_has_two_rows(networks, b, a);
            }
        }
    }
    rows.lemma_multiset_has_no_duplicates();
    sorted.lemma_multiset_has_no_duplicates_conv();
    assert(sorted.contains(sorted[i]) && sorted.contains(sorted[j]));
    crate::order::ranked_holds_the_same(rows, sorted[i]);
    crate::order::ranked_holds_the_same(rows, sorted[j]);
    let a = choose|a: int| 0 <= a < rows.len() && rows[a] == sorted[i];
    let b = choose|b: int| 0 <= b < rows.len() && rows[b] == sorted[j];
    assert(a != b);
    if a < b {
        no_network_has_two_rows(networks, a, b);
    } else {
        no_network_has_two_rows(networks, b, a);
    }
}

/// A device that is found is there from then on. Listeners are told when it is the first of its kind; a Wi-Fi device
/// is opened in any case, and a new modem is read.
pub proof fn found_devices_are_there(s: ServiceView, path: String, iface: Option<String>)
    ensures
        ({
            let wifi = updated(s, NmUpdate::WifiDeviceFound { path, iface_name: iface });
            &&& wifi.state.snapshot.wifi.has_device && wifi.state.wifi.iface_name == iface
            &&& wifi.actions.last() == (NmAction::CreateWifiProxy { path })
            &&& s.snapshot.wifi.has_device ==> wifi.actions.len() == 1
            &&& !s.snapshot.wifi.has_device ==> wifi.actions =~= seq![NmAction::Notify, NmAction::CreateWifiProxy { path }]
        }),
        ({
            let wired = updated(s, NmUpdate::EthernetDeviceExists);
            &&& wired.state.snapshot.wired.has_device
            &&& s.snapshot.wired.has_device ==> wired.actions.len() == 0 && wired.state.snapshot.wired == s.snapshot.wired
            &&& !s.snapshot.wired.has_device ==> wired.actions =~= seq![NmAction::Notify]
        }),
        ({
            let modem = updated(s, NmUpdate::ModemDeviceExists);
            &&& modem.state.snapshot.mobile.has_device
            &&& s.snapshot.mobile.has_device ==> modem.actions.len() == 0
            &&& !s.snapshot.mobile.has_device ==> modem.actions =~= seq![NmAction::Notify, NmAction::FetchMobileInfo]
        }),
{
    lemma_shown(
        WifiView { has_device: true, ..s.snapshot.wifi },
        WifiInternalView { iface_name: iface, ..s.wifi },
    );
    lemma_shown(s.snapshot.wifi, s.wifi);
}

/// Without NetworkManager nothing is known and the proxies go; that it is gone is told once.
pub proof fn nothing_is_known_without_the_daemon(s: ServiceView)
    ensures
        ({
            let gone = updated(s, NmUpdate::DeviceDiscoveryFailed);
            &&& s.snapshot.available ==> {
                &&& gone.actions =~= seq![NmAction::Notify, NmAction::ClearProxies]
                &&& !gone.state.snapshot.available && !gone.state.snapshot.wifi.has_device
                &&& gone.state.snapshot.wifi.enabled is None && !gone.state.snapshot.wifi.is_ready
                &&& !gone.state.snapshot.wired.has_device && !gone.state.snapshot.wired.connected
                &&& !gone.state.snapshot.mobile.has_device && !gone.state.snapshot.mobile.active
                &&& gone.state.snapshot.primary_connection_type is None
                &&& gone.state.wifi == s.wifi && gone.state.mobile == s.mobile
            }
            &&& !s.snapshot.available ==> gone.state == s && gone.actions.len() == 0
            &&& unavailable(s) == gone
        }),
{
    reveal(shown);
}

/// A list that the current refresh read is shown. A scan is over once a list is newer than the last one, or tells
/// no time.
pub proof fn current_lists_are_shown(
    s: ServiceView,
    networks: Vec<WifiNetwork>,
    last_scan: Option<i64>,
)
    ensures
        ({
            let after = updated(
                s,
                NmUpdate::NetworksRefreshed { generation: s.wifi.refresh_generation, networks, last_scan },
            );
            let over = last_scan is None || s.wifi.last_scan_value is None || last_scan->0 > s.wifi.last_scan_value->0;
            &&& after.actions =~= seq![NmAction::Notify]
            &&& after.state.wifi.networks == networks@
            &&& after.state.snapshot.wifi.is_ready
            &&& after.state.wifi.scan_in_progress <==> s.wifi.scan_in_progress && !over
            &&& after.state.snapshot.wifi.scanning <==> s.wifi.scan_in_progress && !over
            &&& last_scan is Some ==> after.state.wifi.last_scan_value == last_scan
            &&& last_scan is None ==> after.state.wifi.last_scan_value == s.wifi.last_scan_value
            &&& after.state.snapshot.wifi.connecting_ssid == s.wifi.connecting_ssid
            &&& after.state.snapshot.wifi.failed_ssid == s.wifi.failed_ssid
            &&& after.state.wifi.refresh_generation == s.wifi.refresh_generation && after.state.wifi.attempt == s.wifi.attempt
        }),
{
    reveal(shown);
}

/// Each refresh gets a number of its own, and is begun with it, so that lists of older ones no longer count.
pub proof fn refreshes_are_numbered(s: ServiceView, ssid: Option<String>, strength: i32, networks: Vec<WifiNetwork>)
    requires
        s.wifi.refresh_generation < u64::MAX,
    ensures
        ({
            let asked = updated(s, NmUpdate::RefreshNetworks);
            let n = (s.wifi.refresh_generation + 1) as u64;
            &&& asked.state.wifi.refresh_generation == s.wifi.refresh_generation + 1
            &&& asked.actions =~= seq![NmAction::RefreshNetworks { generation: n }]
            &&& asked.state.snapshot == s.snapshot
            &&& updated(
                asked.state,
                NmUpdate::NetworksRefreshed { generation: s.wifi.refresh_generation, networks, last_scan: None },
            ).state == asked.state
        }),
        ({
            let read = updated(s, NmUpdate::ApDetails { ssid, strength });
            &&& read.state.wifi.refresh_generation == s.wifi.refresh_generation + 1
            &&& read.actions =~= seq![
                NmAction::Notify,
                NmAction::RefreshNetworks { generation: (s.wifi.refresh_generation + 1) as u64 },
            ]
        }),
{
}

/// The end of the current attempt is told: nothing is being joined any more, the network that failed is told apart,
/// and the list is read anew.
pub proof fn ended_attempts_are_told(s: ServiceView, ssid: String, success: bool, message: Option<String>)
    requires
        s.wifi.refresh_generation < u64::MAX,
    ensures
        ({
            let after = updated(
                s,
                NmUpdate::ConnectionAttemptFinished { attempt: s.wifi.attempt, ssid, success, message },
            );
            &&& after.state.snapshot.wifi.connecting_ssid is None && after.state.wifi.connecting_ssid is None
            &&& success ==> after.state.snapshot.wifi.failed_ssid is None && after.state.wifi.failed_ssid is None
            &&& !success ==> after.state.snapshot.wifi.failed_ssid == Some(ssid) && after.state.wifi.failed_ssid == Some(ssid)
                && after.state.wifi.known_ssids_last_refresh is None
            &&& success ==> after.state.wifi.known_ssids_last_refresh == s.wifi.known_ssids_last_refresh
            &&& after.actions =~= seq![
                NmAction::Notify,
                NmAction::RefreshNetworks { generation: (s.wifi.refresh_generation + 1) as u64 },
            ]
        }),
{
    reveal(shown);
}

/// What is read of the wired device is shown. Listeners are told exactly if it differs from what was shown.
pub proof fn wired_devices_are_shown(s: ServiceView, iface: Option<String>, name: Option<String>, speed: Option<u32>)
    ensures
        ({
            let after = updated(s, NmUpdate::WiredDeviceInfo { iface_name: iface, conn_name: name, speed });
            let w = after.state.snapshot.wired;
            &&& chars_of(w.iface) == chars_of(iface) && chars_of(w.name) == chars_of(name) && w.speed == speed
            &&& w.connected == s.snapshot.wired.connected && w.has_device == s.snapshot.wired.has_device
            &&& after.actions.len() == 0 <==> chars_of(s.snapshot.wired.iface) == chars_of(iface) && chars_of(
                s.snapshot.wired.name,
            ) == chars_of(name) && s.snapshot.wired.speed == speed
            &&& after.state.snapshot.mobile == s.snapshot.mobile
        }),
{
}

/// What is read of the modem is shown. An attempt begun here counts as connecting until the bus shows it as active
/// or connecting itself.
pub proof fn modems_are_shown(s: ServiceView, info: MobileDeviceInfo)
    ensures
        ({
            let after = updated(s, NmUpdate::MobileDeviceInfo(info));
            let m = after.state.snapshot.mobile;
            &&& m.active == info.active && m.supported == info.supported && m.has_device == info.has_modem
            &&& chars_of(m.name) == chars_of(info.conn_name) && chars_of(m.operator) == chars_of(info.operator_name)
            &&& chars_of(m.access_technology) == chars_of(info.access_technology) && m.signal_quality == info.signal_quality
            &&& m.connecting <==> info.connecting || (s.mobile.connecting_local && !info.active)
            &&& after.state.mobile.connecting_local <==> s.mobile.connecting_local && !info.active && !info.connecting
            &&& !after.state.mobile.refresh_pending && after.state.mobile.attempt == s.mobile.attempt
            &&& m.failed == s.snapshot.mobile.failed && m.enabled == s.snapshot.mobile.enabled && m.is_primary
                == s.snapshot.mobile.is_primary
        }),
{
}

/// The end of the current cellular operation is told: nothing is connecting any more, and whether it failed.
pub proof fn ended_operations_are_told(s: ServiceView, success: bool, enabled: bool)
    ensures
        ({
            let after = updated(s, NmUpdate::MobileOperationFinished { attempt: s.mobile.attempt, success });
            let m = after.state.snapshot.mobile;
            &&& m.failed == !success && !m.connecting && !after.state.mobile.connecting_local
            &&& m.active == s.snapshot.mobile.active && m.enabled == s.snapshot.mobile.enabled
            &&& !success ==> after.actions =~= seq![NmAction::Notify]
        }),
        updated(s, NmUpdate::MobileEnabled(enabled)).state.snapshot.mobile.enabled == Some(enabled),
        updated(s, NmUpdate::MobileEnabled(enabled)).actions.len() == 0 <==> s.snapshot.mobile.enabled == Some(enabled),
{
}

/// The flags of NetworkManager are shown. Wi-Fi that is switched off is not connected; without its link nothing is
/// known of the wired device; a link that is new is read.
pub proof fn flags_are_shown(s: ServiceView, flags: NmFlags, i: int)
    requires
        0 <= i < s.snapshot.wifi.networks.len(),
    ensures
        ({
            let after = flags_read(s, flags);
            let now = after.state.snapshot;
            let wired = flags.primary_connection_type matches Some(t) && t@ == "802-3-ethernet"@;
            let mobile = flags.primary_connection_type matches Some(t) && (t@ == "gsm"@ || t@ == "cdma"@);
            &&& now.wifi.enabled == flags.wifi_enabled && now.mobile.enabled == flags.mobile_enabled
            &&& now.wired.connected == wired && now.mobile.is_primary == mobile
            &&& chars_of(now.primary_connection_type) == chars_of(flags.primary_connection_type)
            &&& flags.wifi_enabled == Some(false) && s.snapshot.wifi.enabled != Some(false) ==> !now.wifi.connected
                && now.wifi.ssid is None && now.wifi.strength == 0 && !now.wifi.networks[i].active
            &&& flags.wifi_enabled != Some(false) ==> now.wifi.connected == s.snapshot.wifi.connected && now.wifi.networks
                == s.snapshot.wifi.networks
            &&& !wired && s.snapshot.wired.connected ==> now.wired.iface is None && now.wired.name is None
                && now.wired.speed is None
            &&& now.wired.has_device == s.snapshot.wired.has_device && now.available == s.snapshot.available
            &&& after.actions.contains(NmAction::FetchWiredInfo) <==> wired && !s.snapshot.wired.connected
            &&& after.actions.contains(NmAction::FetchMobileInfo) <==> mobile != s.snapshot.mobile.is_primary
            &&& after.actions.contains(NmAction::Notify) <==> s.snapshot.wifi.enabled != flags.wifi_enabled
                || s.snapshot.mobile.enabled != flags.mobile_enabled || chars_of(s.snapshot.primary_connection_type) != chars_of(
                flags.primary_connection_type,
            ) || wired != s.snapshot.wired.connected || mobile != s.snapshot.mobile.is_primary
        }),
{
    let after = flags_read(s, flags);
    let primary = flags.primary_connection_type;
    let actions = after.actions;
    let wired = flags.primary_connection_type matches Some(t) && t@ == "802-3-ethernet"@;
    let mobile = flags.primary_connection_type matches Some(t) && (t@ == "gsm"@ || t@ == "cdma"@);
    let changed = s.snapshot.wifi.enabled != flags.wifi_enabled || s.snapshot.mobile.enabled != flags.mobile_enabled
        || chars_of(s.snapshot.primary_connection_type) != chars_of(flags.primary_connection_type) || wired
        != s.snapshot.wired.connected || mobile != s.snapshot.mobile.is_primary;
    let n: int = if changed { 1 } else { 0 };
    let m: int = if wired && !s.snapshot.wired.connected { 1 } else { 0 };
    if changed {
        assert(actions[0] == NmAction::Notify);
    }
    if m == 1 {
        assert(actions[n] == NmAction::FetchWiredInfo);
    }
    if mobile != s.snapshot.mobile.is_primary {
        assert(actions[n + m] == NmAction::FetchMobileInfo);
    }
}

/// A network that is joined is told as being joined, and is the only one. The attempt before is given up, and
/// nothing counts as failed.
pub proof fn joined_networks_are_told(s: ServiceView, ssid: String)
    requires
        s.wifi.attempt < u64::MAX,
    ensures
        ({
            let after = wifi_joining(s, ssid);
            &&& after.state.snapshot.wifi.connecting_ssid == Some(ssid) && after.state.wifi.connecting_ssid == Some(ssid)
            &&& after.state.snapshot.wifi.failed_ssid is None && after.state.wifi.failed_ssid is None
            &&& after.state.wifi.attempt == s.wifi.attempt + 1 && after.state.wifi.activation_cancel
            &&& after.actions.last() == NmAction::Notify
            &&& after.actions.contains(NmAction::CancelWifiActivation) <==> s.wifi.activation_cancel
            &&& after.state.mobile == s.mobile && after.state.snapshot.mobile == s.snapshot.mobile
        }),
{
    reveal(shown);
    let after = wifi_joining(s, ssid);
    if s.wifi.activation_cancel {
        assert(after.actions[0] == NmAction::CancelWifiActivation);
    }
}

/// An attempt that is cancelled is no longer told, and its end no longer counts.
pub proof fn cancelled_attempts_are_not_told(s: ServiceView, ssid: String, success: bool, message: Option<String>)
    requires
        s.wifi.attempt < u64::MAX,
    ensures
        ({
            let after = wifi_cancelled(s);
            &&& after.state.snapshot.wifi.connecting_ssid is None && after.state.wifi.connecting_ssid is None
            &&& after.state.wifi.attempt == s.wifi.attempt + 1 && !after.state.wifi.activation_cancel
            &&& after.state.wifi.failed_ssid == s.wifi.failed_ssid
            &&& after.actions.last() == NmAction::Notify
            &&& after.actions.contains(NmAction::CancelWifiActivation) <==> s.wifi.activation_cancel
            &&& updated(
                after.state,
                NmUpdate::ConnectionAttemptFinished { attempt: s.wifi.attempt, ssid, success, message },
            ).state == after.state
        }),
        wifi_aborted(s).state.snapshot == s.snapshot,
{
    reveal(shown);
    let after = wifi_cancelled(s);
    if s.wifi.activation_cancel {
        assert(after.actions[0] == NmAction::CancelWifiActivation);
    }
}

/// The modem is shown as it is being switched, connected and disconnected. Each time the operation before is given
/// up, and its end no longer counts.
pub proof fn modem_operations_are_shown(s: ServiceView, enabled: bool, connect: bool, success: bool)
    requires
        s.mobile.attempt < u64::MAX,
    ensures
        ({
            let after = mobile_switching(s, enabled);
            let m = after.state.snapshot.mobile;
            &&& m.enabled == Some(enabled) && m.connecting == enabled && m.active == (enabled && s.snapshot.mobile.active)
            &&& after.state.mobile.connecting_local == enabled && after.state.mobile.attempt == s.mobile.attempt + 1
            &&& m.failed == s.snapshot.mobile.failed && after.actions.last() == NmAction::Notify
            &&& after.actions.contains(NmAction::CancelMobileActivation) <==> s.mobile.activation_cancel
        }),
        ({
            let after = mobile_starting(s, connect);
            let m = after.state.snapshot.mobile;
            &&& m.connecting == connect && after.state.mobile.connecting_local == connect
            &&& connect ==> !m.failed && m.active == s.snapshot.mobile.active
            &&& !connect ==> !m.active && m.failed == s.snapshot.mobile.failed
            &&& m.enabled == s.snapshot.mobile.enabled && after.state.mobile.activation_cancel
            &&& after.state.mobile.attempt == s.mobile.attempt + 1 && after.actions.first() == NmAction::Notify
            &&& after.actions.contains(NmAction::CancelMobileActivation) <==> s.mobile.activation_cancel
            &&& updated(
                after.state,
                NmUpdate::MobileOperationFinished { attempt: s.mobile.attempt, success },
            ).state == after.state
        }),
        mobile_cancelled(s).state.snapshot == s.snapshot && !mobile_cancelled(s).state.mobile.connecting_local,
        !mobile_cancelled(s).state.mobile.activation_cancel && mobile_cancelled(s).state.mobile.attempt == s.mobile.attempt + 1,
        !mobile_switching(s, enabled).state.mobile.activation_cancel,
{
    let switching = mobile_switching(s, enabled);
    let starting = mobile_starting(s, connect);
    if s.mobile.activation_cancel {
        assert(switching.actions[0] == NmAction::CancelMobileActivation);
        assert(starting.actions[1] == NmAction::CancelMobileActivation);
    }
}

proof fn lemma_first_wifi(devices: Seq<DeviceRead>, i: int)
    requires
        0 <= i < devices.len(),
        devices[i].device matches Some(d) && d.dtype == 2,
        forall|k: int| 0 <= k < i ==> !((#[trigger] devices[k]).device matches Some(d) && d.dtype == 2),
    ensures
        first_wifi(devices) == Some(devices[i]),
    decreases devices.len(),
{
    if i > 0 {
        let rest = devices.drop_first();
        assert(!(devices[0].device matches Some(d) && d.dtype == 2));
        assert forall|k: int| 0 <= k < i - 1 implies !((#[trigger] rest[k]).device matches Some(d) && d.dtype == 2) by {
            assert(rest[k] == devices[k + 1]);
        }
        lemma_first_wifi(rest, i - 1);
    }
}

/// Of the devices the first Wi-Fi device is told with its path and its interface, and whether there are wired ones and
/// modems at all.
pub proof fn listed_devices_are_told(devices: Seq<DeviceRead>, i: int)
    requires
        0 <= i < devices.len(),
    ensures
        ({
            let updates = discovery(devices);
            &&& (devices[i].device matches Some(d) && d.dtype == 1) ==> updates.contains(NmUpdate::EthernetDeviceExists)
            &&& (devices[i].device matches Some(d) && d.dtype == 8) ==> updates.contains(NmUpdate::ModemDeviceExists)
            &&& (devices[i].device matches Some(d) && d.dtype == 2) && (forall|k: int|
                0 <= k < i ==> !((#[trigger] devices[k]).device matches Some(d) && d.dtype == 2)) ==> updates.contains(
                NmUpdate::WifiDeviceFound { path: devices[i].path, iface_name: devices[i].device->0.iface },
            )
            &&& updates.contains(NmUpdate::EthernetDeviceExists) ==> exists|k: int|
                0 <= k < devices.len() && ((#[trigger] devices[k]).device matches Some(d) && d.dtype == 1)
            &&& updates.contains(NmUpdate::ModemDeviceExists) ==> exists|k: int|
                0 <= k < devices.len() && ((#[trigger] devices[k]).device matches Some(d) && d.dtype == 8)
        }),
{
    let updates = discovery(devices);
    let e: int = if has_type(devices, 1u32) { 1 } else { 0 };
    let m: int = if has_type(devices, 8u32) { 1 } else { 0 };
    if devices[i].device matches Some(d) && d.dtype == 1 {
        assert(has_type(devices, 1u32));
        assert(updates[0] == NmUpdate::EthernetDeviceExists);
    }
    if devices[i].device matches Some(d) && d.dtype == 8 {
        assert(has_type(devices, 8u32));
        assert(updates[e] == NmUpdate::ModemDeviceExists);
    }
    if (devices[i].device matches Some(d) && d.dtype == 2) && (forall|k: int|
        0 <= k < i ==> !((#[trigger] devices[k]).device matches Some(d) && d.dtype == 2)) {
        lemma_first_wifi(devices, i);
        assert(updates[e + m] == (NmUpdate::WifiDeviceFound {
            path: devices[i].path,
            iface_name: devices[i].device->0.iface,
        }));
    }
    if updates.contains(NmUpdate::EthernetDeviceExists) {
        assert(has_type(devices, 1u32));
        let k = choose|k: int|
            0 <= k < devices.len() && (#[trigger] devices[k]).device is Some && devices[k].device->0.dtype == 1;
        assert(devices[k].device matches Some(d) && d.dtype == 1);
    }
    if updates.contains(NmUpdate::ModemDeviceExists) {
        assert(has_type(devices, 8u32));
        let k = choose|k: int|
            0 <= k < devices.len() && (#[trigger] devices[k]).device is Some && devices[k].device->0.dtype == 8;
        assert(devices[k].device matches Some(d) && d.dtype == 8);
    }
}

/// A network is joined through the access point of the first row that has its SSID.
pub proof fn the_first_row_gives_the_access_point(networks: Seq<WifiNetwork>, ssid: Seq<char>, i: int)
    requires
        0 <= i < networks.len(),
        networks[i].ssid@ == ssid,
        forall|k: int| 0 <= k < i ==> (#[trigger] networks[k]).ssid@ != ssid,
    ensures
        access_point_of(networks, ssid) == networks[i].path,
    decreases networks.len(),
{
    if i > 0 {
        let rest = networks.drop_first();
        assert(networks[0].ssid@ != ssid);
        assert forall|k: int| 0 <= k < i - 1 implies (#[trigger] rest[k]).ssid@ != ssid by {
            assert(rest[k] == networks[k + 1]);
        }
        the_first_row_gives_the_access_point(rest, ssid, i - 1);
    }
}

/// NetworkManager on the bus is told as available, and its devices are listed. A change of a modem and the end of
/// sleep call for a look at the modem; the beginning of sleep and other interfaces do not.
pub proof fn the_bus_is_followed(s: ServiceView, flags: NmFlags, interface: Option<String>, preparing: Option<bool>)
    ensures
        ({
            let (there, timer) = heard(s, BusEvent::Appeared(flags));
            &&& there.state.snapshot.available && !timer
            &&& there.actions.last() == NmAction::DiscoverDevices
            &&& there.state.snapshot.wifi.enabled == flags.wifi_enabled
        }),
        heard(s, BusEvent::FlagsChanged(flags)).0 == flags_read(s, flags),
        heard(s, BusEvent::Vanished).0.state.snapshot.available == false,
        ({
            let (changed, timer) = heard(s, BusEvent::ModemChanged { interface });
            let concerns = interface matches Some(t) && (t@ == "org.freedesktop.ModemManager1.Modem"@ || t@
                == "org.freedesktop.ModemManager1.Modem.Modem3gpp"@);
            &&& timer <==> concerns && !s.mobile.refresh_pending
            &&& changed.state.mobile.refresh_pending <==> concerns || s.mobile.refresh_pending
            &&& changed.actions.len() == 0 && changed.state.snapshot == s.snapshot
        }),
        ({
            let (slept, timer) = heard(s, BusEvent::Sleep { preparing });
            &&& timer <==> preparing == Some(false) && !s.mobile.refresh_pending
            &&& slept.state.mobile.refresh_pending <==> preparing == Some(false) || s.mobile.refresh_pending
        }),
        heard(s, BusEvent::ModemsChanged).0.state.mobile.refresh_pending,
        heard(s, BusEvent::ModemsChanged).1 <==> !s.mobile.refresh_pending,
{
    reveal(shown);
}

/// A service begins with no attempt, no scan and no list, and knows no saved network.
pub proof fn services_begin_with_nothing()
    ensures
        ({
            let w = WifiInternalView::initial();
            &&& !w.scan_in_progress && w.iface_name is None && w.last_scan_value is None
            &&& w.known_ssids == Set::<Seq<char>>::empty() && w.known_ssids_last_refresh is None
            &&& w.connecting_ssid is None && w.failed_ssid is None && w.attempt == 0 && !w.activation_cancel
            &&& w.networks.len() == 0 && w.refresh_generation == 0 && w.device_state is None && w.active_ap is None
        }),
        ({
            let m = MobileInternal::initial();
            !m.refresh_pending && !m.connecting_local && m.attempt == 0 && !m.activation_cancel
        }),
{
}

} // verus!
