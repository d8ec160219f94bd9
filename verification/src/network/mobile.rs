//! Cellular status: what the modem and NetworkManager report, and connecting through them.

use vstd::prelude::*;
use vstd::string::*;
use crate::network::activation::WatchFailure;
use crate::network::service::MobileDeviceInfo;
use crate::network::settings::{
    get_object_path_prop, get_prop, get_string_prop, get_u32_prop, section, section_views,
    setting_views, settings_section, text_value, value, Section, SectionView, Setting,
    SettingValue, SettingView, ValueView,
};
use crate::text::{self, chars_of, trim};

verus! {

pub const MM_ACCESS_TECH_GSM: u32 = 0x2;

pub const MM_ACCESS_TECH_GSM_COMPACT: u32 = 0x4;

pub const MM_ACCESS_TECH_GPRS: u32 = 0x8;

pub const MM_ACCESS_TECH_EDGE: u32 = 0x10;

pub const MM_ACCESS_TECH_UMTS: u32 = 0x20;

pub const MM_ACCESS_TECH_HSDPA: u32 = 0x40;

pub const MM_ACCESS_TECH_HSUPA: u32 = 0x80;

pub const MM_ACCESS_TECH_HSPA_PLUS: u32 = 0x100;

pub const MM_ACCESS_TECH_LTE: u32 = 0x4000;

pub const MM_ACCESS_TECH_NR5G: u32 = 0x8000;

pub const MM_ACCESS_TECH_LTE_CAT_M: u32 = 0x80000;

pub const MM_ACCESS_TECH_LTE_NB_IOT: u32 = 0x100000;

/// Delay between a signal of ModemManager and the refresh that it causes, in milliseconds.
pub const MOBILE_REFRESH_DEBOUNCE_MS: u64 = 75;

/// Whether the primary connection is cellular.
pub open spec fn mobile_type(primary: Option<String>) -> bool {
    chars_of(primary) == Some("gsm"@) || chars_of(primary) == Some("cdma"@)
}

/// Whether the primary connection is cellular.
pub fn is_mobile_connected(primary_type: &Option<String>) -> (yes: bool)
    ensures
        yes == mobile_type(*primary_type),
{
    match primary_type {
        Some(t) => text::str_eq(t.as_str(), "gsm") || text::str_eq(t.as_str(), "cdma"),
        None => false,
    }
}

/// The `connecting` flag to show, and whether the local flag has served its purpose.
pub open spec fn resolved_connecting(local_flag: bool, dbus_active: bool, dbus_connecting: bool) -> (bool, bool) {
    (
        dbus_connecting || (local_flag && !dbus_active),
        local_flag && (dbus_active || dbus_connecting),
    )
}

/// Merges the local flag with what the bus reports.
///
/// The local flag is set when an attempt starts here. While the bus shows neither an active
/// nor a starting connection, the attempt is not visible there yet and the flag stands in.
pub fn resolve_mobile_connecting(local_flag: bool, dbus_active: bool, dbus_connecting: bool) -> (result: (bool, bool))
    ensures
        result == resolved_connecting(local_flag, dbus_active, dbus_connecting),
{
    if local_flag {
        if dbus_active || dbus_connecting {
            (dbus_connecting, true)
        } else {
            (true, false)
        }
    } else {
        (dbus_connecting, false)
    }
}

/// The label of the best technology among the bits.
pub open spec fn technology(bits: u32) -> Seq<char> {
    if bits & MM_ACCESS_TECH_NR5G != 0 {
        "5G"@
    } else if bits & MM_ACCESS_TECH_LTE_CAT_M != 0 || bits & MM_ACCESS_TECH_LTE_NB_IOT != 0 {
        "LTE+"@
    } else if bits & MM_ACCESS_TECH_LTE != 0 {
        "LTE"@
    } else if bits & MM_ACCESS_TECH_HSPA_PLUS != 0 {
        "HSPA+"@
    } else if bits & MM_ACCESS_TECH_HSDPA != 0 || bits & MM_ACCESS_TECH_HSUPA != 0 {
        "HSPA"@
    } else if bits & MM_ACCESS_TECH_UMTS != 0 {
        "3G"@
    } else if bits & MM_ACCESS_TECH_EDGE != 0 {
        "EDGE"@
    } else if bits & MM_ACCESS_TECH_GPRS != 0 || bits & MM_ACCESS_TECH_GSM != 0 || bits & MM_ACCESS_TECH_GSM_COMPACT != 0 {
        "2G"@
    } else {
        ""@
    }
}

/// A compact label for ModemManager's access technology bits.
pub fn access_technology_label(bits: u32) -> (label: &'static str)
    ensures
        label@ == technology(bits),
{
    if bits & MM_ACCESS_TECH_NR5G != 0 {
        "5G"
    } else if bits & MM_ACCESS_TECH_LTE_CAT_M != 0 || bits & MM_ACCESS_TECH_LTE_NB_IOT != 0 {
        "LTE+"
    } else if bits & MM_ACCESS_TECH_LTE != 0 {
        "LTE"
    } else if bits & MM_ACCESS_TECH_HSPA_PLUS != 0 {
        "HSPA+"
    } else if bits & MM_ACCESS_TECH_HSDPA != 0 || bits & MM_ACCESS_TECH_HSUPA != 0 {
        "HSPA"
    } else if bits & MM_ACCESS_TECH_UMTS != 0 {
        "3G"
    } else if bits & MM_ACCESS_TECH_EDGE != 0 {
        "EDGE"
    } else if bits & MM_ACCESS_TECH_GPRS != 0 || bits & MM_ACCESS_TECH_GSM != 0 || bits & MM_ACCESS_TECH_GSM_COMPACT != 0 {
        "2G"
    } else {
        ""
    }
}

/// What ModemManager reports.
#[derive(Debug)]
pub struct MobileInfo {
    pub has_modem: bool,
    pub has_sim: bool,
    pub signal_quality: Option<u32>,
    pub access_technology: Option<String>,
    pub operator_name: Option<String>,
}

/// What a [`MobileInfo`] holds.
pub struct MobileInfoView {
    pub has_modem: bool,
    pub has_sim: bool,
    pub signal_quality: Option<u32>,
    pub access_technology: Option<Seq<char>>,
    pub operator_name: Option<Seq<char>>,
}

impl View for MobileInfo {
    type V = MobileInfoView;

    open spec fn view(&self) -> MobileInfoView {
        MobileInfoView {
            has_modem: self.has_modem,
            has_sim: self.has_sim,
            signal_quality: self.signal_quality,
            access_technology: chars_of(self.access_technology),
            operator_name: chars_of(self.operator_name),
        }
    }
}

/// The signal quality of a modem; 0 if it gives none.
pub open spec fn signal_quality(modem: Seq<SettingView>) -> u32 {
    match value(modem, "SignalQuality"@) {
        Some(ValueView::Quality(quality, _)) => quality,
        Some(ValueView::Children(Some(quality))) => quality,
        _ => 0,
    }
}

/// The signal quality of a modem, as a pair or else as the first element of a container.
pub fn get_signal_quality_prop(modem: &Vec<Setting>) -> (quality: u32)
    ensures
        quality == signal_quality(setting_views(modem@)),
{
    match get_prop(modem, "SignalQuality") {
        Some(SettingValue::Quality(quality, _)) => *quality,
        Some(SettingValue::Children(Some(quality))) => *quality,
        _ => 0,
    }
}

/// The object path of the SIM, if the modem has one.
pub open spec fn has_sim_card(modem: Seq<SettingView>) -> bool {
    match value(modem, "Sim"@) {
        Some(ValueView::Path(p)) => p.len() > 0 && p != "/"@,
        _ => false,
    }
}

/// The interfaces of one object of ModemManager.
#[derive(Debug)]
pub struct ManagedObject {
    pub interfaces: Vec<Section>,
}

impl ManagedObject {
    /// The properties of the modem interface.
    pub open spec fn modem(self) -> Option<Seq<SettingView>> {
        section(section_views(self.interfaces@), "org.freedesktop.ModemManager1.Modem"@)
    }

    /// The properties of the 3GPP interface.
    pub open spec fn modem_3gpp(self) -> Option<Seq<SettingView>> {
        section(section_views(self.interfaces@), "org.freedesktop.ModemManager1.Modem.Modem3gpp"@)
    }

    /// What a modem with a SIM reports.
    pub open spec fn report(self) -> MobileInfoView {
        let modem = self.modem()->0;
        let bits = match value(modem, "AccessTechnologies"@) {
            Some(ValueView::Number(n)) => Some(n),
            _ => None,
        };
        let operator = match self.modem_3gpp() {
            Some(props) => text_value(props, "OperatorName"@),
            None => None,
        };
        MobileInfoView {
            has_modem: true,
            has_sim: true,
            signal_quality: Some(signal_quality(modem)),
            access_technology: if bits is Some && technology(bits->0).len() > 0 {
                Some(technology(bits->0))
            } else {
                None
            },
            operator_name: if operator is Some && trim(operator->0).len() > 0 { operator } else { None },
        }
    }
}

/// What the objects of ModemManager amount to: the first modem with a SIM counts.
pub open spec fn modem_report(objects: Seq<ManagedObject>, found: bool) -> MobileInfoView
    decreases objects.len(),
{
    if objects.len() == 0 {
        MobileInfoView {
            has_modem: found,
            has_sim: false,
            signal_quality: None,
            access_technology: None,
            operator_name: None,
        }
    } else {
        match objects[0].modem() {
            None => modem_report(objects.drop_first(), found),
            Some(modem) => if has_sim_card(modem) {
                objects[0].report()
            } else {
                modem_report(objects.drop_first(), true)
            },
        }
    }
}

/// Reads signal, operator and technology of the first modem with a SIM.
pub fn mobile_info_from_objects(objects: &Vec<ManagedObject>) -> (info: MobileInfo)
    ensures
        info@ == modem_report(objects@, false),
{
    let mut found_modem = false;
    let mut i: usize = 0;
    proof {
        assert(objects@.skip(0) =~= objects@);
    }
    while i < objects.len()
        invariant
            i <= objects@.len(),
            modem_report(objects@, false) == modem_report(objects@.skip(i as int), found_modem),
        decreases objects@.len() - i,
    {
        proof {
            assert(objects@.skip(i as int)[0] == objects@[i as int]);
            assert(objects@.skip(i as int).drop_first() =~= objects@.skip(i + 1));
        }
        let object = &objects[i];
        match settings_section(&object.interfaces, "org.freedesktop.ModemManager1.Modem") {
            None => {}
            Some(modem) => {
                let sim = get_object_path_prop(&modem.settings, "Sim");
                let has_sim = match &sim {
                    Some(p) => !p.as_str().is_empty() && !text::str_eq(p.as_str(), "/"),
                    None => false,
                };
                if has_sim {
                    return modem_with_sim(object, modem);
                }
                found_modem = true;
            }
        }
        i += 1;
    }
    MobileInfo {
        has_modem: found_modem,
        has_sim: false,
        signal_quality: None,
        access_technology: None,
        operator_name: None,
    }
}

fn modem_with_sim(object: &ManagedObject, modem: &Section) -> (info: MobileInfo)
    requires
        object.modem() == Some(setting_views(modem.settings@)),
    ensures
        info@ == object.report(),
{
    let access_technology = match get_u32_prop(&modem.settings, "AccessTechnologies") {
        Some(bits) => {
            let label = access_technology_label(bits);
            if label.is_empty() {
                None
            } else {
                Some(label.to_owned())
            }
        }
        None => None,
    };
    let operator = match settings_section(&object.interfaces, "org.freedesktop.ModemManager1.Modem.Modem3gpp") {
        Some(props) => get_string_prop(&props.settings, "OperatorName"),
        None => None,
    };
    let operator_name = match operator {
        Some(name) => {
            if text::trimmed(name.as_str()).as_str().is_empty() {
                None
            } else {
                Some(name)
            }
        }
        None => None,
    };
    MobileInfo {
        has_modem: true,
        has_sim: true,
        signal_quality: Some(get_signal_quality_prop(&modem.settings)),
        access_technology,
        operator_name,
    }
}

/// One active connection of NetworkManager.
#[derive(Debug)]
pub struct ActiveConnection {
    pub path: String,
    pub ctype: Option<String>,
    pub state: Option<u32>,
    pub id: Option<String>,
    /// Object path of its profile.
    pub connection: Option<String>,
}

/// What NetworkManager knows of cellular connections.
#[derive(Debug)]
pub struct MobileNmStatus {
    pub active: bool,
    pub connecting: bool,
    pub profile_name: Option<String>,
    pub active_name: Option<String>,
    pub profile_path: Option<String>,
    pub active_path: Option<String>,
}

/// Whether the connection is cellular.
pub open spec fn cellular(c: ActiveConnection) -> bool {
    mobile_type(c.ctype)
}

/// Whether the connection is cellular and active or starting.
pub open spec fn underway(c: ActiveConnection) -> bool {
    cellular(c) && (c.state == Some(1u32) || c.state == Some(2u32))
}

/// The first connection that is underway.
pub open spec fn first_underway(connections: Seq<ActiveConnection>) -> Option<ActiveConnection>
    decreases connections.len(),
{
    if connections.len() == 0 {
        None
    } else if underway(connections[0]) {
        Some(connections[0])
    } else {
        first_underway(connections.drop_first())
    }
}

/// The name of the connection underway, or else of the last cellular connection.
pub open spec fn shown_name(connections: Seq<ActiveConnection>, last: Option<String>) -> Option<String>
    decreases connections.len(),
{
    if connections.len() == 0 {
        last
    } else if underway(connections[0]) {
        connections[0].id
    } else if cellular(connections[0]) {
        shown_name(connections.drop_first(), connections[0].id)
    } else {
        shown_name(connections.drop_first(), last)
    }
}

/// A profile path that names an object.
pub open spec fn real_path(path: Option<String>) -> Option<String> {
    if path is Some && path->0@ != "/"@ {
        path
    } else {
        None
    }
}

/// The cellular status: the connection underway, and the first saved profile.
pub open spec fn nm_status(connections: Seq<ActiveConnection>, profile: Option<(String, String)>) -> MobileNmStatus {
    let c = first_underway(connections);
    let active_profile = if c is Some { real_path(c->0.connection) } else { None };
    MobileNmStatus {
        active: c is Some && c->0.state == Some(2u32),
        connecting: c is Some && c->0.state == Some(1u32),
        profile_name: match profile {
            Some((_, name)) => Some(name),
            None => None,
        },
        active_name: shown_name(connections, None),
        profile_path: match (active_profile, profile) {
            (Some(p), _) => Some(p),
            (None, Some((path, _))) => Some(path),
            (None, None) => None,
        },
        active_path: if c is Some { Some(c->0.path) } else { None },
    }
}

/// Derives the cellular status from the active connections and the first saved profile.
pub fn mobile_nm_status(connections: &Vec<ActiveConnection>, profile: Option<(String, String)>) -> (status: MobileNmStatus)
    ensures
        status == nm_status(connections@, profile),
{
    let mut active = false;
    let mut connecting = false;
    let mut active_name: Option<String> = None;
    let mut active_path: Option<String> = None;
    let mut active_profile: Option<String> = None;
    let mut found = false;
    let mut i: usize = 0;
    proof {
        assert(connections@.skip(0) =~= connections@);
    }
    while i < connections.len() && !found
        invariant
            i <= connections@.len(),
            found ==> first_underway(connections@) is Some,
            found ==> active == (first_underway(connections@)->0.state == Some(2u32)),
            found ==> connecting == (first_underway(connections@)->0.state == Some(1u32)),
            found ==> active_path == Some(first_underway(connections@)->0.path),
            found ==> active_profile == real_path(first_underway(connections@)->0.connection),
            found ==> active_name == shown_name(connections@, None),
            !found ==> !active && !connecting && active_path is None && active_profile is None,
            !found ==> first_underway(connections@) == first_underway(connections@.skip(i as int)),
            !found ==> shown_name(connections@, None) == shown_name(connections@.skip(i as int), active_name),
        decreases connections@.len() - i,
    {
        proof {
            assert(connections@.skip(i as int)[0] == connections@[i as int]);
            assert(connections@.skip(i as int).drop_first() =~= connections@.skip(i + 1));
        }
        let c = &connections[i];
        if is_mobile_connected(&c.ctype) {
            active_name = c.id.clone();
            let state: u32 = match c.state {
                Some(s) => s,
                None => 0,
            };
            if state == 1 || state == 2 {
                found = true;
                active = state == 2;
                connecting = state == 1;
                active_path = Some(c.path.clone());
                active_profile = match &c.connection {
                    Some(p) => {
                        if text::str_eq(p.as_str(), "/") {
                            None
                        } else {
                            Some(p.clone())
                        }
                    }
                    None => None,
                };
            }
        }
        i += 1;
    }
    proof {
        if !found {
            assert(connections@.skip(i as int).len() == 0);
        }
    }
    let (profile_name, first_profile) = match profile {
        Some((path, name)) => (Some(name), Some(path)),
        None => (None, None),
    };
    let profile_path = match active_profile {
        Some(p) => Some(p),
        None => first_profile,
    };
    MobileNmStatus { active, connecting, profile_name, active_name, profile_path, active_path }
}

/// A saved connection and its settings, if they could be read.
#[derive(Debug)]
pub struct SavedConnection {
    pub path: String,
    pub settings: Option<Vec<Section>>,
}

impl SavedConnection {
    /// A text of the section `connection`.
    pub open spec fn prop(self, key: Seq<char>) -> Option<Seq<char>> {
        match self.settings {
            Some(sections) => match section(section_views(sections@), "connection"@) {
                Some(props) => text_value(props, key),
                None => None,
            },
            None => None,
        }
    }

    /// Whether the connection is a cellular profile.
    pub open spec fn is_cellular(self) -> bool {
        self.prop("type"@) == Some("gsm"@) || self.prop("type"@) == Some("cdma"@)
    }
}

/// Extracts a text from the section `connection` of the settings.
pub fn parse_connection_prop(sections: &Vec<Section>, key: &str) -> (found: Option<String>)
    ensures
        chars_of(found) == (match section(section_views(sections@), "connection"@) {
            Some(props) => text_value(props, key@),
            None => None,
        }),
{
    match settings_section(sections, "connection") {
        Some(props) => get_string_prop(&props.settings, key),
        None => None,
    }
}

/// The first cellular profile among saved connections.
pub open spec fn first_cellular(saved: Seq<SavedConnection>) -> Option<SavedConnection>
    decreases saved.len(),
{
    if saved.len() == 0 {
        None
    } else if saved[0].is_cellular() {
        Some(saved[0])
    } else {
        first_cellular(saved.drop_first())
    }
}

/// Path and display name of the first cellular profile.
pub fn find_first_mobile_profile(saved: &Vec<SavedConnection>) -> (profile: Option<(String, String)>)
    ensures
        match (profile, first_cellular(saved@)) {
            (Some((path, name)), Some(c)) => {
                &&& path == c.path
                &&& name@ == (match c.prop("id"@) {
                    Some(id) => id,
                    None => Seq::empty(),
                })
            },
            (None, None) => true,
            _ => false,
        },
{
    let mut i: usize = 0;
    proof {
        assert(saved@.skip(0) =~= saved@);
    }
    while i < saved.len()
        invariant
            i <= saved@.len(),
            first_cellular(saved@) == first_cellular(saved@.skip(i as int)),
        decreases saved@.len() - i,
    {
        proof {
            assert(saved@.skip(i as int)[0] == saved@[i as int]);
            assert(saved@.skip(i as int).drop_first() =~= saved@.skip(i + 1));
        }
        match &saved[i].settings {
            Some(sections) => {
                let ctype = parse_connection_prop(sections, "type");
                if is_mobile_connected(&ctype) {
                    let name = match parse_connection_prop(sections, "id") {
                        Some(id) => id,
                        None => String::new(),
                    };
                    return Some((saved[i].path.clone(), name));
                }
            }
            None => {}
        }
        i += 1;
    }
    None
}

/// What the service is told of the modem: cellular use is supported with a modem, a SIM and a
/// profile, and the profile's name stands in for a connection's only then.
pub fn mobile_device_info(status: MobileNmStatus, info: MobileInfo) -> (update: MobileDeviceInfo)
    ensures
        ({
            let supported = info.has_modem && info.has_sim && status.profile_name is Some;
            update == (MobileDeviceInfo {
                conn_name: (if status.active_name is Some {
                    status.active_name
                } else if supported {
                    status.profile_name
                } else {
                    None
                }),
                operator_name: info.operator_name,
                access_technology: info.access_technology,
                signal_quality: info.signal_quality,
                active: status.active,
                connecting: status.connecting,
                supported,
                has_modem: info.has_modem,
            })
        }),
{
    let supported = info.has_modem && info.has_sim && status.profile_name.is_some();
    let conn_name = match status.active_name {
        Some(name) => Some(name),
        None => {
            if supported {
                status.profile_name
            } else {
                None
            }
        }
    };
    MobileDeviceInfo {
        conn_name,
        operator_name: info.operator_name,
        access_technology: info.access_technology,
        signal_quality: info.signal_quality,
        active: status.active,
        connecting: status.connecting,
        supported,
        has_modem: info.has_modem,
    }
}

/// Why a cellular operation failed.
#[derive(Debug)]
pub enum MobileFailure {
    Cancelled,
    NoProfile,
    CallFailed(String),
    InvalidActivationPath,
    NotConnected(WatchFailure),
}

impl MobileFailure {
    /// The failure in words.
    pub open spec fn words(self) -> Seq<char> {
        match self {
            MobileFailure::Cancelled => "Connection cancelled"@,
            MobileFailure::NoProfile => "No GSM/CDMA profile found"@,
            MobileFailure::CallFailed(e) => e@,
            MobileFailure::InvalidActivationPath => "Invalid activation path"@,
            MobileFailure::NotConnected(f) => f.words(),
        }
    }

    pub fn message(&self) -> (text: String)
        ensures
            text@ == self.words(),
    {
        match self {
            MobileFailure::Cancelled => "Connection cancelled".to_owned(),
            MobileFailure::NoProfile => "No GSM/CDMA profile found".to_owned(),
            MobileFailure::CallFailed(e) => e.clone(),
            MobileFailure::InvalidActivationPath => "Invalid activation path".to_owned(),
            MobileFailure::NotConnected(f) => f.message(),
        }
    }
}

/// How far a cellular operation has come.
#[derive(Debug)]
pub enum MobileStage {
    Disconnecting,
    Activating,
    Waiting { active: String },
    CleaningUp { failure: MobileFailure },
    Done,
}

/// The call to make next.
#[derive(Debug)]
pub enum MobileCall {
    Activate { profile: String },
    Deactivate { active: String },
    Wait { active: String },
    Finish(Result<(), MobileFailure>),
    /// The reply does not belong to this stage.
    Nothing,
}

/// What came back of a call.
#[derive(Debug)]
pub enum MobileReply {
    /// The path of the activation; `Ok(None)` if the reply holds none.
    Activated(Result<Option<String>, String>),
    Deactivated(Result<(), String>),
    Waited(Result<(), WatchFailure>),
}

/// The first call of a cellular operation.
pub open spec fn mobile_begin(status: MobileNmStatus, connect: bool, cancelled: bool) -> (MobileStage, MobileCall) {
    if cancelled {
        (MobileStage::Done, MobileCall::Finish(Err(MobileFailure::Cancelled)))
    } else if !connect {
        match status.active_path {
            Some(active) => (MobileStage::Disconnecting, MobileCall::Deactivate { active }),
            None => (MobileStage::Done, MobileCall::Finish(Ok(()))),
        }
    } else {
        match status.profile_path {
            Some(profile) => (MobileStage::Activating, MobileCall::Activate { profile }),
            None => (MobileStage::Done, MobileCall::Finish(Err(MobileFailure::NoProfile))),
        }
    }
}

/// The stage and the call that follow a reply. `cancelled` tells whether the operation has
/// been cancelled by the time of the reply.
pub open spec fn mobile_next(stage: MobileStage, reply: MobileReply, cancelled: bool) -> (MobileStage, MobileCall) {
    match (stage, reply) {
        (MobileStage::Disconnecting, MobileReply::Deactivated(r)) => (
            MobileStage::Done,
            MobileCall::Finish(
                match r {
                    Ok(_) => Ok(()),
                    Err(e) => Err(MobileFailure::CallFailed(e)),
                },
            ),
        ),
        (MobileStage::Activating, MobileReply::Activated(r)) => match r {
            Err(e) => (MobileStage::Done, MobileCall::Finish(Err(MobileFailure::CallFailed(e)))),
            Ok(None) => (MobileStage::Done, MobileCall::Finish(Err(MobileFailure::InvalidActivationPath))),
            Ok(Some(active)) => if cancelled {
                (MobileStage::CleaningUp { failure: MobileFailure::Cancelled }, MobileCall::Deactivate { active })
            } else {
                (MobileStage::Waiting { active }, MobileCall::Wait { active })
            },
        },
        (MobileStage::Waiting { active }, MobileReply::Waited(r)) => match r {
            Err(f) => (
                MobileStage::CleaningUp { failure: MobileFailure::NotConnected(f) },
                MobileCall::Deactivate { active },
            ),
            Ok(_) => if cancelled {
                (MobileStage::CleaningUp { failure: MobileFailure::Cancelled }, MobileCall::Deactivate { active })
            } else {
                (MobileStage::Done, MobileCall::Finish(Ok(())))
            },
        },
        (MobileStage::CleaningUp { failure }, MobileReply::Deactivated(_)) => (
            MobileStage::Done,
            MobileCall::Finish(Err(failure)),
        ),
        _ => (stage, MobileCall::Nothing),
    }
}

/// A cellular operation.
#[derive(Debug)]
pub struct MobileConnection {
    pub stage: MobileStage,
}

impl MobileConnection {
    /// Begins to connect or disconnect.
    pub fn mobile_connection(status: &MobileNmStatus, connect: bool, cancelled: bool) -> (begun: (MobileConnection, MobileCall))
        ensures
            (begun.0.stage, begun.1) == mobile_begin(*status, connect, cancelled),
    {
        if cancelled {
            return (
                MobileConnection { stage: MobileStage::Done },
                MobileCall::Finish(Err(MobileFailure::Cancelled)),
            );
        }
        if !connect {
            match &status.active_path {
                Some(active) => (
                    MobileConnection { stage: MobileStage::Disconnecting },
                    MobileCall::Deactivate { active: active.clone() },
                ),
                None => (MobileConnection { stage: MobileStage::Done }, MobileCall::Finish(Ok(()))),
            }
        } else {
            match &status.profile_path {
                Some(profile) => (
                    MobileConnection { stage: MobileStage::Activating },
                    MobileCall::Activate { profile: profile.clone() },
                ),
                None => (
                    MobileConnection { stage: MobileStage::Done },
                    MobileCall::Finish(Err(MobileFailure::NoProfile)),
                ),
            }
        }
    }

    /// Takes in a reply and returns the next call.
    pub fn step(&mut self, reply: MobileReply, cancelled: bool) -> (call: MobileCall)
        ensures
            (final(self).stage, call) == mobile_next(old(self).stage, reply, cancelled),
    {
        let mut stage = MobileStage::Done;
        std::mem::swap(&mut self.stage, &mut stage);
        match (stage, reply) {
            (MobileStage::Disconnecting, MobileReply::Deactivated(r)) => match r {
                Ok(_) => MobileCall::Finish(Ok(())),
                Err(e) => MobileCall::Finish(Err(MobileFailure::CallFailed(e))),
            },
            (MobileStage::Activating, MobileReply::Activated(r)) => match r {
                Err(e) => MobileCall::Finish(Err(MobileFailure::CallFailed(e))),
                Ok(None) => MobileCall::Finish(Err(MobileFailure::InvalidActivationPath)),
                Ok(Some(active)) => {
                    if cancelled {
                        self.stage = MobileStage::CleaningUp { failure: MobileFailure::Cancelled };
                        MobileCall::Deactivate { active }
                    } else {
                        self.stage = MobileStage::Waiting { active: active.clone() };
                        MobileCall::Wait { active }
                    }
                }
            },
            (MobileStage::Waiting { active }, MobileReply::Waited(r)) => match r {
                Err(f) => {
                    self.stage = MobileStage::CleaningUp { failure: MobileFailure::NotConnected(f) };
                    MobileCall::Deactivate { active }
                }
                Ok(_) => {
                    if cancelled {
                        self.stage = MobileStage::CleaningUp { failure: MobileFailure::Cancelled };
                        MobileCall::Deactivate { active }
                    } else {
                        MobileCall::Finish(Ok(()))
                    }
                }
            },
            (MobileStage::CleaningUp { failure }, MobileReply::Deactivated(_)) => MobileCall::Finish(Err(failure)),
            (other, _) => {
                self.stage = other;
                MobileCall::Nothing
            }
        }
    }
}

/// An activation that came back is deactivated again unless it connected and was not
/// cancelled, and the operation then fails.
pub proof fn mobile_activation_is_cleaned_up(active: String, ended: Result<(), WatchFailure>, cancelled: bool, reply: Result<(), String>, later: bool)
    requires
        ended is Err || cancelled,
    ensures
        ({
            let (stage, call) = mobile_next(MobileStage::Waiting { active }, MobileReply::Waited(ended), cancelled);
            &&& call == (MobileCall::Deactivate { active })
            &&& mobile_next(stage, MobileReply::Deactivated(reply), later).1 matches MobileCall::Finish(r) && r is Err
        }),
{
}

/// Of the technologies that a modem tells the most recent is shown.
pub proof fn the_most_recent_technology_is_shown(bits: u32)
    ensures
        (bits / 0x8000) % 2 == 1 ==> technology(bits) == "5G"@,
        (bits / 0x8000) % 2 == 0 && ((bits / 0x8_0000) % 2 == 1 || (bits / 0x10_0000) % 2 == 1) ==> technology(bits)
            == "LTE+"@,
        bits == 0x4000 ==> technology(bits) == "LTE"@,
        bits == 0x100 ==> technology(bits) == "HSPA+"@,
        bits == 0x40 || bits == 0x80 ==> technology(bits) == "HSPA"@,
        bits == 0x20 ==> technology(bits) == "3G"@,
        bits == 0x10 ==> technology(bits) == "EDGE"@,
        bits == 2 || bits == 4 || bits == 8 ==> technology(bits) == "2G"@,
        bits % 2 == bits ==> technology(bits) == ""@,
        bits < 0x8000 && bits >= 0x4000 ==> technology(bits) == "LTE"@,
        0x100 <= bits < 0x200 ==> technology(bits) == "HSPA+"@,
        0x40 <= bits < 0x100 ==> technology(bits) == "HSPA"@,
        0x20 <= bits < 0x40 ==> technology(bits) == "3G"@,
        0x10 <= bits < 0x20 ==> technology(bits) == "EDGE"@,
        2 <= bits < 0x10 ==> technology(bits) == "2G"@,
{
    assert((bits & 0x8000 != 0) <==> (bits / 0x8000) % 2 == 1) by (bit_vector);
    assert((bits & 0x8_0000 != 0) <==> (bits / 0x8_0000) % 2 == 1) by (bit_vector);
    assert((bits & 0x10_0000 != 0) <==> (bits / 0x10_0000) % 2 == 1) by (bit_vector);
    assert(bits < 0x8000 ==> bits & 0x8000 == 0 && bits & 0x8_0000 == 0 && bits & 0x10_0000 == 0) by (bit_vector);
    assert(0x4000 <= bits && bits < 0x8000 ==> bits & 0x4000 != 0) by (bit_vector);
    assert(bits < 0x4000 ==> bits & 0x4000 == 0) by (bit_vector);
    assert(0x100 <= bits && bits < 0x200 ==> bits & 0x100 != 0) by (bit_vector);
    assert(bits < 0x100 ==> bits & 0x100 == 0) by (bit_vector);
    assert(0x40 <= bits && bits < 0x100 ==> bits & 0x40 != 0 || bits & 0x80 != 0) by (bit_vector);
    assert(bits < 0x40 ==> bits & 0x40 == 0 && bits & 0x80 == 0) by (bit_vector);
    assert(0x20 <= bits && bits < 0x40 ==> bits & 0x20 != 0) by (bit_vector);
    assert(bits < 0x20 ==> bits & 0x20 == 0) by (bit_vector);
    assert(0x10 <= bits && bits < 0x20 ==> bits & 0x10 != 0) by (bit_vector);
    assert(bits < 0x10 ==> bits & 0x10 == 0) by (bit_vector);
    assert(2 <= bits && bits < 0x10 ==> bits & 2 != 0 || bits & 4 != 0 || bits & 8 != 0) by (bit_vector);
    assert(bits < 2 ==> bits & 2 == 0 && bits & 4 == 0 && bits & 8 == 0) by (bit_vector);
}

proof fn lemma_first_underway(connections: Seq<ActiveConnection>, i: int)
    requires
        0 <= i < connections.len(),
        is_underway(connections[i]),
        forall|k: int| 0 <= k < i ==> !is_underway(#[trigger] connections[k]),
    ensures
        first_underway(connections) == Some(connections[i]),
        forall|last: Option<String>| #[trigger] shown_name(connections, last) == connections[i].id,
    decreases connections.len(),
{
    if i > 0 {
        let rest = connections.drop_first();
        assert(!is_underway(connections[0]));
        assert forall|k: int| 0 <= k < i - 1 implies !is_underway(#[trigger] rest[k]) by {
            assert(rest[k] == connections[k + 1]);
        }
        lemma_first_underway(rest, i - 1);
        assert forall|last: Option<String>| #[trigger] shown_name(connections, last) == connections[i].id by {
            let next = if cellular(connections[0]) { connections[0].id } else { last };
            assert(shown_name(connections, last) == shown_name(rest, next));
        }
    }
}

/// Whether a connection is cellular, and active or starting.
pub open spec fn is_underway(c: ActiveConnection) -> bool {
    &&& c.ctype matches Some(t) && (t@ == "gsm"@ || t@ == "cdma"@)
    &&& c.state == Some(1u32) || c.state == Some(2u32)
}

/// The first cellular connection that is active or starting counts, with its name, its path and its profile; without
/// a profile of its own the first that is saved.
pub proof fn the_first_cellular_connection_counts(
    connections: Seq<ActiveConnection>,
    profile: Option<(String, String)>,
    i: int,
)
    requires
        0 <= i < connections.len(),
        is_underway(connections[i]),
        forall|k: int| 0 <= k < i ==> !is_underway(#[trigger] connections[k]),
    ensures
        ({
            let c = connections[i];
            let status = nm_status(connections, profile);
            &&& status.active <==> c.state == Some(2u32)
            &&& status.connecting <==> c.state == Some(1u32)
            &&& status.active_path == Some(c.path) && status.active_name == c.id
            &&& c.connection is Some && c.connection->0@ != "/"@ ==> status.profile_path == c.connection
            &&& (c.connection is None || c.connection->0@ == "/"@) ==> status.profile_path == (match profile {
                Some((path, _)) => Some(path),
                None => None,
            })
            &&& status.profile_name == (match profile {
                Some((_, name)) => Some(name),
                None => None,
            })
        }),
{
    lemma_first_underway(connections, i);
}

proof fn lemma_none_underway(connections: Seq<ActiveConnection>)
    requires
        forall|k: int| 0 <= k < connections.len() ==> !is_underway(#[trigger] connections[k]),
    ensures
        first_underway(connections) is None,
    decreases connections.len(),
{
    if connections.len() > 0 {
        let rest = connections.drop_first();
        assert(!is_underway(connections[0]));
        assert forall|k: int| 0 <= k < rest.len() implies !is_underway(#[trigger] rest[k]) by {
            assert(rest[k] == connections[k + 1]);
        }
        lemma_none_underway(rest);
    }
}

/// Without such a connection nothing is active or starting, and the first profile that is saved stands ready.
pub proof fn nothing_underway_is_told(connections: Seq<ActiveConnection>, profile: Option<(String, String)>)
    requires
        forall|k: int| 0 <= k < connections.len() ==> !is_underway(#[trigger] connections[k]),
    ensures
        ({
            let status = nm_status(connections, profile);
            &&& !status.active && !status.connecting && status.active_path is None
            &&& status.profile_path == (match profile {
                Some((path, _)) => Some(path),
                None => None,
            })
        }),
{
    lemma_none_underway(connections);
}

/// A flag that was set here shows as connecting until the bus shows the connection itself, and has then served its
/// purpose.
pub proof fn local_flags_stand_in_for_the_bus(local: bool, active: bool, connecting: bool)
    ensures
        ({
            let (shown, served) = resolved_connecting(local, active, connecting);
            &&& connecting ==> shown
            &&& !connecting ==> (shown <==> local && !active)
            &&& served <==> local && (active || connecting)
        }),
{
}

/// A modem is connected with its profile and disconnected by its connection. Without a profile connecting fails, and
/// without a connection there is nothing to disconnect.
pub proof fn modems_are_connected_by_profile(status: MobileNmStatus, e: String)
    ensures
        status.profile_path matches Some(profile) ==> mobile_begin(status, true, false).1 == (MobileCall::Activate {
            profile,
        }),
        status.profile_path is None ==> mobile_begin(status, true, false).1 == MobileCall::Finish(
            Err(MobileFailure::NoProfile),
        ),
        status.active_path matches Some(active) ==> mobile_begin(status, false, false).1 == (MobileCall::Deactivate {
            active,
        }),
        status.active_path is None ==> mobile_begin(status, false, false).1 == MobileCall::Finish(Ok(())),
        mobile_begin(status, true, true).1 == MobileCall::Finish(Err(MobileFailure::Cancelled)),
        mobile_begin(status, false, true).1 == MobileCall::Finish(Err(MobileFailure::Cancelled)),
        mobile_next(MobileStage::Activating, MobileReply::Activated(Err(e)), false).1 == MobileCall::Finish(
            Err(MobileFailure::CallFailed(e)),
        ),
        mobile_next(MobileStage::Activating, MobileReply::Activated(Ok(Some(e))), false).1 == (MobileCall::Wait {
            active: e,
        }),
        mobile_next(MobileStage::Activating, MobileReply::Activated(Ok(Some(e))), true).1 == (MobileCall::Deactivate {
            active: e,
        }),
        mobile_next(MobileStage::Waiting { active: e }, MobileReply::Waited(Ok(())), false).1 == MobileCall::Finish(
            Ok(()),
        ),
        mobile_next(MobileStage::Disconnecting, MobileReply::Deactivated(Ok(())), false).1 == MobileCall::Finish(Ok(())),
        mobile_next(MobileStage::Disconnecting, MobileReply::Deactivated(Err(e)), false).1 == MobileCall::Finish(
            Err(MobileFailure::CallFailed(e)),
        ),
{
}

/// Whether an object is a modem with a SIM.
pub open spec fn is_modem_with_sim(o: ManagedObject) -> bool {
    section(section_views(o.interfaces@), "org.freedesktop.ModemManager1.Modem"@) matches Some(modem) && (value(
        modem,
        "Sim"@,
    ) matches Some(ValueView::Path(p)) && p.len() > 0 && p != "/"@)
}

/// The first modem with a SIM is told of: its signal, its technology and its operator, unless that is blank.
pub proof fn the_first_modem_with_a_sim_is_told(objects: Seq<ManagedObject>, found: bool, i: int)
    requires
        0 <= i < objects.len(),
        is_modem_with_sim(objects[i]),
        forall|k: int| 0 <= k < i ==> !is_modem_with_sim(#[trigger] objects[k]),
    ensures
        ({
            let told = modem_report(objects, found);
            let modem = section(section_views(objects[i].interfaces@), "org.freedesktop.ModemManager1.Modem"@)->0;
            let gpp = section(section_views(objects[i].interfaces@), "org.freedesktop.ModemManager1.Modem.Modem3gpp"@);
            &&& told.has_modem && told.has_sim
            &&& value(modem, "SignalQuality"@) matches Some(ValueView::Quality(q, _)) ==> told.signal_quality == Some(q)
            &&& value(modem, "AccessTechnologies"@) matches Some(ValueView::Number(n)) ==> (technology(n).len() > 0
                ==> told.access_technology == Some(technology(n)))
            &&& gpp matches Some(props) ==> (value(props, "OperatorName"@) matches Some(ValueView::Text(t)) ==> (trim(
                t,
            ).len() > 0 ==> told.operator_name == Some(t)) && (trim(t).len() == 0 ==> told.operator_name is None))
            &&& gpp is None ==> told.operator_name is None
        }),
    decreases objects.len(),
{
    if i > 0 {
        let rest = objects.drop_first();
        assert(!is_modem_with_sim(objects[0]));
        assert forall|k: int| 0 <= k < i - 1 implies !is_modem_with_sim(#[trigger] rest[k]) by {
            assert(rest[k] == objects[k + 1]);
        }
        the_first_modem_with_a_sim_is_told(rest, found || objects[0].modem() is Some, i - 1);
    }
}

/// The signal of a modem is the number that it gives, alone or with whether it is recent; a modem that gives none has
/// none. A SIM is there when its path leads somewhere.
pub proof fn modems_tell_signal_and_sim(modem: Seq<SettingView>, quality: u32, recent: bool, path: Seq<char>)
    ensures
        value(modem, "SignalQuality"@) == Some(ValueView::Quality(quality, recent)) ==> signal_quality(modem) == quality,
        value(modem, "SignalQuality"@) == Some(ValueView::Children(Some(quality))) ==> signal_quality(modem) == quality,
        value(modem, "SignalQuality"@) is None ==> signal_quality(modem) == 0,
        value(modem, "Sim"@) == Some(ValueView::Path(path)) && path.len() > 1 ==> has_sim_card(modem),
        value(modem, "Sim"@) == Some(ValueView::Path(path)) && (path.len() == 0 || path == "/"@) ==> !has_sim_card(modem),
        value(modem, "Sim"@) is None ==> !has_sim_card(modem),
{
    reveal_strlit("/");
    assert("/"@.len() == 1);
}

spec fn cellular_type(c: SavedConnection) -> bool {
    c.prop("type"@) == Some("gsm"@) || c.prop("type"@) == Some("cdma"@)
}

/// The first saved connection of the type `gsm` or `cdma` is the profile that is used; without one there is none.
pub proof fn the_first_cellular_profile_is_used(saved: Seq<SavedConnection>, i: int)
    ensures
        0 <= i < saved.len() && (saved[i].prop("type"@) == Some("gsm"@) || saved[i].prop("type"@) == Some("cdma"@)) && (
        forall|k: int|
            0 <= k < i ==> (#[trigger] saved[k]).prop("type"@) != Some("gsm"@) && saved[k].prop("type"@) != Some("cdma"@))
            ==> first_cellular(saved) == Some(saved[i]),
        (forall|k: int|
            0 <= k < saved.len() ==> (#[trigger] saved[k]).prop("type"@) != Some("gsm"@) && saved[k].prop("type"@) != Some(
                "cdma"@,
            )) ==> first_cellular(saved) is None,
    decreases saved.len(),
{
    if saved.len() > 0 {
        let rest = saved.drop_first();
        the_first_cellular_profile_is_used(rest, i - 1);
        assert(forall|k: int| 0 <= k < rest.len() ==> #[trigger] rest[k] == saved[k + 1]);
        assert(saved[0].is_cellular() == cellular_type(saved[0]));
        if i > 0 && i < saved.len() {
            assert(rest[i - 1] == saved[i]);
        }
    }
}

/// Texts of a profile stand in its section `connection`; without that there are none.
pub proof fn profiles_are_named_in_their_connection(c: SavedConnection, key: Seq<char>)
    ensures
        c.settings is None ==> c.prop(key) is None,
        c.settings is Some && section(section_views(c.settings->0@), "connection"@) is None ==> c.prop(key) is None,
        c.settings is Some && section(section_views(c.settings->0@), "connection"@) is Some ==> c.prop(key) == text_value(
            section(section_views(c.settings->0@), "connection"@)->0,
            key,
        ),
{
}

/// A connection is cellular by the two types that NetworkManager has for that.
pub proof fn cellular_links_are_told_by_type(primary: Option<String>)
    ensures
        primary is None ==> !mobile_type(primary),
        primary is Some ==> (mobile_type(primary) <==> primary->0@ == "gsm"@ || primary->0@ == "cdma"@),
{
}

/// What went wrong is told in words; what a call told is passed on.
pub proof fn failed_calls_are_told(e: String, f: WatchFailure)
    ensures
        MobileFailure::CallFailed(e).words() == e@,
        MobileFailure::NotConnected(f).words() == f.words(),
        MobileFailure::NoProfile.words() == "No GSM/CDMA profile found"@,
        MobileFailure::Cancelled.words() == "Connection cancelled"@,
        MobileFailure::InvalidActivationPath.words() == "Invalid activation path"@,
{
}

} // verus!
