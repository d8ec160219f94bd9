//! Joining a Wi-Fi network: which call follows which reply, from the first look at the access
//! point to a saved profile or a clean retreat.

use vstd::prelude::*;
use vstd::string::*;
use vstd::utf8::encode_utf8;
use crate::network::activation::WatchFailure;
use crate::network::settings::{
    needs_password, new_profile, new_wifi_settings, section_views, setting_views, Section, SectionView, Setting,
    SettingValue, SettingView, ValueView,
};
use crate::text::{self, chars_of};

verus! {

/// What was read of the access point.
#[derive(Debug)]
pub struct ApProperties {
    pub ssid: Option<Vec<u8>>,
    pub flags: Option<u32>,
    pub wpa_flags: Option<u32>,
    pub rsn_flags: Option<u32>,
}

/// Why an activation call failed.
#[derive(Debug)]
pub enum ActivateError {
    /// NetworkManager answered with the D-Bus error of that name.
    Refused { name: Option<String>, message: String },
    /// A path is not an object path.
    BadPath(String),
}

/// Why joining failed.
#[derive(Debug)]
pub enum JoinFailure {
    NotVisible,
    ReadFailed(String),
    InvalidProperties,
    SsidMismatch,
    Cancelled,
    BadPath(String),
    ActivateFailed(String),
    AddFailed(String),
    InvalidProfilePath,
    InvalidActivationPath,
    PasswordRequired,
    NotConnected(WatchFailure),
}

impl JoinFailure {
    /// The failure in words.
    pub open spec fn words(self) -> Seq<char> {
        match self {
            JoinFailure::NotVisible => "Wi-Fi network is no longer visible"@,
            JoinFailure::ReadFailed(e) => "GetAll: "@ + e@,
            JoinFailure::InvalidProperties => "Invalid properties reply"@,
            JoinFailure::SsidMismatch => "Wi-Fi access point no longer matches the selected network"@,
            JoinFailure::Cancelled => "Connection cancelled"@,
            JoinFailure::BadPath(e) => e@,
            JoinFailure::ActivateFailed(e) => "ActivateConnection: "@ + e@,
            JoinFailure::AddFailed(e) => "AddAndActivateConnection2: "@ + e@,
            JoinFailure::InvalidProfilePath => "Invalid profile path"@,
            JoinFailure::InvalidActivationPath => "Invalid activation path"@,
            JoinFailure::PasswordRequired => "Wi-Fi password is required"@,
            JoinFailure::NotConnected(f) => f.words(),
        }
    }

    pub fn message(&self) -> (text: String)
        ensures
            text@ == self.words(),
    {
        match self {
            JoinFailure::NotVisible => "Wi-Fi network is no longer visible".to_owned(),
            JoinFailure::ReadFailed(e) => "GetAll: ".to_owned().concat(e.as_str()),
            JoinFailure::InvalidProperties => "Invalid properties reply".to_owned(),
            JoinFailure::SsidMismatch => {
                "Wi-Fi access point no longer matches the selected network".to_owned()
            }
            JoinFailure::Cancelled => "Connection cancelled".to_owned(),
            JoinFailure::BadPath(e) => e.clone(),
            JoinFailure::ActivateFailed(e) => "ActivateConnection: ".to_owned().concat(e.as_str()),
            JoinFailure::AddFailed(e) => "AddAndActivateConnection2: ".to_owned().concat(e.as_str()),
            JoinFailure::InvalidProfilePath => "Invalid profile path".to_owned(),
            JoinFailure::InvalidActivationPath => "Invalid activation path".to_owned(),
            JoinFailure::PasswordRequired => "Wi-Fi password is required".to_owned(),
            JoinFailure::NotConnected(f) => f.message(),
        }
    }
}

/// How joining ended.
#[derive(Debug)]
pub enum JoinOutcome {
    Connected,
    /// Connected, but the new profile could not be saved.
    ConnectedUnsaved(String),
    Failed(JoinFailure),
}

impl JoinOutcome {
    /// Whether the device is connected, and what there is to tell about it.
    pub fn result(&self) -> (result: Result<Option<String>, String>)
        ensures
            match *self {
                JoinOutcome::Connected => result == Ok::<Option<String>, String>(None),
                JoinOutcome::ConnectedUnsaved(e) => result is Ok && chars_of(result->Ok_0) == Some("Update2: "@ + e@),
                JoinOutcome::Failed(f) => result is Err && result->Err_0@ == f.words(),
            },
    {
        match self {
            JoinOutcome::Connected => Ok(None),
            JoinOutcome::ConnectedUnsaved(e) => Ok(Some("Update2: ".to_owned().concat(e.as_str()))),
            JoinOutcome::Failed(f) => Err(f.message()),
        }
    }
}

/// The path by which NetworkManager is asked to choose among the saved profiles.
pub const ANY_PROFILE: &'static str = "/";

/// The flag of an update that writes a profile to disk.
pub const UPDATE_TO_DISK: u32 = 1;

/// The options with which a profile is added: it vanishes with its activation until it is saved.
pub open spec fn volatile_options() -> Seq<SettingView> {
    seq![SettingView { key: "persist"@, value: ValueView::Text("volatile"@) }]
}

/// The options with which a profile is added: it vanishes with its activation until it is saved.
pub fn add_options() -> (options: Vec<Setting>)
    ensures
        setting_views(options@) == seq![SettingView { key: "persist"@, value: ValueView::Text("volatile"@) }],
{
    let mut options: Vec<Setting> = Vec::new();
    options.push(Setting { key: "persist".to_owned(), value: SettingValue::Text("volatile".to_owned()) });
    proof {
        assert(setting_views(options@) =~= volatile_options());
    }
    options
}

/// How far joining has come.
#[derive(Debug)]
pub enum JoinStage {
    ReadingAccessPoint,
    Activating { flags: u32, security: u32 },
    Adding,
    Waiting { profile: Option<String>, active: String },
    Deactivating { profile: Option<String>, failure: JoinFailure },
    Deleting { failure: JoinFailure },
    Saving,
    Done,
}

/// The call to make next.
#[derive(Debug)]
pub enum JoinCall {
    /// Read the properties of the access point.
    ReadAccessPoint { ap: String },
    /// Activate [`ANY_PROFILE`] that fits the access point on the device.
    Activate { device: String, ap: String },
    /// Add a profile with these settings and options and activate it on the device.
    Add { settings: Vec<Section>, device: String, ap: String, options: Vec<Setting> },
    /// Watch the activation until it ends.
    Wait { active: String },
    /// Deactivate this activation.
    Deactivate { active: String },
    /// Delete the profile.
    Delete { profile: String },
    /// Save the volatile profile: update it with these settings and flags.
    Save { profile: String, settings: Vec<Section>, flags: u32 },
    /// Joining has ended.
    Finish(JoinOutcome),
    /// The reply does not belong to this stage.
    Nothing,
}

/// What a [`JoinCall`] holds.
pub enum CallView {
    ReadAccessPoint { ap: String },
    Activate { device: String, ap: String },
    Add { settings: Seq<SectionView>, device: String, ap: String, options: Seq<SettingView> },
    Wait { active: String },
    Deactivate { active: String },
    Delete { profile: String },
    Save { profile: String, settings: Seq<SectionView>, flags: u32 },
    Finish(JoinOutcome),
    Nothing,
}

impl View for JoinCall {
    type V = CallView;

    open spec fn view(&self) -> CallView {
        match *self {
            JoinCall::ReadAccessPoint { ap } => CallView::ReadAccessPoint { ap },
            JoinCall::Activate { device, ap } => CallView::Activate { device, ap },
            JoinCall::Add { settings, device, ap, options } => CallView::Add {
                settings: section_views(settings@),
                device,
                ap,
                options: setting_views(options@),
            },
            JoinCall::Wait { active } => CallView::Wait { active },
            JoinCall::Deactivate { active } => CallView::Deactivate { active },
            JoinCall::Delete { profile } => CallView::Delete { profile },
            JoinCall::Save { profile, settings, flags } => CallView::Save {
                profile,
                settings: section_views(settings@),
                flags,
            },
            JoinCall::Finish(outcome) => CallView::Finish(outcome),
            JoinCall::Nothing => CallView::Nothing,
        }
    }
}

/// What came back of a call.
#[derive(Debug)]
pub enum JoinReply {
    /// The properties; `Ok(None)` if the reply holds none.
    AccessPoint(Result<Option<ApProperties>, String>),
    /// The path of the activation; `Ok(None)` if the reply holds none.
    Activated(Result<Option<String>, ActivateError>),
    /// The paths of the profile and of the activation.
    Added(Result<NewActivation, String>),
    Waited(Result<(), WatchFailure>),
    Deactivated,
    Deleted,
    Saved(Result<(), String>),
}

/// The paths that adding a profile answers with.
#[derive(Debug)]
pub struct NewActivation {
    pub profile: Option<String>,
    pub active: Option<String>,
}

/// Joining one network through one access point.
#[derive(Debug)]
pub struct WifiActivation {
    /// The device that joins.
    pub device: String,
    pub ssid: String,
    /// Password for a new profile; a saved profile has its own.
    pub password: Option<String>,
    pub ap: String,
    pub stage: JoinStage,
}

/// The name of the error by which NetworkManager says that no saved profile fits.
pub open spec fn no_profile_fits(name: Option<String>) -> bool {
    chars_of(name) == Some("org.freedesktop.NetworkManager.UnknownConnection"@)
}

/// A number that may be missing.
pub open spec fn or_zero(n: Option<u32>) -> u32 {
    match n {
        Some(v) => v,
        None => 0,
    }
}

/// An activation exists: it is watched, or given up if joining was cancelled meanwhile.
pub open spec fn activated(profile: Option<String>, active: String, cancelled: bool) -> (JoinStage, CallView) {
    if cancelled {
        (
            JoinStage::Deactivating { profile, failure: JoinFailure::Cancelled },
            CallView::Deactivate { active },
        )
    } else {
        (JoinStage::Waiting { profile, active }, CallView::Wait { active })
    }
}

/// Joining has ended in failure.
pub open spec fn gave_up(failure: JoinFailure) -> (JoinStage, CallView) {
    (JoinStage::Done, CallView::Finish(JoinOutcome::Failed(failure)))
}

/// The stage and the call that follow a reply. `cancelled` tells whether joining has been
/// cancelled by the time of the reply.
pub open spec fn next(a: WifiActivation, reply: JoinReply, cancelled: bool) -> (JoinStage, CallView) {
    match (a.stage, reply) {
        (JoinStage::ReadingAccessPoint, JoinReply::AccessPoint(read)) => match read {
            Err(e) => gave_up(JoinFailure::ReadFailed(e)),
            Ok(None) => gave_up(JoinFailure::InvalidProperties),
            Ok(Some(props)) => if props.ssid is None || props.ssid->0@ != encode_utf8(a.ssid@) {
                gave_up(JoinFailure::SsidMismatch)
            } else if cancelled {
                gave_up(JoinFailure::Cancelled)
            } else {
                (
                    JoinStage::Activating {
                        flags: or_zero(props.flags),
                        security: or_zero(props.wpa_flags) | or_zero(props.rsn_flags),
                    },
                    CallView::Activate { device: a.device, ap: a.ap },
                )
            },
        },
        (JoinStage::Activating { flags, security }, JoinReply::Activated(answer)) => match answer {
            Ok(Some(active)) => activated(None, active, cancelled),
            Ok(None) => gave_up(JoinFailure::InvalidActivationPath),
            Err(ActivateError::BadPath(e)) => gave_up(JoinFailure::BadPath(e)),
            Err(ActivateError::Refused { name, message }) => if !no_profile_fits(name) {
                gave_up(JoinFailure::ActivateFailed(message))
            } else if cancelled {
                gave_up(JoinFailure::Cancelled)
            } else if needs_password(flags, security) && (a.password is None || a.password->0@.len() == 0) {
                gave_up(JoinFailure::PasswordRequired)
            } else {
                (
                    JoinStage::Adding,
                    CallView::Add {
                        settings: new_profile(
                            a.ssid@,
                            (if a.password is Some { a.password->0@ } else { Seq::empty() }),
                            flags,
                            security,
                        ),
                        device: a.device,
                        ap: a.ap,
                        options: volatile_options(),
                    },
                )
            },
        },
        (JoinStage::Adding, JoinReply::Added(answer)) => match answer {
            Err(e) => gave_up(JoinFailure::AddFailed(e)),
            Ok(paths) => if paths.profile is None {
                gave_up(JoinFailure::InvalidProfilePath)
            } else if paths.active is None {
                gave_up(JoinFailure::InvalidActivationPath)
            } else {
                activated(paths.profile, paths.active->0, cancelled)
            },
        },
        (JoinStage::Waiting { profile, active }, JoinReply::Waited(ended)) => match ended {
            Err(f) => (
                JoinStage::Deactivating { profile, failure: JoinFailure::NotConnected(f) },
                CallView::Deactivate { active },
            ),
            Ok(_) => if cancelled {
                (
                    JoinStage::Deactivating { profile, failure: JoinFailure::Cancelled },
                    CallView::Deactivate { active },
                )
            } else {
                match profile {
                    Some(p) => (
                        JoinStage::Saving,
                        CallView::Save { profile: p, settings: Seq::empty(), flags: UPDATE_TO_DISK },
                    ),
                    None => (JoinStage::Done, CallView::Finish(JoinOutcome::Connected)),
                }
            },
        },
        (JoinStage::Deactivating { profile, failure }, JoinReply::Deactivated) => match profile {
            Some(p) => (JoinStage::Deleting { failure }, CallView::Delete { profile: p }),
            None => gave_up(failure),
        },
        (JoinStage::Deleting { failure }, JoinReply::Deleted) => gave_up(failure),
        (JoinStage::Saving, JoinReply::Saved(saved)) => match saved {
            Ok(_) => (JoinStage::Done, CallView::Finish(JoinOutcome::Connected)),
            Err(e) => (JoinStage::Done, CallView::Finish(JoinOutcome::ConnectedUnsaved(e))),
        },
        _ => (a.stage, CallView::Nothing),
    }
}

/// Bytes are equal.
fn bytes_eq(a: &Vec<u8>, b: &Vec<u8>) -> (same: bool)
    ensures
        same == (a@ == b@),
{
    if a.len() != b.len() {
        return false;
    }
    let mut i: usize = 0;
    while i < a.len()
        invariant
            i <= a@.len(),
            a@.len() == b@.len(),
            forall|j: int| 0 <= j < i ==> a@[j] == b@[j],
        decreases a@.len() - i,
    {
        if a[i] != b[i] {
            return false;
        }
        i += 1;
    }
    proof {
        assert(a@ =~= b@);
    }
    true
}

fn number(n: Option<u32>) -> (v: u32)
    ensures
        v == or_zero(n),
{
    match n {
        Some(v) => v,
        None => 0,
    }
}

impl WifiActivation {
    /// Begins to join a network through the selected access point.
    pub fn start(device: &str, ssid: &str, password: Option<&str>, ap: Option<&str>) -> (begun: Result<
        (WifiActivation, JoinCall),
        JoinFailure,
    >)
        ensures
            begun is Err <==> ap is None,
            begun is Err ==> begun->Err_0 is NotVisible,
            begun matches Ok((a, call)) ==> {
                &&& a.device@ == device@
                &&& a.ssid@ == ssid@
                &&& a.ap@ == ap->0@
                &&& chars_of(a.password) == (match password {
                    Some(p) => Some(p@),
                    None => None,
                })
                &&& a.stage is ReadingAccessPoint
                &&& call@ == (CallView::ReadAccessPoint { ap: a.ap })
            },
    {
        match ap {
            None => Err(JoinFailure::NotVisible),
            Some(path) => {
                let path = path.to_owned();
                let password = match password {
                    Some(p) => Some(p.to_owned()),
                    None => None,
                };
                let call = JoinCall::ReadAccessPoint { ap: path.clone() };
                let activation = WifiActivation {
                    device: device.to_owned(),
                    ssid: ssid.to_owned(),
                    password,
                    ap: path,
                    stage: JoinStage::ReadingAccessPoint,
                };
                Ok((activation, call))
            }
        }
    }

    /// Takes in a reply and returns the next call.
    pub fn step(&mut self, reply: JoinReply, cancelled: bool) -> (call: JoinCall)
        ensures
            final(self).device == old(self).device,
            final(self).ssid == old(self).ssid,
            final(self).password == old(self).password,
            final(self).ap == old(self).ap,
            (final(self).stage, call@) == next(*old(self), reply, cancelled),
    {
        let mut stage = JoinStage::Done;
        std::mem::swap(&mut self.stage, &mut stage);
        match (stage, reply) {
            (JoinStage::ReadingAccessPoint, JoinReply::AccessPoint(read)) => self.access_point_read(read, cancelled),
            (JoinStage::Activating { flags, security }, JoinReply::Activated(answer)) => {
                self.activation_answered(flags, security, answer, cancelled)
            }
            (JoinStage::Adding, JoinReply::Added(answer)) => match answer {
                Err(e) => JoinCall::Finish(JoinOutcome::Failed(JoinFailure::AddFailed(e))),
                Ok(paths) => match (paths.profile, paths.active) {
                    (None, _) => JoinCall::Finish(JoinOutcome::Failed(JoinFailure::InvalidProfilePath)),
                    (Some(_), None) => JoinCall::Finish(JoinOutcome::Failed(JoinFailure::InvalidActivationPath)),
                    (Some(profile), Some(active)) => self.activation_exists(Some(profile), active, cancelled),
                },
            },
            (JoinStage::Waiting { profile, active }, JoinReply::Waited(ended)) => match ended {
                Err(f) => {
                    self.stage = JoinStage::Deactivating { profile, failure: JoinFailure::NotConnected(f) };
                    JoinCall::Deactivate { active }
                }
                Ok(_) => {
                    if cancelled {
                        self.stage = JoinStage::Deactivating { profile, failure: JoinFailure::Cancelled };
                        JoinCall::Deactivate { active }
                    } else {
                        match profile {
                            Some(p) => {
                                self.stage = JoinStage::Saving;
                                let settings: Vec<Section> = Vec::new();
                                proof {
                                    assert(section_views(settings@) =~= Seq::empty());
                                }
                                JoinCall::Save { profile: p, settings, flags: UPDATE_TO_DISK }
                            }
                            None => JoinCall::Finish(JoinOutcome::Connected),
                        }
                    }
                }
            },
            (JoinStage::Deactivating { profile, failure }, JoinReply::Deactivated) => match profile {
                Some(p) => {
                    self.stage = JoinStage::Deleting { failure };
                    JoinCall::Delete { profile: p }
                }
                None => JoinCall::Finish(JoinOutcome::Failed(failure)),
            },
            (JoinStage::Deleting { failure }, JoinReply::Deleted) => JoinCall::Finish(JoinOutcome::Failed(failure)),
            (JoinStage::Saving, JoinReply::Saved(saved)) => match saved {
                Ok(_) => JoinCall::Finish(JoinOutcome::Connected),
                Err(e) => JoinCall::Finish(JoinOutcome::ConnectedUnsaved(e)),
            },
            (other, _) => {
                self.stage = other;
                JoinCall::Nothing
            }
        }
    }

    fn access_point_read(&mut self, read: Result<Option<ApProperties>, String>, cancelled: bool) -> (call: JoinCall)
        requires
            old(self).stage is Done,
        ensures
            final(self).device == old(self).device,
            final(self).ssid == old(self).ssid,
            final(self).password == old(self).password,
            final(self).ap == old(self).ap,
            (final(self).stage, call@) == next(
                WifiActivation { stage: JoinStage::ReadingAccessPoint, ..*old(self) },
                JoinReply::AccessPoint(read),
                cancelled,
            ),
    {
        match read {
            Err(e) => JoinCall::Finish(JoinOutcome::Failed(JoinFailure::ReadFailed(e))),
            Ok(None) => JoinCall::Finish(JoinOutcome::Failed(JoinFailure::InvalidProperties)),
            Ok(Some(props)) => {
                let wanted = self.ssid.as_str().as_bytes_vec();
                let same = match &props.ssid {
                    Some(bytes) => bytes_eq(bytes, &wanted),
                    None => false,
                };
                if !same {
                    JoinCall::Finish(JoinOutcome::Failed(JoinFailure::SsidMismatch))
                } else if cancelled {
                    JoinCall::Finish(JoinOutcome::Failed(JoinFailure::Cancelled))
                } else {
                    let flags: u32 = number(props.flags);
                    let security: u32 = number(props.wpa_flags) | number(props.rsn_flags);
                    self.stage = JoinStage::Activating { flags, security };
                    JoinCall::Activate { device: self.device.clone(), ap: self.ap.clone() }
                }
            }
        }
    }

    fn activation_answered(
        &mut self,
        flags: u32,
        security: u32,
        answer: Result<Option<String>, ActivateError>,
        cancelled: bool,
    ) -> (call: JoinCall)
        requires
            old(self).stage is Done,
        ensures
            final(self).device == old(self).device,
            final(self).ssid == old(self).ssid,
            final(self).password == old(self).password,
            final(self).ap == old(self).ap,
            (final(self).stage, call@) == next(
                WifiActivation { stage: (JoinStage::Activating { flags, security }), ..*old(self) },
                JoinReply::Activated(answer),
                cancelled,
            ),
    {
        match answer {
            Ok(Some(active)) => self.activation_exists(None, active, cancelled),
            Ok(None) => JoinCall::Finish(JoinOutcome::Failed(JoinFailure::InvalidActivationPath)),
            Err(ActivateError::BadPath(e)) => JoinCall::Finish(JoinOutcome::Failed(JoinFailure::BadPath(e))),
            Err(ActivateError::Refused { name, message }) => {
                let unknown = match &name {
                    Some(n) => text::str_eq(n.as_str(), "org.freedesktop.NetworkManager.UnknownConnection"),
                    None => false,
                };
                if !unknown {
                    return JoinCall::Finish(JoinOutcome::Failed(JoinFailure::ActivateFailed(message)));
                }
                if cancelled {
                    return JoinCall::Finish(JoinOutcome::Failed(JoinFailure::Cancelled));
                }
                let password: Option<&str> = match &self.password {
                    Some(p) => Some(p.as_str()),
                    None => None,
                };
                match new_wifi_settings(self.ssid.as_str(), password, flags, security) {
                    Err(_) => JoinCall::Finish(JoinOutcome::Failed(JoinFailure::PasswordRequired)),
                    Ok(settings) => {
                        self.stage = JoinStage::Adding;
                        JoinCall::Add {
                            settings,
                            device: self.device.clone(),
                            ap: self.ap.clone(),
                            options: add_options(),
                        }
                    }
                }
            }
        }
    }

    fn activation_exists(&mut self, profile: Option<String>, active: String, cancelled: bool) -> (call: JoinCall)
        ensures
            final(self).device == old(self).device,
            final(self).ssid == old(self).ssid,
            final(self).password == old(self).password,
            final(self).ap == old(self).ap,
            (final(self).stage, call@) == activated(profile, active, cancelled),
    {
        if cancelled {
            self.stage = JoinStage::Deactivating { profile, failure: JoinFailure::Cancelled };
            JoinCall::Deactivate { active }
        } else {
            self.stage = JoinStage::Waiting { profile, active: active.clone() };
            JoinCall::Wait { active }
        }
    }
}

/// A profile is deleted only once its own activation has been deactivated.
pub proof fn deletion_follows_deactivation(a: WifiActivation, reply: JoinReply, cancelled: bool)
    requires
        next(a, reply, cancelled).1 is Delete,
    ensures
        a.stage is Deactivating,
        reply is Deactivated,
        a.stage->Deactivating_profile == Some(next(a, reply, cancelled).1->Delete_profile),
{
}

/// A profile is saved only after its activation connected and joining was not cancelled.
pub proof fn saving_follows_connection(a: WifiActivation, reply: JoinReply, cancelled: bool)
    requires
        next(a, reply, cancelled).1 is Save,
    ensures
        a.stage is Waiting,
        reply matches JoinReply::Waited(ended) && ended is Ok,
        !cancelled,
        a.stage->Waiting_profile == Some(next(a, reply, cancelled).1->Save_profile),
{
}

/// A new profile is volatile, and saving it replaces neither its settings nor its secrets.
pub proof fn added_profiles_are_volatile(a: WifiActivation, reply: JoinReply, cancelled: bool)
    ensures
        next(a, reply, cancelled).1 is Add ==> next(a, reply, cancelled).1->options == volatile_options(),
        next(a, reply, cancelled).1 is Save ==> {
            &&& next(a, reply, cancelled).1->Save_settings == Seq::<SectionView>::empty()
            &&& next(a, reply, cancelled).1->flags == UPDATE_TO_DISK
        },
{
}

/// A new profile is added only when NetworkManager says that no saved profile fits.
pub proof fn only_unknown_connection_adds_profile(a: WifiActivation, reply: JoinReply, cancelled: bool)
    requires
        next(a, reply, cancelled).1 is Add,
    ensures
        a.stage is Activating,
        reply matches JoinReply::Activated(Err(ActivateError::Refused { name, message })) && no_profile_fits(name),
        !cancelled,
{
}

/// An activation that ended in failure, or was cancelled while it was watched, is deactivated,
/// and joining then ends in failure.
pub proof fn failed_activation_is_cleaned_up(
    a: WifiActivation,
    ended: Result<(), WatchFailure>,
    cancelled: bool,
    later: bool,
)
    requires
        a.stage is Waiting,
        ended is Err || cancelled,
    ensures
        next(a, JoinReply::Waited(ended), cancelled).1 == (CallView::Deactivate { active: a.stage->Waiting_active }),
        ({
            let b = WifiActivation { stage: next(a, JoinReply::Waited(ended), cancelled).0, ..a };
            let (stage, call) = next(b, JoinReply::Deactivated, later);
            let c = WifiActivation { stage, ..a };
            if a.stage->Waiting_profile is Some {
                &&& call == (CallView::Delete { profile: a.stage->Waiting_profile->0 })
                &&& next(c, JoinReply::Deleted, later).1 matches CallView::Finish(JoinOutcome::Failed(_))
            } else {
                call matches CallView::Finish(JoinOutcome::Failed(_))
            }
        }),
{
}

/// A network is joined through an access point only while that still has the network's name: first with a saved
/// profile, and where NetworkManager knows none with a new one.
pub proof fn networks_are_joined_through_their_access_point(
    a: WifiActivation,
    props: ApProperties,
    message: String,
    name: String,
)
    requires
        a.stage is ReadingAccessPoint,
        name@ == "org.freedesktop.NetworkManager.UnknownConnection"@,
    ensures
        ({
            let (stage, call) = next(a, JoinReply::AccessPoint(Ok(Some(props))), false);
            let fits = props.ssid is Some && props.ssid->0@ == encode_utf8(a.ssid@);
            &&& !fits ==> call == CallView::Finish(JoinOutcome::Failed(JoinFailure::SsidMismatch))
            &&& fits ==> call == (CallView::Activate { device: a.device, ap: a.ap })
            &&& fits ==> {
                let b = WifiActivation { stage, ..a };
                let refused = JoinReply::Activated(Err(ActivateError::Refused { name: Some(name), message }));
                let (_, second) = next(b, refused, false);
                let flags = if props.flags is Some { props.flags->0 } else { 0 };
                let security = (if props.wpa_flags is Some { props.wpa_flags->0 } else { 0 }) | (if props.rsn_flags is Some {
                    props.rsn_flags->0
                } else {
                    0
                });
                let password = if a.password is Some { a.password->0@ } else { Seq::empty() };
                if password.len() == 0 && ((flags & 1 != 0 && security == 0) || security & 0x500 != 0) {
                    second == CallView::Finish(JoinOutcome::Failed(JoinFailure::PasswordRequired))
                } else {
                    second == (CallView::Add {
                        settings: new_profile(a.ssid@, password, flags, security),
                        device: a.device,
                        ap: a.ap,
                        options: seq![SettingView { key: "persist"@, value: ValueView::Text("volatile"@) }],
                    })
                }
            }
        }),
{
    if a.password is Some && a.password->0@.len() == 0 {
        assert(a.password->0@ =~= Seq::<char>::empty());
    }
}

/// An activation that came back is watched, or given up where joining was cancelled. Once it connected a new
/// profile is written to disk, and a saved one needs nothing more.
pub proof fn activations_are_watched_and_kept(
    a: WifiActivation,
    active: String,
    profile: String,
    flags: u32,
    security: u32,
)
    ensures
        ({
            let at = WifiActivation { stage: JoinStage::Activating { flags, security }, ..a };
            let (stage, call) = next(at, JoinReply::Activated(Ok(Some(active))), false);
            &&& call == (CallView::Wait { active })
            &&& next(WifiActivation { stage, ..a }, JoinReply::Waited(Ok(())), false).1 == CallView::Finish(
                JoinOutcome::Connected,
            )
            &&& next(at, JoinReply::Activated(Ok(Some(active))), true).1 == (CallView::Deactivate { active })
        }),
        ({
            let at = WifiActivation { stage: JoinStage::Adding, ..a };
            let added = NewActivation { profile: Some(profile), active: Some(active) };
            let (stage, call) = next(at, JoinReply::Added(Ok(added)), false);
            let b = WifiActivation { stage, ..a };
            let (saving, save) = next(b, JoinReply::Waited(Ok(())), false);
            let c = WifiActivation { stage: saving, ..a };
            &&& call == (CallView::Wait { active })
            &&& save is Save && save->Save_profile == profile && save->Save_settings.len() == 0 && save->flags == 1
            &&& next(c, JoinReply::Saved(Ok(())), false).1 == CallView::Finish(JoinOutcome::Connected)
            &&& next(at, JoinReply::Added(Ok(added)), true).1 == (CallView::Deactivate { active })
        }),
{
}

/// Joining fails with what went wrong.
pub proof fn joining_fails_with_its_cause(a: WifiActivation, e: String, flags: u32, security: u32, cancelled: bool)
    ensures
        a.stage is ReadingAccessPoint ==> next(a, JoinReply::AccessPoint(Err(e)), cancelled).1 == CallView::Finish(
            JoinOutcome::Failed(JoinFailure::ReadFailed(e)),
        ),
        a.stage is ReadingAccessPoint ==> next(a, JoinReply::AccessPoint(Ok(None)), cancelled).1 == CallView::Finish(
            JoinOutcome::Failed(JoinFailure::InvalidProperties),
        ),
        a.stage is Activating ==> next(
            a,
            JoinReply::Activated(Err(ActivateError::Refused { name: None, message: e })),
            cancelled,
        ).1 == CallView::Finish(JoinOutcome::Failed(JoinFailure::ActivateFailed(e))),
        a.stage is Activating ==> next(a, JoinReply::Activated(Err(ActivateError::BadPath(e))), cancelled).1
            == CallView::Finish(JoinOutcome::Failed(JoinFailure::BadPath(e))),
        a.stage is Activating ==> next(a, JoinReply::Activated(Ok(None)), cancelled).1 == CallView::Finish(
            JoinOutcome::Failed(JoinFailure::InvalidActivationPath),
        ),
        a.stage is Adding ==> next(a, JoinReply::Added(Err(e)), cancelled).1 == CallView::Finish(
            JoinOutcome::Failed(JoinFailure::AddFailed(e)),
        ),
        a.stage is Saving ==> next(a, JoinReply::Saved(Err(e)), cancelled).1 == CallView::Finish(
            JoinOutcome::ConnectedUnsaved(e),
        ),
{
}

/// Why a network was not joined is told in words; what a call told follows the name of the call.
pub proof fn failed_joins_are_told_in_words(e: String, f: WatchFailure)
    ensures
        JoinFailure::NotVisible.words() == "Wi-Fi network is no longer visible"@,
        JoinFailure::InvalidProperties.words() == "Invalid properties reply"@,
        JoinFailure::SsidMismatch.words() == "Wi-Fi access point no longer matches the selected network"@,
        JoinFailure::Cancelled.words() == "Connection cancelled"@,
        JoinFailure::InvalidProfilePath.words() == "Invalid profile path"@,
        JoinFailure::InvalidActivationPath.words() == "Invalid activation path"@,
        JoinFailure::PasswordRequired.words() == "Wi-Fi password is required"@,
        JoinFailure::ReadFailed(e).words() == "GetAll: "@ + e@,
        JoinFailure::ActivateFailed(e).words() == "ActivateConnection: "@ + e@,
        JoinFailure::AddFailed(e).words() == "AddAndActivateConnection2: "@ + e@,
        JoinFailure::BadPath(e).words() == e@,
        JoinFailure::NotConnected(f).words() == f.words(),
{
}

} // verus!
