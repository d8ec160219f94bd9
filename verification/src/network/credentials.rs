//! Looking the credentials of the active Wi-Fi connection up: which call follows which reply.

use vstd::prelude::*;
use vstd::string::*;
use crate::network::settings::{
    completed, profile_credentials, profile_says, section_views, with_secrets, CredentialsView,
    ProfileCredentials, ProfileView, Section, SectionView, WifiAuthentication, WifiCredentials,
};
use crate::text;

verus! {

/// How far a lookup has come.
#[derive(Debug)]
pub enum LookupStage {
    ReadingConnection,
    OpeningProfile { profile: String },
    ReadingSettings { profile: String },
    ReadingSecrets { ssid: String, hidden: bool, authentication: WifiAuthentication },
    Done,
}

/// What a [`LookupStage`] holds.
pub enum StageView {
    ReadingConnection,
    OpeningProfile { profile: String },
    ReadingSettings { profile: String },
    ReadingSecrets { ssid: Seq<char>, hidden: bool, authentication: WifiAuthentication },
    Done,
}

impl View for LookupStage {
    type V = StageView;

    open spec fn view(&self) -> StageView {
        match *self {
            LookupStage::ReadingConnection => StageView::ReadingConnection,
            LookupStage::OpeningProfile { profile } => StageView::OpeningProfile { profile },
            LookupStage::ReadingSettings { profile } => StageView::ReadingSettings { profile },
            LookupStage::ReadingSecrets { ssid, hidden, authentication } => StageView::ReadingSecrets {
                ssid: ssid@,
                hidden,
                authentication,
            },
            LookupStage::Done => StageView::Done,
        }
    }
}

/// The call to make next.
#[derive(Debug)]
pub enum LookupCall {
    /// Read which profile an active connection uses.
    ReadConnection { active: String },
    /// Open a profile.
    OpenProfile { profile: String },
    /// Ask a profile for its settings.
    ReadSettings { profile: String },
    /// Ask a profile for its secrets.
    ReadSecrets { profile: String },
    /// The lookup has ended.
    Finish(Result<WifiCredentials, String>),
    /// The reply does not belong to this stage.
    Nothing,
}

/// What a [`LookupCall`] holds.
pub enum CallView {
    ReadConnection { active: String },
    OpenProfile { profile: String },
    ReadSettings { profile: String },
    ReadSecrets { profile: String },
    Finish(Result<CredentialsView, Seq<char>>),
    Nothing,
}

impl View for LookupCall {
    type V = CallView;

    open spec fn view(&self) -> CallView {
        match *self {
            LookupCall::ReadConnection { active } => CallView::ReadConnection { active },
            LookupCall::OpenProfile { profile } => CallView::OpenProfile { profile },
            LookupCall::ReadSettings { profile } => CallView::ReadSettings { profile },
            LookupCall::ReadSecrets { profile } => CallView::ReadSecrets { profile },
            LookupCall::Finish(Ok(credentials)) => CallView::Finish(Ok(credentials@)),
            LookupCall::Finish(Err(message)) => CallView::Finish(Err(message@)),
            LookupCall::Nothing => CallView::Nothing,
        }
    }
}

/// What came back of a call.
#[derive(Debug)]
pub enum LookupReply {
    /// The path of the profile, if the connection names one.
    Connection(Result<Option<String>, String>),
    Opened(Result<(), String>),
    Settings(Result<Vec<Section>, String>),
    Secrets(Result<Vec<Section>, String>),
}

/// The lookup has ended without credentials.
pub open spec fn failed(message: Seq<char>) -> (StageView, CallView) {
    (StageView::Done, CallView::Finish(Err(message)))
}

/// What follows the settings of a profile.
pub open spec fn after_settings(profile: String, sections: Seq<SectionView>) -> (StageView, CallView) {
    match profile_says(sections) {
        Err(trouble) => failed(trouble.words()),
        Ok(ProfileView::Complete(credentials)) => (StageView::Done, CallView::Finish(Ok(credentials))),
        Ok(ProfileView::NeedSecrets { ssid, hidden, authentication }) => (
            StageView::ReadingSecrets { ssid, hidden, authentication },
            CallView::ReadSecrets { profile },
        ),
    }
}

/// The stage and the call that follow a reply.
pub open spec fn next(stage: StageView, reply: LookupReply) -> (StageView, CallView) {
    match (stage, reply) {
        (StageView::ReadingConnection, LookupReply::Connection(read)) => match read {
            Err(e) => failed("Failed to open active connection: "@ + e@),
            Ok(None) => failed("Active Wi-Fi profile is unavailable"@),
            Ok(Some(profile)) => (StageView::OpeningProfile { profile }, CallView::OpenProfile { profile }),
        },
        (StageView::OpeningProfile { profile }, LookupReply::Opened(opened)) => match opened {
            Err(e) => failed("Failed to open Wi-Fi profile: "@ + e@),
            Ok(_) => (StageView::ReadingSettings { profile }, CallView::ReadSettings { profile }),
        },
        (StageView::ReadingSettings { profile }, LookupReply::Settings(answer)) => match answer {
            Err(e) => failed("Failed to read Wi-Fi profile: "@ + e@),
            Ok(sections) => after_settings(profile, section_views(sections@)),
        },
        (StageView::ReadingSecrets { ssid, hidden, authentication }, LookupReply::Secrets(answer)) => match answer {
            Err(e) => failed("Saved Wi-Fi password is unavailable: "@ + e@),
            Ok(secrets) => match completed(ssid, hidden, authentication, section_views(secrets@)) {
                Ok(credentials) => (StageView::Done, CallView::Finish(Ok(credentials))),
                Err(trouble) => failed(trouble.words()),
            },
        },
        _ => (stage, CallView::Nothing),
    }
}

/// A lookup of the credentials of an active connection.
#[derive(Debug)]
pub struct CredentialLookup {
    pub stage: LookupStage,
}

fn refuse(reason: &str, error: &str) -> (call: LookupCall)
    ensures
        call@ == CallView::Finish(Err(reason@ + error@)),
{
    LookupCall::Finish(Err(text::joined(reason, error)))
}

impl CredentialLookup {
    /// Begins a lookup, given the connection that the Wi-Fi device names; without a real one it ends
    /// at once.
    pub fn request_active_wifi_credentials(active: Option<String>) -> (begun: (CredentialLookup, LookupCall))
        ensures
            (begun.0.stage@, begun.1@) == (match active {
                Some(path) => if path@ != "/"@ {
                    (StageView::ReadingConnection, CallView::ReadConnection { active: path })
                } else {
                    failed("No active Wi-Fi connection"@)
                },
                None => failed("No active Wi-Fi connection"@),
            }),
    {
        match active {
            Some(path) => {
                if !text::str_eq(path.as_str(), "/") {
                    return (
                        CredentialLookup { stage: LookupStage::ReadingConnection },
                        LookupCall::ReadConnection { active: path },
                    );
                }
            }
            None => {}
        }
        (
            CredentialLookup { stage: LookupStage::Done },
            LookupCall::Finish(Err("No active Wi-Fi connection".to_owned())),
        )
    }

    /// Takes in a reply and returns the next call.
    pub fn step(&mut self, reply: LookupReply) -> (call: LookupCall)
        ensures
            (final(self).stage@, call@) == next(old(self).stage@, reply),
    {
        let mut stage = LookupStage::Done;
        std::mem::swap(&mut self.stage, &mut stage);
        match (stage, reply) {
            (LookupStage::ReadingConnection, LookupReply::Connection(read)) => match read {
                Err(e) => refuse("Failed to open active connection: ", e.as_str()),
                Ok(None) => LookupCall::Finish(Err("Active Wi-Fi profile is unavailable".to_owned())),
                Ok(Some(profile)) => {
                    self.stage = LookupStage::OpeningProfile { profile: profile.clone() };
                    LookupCall::OpenProfile { profile }
                }
            },
            (LookupStage::OpeningProfile { profile }, LookupReply::Opened(opened)) => match opened {
                Err(e) => refuse("Failed to open Wi-Fi profile: ", e.as_str()),
                Ok(_) => {
                    self.stage = LookupStage::ReadingSettings { profile: profile.clone() };
                    LookupCall::ReadSettings { profile }
                }
            },
            (LookupStage::ReadingSettings { profile }, LookupReply::Settings(answer)) => match answer {
                Err(e) => refuse("Failed to read Wi-Fi profile: ", e.as_str()),
                Ok(sections) => match profile_credentials(&sections) {
                    Err(e) => LookupCall::Finish(Err(e.message())),
                    Ok(ProfileCredentials::Complete(credentials)) => LookupCall::Finish(Ok(credentials)),
                    Ok(ProfileCredentials::NeedSecrets { ssid, hidden, authentication }) => {
                        self.stage = LookupStage::ReadingSecrets { ssid, hidden, authentication };
                        LookupCall::ReadSecrets { profile }
                    }
                },
            },
            (LookupStage::ReadingSecrets { ssid, hidden, authentication }, LookupReply::Secrets(answer)) => {
                match answer {
                    Err(e) => refuse("Saved Wi-Fi password is unavailable: ", e.as_str()),
                    Ok(secrets) => match with_secrets(ssid, hidden, authentication, &secrets) {
                        Ok(credentials) => LookupCall::Finish(Ok(credentials)),
                        Err(e) => LookupCall::Finish(Err(e.message())),
                    },
                }
            }
            (stage, _) => {
                self.stage = stage;
                LookupCall::Nothing
            }
        }
    }
}

/// Secrets are only asked of a profile that needs a password: an open network is answered from its
/// settings alone.
pub proof fn open_networks_need_no_secrets(profile: String, sections: Vec<Section>)
    requires
        profile_says(section_views(sections@)) matches Ok(ProfileView::Complete(_)),
    ensures
        next(StageView::ReadingSettings { profile }, LookupReply::Settings(Ok(sections))).1 matches CallView::Finish(
            Ok(credentials),
        ) && credentials.password is None,
{
}

/// Credentials of a secured network always hold a password that is not empty.
pub proof fn secured_credentials_hold_a_password(
    ssid: Seq<char>,
    hidden: bool,
    authentication: WifiAuthentication,
    secrets: Seq<SectionView>,
)
    ensures
        completed(ssid, hidden, authentication, secrets) matches Ok(credentials) ==> credentials.password is Some
            && credentials.password->0.len() > 0,
{
}

/// The credentials are looked up in the profile that the connection uses, step by step; what fails is told.
pub proof fn credentials_are_looked_up_in_the_profile(profile: String, sections: Vec<Section>, e: String)
    ensures
        next(StageView::ReadingConnection, LookupReply::Connection(Ok(Some(profile)))) == (
            StageView::OpeningProfile { profile },
            CallView::OpenProfile { profile },
        ),
        next(StageView::OpeningProfile { profile }, LookupReply::Opened(Ok(()))) == (
            StageView::ReadingSettings { profile },
            CallView::ReadSettings { profile },
        ),
        ({
            let (stage, call) = next(StageView::ReadingSettings { profile }, LookupReply::Settings(Ok(sections)));
            match profile_says(section_views(sections@)) {
                Ok(ProfileView::NeedSecrets { ssid, hidden, authentication }) => {
                    &&& call == (CallView::ReadSecrets { profile })
                    &&& stage == (StageView::ReadingSecrets { ssid, hidden, authentication })
                },
                Ok(ProfileView::Complete(credentials)) => call == CallView::Finish(Ok(credentials)),
                Err(_) => call matches CallView::Finish(Err(_)),
            }
        }),
        next(StageView::ReadingConnection, LookupReply::Connection(Ok(None))).1 matches CallView::Finish(Err(_)),
        next(StageView::ReadingConnection, LookupReply::Connection(Err(e))).1 matches CallView::Finish(Err(_)),
        next(StageView::OpeningProfile { profile }, LookupReply::Opened(Err(e))).1 matches CallView::Finish(Err(_)),
        next(StageView::ReadingSettings { profile }, LookupReply::Settings(Err(e))).1 matches CallView::Finish(Err(_)),
{
}

/// Secrets complete the credentials of the network that they were asked for.
pub proof fn secrets_belong_to_their_network(
    ssid: Seq<char>,
    hidden: bool,
    authentication: WifiAuthentication,
    secrets: Vec<Section>,
)
    ensures
        match next(
            StageView::ReadingSecrets { ssid, hidden, authentication },
            LookupReply::Secrets(Ok(secrets)),
        ).1 {
            CallView::Finish(Ok(c)) => c.ssid == ssid && c.hidden == hidden && c.authentication == authentication && (
            c.password matches Some(p) && p.len() > 0),
            CallView::Finish(Err(_)) => true,
            _ => false,
        },
{
}

/// Where a lookup fails, it ends, and what it failed at is told before what the call told. A profile that says nothing
/// of use is told in the words of its trouble.
pub proof fn failed_lookups_are_told(
    profile: String,
    e: String,
    ssid: Seq<char>,
    hidden: bool,
    authentication: WifiAuthentication,
    sections: Vec<Section>,
)
    ensures
        next(StageView::ReadingConnection, LookupReply::Connection(Err(e))) == (
            StageView::Done,
            CallView::Finish(Err("Failed to open active connection: "@ + e@)),
        ),
        next(StageView::ReadingConnection, LookupReply::Connection(Ok(None))) == (
            StageView::Done,
            CallView::Finish(Err("Active Wi-Fi profile is unavailable"@)),
        ),
        next(StageView::OpeningProfile { profile }, LookupReply::Opened(Err(e))) == (
            StageView::Done,
            CallView::Finish(Err("Failed to open Wi-Fi profile: "@ + e@)),
        ),
        next(StageView::ReadingSettings { profile }, LookupReply::Settings(Err(e))) == (
            StageView::Done,
            CallView::Finish(Err("Failed to read Wi-Fi profile: "@ + e@)),
        ),
        next(StageView::ReadingSecrets { ssid, hidden, authentication }, LookupReply::Secrets(Err(e))) == (
            StageView::Done,
            CallView::Finish(Err("Saved Wi-Fi password is unavailable: "@ + e@)),
        ),
        profile_says(section_views(sections@)) matches Err(trouble) ==> next(
            StageView::ReadingSettings { profile },
            LookupReply::Settings(Ok(sections)),
        ) == (StageView::Done, CallView::Finish(Err(trouble.words()))),
{
}

} // verus!
