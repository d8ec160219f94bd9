//! Connection settings: named sections of keyed values, as NetworkManager exchanges them.

use vstd::prelude::*;
use vstd::string::*;
use vstd::utf8::{decode_utf8, encode_utf8, encode_utf8_decode_utf8, is_ascii_chars, valid_utf8};
use crate::text::{self, chars_of};

verus! {

/// A value of a setting.
#[derive(Debug)]
pub enum SettingValue {
    Bytes(Vec<u8>),
    Text(String),
    Flag(bool),
    Number(u32),
    /// An object path.
    Path(String),
    /// A percentage and whether it was measured recently.
    Quality(u32, bool),
    /// Some other container, with its first element if that is a number.
    Children(Option<u32>),
    /// Anything else.
    Other,
}

/// What a [`SettingValue`] holds.
pub enum ValueView {
    Bytes(Seq<u8>),
    Text(Seq<char>),
    Flag(bool),
    Number(u32),
    Path(Seq<char>),
    Quality(u32, bool),
    Children(Option<u32>),
    Other,
}

impl View for SettingValue {
    type V = ValueView;

    open spec fn view(&self) -> ValueView {
        match *self {
            SettingValue::Bytes(b) => ValueView::Bytes(b@),
            SettingValue::Text(t) => ValueView::Text(t@),
            SettingValue::Flag(f) => ValueView::Flag(f),
            SettingValue::Number(n) => ValueView::Number(n),
            SettingValue::Path(p) => ValueView::Path(p@),
            SettingValue::Quality(q, r) => ValueView::Quality(q, r),
            SettingValue::Children(first) => ValueView::Children(first),
            SettingValue::Other => ValueView::Other,
        }
    }
}

/// A keyed value.
#[derive(Debug)]
pub struct Setting {
    pub key: String,
    pub value: SettingValue,
}

/// What a [`Setting`] holds.
pub struct SettingView {
    pub key: Seq<char>,
    pub value: ValueView,
}

impl View for Setting {
    type V = SettingView;

    open spec fn view(&self) -> SettingView {
        SettingView { key: self.key@, value: self.value@ }
    }
}

/// A named section of settings.
#[derive(Debug)]
pub struct Section {
    pub name: String,
    pub settings: Vec<Setting>,
}

/// What a [`Section`] holds.
pub struct SectionView {
    pub name: Seq<char>,
    pub settings: Seq<SettingView>,
}

/// The views of a list of settings.
pub open spec fn setting_views(settings: Seq<Setting>) -> Seq<SettingView> {
    settings.map_values(|s: Setting| s@)
}

impl View for Section {
    type V = SectionView;

    open spec fn view(&self) -> SectionView {
        SectionView { name: self.name@, settings: setting_views(self.settings@) }
    }
}

/// The views of a list of sections.
pub open spec fn section_views(sections: Seq<Section>) -> Seq<SectionView> {
    sections.map_values(|s: Section| s@)
}

/// The settings of the first section with that name.
pub open spec fn section(sections: Seq<SectionView>, name: Seq<char>) -> Option<Seq<SettingView>>
    decreases sections.len(),
{
    if sections.len() == 0 {
        None
    } else if sections[0].name == name {
        Some(sections[0].settings)
    } else {
        section(sections.drop_first(), name)
    }
}

/// The value of the first setting with that key.
pub open spec fn value(settings: Seq<SettingView>, key: Seq<char>) -> Option<ValueView>
    decreases settings.len(),
{
    if settings.len() == 0 {
        None
    } else if settings[0].key == key {
        Some(settings[0].value)
    } else {
        value(settings.drop_first(), key)
    }
}

/// The section with that name.
pub fn settings_section<'a>(sections: &'a Vec<Section>, name: &str) -> (found: Option<&'a Section>)
    ensures
        match found {
            Some(s) => section(section_views(sections@), name@) == Some(setting_views(s.settings@)),
            None => section(section_views(sections@), name@) is None,
        },
{
    let ghost all = section_views(sections@);
    let mut i: usize = 0;
    proof {
        assert(all.skip(0) =~= all);
    }
    while i < sections.len()
        invariant
            i <= sections@.len(),
            all == section_views(sections@),
            section(all, name@) == section(all.skip(i as int), name@),
        decreases sections@.len() - i,
    {
        proof {
            assert(all.skip(i as int)[0] == sections@[i as int]@);
            assert(all.skip(i as int).drop_first() =~= all.skip(i + 1));
        }
        if text::str_eq(sections[i].name.as_str(), name) {
            return Some(&sections[i]);
        }
        i += 1;
    }
    None
}

/// The value under that key.
pub fn get_prop<'a>(settings: &'a Vec<Setting>, key: &str) -> (found: Option<&'a SettingValue>)
    ensures
        match found {
            Some(v) => value(setting_views(settings@), key@) == Some(v@),
            None => value(setting_views(settings@), key@) is None,
        },
{
    let ghost all = setting_views(settings@);
    let mut i: usize = 0;
    proof {
        assert(all.skip(0) =~= all);
    }
    while i < settings.len()
        invariant
            i <= settings@.len(),
            all == setting_views(settings@),
            value(all, key@) == value(all.skip(i as int), key@),
        decreases settings@.len() - i,
    {
        proof {
            assert(all.skip(i as int)[0] == settings@[i as int]@);
            assert(all.skip(i as int).drop_first() =~= all.skip(i + 1));
        }
        if text::str_eq(settings[i].key.as_str(), key) {
            return Some(&settings[i].value);
        }
        i += 1;
    }
    None
}

/// The number under that key.
pub fn get_u32_prop(settings: &Vec<Setting>, key: &str) -> (number: Option<u32>)
    ensures
        number == (match value(setting_views(settings@), key@) {
            Some(ValueView::Number(n)) => Some(n),
            _ => None,
        }),
{
    match get_prop(settings, key) {
        Some(SettingValue::Number(n)) => Some(*n),
        _ => None,
    }
}

/// The text under that key.
pub open spec fn text_value(settings: Seq<SettingView>, key: Seq<char>) -> Option<Seq<char>> {
    match value(settings, key) {
        Some(ValueView::Text(t)) => Some(t),
        _ => None,
    }
}

/// The text under that key.
pub fn get_string_prop(settings: &Vec<Setting>, key: &str) -> (found: Option<String>)
    ensures
        chars_of(found) == text_value(setting_views(settings@), key@),
{
    match get_prop(settings, key) {
        Some(SettingValue::Text(t)) => Some(t.clone()),
        _ => None,
    }
}

/// The object path under that key.
pub fn get_object_path_prop(settings: &Vec<Setting>, key: &str) -> (found: Option<String>)
    ensures
        chars_of(found) == (match value(setting_views(settings@), key@) {
            Some(ValueView::Path(p)) => Some(p),
            _ => None,
        }),
{
    match get_prop(settings, key) {
        Some(SettingValue::Path(p)) => Some(p.clone()),
        _ => None,
    }
}

/// The flag under that key.
pub fn get_bool_prop(settings: &Vec<Setting>, key: &str) -> (found: Option<bool>)
    ensures
        found == (match value(setting_views(settings@), key@) {
            Some(ValueView::Flag(f)) => Some(f),
            _ => None,
        }),
{
    match get_prop(settings, key) {
        Some(SettingValue::Flag(f)) => Some(*f),
        _ => None,
    }
}

/// `String::from_utf8`: the text whose UTF-8 encoding the bytes are, if they are one.
#[verifier::external_body]
pub(crate) fn utf8_text(bytes: Vec<u8>) -> (text: Option<String>)
    ensures
        text is Some <==> valid_utf8(bytes@),
        text is Some ==> encode_utf8(text->0@) == bytes@,
{
    String::from_utf8(bytes).ok()
}

/// A copy of bytes.
pub(crate) fn copy_bytes(bytes: &Vec<u8>) -> (copy: Vec<u8>)
    ensures
        copy@ == bytes@,
{
    let mut copy: Vec<u8> = Vec::new();
    let mut i: usize = 0;
    while i < bytes.len()
        invariant
            i <= bytes@.len(),
            copy@ == bytes@.take(i as int),
        decreases bytes@.len() - i,
    {
        copy.push(bytes[i]);
        i += 1;
    }
    proof {
        assert(bytes@.take(i as int) =~= bytes@);
    }
    copy
}

/// Whether the character is a hexadecimal digit.
pub open spec fn hex_digit(c: char) -> bool {
    ('0' <= c && c <= '9') || ('a' <= c && c <= 'f') || ('A' <= c && c <= 'F')
}

/// Whether the key is a WEP key as such: hexadecimal digits or ASCII text of a key's length.
/// Anything else is a passphrase.
pub open spec fn wep_key(password: Seq<char>) -> bool {
    ||| (password.len() == 10 || password.len() == 26) && forall|i: int| 0 <= i < password.len() ==> hex_digit(#[trigger] password[i])
    ||| (password.len() == 5 || password.len() == 13) && is_ascii_chars(password)
}

fn all_hex(chars: &Vec<char>) -> (yes: bool)
    ensures
        yes == forall|i: int| 0 <= i < chars@.len() ==> hex_digit(#[trigger] chars@[i]),
{
    let mut i: usize = 0;
    while i < chars.len()
        invariant
            i <= chars@.len(),
            forall|j: int| 0 <= j < i ==> hex_digit(#[trigger] chars@[j]),
        decreases chars@.len() - i,
    {
        let c = chars[i];
        if !(('0' <= c && c <= '9') || ('a' <= c && c <= 'f') || ('A' <= c && c <= 'F')) {
            assert(!hex_digit(chars@[i as int]));
            return false;
        }
        i += 1;
    }
    true
}

/// Whether an access point with those flags uses WEP.
pub open spec fn uses_wep(flags: u32, security: u32) -> bool {
    flags & 1 != 0 && security == 0
}

/// Whether joining takes a password: for WEP, and for WPA with a pre-shared key or SAE.
pub open spec fn needs_password(flags: u32, security: u32) -> bool {
    uses_wep(flags, security) || security & 0x500 != 0
}

/// The settings of a new profile: the SSID, and the password where one is needed. Everything
/// else is left to NetworkManager.
pub open spec fn new_profile(ssid: Seq<char>, password: Seq<char>, flags: u32, security: u32) -> Seq<SectionView> {
    let wifi = SectionView {
        name: "802-11-wireless"@,
        settings: seq![SettingView { key: "ssid"@, value: ValueView::Bytes(encode_utf8(ssid)) }],
    };
    if !needs_password(flags, security) {
        seq![wifi]
    } else if uses_wep(flags, security) {
        seq![
            wifi,
            SectionView {
                name: "802-11-wireless-security"@,
                settings: seq![
                    SettingView { key: "wep-key0"@, value: ValueView::Text(password) },
                    SettingView {
                        key: "wep-key-type"@,
                        value: ValueView::Number(if wep_key(password) { 1 } else { 2 }),
                    },
                    SettingView { key: "wep-key-flags"@, value: ValueView::Number(0) },
                ],
            },
        ]
    } else {
        seq![
            wifi,
            SectionView {
                name: "802-11-wireless-security"@,
                settings: seq![
                    SettingView { key: "psk"@, value: ValueView::Text(password) },
                    SettingView { key: "psk-flags"@, value: ValueView::Number(0) },
                ],
            },
        ]
    }
}

/// Why a new profile cannot be made: it needs a password.
#[derive(Clone, Copy, Debug, PartialEq, Eq, Structural)]
pub struct PasswordRequired;

impl PasswordRequired {
    pub fn message(self) -> (text: String)
        ensures
            text@ == "Wi-Fi password is required"@,
    {
        "Wi-Fi password is required".to_owned()
    }
}

fn setting(key: &str, value: SettingValue) -> (s: Setting)
    ensures
        s@ == (SettingView { key: key@, value: value@ }),
{
    Setting { key: key.to_owned(), value }
}

/// The settings of a new profile for an access point with those flags.
pub fn new_wifi_settings(
    ssid: &str,
    password: Option<&str>,
    flags: u32,
    security: u32,
) -> (settings: Result<Vec<Section>, PasswordRequired>)
    ensures
        settings is Err <==> needs_password(flags, security) && (password is None || password->0@.len() == 0),
        settings is Ok ==> section_views(settings->Ok_0@) == new_profile(
            ssid@,
            (match password {
                Some(p) => p@,
                None => Seq::empty(),
            }),
            flags,
            security,
        ),
{
    let mut wifi: Vec<Setting> = Vec::new();
    wifi.push(setting("ssid", SettingValue::Bytes(ssid.as_bytes_vec())));
    let mut sections: Vec<Section> = Vec::new();
    proof {
        assert(setting_views(wifi@) =~= seq![SettingView { key: "ssid"@, value: ValueView::Bytes(encode_utf8(ssid@)) }]);
    }
    sections.push(Section { name: "802-11-wireless".to_owned(), settings: wifi });
    let wep = flags & 1 != 0 && security == 0;
    if wep || security & 0x500 != 0 {
        let key = match password {
            Some(p) => p,
            None => {
                return Err(PasswordRequired);
            }
        };
        if key.is_empty() {
            return Err(PasswordRequired);
        }
        let mut secrets: Vec<Setting> = Vec::new();
        if wep {
            let chars = text::to_chars(key);
            let raw = (chars.len() == 10 || chars.len() == 26) && all_hex(&chars);
            let ascii = (chars.len() == 5 || chars.len() == 13) && key.is_ascii();
            let kind: u32 = if raw || ascii { 1 } else { 2 };
            secrets.push(setting("wep-key0", SettingValue::Text(key.to_owned())));
            secrets.push(setting("wep-key-type", SettingValue::Number(kind)));
            secrets.push(setting("wep-key-flags", SettingValue::Number(0)));
        } else {
            secrets.push(setting("psk", SettingValue::Text(key.to_owned())));
            secrets.push(setting("psk-flags", SettingValue::Number(0)));
        }
        proof {
            let full = new_profile(ssid@, key@, flags, security);
            assert(setting_views(secrets@) =~= full[1].settings);
        }
        sections.push(Section { name: "802-11-wireless-security".to_owned(), settings: secrets });
        proof {
            assert(section_views(sections@) =~= new_profile(ssid@, key@, flags, security));
        }
    } else {
        proof {
            assert(section_views(sections@) =~= seq![sections@[0]@]);
        }
    }
    Ok(sections)
}

/// How a network authenticates.
#[derive(Clone, Copy, Debug, PartialEq, Eq, Structural)]
pub enum WifiAuthentication {
    Open,
    Wpa,
    Sae,
}

/// What it takes to join a network.
#[derive(Debug)]
pub struct WifiCredentials {
    pub ssid: String,
    pub password: Option<String>,
    pub hidden: bool,
    pub authentication: WifiAuthentication,
}

/// Why credentials cannot be had from a profile.
#[derive(Debug)]
pub enum CredentialError {
    NotWifi,
    InvalidSsid,
    /// A key management that cannot be handed on.
    Unsupported(String),
    PasswordUnavailable,
}

/// What a [`CredentialError`] holds.
pub enum CredentialTrouble {
    NotWifi,
    InvalidSsid,
    Unsupported(Seq<char>),
    PasswordUnavailable,
}

impl View for CredentialError {
    type V = CredentialTrouble;

    open spec fn view(&self) -> CredentialTrouble {
        match *self {
            CredentialError::NotWifi => CredentialTrouble::NotWifi,
            CredentialError::InvalidSsid => CredentialTrouble::InvalidSsid,
            CredentialError::Unsupported(key_mgmt) => CredentialTrouble::Unsupported(key_mgmt@),
            CredentialError::PasswordUnavailable => CredentialTrouble::PasswordUnavailable,
        }
    }
}

impl CredentialTrouble {
    /// The error in words.
    pub open spec fn words(self) -> Seq<char> {
        match self {
            CredentialTrouble::NotWifi => "Active connection is not Wi-Fi"@,
            CredentialTrouble::InvalidSsid => "Wi-Fi profile has no valid SSID"@,
            CredentialTrouble::Unsupported(key_mgmt) => "Unsupported Wi-Fi security: "@ + key_mgmt,
            CredentialTrouble::PasswordUnavailable => "Saved Wi-Fi password is unavailable"@,
        }
    }
}

impl CredentialError {

    /// The error in words.
    pub fn message(&self) -> (text: String)
        ensures
            text@ == self@.words(),
    {
        match self {
            CredentialError::NotWifi => "Active connection is not Wi-Fi".to_owned(),
            CredentialError::InvalidSsid => "Wi-Fi profile has no valid SSID".to_owned(),
            CredentialError::Unsupported(key_mgmt) => {
                "Unsupported Wi-Fi security: ".to_owned().concat(key_mgmt.as_str())
            }
            CredentialError::PasswordUnavailable => "Saved Wi-Fi password is unavailable".to_owned(),
        }
    }
}

/// What the settings of a profile say about its credentials.
#[derive(Debug)]
pub enum ProfileCredentials {
    /// An open network: nothing more is needed.
    Complete(WifiCredentials),
    /// The password has to be read from the profile's secrets.
    NeedSecrets { ssid: String, hidden: bool, authentication: WifiAuthentication },
}

/// What [`WifiCredentials`] hold.
pub struct CredentialsView {
    pub ssid: Seq<char>,
    pub password: Option<Seq<char>>,
    pub hidden: bool,
    pub authentication: WifiAuthentication,
}

impl View for WifiCredentials {
    type V = CredentialsView;

    open spec fn view(&self) -> CredentialsView {
        CredentialsView {
            ssid: self.ssid@,
            password: chars_of(self.password),
            hidden: self.hidden,
            authentication: self.authentication,
        }
    }
}

/// What [`ProfileCredentials`] hold.
pub enum ProfileView {
    Complete(CredentialsView),
    NeedSecrets { ssid: Seq<char>, hidden: bool, authentication: WifiAuthentication },
}

impl View for ProfileCredentials {
    type V = ProfileView;

    open spec fn view(&self) -> ProfileView {
        match *self {
            ProfileCredentials::Complete(c) => ProfileView::Complete(c@),
            ProfileCredentials::NeedSecrets { ssid, hidden, authentication } => ProfileView::NeedSecrets {
                ssid: ssid@,
                hidden,
                authentication,
            },
        }
    }
}

/// The SSID bytes of the Wi-Fi section.
pub open spec fn ssid_bytes(wifi: Seq<SettingView>) -> Option<Seq<u8>> {
    match value(wifi, "ssid"@) {
        Some(ValueView::Bytes(b)) => Some(b),
        _ => None,
    }
}

/// Whether the Wi-Fi section names its network in valid text.
pub open spec fn has_ssid(wifi: Seq<SettingView>) -> bool {
    ssid_bytes(wifi) is Some && ssid_bytes(wifi)->0.len() > 0 && valid_utf8(ssid_bytes(wifi)->0)
}

/// The key management of the security section.
pub open spec fn key_management(security: Seq<SettingView>) -> Seq<char> {
    match text_value(security, "key-mgmt"@) {
        Some(k) => k,
        None => Seq::empty(),
    }
}

/// Whether the profile marks its network as hidden.
pub open spec fn marked_hidden(wifi: Seq<SettingView>) -> bool {
    value(wifi, "hidden"@) == Some(ValueView::Flag(true))
}

/// What the settings of a Wi-Fi profile say about its credentials, or why they say nothing.
pub open spec fn profile_says(sections: Seq<SectionView>) -> Result<ProfileView, CredentialTrouble> {
    let security = section(sections, "802-11-wireless-security"@);
    match section(sections, "802-11-wireless"@) {
        None => Err(CredentialTrouble::NotWifi),
        Some(wifi) => if !has_ssid(wifi) {
            Err(CredentialTrouble::InvalidSsid)
        } else {
            let ssid = decode_utf8(ssid_bytes(wifi)->0);
            let hidden = marked_hidden(wifi);
            match security {
                None => Ok(
                    ProfileView::Complete(
                        CredentialsView { ssid, password: None, hidden, authentication: WifiAuthentication::Open },
                    ),
                ),
                Some(s) => if key_management(s) == "wpa-psk"@ {
                    Ok(ProfileView::NeedSecrets { ssid, hidden, authentication: WifiAuthentication::Wpa })
                } else if key_management(s) == "sae"@ {
                    Ok(ProfileView::NeedSecrets { ssid, hidden, authentication: WifiAuthentication::Sae })
                } else {
                    Err(CredentialTrouble::Unsupported(key_management(s)))
                },
            }
        },
    }
}

/// Reads the settings of a Wi-Fi profile.
pub fn profile_credentials(sections: &Vec<Section>) -> (read: Result<ProfileCredentials, CredentialError>)
    ensures
        match read {
            Ok(p) => profile_says(section_views(sections@)) == Ok::<ProfileView, CredentialTrouble>(p@),
            Err(e) => profile_says(section_views(sections@)) == Err::<ProfileView, CredentialTrouble>(e@),
        },
{
    proof {
        reveal_strlit("wpa-psk");
        reveal_strlit("sae");
        assert("wpa-psk"@.len() != "sae"@.len());
    }
    let wifi = match settings_section(sections, "802-11-wireless") {
        Some(s) => s,
        None => {
            return Err(CredentialError::NotWifi);
        }
    };
    let bytes = match get_prop(&wifi.settings, "ssid") {
        Some(SettingValue::Bytes(b)) => copy_bytes(b),
        _ => {
            return Err(CredentialError::InvalidSsid);
        }
    };
    if bytes.len() == 0 {
        return Err(CredentialError::InvalidSsid);
    }
    let ssid = match utf8_text(bytes) {
        Some(s) => s,
        None => {
            return Err(CredentialError::InvalidSsid);
        }
    };
    proof {
        encode_utf8_decode_utf8(ssid@);
    }
    let hidden = match get_bool_prop(&wifi.settings, "hidden") {
        Some(h) => h,
        None => false,
    };
    let security = match settings_section(sections, "802-11-wireless-security") {
        Some(s) => s,
        None => {
            return Ok(
                ProfileCredentials::Complete(
                    WifiCredentials { ssid, password: None, hidden, authentication: WifiAuthentication::Open },
                ),
            );
        }
    };
    let key_mgmt = match get_string_prop(&security.settings, "key-mgmt") {
        Some(k) => k,
        None => String::new(),
    };
    if text::str_eq(key_mgmt.as_str(), "wpa-psk") {
        Ok(ProfileCredentials::NeedSecrets { ssid, hidden, authentication: WifiAuthentication::Wpa })
    } else if text::str_eq(key_mgmt.as_str(), "sae") {
        Ok(ProfileCredentials::NeedSecrets { ssid, hidden, authentication: WifiAuthentication::Sae })
    } else {
        Err(CredentialError::Unsupported(key_mgmt))
    }
}

/// The password that the secrets of a profile hold.
pub open spec fn saved_password(secrets: Seq<SectionView>) -> Option<Seq<char>> {
    match section(secrets, "802-11-wireless-security"@) {
        Some(settings) => text_value(settings, "psk"@),
        None => None,
    }
}

/// Credentials completed with the secrets of their profile, which must hold a password.
pub open spec fn completed(
    ssid: Seq<char>,
    hidden: bool,
    authentication: WifiAuthentication,
    secrets: Seq<SectionView>,
) -> Result<CredentialsView, CredentialTrouble> {
    match saved_password(secrets) {
        Some(password) => if password.len() > 0 {
            Ok(CredentialsView { ssid, password: Some(password), hidden, authentication })
        } else {
            Err(CredentialTrouble::PasswordUnavailable)
        },
        None => Err(CredentialTrouble::PasswordUnavailable),
    }
}

/// Completes credentials with the secrets of their profile.
pub fn with_secrets(
    ssid: String,
    hidden: bool,
    authentication: WifiAuthentication,
    secrets: &Vec<Section>,
) -> (credentials: Result<WifiCredentials, CredentialError>)
    ensures
        match credentials {
            Ok(c) => completed(ssid@, hidden, authentication, section_views(secrets@)) == Ok::<
                CredentialsView,
                CredentialTrouble,
            >(c@),
            Err(e) => completed(ssid@, hidden, authentication, section_views(secrets@)) == Err::<
                CredentialsView,
                CredentialTrouble,
            >(e@),
        },
{
    let password = match settings_section(secrets, "802-11-wireless-security") {
        Some(s) => get_string_prop(&s.settings, "psk"),
        None => None,
    };
    match password {
        Some(p) => {
            if p.as_str().is_empty() {
                Err(CredentialError::PasswordUnavailable)
            } else {
                Ok(WifiCredentials { ssid, password: Some(p), hidden, authentication })
            }
        }
        None => Err(CredentialError::PasswordUnavailable),
    }
}

/// What is found under a name is the first that has it.
pub proof fn the_first_of_a_name_is_found(
    sections: Seq<SectionView>,
    settings: Seq<SettingView>,
    name: Seq<char>,
    i: int,
)
    ensures
        0 <= i < sections.len() && sections[i].name == name && (forall|k: int|
            0 <= k < i ==> (#[trigger] sections[k]).name != name) ==> section(sections, name) == Some(sections[i].settings),
        0 <= i < settings.len() && settings[i].key == name && (forall|k: int|
            0 <= k < i ==> (#[trigger] settings[k]).key != name) ==> value(settings, name) == Some(settings[i].value),
        (forall|k: int| 0 <= k < sections.len() ==> (#[trigger] sections[k]).name != name) ==> section(sections, name) is None,
        (forall|k: int| 0 <= k < settings.len() ==> (#[trigger] settings[k]).key != name) ==> value(settings, name) is None,
    decreases sections.len() + settings.len(),
{
    if sections.len() > 0 || settings.len() > 0 {
        let a = if sections.len() > 0 { sections.drop_first() } else { sections };
        let b = if settings.len() > 0 { settings.drop_first() } else { settings };
        the_first_of_a_name_is_found(a, b, name, i - 1);
        assert forall|k: int| 0 <= k < a.len() implies sections.len() > 0 && #[trigger] a[k] == sections[k + 1] by {}
        assert forall|k: int| 0 <= k < b.len() implies settings.len() > 0 && #[trigger] b[k] == settings[k + 1] by {}
        if 0 < i < sections.len() && sections[i].name == name && (forall|k: int|
            0 <= k < i ==> (#[trigger] sections[k]).name != name) {
            assert(sections[0].name != name);
            assert(a[i - 1] == sections[i]);
        }
        if 0 < i < settings.len() && settings[i].key == name && (forall|k: int|
            0 <= k < i ==> (#[trigger] settings[k]).key != name) {
            assert(settings[0].key != name);
            assert(b[i - 1] == settings[i]);
        }
        if sections.len() > 0 && (forall|k: int| 0 <= k < sections.len() ==> (#[trigger] sections[k]).name != name) {
            assert(sections[0].name != name);
        }
        if settings.len() > 0 && (forall|k: int| 0 <= k < settings.len() ==> (#[trigger] settings[k]).key != name) {
            assert(settings[0].key != name);
        }
    }
}

/// A password is needed for WEP, and for keys of WPA of either kind.
pub proof fn passwords_are_needed_for_wep_and_wpa(flags: u32, security: u32)
    ensures
        needs_password(flags, security) <==> (flags % 2 == 1 && security == 0) || (security / 0x100) % 2 == 1 || (security
            / 0x400) % 2 == 1,
{
    assert(flags & 1 != 0 <==> flags % 2 == 1) by (bit_vector);
    assert(security & 0x500 != 0 <==> (security / 0x100) % 2 == 1 || (security / 0x400) % 2 == 1) by (bit_vector);
}

/// A new profile holds the name of its network, and the password exactly where one is needed: as a key of WEP,
/// told apart from a passphrase, or as a key of WPA.
pub proof fn new_profiles_hold_name_and_password(ssid: Seq<char>, password: Seq<char>, flags: u32, security: u32)
    ensures
        ({
            let profile = new_profile(ssid, password, flags, security);
            let wep = flags & 1 != 0 && security == 0;
            &&& profile[0].name == "802-11-wireless"@
            &&& value(profile[0].settings, "ssid"@) == Some(ValueView::Bytes(encode_utf8(ssid)))
            &&& profile.len() == (if wep || security & 0x500 != 0 { 2int } else { 1 })
            &&& profile.len() == 2 ==> profile[1].name == "802-11-wireless-security"@
            &&& wep ==> {
                &&& profile[1].settings.len() == 3
                &&& profile[1].settings[0] == (SettingView { key: "wep-key0"@, value: ValueView::Text(password) })
                &&& profile[1].settings[1].key == "wep-key-type"@
                &&& profile[1].settings[1].value == ValueView::Number(1) <==> wep_key(password)
                &&& profile[1].settings[1].value == ValueView::Number(2) <==> !wep_key(password)
                &&& profile[1].settings[2] == (SettingView { key: "wep-key-flags"@, value: ValueView::Number(0) })
            }
            &&& !wep && security & 0x500 != 0 ==> {
                &&& profile[1].settings.len() == 2
                &&& profile[1].settings[0] == (SettingView { key: "psk"@, value: ValueView::Text(password) })
                &&& profile[1].settings[1] == (SettingView { key: "psk-flags"@, value: ValueView::Number(0) })
            }
        }),
{
}

/// Keys of WEP are of two lengths each: of hexadecimal digits, or of plain text.
pub proof fn keys_of_wep_are_told_by_length(password: Seq<char>)
    ensures
        wep_key(password) ==> password.len() == 5 || password.len() == 10 || password.len() == 13 || password.len() == 26,
        password.len() == 10 || password.len() == 26 ==> (wep_key(password) <==> forall|i: int|
            0 <= i < password.len() ==> ('0' <= #[trigger] password[i] <= '9' || 'a' <= password[i] <= 'f' || 'A'
                <= password[i] <= 'F')),
        password.len() == 5 || password.len() == 13 ==> (wep_key(password) <==> is_ascii_chars(password)),
{
    if forall|i: int|
        0 <= i < password.len() ==> ('0' <= #[trigger] password[i] <= '9' || 'a' <= password[i] <= 'f' || 'A' <= password[i]
            <= 'F') {
        assert forall|i: int| 0 <= i < password.len() implies hex_digit(#[trigger] password[i]) by {}
    }
    if wep_key(password) && (password.len() == 10 || password.len() == 26) {
        assert forall|i: int| 0 <= i < password.len() implies ('0' <= #[trigger] password[i] <= '9' || 'a' <= password[i]
            <= 'f' || 'A' <= password[i] <= 'F') by {
            assert(hex_digit(password[i]));
        }
    }
}

/// What a profile says: it must be one of Wi-Fi and name its network in text. Without security it is open; otherwise
/// its key management tells how to prove oneself, and others than WPA and SAE are not supported.
pub proof fn profiles_say_how_to_join(sections: Seq<SectionView>, wifi: Seq<SettingView>, bytes: Seq<u8>)
    ensures
        section(sections, "802-11-wireless"@) is None ==> profile_says(sections) == Err::<ProfileView, CredentialTrouble>(
            CredentialTrouble::NotWifi,
        ),
        section(sections, "802-11-wireless"@) == Some(wifi) && value(wifi, "ssid"@) == Some(ValueView::Bytes(bytes)) ==> {
            let hidden = value(wifi, "hidden"@) == Some(ValueView::Flag(true));
            let security = section(sections, "802-11-wireless-security"@);
            &&& bytes.len() == 0 || !valid_utf8(bytes) ==> profile_says(sections) == Err::<ProfileView, CredentialTrouble>(
                CredentialTrouble::InvalidSsid,
            )
            &&& bytes.len() > 0 && valid_utf8(bytes) ==> {
                &&& security is None ==> profile_says(sections) == Ok::<ProfileView, CredentialTrouble>(
                    ProfileView::Complete(
                        CredentialsView {
                            ssid: decode_utf8(bytes),
                            password: None,
                            hidden,
                            authentication: WifiAuthentication::Open,
                        },
                    ),
                )
                &&& security matches Some(s) ==> (value(s, "key-mgmt"@) == Some(ValueView::Text("wpa-psk"@)) ==> profile_says(
                    sections,
                ) == Ok::<ProfileView, CredentialTrouble>(
                    ProfileView::NeedSecrets {
                        ssid: decode_utf8(bytes),
                        hidden,
                        authentication: WifiAuthentication::Wpa,
                    },
                ))
                &&& security matches Some(s) ==> (value(s, "key-mgmt"@) == Some(ValueView::Text("sae"@)) ==> profile_says(
                    sections,
                ) == Ok::<ProfileView, CredentialTrouble>(
                    ProfileView::NeedSecrets {
                        ssid: decode_utf8(bytes),
                        hidden,
                        authentication: WifiAuthentication::Sae,
                    },
                ))
                &&& security matches Some(s) ==> (value(s, "key-mgmt"@) is None ==> profile_says(sections) is Err)
            }
        },
{
    reveal_strlit("wpa-psk");
    reveal_strlit("sae");
    assert("wpa-psk"@.len() != "sae"@.len());
}

/// Credentials are completed by the key of WPA among the secrets, if there is one that is not empty.
pub proof fn secrets_complete_credentials(
    ssid: Seq<char>,
    hidden: bool,
    authentication: WifiAuthentication,
    secrets: Seq<SectionView>,
)
    ensures
        ({
            let told = match section(secrets, "802-11-wireless-security"@) {
                Some(s) => value(s, "psk"@),
                None => None,
            };
            match completed(ssid, hidden, authentication, secrets) {
                Ok(c) => c.ssid == ssid && c.hidden == hidden && c.authentication == authentication && (c.password matches Some(
                    p,
                ) && p.len() > 0 && told == Some(ValueView::Text(p))),
                Err(trouble) => trouble == CredentialTrouble::PasswordUnavailable && !(told matches Some(
                    ValueView::Text(p),
                ) && p.len() > 0),
            }
        }),
{
}

/// Why there are no credentials is told in words, with the name of the security that is not supported.
pub proof fn credential_trouble_is_told_in_words(key_management: Seq<char>)
    ensures
        CredentialTrouble::NotWifi.words() == "Active connection is not Wi-Fi"@,
        CredentialTrouble::InvalidSsid.words() == "Wi-Fi profile has no valid SSID"@,
        CredentialTrouble::Unsupported(key_management).words() == "Unsupported Wi-Fi security: "@ + key_management,
        CredentialTrouble::PasswordUnavailable.words() == "Saved Wi-Fi password is unavailable"@,
{
}

} // verus!
