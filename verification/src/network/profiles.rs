//! Saved Wi-Fi profiles, and the access points that a refresh reads.

use vstd::prelude::*;
use vstd::utf8::{decode_utf8, encode_utf8, encode_utf8_decode_utf8, valid_utf8};
use crate::network::settings::{
    copy_bytes, get_prop, section, section_views, settings_section, ssid_bytes, utf8_text, Section,
    SettingValue,
};
use crate::network::{SecurityType, WifiNetwork};
use crate::text::{self, chars_of, views};

verus! {

/// How long the saved SSIDs are kept, in milliseconds.
pub const KNOWN_SSIDS_TTL_MS: u64 = 30_000;

/// The flag of a profile that only lives for an activation.
pub const PROFILE_FLAG_VOLATILE: u32 = 0x4;

/// Whether the saved SSIDs that were read at `last_refresh` can still be used at `now`.
pub open spec fn fresh(last_refresh: Option<u64>, now: u64) -> bool {
    last_refresh is Some && now - last_refresh->0 < KNOWN_SSIDS_TTL_MS
}

/// Whether the saved SSIDs that were read at `last_refresh` can still be used at `now`.
pub fn known_ssids_are_fresh(last_refresh: Option<u64>, now: u64) -> (yes: bool)
    ensures
        yes == fresh(last_refresh, now),
{
    match last_refresh {
        Some(at) => now < at || now - at < KNOWN_SSIDS_TTL_MS,
        None => false,
    }
}

/// Errors of profiles that are private, or that were removed while they were listed.
pub open spec fn unavailable(name: Option<String>) -> bool {
    let n = chars_of(name);
    ||| n == Some("org.freedesktop.NetworkManager.Settings.PermissionDenied"@)
    ||| n == Some("org.freedesktop.DBus.Error.AccessDenied"@)
    ||| n == Some("org.freedesktop.DBus.Error.UnknownObject"@)
    ||| n == Some("org.freedesktop.DBus.Error.UnknownInterface"@)
    ||| n == Some("org.freedesktop.DBus.Error.UnknownMethod"@)
}

/// Whether the error concerns one profile and does not invalidate the others.
pub fn unavailable_profile(name: &Option<String>) -> (yes: bool)
    ensures
        yes == unavailable(*name),
{
    match name {
        Some(n) => {
            let n = n.as_str();
            text::str_eq(n, "org.freedesktop.NetworkManager.Settings.PermissionDenied") || text::str_eq(
                n,
                "org.freedesktop.DBus.Error.AccessDenied",
            ) || text::str_eq(n, "org.freedesktop.DBus.Error.UnknownObject") || text::str_eq(
                n,
                "org.freedesktop.DBus.Error.UnknownInterface",
            ) || text::str_eq(n, "org.freedesktop.DBus.Error.UnknownMethod")
        }
        None => false,
    }
}

/// A failed call: the name of its D-Bus error, and its text.
#[derive(Debug)]
pub struct CallError {
    pub name: Option<String>,
    pub message: String,
}

/// A saved Wi-Fi profile.
#[derive(Debug)]
pub struct WifiProfile {
    pub path: String,
    pub ssid: String,
}

/// What to do with a profile that was opened.
#[derive(Debug)]
pub enum OpenStep {
    /// Leave it out.
    Skip,
    /// Read its settings.
    ReadSettings,
    /// Give up the whole listing.
    Fail(String),
}

/// What to do with a profile whose settings were asked for.
#[derive(Debug)]
pub enum SettingsStep {
    /// Leave it out.
    Skip,
    /// It is a Wi-Fi profile for that SSID.
    Add(String),
    /// Give up the whole listing.
    Fail(String),
}

/// What to do with a profile that was opened, with its flags if they could be read.
///
/// Volatile profiles belong to an activation in flight and are left out, as are profiles
/// without flags.
pub open spec fn on_opening(opened: Result<Option<u32>, CallError>) -> OpenStep {
    match opened {
        Err(e) => if unavailable(e.name) {
            OpenStep::Skip
        } else {
            OpenStep::Fail(e.message)
        },
        Ok(Some(flags)) => if flags & PROFILE_FLAG_VOLATILE != 0 {
            OpenStep::Skip
        } else {
            OpenStep::ReadSettings
        },
        Ok(None) => OpenStep::Skip,
    }
}

/// Decides on a profile that was opened.
pub fn profile_opened(opened: &Result<Option<u32>, CallError>) -> (step: OpenStep)
    ensures
        step == on_opening(*opened),
{
    match opened {
        Err(e) => {
            if unavailable_profile(&e.name) {
                OpenStep::Skip
            } else {
                OpenStep::Fail(e.message.clone())
            }
        }
        Ok(Some(flags)) => {
            if *flags & PROFILE_FLAG_VOLATILE != 0 {
                OpenStep::Skip
            } else {
                OpenStep::ReadSettings
            }
        }
        Ok(None) => OpenStep::Skip,
    }
}

/// The SSID bytes that the settings of a profile hold.
pub open spec fn profile_ssid(sections: Seq<Section>) -> Option<Seq<u8>> {
    match section(section_views(sections), "802-11-wireless"@) {
        Some(wifi) => ssid_bytes(wifi),
        None => None,
    }
}

/// What becomes of a profile in a listing.
pub enum Verdict {
    /// It is left out.
    Skip,
    /// It is a Wi-Fi profile for that SSID.
    Add(Seq<char>),
    /// The whole listing is given up.
    Fail(String),
}

/// What becomes of a profile whose settings were asked for: a Wi-Fi profile whose SSID is text
/// is listed.
pub open spec fn on_settings(answer: Result<Vec<Section>, CallError>) -> Verdict {
    match answer {
        Err(e) => if unavailable(e.name) {
            Verdict::Skip
        } else {
            Verdict::Fail(e.message)
        },
        Ok(sections) => match profile_ssid(sections@) {
            Some(bytes) => if valid_utf8(bytes) {
                Verdict::Add(decode_utf8(bytes))
            } else {
                Verdict::Skip
            },
            None => Verdict::Skip,
        },
    }
}

impl SettingsStep {
    /// What the step makes of the profile.
    pub open spec fn verdict(self) -> Verdict {
        match self {
            SettingsStep::Skip => Verdict::Skip,
            SettingsStep::Add(ssid) => Verdict::Add(ssid@),
            SettingsStep::Fail(message) => Verdict::Fail(message),
        }
    }
}

/// Decides on a profile whose settings were asked for.
pub fn settings_answered(answer: &Result<Vec<Section>, CallError>) -> (step: SettingsStep)
    ensures
        step.verdict() == on_settings(*answer),
{
    match answer {
        Err(e) => {
            if unavailable_profile(&e.name) {
                SettingsStep::Skip
            } else {
                SettingsStep::Fail(e.message.clone())
            }
        }
        Ok(sections) => match settings_section(sections, "802-11-wireless") {
            Some(wifi) => match get_prop(&wifi.settings, "ssid") {
                Some(SettingValue::Bytes(bytes)) => match utf8_text(copy_bytes(bytes)) {
                    Some(ssid) => {
                        proof {
                            encode_utf8_decode_utf8(ssid@);
                        }
                        SettingsStep::Add(ssid)
                    }
                    None => SettingsStep::Skip,
                },
                _ => SettingsStep::Skip,
            },
            None => SettingsStep::Skip,
        },
    }
}

/// What was read of a saved profile.
#[derive(Debug)]
pub struct ProfileRead {
    pub path: String,
    /// Its flags, if it could be opened and has any.
    pub opened: Result<Option<u32>, CallError>,
    /// Its settings, where they were asked for.
    pub settings: Option<Result<Vec<Section>, CallError>>,
}

/// What becomes of a profile that was read.
pub open spec fn verdict(read: ProfileRead) -> Verdict {
    match on_opening(read.opened) {
        OpenStep::Skip => Verdict::Skip,
        OpenStep::Fail(message) => Verdict::Fail(message),
        OpenStep::ReadSettings => match read.settings {
            Some(answer) => on_settings(answer),
            None => Verdict::Skip,
        },
    }
}

/// Paths and SSIDs of the profiles that are listed, or why the listing was given up: the first
/// failure counts.
pub open spec fn listed(reads: Seq<ProfileRead>) -> Result<Seq<(String, Seq<char>)>, String>
    decreases reads.len(),
{
    if reads.len() == 0 {
        Ok(Seq::empty())
    } else {
        match listed(reads.drop_last()) {
            Err(message) => Err(message),
            Ok(before) => match verdict(reads.last()) {
                Verdict::Skip => Ok(before),
                Verdict::Add(ssid) => Ok(before.push((reads.last().path, ssid))),
                Verdict::Fail(message) => Err(message),
            },
        }
    }
}

/// Paths and SSIDs of profiles.
pub open spec fn profile_views(profiles: Seq<WifiProfile>) -> Seq<(String, Seq<char>)> {
    profiles.map_values(|p: WifiProfile| (p.path, p.ssid@))
}

/// The SSIDs of profiles.
pub open spec fn profile_ssids(profiles: Seq<WifiProfile>) -> Set<Seq<char>> {
    profiles.map_values(|p: WifiProfile| p.ssid@).to_set()
}

fn settings_verdict(read: &ProfileRead) -> (step: SettingsStep)
    ensures
        step.verdict() == verdict(*read),
{
    match profile_opened(&read.opened) {
        OpenStep::Skip => SettingsStep::Skip,
        OpenStep::Fail(message) => SettingsStep::Fail(message),
        OpenStep::ReadSettings => match &read.settings {
            Some(answer) => settings_answered(answer),
            None => SettingsStep::Skip,
        },
    }
}

/// The saved Wi-Fi profiles among those that were read.
pub fn wifi_profiles(reads: &Vec<ProfileRead>) -> (profiles: Result<Vec<WifiProfile>, String>)
    ensures
        match profiles {
            Ok(list) => listed(reads@) == Ok::<Seq<(String, Seq<char>)>, String>(profile_views(list@)),
            Err(message) => listed(reads@) == Err::<Seq<(String, Seq<char>)>, String>(message),
        },
{
    let mut profiles: Vec<WifiProfile> = Vec::new();
    let mut i: usize = 0;
    proof {
        assert(profile_views(profiles@) =~= Seq::empty());
        assert(reads@.take(0) =~= Seq::empty());
    }
    while i < reads.len()
        invariant
            i <= reads@.len(),
            listed(reads@.take(i as int)) == Ok::<Seq<(String, Seq<char>)>, String>(profile_views(profiles@)),
        decreases reads@.len() - i,
    {
        let ghost before = profile_views(profiles@);
        proof {
            assert(reads@.take(i + 1).drop_last() =~= reads@.take(i as int));
            assert(reads@.take(i + 1).last() == reads@[i as int]);
        }
        match settings_verdict(&reads[i]) {
            SettingsStep::Skip => {}
            SettingsStep::Add(ssid) => {
                let ghost added = (reads@[i as int].path, ssid@);
                profiles.push(WifiProfile { path: reads[i].path.clone(), ssid });
                proof {
                    assert(profile_views(profiles@) =~= before.push(added));
                }
            }
            SettingsStep::Fail(message) => {
                proof {
                    failures_end_the_listing(reads@.take(i + 1), reads@.skip(i + 1));
                    assert(reads@.take(i + 1) + reads@.skip(i + 1) =~= reads@);
                }
                return Err(message);
            }
        }
        i += 1;
    }
    proof {
        assert(reads@.take(i as int) =~= reads@);
    }
    Ok(profiles)
}

/// Once a listing has failed, nothing that is read later changes that: reading can stop there.
pub proof fn failures_end_the_listing(reads: Seq<ProfileRead>, later: Seq<ProfileRead>)
    requires
        listed(reads) is Err,
    ensures
        listed(reads + later) == listed(reads),
    decreases later.len(),
{
    if later.len() == 0 {
        assert(reads + later =~= reads);
    } else {
        failures_end_the_listing(reads, later.drop_last());
        assert((reads + later).drop_last() =~= reads + later.drop_last());
    }
}

/// A profile that is left out, such as a private or a volatile one, hides none of the others.
pub proof fn skipped_profiles_hide_no_others(before: Seq<ProfileRead>, skipped: ProfileRead, after: Seq<ProfileRead>)
    requires
        verdict(skipped) is Skip,
    ensures
        listed(before.push(skipped) + after) == listed(before + after),
    decreases after.len(),
{
    if after.len() == 0 {
        assert(before.push(skipped) + after =~= before.push(skipped));
        assert(before.push(skipped).drop_last() =~= before);
        assert(before + after =~= before);
    } else {
        skipped_profiles_hide_no_others(before, skipped, after.drop_last());
        assert((before.push(skipped) + after).drop_last() =~= before.push(skipped) + after.drop_last());
        assert((before + after).drop_last() =~= before + after.drop_last());
    }
}

/// A profile that only lives for an activation is never listed.
pub proof fn volatile_profiles_are_skipped(read: ProfileRead, flags: u32)
    requires
        read.opened == Ok::<Option<u32>, CallError>(Some(flags)),
        flags & PROFILE_FLAG_VOLATILE != 0,
    ensures
        verdict(read) is Skip,
{
}

/// The paths of the profiles for `ssid`, in their order.
pub open spec fn paths_for(profiles: Seq<WifiProfile>, ssid: Seq<char>) -> Seq<String> {
    profiles.filter(|p: WifiProfile| p.ssid@ == ssid).map_values(|p: WifiProfile| p.path)
}

/// The profiles to delete when a network is forgotten: all of its profiles, not just one.
pub fn profiles_to_forget(profiles: &Vec<WifiProfile>, ssid: &str) -> (paths: Vec<String>)
    ensures
        paths@ == paths_for(profiles@, ssid@),
{
    let ghost keep = |p: WifiProfile| p.ssid@ == ssid@;
    let mut paths: Vec<String> = Vec::new();
    let mut i: usize = 0;
    proof {
        reveal(Seq::filter);
        assert(paths_for(profiles@.take(0), ssid@) =~= Seq::<String>::empty());
    }
    while i < profiles.len()
        invariant
            i <= profiles@.len(),
            paths@ == paths_for(profiles@.take(i as int), ssid@),
        decreases profiles@.len() - i,
    {
        proof {
            reveal(Seq::filter);
            let more = profiles@.take(i + 1);
            assert(more.drop_last() =~= profiles@.take(i as int));
            assert(more.last() == profiles@[i as int]);
            let kept = profiles@.take(i as int).filter(|p: WifiProfile| p.ssid@ == ssid@);
            assert(kept.push(profiles@[i as int]).map_values(|p: WifiProfile| p.path) =~= kept.map_values(
                |p: WifiProfile| p.path,
            ).push(profiles@[i as int].path));
        }
        if text::str_eq(profiles[i].ssid.as_str(), ssid) {
            paths.push(profiles[i].path.clone());
        }
        i += 1;
    }
    proof {
        assert(profiles@.take(i as int) =~= profiles@);
    }
    paths
}

/// The last error of a list of outcomes.
pub open spec fn last_error(outcomes: Seq<Option<String>>) -> Option<String>
    decreases outcomes.len(),
{
    if outcomes.len() == 0 {
        None
    } else if outcomes.last() is Some {
        outcomes.last()
    } else {
        last_error(outcomes.drop_last())
    }
}

/// How forgetting a network ended: deleting goes on after an error, and the last error counts.
pub fn forget_result(outcomes: &Vec<Option<String>>) -> (result: Result<(), String>)
    ensures
        match last_error(outcomes@) {
            Some(e) => result == Err::<(), String>(e),
            None => result is Ok,
        },
{
    let mut i: usize = outcomes.len();
    proof {
        assert(outcomes@.take(i as int) =~= outcomes@);
    }
    while i > 0
        invariant
            i <= outcomes@.len(),
            last_error(outcomes@) == last_error(outcomes@.take(i as int)),
        decreases i,
    {
        proof {
            assert(outcomes@.take(i as int).drop_last() =~= outcomes@.take(i - 1));
        }
        match &outcomes[i - 1] {
            Some(e) => {
                return Err(e.clone());
            }
            None => {}
        }
        i -= 1;
    }
    Ok(())
}

/// The access points to read: those that are listed, and the active one in any case, which may
/// not be listed yet after a roam.
pub fn access_points_to_read(listed: Vec<String>, active: Option<&str>) -> (paths: Vec<String>)
    ensures
        views(paths@) == (if active is Some && active->0@ != "/"@ && !views(listed@).contains(active->0@) {
            views(listed@).push(active->0@)
        } else {
            views(listed@)
        }),
{
    let mut paths = listed;
    match active {
        Some(ap) => {
            if !text::str_eq(ap, "/") && !text::list_contains(&paths, ap) {
                paths.push(ap.to_owned());
                proof {
                    assert(views(paths@) =~= views(listed@).push(ap@));
                }
            }
        }
        None => {}
    }
    paths
}

/// What was read of an access point.
#[derive(Debug)]
pub struct AccessPointRead {
    pub path: String,
    pub ssid: Option<Vec<u8>>,
    pub strength: Option<u8>,
    pub flags: Option<u32>,
    pub wpa_flags: Option<u32>,
    pub rsn_flags: Option<u32>,
}

/// Whether a flag word says anything.
pub open spec fn some_flag(flags: Option<u32>) -> bool {
    flags is Some && flags->0 != 0
}

fn any_flag(flags: Option<u32>) -> (yes: bool)
    ensures
        yes == some_flag(flags),
{
    match flags {
        Some(f) => f != 0,
        None => false,
    }
}

/// The network of an access point. It is not marked active: that follows from the device.
pub fn network_details(read: AccessPointRead, known_ssids: &Vec<String>) -> (network: WifiNetwork)
    ensures
        if read.ssid is Some && valid_utf8(read.ssid->0@) {
            encode_utf8(network.ssid@) == read.ssid->0@
        } else {
            network.ssid@ == Seq::<char>::empty()
        },
        network.strength == (match read.strength {
            Some(s) => s as i32,
            None => 0,
        }),
        network.security == (if some_flag(read.flags) || some_flag(read.wpa_flags) || some_flag(read.rsn_flags) {
            SecurityType::Secured
        } else {
            SecurityType::Open
        }),
        !network.active,
        network.known == views(known_ssids@).contains(network.ssid@),
        network.known_network_path is None,
        network.path == Some(read.path),
{
    let ssid = match read.ssid {
        Some(bytes) => match utf8_text(bytes) {
            Some(s) => s,
            None => String::new(),
        },
        None => String::new(),
    };
    let strength: i32 = match read.strength {
        Some(s) => s as i32,
        None => 0,
    };
    let security = if any_flag(read.flags) || any_flag(read.wpa_flags) || any_flag(read.rsn_flags) {
        SecurityType::Secured
    } else {
        SecurityType::Open
    };
    let known = text::list_contains(known_ssids, ssid.as_str());
    WifiNetwork { ssid, strength, security, active: false, known, known_network_path: None, path: Some(read.path) }
}

/// A profile is read exactly if it could be opened and its flags do not tell that it is volatile. Profiles that are
/// private or gone are left out; other failures give the listing up.
pub proof fn profiles_are_read_unless_volatile(opened: Result<Option<u32>, CallError>)
    ensures
        on_opening(opened) is ReadSettings <==> (opened matches Ok(Some(flags)) && (flags / 4) % 2 == 0),
        opened matches Err(e) ==> {
            let private = e.name matches Some(n) && (n@ == "org.freedesktop.NetworkManager.Settings.PermissionDenied"@ || n@
                == "org.freedesktop.DBus.Error.AccessDenied"@ || n@ == "org.freedesktop.DBus.Error.UnknownObject"@ || n@
                == "org.freedesktop.DBus.Error.UnknownInterface"@ || n@ == "org.freedesktop.DBus.Error.UnknownMethod"@);
            &&& private ==> on_opening(opened) is Skip
            &&& !private ==> on_opening(opened) == OpenStep::Fail(e.message)
        },
        opened matches Ok(None) ==> on_opening(opened) is Skip,
{
    match opened {
        Ok(Some(flags)) => {
            assert(flags & 4 != 0 <==> (flags / 4) % 2 == 1) by (bit_vector);
            assert((flags / 4) % 2 == 0 || (flags / 4) % 2 == 1);
        },
        _ => {},
    }
}

/// A profile is listed under its SSID exactly if that is text.
pub proof fn profiles_are_listed_by_their_ssid(sections: Vec<Section>, e: CallError)
    ensures
        ({
            let wifi = section(section_views(sections@), "802-11-wireless"@);
            let told = match wifi {
                Some(settings) => crate::network::settings::value(settings, "ssid"@),
                None => None,
            };
            match on_settings(Ok(sections)) {
                Verdict::Add(ssid) => told matches Some(crate::network::settings::ValueView::Bytes(bytes)) && valid_utf8(
                    bytes,
                ) && ssid == decode_utf8(bytes),
                Verdict::Skip => !(told matches Some(crate::network::settings::ValueView::Bytes(bytes)) && valid_utf8(
                    bytes,
                )),
                Verdict::Fail(_) => false,
            }
        }),
        on_settings(Err(e)) is Fail <==> !unavailable(e.name),
{
}

/// All profiles of a network are forgotten, and those of no other.
pub proof fn all_profiles_of_a_network_are_forgotten(profiles: Seq<WifiProfile>, ssid: Seq<char>, path: String)
    ensures
        paths_for(profiles, ssid).contains(path) <==> exists|i: int|
            0 <= i < profiles.len() && (#[trigger] profiles[i]).ssid@ == ssid && profiles[i].path == path,
    decreases profiles.len(),
{
    reveal(Seq::filter);
    if profiles.len() > 0 {
        let head = profiles.drop_last();
        let last = profiles.last();
        all_profiles_of_a_network_are_forgotten(head, ssid, path);
        let kept = head.filter(|p: WifiProfile| p.ssid@ == ssid);
        let before = paths_for(head, ssid);
        let after = paths_for(profiles, ssid);
        assert(profiles[profiles.len() - 1] == last);
        if last.ssid@ == ssid {
            assert(after =~= before.push(last.path));
            assert(after[before.len() as int] == last.path);
        } else {
            assert(after =~= before);
        }
        if before.contains(path) {
            let i = choose|i: int| 0 <= i < head.len() && (#[trigger] head[i]).ssid@ == ssid && head[i].path == path;
            assert(profiles[i] == head[i]);
            let k = choose|k: int| 0 <= k < before.len() && before[k] == path;
            assert(after[k] == path);
        }
        if exists|i: int| 0 <= i < profiles.len() && (#[trigger] profiles[i]).ssid@ == ssid && profiles[i].path == path {
            let i = choose|i: int|
                0 <= i < profiles.len() && (#[trigger] profiles[i]).ssid@ == ssid && profiles[i].path == path;
            if i < head.len() {
                assert(head[i] == profiles[i]);
            }
        }
        if after.contains(path) && !before.contains(path) {
            let k = choose|k: int| 0 <= k < after.len() && after[k] == path;
            assert(k == before.len());
        }
    }
}

/// Forgetting succeeds exactly if every deletion did, and fails with the last error.
pub proof fn the_last_error_is_told(outcomes: Seq<Option<String>>, i: int)
    ensures
        last_error(outcomes) is None <==> forall|k: int| 0 <= k < outcomes.len() ==> #[trigger] outcomes[k] is None,
        0 <= i < outcomes.len() && outcomes[i] is Some && (forall|k: int|
            i < k < outcomes.len() ==> #[trigger] outcomes[k] is None) ==> last_error(outcomes) == outcomes[i],
    decreases outcomes.len(),
{
    if outcomes.len() > 0 {
        let head = outcomes.drop_last();
        the_last_error_is_told(head, i);
        assert(outcomes[outcomes.len() - 1] == outcomes.last());
        assert forall|k: int| 0 <= k < head.len() implies #[trigger] head[k] == outcomes[k] by {}
        if outcomes.last() is None && last_error(head) is None {
            assert forall|k: int| 0 <= k < outcomes.len() implies #[trigger] outcomes[k] is None by {
                if k < head.len() {
                    assert(head[k] is None);
                }
            }
        }
        if forall|k: int| 0 <= k < outcomes.len() ==> #[trigger] outcomes[k] is None {
            assert forall|k: int| 0 <= k < head.len() implies #[trigger] head[k] is None by {
                assert(outcomes[k] is None);
            }
        }
        if 0 <= i < outcomes.len() && outcomes[i] is Some && (forall|k: int|
            i < k < outcomes.len() ==> #[trigger] outcomes[k] is None) && i < head.len() {
            assert(outcomes[outcomes.len() - 1] is None);
            assert forall|k: int| i < k < head.len() implies #[trigger] head[k] is None by {
                assert(outcomes[k] is None);
            }
        }
    }
}

/// Saved SSIDs are used for half a minute after they were read.
pub proof fn saved_ssids_last_half_a_minute(at: u64, now: u64)
    ensures
        fresh(Some(at), now) <==> now < at + 30_000,
        !fresh(None, now),
{
}

/// Flags say something exactly if they could be read and one of them is set.
pub proof fn set_flags_say_something(bits: u32)
    ensures
        !some_flag(None),
        some_flag(Some(bits)) <==> bits > 0,
{
}

} // verus!
