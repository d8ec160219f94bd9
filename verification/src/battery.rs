//! The state of the battery as UPower tells it.

use vstd::prelude::*;
use crate::config::options::{equal_optional_doubles, same_optional_double};
use crate::text::{self, ascii_lowered, chars_of, trim};

verus! {

/// Where the kernel lists power supplies.
pub const POWER_SUPPLY_PATH: &'static str = "/sys/class/power_supply";

pub const UPOWER_NAME: &'static str = "org.freedesktop.UPower";

pub const DISPLAY_PATH: &'static str = "/org/freedesktop/UPower/devices/DisplayDevice";

pub const DEVICE_IFACE: &'static str = "org.freedesktop.UPower.Device";

/// The codes by which UPower tells the state of a battery.
pub const STATE_CHARGING: u32 = 1;

pub const STATE_DISCHARGING: u32 = 2;

pub const STATE_EMPTY: u32 = 3;

pub const STATE_FULLY_CHARGED: u32 = 4;

pub const STATE_PENDING_DISCHARGE: u32 = 6;

/// What is known of the battery. The percentage and the power drawn are bit patterns of doubles.
#[derive(Clone, Copy, Debug, PartialEq, Eq, Structural)]
pub struct BatterySnapshot {
    /// Whether UPower is there.
    pub available: bool,
    pub percent: Option<u64>,
    /// One of the codes of UPower.
    pub state: Option<u32>,
    /// In watts.
    pub energy_rate: Option<u64>,
    /// In seconds.
    pub time_to_empty: Option<i64>,
    /// In seconds.
    pub time_to_full: Option<i64>,
}

impl BatterySnapshot {
    /// Nothing is known.
    pub open spec fn nothing() -> BatterySnapshot {
        BatterySnapshot {
            available: false,
            percent: None,
            state: None,
            energy_rate: None,
            time_to_empty: None,
            time_to_full: None,
        }
    }

    /// Whether the battery runs down, is empty or is about to run down.
    pub open spec fn discharging(self) -> bool {
        ||| self.state == Some(STATE_DISCHARGING)
        ||| self.state == Some(STATE_EMPTY)
        ||| self.state == Some(STATE_PENDING_DISCHARGE)
    }

    /// Whether two snapshots show the same. Doubles are compared as numbers.
    pub open spec fn shows(self, other: BatterySnapshot) -> bool {
        &&& self.available == other.available
        &&& equal_optional_doubles(self.percent, other.percent)
        &&& self.state == other.state
        &&& equal_optional_doubles(self.energy_rate, other.energy_rate)
        &&& self.time_to_empty == other.time_to_empty
        &&& self.time_to_full == other.time_to_full
    }

    /// Nothing is known.
    pub fn unknown() -> (snapshot: BatterySnapshot)
        ensures
            snapshot == BatterySnapshot::nothing(),
    {
        BatterySnapshot {
            available: false,
            percent: None,
            state: None,
            energy_rate: None,
            time_to_empty: None,
            time_to_full: None,
        }
    }

    /// What is known before UPower has answered: whether there is a battery.
    pub fn initial(has_battery: bool) -> (snapshot: BatterySnapshot)
        ensures
            snapshot == (BatterySnapshot { available: has_battery, ..BatterySnapshot::nothing() }),
    {
        let mut snapshot = BatterySnapshot::unknown();
        snapshot.available = has_battery;
        snapshot
    }

    /// Whether the battery runs down, is empty or is about to run down.
    pub fn is_discharging(&self) -> (yes: bool)
        ensures
            yes == self.discharging(),
    {
        match self.state {
            Some(state) => state == STATE_DISCHARGING || state == STATE_EMPTY || state == STATE_PENDING_DISCHARGE,
            None => false,
        }
    }

    /// UPower has gone. Says whether listeners are to be told.
    pub fn set_unavailable(&mut self) -> (notify: bool)
        ensures
            notify == old(self).available,
            *final(self) == (if old(self).available {
                BatterySnapshot::nothing()
            } else {
                *old(self)
            }),
    {
        if !self.available {
            return false;
        }
        *self = BatterySnapshot::unknown();
        true
    }

    /// UPower has told its properties. Says whether listeners are to be told: not when the snapshot
    /// shows the same as before, which it then keeps.
    pub fn update_from_proxy(
        &mut self,
        percent: Option<u64>,
        state: Option<u32>,
        energy_rate: Option<u64>,
        time_to_empty: Option<i64>,
        time_to_full: Option<i64>,
    ) -> (notify: bool)
        ensures
            ({
                let told = BatterySnapshot {
                    available: true,
                    percent,
                    state,
                    energy_rate,
                    time_to_empty,
                    time_to_full,
                };
                &&& notify == !old(self).shows(told)
                &&& *final(self) == (if notify {
                    told
                } else {
                    *old(self)
                })
            }),
    {
        if self.available && same_optional_double(self.percent, percent) && self.state == state
            && same_optional_double(self.energy_rate, energy_rate) && self.time_to_empty == time_to_empty
            && self.time_to_full == time_to_full {
            return false;
        }
        *self = BatterySnapshot {
            available: true,
            percent,
            state,
            energy_rate,
            time_to_empty,
            time_to_full,
        };
        true
    }
}

/// What files the kernel gives of a power supply, as far as they could be read.
#[derive(Debug)]
pub struct PowerSupply {
    /// What the file `type` holds.
    pub kind: Option<String>,
    /// What the file `scope` holds.
    pub scope: Option<String>,
}

/// Whether a file was read and holds a word, whatever its case and the white space around it.
pub open spec fn says(file: Option<Seq<char>>, word: Seq<char>) -> bool {
    file matches Some(content) && ascii_lowered(trim(content)) == ascii_lowered(word)
}

/// Whether a power supply is a battery of the system and not one of a mouse or the like.
pub open spec fn system_battery(supply: PowerSupply) -> bool {
    says(chars_of(supply.kind), "battery"@) && !says(chars_of(supply.scope), "device"@)
}

fn file_says(file: &Option<String>, word: &str) -> (yes: bool)
    ensures
        yes == says(chars_of(*file), word@),
{
    match file {
        Some(content) => text::same_ignoring_case(text::trimmed(content.as_str()).as_str(), word),
        None => false,
    }
}

/// Whether there is a battery of the system among the power supplies.
pub fn has_battery_device(supplies: &Vec<PowerSupply>) -> (yes: bool)
    ensures
        yes == exists|i: int| 0 <= i < supplies@.len() && system_battery(#[trigger] supplies@[i]),
{
    let mut i: usize = 0;
    while i < supplies.len()
        invariant
            i <= supplies@.len(),
            forall|j: int| 0 <= j < i ==> !system_battery(#[trigger] supplies@[j]),
        decreases supplies@.len() - i,
    {
        if file_says(&supplies[i].kind, "battery") && !file_says(&supplies[i].scope, "device") {
            return true;
        }
        i += 1;
    }
    false
}

/// The word for how full a battery is.
pub open spec fn level_name(percent: u8) -> Seq<char> {
    if percent >= 95 {
        "full"@
    } else if percent >= 80 {
        "high"@
    } else if percent >= 60 {
        "medium-high"@
    } else if percent >= 40 {
        "medium"@
    } else if percent >= 25 {
        "medium-low"@
    } else if percent >= 10 {
        "low"@
    } else {
        "very-low"@
    }
}

/// The name of the icon for a battery.
pub open spec fn icon(percent: u8, charging: bool) -> Seq<char> {
    let name = "battery-"@ + level_name(percent);
    if charging {
        name + "-charging"@
    } else {
        name
    }
}

/// The name of the icon for a battery.
pub fn battery_icon_name(percent: u8, charging: bool) -> (name: String)
    ensures
        name@ == icon(percent, charging),
{
    let level = if percent >= 95 {
        "full"
    } else if percent >= 80 {
        "high"
    } else if percent >= 60 {
        "medium-high"
    } else if percent >= 40 {
        "medium"
    } else if percent >= 25 {
        "medium-low"
    } else if percent >= 10 {
        "low"
    } else {
        "very-low"
    };
    let name = text::joined("battery-", level);
    if charging {
        text::joined(name.as_str(), "-charging")
    } else {
        name
    }
}

/// The icon of a battery that a name of an icon theme stands for.
pub open spec fn icon_alias(name: Seq<char>) -> Option<Seq<char>> {
    if name == "battery-full"@ || name == "battery-level-100-symbolic"@ || name == "battery-full-symbolic"@ {
        Some("battery-full"@)
    } else if name == "battery-high"@ || name == "battery-level-80-symbolic"@ || name
        == "battery-good-symbolic"@ {
        Some("battery-high"@)
    } else if name == "battery-medium-high"@ || name == "battery-level-60-symbolic"@ {
        Some("battery-medium-high"@)
    } else if name == "battery-medium"@ || name == "battery-level-50-symbolic"@ {
        Some("battery-medium"@)
    } else if name == "battery-medium-low"@ || name == "battery-level-30-symbolic"@ {
        Some("battery-medium-low"@)
    } else if name == "battery-low"@ || name == "battery-level-20-symbolic"@ || name == "battery-low-symbolic"@ {
        Some("battery-low"@)
    } else if name == "battery-very-low"@ || name == "battery-level-10-symbolic"@ || name
        == "battery-empty-symbolic"@ {
        Some("battery-very-low"@)
    } else if name == "battery-critical-alert"@ || name == "battery-caution-symbolic"@ {
        Some("battery-critical-alert"@)
    } else if name == "battery-symbolic"@ {
        Some("battery-medium"@)
    } else {
        None
    }
}

/// The icon of a battery that a name of an icon theme stands for.
pub fn normalize_battery_icon_name(icon_name: &str) -> (name: Option<&'static str>)
    ensures
        name is Some <==> icon_alias(icon_name@) is Some,
        name is Some ==> Some(name->0@) == icon_alias(icon_name@),
{
    if text::str_eq(icon_name, "battery-full") || text::str_eq(icon_name, "battery-level-100-symbolic")
        || text::str_eq(icon_name, "battery-full-symbolic") {
        Some("battery-full")
    } else if text::str_eq(icon_name, "battery-high") || text::str_eq(icon_name, "battery-level-80-symbolic")
        || text::str_eq(icon_name, "battery-good-symbolic") {
        Some("battery-high")
    } else if text::str_eq(icon_name, "battery-medium-high") || text::str_eq(
        icon_name,
        "battery-level-60-symbolic",
    ) {
        Some("battery-medium-high")
    } else if text::str_eq(icon_name, "battery-medium") || text::str_eq(icon_name, "battery-level-50-symbolic") {
        Some("battery-medium")
    } else if text::str_eq(icon_name, "battery-medium-low") || text::str_eq(
        icon_name,
        "battery-level-30-symbolic",
    ) {
        Some("battery-medium-low")
    } else if text::str_eq(icon_name, "battery-low") || text::str_eq(icon_name, "battery-level-20-symbolic")
        || text::str_eq(icon_name, "battery-low-symbolic") {
        Some("battery-low")
    } else if text::str_eq(icon_name, "battery-very-low") || text::str_eq(icon_name, "battery-level-10-symbolic")
        || text::str_eq(icon_name, "battery-empty-symbolic") {
        Some("battery-very-low")
    } else if text::str_eq(icon_name, "battery-critical-alert") || text::str_eq(
        icon_name,
        "battery-caution-symbolic",
    ) {
        Some("battery-critical-alert")
    } else if text::str_eq(icon_name, "battery-symbolic") {
        Some("battery-medium")
    } else {
        None
    }
}

proof fn names_differ()
    ensures
        "battery-full"@.len() == 12,
        "battery-high"@.len() == 12,
        "battery-high"@ != "battery-full"@,
        "battery-medium-high"@.len() == 19,
        "battery-medium"@.len() == 14,
        "battery-medium-low"@.len() == 18,
        "battery-low"@.len() == 11,
        "battery-very-low"@.len() == 16,
        "battery-critical-alert"@.len() == 22,
        "battery-level-100-symbolic"@.len() == 26,
        "battery-full-symbolic"@.len() == 21,
        "battery-level-80-symbolic"@.len() == 25,
        "battery-good-symbolic"@.len() == 21,
        "battery-level-60-symbolic"@.len() == 25,
        "battery-level-50-symbolic"@.len() == 25,
        "battery-level-30-symbolic"@.len() == 25,
        "battery-level-20-symbolic"@.len() == 25,
        "battery-low-symbolic"@.len() == 20,
        "battery-level-10-symbolic"@.len() == 25,
        "battery-empty-symbolic"@.len() == 22,
        "battery-empty-symbolic"@ != "battery-critical-alert"@,
{
    reveal_strlit("battery-full");
    reveal_strlit("battery-high");
    reveal_strlit("battery-medium-high");
    reveal_strlit("battery-medium");
    reveal_strlit("battery-medium-low");
    reveal_strlit("battery-low");
    reveal_strlit("battery-very-low");
    reveal_strlit("battery-critical-alert");
    reveal_strlit("battery-level-100-symbolic");
    reveal_strlit("battery-full-symbolic");
    reveal_strlit("battery-level-80-symbolic");
    reveal_strlit("battery-good-symbolic");
    reveal_strlit("battery-level-60-symbolic");
    reveal_strlit("battery-level-50-symbolic");
    reveal_strlit("battery-level-30-symbolic");
    reveal_strlit("battery-level-20-symbolic");
    reveal_strlit("battery-low-symbolic");
    reveal_strlit("battery-level-10-symbolic");
    reveal_strlit("battery-empty-symbolic");
    assert("battery-high"@[8] != "battery-full"@[8]);
    assert("battery-empty-symbolic"@[8] != "battery-critical-alert"@[8]);
}

/// What an icon name stands for stands for itself.
pub proof fn normalizing_is_idempotent(name: Seq<char>)
    ensures
        icon_alias(name) matches Some(n) ==> icon_alias(n) == Some(n),
{
    names_differ();
}

proof fn level_names(percent: u8)
    ensures
        percent >= 95 ==> icon(percent, false) == "battery-full"@,
        80 <= percent < 95 ==> icon(percent, false) == "battery-high"@,
        60 <= percent < 80 ==> icon(percent, false) == "battery-medium-high"@,
        40 <= percent < 60 ==> icon(percent, false) == "battery-medium"@,
        25 <= percent < 40 ==> icon(percent, false) == "battery-medium-low"@,
        10 <= percent < 25 ==> icon(percent, false) == "battery-low"@,
        percent < 10 ==> icon(percent, false) == "battery-very-low"@,
{
    reveal_strlit("battery-");
    reveal_strlit("full");
    reveal_strlit("high");
    reveal_strlit("medium-high");
    reveal_strlit("medium");
    reveal_strlit("medium-low");
    reveal_strlit("low");
    reveal_strlit("very-low");
    reveal_strlit("battery-full");
    reveal_strlit("battery-high");
    reveal_strlit("battery-medium-high");
    reveal_strlit("battery-medium");
    reveal_strlit("battery-medium-low");
    reveal_strlit("battery-low");
    reveal_strlit("battery-very-low");
    assert("battery-"@ + "full"@ =~= "battery-full"@);
    assert("battery-"@ + "high"@ =~= "battery-high"@);
    assert("battery-"@ + "medium-high"@ =~= "battery-medium-high"@);
    assert("battery-"@ + "medium"@ =~= "battery-medium"@);
    assert("battery-"@ + "medium-low"@ =~= "battery-medium-low"@);
    assert("battery-"@ + "low"@ =~= "battery-low"@);
    assert("battery-"@ + "very-low"@ =~= "battery-very-low"@);
}

/// The icon of a battery that is not charging is one that icon names stand for.
pub proof fn icons_are_normal(percent: u8)
    ensures
        icon_alias(icon(percent, false)) == Some(icon(percent, false)),
{
    names_differ();
    level_names(percent);
}

/// Telling the same properties again tells nobody anything, unless one of them is not a number.
pub proof fn repeated_properties_are_silent(s: BatterySnapshot)
    requires
        equal_optional_doubles(s.percent, s.percent),
        equal_optional_doubles(s.energy_rate, s.energy_rate),
    ensures
        s.shows(s),
{
}

/// The icon tells how full the battery is, and that it charges.
pub proof fn icons_tell_the_level(percent: u8)
    ensures
        percent >= 95 ==> icon(percent, false) == "battery-full"@,
        80 <= percent < 95 ==> icon(percent, false) == "battery-high"@,
        60 <= percent < 80 ==> icon(percent, false) == "battery-medium-high"@,
        40 <= percent < 60 ==> icon(percent, false) == "battery-medium"@,
        25 <= percent < 40 ==> icon(percent, false) == "battery-medium-low"@,
        10 <= percent < 25 ==> icon(percent, false) == "battery-low"@,
        percent < 10 ==> icon(percent, false) == "battery-very-low"@,
        icon(percent, true) == icon(percent, false) + "-charging"@,
{
    level_names(percent);
}

/// Names of icon themes stand for the icon of the same level.
pub proof fn theme_names_stand_for_levels()
    ensures
        icon_alias("battery-full-symbolic"@) == Some("battery-full"@),
        icon_alias("battery-level-100-symbolic"@) == Some("battery-full"@),
        icon_alias("battery-good-symbolic"@) == Some("battery-high"@),
        icon_alias("battery-low-symbolic"@) == Some("battery-low"@),
        icon_alias("battery-empty-symbolic"@) == Some("battery-very-low"@),
        icon_alias("battery-caution-symbolic"@) == Some("battery-critical-alert"@),
        icon_alias("battery-symbolic"@) == Some("battery-medium"@),
        icon_alias("battery-level-80-symbolic"@) == Some("battery-high"@),
        icon_alias("battery-level-60-symbolic"@) == Some("battery-medium-high"@),
        icon_alias("battery-level-50-symbolic"@) == Some("battery-medium"@),
        icon_alias("battery-level-30-symbolic"@) == Some("battery-medium-low"@),
        icon_alias("battery-level-20-symbolic"@) == Some("battery-low"@),
        icon_alias("battery-level-10-symbolic"@) == Some("battery-very-low"@),
{
    names_differ();
    reveal_strlit("battery-caution-symbolic");
    reveal_strlit("battery-symbolic");
    reveal_strlit("battery-full-symbolic");
    reveal_strlit("battery-good-symbolic");
    reveal_strlit("battery-level-80-symbolic");
    reveal_strlit("battery-level-60-symbolic");
    reveal_strlit("battery-level-50-symbolic");
    reveal_strlit("battery-level-30-symbolic");
    reveal_strlit("battery-level-20-symbolic");
    reveal_strlit("battery-level-10-symbolic");
    assert("battery-caution-symbolic"@.len() == 24);
    assert("battery-symbolic"@.len() == 16);
    reveal_strlit("battery-very-low");
    assert("battery-symbolic"@[8] != "battery-very-low"@[8]);
    assert("battery-full-symbolic"@[8] == 'f' && "battery-good-symbolic"@[8] == 'g');
    assert("battery-level-80-symbolic"@[14] == '8');
    assert("battery-level-60-symbolic"@[14] == '6');
    assert("battery-level-50-symbolic"@[14] == '5');
    assert("battery-level-30-symbolic"@[14] == '3');
    assert("battery-level-20-symbolic"@[14] == '2');
    assert("battery-level-10-symbolic"@[14] == '1');
}

/// A battery runs down in three of the states that are told: discharging, empty and about to discharge.
pub proof fn batteries_run_down_in_three_states(s: BatterySnapshot)
    ensures
        s.discharging() <==> (s.state == Some(2u32) || s.state == Some(3u32) || s.state == Some(6u32)),
{
}

/// Snapshots that differ in anything do not show the same.
pub proof fn every_difference_shows(a: BatterySnapshot, b: BatterySnapshot)
    requires
        a.shows(b),
    ensures
        a.available == b.available,
        a.state == b.state,
        a.time_to_empty == b.time_to_empty,
        a.time_to_full == b.time_to_full,
        a.percent is Some <==> b.percent is Some,
        a.energy_rate is Some <==> b.energy_rate is Some,
        a.percent is Some && a.percent != b.percent ==> a.percent->0 % 0x8000_0000_0000_0000 == 0 && b.percent->0
            % 0x8000_0000_0000_0000 == 0,
        a.energy_rate is Some && a.energy_rate != b.energy_rate ==> a.energy_rate->0 % 0x8000_0000_0000_0000 == 0
            && b.energy_rate->0 % 0x8000_0000_0000_0000 == 0,
{
}

/// A power supply is a battery of the system exactly if its type is that word, and its scope is not a device: in any
/// case and with white space around.
pub proof fn batteries_are_told_by_their_files(
    before: Seq<char>,
    word: Seq<char>,
    after: Seq<char>,
    supply: PowerSupply,
)
    requires
        forall|k: int| 0 <= k < before.len() ==> text::white_space(#[trigger] before[k]),
        forall|k: int| 0 <= k < after.len() ==> text::white_space(#[trigger] after[k]),
        chars_of(supply.kind) == Some(before + word + after),
        ascii_lowered(word) == seq!['b', 'a', 't', 't', 'e', 'r', 'y'],
    ensures
        supply.scope is None ==> system_battery(supply),
        supply.scope matches Some(scope) ==> (system_battery(supply) <==> ascii_lowered(trim(scope@)) != seq![
            'd', 'e', 'v', 'i', 'c', 'e',
        ]),
{
    reveal_strlit("battery");
    reveal_strlit("device");
    let low = ascii_lowered(word);
    let wanted = seq!['b', 'a', 't', 't', 'e', 'r', 'y'];
    assert(wanted.len() == 7 && wanted[0] == 'b' && wanted[6] == 'y');
    assert(low.len() == word.len());
    assert(low[0] == 'b' && low[6] == 'y');
    assert(low[0] == text::ascii_lower(word[0]) && low[6] == text::ascii_lower(word[6]));
    text::words_come_back_from_between_spaces(before, word, after);
    assert(ascii_lowered("battery"@) =~= seq!['b', 'a', 't', 't', 'e', 'r', 'y']);
    assert(ascii_lowered("device"@) =~= seq!['d', 'e', 'v', 'i', 'c', 'e']);
}

/// Before anything was read nothing is known of a battery.
pub proof fn nothing_is_known_of_a_battery_at_first()
    ensures
        ({
            let b = BatterySnapshot::nothing();
            &&& !b.available && b.percent is None && b.state is None && b.energy_rate is None
            &&& b.time_to_empty is None && b.time_to_full is None
        }),
{
}

} // verus!
