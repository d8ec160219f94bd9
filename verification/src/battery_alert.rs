//! Warnings when the battery runs low.

use vstd::prelude::*;
use crate::battery::{self, BatterySnapshot};
use crate::config::BatteryAlertConfig;
use crate::desktop_notification::Urgency;
use crate::text::{self, digits};

verus! {

/// What is warned of.
#[derive(Clone, Copy, Debug, PartialEq, Eq, Structural)]
pub enum AlertLevel {
    Quiet,
    Low,
    Critical,
}

/// Whether the battery is worth watching: it is there, its level is known and it runs down.
pub open spec fn watched(snapshot: BatterySnapshot) -> bool {
    snapshot.available && snapshot.percent is Some && snapshot.discharging()
}

/// Whether the battery is worth watching: it is there, its level is known and it runs down.
pub fn battery_should_be_tracked(snapshot: &BatterySnapshot) -> (yes: bool)
    ensures
        yes == watched(*snapshot),
{
    snapshot.available && snapshot.percent.is_some() && snapshot.is_discharging()
}

/// What a percentage calls for.
pub open spec fn level_at(percent: u32, config: BatteryAlertConfig) -> AlertLevel {
    if percent <= config.critical_threshold {
        AlertLevel::Critical
    } else if percent <= config.low_threshold {
        AlertLevel::Low
    } else {
        AlertLevel::Quiet
    }
}

/// What a percentage calls for.
pub fn alert_level_for_percent(percent: u32, config: &BatteryAlertConfig) -> (level: AlertLevel)
    ensures
        level == level_at(percent, *config),
{
    if percent <= config.critical_threshold {
        AlertLevel::Critical
    } else if percent <= config.low_threshold {
        AlertLevel::Low
    } else {
        AlertLevel::Quiet
    }
}

/// What a reading of the battery calls for.
pub open spec fn called_for(config: BatteryAlertConfig, snapshot: BatterySnapshot, percent: u8) -> AlertLevel {
    if config.enabled && watched(snapshot) {
        level_at(percent as u32, config)
    } else {
        AlertLevel::Quiet
    }
}

/// A notification to be sent. It passes by, and its toast is closed with it.
#[derive(Debug)]
pub struct Alert {
    pub summary: &'static str,
    pub body: String,
    pub icon: String,
    pub urgency: Urgency,
    /// Which notification it is: for [`BatteryAlertController::sent`].
    pub generation: u64,
    pub level: AlertLevel,
}

/// What an [`Alert`] holds.
pub struct AlertView {
    pub summary: Seq<char>,
    pub body: Seq<char>,
    pub icon: Seq<char>,
    pub urgency: Urgency,
    pub generation: u64,
    pub level: AlertLevel,
}

impl View for Alert {
    type V = AlertView;

    open spec fn view(&self) -> AlertView {
        AlertView {
            summary: self.summary@,
            body: self.body@,
            icon: self.icon@,
            urgency: self.urgency,
            generation: self.generation,
            level: self.level,
        }
    }
}

/// What an alert holds, if there is one.
pub open spec fn alert_of(alert: Option<Alert>) -> Option<AlertView> {
    match alert {
        Some(a) => Some(a@),
        None => None,
    }
}

/// The notification for a level.
pub open spec fn alert_for(percent: u8, level: AlertLevel, generation: u64) -> AlertView {
    if level == AlertLevel::Critical {
        AlertView {
            summary: "Critical battery"@,
            body: digits(percent as nat) + "% remaining. Plug in now."@,
            icon: "battery-caution-symbolic"@,
            urgency: Urgency::Critical,
            generation,
            level,
        }
    } else {
        AlertView {
            summary: "Low battery"@,
            body: digits(percent as nat) + "% remaining"@,
            icon: battery::icon(percent, false),
            urgency: Urgency::Normal,
            generation,
            level,
        }
    }
}

/// What is to be done, in this order.
#[derive(Debug)]
pub struct AlertWork {
    /// The notification to be closed.
    pub close: Option<u32>,
    /// The notification to be sent.
    pub send: Option<Alert>,
}

/// Watches the battery and keeps at most one warning open.
#[derive(Clone, Copy, Debug, PartialEq, Eq, Structural)]
pub struct BatteryAlertController {
    pub config: BatteryAlertConfig,
    pub alert_level: AlertLevel,
    pub notification_id: Option<u32>,
    /// Counts the notifications, so that answers that come late are told apart.
    pub notification_generation: u64,
}

/// The controller after its notification was given up.
pub open spec fn closed(c: BatteryAlertController) -> BatteryAlertController {
    BatteryAlertController {
        notification_id: None,
        notification_generation: (if c.notification_generation == u64::MAX {
            0
        } else {
            (c.notification_generation + 1) as u64
        }),
        ..c
    }
}

/// The controller after a reading that calls for `level`. A step back from critical to low, which a
/// gauge may make while the battery runs down, leaves the warning open.
pub open spec fn after_reading(c: BatteryAlertController, level: AlertLevel) -> BatteryAlertController {
    let next = BatteryAlertController { alert_level: level, ..c };
    if level == AlertLevel::Quiet {
        closed(next)
    } else if c.alert_level == level || (c.alert_level == AlertLevel::Critical && level == AlertLevel::Low) {
        next
    } else {
        closed(next)
    }
}

/// Whether a reading that calls for `level` sends a warning.
pub open spec fn warns(c: BatteryAlertController, level: AlertLevel) -> bool {
    level != AlertLevel::Quiet && c.alert_level != level && !(c.alert_level == AlertLevel::Critical && level
        == AlertLevel::Low)
}

impl BatteryAlertController {
    /// A controller that has warned of nothing.
    pub fn new(config: BatteryAlertConfig) -> (controller: BatteryAlertController)
        ensures
            controller == (BatteryAlertController {
                config,
                alert_level: AlertLevel::Quiet,
                notification_id: None,
                notification_generation: 0,
            }),
    {
        BatteryAlertController {
            config,
            alert_level: AlertLevel::Quiet,
            notification_id: None,
            notification_generation: 0,
        }
    }

    /// Gives the notification up and says which one is to be closed.
    fn close_active_notification(&mut self) -> (close: Option<u32>)
        ensures
            *final(self) == closed(*old(self)),
            close == old(self).notification_id,
    {
        self.notification_generation = if self.notification_generation == u64::MAX {
            0
        } else {
            self.notification_generation + 1
        };
        self.notification_id.take()
    }

    /// The battery was read; `percent` is its level rounded to a whole number. A warning is sent when
    /// the level is reached, not while it lasts.
    pub fn on_battery_changed(&mut self, snapshot: &BatterySnapshot, percent: u8) -> (work: AlertWork)
        ensures
            ({
                let level = called_for(old(self).config, *snapshot, percent);
                &&& *final(self) == after_reading(*old(self), level)
                &&& work.close == (if level == AlertLevel::Quiet || warns(*old(self), level) {
                    old(self).notification_id
                } else {
                    None
                })
                &&& alert_of(work.send) == (if warns(*old(self), level) {
                    Some(alert_for(percent, level, final(self).notification_generation))
                } else {
                    None
                })
            }),
    {
        if !self.config.enabled || !battery_should_be_tracked(snapshot) {
            self.alert_level = AlertLevel::Quiet;
            return AlertWork { close: self.close_active_notification(), send: None };
        }
        let level = alert_level_for_percent(percent as u32, &self.config);
        if level == AlertLevel::Quiet {
            self.alert_level = AlertLevel::Quiet;
            return AlertWork { close: self.close_active_notification(), send: None };
        }
        let current_level = self.alert_level;
        if current_level == level {
            return AlertWork { close: None, send: None };
        }
        self.alert_level = level;
        if current_level == AlertLevel::Critical && level == AlertLevel::Low {
            return AlertWork { close: None, send: None };
        }
        let close = self.close_active_notification();
        AlertWork { close, send: Some(Self::dispatch(percent, level, self.notification_generation)) }
    }

    /// The notification for a level.
    fn dispatch(percent: u8, level: AlertLevel, generation: u64) -> (alert: Alert)
        requires
            level != AlertLevel::Quiet,
        ensures
            alert@ == alert_for(percent, level, generation),
    {
        let number = text::decimal(percent as u64);
        if level == AlertLevel::Critical {
            Alert {
                summary: "Critical battery",
                body: text::joined(number.as_str(), "% remaining. Plug in now."),
                icon: "battery-caution-symbolic".to_owned(),
                urgency: Urgency::Critical,
                generation,
                level,
            }
        } else {
            Alert {
                summary: "Low battery",
                body: text::joined(number.as_str(), "% remaining"),
                icon: battery::battery_icon_name(percent, false),
                urgency: Urgency::Normal,
                generation,
                level,
            }
        }
    }

    /// The settings have changed: everything starts anew with what the battery was last read as.
    pub fn configure(&mut self, config: BatteryAlertConfig, snapshot: &BatterySnapshot, percent: u8) -> (work:
        AlertWork)
        ensures
            ({
                let anew = closed(BatteryAlertController { config, alert_level: AlertLevel::Quiet, ..*old(self) });
                let level = called_for(config, *snapshot, percent);
                &&& *final(self) == after_reading(anew, level)
                &&& work.close == old(self).notification_id
                &&& alert_of(work.send) == (if level != AlertLevel::Quiet {
                    Some(alert_for(percent, level, final(self).notification_generation))
                } else {
                    None
                })
            }),
    {
        self.config = config;
        self.alert_level = AlertLevel::Quiet;
        let close = self.close_active_notification();
        let work = self.on_battery_changed(snapshot, percent);
        AlertWork { close, send: work.send }
    }

    /// The server has answered to the sending of an alert: `id` is what it calls the notification, if
    /// it took it. Says which notification is to be closed: one that nobody wants any more.
    pub fn sent(&mut self, generation: u64, level: AlertLevel, id: Option<u32>) -> (close: Option<u32>)
        ensures
            ({
                let wanted = old(self).notification_generation == generation;
                match id {
                    Some(n) => if wanted && old(self).alert_level != AlertLevel::Quiet {
                        &&& *final(self) == (BatteryAlertController { notification_id: Some(n), ..*old(self) })
                        &&& close is None
                    } else {
                        &&& *final(self) == *old(self)
                        &&& close == Some(n)
                    },
                    None => {
                        &&& *final(self) == (if wanted && old(self).alert_level == level {
                            BatteryAlertController { alert_level: AlertLevel::Quiet, ..*old(self) }
                        } else {
                            *old(self)
                        })
                        &&& close is None
                    },
                }
            }),
    {
        match id {
            None => {
                if self.notification_generation == generation && self.alert_level == level {
                    self.alert_level = AlertLevel::Quiet;
                }
                None
            },
            Some(n) => {
                if self.notification_generation == generation && self.alert_level != AlertLevel::Quiet {
                    self.notification_id = Some(n);
                    None
                } else {
                    Some(n)
                }
            },
        }
    }
}

/// While the battery calls for the same level, it is warned of once.
pub proof fn warning_is_given_once(c: BatteryAlertController, level: AlertLevel)
    ensures
        !warns(after_reading(c, level), level),
{
}

/// After a reading that falls back from critical to low, the next critical one warns again.
pub proof fn critical_warns_again_after_jitter(c: BatteryAlertController)
    requires
        c.alert_level == AlertLevel::Critical,
    ensures
        !warns(c, AlertLevel::Low),
        after_reading(c, AlertLevel::Low).notification_id == c.notification_id,
        warns(after_reading(c, AlertLevel::Low), AlertLevel::Critical),
{
}

/// A warning is never sent while another is open, and none stays open when the battery calls for
/// none.
pub proof fn at_most_one_warning_is_open(c: BatteryAlertController, level: AlertLevel)
    ensures
        warns(c, level) ==> after_reading(c, level).notification_id is None,
        level == AlertLevel::Quiet ==> after_reading(c, level).notification_id is None,
{
}

/// An answer that belongs to a warning given up since is told apart.
pub proof fn late_answers_are_told_apart(c: BatteryAlertController)
    ensures
        closed(c).notification_generation != c.notification_generation,
{
}

/// A lower level of the battery never calls for less.
pub proof fn lower_levels_call_for_more(a: u32, b: u32, config: BatteryAlertConfig)
    requires
        a <= b,
    ensures
        level_at(b, config) == AlertLevel::Critical ==> level_at(a, config) == AlertLevel::Critical,
        level_at(b, config) != AlertLevel::Quiet ==> level_at(a, config) != AlertLevel::Quiet,
{
}

/// A battery is warned of while it runs down, is empty or is about to run down, as far as its level is known: as
/// critical at or below the one threshold, as low at or below the other.
pub proof fn thresholds_decide_while_discharging(config: BatteryAlertConfig, snapshot: BatterySnapshot, percent: u8)
    ensures
        ({
            let level = called_for(config, snapshot, percent);
            let running_down = snapshot.state == Some(2u32) || snapshot.state == Some(3u32) || snapshot.state == Some(6u32);
            let counts = config.enabled && snapshot.available && snapshot.percent is Some && running_down;
            &&& level == AlertLevel::Critical <==> counts && percent <= config.critical_threshold
            &&& level == AlertLevel::Low <==> counts && config.critical_threshold < percent <= config.low_threshold
        }),
{
}

/// A warning is sent when things get worse, and only then: from quiet to low or critical, or from low to critical.
pub proof fn warnings_are_sent_when_it_gets_worse(c: BatteryAlertController, level: AlertLevel)
    ensures
        warns(c, level) <==> (c.alert_level == AlertLevel::Quiet && level == AlertLevel::Low) || (c.alert_level
            != AlertLevel::Critical && level == AlertLevel::Critical),
{
}

/// A reading is remembered. What was warned of is given up with a new warning and when all is quiet, so that late
/// answers no longer count; otherwise it stays open.
pub proof fn readings_are_remembered(c: BatteryAlertController, level: AlertLevel)
    ensures
        ({
            let after = after_reading(c, level);
            let given_up = level == AlertLevel::Quiet || (c.alert_level == AlertLevel::Quiet && level == AlertLevel::Low)
                || (c.alert_level != AlertLevel::Critical && level == AlertLevel::Critical);
            &&& after.alert_level == level && after.config == c.config
            &&& given_up ==> after.notification_id is None && after.notification_generation != c.notification_generation
            &&& given_up && c.notification_generation < u64::MAX ==> after.notification_generation
                == c.notification_generation + 1
            &&& !given_up ==> after.notification_id == c.notification_id && after.notification_generation
                == c.notification_generation
        }),
{
}

/// A critical battery is told urgently. Both warnings tell what is left, and belong to the attempt they were made
/// for.
pub proof fn warnings_tell_what_is_left(percent: u8, level: AlertLevel, generation: u64)
    ensures
        ({
            let alert = alert_for(percent, level, generation);
            &&& alert.urgency == Urgency::Critical <==> level == AlertLevel::Critical
            &&& alert.urgency != Urgency::Critical ==> alert.urgency == Urgency::Normal
            &&& (digits(percent as nat) + "% remaining"@).is_prefix_of(alert.body)
            &&& level == AlertLevel::Critical ==> alert.summary == "Critical battery"@ && alert.icon
                == "battery-caution-symbolic"@
            &&& level == AlertLevel::Low ==> alert.summary == "Low battery"@ && alert.icon == battery::icon(percent, false)
            &&& alert.generation == generation && alert.level == level
        }),
{
    reveal_strlit("% remaining. Plug in now.");
    reveal_strlit("% remaining");
    let start = digits(percent as nat) + "% remaining"@;
    let urgent = digits(percent as nat) + "% remaining. Plug in now."@;
    assert(start =~= urgent.take(start.len() as int));
    assert(start =~= start.take(start.len() as int));
}

} // verus!
