use vibepanel::battery::{
    battery_icon_name, has_battery_device, normalize_battery_icon_name, BatterySnapshot, PowerSupply,
    STATE_CHARGING, STATE_DISCHARGING, STATE_EMPTY, STATE_FULLY_CHARGED, STATE_PENDING_DISCHARGE,
};
use vibepanel::battery_alert::{
    alert_level_for_percent, battery_should_be_tracked, AlertLevel, BatteryAlertController,
};
use vibepanel::config::BatteryAlertConfig;
use vibepanel::desktop_notification::Urgency;

fn snapshot(available: bool, percent: Option<f64>, state: Option<u32>) -> BatterySnapshot {
    BatterySnapshot {
        available,
        percent: percent.map(f64::to_bits),
        state,
        energy_rate: None,
        time_to_empty: None,
        time_to_full: None,
    }
}

#[test]
fn tracks_only_available_discharging_known_percent() {
    assert!(battery_should_be_tracked(&snapshot(
        true,
        Some(50.0),
        Some(STATE_DISCHARGING)
    )));
    assert!(battery_should_be_tracked(&snapshot(
        true,
        Some(50.0),
        Some(STATE_PENDING_DISCHARGE)
    )));
    assert!(!battery_should_be_tracked(&snapshot(
        false,
        Some(50.0),
        Some(STATE_DISCHARGING)
    )));
    assert!(!battery_should_be_tracked(&snapshot(
        true,
        None,
        Some(STATE_DISCHARGING)
    )));
    assert!(!battery_should_be_tracked(&snapshot(
        true,
        Some(50.0),
        Some(STATE_CHARGING)
    )));
}

#[test]
fn classifies_low_and_critical_levels() {
    let config = BatteryAlertConfig {
        enabled: true,
        low_threshold: 20,
        critical_threshold: 5,
    };

    assert_eq!(alert_level_for_percent(21, &config), AlertLevel::Quiet);
    assert_eq!(alert_level_for_percent(20, &config), AlertLevel::Low);
    assert_eq!(alert_level_for_percent(6, &config), AlertLevel::Low);
    assert_eq!(alert_level_for_percent(5, &config), AlertLevel::Critical);
}

#[test]
fn a_battery_runs_down_in_three_states() {
    assert!(snapshot(true, None, Some(STATE_EMPTY)).is_discharging());
    assert!(!snapshot(true, None, Some(STATE_FULLY_CHARGED)).is_discharging());
    assert!(!snapshot(true, None, None).is_discharging());
}

#[test]
fn listeners_hear_of_changes_only() {
    let mut s = BatterySnapshot::initial(true);
    assert!(s.available);
    assert!(s.update_from_proxy(Some(50.0f64.to_bits()), Some(2), None, Some(60), None));
    assert!(!s.update_from_proxy(Some(50.0f64.to_bits()), Some(2), None, Some(60), None));
    assert!(s.update_from_proxy(Some(49.0f64.to_bits()), Some(2), None, Some(60), None));
    assert!(s.set_unavailable());
    assert_eq!(s, BatterySnapshot::unknown());
    assert!(!s.set_unavailable());
    // What is not a number differs from itself, and the two zeros do not.
    assert!(s.update_from_proxy(Some(f64::NAN.to_bits()), None, None, None, None));
    assert!(s.update_from_proxy(Some(f64::NAN.to_bits()), None, None, None, None));
    assert!(s.update_from_proxy(Some(0.0f64.to_bits()), None, None, None, None));
    assert!(!s.update_from_proxy(Some((-0.0f64).to_bits()), None, None, None, None));
}

fn supply(kind: Option<&str>, scope: Option<&str>) -> PowerSupply {
    PowerSupply {
        kind: kind.map(str::to_string),
        scope: scope.map(str::to_string),
    }
}

#[test]
fn batteries_of_mice_do_not_count() {
    assert!(!has_battery_device(&vec![]));
    assert!(!has_battery_device(&vec![supply(Some("Mains\n"), None)]));
    assert!(!has_battery_device(&vec![supply(
        Some("Battery\n"),
        Some("Device\n")
    )]));
    assert!(has_battery_device(&vec![
        supply(Some("Mains\n"), None),
        supply(None, None),
        supply(Some(" BATTERY\n"), Some("System\n")),
    ]));
    assert!(has_battery_device(&vec![supply(Some("battery"), None)]));
}

#[test]
fn icons_follow_the_level() {
    let cases = [
        (100, "battery-full"),
        (95, "battery-full"),
        (94, "battery-high"),
        (80, "battery-high"),
        (60, "battery-medium-high"),
        (40, "battery-medium"),
        (25, "battery-medium-low"),
        (10, "battery-low"),
        (9, "battery-very-low"),
        (0, "battery-very-low"),
    ];
    for (percent, name) in cases {
        assert_eq!(battery_icon_name(percent, false), name);
        assert_eq!(battery_icon_name(percent, true), format!("{name}-charging"));
        assert_eq!(normalize_battery_icon_name(name), Some(name));
    }
    assert_eq!(
        normalize_battery_icon_name("battery-caution-symbolic"),
        Some("battery-critical-alert")
    );
    assert_eq!(
        normalize_battery_icon_name("battery-level-30-symbolic"),
        Some("battery-medium-low")
    );
    assert_eq!(normalize_battery_icon_name("battery-symbolic"), Some("battery-medium"));
    assert_eq!(normalize_battery_icon_name("audio-volume-high"), None);
}

fn low_at(percent: u8) -> (BatterySnapshot, u8) {
    (
        snapshot(true, Some(f64::from(percent)), Some(STATE_DISCHARGING)),
        percent,
    )
}

fn controller() -> BatteryAlertController {
    BatteryAlertController::new(BatteryAlertConfig {
        enabled: true,
        low_threshold: 20,
        critical_threshold: 5,
    })
}

#[test]
fn a_warning_is_given_when_a_level_is_reached() {
    let mut c = controller();
    let (s, p) = low_at(21);
    assert!(c.on_battery_changed(&s, p).send.is_none());
    let (s, p) = low_at(20);
    let work = c.on_battery_changed(&s, p);
    let alert = work.send.unwrap();
    assert_eq!(alert.summary, "Low battery");
    assert_eq!(alert.body, "20% remaining");
    assert_eq!(alert.icon, "battery-low");
    assert_eq!(alert.urgency, Urgency::Normal);
    assert_eq!(c.sent(alert.generation, alert.level, Some(77)), None);
    let (s, p) = low_at(19);
    let work = c.on_battery_changed(&s, p);
    assert!(work.close.is_none() && work.send.is_none());
    let (s, p) = low_at(5);
    let work = c.on_battery_changed(&s, p);
    assert_eq!(work.close, Some(77));
    let alert = work.send.unwrap();
    assert_eq!(alert.summary, "Critical battery");
    assert_eq!(alert.body, "5% remaining. Plug in now.");
    assert_eq!(alert.icon, "battery-caution-symbolic");
    assert_eq!(alert.urgency, Urgency::Critical);
    assert_eq!(c.sent(alert.generation, alert.level, Some(78)), None);
    // The gauge falls back and the warning stays.
    let (s, p) = low_at(6);
    let work = c.on_battery_changed(&s, p);
    assert!(work.close.is_none() && work.send.is_none());
    assert_eq!(c.alert_level, AlertLevel::Low);
    let (s, p) = low_at(5);
    let work = c.on_battery_changed(&s, p);
    assert_eq!(work.close, Some(78));
    assert!(work.send.is_some());
    // Plugged in.
    let charging = snapshot(true, Some(5.0), Some(STATE_CHARGING));
    let work = c.on_battery_changed(&charging, 5);
    assert!(work.close.is_none() && work.send.is_none());
    assert_eq!(c.alert_level, AlertLevel::Quiet);
}

#[test]
fn late_and_failed_answers_are_handled() {
    let mut c = controller();
    let (s, p) = low_at(10);
    let first = c.on_battery_changed(&s, p).send.unwrap();
    let (s, p) = low_at(50);
    assert!(c.on_battery_changed(&s, p).send.is_none());
    // The answer comes after the warning was given up.
    assert_eq!(c.sent(first.generation, first.level, Some(5)), Some(5));
    assert_eq!(c.notification_id, None);
    let (s, p) = low_at(10);
    let second = c.on_battery_changed(&s, p).send.unwrap();
    // Nobody took it, so the next reading tries again.
    assert_eq!(c.sent(second.generation, second.level, None), None);
    assert_eq!(c.alert_level, AlertLevel::Quiet);
    assert!(c.on_battery_changed(&s, p).send.is_some());
}

#[test]
fn new_settings_start_anew() {
    let mut c = controller();
    let (s, p) = low_at(10);
    let alert = c.on_battery_changed(&s, p).send.unwrap();
    c.sent(alert.generation, alert.level, Some(3));
    let quieter = BatteryAlertConfig {
        enabled: true,
        low_threshold: 8,
        critical_threshold: 5,
    };
    let work = c.configure(quieter, &s, p);
    assert_eq!(work.close, Some(3));
    assert!(work.send.is_none());
    let off = BatteryAlertConfig {
        enabled: false,
        ..quieter
    };
    let (s, p) = low_at(1);
    let work = c.configure(off, &s, p);
    assert!(work.close.is_none() && work.send.is_none());
    let work = c.configure(quieter, &s, p);
    assert_eq!(work.send.unwrap().level, AlertLevel::Critical);
}
