use vibepanel::dbus::error_named;
use vibepanel::notification::service::{NotificationService, Restored, MAX_NOTIFICATIONS};
use vibepanel::notification::{
    capabilities, method_named, notification_from, server_information, unknown_method,
    unread_answer, unread_notification_count, Hint, HintValue, Method, Notification, NotificationImage,
    NotifyRequest, UnreadReply, CLOSE_REASON_CLOSED, CLOSE_REASON_DISMISSED, UNREAD_METHOD,
    URGENCY_NORMAL,
};

fn make_service() -> NotificationService {
    NotificationService::empty()
}

fn make_notification(id: u32, transient: bool, timestamp: f64) -> Notification {
    Notification {
        id,
        app_name: "test".to_string(),
        app_icon: String::new(),
        summary: String::new(),
        body: String::new(),
        actions: Vec::new(),
        urgency: URGENCY_NORMAL,
        timestamp: timestamp.to_bits(),
        expire_timeout: -1,
        desktop_entry: None,
        image_path: None,
        image_data: None,
        transient,
        close_toast_on_close: false,
    }
}

/// Puts a notification in, as a request for it would.
fn simulate_handle_notify(svc: &mut NotificationService, n: Notification) {
    let id = n.id;
    let is_transient = n.transient;
    svc.store_notification(n);
    if is_transient && svc.is_muted() {
        svc.close_internal(id, CLOSE_REASON_DISMISSED);
    }
}

#[test]
fn muted_transient_is_dropped_from_map() {
    let mut svc = make_service();
    svc.muted = true;

    simulate_handle_notify(&mut svc, make_notification(1, true, 1.0));

    assert!(
        !svc.notifications.contains_key(&1),
        "muted transient should not linger in the map"
    );
}

#[test]
fn unmuted_transient_remains_until_toast_lifecycle_ends() {
    let mut svc = make_service();

    simulate_handle_notify(&mut svc, make_notification(1, true, 1.0));

    assert!(
        svc.notifications.contains_key(&1),
        "unmuted transient must stay in the map - the toast manager closes it on dismiss/timeout"
    );
}

#[test]
fn muted_non_transient_remains_in_map() {
    let mut svc = make_service();
    svc.muted = true;

    simulate_handle_notify(&mut svc, make_notification(1, false, 1.0));

    assert!(
        svc.notifications.contains_key(&1),
        "muted non-transients are stored as history (only toasts are suppressed)"
    );
}

#[test]
fn enforce_limit_excludes_transients_from_count() {
    let mut svc = make_service();
    // Fill exactly to the cap with history, then add transients on top.
    for i in 0..(MAX_NOTIFICATIONS as u32) {
        svc.notifications
            .insert(i + 1, make_notification(i + 1, false, i as f64));
    }
    for i in 0..50u32 {
        let id = MAX_NOTIFICATIONS as u32 + 100 + i;
        svc.notifications
            .insert(id, make_notification(id, true, (1000 + i) as f64));
    }

    svc.enforce_notification_limit();

    assert_eq!(
        svc.notifications.len(),
        MAX_NOTIFICATIONS + 50,
        "transients should not trigger eviction even when total > cap"
    );
}

#[test]
fn enforce_limit_evicts_oldest_history_only() {
    let mut svc = make_service();
    // 102 of history and 5 transients that are older than all of it.
    for i in 0..102u32 {
        svc.notifications
            .insert(i + 1, make_notification(i + 1, false, i as f64));
    }
    for i in 0..5u32 {
        let id = 1000 + i;
        svc.notifications
            .insert(id, make_notification(id, true, -100.0 - i as f64));
    }

    svc.enforce_notification_limit();

    let map = &svc.notifications;
    assert!(
        !map.contains_key(&1),
        "oldest history (id=1) should be evicted"
    );
    assert!(
        !map.contains_key(&2),
        "second-oldest history (id=2) should be evicted"
    );
    assert!(map.contains_key(&3), "third-oldest history must survive");
    for i in 0..5u32 {
        assert!(
            map.contains_key(&(1000 + i)),
            "transient id={} must not be evicted",
            1000 + i
        );
    }
}

#[test]
fn unread_count_uses_seen_ids_and_excludes_transients() {
    let mut svc = make_service();
    svc.backend_available = true;
    svc.notifications.insert(1, make_notification(1, false, 10.0));
    svc.notifications.insert(2, make_notification(2, false, 20.0));
    svc.notifications.insert(3, make_notification(3, true, 30.0));

    assert_eq!(svc.unread_count(), 2);
    assert_eq!(svc.notifications().len(), 3);
    assert!(svc.history_notifications().iter().all(|n| n.id != 3));
    assert_eq!(svc.history_notifications().len(), 2);
    svc.seen_ids.insert(1);
    assert_eq!(svc.unread_count(), 1);
    svc.seen_ids.insert(2);
    assert_eq!(svc.unread_count(), 0);
}

#[test]
fn unread_count_is_zero_without_notification_backend() {
    let mut svc = make_service();
    svc.notifications.insert(1, make_notification(1, false, 10.0));

    assert_eq!(svc.unread_count(), 0);
}

#[test]
fn active_toasts_are_reference_counted_across_monitors() {
    let mut svc = make_service();
    svc.backend_available = true;
    svc.notifications.insert(1, make_notification(1, false, 10.0));

    svc.toast_shown(1);
    svc.toast_shown(1);
    assert_eq!(svc.unread_count(), 0);

    svc.toast_hidden(1);
    assert_eq!(svc.unread_count(), 0);

    svc.toast_hidden(1);
    assert_eq!(svc.unread_count(), 1);

    svc.toast_hidden(1);
    assert_eq!(svc.unread_count(), 1);
    assert!(!svc.active_toasts.contains_key(&1));
}

#[test]
fn mark_as_seen_clears_current_unread_notifications() {
    let mut svc = make_service();
    svc.backend_available = true;
    svc.notifications.insert(1, make_notification(1, false, 1.0));

    assert_eq!(svc.unread_count(), 1);
    svc.mark_as_seen();
    assert_eq!(svc.unread_count(), 0);
    assert!(svc.seen_ids.contains(&1));
}

#[test]
fn replacement_marks_notification_unread_again() {
    let mut svc = make_service();
    svc.backend_available = true;
    simulate_handle_notify(&mut svc, make_notification(1, false, 1.0));
    svc.mark_as_seen();

    simulate_handle_notify(&mut svc, make_notification(1, false, 2.0));

    assert_eq!(svc.unread_count(), 1);
    assert!(!svc.seen_ids.contains(&1));
}

fn request(hints: Vec<(&str, HintValue)>) -> NotifyRequest {
    NotifyRequest {
        app_name: Some(String::new()),
        replaces_id: Some(0),
        app_icon: Some("icon".to_string()),
        summary: Some("Summary".to_string()),
        body: None,
        actions: vec![
            Some("default".to_string()),
            Some("Open".to_string()),
            None,
            Some("Label".to_string()),
            Some("odd".to_string()),
        ],
        hints: hints
            .into_iter()
            .map(|(key, value)| Hint {
                key: key.to_string(),
                value,
            })
            .collect(),
        expire_timeout: None,
    }
}

#[test]
fn requests_are_read() {
    let image = NotificationImage {
        width: 1,
        height: 1,
        rowstride: 3,
        has_alpha: false,
        channels: 3,
        data: vec![1, 2, 3],
    };
    let n = notification_from(
        &request(vec![
            ("urgency", HintValue::Int(7)),
            ("desktop-entry", HintValue::Text("firefox".to_string())),
            ("image-path", HintValue::Text(String::new())),
            ("image-data", HintValue::Image(image)),
            ("transient", HintValue::Uint(1)),
            ("x-vibepanel-close-toast-on-close", HintValue::Byte(0)),
            ("sound", HintValue::Other),
        ]),
        5,
        2.0f64.to_bits(),
    );
    assert_eq!(n.id, 5);
    assert_eq!(n.app_name, "Unknown");
    assert_eq!(n.summary, "Summary");
    assert_eq!(n.body, "");
    assert_eq!(n.urgency, 2);
    assert_eq!(n.expire_timeout, -1);
    assert_eq!(n.desktop_entry.as_deref(), Some("firefox"));
    assert_eq!(n.image_path, None);
    assert_eq!(n.image_data.as_ref().unwrap().data, vec![1, 2, 3]);
    assert!(n.transient && !n.close_toast_on_close);
    let actions: Vec<(&str, &str)> = n
        .actions
        .iter()
        .map(|a| (a.key.as_str(), a.label.as_str()))
        .collect();
    assert_eq!(actions, vec![("default", "Open"), ("", "Label")]);
    for (value, urgency) in [
        (HintValue::Byte(9), 9),
        (HintValue::Int(-3), 0),
        (HintValue::Uint(1), 1),
        (HintValue::Flag(true), URGENCY_NORMAL),
    ] {
        let n = notification_from(&request(vec![("urgency", value)]), 1, 0);
        assert_eq!(n.urgency, urgency);
    }
}

#[test]
fn requests_are_numbered_and_stored() {
    let mut svc = make_service();
    svc.on_name_acquired();
    assert!(svc.backend_available());
    let out = svc.handle_notify(&request(vec![]), 1);
    assert_eq!(out.id, 1);
    assert!(out.leaving.is_none());
    assert_eq!(out.saved.history.len(), 1);
    assert_eq!(out.saved.next_id, 2);
    let mut again = request(vec![]);
    again.replaces_id = Some(1);
    assert_eq!(svc.handle_notify(&again, 2).id, 1);
    assert_eq!(svc.history_count(), 1);
    assert!(svc.set_muted(true).is_some());
    assert!(svc.set_muted(true).is_none());
    let out = svc.handle_notify(&request(vec![("transient", HintValue::Flag(true))]), 3);
    let leaving = out.leaving.unwrap();
    assert_eq!(leaving.closed.len(), 1);
    assert_eq!(leaving.closed[0].reason, CLOSE_REASON_DISMISSED);
    assert!(svc.get(out.id).is_none());
    assert!(svc.toggle_muted().is_some() && !svc.is_muted());
    let leaving = svc.invoke_action(1).unwrap();
    assert_eq!(leaving.closed[0].reason, CLOSE_REASON_CLOSED);
    assert!(svc.close(1).is_none());
    assert!(svc.close_all().is_none());
    assert!(svc.on_name_lost());
    assert!(!svc.on_name_lost());
}

#[test]
fn states_are_saved_and_restored() {
    let mut svc = make_service();
    svc.store_notification(make_notification(3, false, 1.0));
    svc.store_notification(make_notification(9, false, 2.0));
    svc.store_notification(make_notification(4, true, 3.0));
    svc.mark_as_seen();
    svc.seen_ids.insert(77);
    let saved = svc.save_state();
    assert_eq!(saved.seen_ids, vec![3, 9]);
    let ids: Vec<u32> = saved.history.iter().map(|p| p.id).collect();
    assert_eq!(ids, vec![9, 3], "most recent first");
    let back = NotificationService::new(Restored {
        muted: saved.muted,
        next_id: saved.next_id,
        seen_ids: saved.seen_ids,
        history: saved.history,
    });
    assert_eq!(back.next_id, 10);
    assert_eq!(back.history_count(), 2);
    assert_eq!(back.get(9).unwrap().timestamp, 2.0f64.to_bits());
    assert!(back.seen_ids.contains(&3));
    let persisted = svc.get(9).unwrap().to_persisted();
    let n = Notification::from_persisted(persisted);
    assert_eq!(n.app_name, "test");
    assert!(!n.transient);
}

#[test]
fn unread_listeners_are_told_together() {
    let mut svc = make_service();
    assert!(!svc.schedule_unread_notify(false));
    assert!(svc.schedule_unread_notify(true));
    assert!(!svc.schedule_unread_notify(true));
    svc.unread_notified();
    assert!(svc.schedule_unread_notify(true));
    assert!(svc.set_ready());
    assert!(!svc.set_ready());
}

#[test]
fn calls_are_answered() {
    assert_eq!(method_named("Notify"), Method::Notify);
    assert_eq!(method_named("CloseNotification"), Method::CloseNotification);
    assert_eq!(method_named("GetCapabilities"), Method::GetCapabilities);
    assert_eq!(method_named("GetServerInformation"), Method::GetServerInformation);
    assert_eq!(method_named("notify"), Method::Unknown);
    assert_eq!(unknown_method("Foo"), "Unknown method: Foo");
    assert!(capabilities().contains(&"actions"));
    assert_eq!(server_information().0, "vibepanel");
    assert_eq!(unread_notification_count(UnreadReply::Answered(Some(3))), Ok(3));
    let failed = |name: &str| UnreadReply::Failed {
        error: error_named(Some(name)),
        message: "y".to_string(),
    };
    let unsupported = "the active notification daemon does not support Vibepanel unread queries";
    for (reply, words) in [
        (
            UnreadReply::NoBus("x".to_string()),
            "could not connect to the session bus: x",
        ),
        (
            UnreadReply::Answered(None),
            "notification daemon returned an invalid unread count",
        ),
        (
            failed("org.freedesktop.DBus.Error.ServiceUnknown"),
            "no notification daemon is running",
        ),
        (
            failed("org.freedesktop.DBus.Error.NameHasNoOwner"),
            "no notification daemon is running",
        ),
        (failed("org.freedesktop.DBus.Error.UnknownInterface"), unsupported),
        (failed("org.freedesktop.DBus.Error.UnknownMethod"), unsupported),
        (
            failed("org.freedesktop.DBus.Error.NoReply"),
            "could not query the active notification daemon: y",
        ),
    ] {
        assert_eq!(unread_notification_count(reply), Err(words.to_string()));
    }
}

#[test]
fn unread_count_is_answered() {
    assert_eq!(unread_answer(UNREAD_METHOD, 0), Ok(0));
    assert_eq!(unread_answer("GetUnreadCount", 7), Ok(7));
    assert_eq!(unread_answer("GetUnreadCount", usize::MAX), Ok(u32::MAX));
    assert_eq!(
        unread_answer("GetReadCount", 7),
        Err("Unknown method: GetReadCount".to_string())
    );
}
