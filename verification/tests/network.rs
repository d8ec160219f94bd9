use vibepanel::network::activation::{ActivationWatch, WatchFailure, WatchSignal, WatchStep};
use vibepanel::network::control::{
    check_device_type_for_network_devices, discover_devices, modem_signal_refreshes, DeviceInfo,
    DeviceRead, NmFlags,
};
use vibepanel::network::credentials::{CredentialLookup, LookupCall, LookupReply};
use vibepanel::network::events::BusEvent;
use vibepanel::network::joining::{
    add_options, ActivateError, ApProperties, JoinCall, JoinFailure, JoinOutcome, JoinReply,
    NewActivation, WifiActivation, ANY_PROFILE, UPDATE_TO_DISK,
};
use vibepanel::network::mobile::{
    access_technology_label, find_first_mobile_profile, mobile_device_info,
    mobile_info_from_objects, mobile_nm_status, resolve_mobile_connecting, ActiveConnection,
    ManagedObject, MobileCall, MobileConnection, MobileFailure, MobileNmStatus, MobileReply,
    SavedConnection, MM_ACCESS_TECH_EDGE, MM_ACCESS_TECH_GPRS, MM_ACCESS_TECH_GSM,
    MM_ACCESS_TECH_GSM_COMPACT, MM_ACCESS_TECH_HSDPA, MM_ACCESS_TECH_HSPA_PLUS,
    MM_ACCESS_TECH_HSUPA, MM_ACCESS_TECH_LTE, MM_ACCESS_TECH_LTE_CAT_M, MM_ACCESS_TECH_LTE_NB_IOT,
    MM_ACCESS_TECH_NR5G, MM_ACCESS_TECH_UMTS,
};
use vibepanel::network::profiles::{
    access_points_to_read, forget_result, known_ssids_are_fresh, network_details, profile_opened,
    profiles_to_forget, settings_answered, wifi_profiles, AccessPointRead, CallError, OpenStep,
    ProfileRead, SettingsStep, WifiProfile,
};
use vibepanel::network::service::{NmAction, NmService, NmUpdate};
use vibepanel::network::settings::{
    get_bool_prop, get_prop, get_string_prop, get_u32_prop, new_wifi_settings, profile_credentials,
    settings_section, with_secrets, CredentialError, ProfileCredentials, Section, Setting,
    SettingValue, WifiAuthentication, WifiCredentials,
};
use vibepanel::network::wifi::{dedupe_networks, sort_networks};
use vibepanel::network::{SecurityType, WifiNetwork, WifiState};

fn test_network(path: &str) -> WifiNetwork {
    WifiNetwork {
        ssid: "test".into(),
        strength: 70,
        security: SecurityType::Secured,
        active: true,
        known: true,
        known_network_path: None,
        path: Some(path.into()),
    }
}

#[test]
fn header_and_rows_follow_confirmed_device_state() {
    let mut state = WifiState {
        enabled: Some(true),
        ..Default::default()
    };
    let mut networks = vec![test_network("/ap")];
    state.reconcile_connection(Some(100), Some("/ap"), &networks);
    assert!(state.connected && state.networks[0].active);
    assert_eq!(state.ssid.as_deref(), Some("test"));

    // Forgetting can leave the access point set while the device is deactivated, and
    // authentication can select one without ever being activated.
    for device_state in [110, 30, 40, 60, 120] {
        state.reconcile_connection(Some(device_state), Some("/ap"), &networks);
        assert!(!state.connected && !state.networks[0].active);
        assert!(state.ssid.is_none());
        assert_eq!(state.strength, 0);
        // A delayed list must not restore its old active flags.
        networks = vec![test_network("/ap")];
        state.reconcile_connection(Some(device_state), Some("/ap"), &networks);
        assert!(!state.connected && !state.networks[0].active);
    }
    // Another access point of the same SSID must not inherit the active flag.
    networks.push(test_network("/other_ap"));
    state.reconcile_connection(Some(100), Some("/other_ap"), &networks);
    assert!(state.connected && !state.networks[0].active && state.networks[1].active);
    state.reconcile_connection(Some(100), Some("/"), &networks);
    assert!(!state.connected && state.networks.iter().all(|n| !n.active));
    state.enabled = Some(false);
    state.reconcile_connection(Some(100), Some("/ap"), &networks);
    assert!(!state.connected && state.networks.iter().all(|n| !n.active));
}

#[test]
fn deduplicated_rows_do_not_lose_roam_identity() {
    let mut state = WifiState {
        enabled: Some(true),
        ..Default::default()
    };
    let mut networks = vec![test_network("/strong"), test_network("/weak")];
    networks[1].strength = 30;
    state.reconcile_connection(Some(100), Some("/strong"), &networks);
    state.networks = dedupe_networks(state.networks);
    assert_eq!(state.networks.len(), 1);
    assert_eq!(state.networks[0].path.as_deref(), Some("/strong"));

    state.reconcile_connection(Some(100), Some("/weak"), &networks);
    state.networks = dedupe_networks(state.networks);
    assert!(state.connected && state.networks[0].active);
    assert_eq!(state.ssid.as_deref(), Some("test"));
    assert_eq!(state.strength, 30);
    assert_eq!(state.networks[0].path.as_deref(), Some("/weak"));

    // An unknown access point clears the old label until its own details arrive.
    state.reconcile_connection(Some(100), Some("/unknown"), &networks);
    assert!(state.connected && state.ssid.is_none());
    assert_eq!(state.strength, 0);
    assert!(state.networks.iter().all(|n| !n.active));
    let mut refreshed = test_network("/unknown");
    refreshed.ssid = "other network".into();
    networks.push(refreshed);
    state.reconcile_connection(Some(100), Some("/unknown"), &networks);
    assert_eq!(state.ssid.as_deref(), Some("other network"));
    // A delayed result cannot relabel a later roam or disconnect.
    state.reconcile_connection(Some(100), Some("/weak"), &networks);
    assert_eq!(state.ssid.as_deref(), Some("test"));
    state.reconcile_connection(Some(120), Some("/unknown"), &networks);
    assert!(!state.connected && state.ssid.is_none());
}

#[test]
fn obsolete_list_results_cannot_overwrite_newer_snapshot() {
    let mut service = NmService::new();
    service.wifi.refresh_generation = 2;
    service.apply_update(NmUpdate::NetworksRefreshed {
        generation: 2,
        networks: vec![
            test_network("/new"),
            WifiNetwork {
                strength: 30,
                ..test_network("/roam")
            },
        ],
        last_scan: Some(2),
    });
    service.apply_update(NmUpdate::NetworksRefreshed {
        generation: 1,
        networks: vec![test_network("/old")],
        last_scan: Some(1),
    });
    let snapshot = service.snapshot();
    assert_eq!(snapshot.wifi.networks.len(), 1);
    assert_eq!(service.wifi.networks.len(), 2);
    assert_eq!(service.wifi.networks[1].path.as_deref(), Some("/roam"));
    assert_eq!(snapshot.wifi.networks[0].path.as_deref(), Some("/new"));
    assert!(!snapshot.wifi.connected && !snapshot.wifi.networks[0].active);
    assert_eq!(service.wifi.last_scan_value, Some(2));
    service.wifi.attempt = 2;
    service.wifi.connecting_ssid = Some("new attempt".into());
    service.snapshot.wifi.connecting_ssid = Some("new attempt".into());
    service.reconcile_wifi_state();
    service.apply_update(NmUpdate::ConnectionAttemptFinished {
        attempt: 1,
        ssid: "old attempt".into(),
        success: true,
        message: None,
    });
    assert_eq!(
        service.snapshot().wifi.connecting_ssid.as_deref(),
        Some("new attempt")
    );
    service.apply_update(NmUpdate::ConnectionAttemptFinished {
        attempt: 2,
        ssid: "new attempt".into(),
        success: false,
        message: None,
    });
    let snapshot = service.snapshot();
    assert!(snapshot.wifi.connecting_ssid.is_none());
    assert_eq!(snapshot.wifi.failed_ssid.as_deref(), Some("new attempt"));
    assert!(!snapshot.wifi.connected && snapshot.wifi.networks.iter().all(|n| !n.active));
}

#[test]
fn wifi_profile_lifecycle() {
    for (existing, activated, cancel, save_fails, password) in [
        (true, true, false, false, None),
        (true, true, false, false, Some("ignored password")),
        (true, false, false, false, Some("ignored password")),
        (true, true, true, false, None),
        (false, true, false, false, Some("password")),
        (false, false, false, false, Some("password")),
        (false, true, true, false, Some("password")),
        (false, true, false, true, Some("password")),
    ] {
        let mut cancelled = false;
        let mut calls: Vec<&str> = Vec::new();
        let mut watched = false;
        let (mut joining, mut call) =
            WifiActivation::start("/device", " network:with\\spaces ", password, Some("/ap"))
                .unwrap();
        let outcome = loop {
            let reply = match call {
                JoinCall::ReadAccessPoint { ap } => {
                    assert_eq!(ap, "/ap");
                    calls.push("GetAll");
                    JoinReply::AccessPoint(Ok(Some(ApProperties {
                        ssid: Some(b" network:with\\spaces ".to_vec()),
                        flags: Some(1),
                        wpa_flags: None,
                        rsn_flags: Some(0x100),
                    })))
                }
                JoinCall::Activate { device, ap } => {
                    assert_eq!((ANY_PROFILE, device.as_str(), ap.as_str()), ("/", "/device", "/ap"));
                    calls.push("ActivateConnection");
                    if !existing {
                        JoinReply::Activated(Err(ActivateError::Refused {
                            name: Some(
                                "org.freedesktop.NetworkManager.UnknownConnection".to_string(),
                            ),
                            message: "No compatible profile".to_string(),
                        }))
                    } else {
                        cancelled = cancel;
                        JoinReply::Activated(Ok(Some("/active".to_string())))
                    }
                }
                JoinCall::Add {
                    settings,
                    device,
                    ap,
                    options,
                } => {
                    assert!(!existing);
                    assert_eq!((device.as_str(), ap.as_str()), ("/device", "/ap"));
                    calls.push("AddAndActivateConnection2");
                    let wifi = settings_section(&settings, "802-11-wireless").unwrap();
                    match get_prop(&wifi.settings, "ssid") {
                        Some(SettingValue::Bytes(b)) => assert_eq!(b, b" network:with\\spaces "),
                        other => panic!("{other:?}"),
                    }
                    let secrets = settings_section(&settings, "802-11-wireless-security").unwrap();
                    assert!(get_prop(&secrets.settings, "key-mgmt").is_none());
                    assert_eq!(
                        get_string_prop(&secrets.settings, "psk").as_deref(),
                        Some("password")
                    );
                    assert_eq!(get_u32_prop(&secrets.settings, "psk-flags"), Some(0));
                    assert_eq!(
                        get_string_prop(&options, "persist").as_deref(),
                        Some("volatile")
                    );
                    assert!(get_prop(&options, "bind-activation").is_none());
                    cancelled = cancel;
                    JoinReply::Added(Ok(NewActivation {
                        profile: Some("/profile".to_string()),
                        active: Some("/active".to_string()),
                    }))
                }
                JoinCall::Wait { active } => {
                    assert_eq!(active, "/active");
                    watched = true;
                    JoinReply::Waited(if activated {
                        Ok(())
                    } else {
                        Err(WatchFailure::Ended)
                    })
                }
                JoinCall::Save {
                    profile,
                    settings,
                    flags,
                } => {
                    assert!(!existing && activated && !cancel);
                    assert!(watched, "Saving must wait for the activation watcher");
                    assert_eq!(profile, "/profile");
                    assert!(settings.is_empty());
                    assert_eq!(flags, 1);
                    calls.push("Update2");
                    JoinReply::Saved(if save_fails {
                        Err("Permission denied".to_string())
                    } else {
                        Ok(())
                    })
                }
                JoinCall::Deactivate { active } => {
                    assert!(!activated || cancel);
                    assert_eq!(active, "/active");
                    calls.push("DeactivateConnection");
                    JoinReply::Deactivated
                }
                JoinCall::Delete { profile } => {
                    assert!(!existing && (!activated || cancel));
                    assert_eq!(profile, "/profile");
                    calls.push("Delete");
                    JoinReply::Deleted
                }
                JoinCall::Finish(outcome) => break outcome,
                JoinCall::Nothing => panic!("a reply did not fit"),
            };
            call = joining.step(reply, cancelled);
        };
        let result = outcome.result();
        assert_eq!(result.is_ok(), activated && !cancel);
        assert_eq!(watched, !cancel);
        if save_fails {
            assert!(result.unwrap().unwrap().contains("Permission denied"));
        }
        assert_eq!(
            calls.iter().any(|c| *c == "Update2"),
            !existing && activated && !cancel
        );
        assert_eq!(
            calls.iter().any(|c| *c == "DeactivateConnection"),
            !activated || cancel
        );
        assert_eq!(
            calls.iter().any(|c| *c == "Delete"),
            !existing && (!activated || cancel)
        );
        if let Some(delete) = calls.iter().position(|call| *call == "Delete") {
            assert!(
                calls[..delete]
                    .iter()
                    .any(|call| *call == "DeactivateConnection"),
                "volatile profile deletion must follow active connection cleanup"
            );
        }
    }
}

#[test]
fn added_profiles_are_volatile_until_they_are_saved() {
    let options = add_options();
    assert_eq!(options.len(), 1);
    assert_eq!(get_string_prop(&options, "persist").as_deref(), Some("volatile"));
    assert_eq!(UPDATE_TO_DISK, 1);
}

#[test]
fn wifi_secret_routing_leaves_settings_completion_to_nm() {
    for (flags, security, password, expected) in [
        (0, 0, None, None),
        (1, 0x100, Some("password"), Some("psk")),
        (1, 0x400, Some("password"), Some("psk")),
        (1, 0x500, Some("password"), Some("psk")),
        (1, 0x800, None, None),
        (1, 0, Some("abcde"), Some("wep-key0")),
    ] {
        let settings = new_wifi_settings("test", password, flags, security).unwrap();
        if let Some(key) = expected {
            let secrets = settings_section(&settings, "802-11-wireless-security").unwrap();
            assert_eq!(get_string_prop(&secrets.settings, key).as_deref(), password);
            assert!(get_prop(&secrets.settings, "key-mgmt").is_none());
        } else {
            assert!(settings_section(&settings, "802-11-wireless-security").is_none());
        }
    }
    assert!(new_wifi_settings("test", None, 1, 0x100).is_err());
}

#[test]
fn wep_keys_are_told_from_passphrases() {
    for (password, kind) in [
        ("abcde", 1),
        ("0123456789abcDEF0123456789", 1),
        ("0123456789", 1),
        ("abcdefghijklm", 1),
        ("012345678g", 2),
        ("caf\u{e9}s", 2),
        ("passphrase of some length", 2),
    ] {
        let settings = new_wifi_settings("test", Some(password), 1, 0).unwrap();
        let secrets = settings_section(&settings, "802-11-wireless-security").unwrap();
        assert_eq!(get_u32_prop(&secrets.settings, "wep-key-type"), Some(kind));
        assert_eq!(get_u32_prop(&secrets.settings, "wep-key-flags"), Some(0));
    }
    let refused = new_wifi_settings("test", Some(""), 1, 0).unwrap_err();
    assert_eq!(refused.message(), "Wi-Fi password is required");
}

#[test]
fn activation_errors_do_not_create_fallback_profiles() {
    for name in [
        "org.freedesktop.NetworkManager.PermissionDenied",
        "org.freedesktop.NetworkManager.UnknownDevice",
        "org.freedesktop.DBus.Error.NoReply",
    ] {
        let (mut joining, call) = WifiActivation::start("/device", "test", None, Some("/ap")).unwrap();
        assert!(matches!(call, JoinCall::ReadAccessPoint { .. }));
        let call = joining.step(
            JoinReply::AccessPoint(Ok(Some(ApProperties {
                ssid: Some(b"test".to_vec()),
                flags: None,
                wpa_flags: None,
                rsn_flags: None,
            }))),
            false,
        );
        assert!(matches!(call, JoinCall::Activate { .. }));
        let call = joining.step(
            JoinReply::Activated(Err(ActivateError::Refused {
                name: Some(name.to_string()),
                message: "org.freedesktop.NetworkManager.UnknownConnection".to_string(),
            })),
            false,
        );
        match call {
            JoinCall::Finish(outcome) => assert!(outcome.result().is_err()),
            other => panic!("Must not call {other:?} after {name}"),
        }
    }
}

fn join_to(replies: Vec<JoinReply>) -> JoinOutcome {
    let (mut joining, mut call) = WifiActivation::start("/device", "test", None, Some("/ap")).unwrap();
    for reply in replies {
        call = joining.step(reply, false);
    }
    match call {
        JoinCall::Finish(outcome) => outcome,
        other => panic!("{other:?}"),
    }
}

fn seen(ssid: Option<&[u8]>, rsn: u32) -> JoinReply {
    JoinReply::AccessPoint(Ok(Some(ApProperties {
        ssid: ssid.map(<[u8]>::to_vec),
        flags: Some(1),
        wpa_flags: None,
        rsn_flags: Some(rsn),
    })))
}

fn no_profile() -> JoinReply {
    JoinReply::Activated(Err(ActivateError::Refused {
        name: Some("org.freedesktop.NetworkManager.UnknownConnection".to_string()),
        message: "none".to_string(),
    }))
}

#[test]
fn every_way_of_joining_can_fail() {
    assert!(matches!(
        WifiActivation::start("/device", "test", None, None),
        Err(JoinFailure::NotVisible)
    ));
    let cases = vec![
        (
            vec![JoinReply::AccessPoint(Err("gone".to_string()))],
            "GetAll: gone",
        ),
        (vec![JoinReply::AccessPoint(Ok(None))], "Invalid properties reply"),
        (
            vec![seen(Some(b"other"), 0)],
            "Wi-Fi access point no longer matches the selected network",
        ),
        (
            vec![seen(None, 0)],
            "Wi-Fi access point no longer matches the selected network",
        ),
        (
            vec![seen(Some(b"test"), 0), JoinReply::Activated(Ok(None))],
            "Invalid activation path",
        ),
        (
            vec![
                seen(Some(b"test"), 0),
                JoinReply::Activated(Err(ActivateError::BadPath("bad".to_string()))),
            ],
            "bad",
        ),
        (
            vec![seen(Some(b"test"), 0x100), no_profile()],
            "Wi-Fi password is required",
        ),
        (
            vec![
                seen(Some(b"test"), 0x800),
                no_profile(),
                JoinReply::Added(Err("refused".to_string())),
            ],
            "AddAndActivateConnection2: refused",
        ),
        (
            vec![
                seen(Some(b"test"), 0x800),
                no_profile(),
                JoinReply::Added(Ok(NewActivation {
                    profile: None,
                    active: Some("/a".to_string()),
                })),
            ],
            "Invalid profile path",
        ),
        (
            vec![
                seen(Some(b"test"), 0x800),
                no_profile(),
                JoinReply::Added(Ok(NewActivation {
                    profile: Some("/p".to_string()),
                    active: None,
                })),
            ],
            "Invalid activation path",
        ),
    ];
    for (replies, message) in cases {
        assert_eq!(join_to(replies).result(), Err(message.to_string()));
    }
    // A reply that does not fit the stage changes nothing.
    let (mut joining, _) = WifiActivation::start("/device", "test", None, Some("/ap")).unwrap();
    assert!(matches!(joining.step(JoinReply::Deleted, false), JoinCall::Nothing));
    assert!(matches!(
        joining.step(seen(Some(b"test"), 0), true),
        JoinCall::Finish(JoinOutcome::Failed(JoinFailure::Cancelled))
    ));
}

fn section(name: &str, settings: Vec<(&str, SettingValue)>) -> Section {
    Section {
        name: name.to_string(),
        settings: settings
            .into_iter()
            .map(|(key, value)| Setting {
                key: key.to_string(),
                value,
            })
            .collect(),
    }
}

fn text(t: &str) -> SettingValue {
    SettingValue::Text(t.to_string())
}

#[test]
fn parses_networkmanager_settings_variants() {
    let settings = vec![section(
        "802-11-wireless",
        vec![
            ("ssid", SettingValue::Bytes(b"test-network".to_vec())),
            ("hidden", SettingValue::Flag(true)),
        ],
    )];

    let wifi = settings_section(&settings, "802-11-wireless").unwrap();
    match get_prop(&wifi.settings, "ssid").unwrap() {
        SettingValue::Bytes(ssid) => assert_eq!(ssid, b"test-network"),
        other => panic!("{other:?}"),
    }
    assert_eq!(get_bool_prop(&wifi.settings, "hidden"), Some(true));
    assert!(settings_section(&settings, "missing").is_none());
}

#[test]
fn credentials_are_read_from_profiles() {
    let wifi = |ssid: &[u8]| {
        section(
            "802-11-wireless",
            vec![("ssid", SettingValue::Bytes(ssid.to_vec()))],
        )
    };
    let security = |k: &str| section("802-11-wireless-security", vec![("key-mgmt", text(k))]);
    assert!(matches!(
        profile_credentials(&vec![]),
        Err(CredentialError::NotWifi)
    ));
    assert!(matches!(
        profile_credentials(&vec![wifi(b"")]),
        Err(CredentialError::InvalidSsid)
    ));
    assert!(matches!(
        profile_credentials(&vec![wifi(&[0xff])]),
        Err(CredentialError::InvalidSsid)
    ));
    match profile_credentials(&vec![wifi(b"home"), security("wpa-eap")]) {
        Err(e) => assert_eq!(e.message(), "Unsupported Wi-Fi security: wpa-eap"),
        other => panic!("{other:?}"),
    }
    match profile_credentials(&vec![wifi("caf\u{e9}".as_bytes())]).unwrap() {
        ProfileCredentials::Complete(c) => {
            assert_eq!(c.ssid, "caf\u{e9}");
            assert_eq!(c.authentication, WifiAuthentication::Open);
            assert!(!c.hidden && c.password.is_none());
        }
        other => panic!("{other:?}"),
    }
    match profile_credentials(&vec![wifi(b"home"), security("sae")]).unwrap() {
        ProfileCredentials::NeedSecrets {
            ssid,
            hidden,
            authentication,
        } => {
            assert_eq!(authentication, WifiAuthentication::Sae);
            let secrets = vec![section("802-11-wireless-security", vec![("psk", text("pw"))])];
            let c = with_secrets(ssid, hidden, authentication, &secrets).unwrap();
            assert_eq!(c.password.as_deref(), Some("pw"));
        }
        other => panic!("{other:?}"),
    }
    let refused = with_secrets("home".to_string(), false, WifiAuthentication::Wpa, &vec![]);
    assert_eq!(
        refused.unwrap_err().message(),
        "Saved Wi-Fi password is unavailable"
    );
}

#[test]
fn the_first_failure_of_a_watch_counts() {
    let mut watch = ActivationWatch::new("/active");
    assert!(matches!(watch.wait_activation(), WatchStep::Wait));
    watch.receive(WatchSignal::StateChanged(Some(1)));
    watch.receive(WatchSignal::StateRead(Ok(Some(2))));
    assert!(matches!(watch.wait_activation(), WatchStep::Wait));
    watch.receive(WatchSignal::StateChanged(Some(4)));
    watch.receive(WatchSignal::StateChanged(Some(2)));
    assert!(matches!(watch.wait_activation(), WatchStep::Connected));
    watch.receive(WatchSignal::ActiveConnections(Some(vec!["/active".to_string()])));
    watch.receive(WatchSignal::ActiveConnections(None));
    watch.receive(WatchSignal::NameOwnerChanged {
        new_owner: ":1.2".to_string(),
    });
    assert!(matches!(watch.wait_activation(), WatchStep::Wait));
    watch.receive(WatchSignal::ActiveConnections(Some(vec![])));
    watch.receive(WatchSignal::StateChanged(Some(2)));
    watch.receive(WatchSignal::Cancelled);
    match watch.wait_activation() {
        WatchStep::Failed(f) => assert_eq!(f.message(), "Connection activation disappeared"),
        other => panic!("{other:?}"),
    }
}

#[test]
fn every_failure_of_a_watch_has_words() {
    let cases = vec![
        (WatchSignal::StateChanged(None), "Invalid activation state signal"),
        (
            WatchSignal::StateChanged(Some(3)),
            "Connection activation ended before connecting",
        ),
        (
            WatchSignal::StateChanged(Some(9)),
            "Invalid connection activation state",
        ),
        (
            WatchSignal::NameOwnerChanged {
                new_owner: String::new(),
            },
            "NetworkManager disappeared",
        ),
        (WatchSignal::BusClosed, "System bus disconnected"),
        (WatchSignal::Cancelled, "Connection cancelled"),
        (WatchSignal::StateRead(Ok(None)), "Invalid activation state reply"),
        (WatchSignal::StateRead(Err("no".to_string())), "no"),
    ];
    for (signal, words) in cases {
        let mut watch = ActivationWatch::new("/active");
        watch.receive(signal);
        match watch.wait_activation() {
            WatchStep::Failed(f) => assert_eq!(f.message(), words),
            other => panic!("{other:?}"),
        }
    }
    assert_eq!(
        WatchFailure::TimedOut.message(),
        "Connection activation timed out"
    );
}

#[test]
fn access_technology_5g() {
    assert_eq!(access_technology_label(MM_ACCESS_TECH_NR5G), "5G");
}

#[test]
fn access_technology_lte_plus() {
    assert_eq!(access_technology_label(MM_ACCESS_TECH_LTE_CAT_M), "LTE+");
    assert_eq!(access_technology_label(MM_ACCESS_TECH_LTE_NB_IOT), "LTE+");
}

#[test]
fn access_technology_lte() {
    assert_eq!(access_technology_label(MM_ACCESS_TECH_LTE), "LTE");
}

#[test]
fn access_technology_hspa_plus() {
    assert_eq!(access_technology_label(MM_ACCESS_TECH_HSPA_PLUS), "HSPA+");
}

#[test]
fn access_technology_hspa() {
    assert_eq!(
        access_technology_label(MM_ACCESS_TECH_HSDPA | MM_ACCESS_TECH_HSUPA),
        "HSPA"
    );
    assert_eq!(access_technology_label(MM_ACCESS_TECH_HSDPA), "HSPA");
}

#[test]
fn access_technology_3g() {
    assert_eq!(access_technology_label(MM_ACCESS_TECH_UMTS), "3G");
}

#[test]
fn access_technology_edge() {
    assert_eq!(access_technology_label(MM_ACCESS_TECH_EDGE), "EDGE");
}

#[test]
fn access_technology_2g() {
    assert_eq!(access_technology_label(MM_ACCESS_TECH_GPRS), "2G");
    assert_eq!(access_technology_label(MM_ACCESS_TECH_GSM), "2G");
    assert_eq!(access_technology_label(MM_ACCESS_TECH_GSM_COMPACT), "2G");
}

#[test]
fn access_technology_unknown_returns_empty() {
    assert_eq!(access_technology_label(0), "");
    assert_eq!(access_technology_label(1), ""); // bit 0, no known tech
}

#[test]
fn access_technology_highest_wins() {
    assert_eq!(
        access_technology_label(MM_ACCESS_TECH_NR5G | MM_ACCESS_TECH_LTE),
        "5G"
    );
    assert_eq!(
        access_technology_label(MM_ACCESS_TECH_LTE | MM_ACCESS_TECH_UMTS),
        "LTE"
    );
}

#[test]
fn mobile_connecting_local_true_dbus_active_clears_flag() {
    let (effective, clear) = resolve_mobile_connecting(true, true, false);
    assert!(!effective, "should use D-Bus connecting (false)");
    assert!(clear, "should clear local flag");
}

#[test]
fn mobile_connecting_local_true_dbus_connecting_clears_flag() {
    let (effective, clear) = resolve_mobile_connecting(true, false, true);
    assert!(effective, "should use D-Bus connecting (true)");
    assert!(clear, "should clear local flag");
}

#[test]
fn mobile_connecting_local_true_dbus_neither_keeps_flag() {
    let (effective, clear) = resolve_mobile_connecting(true, false, false);
    assert!(effective, "should keep showing connecting from local flag");
    assert!(!clear, "should NOT clear local flag");
}

#[test]
fn mobile_connecting_local_false_passes_through_dbus() {
    let (eff1, clr1) = resolve_mobile_connecting(false, false, false);
    assert!(!eff1);
    assert!(!clr1);

    let (eff2, clr2) = resolve_mobile_connecting(false, false, true);
    assert!(eff2);
    assert!(!clr2);

    let (eff3, clr3) = resolve_mobile_connecting(false, true, false);
    assert!(!eff3);
    assert!(!clr3);
}

#[test]
fn mobile_connecting_local_true_dbus_both_active_and_connecting() {
    let (effective, clear) = resolve_mobile_connecting(true, true, true);
    assert!(effective, "should use D-Bus connecting (true)");
    assert!(clear, "should clear local flag");
}

#[test]
fn mobile_connection_lifecycle() {
    for case in [
        "success",
        "failure",
        "cancel_before",
        "cancel_reply",
        "cancel_wait",
        "method_error",
        "disconnect",
        "disconnect_error",
        "inactive",
        "no_profile",
    ] {
        let mut cancelled = case == "cancel_before";
        let status = MobileNmStatus {
            active: false,
            connecting: false,
            profile_name: None,
            active_name: None,
            profile_path: (case != "no_profile").then(|| "/profile".into()),
            active_path: (case != "inactive").then(|| "/old_active".into()),
        };
        let mut calls: Vec<&str> = Vec::new();
        let mut waited = false;
        let connect = !matches!(case, "disconnect" | "disconnect_error" | "inactive");
        let (mut operation, mut call) =
            MobileConnection::mobile_connection(&status, connect, cancelled);
        let result = loop {
            let reply = match call {
                MobileCall::Activate { profile } => {
                    assert_eq!(profile, "/profile");
                    calls.push("ActivateConnection");
                    if case == "cancel_reply" {
                        cancelled = true;
                    }
                    MobileReply::Activated(if case == "method_error" {
                        Err("Denied".to_string())
                    } else {
                        Ok(Some("/new_active".to_string()))
                    })
                }
                MobileCall::Deactivate { active } => {
                    assert_eq!(active, if connect { "/new_active" } else { "/old_active" });
                    calls.push("DeactivateConnection");
                    MobileReply::Deactivated(if case == "disconnect_error" {
                        Err("Denied".to_string())
                    } else {
                        Ok(())
                    })
                }
                MobileCall::Wait { active } => {
                    assert_eq!(active, "/new_active");
                    waited = true;
                    if case == "cancel_wait" {
                        cancelled = true;
                    }
                    MobileReply::Waited(if case == "failure" {
                        Err(WatchFailure::Ended)
                    } else {
                        Ok(())
                    })
                }
                MobileCall::Finish(result) => break result,
                MobileCall::Nothing => panic!("a reply did not fit"),
            };
            call = operation.step(reply, cancelled);
        };
        assert_eq!(
            result.is_ok(),
            matches!(case, "success" | "disconnect" | "inactive"),
            "{case}"
        );
        assert_eq!(
            waited,
            matches!(case, "success" | "failure" | "cancel_wait"),
            "{case}"
        );
        let expected: &[&str] = match case {
            "cancel_before" | "inactive" | "no_profile" => &[],
            "disconnect" | "disconnect_error" => &["DeactivateConnection"],
            "failure" | "cancel_reply" | "cancel_wait" => {
                &["ActivateConnection", "DeactivateConnection"]
            }
            _ => &["ActivateConnection"],
        };
        assert_eq!(calls, expected, "{case}");
        if let Err(failure) = result {
            let words = failure.message();
            match case {
                "no_profile" => assert_eq!(words, "No GSM/CDMA profile found"),
                "method_error" | "disconnect_error" => assert_eq!(words, "Denied"),
                "failure" => assert!(matches!(failure, MobileFailure::NotConnected(_))),
                _ => assert_eq!(words, "Connection cancelled"),
            }
        }
    }
}

#[test]
fn obsolete_mobile_completion_cannot_clear_new_attempt() {
    let mut service = NmService::new();
    service.mobile.activation_cancel = true;
    let actions = service.cancel_mobile_attempt();
    assert!(matches!(actions[..], [NmAction::CancelMobileActivation]));
    service.mobile.connecting_local = true;
    service.snapshot.mobile.connecting = true;
    service.reconcile_wifi_state();
    service.apply_update(NmUpdate::MobileOperationFinished {
        attempt: 0,
        success: false,
    });
    assert!(service.mobile.connecting_local);
    assert!(service.snapshot().mobile.connecting);
    assert!(!service.snapshot().mobile.failed);
    service.apply_update(NmUpdate::MobileOperationFinished {
        attempt: 1,
        success: true,
    });
    assert!(!service.mobile.connecting_local);
    assert!(!service.snapshot().mobile.connecting);
}

#[test]
fn rows_are_ordered_for_the_user() {
    let mut open = test_network("/open");
    open.ssid = "Cafe".into();
    open.active = false;
    open.known = false;
    open.security = SecurityType::Open;
    open.strength = 90;
    let mut known = test_network("/known");
    known.ssid = "home".into();
    known.active = false;
    known.strength = 20;
    let sorted = sort_networks(vec![open, known, test_network("/active")]);
    let ssids: Vec<&str> = sorted.iter().map(|n| n.ssid.as_str()).collect();
    assert_eq!(ssids[0], "test");
    assert_eq!(ssids[1], "home");
    assert_eq!(ssids[2], "Cafe");
}

#[test]
fn saved_profiles_are_listed_and_forgotten() {
    let error = |name: &str| CallError {
        name: Some(name.to_string()),
        message: "text".to_string(),
    };
    assert!(matches!(profile_opened(&Ok(Some(0))), OpenStep::ReadSettings));
    assert!(matches!(profile_opened(&Ok(Some(4))), OpenStep::Skip));
    assert!(matches!(profile_opened(&Ok(None)), OpenStep::Skip));
    assert!(matches!(
        profile_opened(&Err(error("org.freedesktop.DBus.Error.UnknownObject"))),
        OpenStep::Skip
    ));
    assert!(matches!(
        profile_opened(&Err(error("org.freedesktop.DBus.Error.NoReply"))),
        OpenStep::Fail(_)
    ));
    let wifi = vec![section(
        "802-11-wireless",
        vec![("ssid", SettingValue::Bytes(b"original".to_vec()))],
    )];
    assert!(matches!(settings_answered(&Ok(wifi)), SettingsStep::Add(s) if s == "original"));
    assert!(matches!(settings_answered(&Ok(vec![])), SettingsStep::Skip));
    assert!(matches!(
        settings_answered(&Err(error("org.freedesktop.DBus.Error.AccessDenied"))),
        SettingsStep::Skip
    ));
    let profile = |path: &str, ssid: &str| WifiProfile {
        path: path.to_string(),
        ssid: ssid.to_string(),
    };
    let profiles = vec![
        profile("/removed", "original"),
        profile("/other", "other"),
        profile("/profile", "original"),
    ];
    assert_eq!(
        profiles_to_forget(&profiles, "original"),
        vec!["/removed", "/profile"]
    );
    assert!(forget_result(&vec![None, None]).is_ok());
    assert_eq!(
        forget_result(&vec![Some("a".to_string()), None, Some("b".to_string()), None]),
        Err("b".to_string())
    );
    assert!(known_ssids_are_fresh(Some(0), 29_999));
    assert!(!known_ssids_are_fresh(Some(0), 30_000));
    assert!(!known_ssids_are_fresh(None, 0));
}

#[test]
fn access_points_are_read() {
    let listed = vec!["/a".to_string()];
    assert_eq!(access_points_to_read(listed.clone(), Some("/b")), vec!["/a", "/b"]);
    assert_eq!(access_points_to_read(listed.clone(), Some("/a")), vec!["/a"]);
    assert_eq!(access_points_to_read(listed, Some("/")), vec!["/a"]);
    let read = AccessPointRead {
        path: "/a".to_string(),
        ssid: Some(b"home".to_vec()),
        strength: Some(55),
        flags: Some(0),
        wpa_flags: None,
        rsn_flags: Some(0x100),
    };
    let network = network_details(read, &vec!["home".to_string()]);
    assert_eq!(network.ssid, "home");
    assert_eq!(network.strength, 55);
    assert_eq!(network.security, SecurityType::Secured);
    assert!(network.known && !network.active);
    let hidden = AccessPointRead {
        path: "/a".to_string(),
        ssid: Some(vec![0xff]),
        strength: None,
        flags: None,
        wpa_flags: None,
        rsn_flags: None,
    };
    let network = network_details(hidden, &vec![]);
    assert_eq!(network.ssid, "");
    assert_eq!(network.security, SecurityType::Open);
}

#[test]
fn modems_and_profiles_make_the_cellular_status() {
    let modem = |sim: &str| ManagedObject {
        interfaces: vec![
            section(
                "org.freedesktop.ModemManager1.Modem",
                vec![
                    ("Sim", SettingValue::Path(sim.to_string())),
                    ("SignalQuality", SettingValue::Quality(61, true)),
                    ("AccessTechnologies", SettingValue::Number(MM_ACCESS_TECH_LTE)),
                ],
            ),
            section(
                "org.freedesktop.ModemManager1.Modem.Modem3gpp",
                vec![("OperatorName", text("Telco"))],
            ),
        ],
    };
    let info = mobile_info_from_objects(&vec![modem("/"), modem("/sim/0")]);
    assert!(info.has_modem && info.has_sim);
    assert_eq!(info.signal_quality, Some(61));
    assert_eq!(info.access_technology.as_deref(), Some("LTE"));
    assert_eq!(info.operator_name.as_deref(), Some("Telco"));
    let none = mobile_info_from_objects(&vec![modem("/")]);
    assert!(none.has_modem && !none.has_sim && none.signal_quality.is_none());
    let saved = vec![
        SavedConnection {
            path: "/wifi".to_string(),
            settings: None,
        },
        SavedConnection {
            path: "/gsm".to_string(),
            settings: Some(vec![section(
                "connection",
                vec![("type", text("gsm")), ("id", text("Mobile"))],
            )]),
        },
    ];
    let profile = find_first_mobile_profile(&saved);
    assert_eq!(profile, Some(("/gsm".to_string(), "Mobile".to_string())));
    let connection = |ctype: &str, state: u32| ActiveConnection {
        path: format!("/active/{state}"),
        ctype: Some(ctype.to_string()),
        state: Some(state),
        id: Some("Live".to_string()),
        connection: Some("/".to_string()),
    };
    let status = mobile_nm_status(
        &vec![connection("802-3-ethernet", 2), connection("cdma", 1)],
        profile,
    );
    assert!(status.connecting && !status.active);
    assert_eq!(status.active_path.as_deref(), Some("/active/1"));
    assert_eq!(status.profile_path.as_deref(), Some("/gsm"));
    let update = mobile_device_info(status, info);
    assert!(update.supported && update.connecting);
    assert_eq!(update.conn_name.as_deref(), Some("Live"));
}

#[test]
fn devices_are_discovered() {
    let device = |path: &str, dtype: u32| DeviceRead {
        path: path.to_string(),
        device: Some(DeviceInfo {
            dtype,
            iface: Some("if0".to_string()),
        }),
    };
    let updates = discover_devices(&vec![
        device("/1", 2),
        device("/2", 1),
        device("/3", 2),
        DeviceRead {
            path: "/4".to_string(),
            device: None,
        },
    ]);
    assert_eq!(updates.len(), 2);
    assert!(matches!(updates[0], NmUpdate::EthernetDeviceExists));
    match &updates[1] {
        NmUpdate::WifiDeviceFound { path, iface_name } => {
            assert_eq!(path, "/1");
            assert_eq!(iface_name.as_deref(), Some("if0"));
        }
        other => panic!("{other:?}"),
    }
    assert!(matches!(
        check_device_type_for_network_devices(Some(8)),
        Some(NmUpdate::ModemDeviceExists)
    ));
    assert!(check_device_type_for_network_devices(Some(2)).is_none());
    assert!(modem_signal_refreshes(Some("org.freedesktop.ModemManager1.Modem")));
    assert!(!modem_signal_refreshes(None));
}

#[test]
fn flags_of_networkmanager_are_taken_over() {
    let mut service = NmService::new();
    assert!(matches!(service.set_available(true)[..], [NmAction::Notify]));
    assert!(service.set_available(true).is_empty());
    let actions = service.update_nm_flags(NmFlags {
        wifi_enabled: Some(true),
        mobile_enabled: None,
        primary_connection_type: Some("802-3-ethernet".to_string()),
    });
    assert!(matches!(
        actions[..],
        [NmAction::Notify, NmAction::FetchWiredInfo]
    ));
    assert!(service.snapshot().wired.connected);
    let actions = service.update_nm_flags(NmFlags {
        wifi_enabled: Some(true),
        mobile_enabled: None,
        primary_connection_type: Some("gsm".to_string()),
    });
    assert!(matches!(
        actions[..],
        [NmAction::Notify, NmAction::FetchMobileInfo]
    ));
    assert!(service.snapshot().mobile.is_primary && !service.snapshot().wired.connected);
    let actions = service.set_unavailable();
    assert!(!actions.is_empty());
    assert!(!service.snapshot().available);
}

#[test]
fn attempts_are_numbered_and_cancelled() {
    let mut service = NmService::new();
    service.wifi.networks = vec![test_network("/ap")];
    assert!(service.connect_to_network("test", None, None, false).is_none());
    let (_, attempt) = service
        .connect_to_network("test", Some("pw"), None, true)
        .unwrap();
    assert_eq!(attempt.ssid, "test");
    assert_eq!(attempt.password.as_deref(), Some("pw"));
    assert_eq!(
        service.snapshot().wifi.connecting_ssid.as_deref(),
        Some("test")
    );
    let actions = service.disconnect();
    assert!(actions
        .iter()
        .any(|a| matches!(a, NmAction::CancelWifiActivation)));
    assert!(service.snapshot().wifi.connecting_ssid.is_none());
    assert!(service.wifi.attempt > attempt.attempt);
    assert!(service.queue_mobile_refresh());
    assert!(!service.queue_mobile_refresh());
    assert!(matches!(service.mobile_refresh_due(), NmAction::FetchMobileInfo));
    assert!(service.queue_mobile_refresh());
    assert!(service.scan_networks(true));
    assert!(!service.scan_networks(true));
}

#[test]
fn listings_end_at_the_first_failure() {
    let error = |name: &str, message: &str| CallError {
        name: Some(name.to_string()),
        message: message.to_string(),
    };
    let read = |path: &str, opened, settings| ProfileRead {
        path: path.to_string(),
        opened,
        settings,
    };
    let named = |ssid: &[u8]| {
        Some(Ok(vec![section(
            "802-11-wireless",
            vec![("ssid", SettingValue::Bytes(ssid.to_vec()))],
        )]))
    };
    let private = "org.freedesktop.NetworkManager.Settings.PermissionDenied";
    let reads = vec![
        read("/a", Ok(Some(0)), named(b"home")),
        read("/volatile", Ok(Some(4)), None),
        read("/private", Err(error(private, "no")), None),
        read("/bytes", Ok(Some(0)), named(b"\xff")),
        read("/wired", Ok(Some(0)), Some(Ok(vec![]))),
        read("/b", Ok(Some(1)), named(b"cafe")),
    ];
    let listed = wifi_profiles(&reads).unwrap();
    let rows: Vec<(&str, &str)> = listed
        .iter()
        .map(|p| (p.path.as_str(), p.ssid.as_str()))
        .collect();
    assert_eq!(rows, vec![("/a", "home"), ("/b", "cafe")]);
    let lost = "org.freedesktop.DBus.Error.NoReply";
    let reads = vec![
        read("/a", Ok(Some(0)), named(b"home")),
        read("/b", Ok(Some(0)), Some(Err(error(lost, "first")))),
        read("/c", Err(error(lost, "second")), None),
    ];
    assert!(matches!(wifi_profiles(&reads), Err(e) if e == "first"));
}

/// Ends a lookup with the given replies.
fn look_up(replies: Vec<LookupReply>) -> Result<WifiCredentials, String> {
    let active = Some("/active".to_string());
    let (mut lookup, mut call) = CredentialLookup::request_active_wifi_credentials(active);
    for reply in replies {
        call = lookup.step(reply);
    }
    match call {
        LookupCall::Finish(result) => result,
        other => panic!("{other:?} is no end"),
    }
}

#[test]
fn credentials_are_looked_up() {
    let nowhere = [None, Some("/".to_string())];
    for active in nowhere {
        let (_, call) = CredentialLookup::request_active_wifi_credentials(active);
        assert!(matches!(call, LookupCall::Finish(Err(e)) if e == "No active Wi-Fi connection"));
    }
    let connection = || LookupReply::Connection(Ok(Some("/profile".to_string())));
    let opened = || LookupReply::Opened(Ok(()));
    let wireless = || {
        section(
            "802-11-wireless",
            vec![("ssid", SettingValue::Bytes(b"home".to_vec()))],
        )
    };
    let secured = || {
        let security = section("802-11-wireless-security", vec![("key-mgmt", text("sae"))]);
        LookupReply::Settings(Ok(vec![wireless(), security]))
    };
    let open = look_up(vec![
        connection(),
        opened(),
        LookupReply::Settings(Ok(vec![wireless()])),
    ])
    .unwrap();
    assert_eq!(open.ssid, "home");
    assert!(open.password.is_none());
    let secrets = section("802-11-wireless-security", vec![("psk", text("hunter22"))]);
    let found = look_up(vec![
        connection(),
        opened(),
        secured(),
        LookupReply::Secrets(Ok(vec![secrets])),
    ])
    .unwrap();
    assert_eq!(found.password.as_deref(), Some("hunter22"));
    assert_eq!(found.authentication, WifiAuthentication::Sae);

    let e = || "gone".to_string();
    let failures = [
        (
            vec![LookupReply::Connection(Err(e()))],
            "Failed to open active connection: gone",
        ),
        (
            vec![LookupReply::Connection(Ok(None))],
            "Active Wi-Fi profile is unavailable",
        ),
        (
            vec![connection(), LookupReply::Opened(Err(e()))],
            "Failed to open Wi-Fi profile: gone",
        ),
        (
            vec![connection(), opened(), LookupReply::Settings(Err(e()))],
            "Failed to read Wi-Fi profile: gone",
        ),
        (
            vec![connection(), opened(), LookupReply::Settings(Ok(vec![]))],
            "Active connection is not Wi-Fi",
        ),
        (
            vec![connection(), opened(), secured(), LookupReply::Secrets(Err(e()))],
            "Saved Wi-Fi password is unavailable: gone",
        ),
        (
            vec![connection(), opened(), secured(), LookupReply::Secrets(Ok(vec![]))],
            "Saved Wi-Fi password is unavailable",
        ),
    ];
    for (replies, words) in failures {
        assert_eq!(look_up(replies).unwrap_err(), words);
    }
    let (mut lookup, _) =
        CredentialLookup::request_active_wifi_credentials(Some("/active".to_string()));
    assert!(matches!(lookup.step(opened()), LookupCall::Nothing));
    assert!(matches!(lookup.step(connection()), LookupCall::OpenProfile { .. }));
}

#[test]
fn the_bus_is_heard() {
    let flags = || NmFlags {
        wifi_enabled: Some(true),
        mobile_enabled: None,
        primary_connection_type: None,
    };
    let mut service = NmService::new();
    let (actions, timer) = service.bus_event(BusEvent::Appeared(flags()));
    assert!(matches!(actions[0], NmAction::Notify));
    assert!(matches!(actions.last(), Some(NmAction::DiscoverDevices)));
    assert!(!timer && service.snapshot.available);
    assert!(service.bus_event(BusEvent::FlagsChanged(flags())).0.is_empty());

    let modem = |name: &str| BusEvent::ModemChanged {
        interface: Some(name.to_string()),
    };
    assert!(!service.bus_event(modem("org.freedesktop.ModemManager1.Sim")).1);
    assert!(!service.bus_event(BusEvent::Sleep { preparing: Some(true) }).1);
    assert!(!service.bus_event(BusEvent::Sleep { preparing: None }).1);
    assert!(service.bus_event(modem("org.freedesktop.ModemManager1.Modem")).1);
    assert!(!service.bus_event(BusEvent::ModemsChanged).1);
    assert!(matches!(service.mobile_refresh_due(), NmAction::FetchMobileInfo));
    assert!(service.bus_event(BusEvent::Sleep { preparing: Some(false) }).1);

    let (actions, _) = service.bus_event(BusEvent::Vanished);
    assert!(matches!(actions[..], [NmAction::Notify, NmAction::ClearProxies]));
    assert!(service.bus_event(BusEvent::Vanished).0.is_empty());
}

#[test]
fn switches_are_set_at_once() {
    let mut service = NmService::new();
    assert!(service.set_wifi_enabled(true).is_empty());
    assert!(matches!(service.set_wifi_enabled(false)[..], [NmAction::Notify]));
    assert_eq!(service.wifi.attempt, 1);
    service.set_mobile_enabled(true, true);
    assert!(service.snapshot.mobile.connecting);
    assert_eq!(service.snapshot.mobile.enabled, Some(true));
    service.set_mobile_enabled(false, true);
    assert!(!service.snapshot.mobile.connecting && !service.snapshot.mobile.active);
    let actions = service.connect_mobile();
    assert!(matches!(actions[0], NmAction::Notify));
    assert!(service.mobile.activation_cancel && service.snapshot.mobile.connecting);
    let actions = service.disconnect_mobile();
    assert!(matches!(
        actions[..],
        [NmAction::Notify, NmAction::CancelMobileActivation]
    ));
    service.snapshot.mobile.failed = true;
    assert!(service.clear_mobile_failed_state());
    assert!(!service.clear_mobile_failed_state());

    service.wifi.failed_ssid = Some("home".to_string());
    service.clear_failed_state();
    assert!(service.wifi.failed_ssid.is_none());
    service.known_ssids_read(&Ok(vec![]), 5);
    assert_eq!(service.wifi.known_ssids_last_refresh, Some(5));
    service.invalidate_known_ssids();
    assert!(service.wifi.known_ssids_last_refresh.is_none());
    assert!(matches!(
        service.update_state()[..],
        [NmAction::Notify, NmAction::RefreshNetworks { generation: 1 }]
    ));
}

#[test]
fn saved_ssids_are_kept_until_they_are_due() {
    let profile = |ssid: &str| WifiProfile {
        path: format!("/profile/{ssid}"),
        ssid: ssid.to_string(),
    };
    let mut service = NmService::new();
    assert!(service.known_ssids_due(0));
    service.known_ssids_read(&Ok(vec![profile("home"), profile("office")]), 1_000);
    assert_eq!(service.wifi.known_ssids, ["home", "office"]);
    assert!(!service.known_ssids_due(1_000));
    assert!(!service.known_ssids_due(30_999));
    assert!(service.known_ssids_due(31_000));

    service.known_ssids_read(&Err("denied".to_string()), 31_000);
    assert_eq!(service.wifi.known_ssids, ["home", "office"]);
    assert_eq!(service.wifi.known_ssids_last_refresh, Some(1_000));
    assert!(service.known_ssids_due(31_000));

    service.known_ssids_read(&Ok(vec![profile("office")]), 31_000);
    assert_eq!(service.wifi.known_ssids, ["office"]);
    assert!(!service.known_ssids_due(31_000));
}

#[test]
fn failed_attempts_are_not_shown_from_the_cache() {
    let ended = |success: bool| {
        let mut service = NmService::new();
        service.known_ssids_read(&Ok(vec![]), 7);
        service.apply_update(NmUpdate::ConnectionAttemptFinished {
            attempt: service.wifi.attempt,
            ssid: "home".to_string(),
            success,
            message: None,
        });
        service.known_ssids_due(8)
    };
    assert!(ended(false));
    assert!(!ended(true));
}
