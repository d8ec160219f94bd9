use vibepanel::media::{
    capitalize, format_duration, parse_metadata, pick_best_player, score_of, Discovery,
    MediaMetadata, MediaSnapshot, MetaValue, PlaybackStatus, PlayerProperties, Polling,
};
use vibepanel::media_ipc::{
    message_from_datagram, read_state, socket_path, state_file_path, write_state, MediaIpcMessage,
};
use vibepanel::table::Table;

#[test]
fn test_playback_status_from_str() {
    assert_eq!("Playing".parse(), Ok(PlaybackStatus::Playing));
    assert_eq!("Paused".parse(), Ok(PlaybackStatus::Paused));
    assert_eq!("Stopped".parse(), Ok(PlaybackStatus::Stopped));
    assert_eq!("Unknown".parse(), Ok(PlaybackStatus::Stopped));
}

#[test]
fn test_format_duration() {
    assert_eq!(format_duration(0), "0:00");
    assert_eq!(format_duration(30_000_000), "0:30"); // 30 seconds
    assert_eq!(format_duration(90_000_000), "1:30"); // 1:30
    assert_eq!(format_duration(3_661_000_000), "1:01:01"); // 1h 1m 1s
    assert_eq!(format_duration(-1000), "0:00"); // negative
}

#[test]
fn test_media_snapshot_default() {
    let snapshot = MediaSnapshot::default();
    assert!(!snapshot.available);
    assert!(snapshot.player_name.is_none());
    assert_eq!(snapshot.playback_status, PlaybackStatus::Stopped);
    assert!(!snapshot.has_track());
}

#[test]
fn test_media_snapshot_has_track() {
    let mut snapshot = MediaSnapshot::default();
    assert!(!snapshot.has_track());

    snapshot.available = true;
    assert!(!snapshot.has_track());

    snapshot.metadata.title = Some("Test Track".to_string());
    assert!(snapshot.has_track());
}

fn names(list: &[&str]) -> Vec<String> {
    list.iter().map(|s| s.to_string()).collect()
}

#[test]
fn music_players_suit_better_than_browsers() {
    assert_eq!(score_of(false, true, "org.mpris.mediaplayer2.spotify"), 20);
    assert_eq!(score_of(true, true, "org.mpris.mediaplayer2.vlc"), 205);
    assert_eq!(score_of(true, false, "org.mpris.mediaplayer2.firefox.1"), 15);
    assert_eq!(score_of(false, false, "org.mpris.mediaplayer2.chromium.1"), -5);
    let players = names(&[
        "org.mpris.MediaPlayer2.chromium.instance1",
        "org.mpris.MediaPlayer2.vlc",
        "org.mpris.MediaPlayer2.Spotify",
        "org.mpris.MediaPlayer2.firefox.instance1",
    ]);
    let mut snapshot = MediaSnapshot::empty();
    assert_eq!(
        pick_best_player(&snapshot, &players),
        Some("org.mpris.MediaPlayer2.Spotify".to_string())
    );
    snapshot.player_bus_name = Some("org.mpris.MediaPlayer2.vlc".to_string());
    snapshot.metadata.title = Some("  ".to_string());
    assert_eq!(
        pick_best_player(&snapshot, &players),
        Some("org.mpris.MediaPlayer2.Spotify".to_string())
    );
    snapshot.metadata.title = Some("Song".to_string());
    assert_eq!(
        pick_best_player(&snapshot, &players),
        Some("org.mpris.MediaPlayer2.vlc".to_string())
    );
    assert_eq!(pick_best_player(&snapshot, &vec![]), None);
}

#[test]
fn players_come_and_go() {
    let mut snapshot = MediaSnapshot::empty();
    let bus = names(&[
        "org.freedesktop.DBus",
        "org.mpris.MediaPlayer2.vlc.instance7",
        "org.mpris.MediaPlayer2.mpv",
    ]);
    match snapshot.discover_players(&bus) {
        Discovery::Select(player) => assert_eq!(player, "org.mpris.MediaPlayer2.mpv"),
        other => panic!("{other:?}"),
    }
    assert_eq!(snapshot.available_players.len(), 2);
    snapshot.player_connected("org.mpris.MediaPlayer2.vlc.instance7");
    assert_eq!(snapshot.player_name, Some("Vlc".to_string()));
    assert_eq!(snapshot.player_id, Some("vlc".to_string()));
    assert!(matches!(snapshot.discover_players(&bus), Discovery::Keep));
    assert!(snapshot.switch_player("org.mpris.MediaPlayer2.mpv"));
    assert!(!snapshot.switch_player("org.mpris.MediaPlayer2.vlc.instance7"));
    assert!(!snapshot.switch_player("org.mpris.MediaPlayer2.none"));
    assert!(matches!(
        snapshot.discover_players(&names(&["org.freedesktop.DBus"])),
        Discovery::Clear
    ));
    snapshot.clear_player();
    assert!(!snapshot.available && snapshot.player_bus_name.is_none());
}

#[test]
fn names_without_the_prefix_are_shown_as_they_are() {
    let mut snapshot = MediaSnapshot::empty();
    snapshot.player_connected("com.example.Player");
    assert_eq!(snapshot.player_name, Some("com.example.Player".to_string()));
    assert_eq!(snapshot.player_id, None);
    // Some letters have a capital form of two letters.
    snapshot.player_connected("org.mpris.MediaPlayer2.\u{df}eta");
    assert_eq!(snapshot.player_name, Some("SSeta".to_string()));
    assert_eq!(capitalize("", "X"), "");
    assert_eq!(capitalize("mpv", "M"), "Mpv");
}

fn nothing_told() -> PlayerProperties {
    PlayerProperties {
        status: None,
        metadata: None,
        volume: None,
        position: None,
        can_play: None,
        can_pause: None,
        can_go_next: None,
        can_go_previous: None,
        can_seek: None,
        can_control: None,
    }
}

#[test]
fn properties_are_taken_over() {
    let mut snapshot = MediaSnapshot::empty();
    let polling = snapshot.update_from_proxy(PlayerProperties {
        status: Some("Playing".to_string()),
        position: Some(5),
        volume: Some(0.5f64.to_bits()),
        can_seek: Some(true),
        metadata: Some(MediaMetadata {
            title: Some("T".to_string()),
            ..Default::default()
        }),
        ..nothing_told()
    });
    assert_eq!(polling, Polling::Start);
    assert!(snapshot.polls_position());
    assert!(snapshot.can_control && snapshot.can_seek && !snapshot.can_play);
    assert_eq!(snapshot.update_from_proxy(nothing_told()), Polling::Unchanged);
    assert_eq!(snapshot.metadata.title, Some("T".to_string()));
    assert!(!snapshot.can_seek);
    let polling = snapshot.update_from_proxy(PlayerProperties {
        status: Some("Paused".to_string()),
        ..nothing_told()
    });
    assert_eq!(polling, Polling::Stop);
    assert!(!snapshot.poll_position(5));
    assert!(snapshot.poll_position(6));
}

#[test]
fn volumes_are_checked_and_taken_back() {
    let mut snapshot = MediaSnapshot::empty();
    assert_eq!(snapshot.volume, 1.0f64.to_bits());
    assert_eq!(snapshot.set_volume(0.25f64.to_bits()), Some(1.0f64.to_bits()));
    assert_eq!(snapshot.set_volume((-0.5f64).to_bits()), None);
    assert_eq!(snapshot.set_volume(f64::NAN.to_bits()), None);
    assert_eq!(snapshot.set_volume(f64::INFINITY.to_bits()), None);
    assert_eq!(snapshot.volume, 0.25f64.to_bits());
    snapshot.revert_volume(1.0f64.to_bits());
    assert_eq!(snapshot.volume, 1.0f64.to_bits());
    assert_eq!(snapshot.position_target(), None);
    snapshot.metadata.track_id = Some("/track/1".to_string());
    assert_eq!(snapshot.position_target(), Some("/track/1".to_string()));
}

#[test]
fn metadata_is_read() {
    let mut dict = Table::new();
    dict.insert("xesam:title".to_string(), MetaValue::Text("Title".to_string()));
    dict.insert(
        "xesam:artist".to_string(),
        MetaValue::Texts(names(&["A", "B"])),
    );
    dict.insert("xesam:album".to_string(), MetaValue::Number(3));
    dict.insert("mpris:length".to_string(), MetaValue::Number(90));
    dict.insert("mpris:trackid".to_string(), MetaValue::Path("/t/1".to_string()));
    let metadata = parse_metadata(&dict);
    assert_eq!(metadata.title, Some("Title".to_string()));
    assert_eq!(metadata.artist, Some("A, B".to_string()));
    assert_eq!(metadata.album, None);
    assert_eq!(metadata.length, Some(90));
    assert_eq!(metadata.track_id, Some("/t/1".to_string()));
    assert!(parse_metadata(&Table::new()).title.is_none());
}

#[test]
fn messages_survive_the_wire() {
    let select = MediaIpcMessage::Select {
        bus_name: "org.mpris.MediaPlayer2.vlc".to_string(),
    };
    assert_eq!(select.to_wire(), "select:org.mpris.MediaPlayer2.vlc");
    assert_eq!(MediaIpcMessage::from_wire(&select.to_wire()), Some(select));
    assert_eq!(MediaIpcMessage::Auto.to_wire(), "auto");
    assert_eq!(MediaIpcMessage::from_wire(" auto\n"), Some(MediaIpcMessage::Auto));
    assert_eq!(MediaIpcMessage::from_wire("automatic"), None);
    assert_eq!(message_from_datagram(b"auto".to_vec()), Some(MediaIpcMessage::Auto));
    assert_eq!(message_from_datagram(vec![0xff, 0xfe]), None);
    assert_eq!(
        message_from_datagram("select:caf\u{e9}".as_bytes().to_vec()),
        Some(MediaIpcMessage::Select {
            bus_name: "caf\u{e9}".to_string()
        })
    );
}

#[test]
fn states_survive_the_file() {
    let written = write_state(Some("org.mpris.MediaPlayer2.vlc"), false);
    let state = read_state(Some(&written));
    assert_eq!(state.bus_name, Some("org.mpris.MediaPlayer2.vlc".to_string()));
    assert!(!state.is_auto);
    let state = read_state(Some(&write_state(None, true)));
    assert_eq!(state.bus_name, None);
    assert!(state.is_auto);
    let state = read_state(None);
    assert!(state.bus_name.is_none() && state.is_auto);
    assert_eq!(socket_path(Some("/run/user/1")), "/run/user/1/vibepanel-media.sock");
    assert_eq!(socket_path(None), "/tmp/vibepanel-media.sock");
    assert_eq!(state_file_path(Some("/run/user/1")), "/run/user/1/vibepanel-media-state");
    assert_eq!(state_file_path(None), "/tmp/vibepanel-media-state");
}
