use hubremote::command::CommandResult;
use hubremote::mount::{
    get_mount_status, is_drive_form, mount_args, mount_check, mount_wait_step, version_line,
    MountWait, RcloneConfig,
};
use hubremote::shortcuts::{
    are_shortcuts_enabled, configured_bindings, set_shortcuts_enabled, shortcut_event,
    ShortcutAction, ShortcutConfig, ShortcutSwitch,
};
use hubremote::supervisor::{get_pipe_name, player_args, ConnectRetry, RetryStep};
use hubremote::tray::{
    menu_action, now_playing_text, play_pause_label, should_minimize_to_tray, tooltip_text,
    PlaybackInfoPayload, TrayAction, TrayPlaybackInfo, TrayState,
};
use hubremote::protocol::MpvIpcError;

#[test]
fn command_results() {
    let r = CommandResult::ok(5);
    assert!(r.success && r.data == Some(5) && r.error.is_none());
    let r: CommandResult<u8> = CommandResult::err("boom".to_string());
    assert!(!r.success && r.data.is_none());
    assert_eq!(r.error.as_deref(), Some("boom"));
    let r = CommandResult::ok_empty();
    assert!(r.success && r.data == Some(()));
}

#[test]
fn pipe_names() {
    assert_eq!(get_pipe_name(4242, false), "/tmp/hubremote-mpv-4242.sock");
    assert_eq!(get_pipe_name(7, true), "\\\\.\\pipe\\hubremote-mpv-7");
}

#[test]
fn player_arguments() {
    let a = player_args("/tmp/p.sock");
    assert_eq!(a.len(), 11);
    assert_eq!(a[0], "--idle=yes");
    assert_eq!(a[1], "--input-ipc-server=/tmp/p.sock");
    assert_eq!(a[3], "--hwdec=auto-safe");
    assert_eq!(a[10], "--title=HubRemote Player");
}

#[test]
fn connect_gives_up_after_fifty_attempts() {
    let mut r = ConnectRetry::new();
    for _ in 0..49 {
        assert!(matches!(r.on_failure(), RetryStep::WaitMs(100)));
    }
    match r.on_failure() {
        RetryStep::GiveUp(MpvIpcError::ConnectionError(m)) => {
            assert_eq!(m, "Timeout waiting for mpv IPC socket")
        }
        _ => panic!("expected to give up"),
    }
    assert_eq!(r.failures, 50);
}

#[test]
fn default_rclone_config() {
    let c = RcloneConfig::default();
    assert_eq!(c.rclone_path, "rclone");
    assert_eq!(c.remote_name, "gdrive");
    assert_eq!(c.remote_folder, "Media Hub");
    assert_eq!(c.mount_point, "G:");
    assert_eq!(c.vfs_cache_mode, "full");
    assert!(c.auto_mount);
}

#[test]
fn mount_status_and_args() {
    let c = RcloneConfig::default();
    let s = get_mount_status(&c, true);
    assert!(s.is_mounted);
    assert_eq!(s.mount_point, "G:");
    assert!(s.error.is_none());
    assert_eq!(
        mount_args(&c),
        vec!["mount", "gdrive:Media Hub", "G:", "--vfs-cache-mode", "full", "--network-mode"]
    );
}

#[test]
fn drive_letters() {
    assert!(is_drive_form("G:"));
    assert!(is_drive_form("G:\\"));
    assert!(!is_drive_form("/mnt/g"));
    assert!(!is_drive_form("D:\\media"));
    assert!(mount_check(true, true, true, true));
    assert!(!mount_check(true, true, true, false));
    assert!(mount_check(false, true, true, false));
    assert!(!mount_check(false, false, false, false));
}

#[test]
fn version_lines() {
    assert_eq!(version_line("rclone v1.66.0\r\n- os/version: x\n"), "rclone v1.66.0");
    assert_eq!(version_line("rclone v1.60.0"), "rclone v1.60.0");
    assert_eq!(version_line(""), "rclone");
}

#[test]
fn mount_wait_steps() {
    assert!(matches!(mount_wait_step(true, 99_999, "G:", 30), MountWait::Ready));
    assert!(matches!(mount_wait_step(false, 1000, "G:", 30), MountWait::WaitMs(500)));
    match mount_wait_step(false, 30_000, "G:", 30) {
        MountWait::TimedOut(m) => assert_eq!(m, "Timeout waiting for mount at G: after 30 seconds"),
        _ => panic!("expected a timeout"),
    }
}

#[test]
fn default_shortcut_bindings() {
    let b = configured_bindings(&ShortcutConfig::default());
    let keys: Vec<&str> = b.iter().map(|(k, _)| k.as_str()).collect();
    assert_eq!(keys, vec!["MediaPlayPause", "MediaNextTrack", "MediaPreviousTrack", "MediaStop"]);
    assert!(matches!(b[0].1, ShortcutAction::PlayPause));
    assert!(matches!(b[3].1, ShortcutAction::Stop));
}

#[test]
fn custom_shortcut_bindings() {
    let c = ShortcutConfig {
        play_pause: None,
        next_track: None,
        previous_track: None,
        stop: None,
        volume_up: Some("Ctrl+Up".to_string()),
        volume_down: None,
        mute: Some("Ctrl+M".to_string()),
    };
    let b = configured_bindings(&c);
    assert_eq!(b.len(), 2);
    assert_eq!(b[0].0, "Ctrl+Up");
    assert!(matches!(b[0].1, ShortcutAction::VolumeUp));
    assert!(matches!(b[1].1, ShortcutAction::Mute));
}

#[test]
fn shortcut_switch() {
    let mut s = ShortcutSwitch::new();
    assert!(!are_shortcuts_enabled(&s));
    assert!(shortcut_event(&s, true, "MediaStop", ShortcutAction::Stop).is_none());
    set_shortcuts_enabled(&mut s, true);
    assert!(are_shortcuts_enabled(&s));
    let e = shortcut_event(&s, true, "MediaStop", ShortcutAction::Stop).unwrap();
    assert_eq!(e.shortcut, "MediaStop");
    assert!(shortcut_event(&s, false, "MediaStop", ShortcutAction::Stop).is_none());
}

#[test]
fn tray_texts() {
    let t = TrayState::new();
    assert!(t.minimize_to_tray && !t.playback_info.is_playing);
    let info = TrayPlaybackInfo { is_playing: true, title: Some("Song".to_string()), artist: Some("Band".to_string()) };
    assert_eq!(now_playing_text(&info).as_deref(), Some("Band - Song"));
    assert_eq!(tooltip_text(&info), "HubRemote - Playing: Song");
    assert_eq!(play_pause_label(Some(&info)), "Pause");
    let long = TrayPlaybackInfo { is_playing: false, title: Some("A".repeat(45)), artist: None };
    assert_eq!(now_playing_text(&long), Some(format!("{}...", "A".repeat(37))));
    assert_eq!(tooltip_text(&long), format!("HubRemote - Paused: {}", "A".repeat(45)));
    assert_eq!(play_pause_label(None), "Play");
    let wide = TrayPlaybackInfo { is_playing: true, title: Some("é".repeat(21)), artist: None };
    assert_eq!(now_playing_text(&wide), Some(format!("{}...", "é".repeat(18))));
    let exact = TrayPlaybackInfo { is_playing: true, title: Some("é".repeat(20)), artist: None };
    assert_eq!(now_playing_text(&exact), Some("é".repeat(20)));
    let mixed = TrayPlaybackInfo { is_playing: true, title: Some(format!("{}€{}", "a".repeat(35), "b".repeat(10))), artist: None };
    assert_eq!(now_playing_text(&mixed), Some(format!("{}...", "a".repeat(35))));
    let none = PlaybackInfoPayload { is_playing: false, title: None, artist: None }.into_tray_info();
    assert_eq!(now_playing_text(&none), None);
    assert_eq!(tooltip_text(&none), "HubRemote");
}

#[test]
fn tray_menu_actions() {
    assert!(matches!(menu_action("show_hide"), TrayAction::ToggleWindow));
    assert!(matches!(menu_action("play_pause"), TrayAction::Command("playPause")));
    assert!(matches!(menu_action("next"), TrayAction::Command("next")));
    assert!(matches!(menu_action("previous"), TrayAction::Command("previous")));
    assert!(matches!(menu_action("quit"), TrayAction::Quit));
    assert!(matches!(menu_action("other"), TrayAction::Nothing));
    assert!(should_minimize_to_tray(None));
    let mut t = TrayState::default();
    t.minimize_to_tray = false;
    assert!(!should_minimize_to_tray(Some(&t)));
}
