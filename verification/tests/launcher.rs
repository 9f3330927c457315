use nestri_server::launcher::{
    env_file_lines, env_get, first_run_room, launcher_config, parse_env_line, parse_env_lines, room_from_input,
    toggle_command, tray_command, TrayCommand, DEFAULT_ROOM,
};
use nestri_server::{stream_url, DEFAULT_RELAY, WEB_CLIENT_URL};

fn lines(text: &str) -> Vec<String> {
    text.lines().map(|l| l.to_string()).collect()
}

#[test]
fn env_lines_are_trimmed_and_filtered() {
    assert_eq!(parse_env_line("  KEY = value  "), Some(("KEY".to_string(), "value".to_string())));
    assert_eq!(parse_env_line("# comment=1"), None);
    assert_eq!(parse_env_line("   "), None);
    assert_eq!(parse_env_line("no equals sign"), None);
    assert_eq!(parse_env_line("A=b=c"), Some(("A".to_string(), "b=c".to_string())));
}

#[test]
fn later_entries_override_earlier_ones() {
    let entries = parse_env_lines(&lines("NESTRI_ROOM=a\nOTHER=x\nNESTRI_ROOM=b\r\n"));
    assert_eq!(entries.len(), 3);
    assert_eq!(env_get(&entries, "NESTRI_ROOM"), Some(&"b".to_string()));
    assert_eq!(env_get(&entries, "MISSING"), None);
}

#[test]
fn defaults_without_env_file() {
    let cfg = launcher_config(&[]);
    assert_eq!(cfg.room, DEFAULT_ROOM);
    assert_eq!(cfg.relay_url, DEFAULT_RELAY);
    assert_eq!(cfg.stream_url, "https://xtreme-gaming.pages.dev/play?room=nestri-windows");
}

#[test]
fn saved_env_file_reads_back() {
    let written = env_file_lines("my-room", "/ip4/1.2.3.4/tcp/4001");
    assert_eq!(written.len(), 10);
    assert_eq!(written[0], "NESTRI_ROOM=my-room");
    assert_eq!(written[6], "NESTRI_RATE_CONTROL=cbr:8000");
    let file: String = written.iter().map(|l| format!("{}\n", l)).collect();
    let entries = parse_env_lines(&lines(&file));
    let expected: Vec<(String, String)> = [
        ("NESTRI_ROOM", "my-room"),
        ("NESTRI_RELAY_URL", "/ip4/1.2.3.4/tcp/4001"),
        ("NESTRI_GPU_VENDOR", "nvidia"),
        ("NESTRI_VIDEO_CODEC", "h264"),
        ("NESTRI_ENCODER_TYPE", "hardware"),
        ("NESTRI_LATENCY", "lowest-latency"),
        ("NESTRI_RATE_CONTROL", "cbr:8000"),
        ("NESTRI_FRAMERATE", "60"),
        ("NESTRI_MONITOR", "0"),
        ("NESTRI_AUDIO_BITRATE", "128"),
    ]
    .iter()
    .map(|(k, v)| (k.to_string(), v.to_string()))
    .collect();
    assert_eq!(entries, expected);
    let cfg = launcher_config(&entries);
    assert_eq!(cfg.room, "my-room");
    assert_eq!(cfg.relay_url, "/ip4/1.2.3.4/tcp/4001");
    assert_eq!(cfg.stream_url, format!("{}/play?room=my-room", WEB_CLIENT_URL));
}

#[test]
fn dialog_answer_names_room() {
    assert_eq!(room_from_input("  gaming-pc \n"), "gaming-pc");
    assert_eq!(room_from_input("   "), "nestri-windows");
    assert_eq!(room_from_input(""), "nestri-windows");
}

#[test]
fn stream_url_of_room() {
    assert_eq!(stream_url("abc"), "https://xtreme-gaming.pages.dev/play?room=abc");
}

#[test]
fn tray_commands() {
    assert_eq!(tray_command(100), Some(TrayCommand::OpenBrowser));
    assert_eq!(tray_command(101), Some(TrayCommand::CopyUrl));
    assert_eq!(tray_command(102), Some(TrayCommand::Stop));
    assert_eq!(tray_command(103), Some(TrayCommand::Start));
    assert_eq!(tray_command(104), Some(TrayCommand::Exit));
    assert_eq!(tray_command(0), None);
    assert_eq!(toggle_command(true), TrayCommand::Stop);
    assert_eq!(toggle_command(false), TrayCommand::Start);
}

#[test]
fn first_run_answer_is_the_configured_room() {
    for typed in ["  living-room  ", "", "\t"] {
        let room = room_from_input(typed);
        let file: String =
            env_file_lines(&room, DEFAULT_RELAY).iter().map(|l| format!("{}\n", l)).collect();
        let cfg = launcher_config(&parse_env_lines(&lines(&file)));
        assert_eq!(cfg.room, room);
        assert_eq!(cfg.relay_url, DEFAULT_RELAY);
        assert_eq!(cfg.stream_url, stream_url(&room));
    }
}

#[test]
fn cancelled_first_run_uses_default_room() {
    assert_eq!(first_run_room(None), DEFAULT_ROOM);
    assert_eq!(first_run_room(Some("  den ")), "den");
    assert_eq!(first_run_room(Some("")), DEFAULT_ROOM);
}
