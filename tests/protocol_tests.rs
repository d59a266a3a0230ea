use hubremote::player::{
    clamp_volume, cycle_command, decode_int, get_property_command, header_block, load_commands,
    load_file_command, seek_command, set_property_command, snapshot, subtitle_command,
    volume_command, with_player, word_command, MpvError,
};
use hubremote::protocol::{
    begin_call, decode_flag, decode_text, encode_request, MpvIpcError, ReadEvent, Reply,
    ReplyWait, RequestIds, Token, WaitStep, MAX_REPLY_LINES,
};

fn reply(id: u64, error: &str, data: &str) -> ReadEvent {
    ReadEvent::Line(Some(Reply { error: error.to_string(), data: data.to_string(), request_id: id }))
}

fn texts(tokens: &[Token]) -> Vec<String> {
    tokens
        .iter()
        .map(|t| match t {
            Token::Text(s) => format!("T:{}", s),
            Token::Int(n) => format!("I:{}", n),
            Token::Flag(b) => format!("F:{}", b),
            Token::Raw(s) => format!("R:{}", s),
        })
        .collect()
}

#[test]
fn request_line_is_one_json_object() {
    let line = encode_request(&get_property_command("volume"), 3);
    assert_eq!(line, "{\"command\":[\"get_property\",\"volume\"],\"request_id\":3}\n");
}

#[test]
fn request_line_escapes_text_and_writes_values() {
    let cmd = vec![
        Token::Text("a\"b\\c\n".to_string()),
        Token::Int(-42),
        Token::Flag(true),
        Token::Flag(false),
        Token::Raw("1.5".to_string()),
        Token::Int(i64::MIN),
    ];
    let line = encode_request(&cmd, 18446744073709551615);
    assert_eq!(
        line,
        "{\"command\":[\"a\\\"b\\\\c\\n\",-42,true,false,1.5,-9223372036854775808],\"request_id\":18446744073709551615}\n"
    );
    let parsed: serde_json::Value = serde_json::from_str(line.trim_end()).unwrap();
    assert_eq!(parsed["command"][0], "a\"b\\c\n");
}

#[test]
fn empty_command_line() {
    assert_eq!(encode_request(&vec![], 1), "{\"command\":[],\"request_id\":1}\n");
}

#[test]
fn request_ids_count_up_from_one() {
    let mut ids = RequestIds::new();
    assert_eq!(ids.fresh(), 1);
    assert_eq!(ids.fresh(), 2);
    ids.next = u64::MAX;
    assert_eq!(ids.fresh(), u64::MAX);
    assert_eq!(ids.fresh(), 1);
}

#[test]
fn call_needs_a_connection() {
    let mut ids = RequestIds::new();
    assert!(matches!(begin_call(&mut ids, false, &word_command(&vec!["stop"])), Err(MpvIpcError::NotRunning)));
    assert_eq!(ids.next, 1);
    let (line, wait) = begin_call(&mut ids, true, &word_command(&vec!["stop"])).ok().unwrap();
    assert_eq!(line, "{\"command\":[\"stop\"],\"request_id\":1}\n");
    assert_eq!(wait.expected, 1);
    assert_eq!(ids.next, 2);
}

#[test]
fn matching_reply_gives_its_data() {
    let mut w = ReplyWait::new(5);
    assert!(matches!(w.on_event(ReadEvent::Line(None)), WaitStep::ReadAgain));
    assert!(matches!(w.on_event(reply(4, "success", "1")), WaitStep::ReadAgain));
    assert!(matches!(w.on_event(reply(0, "", "null")), WaitStep::ReadAgain));
    match w.on_event(reply(5, "success", "42")) {
        WaitStep::Done(Ok(d)) => assert_eq!(d, "42"),
        _ => panic!("expected data"),
    }
    assert_eq!(w.lines_read, 3);
}

#[test]
fn empty_error_text_is_success() {
    let mut w = ReplyWait::new(2);
    assert!(matches!(w.on_event(reply(2, "", "true")), WaitStep::Done(Ok(_))));
}

#[test]
fn failure_text_is_reported() {
    let mut w = ReplyWait::new(9);
    match w.on_event(reply(9, "property not found", "null")) {
        WaitStep::Done(Err(MpvIpcError::MpvError(m))) => assert_eq!(m, "property not found"),
        _ => panic!("expected a player error"),
    }
}

#[test]
fn reply_never_arriving_times_out() {
    let mut w = ReplyWait::new(7);
    for i in 1..MAX_REPLY_LINES {
        let ev = if i % 2 == 0 { ReadEvent::Line(None) } else { reply(8, "success", "0") };
        assert!(matches!(w.on_event(ev), WaitStep::ReadAgain), "line {}", i);
    }
    match w.on_event(ReadEvent::Line(None)) {
        WaitStep::Done(Err(MpvIpcError::ReceiveError(m))) => assert_eq!(m, "Response timeout"),
        _ => panic!("expected a timeout"),
    }
    assert_eq!(w.lines_read, 100);
}

#[test]
fn end_of_stream_and_read_failure_end_the_wait() {
    let mut w = ReplyWait::new(1);
    match w.on_event(ReadEvent::EndOfStream) {
        WaitStep::Done(Err(MpvIpcError::ReceiveError(m))) => assert_eq!(m, "EOF reached"),
        _ => panic!("expected end of stream"),
    }
    let mut w = ReplyWait::new(1);
    match w.on_event(ReadEvent::Failed("broken pipe".to_string())) {
        WaitStep::Done(Err(MpvIpcError::ReceiveError(m))) => assert_eq!(m, "broken pipe"),
        _ => panic!("expected a receive error"),
    }
}

#[test]
fn reply_data_decoding() {
    assert_eq!(decode_flag(&"true".to_string()), Some(true));
    assert_eq!(decode_flag(&"false".to_string()), Some(false));
    assert_eq!(decode_flag(&"1".to_string()), None);
    assert_eq!(decode_int(&"100".to_string()), Some(100));
    assert_eq!(decode_int(&"-7".to_string()), Some(-7));
    assert_eq!(decode_int(&"-9223372036854775808".to_string()), Some(i64::MIN));
    assert_eq!(decode_int(&"9223372036854775808".to_string()), None);
    assert_eq!(decode_int(&"100.000000".to_string()), None);
    assert_eq!(decode_int(&"+5".to_string()), None);
    assert_eq!(decode_int(&"-".to_string()), None);
    assert_eq!(decode_int(&"".to_string()), None);
    assert_eq!(decode_text(&"\"movie.mkv\"".to_string()).as_deref(), Some("movie.mkv"));
    assert_eq!(decode_text(&"\"a\\\"b\"".to_string()).as_deref(), Some("a\"b"));
    assert_eq!(decode_text(&"12".to_string()), None);
}

#[test]
fn volume_is_clamped() {
    assert_eq!(clamp_volume(150), 100);
    assert_eq!(clamp_volume(-3), 0);
    assert_eq!(clamp_volume(55), 55);
    assert_eq!(texts(&volume_command(150)), vec!["T:set_property", "T:volume", "I:100"]);
    let line = encode_request(&volume_command(150), 4);
    assert_eq!(line, "{\"command\":[\"set_property\",\"volume\",100],\"request_id\":4}\n");
}

#[test]
fn subtitle_index_zero_or_less_turns_subtitles_off() {
    assert_eq!(texts(&subtitle_command(0)), vec!["T:set_property", "T:sid", "T:no"]);
    assert_eq!(texts(&subtitle_command(-1)), vec!["T:set_property", "T:sid", "T:no"]);
    assert_eq!(texts(&subtitle_command(2)), vec!["T:set_property", "T:sid", "I:2"]);
}

#[test]
fn command_builders() {
    assert_eq!(texts(&load_file_command("http://x/a.mkv")), vec!["T:loadfile", "T:http://x/a.mkv", "T:replace"]);
    assert_eq!(texts(&seek_command("12.5", true)), vec!["T:seek", "T:12.5", "T:absolute"]);
    assert_eq!(texts(&seek_command("-10", false)), vec!["T:seek", "T:-10", "T:relative"]);
    assert_eq!(texts(&cycle_command("pause")), vec!["T:cycle", "T:pause"]);
    assert_eq!(texts(&set_property_command("mute", Token::Flag(true))), vec!["T:set_property", "T:mute", "F:true"]);
    assert_eq!(texts(&word_command(&vec!["quit"])), vec!["T:quit"]);
}

#[test]
fn load_with_headers_and_start() {
    let headers = vec![
        ("X-Emby-Token".to_string(), "SECRET-REDACTED".to_string()),
        ("Accept".to_string(), "*/*".to_string()),
    ];
    assert_eq!(header_block(&headers), "X-Emby-Token: SECRET-REDACTED\r\nAccept: */*");
    let cmds = load_commands("http://h/v", Some("30"), Some(&headers));
    assert_eq!(cmds.len(), 3);
    assert_eq!(
        texts(&cmds[0]),
        vec!["T:set_property", "T:http-header-fields", "T:X-Emby-Token: SECRET-REDACTED\r\nAccept: */*"]
    );
    assert_eq!(texts(&cmds[1]), vec!["T:set_property", "T:start", "T:30"]);
    assert_eq!(texts(&cmds[2]), vec!["T:loadfile", "T:http://h/v", "T:replace"]);
}

#[test]
fn load_without_options_is_one_command() {
    let empty: Vec<(String, String)> = vec![];
    assert_eq!(load_commands("a.mp4", None, Some(&empty)).len(), 1);
    assert_eq!(load_commands("a.mp4", None, None).len(), 1);
    assert_eq!(header_block(&empty), "");
}

#[test]
fn snapshot_defaults_for_failed_reads() {
    let s = snapshot(None, None, None, None, None);
    assert!(s.is_paused);
    assert!(!s.is_playing);
    assert_eq!(s.volume, 100);
    assert!(!s.is_muted);
    assert!(s.filename.is_none() && s.media_title.is_none());
    let s = snapshot(Some(false), Some(40), Some(true), Some("a.mkv".to_string()), Some("A".to_string()));
    assert!(s.is_playing && !s.is_paused && s.is_muted);
    assert_eq!(s.volume, 40);
    assert_eq!(s.filename.as_deref(), Some("a.mkv"));
}

#[test]
fn operations_need_a_player() {
    assert!(matches!(with_player::<u8>(None), Err(MpvError::NotInitialized)));
    assert!(matches!(with_player(Some(3u8)), Ok(3)));
}

/// A player that keeps its properties, answering request lines.
fn mock_player(store: &mut std::collections::HashMap<String, serde_json::Value>, line: &str) -> serde_json::Value {
    let v: serde_json::Value = serde_json::from_str(line.trim_end()).unwrap();
    let cmd = v["command"].as_array().unwrap();
    match cmd[0].as_str().unwrap() {
        "set_property" => {
            store.insert(cmd[1].as_str().unwrap().to_string(), cmd[2].clone());
            serde_json::Value::Null
        }
        "cycle" => {
            let name = cmd[1].as_str().unwrap().to_string();
            let cur = store.get(&name).and_then(|x| x.as_bool()).unwrap();
            store.insert(name, serde_json::Value::Bool(!cur));
            serde_json::Value::Null
        }
        "get_property" => store.get(cmd[1].as_str().unwrap()).cloned().unwrap(),
        _ => serde_json::Value::Null,
    }
}

#[test]
fn set_then_get_round_trip() {
    let mut store = std::collections::HashMap::new();
    let mut ids = RequestIds::new();
    for v in [0i64, 7, -3, i64::MAX, i64::MIN] {
        let (line, _) = begin_call(&mut ids, true, &set_property_command("aid", Token::Int(v))).ok().unwrap();
        mock_player(&mut store, &line);
        let (line, _) = begin_call(&mut ids, true, &get_property_command("aid")).ok().unwrap();
        let data = mock_player(&mut store, &line).to_string();
        assert_eq!(decode_int(&data), Some(v));
    }
    for b in [true, false] {
        let (line, _) = begin_call(&mut ids, true, &set_property_command("mute", Token::Flag(b))).ok().unwrap();
        mock_player(&mut store, &line);
        let (line, _) = begin_call(&mut ids, true, &get_property_command("mute")).ok().unwrap();
        assert_eq!(decode_flag(&mock_player(&mut store, &line).to_string()), Some(b));
    }
}

#[test]
fn toggle_pause_twice_restores_state() {
    let mut store = std::collections::HashMap::new();
    store.insert("pause".to_string(), serde_json::Value::Bool(false));
    let mut ids = RequestIds::new();
    let mut reported = vec![];
    for _ in 0..2 {
        let (line, _) = begin_call(&mut ids, true, &cycle_command("pause")).ok().unwrap();
        mock_player(&mut store, &line);
        let (line, _) = begin_call(&mut ids, true, &get_property_command("pause")).ok().unwrap();
        reported.push(decode_flag(&mock_player(&mut store, &line).to_string()).unwrap());
    }
    assert_eq!(reported, vec![true, false]);
}
