use hubremote::range::StreamFailure;
use hubremote::registry::StreamingState;
use hubremote::server::{file_name, StreamError, StreamingServer};
use hubremote::text::uuid_simple;

#[test]
fn ids_are_hex_of_stamps() {
    assert_eq!(uuid_simple(0), "0");
    assert_eq!(uuid_simple(255), "ff");
    assert_eq!(uuid_simple(0x17f3a9c2b), "17f3a9c2b");
    assert_eq!(uuid_simple(u64::MAX), "ffffffffffffffff");
}

#[test]
fn registered_ids_are_distinct() {
    let mut r = StreamingState::new();
    let a = r.register_stream("/m/a.mp4".to_string(), 500).unwrap();
    let b = r.register_stream("/m/b.mp4".to_string(), 500).unwrap();
    let c = r.register_stream("/m/c.mp4".to_string(), 400).unwrap();
    assert_eq!(a, "1f4");
    assert_eq!(b, "1f5");
    assert_eq!(c, "1f6");
    assert_eq!(r.get_stream_path(&a).as_deref(), Some("/m/a.mp4"));
    assert_eq!(r.get_stream_path(&b).as_deref(), Some("/m/b.mp4"));
    assert_eq!(r.get_stream_path(&c).as_deref(), Some("/m/c.mp4"));
}

#[test]
fn removed_id_resolves_to_nothing() {
    let mut r = StreamingState::new();
    let a = r.register_stream("/m/a.mp4".to_string(), 7).unwrap();
    let b = r.register_stream("/m/b.mp4".to_string(), 9).unwrap();
    r.remove_stream(&a);
    assert_eq!(r.get_stream_path(&a), None);
    assert_eq!(r.get_stream_path(&b).as_deref(), Some("/m/b.mp4"));
    let c = r.register_stream("/m/c.mp4".to_string(), 7).unwrap();
    assert_ne!(c, a);
    r.remove_stream("unknown");
    r.clear_streams();
    assert_eq!(r.get_stream_path(&b), None);
}

#[test]
fn stamps_run_out_at_the_largest() {
    let mut r = StreamingState::default();
    assert!(r.register_stream("/x".to_string(), u64::MAX).is_some());
    assert!(r.register_stream("/y".to_string(), 3).is_none());
}

#[test]
fn unknown_stream_is_not_found() {
    let mut s = StreamingServer::new();
    s.start(Some("192.168.1.20".to_string()), 8765).ok().unwrap();
    assert!(s.get_stream_path("deadbeef").is_none());
    assert_eq!(StreamFailure::UnknownStream.status(), 404);
}

#[test]
fn start_records_address_and_port() {
    let mut s = StreamingServer::new();
    assert!(!s.is_running());
    assert_eq!(s.get_url(), None);
    let (ip, port) = s.start(Some("192.168.1.20".to_string()), 8765).ok().unwrap();
    assert_eq!((ip.as_str(), port), ("192.168.1.20", 8765));
    assert!(s.is_running());
    assert_eq!(s.get_url().as_deref(), Some("http://192.168.1.20:8765"));
    assert!(matches!(s.start(None, 9000), Err(StreamError::AlreadyRunning)));
    assert_eq!(s.get_url().as_deref(), Some("http://192.168.1.20:8765"));
}

#[test]
fn missing_address_falls_back_to_loopback() {
    let mut s = StreamingServer::default();
    let (ip, _) = s.start(None, 40000).ok().unwrap();
    assert_eq!(ip, "127.0.0.1");
    assert_eq!(s.get_url().as_deref(), Some("http://127.0.0.1:40000"));
}

#[test]
fn stream_urls() {
    let mut s = StreamingServer::new();
    assert_eq!(s.get_stream_url("ab", None), None);
    s.start(Some("10.0.0.5".to_string()), 8765).ok().unwrap();
    assert_eq!(s.get_stream_url("ab", None).as_deref(), Some("http://10.0.0.5:8765/stream/ab"));
    assert_eq!(
        s.get_stream_url("ab", Some("movie.mkv")).as_deref(),
        Some("http://10.0.0.5:8765/stream/ab/movie.mkv")
    );
}

#[test]
fn stop_clears_streams_and_address() {
    let mut s = StreamingServer::new();
    s.start(Some("10.0.0.5".to_string()), 8765).ok().unwrap();
    let id = s.register_stream("/m/a.mp4".to_string(), 1).ok().unwrap();
    assert_eq!(s.get_stream_path(&id).as_deref(), Some("/m/a.mp4"));
    s.stop();
    assert!(!s.is_running());
    assert_eq!(s.get_url(), None);
    assert_eq!(s.get_stream_path(&id), None);
    s.stop();
    assert!(!s.is_running());
}

#[test]
fn streams_need_a_running_server() {
    let mut s = StreamingServer::new();
    assert!(matches!(s.register_stream("/m/a.mp4".to_string(), 1), Err(StreamError::NotRunning)));
    assert!(matches!(s.create_stream("/m/a.mp4".to_string(), true, false, 1), Err(StreamError::NotRunning)));
}

#[test]
fn create_stream_composes_urls() {
    let mut s = StreamingServer::new();
    s.start(Some("10.0.0.5".to_string()), 8765).ok().unwrap();
    let info = s.create_stream("/media/films/movie.mkv".to_string(), true, false, 0x2a).ok().unwrap();
    assert_eq!(info.stream_id, "2a");
    assert_eq!(info.server_url, "http://10.0.0.5:8765");
    assert_eq!(info.stream_url, "http://10.0.0.5:8765/stream/2a/movie.mkv");
    let info = s.create_stream("C:\\Videos\\clip.mp4".to_string(), true, true, 0x2b).ok().unwrap();
    assert_eq!(info.stream_url, "http://10.0.0.5:8765/stream/2b/clip.mp4");
    assert_eq!(s.get_stream_path("2a").as_deref(), Some("/media/films/movie.mkv"));
    s.remove_stream("2a");
    assert_eq!(s.get_stream_path("2a"), None);
}

#[test]
fn create_stream_of_missing_file_fails() {
    let mut s = StreamingServer::new();
    s.start(Some("10.0.0.5".to_string()), 8765).ok().unwrap();
    match s.create_stream("/nope.mp4".to_string(), false, false, 1) {
        Err(StreamError::FileNotFound(p)) => assert_eq!(p, "/nope.mp4"),
        _ => panic!("expected FileNotFound"),
    }
}

#[test]
fn server_without_port_has_no_url() {
    let mut s = StreamingServer::new();
    s.start(Some("10.0.0.5".to_string()), 0).ok().unwrap();
    assert_eq!(s.get_url(), None);
    assert!(matches!(s.create_stream("/a.mp4".to_string(), true, false, 1), Err(StreamError::StartError(_))));
}

#[test]
fn id_exhaustion_is_an_io_error() {
    let mut s = StreamingServer::new();
    s.start(Some("10.0.0.5".to_string()), 8765).ok().unwrap();
    s.register_stream("/a".to_string(), u64::MAX).ok().unwrap();
    assert!(matches!(s.register_stream("/b".to_string(), 1), Err(StreamError::IoError(_))));
}

#[test]
fn url_file_names() {
    assert_eq!(file_name("/media/movie.mkv", false), "movie.mkv");
    assert_eq!(file_name("/media/dir/", false), "dir");
    assert_eq!(file_name("/", false), "video.mp4");
    assert_eq!(file_name("", false), "video.mp4");
    assert_eq!(file_name("plain.mp4", false), "plain.mp4");
    assert_eq!(file_name("/media/..", false), "video.mp4");
    assert_eq!(file_name("C:\\Videos\\movie.mkv", true), "movie.mkv");
    assert_eq!(file_name("C:\\Videos\\movie.mkv", false), "C:\\Videos\\movie.mkv");
    assert_eq!(file_name("D:/a\\b.mp4\\", true), "b.mp4");
}
