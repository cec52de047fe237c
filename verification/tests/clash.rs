use kagerou::clash::{api_base, api_url, connection_path, on_frame, select_path, Frame, FrameStep, TrafficSample};

#[test]
fn the_base_url_loses_its_trailing_slashes() {
    assert_eq!(api_base("http://127.0.0.1:9090/"), "http://127.0.0.1:9090");
    assert_eq!(api_base("http://127.0.0.1:9090//"), "http://127.0.0.1:9090");
    assert_eq!(api_base("http://127.0.0.1:9090"), "http://127.0.0.1:9090");
    assert_eq!(api_url("http://127.0.0.1:9090", "/version"), "http://127.0.0.1:9090/version");
}

#[test]
fn names_in_paths_are_percent_encoded() {
    assert_eq!(select_path("proxy"), "/proxies/proxy");
    assert_eq!(select_path("my proxy/1"), "/proxies/my%20proxy%2F1");
    assert_eq!(connection_path("a-b_c"), "/connections/a%2Db%5Fc");
    assert_eq!(select_path("é"), "/proxies/%C3%A9");
}

#[test]
fn a_malformed_frame_is_skipped_and_a_closed_stream_reconnects() {
    let sample = TrafficSample { up: 1, down: 2 };
    assert!(matches!(on_frame(Frame::Text(Some(sample))), FrameStep::Forward(s) if s == sample));
    assert!(matches!(on_frame(Frame::Text(None)), FrameStep::Skip));
    assert!(matches!(on_frame(Frame::Other), FrameStep::Skip));
    assert!(matches!(on_frame(Frame::Close), FrameStep::Reconnect));
    assert!(matches!(on_frame(Frame::Failed), FrameStep::Reconnect));
    assert!(matches!(on_frame(Frame::Ended), FrameStep::Reconnect));
}
