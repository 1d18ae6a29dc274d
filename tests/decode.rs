use base64::Engine;
use mirror_bridge::event::Event;
use mirror_bridge::session::{decode_stream, Action, Session, Stage};
use mirror_bridge::wire::{FrameHeader, MediaType};

fn frame_bytes(tag: u8, payload: &[u8]) -> Vec<u8> {
    let mut v = vec![tag];
    v.extend_from_slice(&(payload.len() as u32).to_be_bytes());
    v.extend_from_slice(payload);
    v
}

fn unbase64(s: &str) -> Vec<u8> {
    base64::engine::general_purpose::STANDARD.decode(s).unwrap()
}

const END: &str = "Mirror stream error: failed to fill whole buffer";

#[test]
fn single_png_frame_then_close_gives_two_lines() {
    let events = decode_stream(&[0x01, 0x00, 0x00, 0x00, 0x03, 0x41, 0x42, 0x43]);
    assert_eq!(events.len(), 2);
    assert_eq!(
        events[0].to_line(),
        "{\"type\":\"frame\",\"mime\":\"image/png\",\"data\":\"QUJD\"}\n"
    );
    assert_eq!(
        events[1].to_line(),
        "{\"type\":\"error\",\"error\":\"Mirror stream error: failed to fill whole buffer\"}\n"
    );
}

#[test]
fn frame_payload_survives_the_text_encoding() {
    let payload: Vec<u8> = (0u8..=255).collect();
    for (tag, mime) in [(1u8, MediaType::Png), (2, MediaType::Jpeg), (3, MediaType::Webp)] {
        let events = decode_stream(&frame_bytes(tag, &payload));
        assert_eq!(events.len(), 2);
        match &events[0] {
            Event::Frame { mime: m, data } => {
                assert_eq!(*m, mime);
                assert_eq!(unbase64(data), payload);
            }
            other => panic!("expected a frame, got {:?}", other),
        }
    }
}

#[test]
fn media_type_names() {
    assert_eq!(MediaType::from_tag(1).name(), "image/png");
    assert_eq!(MediaType::from_tag(2).name(), "image/jpeg");
    assert_eq!(MediaType::from_tag(3).name(), "image/webp");
}

#[test]
fn unknown_tags_are_png() {
    for tag in [0u8, 4, 7, 128, 255] {
        assert_eq!(MediaType::from_tag(tag), MediaType::Png);
        let events = decode_stream(&frame_bytes(tag, b"xy"));
        assert_eq!(
            events[0].to_line(),
            "{\"type\":\"frame\",\"mime\":\"image/png\",\"data\":\"eHk=\"}\n"
        );
    }
}

#[test]
fn n_frames_then_close_before_next_header() {
    for tail in [&[][..], &[2u8][..], &[2u8, 0, 0, 0][..]] {
        let mut input = Vec::new();
        input.extend(frame_bytes(1, b"a"));
        input.extend(frame_bytes(2, b""));
        input.extend(frame_bytes(3, b"hello"));
        input.extend_from_slice(tail);
        let events = decode_stream(&input);
        assert_eq!(events.len(), 4);
        assert_eq!(events[0], Event::Frame { mime: MediaType::Png, data: "YQ==".to_string() });
        assert_eq!(events[1], Event::Frame { mime: MediaType::Jpeg, data: String::new() });
        assert_eq!(
            events[2],
            Event::Frame { mime: MediaType::Webp, data: "aGVsbG8=".to_string() }
        );
        assert_eq!(events[3], Event::Error { message: END.to_string() });
    }
}

#[test]
fn empty_stream_is_one_error() {
    let events = decode_stream(&[]);
    assert_eq!(events, vec![Event::Error { message: END.to_string() }]);
}

#[test]
fn close_mid_payload_gives_only_an_error() {
    let input = [1u8, 0, 0, 0, 10, 1, 2, 3, 4];
    let events = decode_stream(&input);
    assert_eq!(events, vec![Event::Error { message: END.to_string() }]);

    let mut two = frame_bytes(2, b"ok");
    two.extend_from_slice(&[3, 0, 0, 1, 0, 9, 9]);
    let events = decode_stream(&two);
    assert_eq!(events.len(), 2);
    assert_eq!(events[0], Event::Frame { mime: MediaType::Jpeg, data: "b2s=".to_string() });
    assert_eq!(events[1], Event::Error { message: END.to_string() });
}

fn round_trip(len: usize) {
    let payload: Vec<u8> = (0..len).map(|i| (i * 7 + 3) as u8).collect();
    let event = Event::frame(MediaType::Png, &payload);
    let data = match &event {
        Event::Frame { data, .. } => data.clone(),
        other => panic!("expected a frame, got {:?}", other),
    };
    assert_eq!(data.len(), (len + 2) / 3 * 4);
    let back = unbase64(&data);
    assert_eq!(back, payload);
    assert_eq!(base64::engine::general_purpose::STANDARD.encode(&back), data);
}

#[test]
fn text_encoding_round_trip_empty() {
    round_trip(0);
}

#[test]
fn text_encoding_round_trip_one_byte() {
    round_trip(1);
    assert_eq!(
        Event::frame(MediaType::Png, &[0xff]),
        Event::Frame { mime: MediaType::Png, data: "/w==".to_string() }
    );
}

#[test]
fn text_encoding_round_trip_large() {
    round_trip(1_000_000);
}

#[test]
fn large_frame_decodes_whole() {
    let payload: Vec<u8> = (0..1_000_000usize).map(|i| (i % 251) as u8).collect();
    let events = decode_stream(&frame_bytes(2, &payload));
    assert_eq!(events.len(), 2);
    match &events[0] {
        Event::Frame { mime, data } => {
            assert_eq!(*mime, MediaType::Jpeg);
            assert_eq!(unbase64(data), payload);
        }
        other => panic!("expected a frame, got {:?}", other),
    }
}

#[test]
fn bootstrap_failure_is_reported_then_connects() {
    let (mut session, action) = Session::new(None);
    assert_eq!(action, Action::PrepareTransport);
    let (event, next) = session.on_prepared(Err("no device found".to_string()));
    assert_eq!(event, Some(Event::Error { message: "no device found".to_string() }));
    assert_eq!(
        event.unwrap().to_line(),
        "{\"type\":\"error\",\"error\":\"no device found\"}\n"
    );
    assert_eq!(next, Action::Connect);
    assert_eq!(session.stage, Stage::Connecting);
    assert_eq!(session.on_connected(), Action::ReadExact(5));
}

#[test]
fn bootstrap_success_emits_nothing() {
    let (mut session, _) = Session::new(Some("android"));
    let (event, next) = session.on_prepared(Ok(()));
    assert_eq!(event, None);
    assert_eq!(next, Action::Connect);
}

#[test]
fn platform_hint_decides_preparation() {
    assert_eq!(Session::new(Some("android-emulator")).1, Action::PrepareTransport);
    assert_eq!(Session::new(Some("ios")).1, Action::Connect);
    assert_eq!(Session::new(Some("ios-sim")).1, Action::Connect);
    assert_eq!(Session::new(Some("andro")).1, Action::Connect);
    assert_eq!(Session::new(Some("Android")).1, Action::Connect);
    assert_eq!(Session::new(Some("")).1, Action::Connect);
}

#[test]
fn session_reads_header_then_payload() {
    let mut session = Session { stage: Stage::Header };
    let (event, next) = session.on_read(Ok(vec![3, 0, 0, 1, 2]));
    assert_eq!(event, None);
    assert_eq!(next, Action::ReadExact(258));
    assert_eq!(session.stage, Stage::Payload { tag: 3, len: 258 });
    let (event, next) = session.on_read(Ok(vec![0u8; 258]));
    assert!(matches!(event, Some(Event::Frame { mime: MediaType::Webp, .. })));
    assert_eq!(next, Action::ReadExact(5));
    assert_eq!(session.stage, Stage::Header);
}

#[test]
fn session_zero_length_payload() {
    let mut session = Session { stage: Stage::Header };
    let (_, next) = session.on_read(Ok(vec![2, 0, 0, 0, 0]));
    assert_eq!(next, Action::ReadExact(0));
    let (event, _) = session.on_read(Ok(Vec::new()));
    assert_eq!(event, Some(Event::Frame { mime: MediaType::Jpeg, data: String::new() }));
}

#[test]
fn session_read_failure_ends() {
    let mut session = Session { stage: Stage::Payload { tag: 1, len: 9 } };
    let (event, next) = session.on_read(Err("connection reset".to_string()));
    assert_eq!(
        event,
        Some(Event::Error { message: "Mirror stream error: connection reset".to_string() })
    );
    assert_eq!(next, Action::Stop);
    assert_eq!(session.stage, Stage::Ended);
}

#[test]
fn error_message_is_escaped() {
    let line = Event::error("bad \"quote\"\nand\\slash".to_string()).to_line();
    assert_eq!(line, "{\"type\":\"error\",\"error\":\"bad \\\"quote\\\"\\nand\\\\slash\"}\n");
    let line = Event::stream_error("x\ty").to_line();
    assert_eq!(line, "{\"type\":\"error\",\"error\":\"Mirror stream error: x\\ty\"}\n");
}

#[test]
fn header_parse() {
    assert_eq!(FrameHeader::parse(&[1, 0, 0, 0]), None);
    assert_eq!(
        FrameHeader::parse(&[2, 0x12, 0x34, 0x56, 0x78, 9]),
        Some(FrameHeader { tag: 2, len: 0x1234_5678 })
    );
    assert_eq!(
        FrameHeader::parse(&[9, 0xff, 0xff, 0xff, 0xff]),
        Some(FrameHeader { tag: 9, len: u32::MAX })
    );
    assert_eq!(FrameHeader { tag: 3, len: 0 }.media_type(), MediaType::Webp);
}
