use inference_gateway::engine::LineBuffer;
use inference_gateway::sse::{drain_data_lines, drain_pieces, drain_sse_events};
use inference_gateway::worker::Relay;

#[test]
fn events_are_drained_when_complete() {
    let mut buffer = "data: {\"a\":1}\r\ndata: two\n\n: comment\n\ndata: [DONE]\n\ndata: par".to_string();
    assert_eq!(drain_sse_events(&mut buffer), vec!["{\"a\":1}\ntwo", "[DONE]"]);
    assert_eq!(buffer, "data: par");
    assert!(drain_sse_events(&mut buffer).is_empty());
    assert_eq!(buffer, "data: par");
}

#[test]
fn lines_are_drained_when_complete() {
    let mut buffer = "data: one\r\nevent: x\ndata:\ndata: [DONE]\ndata:two\ndata: th".to_string();
    assert_eq!(drain_data_lines(&mut buffer), vec!["one", "two"]);
    assert_eq!(buffer, "data: th");
}

#[test]
fn three_newlines_end_one_event() {
    let mut buffer = "a\n\n\nb".to_string();
    assert_eq!(drain_pieces(&mut buffer, "\n\n"), vec!["a"]);
    assert_eq!(buffer, "\nb");
}

#[test]
fn chunks_do_not_matter() {
    let stream = "data: one\n\ndata: two\ndata: more\n\nevent: x\n\ndata: three\n\nrest";
    let mut whole = stream.to_string();
    let expected = drain_sse_events(&mut whole);
    assert_eq!(expected, vec!["one", "two\nmore", "three"]);
    for cut in 0..=stream.len() {
        let mut buffer = stream[..cut].to_string();
        let mut events = drain_sse_events(&mut buffer);
        buffer.push_str(&stream[cut..]);
        events.extend(drain_sse_events(&mut buffer));
        assert_eq!(events, expected);
        assert_eq!(buffer, "rest");
        let mut lines = LineBuffer::new();
        let mut data = lines.push(stream[..cut].as_bytes());
        data.extend(lines.push(stream[cut..].as_bytes()));
        assert_eq!(data, vec!["one", "two", "more", "three"]);
    }
}

#[test]
fn faulty_bytes_are_replaced() {
    let mut lines = LineBuffer::new();
    assert_eq!(lines.push(b"data: a\xffb\n"), vec!["a\u{fffd}b"]);
    assert_eq!(lines.push("data: häß\n".as_bytes()), vec!["häß"]);
    let mut relay = Relay::new();
    assert_eq!(relay.push(b"data: \xe4\n\n"), vec!["\u{fffd}"]);
}
