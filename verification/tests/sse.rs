use consensus::sse::{sse_collector, sse_end, sse_receive, SseCollector, SseStep};
use serde_json::Value;

fn json(text: &str) -> Value {
    serde_json::from_str(text).unwrap()
}

fn need_more(step: SseStep) -> SseCollector {
    match step {
        SseStep::NeedMore(c) => c,
        SseStep::Finished(r) => panic!("finished early: {:?}", r),
    }
}

#[test]
fn collects_data_lines_until_done() {
    let c = sse_collector();
    let step = sse_receive(c, b": comment\n\ndata: {\"a\":1}\r\n\nevent: message\ndata:{\"b\":2}\n\ndata: [DONE]\n\ndata: {\"c\":3}\n");
    match step {
        SseStep::Finished(Ok(chunks)) => assert_eq!(chunks, vec![json("{\"a\":1}"), json("{\"b\":2}")]),
        _ => panic!("expected the stream to finish"),
    }
}

#[test]
fn lines_split_across_pieces_are_joined() {
    let c = sse_collector();
    let c = need_more(sse_receive(c, b"data: {\"te"));
    let c = need_more(sse_receive(c, b"xt\": \"hi\"}\n"));
    let c = need_more(sse_receive(c, b"\n"));
    assert_eq!(sse_end(c), Ok(vec![json("{\"text\": \"hi\"}")]));
}

#[test]
fn stream_end_reads_a_last_unterminated_line() {
    let c = need_more(sse_receive(sse_collector(), b"data: 1\ndata: 2"));
    assert_eq!(sse_end(c), Ok(vec![json("1"), json("2")]));
    let c = need_more(sse_receive(sse_collector(), b"data: 1\n   "));
    assert_eq!(sse_end(c), Ok(vec![json("1")]));
}

#[test]
fn invalid_json_is_reported() {
    let step = sse_receive(sse_collector(), b"data: not json\n");
    match step {
        SseStep::Finished(Err(message)) => {
            assert!(message.starts_with("invalid JSON in SSE data: "));
            let expected = serde_json::from_str::<Value>("not json").unwrap_err().to_string();
            assert_eq!(message, format!("invalid JSON in SSE data: {expected}"));
        }
        _ => panic!("expected a parse failure"),
    }
}
