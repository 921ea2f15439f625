use consensus::response::{assemble, ChunkChoice, ChunkDelta, StreamChunk, ToolCallDelta};
use consensus::stream_json::{stream_chunk_of, stream_chunks_of};

fn json(text: &str) -> serde_json::Value {
    serde_json::from_str(text).unwrap()
}

#[test]
fn a_streamed_chunk_is_read_field_by_field() {
    let chunk = stream_chunk_of(&json(
        r#"{"choices":[{"delta":{"role":"assistant","content":"Hi","tool_calls":[{"index":1,"id":"call_1","type":"function","function":{"name":"overview","arguments":"{}"}}]},"finish_reason":null}]}"#,
    ));
    assert_eq!(
        chunk,
        StreamChunk {
            choices: Some(vec![ChunkChoice {
                delta: Some(ChunkDelta {
                    role: Some("assistant".into()),
                    content: Some("Hi".into()),
                    tool_calls: vec![ToolCallDelta {
                        index: Some(1),
                        id: Some("call_1".into()),
                        call_type: Some("function".into()),
                        function_name: Some("overview".into()),
                        arguments: Some("{}".into()),
                    }],
                }),
                finish_reason: None,
            }]),
        }
    );
}

#[test]
fn missing_pieces_read_as_absent() {
    assert_eq!(stream_chunk_of(&json(r#"{"id":"x"}"#)), StreamChunk { choices: None });
    assert_eq!(stream_chunk_of(&json(r#"{"choices":"no"}"#)), StreamChunk { choices: None });
    let chunk = stream_chunk_of(&json(r#"{"choices":[{"finish_reason":"stop"},{"delta":{"tool_calls":[{"function":{}}]}}]}"#));
    assert_eq!(
        chunk,
        StreamChunk {
            choices: Some(vec![
                ChunkChoice { delta: None, finish_reason: Some("stop".into()) },
                ChunkChoice {
                    delta: Some(ChunkDelta {
                        role: None,
                        content: None,
                        tool_calls: vec![ToolCallDelta {
                            index: Some(0),
                            id: None,
                            call_type: None,
                            function_name: None,
                            arguments: None,
                        }],
                    }),
                    finish_reason: None,
                },
            ]),
        }
    );
}

#[test]
fn streamed_chunks_assemble_into_a_message() {
    let values = vec![
        json(r#"{"choices":[{"delta":{"role":"assistant","content":"Hel"}}]}"#),
        json(r#"{"choices":[{"delta":{"content":"lo"}}]}"#),
        json(r#"{"choices":[{"delta":{},"finish_reason":"stop"}]}"#),
    ];
    let chunks = stream_chunks_of(&values);
    assert_eq!(chunks.len(), 3);
    let message = assemble(&chunks).unwrap();
    assert_eq!(message.content, Some("Hello".into()));
    assert!(message.tool_calls.is_empty());
}
