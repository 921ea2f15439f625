use consensus::shell::ToolError;
use std::time::Duration;

use consensus::shell::{format_output, truncate_output, ShellTool};

#[test]
fn truncate_output_short() {
    let output = b"hello world";
    assert_eq!(truncate_output(output, 1024), "hello world");
}

#[test]
fn truncate_output_over_limit() {
    let output = b"abcdefghij"; // 10 bytes
    let result = truncate_output(output, 5);
    assert!(result.starts_with("abcde"));
    assert!(result.contains("truncated"));
    assert!(result.contains("10 bytes total"));
}

#[test]
fn format_output_stdout_only() {
    let result = format_output(0, b"hello\n", b"", 51200);
    assert!(result.starts_with("exit code: 0"));
    assert!(result.contains("stdout:\nhello\n"));
    assert!(!result.contains("stderr:"));
}

#[test]
fn format_output_with_stderr() {
    let result = format_output(1, b"out\n", b"err\n", 51200);
    assert!(result.contains("exit code: 1"));
    assert!(result.contains("stdout:\nout\n"));
    assert!(result.contains("stderr:\nerr\n"));
}

#[test]
fn truncate_output_exact_text_when_cut() {
    assert_eq!(
        truncate_output(b"abcdefghij", 5),
        "abcde\n... (truncated, 10 bytes total)"
    );
    assert_eq!(truncate_output(b"abc", 3), "abc");
    assert_eq!(truncate_output(b"", 0), "");
}

#[test]
fn truncate_output_replaces_invalid_utf8() {
    assert_eq!(truncate_output(&[0x61, 0xff, 0x62], 10), "a\u{fffd}b");
}

#[test]
fn format_output_negative_exit_code_and_large_total() {
    let stdout = vec![b'x'; 1234];
    let result = format_output(-1, &stdout, b"", 2);
    assert_eq!(result, "exit code: -1\nstdout:\nxx\n... (truncated, 1234 bytes total)");
    assert!(format_output(i32::MIN, b"", b"", 1).starts_with("exit code: -2147483648\n"));
}

#[test]
fn shell_tool_keeps_its_configuration() {
    let tool = ShellTool::new("box".to_owned(), Duration::from_secs(30), 51200);
    assert_eq!(tool.container_name(), "box");
    assert_eq!(tool.timeout(), Duration::from_secs(30));
    assert_eq!(tool.max_output_bytes(), 51200);
}

#[test]
fn tool_errors_have_messages() {
    assert_eq!(ToolError::UnknownTool { name: "dig".into() }.message(), "unknown tool: dig");
    assert_eq!(ToolError::InvalidArguments { message: "no command".into() }.message(), "invalid arguments: no command");
    assert_eq!(ToolError::ExecutionFailed { message: "timeout".into() }.message(), "execution failed: timeout");
}

fn command_of(arguments: &serde_json::Value) -> Result<&str, ToolError> {
    consensus::shell::shell_command(arguments.get("command").and_then(serde_json::Value::as_str))
}

#[test]
fn missing_command_returns_invalid_arguments() {
    let arguments: serde_json::Value = serde_json::from_str("{}").unwrap();
    let result = command_of(&arguments);
    assert!(matches!(result, Err(ToolError::InvalidArguments { .. })));
}

#[test]
fn non_string_command_returns_invalid_arguments() {
    let arguments: serde_json::Value = serde_json::from_str("{\"command\": 123}").unwrap();
    let result = command_of(&arguments);
    assert!(matches!(result, Err(ToolError::InvalidArguments { .. })));
    let arguments: serde_json::Value = serde_json::from_str("{\"command\": \"ls\"}").unwrap();
    assert_eq!(command_of(&arguments), Ok("ls"));
}
