//! Formatting of shell command results for the execution tool.
use std::time::Duration;

use vstd::prelude::*;

use crate::strings::{append_decimal, append_signed_decimal, decimal, signed_decimal, to_string};

verus! {

/// The text that lossy UTF-8 decoding makes of `bytes`: invalid sequences
/// become U+FFFD.
pub uninterp spec fn utf8_lossy(bytes: Seq<u8>) -> Seq<char>;

/// `String::from_utf8_lossy`: decode `bytes`, replacing invalid sequences.
#[verifier::external_body]
pub(crate) fn decode_lossy(bytes: &[u8]) -> (text: String)
    ensures
        text@ == utf8_lossy(bytes@),
{
    String::from_utf8_lossy(bytes).into_owned()
}

/// Configuration of the shell execution tool.
#[derive(Debug)]
pub struct ShellTool {
    container_name: String,
    timeout: Duration,
    max_output_bytes: usize,
}

impl ShellTool {
    pub closed spec fn spec_container_name(&self) -> Seq<char> {
        self.container_name@
    }

    pub closed spec fn spec_timeout(&self) -> Duration {
        self.timeout
    }

    pub closed spec fn spec_max_output_bytes(&self) -> usize {
        self.max_output_bytes
    }

    pub fn new(container_name: String, timeout: Duration, max_output_bytes: usize) -> (tool: Self)
        ensures
            tool.spec_container_name() == container_name@,
            tool.spec_timeout() == timeout,
            tool.spec_max_output_bytes() == max_output_bytes,
    {
        ShellTool { container_name, timeout, max_output_bytes }
    }

    /// The container the commands run in.
    pub fn container_name(&self) -> (name: &str)
        ensures
            name@ == self.spec_container_name(),
    {
        self.container_name.as_str()
    }

    /// How long a command may run.
    pub fn timeout(&self) -> (timeout: Duration)
        ensures
            timeout == self.spec_timeout(),
    {
        self.timeout
    }

    /// How many bytes of each output stream are kept.
    pub fn max_output_bytes(&self) -> (max: usize)
        ensures
            max == self.spec_max_output_bytes(),
    {
        self.max_output_bytes
    }
}

/// The kept text of one output stream: all of it when it fits, else its
/// first `max_bytes` bytes and a note of the total size.
pub open spec fn truncated_output(raw: Seq<u8>, max_bytes: nat) -> Seq<char> {
    if raw.len() <= max_bytes {
        utf8_lossy(raw)
    } else {
        utf8_lossy(raw.take(max_bytes as int)) + "\n... (truncated, "@ + decimal(raw.len())
            + " bytes total)"@
    }
}

/// The tool's report of a finished command.
pub open spec fn formatted_output(
    exit_code: int,
    stdout: Seq<u8>,
    stderr: Seq<u8>,
    max_bytes: nat,
) -> Seq<char> {
    "exit code: "@ + signed_decimal(exit_code) + "\nstdout:\n"@ + truncated_output(
        stdout,
        max_bytes,
    ) + if stderr.len() == 0 {
        Seq::empty()
    } else {
        "\nstderr:\n"@ + truncated_output(stderr, max_bytes)
    }
}

/// Keep at most `max_bytes` bytes of an output stream, noting the total size
/// when it is cut.
pub fn truncate_output(raw: &[u8], max_bytes: usize) -> (text: String)
    ensures
        text@ == truncated_output(raw@, max_bytes as nat),
{
    let total = raw.len();
    if total <= max_bytes {
        decode_lossy(raw)
    } else {
        let (head, _) = raw.split_at(max_bytes);
        assert(head@ =~= raw@.take(max_bytes as int));
        let mut text = decode_lossy(head);
        text.append("\n... (truncated, ");
        append_decimal(&mut text, total as u64);
        text.append(" bytes total)");
        text
    }
}

/// Report a finished command: exit code, stdout and, when not empty, stderr.
pub fn format_output(exit_code: i32, stdout: &[u8], stderr: &[u8], max_bytes: usize) -> (text:
    String)
    ensures
        text@ == formatted_output(exit_code as int, stdout@, stderr@, max_bytes as nat),
{
    let mut text = to_string("exit code: ");
    append_signed_decimal(&mut text, exit_code);
    text.append("\nstdout:\n");
    let out = truncate_output(stdout, max_bytes);
    text.append(out.as_str());
    if stderr.len() != 0 {
        text.append("\nstderr:\n");
        let err = truncate_output(stderr, max_bytes);
        text.append(err.as_str());
    }
    assert(text@ =~= formatted_output(exit_code as int, stdout@, stderr@, max_bytes as nat));
    text
}

/// Why a client-side tool call failed.
#[derive(Debug, PartialEq, Eq)]
pub enum ToolError {
    UnknownTool { name: String },
    InvalidArguments { message: String },
    ExecutionFailed { message: String },
}

pub open spec fn tool_error_text(e: ToolError) -> Seq<char> {
    match e {
        ToolError::UnknownTool { name } => "unknown tool: "@ + name@,
        ToolError::InvalidArguments { message } => "invalid arguments: "@ + message@,
        ToolError::ExecutionFailed { message } => "execution failed: "@ + message@,
    }
}

/// The shell command an `execute_shell` call asks for: its `command`
/// argument when that is a string, else an invalid-arguments error.
pub fn shell_command(command: Option<&str>) -> (found: Result<&str, ToolError>)
    ensures
        match command {
            Some(c) => found == Ok::<&str, ToolError>(c),
            None => found matches Err(ToolError::InvalidArguments { message })
                && message@ == "missing or non-string 'command' argument"@,
        },
{
    match command {
        Some(c) => Ok(c),
        None => Err(
            ToolError::InvalidArguments {
                message: to_string("missing or non-string 'command' argument"),
            },
        ),
    }
}

impl ToolError {
    /// The error's message.
    pub fn message(&self) -> (text: String)
        ensures
            text@ == tool_error_text(*self),
    {
        let (prefix, detail) = match self {
            ToolError::UnknownTool { name } => ("unknown tool: ", name.as_str()),
            ToolError::InvalidArguments { message } => ("invalid arguments: ", message.as_str()),
            ToolError::ExecutionFailed { message } => ("execution failed: ", message.as_str()),
        };
        let mut text = to_string(prefix);
        text.append(detail);
        text
    }
}

} // verus!
