//! What the interactive console does with one line typed by the user:
//! answer a pending confirmation, run a slash command, hold back while a
//! submission is being recovered, or hand the text to the assistant.
use vstd::prelude::*;

use crate::sse::{text_end, text_start, trim_text, trimmed};
use crate::strings::{find_char_from, first_index_from, lemma_first_index_from, str_eq, strip_prefix, to_string};

verus! {

/// A question put to the user that the next line answers.
#[derive(Debug, Clone, Copy, PartialEq, Eq, Structural)]
pub enum Confirmation {
    Submit,
    ClearDrafts,
}

/// Progress of a submission that is being recovered.
#[derive(Debug, Clone, Copy, PartialEq, Eq, Structural)]
pub struct Recovery {
    pub confirmed: usize,
    pub total: usize,
}

/// What the console knows when a line arrives.
#[derive(Debug, Clone, Copy, PartialEq, Eq, Structural)]
pub struct InputContext {
    pub awaiting: Option<Confirmation>,
    pub recovery: Option<Recovery>,
    pub connected: bool,
    pub has_drafts: bool,
}

/// What the console does in answer to a line.
#[derive(Debug, PartialEq, Eq)]
pub enum InputAction {
    Nothing,
    Confirmed(Confirmation),
    Cancelled,
    RecoveryInProgress(Recovery),
    ShowOverview,
    ShowClaim(String),
    ClaimUsage,
    ShowDrafts,
    NoDraftsToSubmit,
    SubmitWhileDisconnected,
    AskSubmit,
    NoDraftsToClear,
    AskClear,
    Help,
    Quit,
    UnknownCommand(String),
    Disconnected,
    SendToAssistant(String),
}

/// An action with its text taken by value.
pub enum InputActionView {
    Nothing,
    Confirmed(Confirmation),
    Cancelled,
    RecoveryInProgress(Recovery),
    ShowOverview,
    ShowClaim(Seq<char>),
    ClaimUsage,
    ShowDrafts,
    NoDraftsToSubmit,
    SubmitWhileDisconnected,
    AskSubmit,
    NoDraftsToClear,
    AskClear,
    Help,
    Quit,
    UnknownCommand(Seq<char>),
    Disconnected,
    SendToAssistant(Seq<char>),
}

impl View for InputAction {
    type V = InputActionView;

    open spec fn view(&self) -> InputActionView {
        match self {
            InputAction::Nothing => InputActionView::Nothing,
            InputAction::Confirmed(c) => InputActionView::Confirmed(*c),
            InputAction::Cancelled => InputActionView::Cancelled,
            InputAction::RecoveryInProgress(r) => InputActionView::RecoveryInProgress(*r),
            InputAction::ShowOverview => InputActionView::ShowOverview,
            InputAction::ShowClaim(id) => InputActionView::ShowClaim(id@),
            InputAction::ClaimUsage => InputActionView::ClaimUsage,
            InputAction::ShowDrafts => InputActionView::ShowDrafts,
            InputAction::NoDraftsToSubmit => InputActionView::NoDraftsToSubmit,
            InputAction::SubmitWhileDisconnected => InputActionView::SubmitWhileDisconnected,
            InputAction::AskSubmit => InputActionView::AskSubmit,
            InputAction::NoDraftsToClear => InputActionView::NoDraftsToClear,
            InputAction::AskClear => InputActionView::AskClear,
            InputAction::Help => InputActionView::Help,
            InputAction::Quit => InputActionView::Quit,
            InputAction::UnknownCommand(name) => InputActionView::UnknownCommand(name@),
            InputAction::Disconnected => InputActionView::Disconnected,
            InputAction::SendToAssistant(text) => InputActionView::SendToAssistant(text@),
        }
    }
}

/// The console's answer to a line: the question left pending and the action.
#[derive(Debug, PartialEq, Eq)]
pub struct InputStep {
    pub awaiting: Option<Confirmation>,
    pub action: InputAction,
}

/// `c` with an ASCII capital turned into its small letter.
pub open spec fn ascii_lower(c: char) -> char {
    if 'A' <= c <= 'Z' {
        ((c as u32) + 32) as char
    } else {
        c
    }
}

/// `s` with its ASCII capitals turned into small letters.
pub open spec fn ascii_lowered(s: Seq<char>) -> Seq<char> {
    s.map_values(|c: char| ascii_lower(c))
}

/// Whether an answer accepts the question: "y" or "yes" in any ASCII case,
/// once surrounding white space is dropped.
pub open spec fn accepts(answer: Seq<char>) -> bool {
    let word = ascii_lowered(trimmed(answer));
    word == seq!['y'] || word == seq!['y', 'e', 's']
}

/// Whether `s` starts with `prefix`.
pub open spec fn starts_with(s: Seq<char>, prefix: Seq<char>) -> bool {
    prefix.len() <= s.len() && s.take(prefix.len() as int) == prefix
}

/// The lines that still run while a submission is being recovered.
pub open spec fn allowed_in_recovery(line: Seq<char>) -> bool {
    ||| line == "/overview"@
    ||| line == "/drafts"@
    ||| line == "/help"@
    ||| line == "/quit"@
    ||| starts_with(line, "/claim "@)
}

/// The name of a command: the text before its first space.
pub open spec fn command_name(command: Seq<char>) -> Seq<char> {
    command.take(first_index_from(command, ' ', 0, command.len() as int))
}

/// The argument of a command: what follows its first space, trimmed.
pub open spec fn command_argument(command: Seq<char>) -> Seq<char> {
    let i = first_index_from(command, ' ', 0, command.len() as int);
    if i < command.len() {
        trimmed(command.skip(i + 1))
    } else {
        Seq::empty()
    }
}

/// What a command (the line after its slash) does.
pub open spec fn command_step(ctx: InputContext, command: Seq<char>) -> (
    Option<Confirmation>,
    InputActionView,
) {
    let name = command_name(command);
    let arg = command_argument(command);
    if name == "overview"@ {
        (None, InputActionView::ShowOverview)
    } else if name == "claim"@ {
        if arg.len() == 0 {
            (None, InputActionView::ClaimUsage)
        } else {
            (None, InputActionView::ShowClaim(arg))
        }
    } else if name == "drafts"@ {
        (None, InputActionView::ShowDrafts)
    } else if name == "submit"@ {
        if !ctx.has_drafts {
            (None, InputActionView::NoDraftsToSubmit)
        } else if !ctx.connected {
            (None, InputActionView::SubmitWhileDisconnected)
        } else {
            (Some(Confirmation::Submit), InputActionView::AskSubmit)
        }
    } else if name == "clear"@ {
        if !ctx.has_drafts {
            (None, InputActionView::NoDraftsToClear)
        } else {
            (Some(Confirmation::ClearDrafts), InputActionView::AskClear)
        }
    } else if name == "help"@ {
        (None, InputActionView::Help)
    } else if name == "quit"@ {
        (None, InputActionView::Quit)
    } else {
        (None, InputActionView::UnknownCommand(name))
    }
}

/// What the console does with the typed text `raw`: the question left
/// pending and the action.
pub open spec fn input_step(ctx: InputContext, raw: Seq<char>) -> (
    Option<Confirmation>,
    InputActionView,
) {
    let line = trimmed(raw);
    if line.len() == 0 {
        (ctx.awaiting, InputActionView::Nothing)
    } else if ctx.awaiting is Some {
        if accepts(line) {
            (None, InputActionView::Confirmed(ctx.awaiting->0))
        } else {
            (None, InputActionView::Cancelled)
        }
    } else if ctx.recovery is Some && !allowed_in_recovery(line) {
        (None, InputActionView::RecoveryInProgress(ctx.recovery->0))
    } else if starts_with(line, "/"@) {
        command_step(ctx, line.skip(1))
    } else if !ctx.connected {
        (None, InputActionView::Disconnected)
    } else {
        (None, InputActionView::SendToAssistant(line))
    }
}

/// Unless a question is pending, `/quit` quits: while a submission is
/// recovered too, and whatever the connection.
pub proof fn lemma_quit_is_always_available(ctx: InputContext)
    requires
        ctx.awaiting is None,
    ensures
        input_step(ctx, "/quit"@) == (None::<Confirmation>, InputActionView::Quit),
{
    reveal_strlit("/quit");
    reveal_strlit("/");
    reveal_strlit("quit");
    reveal_strlit("overview");
    reveal_strlit("claim");
    reveal_strlit("drafts");
    reveal_strlit("submit");
    reveal_strlit("clear");
    reveal_strlit("help");
    let line = "/quit"@;
    assert(text_start(line, 4) == 4);
    assert(text_start(line, 3) == 3);
    assert(text_start(line, 0) == 0);
    assert(text_end(line, 5) == 5);
    assert(trimmed(line) =~= line);
    assert(allowed_in_recovery(line));
    assert(line.take(1) =~= "/"@);
    assert(starts_with(line, "/"@));
    let command = line.skip(1);
    assert(command =~= "quit"@);
    assert(command[3] == 't' && command[2] == 'i' && command[1] == 'u' && command[0] == 'q');
    assert(first_index_from(command, ' ', 4, 4) == 4);
    assert(first_index_from(command, ' ', 3, 4) == 4);
    assert(first_index_from(command, ' ', 2, 4) == 4);
    assert(first_index_from(command, ' ', 1, 4) == 4);
    assert(first_index_from(command, ' ', 0, 4) == 4);
    assert(command_name(command) =~= "quit"@);
    assert(command_name(command) != "overview"@);
    assert(command_name(command) != "claim"@);
    assert(command_name(command) != "drafts"@);
    assert(command_name(command) != "submit"@);
    assert(command_name(command) != "clear"@);
    assert(command_name(command) != "help"@);
}

fn is_ascii_capital(c: char) -> (b: bool)
    ensures
        b == ('A' <= c <= 'Z'),
{
    'A' <= c && c <= 'Z'
}

/// Whether `answer` accepts the pending question.
pub fn answer_accepts(answer: &str) -> (yes: bool)
    ensures
        yes == accepts(answer@),
{
    let word = trim_text(answer);
    let n = word.unicode_len();
    let ghost lowered = ascii_lowered(word@);
    if n != 1 && n != 3 {
        proof {
            assert(lowered.len() == n);
            assert(seq!['y'].len() == 1);
            assert(seq!['y', 'e', 's'].len() == 3);
        }
        return false;
    }
    let mut i: usize = 0;
    while i < n
        invariant
            n == word@.len(),
            word@ == trimmed(answer@),
            n == 1 || n == 3,
            i <= n,
            lowered == ascii_lowered(word@),
            forall|j: int|
                0 <= j < i ==> #[trigger] lowered[j] == (if n == 1 {
                    seq!['y'][j]
                } else {
                    seq!['y', 'e', 's'][j]
                }),
        decreases n - i,
    {
        let c = word.get_char(i);
        let low = if is_ascii_capital(c) {
            proof {
                assert(('A' as u32) <= (c as u32) <= ('Z' as u32));
            }
            ((c as u32) + 32) as u8 as char
        } else {
            c
        };
        let expected = if n == 1 {
            'y'
        } else if i == 0 {
            'y'
        } else if i == 1 {
            'e'
        } else {
            's'
        };
        assert(low == ascii_lower(c)) by {
            if 'A' <= c <= 'Z' {
                assert((((c as u32) + 32) as u8 as char) == (((c as u32) + 32) as char));
            }
        }
        if low != expected {
            proof {
                assert(lowered[i as int] == low);
                assert(lowered.len() == n);
                if n == 1 {
                    assert(lowered != seq!['y']) by {
                        assert(seq!['y'][i as int] == expected);
                    }
                    assert(seq!['y', 'e', 's'].len() == 3);
                    assert(lowered != seq!['y', 'e', 's']);
                } else {
                    assert(lowered != seq!['y', 'e', 's']) by {
                        assert(seq!['y', 'e', 's'][i as int] == expected);
                    }
                    assert(seq!['y'].len() == 1);
                    assert(lowered != seq!['y']);
                }
            }
            return false;
        }
        proof {
            assert(lowered[i as int] == low);
        }
        i += 1;
    }
    proof {
        if n == 1 {
            assert(lowered =~= seq!['y']);
        } else {
            assert(lowered =~= seq!['y', 'e', 's']);
        }
    }
    true
}

/// Whether `line` still runs while a submission is being recovered.
pub fn runs_in_recovery(line: &str) -> (allowed: bool)
    ensures
        allowed == allowed_in_recovery(line@),
{
    if str_eq(line, "/overview") || str_eq(line, "/drafts") || str_eq(line, "/help") || str_eq(
        line,
        "/quit",
    ) {
        return true;
    }
    strip_prefix(line, "/claim ").is_some()
}

/// What a command (the line after its slash) does.
pub fn decide_command(ctx: &InputContext, command: &str) -> (step: InputStep)
    ensures
        (step.awaiting, step.action@) == command_step(*ctx, command@),
{
    let n = command.unicode_len();
    let i = find_char_from(command, ' ', 0, n);
    proof {
        lemma_first_index_from(command@, ' ', 0, n as int);
    }
    let name = command.substring_char(0, i);
    assert(name@ =~= command_name(command@));
    let arg: &str = if i < n {
        let rest = command.substring_char(i + 1, n);
        assert(rest@ =~= command@.skip(i + 1));
        trim_text(rest)
    } else {
        proof {
            reveal_strlit("");
        }
        ""
    };
    assert(arg@ =~= command_argument(command@));
    let action = if str_eq(name, "overview") {
        InputAction::ShowOverview
    } else if str_eq(name, "claim") {
        if arg.unicode_len() == 0 {
            InputAction::ClaimUsage
        } else {
            InputAction::ShowClaim(to_string(arg))
        }
    } else if str_eq(name, "drafts") {
        InputAction::ShowDrafts
    } else if str_eq(name, "submit") {
        if !ctx.has_drafts {
            InputAction::NoDraftsToSubmit
        } else if !ctx.connected {
            InputAction::SubmitWhileDisconnected
        } else {
            return InputStep { awaiting: Some(Confirmation::Submit), action: InputAction::AskSubmit };
        }
    } else if str_eq(name, "clear") {
        if !ctx.has_drafts {
            InputAction::NoDraftsToClear
        } else {
            return InputStep {
                awaiting: Some(Confirmation::ClearDrafts),
                action: InputAction::AskClear,
            };
        }
    } else if str_eq(name, "help") {
        InputAction::Help
    } else if str_eq(name, "quit") {
        InputAction::Quit
    } else {
        InputAction::UnknownCommand(to_string(name))
    };
    InputStep { awaiting: None, action }
}

/// What the console does with one typed line.
pub fn decide_input(ctx: &InputContext, raw: &str) -> (step: InputStep)
    ensures
        (step.awaiting, step.action@) == input_step(*ctx, raw@),
{
    let line = trim_text(raw);
    if line.unicode_len() == 0 {
        return InputStep { awaiting: ctx.awaiting, action: InputAction::Nothing };
    }
    match ctx.awaiting {
        Some(question) => {
            let action = if answer_accepts(line) {
                InputAction::Confirmed(question)
            } else {
                InputAction::Cancelled
            };
            return InputStep { awaiting: None, action };
        },
        None => {},
    }
    match ctx.recovery {
        Some(progress) => {
            if !runs_in_recovery(line) {
                return InputStep {
                    awaiting: None,
                    action: InputAction::RecoveryInProgress(progress),
                };
            }
        },
        None => {},
    }
    match strip_prefix(line, "/") {
        Some(command) => {
            proof {
                reveal_strlit("/");
            }
            return decide_command(ctx, command);
        },
        None => {},
    }
    if !ctx.connected {
        return InputStep { awaiting: None, action: InputAction::Disconnected };
    }
    InputStep { awaiting: None, action: InputAction::SendToAssistant(to_string(line)) }
}

} // verus!
