//! One-line rendering of debug text for tool traces.
use vstd::prelude::*;

use crate::llm_turn::{LlmRoundTrace, LlmTurnTrace, ToolExecutionTrace};
use crate::strings::{append_decimal, decimal, to_string};

verus! {

/// Unicode `White_Space`, the property behind `char::is_whitespace`.
pub open spec fn is_white_space(c: char) -> bool {
    let u = c as u32;
    ||| 0x9 <= u <= 0xD
    ||| u == 0x20
    ||| u == 0x85
    ||| u == 0xA0
    ||| u == 0x1680
    ||| 0x2000 <= u <= 0x200A
    ||| u == 0x2028
    ||| u == 0x2029
    ||| u == 0x202F
    ||| u == 0x205F
    ||| u == 0x3000
}

fn white_space(c: char) -> (ws: bool)
    ensures
        ws == is_white_space(c),
{
    let u = c as u32;
    (0x9 <= u && u <= 0xD) || u == 0x20 || u == 0x85 || u == 0xA0 || u == 0x1680 || (0x2000 <= u
        && u <= 0x200A) || u == 0x2028 || u == 0x2029 || u == 0x202F || u == 0x205F || u == 0x3000
}

/// The words of `s` joined by single spaces: leading and trailing white
/// space dropped, inner runs of white space turned into one space.
pub open spec fn collapse_white_space(s: Seq<char>) -> Seq<char>
    decreases s.len(),
{
    if s.len() == 0 {
        Seq::empty()
    } else {
        let r = collapse_white_space(s.drop_last());
        let c = s.last();
        if is_white_space(c) {
            r
        } else if s.len() >= 2 && is_white_space(s[s.len() - 2]) && r.len() > 0 {
            r.push(' ').push(c)
        } else {
            r.push(c)
        }
    }
}

proof fn lemma_collapse_len(s: Seq<char>)
    ensures
        collapse_white_space(s).len() <= s.len(),
        s.len() > 0 && is_white_space(s.last()) ==> collapse_white_space(s).len() < s.len(),
    decreases s.len(),
{
    if s.len() > 0 {
        lemma_collapse_len(s.drop_last());
        if s.len() >= 2 {
            assert(s.drop_last().last() == s[s.len() - 2]);
        }
    }
}

/// Debug text on one line, cut to `max_chars` characters and marked with
/// `...` when cut.
pub open spec fn compact_text(text: Seq<char>, max_chars: nat) -> Seq<char> {
    let compact = collapse_white_space(text);
    if compact.len() <= max_chars {
        compact
    } else {
        compact.take(max_chars as int) + "..."@
    }
}

/// Put debug text on one line and cut it to `max_chars` characters.
pub fn compact_debug_text(text: &str, max_chars: usize) -> (compact: String)
    ensures
        compact@ == compact_text(text@, max_chars as nat),
{
    let n = text.unicode_len();
    let mut out = String::new();
    let mut out_len: usize = 0;
    let mut prev_ws = false;
    let mut i: usize = 0;
    proof {
        reveal_strlit(" ");
        assert(text@.take(0) =~= Seq::<char>::empty());
    }
    while i < n
        invariant
            n == text@.len(),
            i <= n,
            out@ == collapse_white_space(text@.take(i as int)),
            out_len == out@.len(),
            out_len <= i,
            i > 0 && is_white_space(text@[i - 1]) ==> out_len < i,
            prev_ws == (i > 0 && is_white_space(text@[i - 1])),
        decreases n - i,
    {
        let c = text.get_char(i);
        let ghost prefix = text@.take(i + 1);
        assert(prefix.drop_last() =~= text@.take(i as int));
        proof {
            lemma_collapse_len(prefix);
            reveal_strlit(" ");
            if i > 0 {
                assert(prefix[i - 1] == text@[i - 1]);
            }
        }
        assert(prefix.last() == c);
        if white_space(c) {
            prev_ws = true;
        } else {
            if prev_ws && out_len > 0 {
                out.append(" ");
                out_len += 1;
            }
            let piece = text.substring_char(i, i + 1);
            assert(piece@ =~= seq![c]);
            out.append(piece);
            out_len += 1;
            prev_ws = false;
            assert(out@ =~= collapse_white_space(prefix));
        }
        i += 1;
    }
    assert(text@.take(n as int) =~= text@);
    if out_len <= max_chars {
        return out;
    }
    let kept = out.as_str().substring_char(0, max_chars);
    let mut compact = to_string(kept);
    compact.append("...");
    assert(kept@ =~= out@.take(max_chars as int));
    compact
}

/// The most characters of arguments or errors a trace line shows.
pub const TRACE_DETAIL_CHARS: usize = 160;

/// The trace lines of one tool call.
pub open spec fn execution_lines(round: usize, e: ToolExecutionTrace) -> Seq<Seq<char>> {
    let tool = "[trace] round "@ + decimal(round as nat) + " tool "@ + e.function_name@ + " "@
        + compact_text(e.arguments_json@, TRACE_DETAIL_CHARS as nat);
    match e.dispatch_error {
        Some(error) => seq![
            tool,
            "[trace] round "@ + decimal(round as nat) + " error "@ + compact_text(
                error@,
                TRACE_DETAIL_CHARS as nat,
            ),
        ],
        None => seq![tool],
    }
}

/// The trace lines of the tool calls in `executions`.
pub open spec fn executions_lines(round: usize, executions: Seq<ToolExecutionTrace>) -> Seq<Seq<char>>
    decreases executions.len(),
{
    if executions.len() == 0 {
        Seq::empty()
    } else {
        executions_lines(round, executions.drop_last()) + execution_lines(round, executions.last())
    }
}

/// The trace lines of one round.
pub open spec fn round_lines(r: LlmRoundTrace) -> Seq<Seq<char>> {
    if r.tool_results@.len() == 0 {
        seq!["[trace] round "@ + decimal(r.round as nat) + " no tool calls"@]
    } else {
        executions_lines(r.round, r.tool_results@)
    }
}

/// The trace lines of the rounds.
pub open spec fn rounds_lines(rounds: Seq<LlmRoundTrace>) -> Seq<Seq<char>>
    decreases rounds.len(),
{
    if rounds.len() == 0 {
        Seq::empty()
    } else {
        rounds_lines(rounds.drop_last()) + round_lines(rounds.last())
    }
}

pub open spec fn line_views(lines: Seq<String>) -> Seq<Seq<char>> {
    lines.map_values(|l: String| l@)
}

fn round_prefix(round: usize, what: &str) -> (line: String)
    ensures
        line@ == "[trace] round "@ + decimal(round as nat) + what@,
{
    let mut line = to_string("[trace] round ");
    append_decimal(&mut line, round as u64);
    line.append(what);
    line
}

fn push_line(lines: &mut Vec<String>, line: String)
    ensures
        line_views(final(lines)@) == line_views(old(lines)@).push(line@),
{
    let ghost before = lines@;
    lines.push(line);
    assert(line_views(lines@) =~= line_views(before).push(line@));
}

/// One line per tool call of each round (and one more for a call that
/// failed to dispatch), or one line for a round without tool calls.
pub fn format_tool_trace(trace: &LlmTurnTrace) -> (lines: Vec<String>)
    ensures
        line_views(lines@) == rounds_lines(trace.rounds@),
{
    let mut lines: Vec<String> = Vec::new();
    let mut i: usize = 0;
    assert(line_views(lines@) =~= Seq::<Seq<char>>::empty());
    assert(trace.rounds@.take(0) =~= Seq::<LlmRoundTrace>::empty());
    while i < trace.rounds.len()
        invariant
            i <= trace.rounds@.len(),
            line_views(lines@) == rounds_lines(trace.rounds@.take(i as int)),
        decreases trace.rounds.len() - i,
    {
        let round = &trace.rounds[i];
        assert(trace.rounds@.take(i + 1).drop_last() =~= trace.rounds@.take(i as int));
        assert(trace.rounds@.take(i + 1).last() == trace.rounds@[i as int]);
        let ghost start = line_views(lines@);
        if round.tool_results.len() == 0 {
            let line = round_prefix(round.round, " no tool calls");
            push_line(&mut lines, line);
            assert(line_views(lines@) =~= start + round_lines(*round));
        } else {
            let mut j: usize = 0;
            assert(round.tool_results@.take(0) =~= Seq::<ToolExecutionTrace>::empty());
            assert(start + Seq::<Seq<char>>::empty() =~= start);
            while j < round.tool_results.len()
                invariant
                    j <= round.tool_results@.len(),
                    line_views(lines@) == start + executions_lines(
                        round.round,
                        round.tool_results@.take(j as int),
                    ),
                decreases round.tool_results.len() - j,
            {
                let execution = &round.tool_results[j];
                assert(round.tool_results@.take(j + 1).drop_last() =~= round.tool_results@.take(
                    j as int,
                ));
                assert(round.tool_results@.take(j + 1).last() == round.tool_results@[j as int]);
                let ghost mid = line_views(lines@);
                let mut line = round_prefix(round.round, " tool ");
                line.append(execution.function_name.as_str());
                line.append(" ");
                let detail = compact_debug_text(execution.arguments_json.as_str(), TRACE_DETAIL_CHARS);
                line.append(detail.as_str());
                push_line(&mut lines, line);
                if let Some(error) = &execution.dispatch_error {
                    let mut line = round_prefix(round.round, " error ");
                    let detail = compact_debug_text(error.as_str(), TRACE_DETAIL_CHARS);
                    line.append(detail.as_str());
                    push_line(&mut lines, line);
                }
                assert(line_views(lines@) =~= mid + execution_lines(round.round, *execution));
                j += 1;
            }
            assert(round.tool_results@.take(round.tool_results.len() as int) =~= round.tool_results@);
        }
        i += 1;
    }
    assert(trace.rounds@.take(trace.rounds.len() as int) =~= trace.rounds@);
    lines
}

} // verus!
