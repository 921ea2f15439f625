//! Collecting the `data:` payloads of a server-sent event stream as JSON
//! values. The host reads the stream and hands each piece of it to the
//! collector, which says whether it needs more or is finished.
use vstd::prelude::*;

use serde_json::Value;

use crate::shell::{decode_lossy, utf8_lossy};
use crate::strings::{find_char_from, first_index_from, lemma_first_index_from, str_eq, to_string};
use crate::trace_text::is_white_space;

verus! {

// ---------------------------------------------------------------------------
// The outside parser
// ---------------------------------------------------------------------------

/// `serde_json::from_str::<Value>`: the JSON value that `text` holds, or
/// the parser's message when it holds none.
pub uninterp spec fn json_from_text(text: Seq<char>) -> Result<Value, Seq<char>>;

/// `serde_json::from_str::<Value>`: parse `text` as one JSON value; on
/// failure, the parser's message.
#[verifier::external_body]
pub(crate) fn parse_json_text(text: &str) -> (parsed: Result<Value, String>)
    ensures
        match json_from_text(text@) {
            Ok(v) => parsed matches Ok(p) && p == v,
            Err(m) => parsed matches Err(e) && e@ == m,
        },
{
    serde_json::from_str::<Value>(text).map_err(|error| error.to_string())
}

// ---------------------------------------------------------------------------
// Mathematical model
// ---------------------------------------------------------------------------

/// The complete lines of `s` from `from` on, each without its line feed.
pub open spec fn lines_from(s: Seq<char>, from: int) -> Seq<Seq<char>>
    decreases s.len() - from,
{
    if from < 0 || from >= s.len() {
        Seq::empty()
    } else {
        let end = first_index_from(s, '\n', from, s.len() as int);
        if end >= s.len() || end < from {
            Seq::empty()
        } else {
            seq![s.subrange(from, end)] + lines_from(s, end + 1)
        }
    }
}

/// What follows the last line feed of `s` at or after `from`.
pub open spec fn rest_from(s: Seq<char>, from: int) -> Seq<char>
    decreases s.len() - from,
{
    if from < 0 || from >= s.len() {
        Seq::empty()
    } else {
        let end = first_index_from(s, '\n', from, s.len() as int);
        if end >= s.len() || end < from {
            s.subrange(from, s.len() as int)
        } else {
            rest_from(s, end + 1)
        }
    }
}

/// The end of `s` once trailing carriage returns are dropped.
pub open spec fn cr_end(s: Seq<char>, j: int) -> int
    decreases j,
{
    if j <= 0 {
        0
    } else if s[j - 1] == '\r' {
        cr_end(s, j - 1)
    } else {
        j
    }
}

/// The first index at or after `i` that is not white space.
pub open spec fn text_start(s: Seq<char>, i: int) -> int
    decreases s.len() - i,
{
    if i < 0 || i >= s.len() {
        s.len() as int
    } else if is_white_space(s[i]) {
        text_start(s, i + 1)
    } else {
        i
    }
}

/// The end of `s` up to `j` once trailing white space is dropped.
pub open spec fn text_end(s: Seq<char>, j: int) -> int
    decreases j,
{
    if j <= 0 {
        0
    } else if is_white_space(s[j - 1]) {
        text_end(s, j - 1)
    } else {
        j
    }
}

/// `s` without leading and trailing white space.
pub open spec fn trimmed(s: Seq<char>) -> Seq<char> {
    let a = text_start(s, 0);
    if a >= s.len() {
        Seq::empty()
    } else {
        s.subrange(a, text_end(s, s.len() as int))
    }
}

/// What one line of the stream says.
pub enum LineKind {
    /// Nothing to keep: empty, a comment, or not a `data:` line.
    Skip,
    /// The end of the stream.
    Done,
    /// A data payload.
    Data(Seq<char>),
}

pub open spec fn has_prefix(s: Seq<char>, p: Seq<char>) -> bool {
    p.len() <= s.len() && s.take(p.len() as int) == p
}

/// What the line `raw` says once its trailing carriage returns are
/// dropped: a `data: ` or `data:` line carries its trimmed payload, and the
/// payload `[DONE]` ends the stream.
pub open spec fn line_kind(raw: Seq<char>) -> LineKind {
    let line = raw.take(cr_end(raw, raw.len() as int));
    if line.len() == 0 || line[0] == ':' {
        LineKind::Skip
    } else {
        let payload = if has_prefix(line, "data: "@) {
            Some(trimmed(line.skip(6)))
        } else if has_prefix(line, "data:"@) {
            Some(trimmed(line.skip(5)))
        } else {
            None
        };
        match payload {
            None => LineKind::Skip,
            Some(data) => if data == "[DONE]"@ {
                LineKind::Done
            } else {
                LineKind::Data(data)
            },
        }
    }
}

/// Where collecting stands after some lines.
pub enum Progress {
    Running(Seq<Value>),
    Stopped(Result<Seq<Value>, Seq<char>>),
}

/// Collect the lines' payloads after `chunks`: stop at the end marker, or
/// at the first payload that is not JSON.
pub open spec fn run(lines: Seq<Seq<char>>, chunks: Seq<Value>) -> Progress
    decreases lines.len(),
{
    if lines.len() == 0 {
        Progress::Running(chunks)
    } else {
        match line_kind(lines[0]) {
            LineKind::Skip => run(lines.drop_first(), chunks),
            LineKind::Done => Progress::Stopped(Ok(chunks)),
            LineKind::Data(data) => match json_from_text(data) {
                Ok(v) => run(lines.drop_first(), chunks.push(v)),
                Err(m) => Progress::Stopped(Err("invalid JSON in SSE data: "@ + m)),
            },
        }
    }
}

// ---------------------------------------------------------------------------
// The collector
// ---------------------------------------------------------------------------

/// The payloads collected so far and the start of a line not yet complete.
pub struct SseCollector {
    buffer: String,
    chunks: Vec<Value>,
}

impl SseCollector {
    pub closed spec fn pending(&self) -> Seq<char> {
        self.buffer@
    }

    pub closed spec fn collected(&self) -> Seq<Value> {
        self.chunks@
    }
}

/// What the collector says after a piece of the stream.
pub enum SseStep {
    /// Hand it the next piece, or tell it the stream ended.
    NeedMore(SseCollector),
    /// The payloads, or why the stream could not be read.
    Finished(Result<Vec<Value>, String>),
}

pub open spec fn finished_as(result: Result<Vec<Value>, String>, expected: Result<Seq<Value>, Seq<char>>) -> bool {
    match expected {
        Ok(cs) => result matches Ok(v) && v@ == cs,
        Err(m) => result matches Err(e) && e@ == m,
    }
}

/// A collector that has seen nothing.
pub fn sse_collector() -> (c: SseCollector)
    ensures
        c.pending() == Seq::<char>::empty(),
        c.collected() == Seq::<Value>::empty(),
{
    SseCollector { buffer: String::new(), chunks: Vec::new() }
}

pub(crate) fn trim_text(s: &str) -> (t: &str)
    ensures
        t@ == trimmed(s@),
{
    let n = s.unicode_len();
    let mut a: usize = 0;
    while a < n && is_white_space_char(s.get_char(a))
        invariant
            a <= n,
            n == s@.len(),
            text_start(s@, 0) == text_start(s@, a as int),
        decreases n - a,
    {
        a += 1;
    }
    if a >= n {
        proof {
            reveal_strlit("");
        }
        return "";
    }
    let mut b: usize = n;
    while b > 0 && is_white_space_char(s.get_char(b - 1))
        invariant
            b <= n,
            n == s@.len(),
            text_end(s@, n as int) == text_end(s@, b as int),
        decreases b,
    {
        b -= 1;
    }
    proof {
        lemma_text_bounds(s@, a as int);
    }
    s.substring_char(a, b)
}

proof fn lemma_text_bounds(s: Seq<char>, a: int)
    requires
        0 <= a < s.len(),
        text_start(s, 0) == a,
        !is_white_space(s[a]),
    ensures
        a < text_end(s, s.len() as int) <= s.len(),
{
    lemma_text_end(s, s.len() as int, a);
}

proof fn lemma_text_end(s: Seq<char>, j: int, a: int)
    requires
        0 <= a < j <= s.len(),
        !is_white_space(s[a]),
    ensures
        a < text_end(s, j) <= j,
    decreases j,
{
    if is_white_space(s[j - 1]) {
        lemma_text_end(s, j - 1, a);
    }
}

fn is_white_space_char(c: char) -> (ws: bool)
    ensures
        ws == is_white_space(c),
{
    let u = c as u32;
    (0x9 <= u && u <= 0xD) || u == 0x20 || u == 0x85 || u == 0xA0 || u == 0x1680 || (0x2000 <= u
        && u <= 0x200A) || u == 0x2028 || u == 0x2029 || u == 0x202F || u == 0x205F || u == 0x3000
}

/// The payload a line carries, or whether it ends the stream.
enum LineAction<'a> {
    Skip,
    Done,
    Data(&'a str),
}

fn classify(raw: &str) -> (action: LineAction)
    ensures
        match line_kind(raw@) {
            LineKind::Skip => action is Skip,
            LineKind::Done => action is Done,
            LineKind::Data(d) => action matches LineAction::Data(t) && t@ == d,
        },
{
    let n = raw.unicode_len();
    let mut end: usize = n;
    while end > 0 && raw.get_char(end - 1) == '\r'
        invariant
            end <= n,
            n == raw@.len(),
            cr_end(raw@, n as int) == cr_end(raw@, end as int),
        decreases end,
    {
        end -= 1;
    }
    let line = raw.substring_char(0, end);
    assert(line@ =~= raw@.take(cr_end(raw@, raw@.len() as int)));
    let m = line.unicode_len();
    if m == 0 || line.get_char(0) == ':' {
        return LineAction::Skip;
    }
    proof {
        reveal_strlit("data: ");
        reveal_strlit("data:");
        reveal_strlit("[DONE]");
    }
    let mut spaced = false;
    if m >= 6 {
        let head = line.substring_char(0, 6);
        assert(head@ =~= line@.take(6));
        spaced = str_eq(head, "data: ");
    }
    let mut plain = false;
    if m >= 5 {
        let head = line.substring_char(0, 5);
        assert(head@ =~= line@.take(5));
        plain = str_eq(head, "data:");
    }
    assert(spaced == has_prefix(line@, "data: "@));
    assert(plain == has_prefix(line@, "data:"@));
    let payload = if spaced {
        let rest = line.substring_char(6, m);
        assert(rest@ =~= line@.skip(6));
        Some(trim_text(rest))
    } else if plain {
        let rest = line.substring_char(5, m);
        assert(rest@ =~= line@.skip(5));
        Some(trim_text(rest))
    } else {
        None
    };
    match payload {
        None => LineAction::Skip,
        Some(data) => {
            if str_eq(data, "[DONE]") {
                LineAction::Done
            } else {
                LineAction::Data(data)
            }
        },
    }
}

fn failure(message: String) -> (text: String)
    ensures
        text@ == "invalid JSON in SSE data: "@ + message@,
{
    let mut text = to_string("invalid JSON in SSE data: ");
    text.append(message.as_str());
    text
}

/// Hand the collector the next piece of the stream: the complete lines are
/// read, and what follows the last line feed waits for the next piece.
pub fn sse_receive(collector: SseCollector, bytes: &[u8]) -> (step: SseStep)
    ensures
        ({
            let text = collector.pending() + utf8_lossy(bytes@);
            match run(lines_from(text, 0), collector.collected()) {
                Progress::Running(cs) => step matches SseStep::NeedMore(c) && c.collected() == cs
                    && c.pending() == rest_from(text, 0),
                Progress::Stopped(r) => step matches SseStep::Finished(res) && finished_as(res, r),
            }
        }),
{
    let ghost pending0 = collector.pending();
    let ghost chunks0 = collector.collected();
    let decoded = decode_lossy(bytes);
    let mut text = collector.buffer;
    text.append(decoded.as_str());
    let ghost full = text@;
    assert(full =~= pending0 + utf8_lossy(bytes@));
    let ghost start = chunks0;
    let mut chunks = collector.chunks;
    let n = text.as_str().unicode_len();
    let mut p: usize = 0;
    let mut end: usize = if p < n {
        find_char_from(text.as_str(), '\n', p, n)
    } else {
        n
    };
    proof {
        if p < n {
            lemma_first_index_from(full, '\n', 0, n as int);
        }
    }
    while end < n
        invariant
            full == text@,
            full == pending0 + utf8_lossy(bytes@),
            start == chunks0,
            pending0 == collector.pending(),
            chunks0 == collector.collected(),
            n == full.len(),
            p <= end <= n,
            p < n ==> end == first_index_from(full, '\n', p as int, n as int),
            p >= n ==> end == n,
            run(lines_from(full, 0), start) == run(lines_from(full, p as int), chunks@),
            rest_from(full, 0) == rest_from(full, p as int),
        decreases n - p,
    {
        proof {
            lemma_first_index_from(full, '\n', p as int, n as int);
        }
        let raw = text.as_str().substring_char(p, end);
        let ghost line = full.subrange(p as int, end as int);
        assert(raw@ =~= line);
        let ghost rest_lines = lines_from(full, end + 1);
        assert(lines_from(full, p as int) == seq![line] + rest_lines);
        assert((seq![line] + rest_lines)[0] == line);
        assert((seq![line] + rest_lines).drop_first() =~= rest_lines);
        match classify(raw) {
            LineAction::Skip => {},
            LineAction::Done => {
                assert(run(seq![line] + rest_lines, chunks@) == Progress::Stopped(
                    Ok::<Seq<Value>, Seq<char>>(chunks@),
                ));
                return SseStep::Finished(Ok(chunks));
            },
            LineAction::Data(data) => {
                match parse_json_text(data) {
                    Ok(value) => {
                        chunks.push(value);
                    },
                    Err(message) => {
                        let text = failure(message);
                        assert(run(seq![line] + rest_lines, chunks@) == Progress::Stopped(
                            Err::<Seq<Value>, Seq<char>>(text@),
                        ));
                        return SseStep::Finished(Err(text));
                    },
                }
            },
        }
        p = end + 1;
        end = if p < n {
            find_char_from(text.as_str(), '\n', p, n)
        } else {
            n
        };
        proof {
            if p < n {
                lemma_first_index_from(full, '\n', p as int, n as int);
            }
        }
    }
    let buffer = to_string(text.as_str().substring_char(p, n));
    proof {
        if p < n {
            lemma_first_index_from(full, '\n', p as int, n as int);
        }
        assert(lines_from(full, p as int) =~= Seq::<Seq<char>>::empty());
        if p < n {
            assert(rest_from(full, p as int) == full.subrange(p as int, n as int));
        }
        assert(buffer@ =~= rest_from(full, p as int));
    }
    SseStep::NeedMore(SseCollector { buffer, chunks })
}

/// Tell the collector the stream ended: a last line without its line feed
/// is still read, unless it is blank.
pub fn sse_end(collector: SseCollector) -> (result: Result<Vec<Value>, String>)
    ensures
        trimmed(collector.pending()).len() == 0 ==> finished_as(result, Ok(collector.collected())),
        trimmed(collector.pending()).len() > 0 ==> match run(seq![collector.pending()], collector.collected()) {
            Progress::Running(cs) => finished_as(result, Ok(cs)),
            Progress::Stopped(r) => finished_as(result, r),
        },
{
    let mut chunks = collector.chunks;
    if trim_text(collector.buffer.as_str()).unicode_len() == 0 {
        return Ok(chunks);
    }
    let ghost line = collector.buffer@;
    assert(seq![line][0] == line);
    assert(seq![line].drop_first() =~= Seq::<Seq<char>>::empty());
    assert(run(Seq::<Seq<char>>::empty(), chunks@) == Progress::Running(chunks@));
    match classify(collector.buffer.as_str()) {
        LineAction::Skip => Ok(chunks),
        LineAction::Done => Ok(chunks),
        LineAction::Data(data) => match parse_json_text(data) {
            Ok(value) => {
                chunks.push(value);
                assert(run(Seq::<Seq<char>>::empty(), chunks@) == Progress::Running(chunks@));
                Ok(chunks)
            },
            Err(message) => Err(failure(message)),
        },
    }
}

} // verus!
