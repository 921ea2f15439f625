//! Reading a tool call's arguments out of its JSON text, claim references
//! included.
use vstd::prelude::*;

use serde_json::Value;

use crate::app_tools::{
    decode_tool_call, decoded, error_view, lookup, AppTool, ArgumentValue, ToolArguments,
    ToolDecodeError,
};
use crate::console::starts_with;
use crate::json::{
    as_text, as_unsigned, is_object, json_member, json_object, json_text, json_unsigned, member,
};
use crate::response::{opt_view, CompletedToolCall};
use crate::sse::{json_from_text, parse_json_text};
use crate::strings::{strip_prefix, to_string};
use crate::types::{ClaimId, ClaimRef, DraftId};

verus! {

// ---------------------------------------------------------------------------
// Claim references
// ---------------------------------------------------------------------------

pub open spec fn is_digit(c: char) -> bool {
    '0' <= c <= '9'
}

/// The number that a string of decimal digits writes.
pub open spec fn digits_value(s: Seq<char>) -> int
    decreases s.len(),
{
    if s.len() == 0 {
        0
    } else {
        digits_value(s.drop_last()) * 10 + (s.last() as int - '0' as int)
    }
}

/// The draft number that `s` writes: one or more decimal digits whose value
/// fits in `u64`.
pub open spec fn draft_number(s: Seq<char>) -> Option<u64> {
    if s.len() > 0 && (forall|i: int| 0 <= i < s.len() ==> is_digit(#[trigger] s[i]))
        && digits_value(s) <= u64::MAX {
        Some(digits_value(s) as u64)
    } else {
        None
    }
}

/// `r` is the claim reference that the text `t` writes: `claim:<id>` with a
/// non-empty id names a committed claim; `draft:<n>` or `#<n>` names a
/// draft; any other text names none.
pub open spec fn text_ref_read(r: Option<ClaimRef>, t: Seq<char>) -> bool {
    if starts_with(t, "claim:"@) {
        if t.len() > 6 {
            r matches Some(ClaimRef::Committed(c)) && c.0@ == t.skip(6)
        } else {
            r is None
        }
    } else if starts_with(t, "draft:"@) {
        match draft_number(t.skip(6)) {
            Some(n) => r == Some(ClaimRef::Draft(DraftId(n))),
            None => r is None,
        }
    } else if starts_with(t, "#"@) {
        match draft_number(t.skip(1)) {
            Some(n) => r == Some(ClaimRef::Draft(DraftId(n))),
            None => r is None,
        }
    } else {
        r is None
    }
}

/// `r` is the claim reference that the JSON value `v` gives: a string read
/// as `text_ref_read` says, or an object with exactly one of `claim_id` (a
/// non-empty string) and `draft_id` (a non-negative integer); any other
/// value gives none.
pub open spec fn ref_read(r: Option<ClaimRef>, v: Value) -> bool {
    match json_text(v) {
        Some(t) => text_ref_read(r, t),
        None => if json_object(v) {
            match (json_member(v, "claim_id"@), json_member(v, "draft_id"@)) {
                (Some(c), None) => match json_text(c) {
                    Some(id) => if id.len() > 0 {
                        r matches Some(ClaimRef::Committed(x)) && x.0@ == id
                    } else {
                        r is None
                    },
                    None => r is None,
                },
                (None, Some(d)) => match json_unsigned(d) {
                    Some(n) => r == Some(ClaimRef::Draft(DraftId(n))),
                    None => r is None,
                },
                _ => r is None,
            }
        } else {
            r is None
        },
    }
}

proof fn lemma_digits_prefix_below(s: Seq<char>, i: int)
    requires
        0 <= i <= s.len(),
        forall|j: int| 0 <= j < s.len() ==> is_digit(#[trigger] s[j]),
    ensures
        0 <= digits_value(s.take(i)) <= digits_value(s),
    decreases s.len() - i,
{
    if i < s.len() {
        lemma_digits_prefix_below(s, i + 1);
        assert(s.take(i + 1).drop_last() =~= s.take(i));
        assert(is_digit(s.take(i + 1).last()));
    } else {
        assert(s.take(i) =~= s);
        lemma_digits_nonnegative(s);
    }
}

proof fn lemma_digits_nonnegative(s: Seq<char>)
    requires
        forall|j: int| 0 <= j < s.len() ==> is_digit(#[trigger] s[j]),
    ensures
        digits_value(s) >= 0,
    decreases s.len(),
{
    if s.len() > 0 {
        lemma_digits_nonnegative(s.drop_last());
        assert(is_digit(s[s.len() - 1]));
    }
}

/// The draft number that `s` writes, if it writes one.
fn parse_draft_number(s: &str) -> (n: Option<u64>)
    ensures
        n == draft_number(s@),
{
    let len = s.unicode_len();
    if len == 0 {
        return None;
    }
    let mut value: u64 = 0;
    let mut i: usize = 0;
    while i < len
        invariant
            i <= len,
            len == s@.len(),
            len > 0,
            forall|j: int| 0 <= j < i ==> is_digit(#[trigger] s@[j]),
            value == digits_value(s@.take(i as int)),
        decreases len - i,
    {
        let c = s.get_char(i);
        if !('0' <= c && c <= '9') {
            assert(!is_digit(s@[i as int]));
            return None;
        }
        let d = (c as u32 - '0' as u32) as u64;
        assert(s@.take(i + 1).drop_last() =~= s@.take(i as int));
        assert(s@.take(i + 1).last() == c);
        if value > (u64::MAX - d) / 10 {
            proof {
                assert(digits_value(s@.take(i + 1)) > u64::MAX) by (nonlinear_arith)
                    requires
                        value > (u64::MAX - d) / 10,
                        digits_value(s@.take(i + 1)) == value * 10 + d,
                        d <= 9,
                ;
                if forall|j: int| 0 <= j < len ==> is_digit(#[trigger] s@[j]) {
                    lemma_digits_prefix_below(s@, i + 1);
                }
            }
            return None;
        }
        value = value * 10 + d;
        i += 1;
    }
    assert(s@.take(len as int) =~= s@);
    Some(value)
}

/// The claim reference that the text `t` writes, if any.
fn text_claim_ref(t: &str) -> (r: Option<ClaimRef>)
    ensures
        text_ref_read(r, t@),
{
    proof {
        reveal_strlit("claim:");
        reveal_strlit("draft:");
        reveal_strlit("#");
    }
    match strip_prefix(t, "claim:") {
        Some(id) => {
            if id.unicode_len() > 0 {
                return Some(ClaimRef::Committed(ClaimId(to_string(id))));
            } else {
                return None;
            }
        },
        None => {},
    }
    match strip_prefix(t, "draft:") {
        Some(n) => {
            return match parse_draft_number(n) {
                Some(n) => Some(ClaimRef::Draft(DraftId(n))),
                None => None,
            };
        },
        None => {},
    }
    match strip_prefix(t, "#") {
        Some(n) => match parse_draft_number(n) {
            Some(n) => Some(ClaimRef::Draft(DraftId(n))),
            None => None,
        },
        None => None,
    }
}

/// The claim reference that the JSON value `v` gives, if any.
pub fn claim_ref_of_json(v: &Value) -> (r: Option<ClaimRef>)
    ensures
        ref_read(r, *v),
{
    match as_text(v) {
        Some(t) => text_claim_ref(t),
        None => {
            if !is_object(v) {
                return None;
            }
            match (member(v, "claim_id"), member(v, "draft_id")) {
                (Some(c), None) => match as_text(c) {
                    Some(id) => {
                        if id.unicode_len() > 0 {
                            Some(ClaimRef::Committed(ClaimId(to_string(id))))
                        } else {
                            None
                        }
                    },
                    None => None,
                },
                (None, Some(d)) => match as_unsigned(d) {
                    Some(n) => Some(ClaimRef::Draft(DraftId(n))),
                    None => None,
                },
                _ => None,
            }
        },
    }
}

// ---------------------------------------------------------------------------
// Arguments
// ---------------------------------------------------------------------------

/// The argument names the app's tools read.
pub open spec fn known_field(k: Seq<char>) -> bool {
    ||| k == "claim_id"@
    ||| k == "claim"@
    ||| k == "body"@
    ||| k == "kind"@
    ||| k == "parent"@
    ||| k == "source"@
    ||| k == "target"@
    ||| k == "position"@
    ||| k == "outcome"@
    ||| k == "draft_id"@
}

/// `a` is the argument that the JSON value `m` gives: its text when it is a
/// string, its value when it is a non-negative integer, and the claim
/// reference it names.
pub open spec fn argument_read(a: ArgumentValue, m: Value) -> bool {
    &&& opt_view(a.text) == json_text(m)
    &&& a.unsigned == json_unsigned(m)
    &&& ref_read(a.claim_ref, m)
}

/// `args` holds exactly the arguments the tools read that the JSON value
/// `v` has as members, each read from its member.
pub open spec fn arguments_read(args: ToolArguments, v: Value) -> bool {
    forall|k: Seq<char>|
        match #[trigger] lookup(args.fields@, k) {
            None => !known_field(k) || json_member(v, k) is None,
            Some(a) => known_field(k) && (json_member(v, k) matches Some(m) && argument_read(a, m)),
        }
}

proof fn lemma_lookup_push(fields: Seq<(String, ArgumentValue)>, entry: (String, ArgumentValue), k: Seq<char>)
    ensures
        lookup(fields.push(entry), k) == if lookup(fields, k) is Some {
            lookup(fields, k)
        } else if entry.0@ == k {
            Some(entry.1)
        } else {
            None
        },
    decreases fields.len(),
{
    let pushed = fields.push(entry);
    assert(pushed[0] == if fields.len() > 0 { fields[0] } else { entry });
    if fields.len() > 0 {
        assert(pushed.drop_first() =~= fields.drop_first().push(entry));
        lemma_lookup_push(fields.drop_first(), entry, k);
        assert(lookup(pushed, k) == if pushed[0].0@ == k {
            Some(pushed[0].1)
        } else {
            lookup(pushed.drop_first(), k)
        });
        assert(lookup(fields, k) == if fields[0].0@ == k {
            Some(fields[0].1)
        } else {
            lookup(fields.drop_first(), k)
        });
    } else {
        assert(pushed.drop_first() =~= Seq::<(String, ArgumentValue)>::empty());
    }
}

fn argument_of(m: &Value) -> (a: ArgumentValue)
    ensures
        argument_read(a, *m),
{
    let text = match as_text(m) {
        Some(t) => Some(to_string(t)),
        None => None,
    };
    ArgumentValue { text, unsigned: as_unsigned(m), claim_ref: claim_ref_of_json(m) }
}

fn add_field(fields: &mut Vec<(String, ArgumentValue)>, v: &Value, name: &str)
    requires
        lookup(old(fields)@, name@) is None,
    ensures
        forall|k: Seq<char>| k != name@ ==> #[trigger] lookup(final(fields)@, k) == lookup(old(fields)@, k),
        match json_member(*v, name@) {
            None => lookup(final(fields)@, name@) is None,
            Some(m) => lookup(final(fields)@, name@) matches Some(a) && argument_read(a, m),
        },
{
    let ghost before = fields@;
    match member(v, name) {
        None => {},
        Some(m) => {
            let entry = (to_string(name), argument_of(m));
            fields.push(entry);
            proof {
                assert forall|k: Seq<char>| k != name@ implies #[trigger] lookup(fields@, k) == lookup(
                    before,
                    k,
                ) by {
                    lemma_lookup_push(before, entry, k);
                }
                lemma_lookup_push(before, entry, name@);
            }
        },
    }
}

/// The arguments the app's tools read, taken from the JSON value `v`.
pub fn arguments_from_json(v: &Value) -> (args: ToolArguments)
    ensures
        arguments_read(args, *v),
{
    proof {
        reveal_strlit("claim_id");
        reveal_strlit("claim");
        reveal_strlit("body");
        reveal_strlit("kind");
        reveal_strlit("parent");
        reveal_strlit("source");
        reveal_strlit("target");
        reveal_strlit("position");
        reveal_strlit("outcome");
        reveal_strlit("draft_id");
    }
    let ghost names: Seq<Seq<char>> = seq![
        "claim_id"@,
        "claim"@,
        "body"@,
        "kind"@,
        "parent"@,
        "source"@,
        "target"@,
        "position"@,
        "outcome"@,
        "draft_id"@,
    ];
    assert(forall|i: int, j: int| 0 <= i < j < names.len() ==> #[trigger] names[i] != #[trigger] names[j]) by {
        assert(names[0].len() == 8 && names[0][0] == 'c');
        assert(names[1].len() == 5);
        assert(names[2].len() == 4 && names[2][0] == 'b');
        assert(names[3].len() == 4 && names[3][0] == 'k');
        assert(names[4].len() == 6 && names[4][0] == 'p');
        assert(names[5].len() == 6 && names[5][0] == 's');
        assert(names[6].len() == 6 && names[6][0] == 't');
        assert(names[7].len() == 8 && names[7][0] == 'p');
        assert(names[8].len() == 7);
        assert(names[9].len() == 8 && names[9][0] == 'd');
    }
    let mut fields: Vec<(String, ArgumentValue)> = Vec::new();
    add_field(&mut fields, v, "claim_id");
    assert(lookup(fields@, names[1]) is None);
    add_field(&mut fields, v, "claim");
    assert(lookup(fields@, names[2]) is None);
    add_field(&mut fields, v, "body");
    assert(lookup(fields@, names[3]) is None);
    add_field(&mut fields, v, "kind");
    assert(lookup(fields@, names[4]) is None);
    add_field(&mut fields, v, "parent");
    assert(lookup(fields@, names[5]) is None);
    add_field(&mut fields, v, "source");
    assert(lookup(fields@, names[6]) is None);
    add_field(&mut fields, v, "target");
    assert(lookup(fields@, names[7]) is None);
    add_field(&mut fields, v, "position");
    assert(lookup(fields@, names[8]) is None);
    add_field(&mut fields, v, "outcome");
    assert(lookup(fields@, names[9]) is None);
    add_field(&mut fields, v, "draft_id");
    let args = ToolArguments { fields };
    proof {
        assert forall|k: Seq<char>| !known_field(k) implies #[trigger] lookup(args.fields@, k) is None by {
            assert(lookup(Seq::<(String, ArgumentValue)>::empty(), k) is None);
        }
    }
    args
}

/// The arguments of a tool call, read from its JSON text; on text that is
/// no JSON, the parser's message.
pub fn decode_tool_arguments(call: &CompletedToolCall) -> (r: Result<ToolArguments, String>)
    ensures
        match json_from_text(call.arguments_json@) {
            Err(m) => r matches Err(e) && e@ == m,
            Ok(v) => r matches Ok(a) && arguments_read(a, v),
        },
{
    match parse_json_text(call.arguments_json.as_str()) {
        Ok(v) => Ok(arguments_from_json(&v)),
        Err(e) => Err(e),
    }
}

/// Decode a tool call from its raw parts: its arguments are read from
/// their JSON text, then the call is decoded as `decode_tool_call` says.
pub fn decode_raw_tool_call(call: &CompletedToolCall) -> (result: Result<AppTool, ToolDecodeError>)
    ensures
        match json_from_text(call.arguments_json@) {
            Err(m) => match decoded(call.call_type@, call.function_name@, Err(m)) {
                Ok(v) => result matches Ok(t) && t@ == v,
                Err(ev) => result matches Err(e) && error_view(e) == ev,
            },
            Ok(json) => exists|a: ToolArguments|
                arguments_read(a, json) && match decoded(call.call_type@, call.function_name@, Ok(a)) {
                    Ok(v) => result matches Ok(t) && t@ == v,
                    Err(ev) => result matches Err(e) && error_view(e) == ev,
                },
        },
{
    let arguments = decode_tool_arguments(call);
    decode_tool_call(call, &arguments)
}

} // verus!
