//! Gateway URLs of the session client.
use vstd::prelude::*;

use crate::strings::{strip_prefix, to_string};

verus! {

/// Errors of the session client that carry no I/O error.
#[derive(Debug, Clone, PartialEq, Eq)]
pub enum SessionError {
    InvalidGatewayUrl(String),
    Status { status: u16, body: String },
    Protocol(String),
    CommandChannelClosed,
    EventChannelClosed,
    Disconnected(String),
}

/// `s` without its trailing `c` characters.
pub open spec fn trim_trailing(s: Seq<char>, c: char) -> Seq<char>
    decreases s.len(),
{
    if s.len() > 0 && s.last() == c {
        trim_trailing(s.drop_last(), c)
    } else {
        s
    }
}

/// The base URL without trailing slashes.
pub fn normalize_base_url(base_url: &str) -> (url: String)
    ensures
        url@ == trim_trailing(base_url@, '/'),
{
    let mut end = base_url.unicode_len();
    proof {
        assert(base_url@.take(end as int) =~= base_url@);
    }
    while end > 0 && base_url.get_char(end - 1) == '/'
        invariant
            end <= base_url@.len(),
            trim_trailing(base_url@, '/') == trim_trailing(base_url@.take(end as int), '/'),
        decreases end,
    {
        assert(base_url@.take(end as int).drop_last() =~= base_url@.take(end - 1));
        end -= 1;
    }
    let kept = base_url.substring_char(0, end);
    assert(kept@ =~= base_url@.take(end as int));
    to_string(kept)
}

/// The session WebSocket URL for an `http://` or `https://` base URL.
pub open spec fn ws_url_for(base_url: Seq<char>) -> Option<Seq<char>> {
    if base_url.len() >= 7 && base_url.take(7) == "http://"@ {
        Some("ws://"@ + base_url.skip(7) + "/v1/sessions"@)
    } else if base_url.len() >= 8 && base_url.take(8) == "https://"@ {
        Some("wss://"@ + base_url.skip(8) + "/v1/sessions"@)
    } else {
        None
    }
}

/// The session WebSocket endpoint of the gateway at `base_url`; any other
/// scheme than `http` or `https` is refused.
pub fn session_ws_url(base_url: &str) -> (url: Result<String, SessionError>)
    ensures
        ws_url_for(base_url@) matches Some(u) ==> (url matches Ok(s) && s@ == u),
        ws_url_for(base_url@) is None ==> (url matches Err(SessionError::InvalidGatewayUrl(m))
            && m@ == "expected http:// or https:// base URL, got "@ + base_url@),
{
    proof {
        reveal_strlit("http://");
        reveal_strlit("https://");
    }
    if let Some(rest) = strip_prefix(base_url, "http://") {
        let mut url = to_string("ws://");
        url.append(rest);
        url.append("/v1/sessions");
        Ok(url)
    } else if let Some(rest) = strip_prefix(base_url, "https://") {
        let mut url = to_string("wss://");
        url.append(rest);
        url.append("/v1/sessions");
        Ok(url)
    } else {
        let mut message = to_string("expected http:// or https:// base URL, got ");
        message.append(base_url);
        Err(SessionError::InvalidGatewayUrl(message))
    }
}

} // verus!
