//! Bearer-token authorization of gateway requests.
use vstd::prelude::*;

use crate::strings::{str_eq, strip_prefix, to_string};

verus! {

/// Whether a request with the `Authorization` header `header` may pass:
/// always when no token is configured; otherwise only with exactly
/// `Bearer ` and the configured token.
pub open spec fn authorized(expected: Option<Seq<char>>, header: Option<Seq<char>>) -> bool {
    match expected {
        None => true,
        Some(token) => match header {
            Some(value) => value == "Bearer "@ + token,
            None => false,
        },
    }
}

/// Decide whether a request may pass the gateway's token check.
pub fn is_authorized(expected: Option<&str>, header: Option<&str>) -> (allowed: bool)
    ensures
        allowed == authorized(
            match expected {
                Some(t) => Some(t@),
                None => None,
            },
            match header {
                Some(h) => Some(h@),
                None => None,
            },
        ),
{
    match expected {
        None => true,
        Some(token) => match header {
            None => false,
            Some(value) => match strip_prefix(value, "Bearer ") {
                Some(rest) => {
                    let same = str_eq(rest, token);
                    proof {
                        reveal_strlit("Bearer ");
                        if same {
                            assert(value@ =~= "Bearer "@ + token@);
                        } else if value@ == "Bearer "@ + token@ {
                            assert(rest@ =~= token@);
                        }
                    }
                    same
                },
                None => {
                    proof {
                        reveal_strlit("Bearer ");
                        if value@ == "Bearer "@ + token@ {
                            assert(value@.take("Bearer "@.len() as int) =~= "Bearer "@);
                        }
                    }
                    false
                },
            },
        },
    }
}

/// The `Authorization` header value for `token`.
pub fn bearer_value(token: &str) -> (value: String)
    ensures
        value@ == "Bearer "@ + token@,
{
    let mut value = to_string("Bearer ");
    value.append(token);
    value
}

} // verus!
