//! The noise filter: a pure predicate deciding whether a message is internal
//! transport chatter that must never be relayed, lest relaying a log produce
//! more logs and feed back into the relay.

use vstd::prelude::*;
use crate::msg::{LogMessage, LogMsgV};
use crate::text::{spec_has_prefix, spec_has_substring, str_to_chars, chars_have_prefix,
    chars_have_substring};

verus! {

/// The message's origin names a transport or runtime namespace.
pub open spec fn spec_target_is_internal(t: Seq<char>) -> bool {
    ||| spec_has_prefix(t, "h2::"@)
    ||| spec_has_prefix(t, "tonic::"@)
    ||| spec_has_prefix(t, "hyper::"@)
    ||| spec_has_prefix(t, "tower::"@)
    ||| spec_has_prefix(t, "runtime::"@)
    ||| spec_has_prefix(t, "http::"@)
    ||| spec_has_prefix(t, "Connection{peer="@)
}

/// The message's text contains a known piece of transport chatter.
pub open spec fn spec_text_is_internal(m: Seq<char>) -> bool {
    ||| spec_has_substring(m, "send frame="@)
    ||| spec_has_substring(m, "transition_after"@)
    ||| spec_has_substring(m, "writing frame="@)
    ||| spec_has_substring(m, "encoding RESET"@)
    ||| spec_has_substring(m, "flushing buffer"@)
    ||| spec_has_substring(m, "connection established"@)
    ||| spec_has_substring(m, "connection closed"@)
    ||| spec_has_substring(m, "send"@)
    ||| spec_has_substring(m, "poll"@)
}

/// A message is internal if its target starts with a transport-namespace
/// prefix, or its text contains a transport-chatter phrase.
pub open spec fn spec_is_internal(m: LogMsgV) -> bool {
    (match m.target {
        Some(t) => spec_target_is_internal(t),
        None => false,
    }) || spec_text_is_internal(m.message)
}

/// Whether `log` is internal transport chatter. Unless the relay is in its
/// log-everything mode, such a message is dropped before any delivery
/// decision.
pub fn is_internal_message(log: &LogMessage) -> (r: bool)
    ensures
        r == spec_is_internal(log@),
{
    match &log.target {
        Some(t) => {
            let tc = str_to_chars(t.as_str());
            if chars_have_prefix(&tc, &str_to_chars("h2::"))
                || chars_have_prefix(&tc, &str_to_chars("tonic::"))
                || chars_have_prefix(&tc, &str_to_chars("hyper::"))
                || chars_have_prefix(&tc, &str_to_chars("tower::"))
                || chars_have_prefix(&tc, &str_to_chars("runtime::"))
                || chars_have_prefix(&tc, &str_to_chars("http::"))
                || chars_have_prefix(&tc, &str_to_chars("Connection{peer=")) {
                return true;
            }
        },
        None => {},
    }
    let mc = str_to_chars(log.message.as_str());
    chars_have_substring(&mc, &str_to_chars("send frame="))
        || chars_have_substring(&mc, &str_to_chars("transition_after"))
        || chars_have_substring(&mc, &str_to_chars("writing frame="))
        || chars_have_substring(&mc, &str_to_chars("encoding RESET"))
        || chars_have_substring(&mc, &str_to_chars("flushing buffer"))
        || chars_have_substring(&mc, &str_to_chars("connection established"))
        || chars_have_substring(&mc, &str_to_chars("connection closed"))
        || chars_have_substring(&mc, &str_to_chars("send"))
        || chars_have_substring(&mc, &str_to_chars("poll"))
}

/// Whether the relay forwards internal chatter too, when nothing is
/// configured: it does not.
pub fn default_log_all_messages() -> (r: bool)
    ensures
        r == false,
{
    false
}

} // verus!
