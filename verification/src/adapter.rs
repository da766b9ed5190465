//! The event adapter: a raw instrumentation event becomes a wire
//! [`LogMessage`] under the field-inclusion policy — a field that is not
//! enabled stays absent, which the wire format distinguishes from an empty
//! value — and a blank event is not relayed at all.

use vstd::prelude::*;
use crate::msg::{LogMessage, LogMsgV, opt_view};
use crate::config::LogFieldsConfig;
use crate::numfmt::{spec_decimal, u32_to_string};
use crate::clock::now_local_rfc3339;
use crate::registry::{LoggingService, EntryV, has_client, entry_of, with_delivery,
    broadcast_post};
use crate::filter::spec_is_internal;

verus! {

/// One raw instrumentation event, as the event source hands it over: a
/// severity, the rendered text, the origin module, the current thread's
/// name, and — when the compiler recorded them — the source file and line.
pub struct RawEvent {
    pub level: String,
    pub message: String,
    pub target: String,
    pub thread_id: String,
    pub file: Option<String>,
    pub line: Option<u32>,
}

/// Whether `c` counts as whitespace, as the standard library's Unicode
/// tables have it.
pub uninterp spec fn is_space_char(c: char) -> bool;

/// Relies on char::is_whitespace: whether a character is Unicode whitespace
/// depends on the character alone.
#[verifier::external_body]
fn char_is_whitespace(c: char) -> (r: bool)
    ensures
        r == is_space_char(c),
{
    c.is_whitespace()
}

/// Nothing in `s` but whitespace.
pub open spec fn spec_is_blank(s: Seq<char>) -> bool {
    forall|i: int| 0 <= i < s.len() ==> is_space_char(#[trigger] s[i])
}

/// Whether the message text is blank — empty, or whitespace throughout.
/// A blank event carries nothing worth relaying.
pub fn message_is_blank(s: &str) -> (r: bool)
    ensures
        r == spec_is_blank(s@),
{
    let chars = crate::text::str_to_chars(s);
    let n = chars.len();
    for i in 0..n
        invariant
            n == chars@.len(),
            chars@ == s@,
            forall|j: int| 0 <= j < i ==> is_space_char(#[trigger] s@[j]),
    {
        if !char_is_whitespace(chars[i]) {
            return false;
        }
    }
    true
}

/// What the adapter makes of a raw event: the text and severity always
/// carried over, the relay's identity always attached, each provenance
/// field present exactly when its flag is set, a missing file standing as
/// "unknown" and a missing line as zero, and no addressee. Whether a
/// timestamp is attached follows its flag; its value is the clock's.
pub open spec fn adapted_from(
    m: LogMsgV,
    ev_level: Seq<char>,
    ev_message: Seq<char>,
    ev_target: Seq<char>,
    ev_thread: Seq<char>,
    ev_file: Option<Seq<char>>,
    ev_line: Option<u32>,
    fields: LogFieldsConfig,
    server_id: Option<Seq<char>>,
) -> bool {
    &&& m.message == ev_message
    &&& m.level == Some(ev_level)
    &&& m.target_client_id is None
    &&& m.server_id == server_id
    &&& m.target == (if fields.include_target {
        Some(ev_target)
    } else {
        None
    })
    &&& m.thread_id == (if fields.include_thread_id {
        Some(ev_thread)
    } else {
        None
    })
    &&& m.file == (if fields.include_file {
        Some(
            match ev_file {
                Some(f) => f,
                None => "unknown"@,
            },
        )
    } else {
        None
    })
    &&& m.line == (if fields.include_line {
        Some(
            spec_decimal(
                (match ev_line {
                    Some(l) => l,
                    None => 0u32,
                }) as nat,
            ),
        )
    } else {
        None
    })
    &&& (fields.include_timestamp <==> m.timestamp is Some)
}

/// Turn a raw event into a wire message under the field-inclusion policy.
/// The mapping is total: every raw event yields a message.
pub fn adapt_event(ev: RawEvent, fields: &LogFieldsConfig, server_id: &Option<String>) -> (r:
    LogMessage)
    ensures
        adapted_from(
            r@,
            ev.level@,
            ev.message@,
            ev.target@,
            ev.thread_id@,
            opt_view(ev.file),
            ev.line,
            *fields,
            opt_view(*server_id),
        ),
{
    let timestamp = if fields.include_timestamp {
        Some(now_local_rfc3339())
    } else {
        None
    };
    let target = if fields.include_target {
        Some(ev.target)
    } else {
        None
    };
    let thread_id = if fields.include_thread_id {
        Some(ev.thread_id)
    } else {
        None
    };
    let file = if fields.include_file {
        Some(
            match ev.file {
                Some(f) => f,
                None => String::from_str("unknown"),
            },
        )
    } else {
        None
    };
    let line = if fields.include_line {
        Some(
            match ev.line {
                Some(l) => u32_to_string(l),
                None => u32_to_string(0),
            },
        )
    } else {
        None
    };
    LogMessage {
        timestamp,
        level: Some(ev.level),
        message: ev.message,
        target,
        thread_id,
        file,
        line,
        server_id: crate::msg::clone_opt_string(server_id),
        target_client_id: None,
    }
}

/// How relaying one adapted message leaves the registry: on an addressed
/// message only the addressee's entry may grow by it, on an unaddressed one
/// a whole delivery pass ran (see [`broadcast_post`]) — or the noise filter
/// dropped it and nothing moved.
pub open spec fn relay_post(
    o: Seq<EntryV>,
    n: Seq<EntryV>,
    log_all: bool,
    m: LogMsgV,
    client_id: Option<Seq<char>>,
) -> bool {
    match client_id {
        Some(cid) => {
            &&& forall|id: Seq<char>| (#[trigger] has_client(n, id)) == has_client(o, id)
            &&& forall|id: Seq<char>| id != cid && has_client(o, id) ==> (#[trigger] entry_of(
                n,
                id,
            )) == entry_of(o, id)
            &&& (has_client(o, cid) ==> entry_of(n, cid) == entry_of(o, cid) || entry_of(n, cid)
                == with_delivery(entry_of(o, cid), m))
        },
        None => {
            if !log_all && spec_is_internal(m) {
                n == o
            } else {
                broadcast_post(o, n, m)
            }
        },
    }
}

/// Relay one raw event, exactly as the instrumentation layer does: a blank
/// event is ignored; anything else is adapted and then either addressed to
/// the event's own client — bypassing the noise filter — or broadcast.
pub fn process_event(
    svc: &mut LoggingService,
    ev: RawEvent,
    fields: &LogFieldsConfig,
    server_id: &Option<String>,
    client_id: Option<String>,
)
    requires
        old(svc).wf(),
    ensures
        final(svc).wf(),
        final(svc).log_all() == old(svc).log_all(),
        spec_is_blank(ev.message@) ==> final(svc).entries() == old(svc).entries(),
        !spec_is_blank(ev.message@) ==> (exists|m: LogMsgV|
            {
                &&& #[trigger] adapted_from(
                    m,
                    ev.level@,
                    ev.message@,
                    ev.target@,
                    ev.thread_id@,
                    opt_view(ev.file),
                    ev.line,
                    *fields,
                    opt_view(*server_id),
                )
                &&& relay_post(
                    old(svc).entries(),
                    final(svc).entries(),
                    old(svc).log_all(),
                    m,
                    opt_view(client_id),
                )
            }),
{
    if message_is_blank(ev.message.as_str()) {
        return;
    }
    let log = adapt_event(ev, fields, server_id);
    let ghost m = log@;
    match client_id {
        Some(cid) => {
            svc.broadcast_log_filtered(log, cid);
        },
        None => {
            svc.broadcast_log(log);
        },
    }
}

} // verus!
