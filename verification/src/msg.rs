//! The wire message: one relayed log record, and its spec-level image.

use vstd::prelude::*;

verus! {

/// Spec image of an optional string field: present with its characters, or
/// absent. Absence is distinct from an empty-but-present value.
pub open spec fn opt_view(o: Option<String>) -> Option<Seq<char>> {
    match o {
        Some(s) => Some(s@),
        None => None,
    }
}

/// Spec image of a [`LogMessage`]: every field as its character view.
#[verifier::ext_equal]
pub ghost struct LogMsgV {
    pub timestamp: Option<Seq<char>>,
    pub level: Option<Seq<char>>,
    pub message: Seq<char>,
    pub target: Option<Seq<char>>,
    pub thread_id: Option<Seq<char>>,
    pub file: Option<Seq<char>>,
    pub line: Option<Seq<char>>,
    pub server_id: Option<Seq<char>>,
    pub target_client_id: Option<Seq<char>>,
}

/// One relayed log record. Only `message` is always present; every other
/// field is populated under the relay's field-inclusion policy. A message
/// with `target_client_id` set is addressed to exactly one subscriber.
pub struct LogMessage {
    pub timestamp: Option<String>,
    pub level: Option<String>,
    pub message: String,
    pub target: Option<String>,
    pub thread_id: Option<String>,
    pub file: Option<String>,
    pub line: Option<String>,
    pub server_id: Option<String>,
    pub target_client_id: Option<String>,
}

impl View for LogMessage {
    type V = LogMsgV;

    open spec fn view(&self) -> LogMsgV {
        LogMsgV {
            timestamp: opt_view(self.timestamp),
            level: opt_view(self.level),
            message: self.message@,
            target: opt_view(self.target),
            thread_id: opt_view(self.thread_id),
            file: opt_view(self.file),
            line: opt_view(self.line),
            server_id: opt_view(self.server_id),
            target_client_id: opt_view(self.target_client_id),
        }
    }
}

/// A copy of an optional string field, equal under the view.
pub fn clone_opt_string(o: &Option<String>) -> (r: Option<String>)
    ensures
        opt_view(r) == opt_view(*o),
{
    match o {
        Some(s) => Some(s.clone()),
        None => None,
    }
}

impl Clone for LogMessage {
    /// A copy of the record, equal under the view.
    fn clone(&self) -> (r: Self)
        ensures
            r@ == self@,
    {
        LogMessage {
            timestamp: clone_opt_string(&self.timestamp),
            level: clone_opt_string(&self.level),
            message: self.message.clone(),
            target: clone_opt_string(&self.target),
            thread_id: clone_opt_string(&self.thread_id),
            file: clone_opt_string(&self.file),
            line: clone_opt_string(&self.line),
            server_id: clone_opt_string(&self.server_id),
            target_client_id: clone_opt_string(&self.target_client_id),
        }
    }
}

} // verus!
