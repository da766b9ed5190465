//! The per-connection subscription protocol: a subscribe request is
//! classified, a delivery channel is registered, a web client gets a one-time
//! acknowledgement addressed to it, and on termination the registry entry is
//! removed. Termination is normal lifecycle, not an error.

use vstd::prelude::*;
use tokio::sync::mpsc::UnboundedSender;
use crate::ConnectionInfo;
use crate::msg::{LogMessage, LogMsgV};
use crate::registry::{LoggingService, EntryV, has_client, entry_of, with_delivery,
    lemma_targeted_delivery};
use crate::filter::{spec_is_internal, spec_text_is_internal};
use crate::clock::now_utc_rfc3339;

verus! {

/// Who subscribed: a peer relay, a web dashboard, or something that named
/// neither. Purely informational — it never drives delivery policy.
#[derive(Clone, Copy, PartialEq, Eq, Structural, Debug)]
pub enum ClientType {
    Server,
    WebClient,
    Unknown,
}

/// The client type a wire code denotes; an unrecognized code reads as
/// `Unknown`.
pub open spec fn spec_client_type_from_code(code: i32) -> ClientType {
    if code == 1 {
        ClientType::Server
    } else if code == 2 {
        ClientType::WebClient
    } else {
        ClientType::Unknown
    }
}

/// Classify a wire client-type code.
pub fn client_type_from_code(code: i32) -> (r: ClientType)
    ensures
        r == spec_client_type_from_code(code),
{
    if code == 1 {
        ClientType::Server
    } else if code == 2 {
        ClientType::WebClient
    } else {
        ClientType::Unknown
    }
}

/// The wire code of a client type.
pub fn client_type_code(t: ClientType) -> (r: i32)
    ensures
        spec_client_type_from_code(r) == t,
{
    match t {
        ClientType::Server => 1,
        ClientType::WebClient => 2,
        ClientType::Unknown => 0,
    }
}

/// The one-time acknowledgement for a freshly subscribed web client:
/// addressed to that client alone, at level INFO, stamped `ts`.
pub open spec fn spec_ack_msg(cid: Seq<char>, ts: Seq<char>) -> LogMsgV {
    LogMsgV {
        timestamp: Some(ts),
        level: Some("INFO"@),
        message: "Test message for web client "@ + cid,
        target: None,
        thread_id: None,
        file: None,
        line: None,
        server_id: None,
        target_client_id: Some(cid),
    }
}

/// Whether the acknowledgement for `cid` trips the noise filter — its text
/// is fixed by the client id, so this does not depend on the timestamp.
pub open spec fn ack_is_internal(cid: Seq<char>) -> bool {
    spec_text_is_internal("Test message for web client "@ + cid)
}

/// Build the web client acknowledgement.
pub fn make_ack(client_id: &String, timestamp: String) -> (r: LogMessage)
    ensures
        r@ == spec_ack_msg(client_id@, timestamp@),
{
    let mut text = String::from_str("Test message for web client ");
    text.append(client_id.as_str());
    let r = LogMessage {
        timestamp: Some(timestamp),
        level: Some(String::from_str("INFO")),
        message: text,
        target: None,
        thread_id: None,
        file: None,
        line: None,
        server_id: None,
        target_client_id: Some(client_id.clone()),
    };
    proof {
        assert(r@ =~= spec_ack_msg(client_id@, timestamp@));
    }
    r
}

/// Where a connection stands: it arrives, registers its channel, streams
/// until the transport drops, and ends with its entry removed.
#[derive(Clone, Copy, PartialEq, Eq, Structural, Debug)]
pub enum SubscriptionState {
    Connecting,
    Registered,
    Streaming,
    Terminated,
}

/// One connection's passage through the protocol.
pub struct Subscription {
    pub client_id: String,
    pub client_type: ClientType,
    pub server_name: String,
    pub state: SubscriptionState,
}

impl Subscription {
    /// A subscribe request arrives: classify the caller. Beyond that, the
    /// id is accepted as-is — even an empty one.
    pub fn connect(info: ConnectionInfo) -> (r: Subscription)
        ensures
            r.state == SubscriptionState::Connecting,
            r.client_id@ == info.client_id@,
            r.client_type == spec_client_type_from_code(info.client_type),
            r.server_name@ == info.server_name@,
    {
        Subscription {
            client_id: info.client_id,
            client_type: client_type_from_code(info.client_type),
            server_name: info.server_name,
            state: SubscriptionState::Connecting,
        }
    }

    /// Register this connection's delivery channel, last-connect-wins, and —
    /// only for a web client — broadcast the one-time acknowledgement
    /// addressed to it, through the ordinary delivery path. Afterwards the
    /// entry stands registered with `sender`; for a web client it holds the
    /// acknowledgement if the channel accepted it, it was reaped if the
    /// channel was already closed, and it stays empty if the noise filter
    /// swallowed the acknowledgement. No other entry moves.
    pub fn register_channel(&mut self, svc: &mut LoggingService, sender: UnboundedSender<
        LogMessage,
    >)
        requires
            old(self).state == SubscriptionState::Connecting,
            old(svc).wf(),
        ensures
            final(self).state == SubscriptionState::Registered,
            final(self).client_id == old(self).client_id,
            final(self).client_type == old(self).client_type,
            final(self).server_name == old(self).server_name,
            final(svc).wf(),
            final(svc).log_all() == old(svc).log_all(),
            forall|id: Seq<char>| id != old(self).client_id@ ==>
                (#[trigger] has_client(final(svc).entries(), id))
                    == has_client(old(svc).entries(), id),
            forall|id: Seq<char>| id != old(self).client_id@
                && has_client(old(svc).entries(), id) ==>
                (#[trigger] entry_of(final(svc).entries(), id))
                    == entry_of(old(svc).entries(), id),
            old(self).client_type != ClientType::WebClient ==> has_client(
                final(svc).entries(),
                old(self).client_id@,
            ) && entry_of(final(svc).entries(), old(self).client_id@) == (EntryV {
                id: old(self).client_id@,
                chan: sender,
                delivered: Seq::<LogMsgV>::empty(),
            }),
            (old(self).client_type == ClientType::WebClient && !old(svc).log_all()
                && ack_is_internal(old(self).client_id@)) ==> has_client(
                final(svc).entries(),
                old(self).client_id@,
            ) && entry_of(final(svc).entries(), old(self).client_id@) == (EntryV {
                id: old(self).client_id@,
                chan: sender,
                delivered: Seq::<LogMsgV>::empty(),
            }),
            (old(self).client_type == ClientType::WebClient && (old(svc).log_all()
                || !ack_is_internal(old(self).client_id@))) ==> (!has_client(
                final(svc).entries(),
                old(self).client_id@,
            ) || (exists|ts: Seq<char>|
                entry_of(final(svc).entries(), old(self).client_id@) == (EntryV {
                    id: old(self).client_id@,
                    chan: sender,
                    delivered: seq![#[trigger] spec_ack_msg(old(self).client_id@, ts)],
                }))),
    {
        let ghost cid = self.client_id@;
        svc.register(self.client_id.clone(), sender);
        let ghost fresh = EntryV { id: cid, chan: sender, delivered: Seq::<LogMsgV>::empty() };
        let ghost mid = svc.entries();
        let is_web = match self.client_type {
            ClientType::WebClient => true,
            _ => false,
        };
        if is_web {
            let ts = now_utc_rfc3339();
            let ghost tsv = ts@;
            let ack = make_ack(&self.client_id, ts);
            let ghost m = ack@;
            proof {
                assert(m == spec_ack_msg(cid, tsv));
                assert(spec_is_internal(m) == ack_is_internal(cid));
            }
            svc.broadcast_log(ack);
            proof {
                let n = svc.entries();
                let o = old(svc).entries();
                if !old(svc).log_all() && ack_is_internal(cid) {
                    assert(n == mid);
                    assert forall|id: Seq<char>| id != cid implies
                        (#[trigger] has_client(n, id)) == has_client(o, id) by {
                        assert(has_client(mid, id) == has_client(o, id));
                    }
                    assert forall|id: Seq<char>| id != cid && has_client(o, id) implies
                        (#[trigger] entry_of(n, id)) == entry_of(o, id) by {
                        assert(entry_of(mid, id) == entry_of(o, id));
                    }
                } else {
                    lemma_targeted_delivery(mid, n, m, cid);
                    assert forall|id: Seq<char>| id != cid implies
                        (#[trigger] has_client(n, id)) == has_client(o, id) by {
                        assert(has_client(mid, id) == has_client(o, id));
                        if has_client(mid, id) {
                            assert(has_client(n, id));
                        }
                        if has_client(n, id) {
                            assert(has_client(mid, id));
                        }
                    }
                    assert forall|id: Seq<char>| id != cid && has_client(o, id) implies
                        (#[trigger] entry_of(n, id)) == entry_of(o, id) by {
                        assert(has_client(mid, id));
                        assert(entry_of(n, id) == entry_of(mid, id));
                        assert(entry_of(mid, id) == entry_of(o, id));
                    }
                    if has_client(n, cid) {
                        assert(entry_of(n, cid).delivered == entry_of(mid, cid).delivered.push(
                            m,
                        ));
                        assert(entry_of(n, cid) == with_delivery(fresh, m)) by {
                            let i = crate::registry::client_index(n, cid);
                            assert(n[i].id == cid);
                        }
                        assert(with_delivery(fresh, m) == (EntryV {
                            id: cid,
                            chan: sender,
                            delivered: seq![spec_ack_msg(cid, tsv)],
                        })) by {
                            assert(Seq::<LogMsgV>::empty().push(m) =~= seq![
                                spec_ack_msg(cid, tsv),
                            ]);
                        }
                    }
                }
            }
        }
        self.state = SubscriptionState::Registered;
    }

    /// The registered connection starts streaming: from here the transport
    /// forwards whatever arrives on the client's channel, and blocks only
    /// on "next message or channel closed".
    pub fn begin_streaming(&mut self)
        requires
            old(self).state == SubscriptionState::Registered,
        ensures
            final(self).state == SubscriptionState::Streaming,
            final(self).client_id == old(self).client_id,
            final(self).client_type == old(self).client_type,
            final(self).server_name == old(self).server_name,
    {
        self.state = SubscriptionState::Streaming;
    }

    /// The connection is over — the transport dropped, or the stream ended
    /// with its completion sentinel. Remove this connection's registry
    /// entry; every other entry stays.
    pub fn terminate(&mut self, svc: &mut LoggingService)
        requires
            old(self).state != SubscriptionState::Terminated,
            old(svc).wf(),
        ensures
            final(self).state == SubscriptionState::Terminated,
            final(self).client_id == old(self).client_id,
            final(self).client_type == old(self).client_type,
            final(self).server_name == old(self).server_name,
            final(svc).wf(),
            final(svc).log_all() == old(svc).log_all(),
            !has_client(final(svc).entries(), old(self).client_id@),
            forall|id: Seq<char>| id != old(self).client_id@ ==>
                (#[trigger] has_client(final(svc).entries(), id))
                    == has_client(old(svc).entries(), id),
            forall|id: Seq<char>| id != old(self).client_id@
                && has_client(old(svc).entries(), id) ==>
                (#[trigger] entry_of(final(svc).entries(), id))
                    == entry_of(old(svc).entries(), id),
    {
        svc.unregister(&self.client_id);
        self.state = SubscriptionState::Terminated;
    }
}

} // verus!
