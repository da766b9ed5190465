//! The client registry and the broadcast engine.
//!
//! The registry owns the set of currently-subscribed delivery channels, one
//! per client id. The broadcast engine decides a message's recipients (all
//! subscribers, or one targeted client), delivers on each recipient's
//! channel, and reaps entries whose receiver has disappeared.
//!
//! Each entry carries, as ghost state, the sequence of messages its channel
//! has accepted so far, oldest first. The delivery contracts are stated over
//! those sequences: what a subscriber observes is exactly its entry's
//! sequence, in order, because the channel hands messages out in the order
//! they were accepted (see [`crate::chan`]).

use vstd::prelude::*;
use tokio::sync::mpsc::UnboundedSender;
use crate::msg::{LogMessage, LogMsgV};
use crate::filter::{spec_is_internal, is_internal_message};
use crate::chan::send_message;

verus! {

/// Spec image of one registry entry: the client id, the channel handle, and
/// the messages the channel has accepted, oldest first.
#[verifier::ext_equal]
pub ghost struct EntryV {
    pub id: Seq<char>,
    pub chan: UnboundedSender<LogMessage>,
    pub delivered: Seq<LogMsgV>,
}

/// One active subscription: a caller-supplied id and the sending half of
/// that subscriber's channel. The registry is the sole owner of the sender
/// until the entry is removed.
pub struct ClientEntry {
    pub client_id: String,
    pub sender: UnboundedSender<LogMessage>,
    pub delivered: Ghost<Seq<LogMsgV>>,
}

impl View for ClientEntry {
    type V = EntryV;

    open spec fn view(&self) -> EntryV {
        EntryV { id: self.client_id@, chan: self.sender, delivered: self.delivered@ }
    }
}

/// No two entries share a client id.
pub open spec fn entries_wf(s: Seq<EntryV>) -> bool {
    forall|i: int, j: int| 0 <= i < j < s.len() ==> (#[trigger] s[i]).id != (#[trigger] s[j]).id
}

/// Some entry is registered under `id`.
pub open spec fn has_client(s: Seq<EntryV>, id: Seq<char>) -> bool {
    exists|i: int| 0 <= i < s.len() && (#[trigger] s[i]).id == id
}

/// The position of the entry registered under `id`; meaningful only when
/// `has_client(s, id)` (and unique when `entries_wf(s)`).
pub open spec fn client_index(s: Seq<EntryV>, id: Seq<char>) -> int {
    choose|i: int| 0 <= i < s.len() && (#[trigger] s[i]).id == id
}

/// The entry registered under `id`; meaningful only when `has_client(s, id)`.
pub open spec fn entry_of(s: Seq<EntryV>, id: Seq<char>) -> EntryV {
    s[client_index(s, id)]
}

/// `e` with `m` appended to its delivery sequence.
pub open spec fn with_delivery(e: EntryV, m: LogMsgV) -> EntryV {
    EntryV { id: e.id, chan: e.chan, delivered: e.delivered.push(m) }
}

pub proof fn lemma_client_index_unique(s: Seq<EntryV>, id: Seq<char>, i: int)
    requires
        entries_wf(s),
        0 <= i < s.len(),
        s[i].id == id,
    ensures
        has_client(s, id),
        client_index(s, id) == i,
{
    assert(has_client(s, id));
    let j = client_index(s, id);
    if i != j {
        if i < j {
            assert(s[i].id != s[j].id);
        } else {
            assert(s[j].id != s[i].id);
        }
    }
}

pub proof fn lemma_push_keeps_clients(s: Seq<EntryV>, e: EntryV)
    requires
        entries_wf(s),
        !has_client(s, e.id),
    ensures
        entries_wf(s.push(e)),
        has_client(s.push(e), e.id),
        entry_of(s.push(e), e.id) == e,
        forall|id: Seq<char>| id != e.id ==>
            (#[trigger] has_client(s.push(e), id)) == has_client(s, id),
        forall|id: Seq<char>| id != e.id && has_client(s, id) ==>
            (#[trigger] entry_of(s.push(e), id)) == entry_of(s, id),
{
    let t = s.push(e);
    assert forall|i: int, j: int| 0 <= i < j < t.len() implies
        (#[trigger] t[i]).id != (#[trigger] t[j]).id by {
        if j < s.len() {
            assert(s[i].id != s[j].id);
        } else {
            // t[j] is e; if t[i].id were e.id, then has_client(s, e.id)
            if t[i].id == e.id {
                assert(has_client(s, e.id));
            }
        }
    }
    lemma_client_index_unique(t, e.id, s.len() as int);
    assert forall|id: Seq<char>| id != e.id implies
        (#[trigger] has_client(t, id)) == has_client(s, id) by {
        if has_client(s, id) {
            let i = client_index(s, id);
            assert(t[i].id == id);
        }
        if has_client(t, id) {
            let i = client_index(t, id);
            assert(i < s.len());
            assert(s[i].id == id);
        }
    }
    assert forall|id: Seq<char>| id != e.id && has_client(s, id) implies
        (#[trigger] entry_of(t, id)) == entry_of(s, id) by {
        let i = client_index(s, id);
        assert(s[i].id == id);
        assert(t[i].id == id);
        lemma_client_index_unique(t, id, i);
    }
}

/// The registry and the relay's delivery policy switch. All mutation goes
/// through `&mut` methods; concurrent callers share it behind one lock,
/// outside this crate.
pub struct LoggingService {
    clients: Vec<ClientEntry>,
    log_all_messages: bool,
}

impl LoggingService {
    /// The registered entries, in registration order.
    pub closed spec fn entries(&self) -> Seq<EntryV> {
        self.clients@.map_values(|e: ClientEntry| e@)
    }

    /// The log-everything switch: when set, the noise filter is bypassed.
    pub closed spec fn log_all(&self) -> bool {
        self.log_all_messages
    }

    /// At most one entry per client id.
    pub open spec fn wf(&self) -> bool {
        entries_wf(self.entries())
    }

    /// An empty registry, with the noise filter in force.
    pub fn new() -> (r: Self)
        ensures
            r.wf(),
            r.entries() =~= Seq::<EntryV>::empty(),
            r.log_all() == false,
    {
        LoggingService { clients: Vec::new(), log_all_messages: false }
    }

    /// Switch the log-everything mode, leaving the registry untouched.
    pub fn set_log_all(&mut self, log_all: bool)
        ensures
            final(self).log_all() == log_all,
            final(self).entries() == old(self).entries(),
    {
        self.log_all_messages = log_all;
    }

    /// The position of `client_id` in the registry, if present.
    fn find_index(&self, client_id: &String) -> (r: Option<usize>)
        ensures
            match r {
                Some(i) => i < self.entries().len() && self.entries()[i as int].id == client_id@,
                None => !has_client(self.entries(), client_id@),
            },
    {
        let n = self.clients.len();
        for i in 0..n
            invariant
                n == self.clients@.len(),
                forall|j: int| 0 <= j < i ==> (#[trigger] self.entries()[j]).id != client_id@,
        {
            if self.clients[i].client_id == *client_id {
                return Some(i);
            }
        }
        proof {
            if has_client(self.entries(), client_id@) {
                let i = client_index(self.entries(), client_id@);
                assert(self.entries()[i].id != client_id@);
            }
        }
        None
    }

    /// Insert or replace the entry for `client_id` (last-connect-wins): a new
    /// entry with `sender` and an empty delivery sequence stands at the end
    /// of the registry; a previous entry under the same id is silently
    /// dropped. Every other entry is untouched.
    pub fn register(&mut self, client_id: String, sender: UnboundedSender<LogMessage>)
        requires
            old(self).wf(),
        ensures
            final(self).wf(),
            final(self).log_all() == old(self).log_all(),
            has_client(final(self).entries(), client_id@),
            (entry_of(final(self).entries(), client_id@) == EntryV {
                id: client_id@,
                chan: sender,
                delivered: Seq::<LogMsgV>::empty(),
            }),
            forall|id: Seq<char>| id != client_id@ ==>
                (#[trigger] has_client(final(self).entries(), id))
                    == has_client(old(self).entries(), id),
            forall|id: Seq<char>| id != client_id@ && has_client(old(self).entries(), id) ==>
                (#[trigger] entry_of(final(self).entries(), id))
                    == entry_of(old(self).entries(), id),
            ({
                let base = if has_client(old(self).entries(), client_id@) {
                    old(self).entries().remove(
                        client_index(old(self).entries(), client_id@),
                    )
                } else {
                    old(self).entries()
                };
                final(self).entries() =~= base.push(
                    EntryV { id: client_id@, chan: sender, delivered: Seq::<LogMsgV>::empty() },
                )
            }),
    {
        self.unregister(&client_id);
        let ghost pruned = self.entries();
        let entry = ClientEntry {
            client_id,
            sender,
            delivered: Ghost(Seq::empty()),
        };
        let ghost ev = entry@;
        self.clients.push(entry);
        proof {
            assert(self.entries() =~= pruned.push(ev));
            lemma_push_keeps_clients(pruned, ev);
        }
    }

    /// Remove the entry for `client_id` if present; idempotent. Every other
    /// entry is untouched, in its old order.
    pub fn unregister(&mut self, client_id: &String)
        requires
            old(self).wf(),
        ensures
            final(self).wf(),
            final(self).log_all() == old(self).log_all(),
            !has_client(final(self).entries(), client_id@),
            forall|id: Seq<char>| id != client_id@ ==>
                (#[trigger] has_client(final(self).entries(), id))
                    == has_client(old(self).entries(), id),
            forall|id: Seq<char>| id != client_id@ && has_client(old(self).entries(), id) ==>
                (#[trigger] entry_of(final(self).entries(), id))
                    == entry_of(old(self).entries(), id),
            (has_client(old(self).entries(), client_id@) ==> final(self).entries()
                =~= old(self).entries().remove(client_index(old(self).entries(), client_id@))),
            (!has_client(old(self).entries(), client_id@) ==> final(self).entries()
                == old(self).entries()),
    {
        let ghost s0 = self.entries();
        match self.find_index(client_id) {
            Some(i) => {
                proof {
                    lemma_client_index_unique(s0, client_id@, i as int);
                }
                self.clients.remove(i);
                proof {
                    let s1 = self.entries();
                    assert(s1 =~= s0.remove(i as int));
                    lemma_remove_keeps_clients(s0, i as int);
                }
            },
            None => {
                proof {
                    assert(self.entries() =~= s0);
                }
            },
        }
    }

    /// The registered client ids, in registration order: a consistent view
    /// for iteration, on which no registration is lost or double-counted.
    pub fn snapshot(&self) -> (r: Vec<String>)
        ensures
            r@.len() == self.entries().len(),
            forall|i: int| 0 <= i < r@.len() ==>
                (#[trigger] r@[i])@ == self.entries()[i].id,
    {
        let n = self.clients.len();
        let mut r: Vec<String> = Vec::new();
        for i in 0..n
            invariant
                n == self.clients@.len(),
                r@.len() == i,
                forall|j: int| 0 <= j < i ==>
                    (#[trigger] r@[j])@ == self.entries()[j].id,
        {
            r.push(self.clients[i].client_id.clone());
        }
        r
    }

    /// Whether any subscriber is connected: the relay counts as reachable
    /// exactly while the registry is non-empty.
    pub fn check_connection(&self) -> (r: Result<(), RelayError>)
        ensures
            r is Ok <==> self.entries().len() > 0,
    {
        if self.clients.len() > 0 {
            Ok(())
        } else {
            Err(RelayError::ConnectionLost)
        }
    }
}

/// Whether a message is for the client registered under `id`: a targeted
/// message is for its target alone, an untargeted one for everybody.
pub open spec fn eligible(id: Seq<char>, m: LogMsgV) -> bool {
    match m.target_client_id {
        Some(t) => t == id,
        None => true,
    }
}

/// How one delivery pass changes the registry, entry by entry. Every entry
/// the message was not for is untouched. An entry the message was for either
/// accepted it — the message stands appended to that entry's delivery
/// sequence, and nothing else about the entry changed — or its receiver was
/// gone and the entry was reaped. Nobody was added, and the survivors keep
/// their relative order.
pub open spec fn broadcast_post(o: Seq<EntryV>, n: Seq<EntryV>, m: LogMsgV) -> bool {
    &&& entries_wf(n)
    &&& forall|id: Seq<char>| #[trigger] has_client(n, id) ==> has_client(o, id)
    &&& forall|id: Seq<char>| #[trigger] has_client(o, id) && !eligible(id, m) ==>
            has_client(n, id) && entry_of(n, id) == entry_of(o, id)
    &&& forall|id: Seq<char>| #[trigger] has_client(o, id) && eligible(id, m)
            && has_client(n, id) ==> entry_of(n, id) == with_delivery(entry_of(o, id), m)
    &&& forall|i: int, j: int| 0 <= i < j < n.len() ==>
            client_index(o, (#[trigger] n[i]).id) < client_index(o, (#[trigger] n[j]).id)
}

impl LoggingService {
    /// Deliver `log`. An internal message is dropped whole unless the
    /// log-everything mode is on; otherwise a targeted message goes to its
    /// target alone and an untargeted one to every subscriber, and every
    /// entry whose receiver is gone is reaped (see [`broadcast_post`]).
    /// Delivery is fire-and-forget: a failed send is not retried.
    pub fn broadcast_log(&mut self, log: LogMessage)
        requires
            old(self).wf(),
        ensures
            final(self).wf(),
            final(self).log_all() == old(self).log_all(),
            (!old(self).log_all() && spec_is_internal(log@)) ==>
                final(self).entries() == old(self).entries(),
            (old(self).log_all() || !spec_is_internal(log@)) ==>
                broadcast_post(old(self).entries(), final(self).entries(), log@),
    {
        if !self.log_all_messages && is_internal_message(&log) {
            return;
        }
        let ghost orig = self.entries();
        let ghost m = log@;
        let ghost mut kv: Seq<EntryV> = Seq::empty();
        let ghost mut k: int = 0;
        let mut kept: Vec<ClientEntry> = Vec::new();
        while self.clients.len() > 0
            invariant
                m == log@,
                entries_wf(orig),
                self.log_all_messages == old(self).log_all(),
                0 <= k <= orig.len(),
                self.entries() =~= orig.subrange(k, orig.len() as int),
                kv =~= kept@.map_values(|e: ClientEntry| e@),
                entries_wf(kv),
                forall|j: int| 0 <= j < kv.len() ==> {
                    let i = client_index(orig, (#[trigger] kv[j]).id);
                    &&& has_client(orig, kv[j].id)
                    &&& i < k
                    &&& kv[j] == (if eligible(orig[i].id, m) {
                        with_delivery(orig[i], m)
                    } else {
                        orig[i]
                    })
                },
                forall|a: int, b: int| 0 <= a < b < kv.len() ==>
                    client_index(orig, (#[trigger] kv[a]).id)
                        < client_index(orig, (#[trigger] kv[b]).id),
                forall|i: int| 0 <= i < k && !eligible((#[trigger] orig[i]).id, m) ==>
                    has_client(kv, orig[i].id),
            decreases self.clients.len(),
        {
            let ghost head = self.clients@;
            let ghost head_entries = self.entries();
            proof {
                assert(head_entries.len() == head.len());
                assert(head_entries[0] == head[0]@);
                assert(head_entries[0] == orig[k]);
            }
            let mut e = self.clients.remove(0);
            let ghost pre = e@;
            proof {
                assert(e == head[0]);
                assert(pre == orig[k]);
                assert forall|i: int| 0 <= i < self.entries().len() implies
                    self.entries()[i] == orig[k + 1 + i] by {
                    assert(self.clients@[i] == head[i + 1]);
                    assert(self.entries()[i] == self.clients@[i]@);
                    assert(head_entries[i + 1] == head[i + 1]@);
                }
                assert(self.entries() =~= orig.subrange(k + 1, orig.len() as int));
                // the id at position k is new to kv
                assert(!has_client(kv, pre.id)) by {
                    if has_client(kv, pre.id) {
                        let j = client_index(kv, pre.id);
                        let i = client_index(orig, kv[j].id);
                        assert(orig[i].id == orig[k].id);
                        assert(orig[i].id != orig[k].id);
                    }
                }
                lemma_client_index_unique(orig, pre.id, k);
            }
            let deliver = match &log.target_client_id {
                Some(t) => e.client_id == *t,
                None => true,
            };
            proof {
                assert(deliver == eligible(pre.id, m));
            }
            if deliver {
                match send_message(&e.sender, log.clone()) {
                    Ok(()) => {
                        e.delivered = Ghost(e.delivered@.push(m));
                        proof {
                            assert(e@ == with_delivery(pre, m));
                            lemma_push_keeps_clients(kv, e@);
                        }
                        kept.push(e);
                        proof {
                            kv = kv.push(with_delivery(pre, m));
                        }
                    },
                    Err(_) => {
                        // the receiver is gone: reap the entry
                    },
                }
            } else {
                proof {
                    lemma_push_keeps_clients(kv, pre);
                }
                kept.push(e);
                proof {
                    kv = kv.push(pre);
                }
            }
            proof {
                k = k + 1;
                assert forall|i: int| 0 <= i < k && !eligible((#[trigger] orig[i]).id, m)
                    implies has_client(kv, orig[i].id) by {
                    if i < k - 1 {
                        assert(has_client(kv, orig[i].id));
                    }
                }
            }
        }
        self.clients = kept;
        proof {
            assert(k == orig.len());
            let n = self.entries();
            assert(n =~= kv);
            assert forall|id: Seq<char>| #[trigger] has_client(n, id) implies
                has_client(orig, id) by {
                let j = client_index(n, id);
                assert(n[j].id == id);
            }
            assert forall|id: Seq<char>| #[trigger] has_client(orig, id) && !eligible(id, m)
                implies has_client(n, id) && entry_of(n, id) == entry_of(orig, id) by {
                let i = client_index(orig, id);
                assert(orig[i].id == id);
                assert(has_client(n, orig[i].id));
                let j = client_index(n, id);
                assert(n[j].id == id);
                let i2 = client_index(orig, n[j].id);
                lemma_client_index_unique(orig, id, i);
                assert(n[j] == orig[i]);
            }
            assert forall|id: Seq<char>| #[trigger] has_client(orig, id) && eligible(id, m)
                && has_client(n, id) implies
                entry_of(n, id) == with_delivery(entry_of(orig, id), m) by {
                let i = client_index(orig, id);
                lemma_client_index_unique(orig, id, i);
                let j = client_index(n, id);
                assert(n[j].id == id);
            }
        }
    }

    /// Deliver `log` straight to the client registered as `client_id`, if
    /// any, bypassing the noise filter: the caller has already chosen the
    /// recipient. A failed send is ignored and reaps nothing; everything
    /// else is untouched.
    pub fn broadcast_log_filtered(&mut self, log: LogMessage, client_id: String)
        requires
            old(self).wf(),
        ensures
            final(self).wf(),
            final(self).log_all() == old(self).log_all(),
            forall|id: Seq<char>| (#[trigger] has_client(final(self).entries(), id))
                == has_client(old(self).entries(), id),
            forall|id: Seq<char>| id != client_id@ && has_client(old(self).entries(), id) ==>
                (#[trigger] entry_of(final(self).entries(), id))
                    == entry_of(old(self).entries(), id),
            (has_client(old(self).entries(), client_id@) ==> {
                let before = entry_of(old(self).entries(), client_id@);
                let after = entry_of(final(self).entries(), client_id@);
                &&& (after == before || after == with_delivery(before, log@))
                &&& final(self).entries() =~= old(self).entries().update(
                    client_index(old(self).entries(), client_id@),
                    after,
                )
            }),
            (!has_client(old(self).entries(), client_id@) ==> final(self).entries()
                == old(self).entries()),
    {
        let ghost orig = self.entries();
        match self.find_index(&client_id) {
            Some(i) => {
                proof {
                    lemma_client_index_unique(orig, client_id@, i as int);
                }
                let mut e = self.clients.remove(i);
                let ghost pre = e@;
                let ghost pruned_vec = self.clients@;
                match send_message(&e.sender, log) {
                    Ok(()) => {
                        e.delivered = Ghost(e.delivered@.push(log@));
                        proof {
                            assert(e@ == with_delivery(pre, log@));
                        }
                    },
                    Err(_) => {},
                }
                self.clients.insert(i, e);
                proof {
                    assert(self.clients@ =~= pruned_vec.insert(i as int, e));
                    assert forall|j: int| 0 <= j < self.entries().len() implies
                        self.entries()[j] == orig.update(i as int, e@)[j] by {
                        if j < i {
                            assert(self.clients@[j] == pruned_vec[j]);
                        } else if j == i {
                            assert(self.clients@[j] == e);
                        } else {
                            assert(self.clients@[j] == pruned_vec[j - 1]);
                        }
                    }
                    assert(self.entries() =~= orig.update(i as int, e@));
                    lemma_update_keeps_clients(orig, i as int, e@);
                }
            },
            None => {
                proof {
                    assert(self.entries() =~= orig);
                }
            },
        }
    }
}

pub proof fn lemma_update_keeps_clients(s: Seq<EntryV>, i: int, e: EntryV)
    requires
        entries_wf(s),
        0 <= i < s.len(),
        e.id == s[i].id,
    ensures
        entries_wf(s.update(i, e)),
        has_client(s.update(i, e), e.id),
        entry_of(s.update(i, e), e.id) == e,
        forall|id: Seq<char>| id != e.id ==>
            (#[trigger] has_client(s.update(i, e), id)) == has_client(s, id),
        forall|id: Seq<char>| id != e.id && has_client(s, id) ==>
            (#[trigger] entry_of(s.update(i, e), id)) == entry_of(s, id),
{
    let t = s.update(i, e);
    assert forall|a: int, b: int| 0 <= a < b < t.len() implies
        (#[trigger] t[a]).id != (#[trigger] t[b]).id by {
        assert(s[a].id != s[b].id);
    }
    lemma_client_index_unique(t, e.id, i);
    assert forall|id: Seq<char>| id != e.id implies
        (#[trigger] has_client(t, id)) == has_client(s, id) by {
        if has_client(s, id) {
            let j = client_index(s, id);
            assert(t[j].id == id);
        }
        if has_client(t, id) {
            let j = client_index(t, id);
            assert(s[j].id == id);
        }
    }
    assert forall|id: Seq<char>| id != e.id && has_client(s, id) implies
        (#[trigger] entry_of(t, id)) == entry_of(s, id) by {
        let j = client_index(s, id);
        assert(t[j].id == id);
        lemma_client_index_unique(t, id, j);
    }
}

/// However registrations and removals are interleaved, a well-formed
/// registry never holds two entries — two channels — for one client id.
pub proof fn lemma_registry_unique_ids(s: Seq<EntryV>, i: int, j: int)
    requires
        entries_wf(s),
        0 <= i < s.len(),
        0 <= j < s.len(),
        i != j,
    ensures
        s[i].id != s[j].id,
{
}

/// A targeted message is observed only by the subscriber registered under
/// its target at broadcast time: every other entry is untouched, and the
/// target — if its channel accepted the message — holds exactly this message
/// appended to what it had.
pub proof fn lemma_targeted_delivery(o: Seq<EntryV>, n: Seq<EntryV>, m: LogMsgV, t: Seq<char>)
    requires
        broadcast_post(o, n, m),
        m.target_client_id == Some(t),
    ensures
        forall|id: Seq<char>| id != t && #[trigger] has_client(o, id) ==>
            has_client(n, id) && entry_of(n, id) == entry_of(o, id),
        forall|id: Seq<char>| id != t && #[trigger] has_client(n, id) ==> has_client(o, id),
        has_client(n, t) ==> has_client(o, t)
            && entry_of(n, t).delivered == entry_of(o, t).delivered.push(m),
{
    assert forall|id: Seq<char>| id != t && #[trigger] has_client(o, id) implies
        has_client(n, id) && entry_of(n, id) == entry_of(o, id) by {
        assert(!eligible(id, m));
    }
}

/// An untargeted message is observed by every subscriber registered at
/// broadcast time whose send succeeds — each surviving entry holds exactly
/// this message appended — and by no subscriber that was never registered.
pub proof fn lemma_broadcast_delivery(o: Seq<EntryV>, n: Seq<EntryV>, m: LogMsgV)
    requires
        broadcast_post(o, n, m),
        m.target_client_id is None,
    ensures
        forall|id: Seq<char>| #[trigger] has_client(n, id) ==> has_client(o, id)
            && entry_of(n, id).delivered == entry_of(o, id).delivered.push(m),
        forall|id: Seq<char>| !has_client(o, id) ==> !(#[trigger] has_client(n, id)),
{
    assert forall|id: Seq<char>| #[trigger] has_client(n, id) implies has_client(o, id)
        && entry_of(n, id).delivered == entry_of(o, id).delivered.push(m) by {
        assert(eligible(id, m));
    }
}

/// Delivery preserves emission order for each recipient: whatever a delivery
/// pass does, a subscriber present before and after it keeps everything it
/// had, in order — its old sequence is a prefix of its new one.
pub proof fn lemma_fifo_per_recipient(o: Seq<EntryV>, n: Seq<EntryV>, m: LogMsgV, id: Seq<char>)
    requires
        broadcast_post(o, n, m),
        has_client(o, id),
        has_client(n, id),
    ensures
        entry_of(o, id).delivered.is_prefix_of(entry_of(n, id).delivered),
{
    if eligible(id, m) {
        assert(entry_of(n, id).delivered == entry_of(o, id).delivered.push(m));
        assert(entry_of(o, id).delivered.is_prefix_of(entry_of(o, id).delivered.push(m)));
    }
}

impl Default for LoggingService {
    /// An empty registry, with the noise filter in force.
    fn default() -> (r: Self)
        ensures
            r.wf(),
            r.entries() =~= Seq::<EntryV>::empty(),
            r.log_all() == false,
    {
        LoggingService::new()
    }
}

/// What the relay reports when it cannot do its work.
pub enum RelayError {
    /// No subscriber is connected to the logging server.
    ConnectionLost,
}

pub proof fn lemma_remove_keeps_clients(s: Seq<EntryV>, i: int)
    requires
        entries_wf(s),
        0 <= i < s.len(),
    ensures
        entries_wf(s.remove(i)),
        !has_client(s.remove(i), s[i].id),
        forall|id: Seq<char>| id != s[i].id ==>
            (#[trigger] has_client(s.remove(i), id)) == has_client(s, id),
        forall|id: Seq<char>| id != s[i].id && has_client(s, id) ==>
            (#[trigger] entry_of(s.remove(i), id)) == entry_of(s, id),
{
    let t = s.remove(i);
    assert forall|a: int, b: int| 0 <= a < b < t.len() implies
        (#[trigger] t[a]).id != (#[trigger] t[b]).id by {
        let a0 = if a < i { a } else { a + 1 };
        let b0 = if b < i { b } else { b + 1 };
        assert(t[a] == s[a0]);
        assert(t[b] == s[b0]);
        assert(s[a0].id != s[b0].id);
    }
    if has_client(t, s[i].id) {
        let j = client_index(t, s[i].id);
        let j0 = if j < i { j } else { j + 1 };
        assert(t[j] == s[j0]);
        if j0 < i {
            assert(s[j0].id != s[i].id);
        } else {
            assert(s[i].id != s[j0].id);
        }
    }
    assert forall|id: Seq<char>| id != s[i].id implies
        (#[trigger] has_client(t, id)) == has_client(s, id) by {
        if has_client(s, id) {
            let j = client_index(s, id);
            let jt = if j < i { j } else { j - 1 };
            assert(t[jt] == s[j]);
            assert(has_client(t, id));
        }
        if has_client(t, id) {
            let j = client_index(t, id);
            let j0 = if j < i { j } else { j + 1 };
            assert(t[j] == s[j0]);
            assert(has_client(s, id));
        }
    }
    assert forall|id: Seq<char>| id != s[i].id && has_client(s, id) implies
        (#[trigger] entry_of(t, id)) == entry_of(s, id) by {
        let j = client_index(s, id);
        assert(s[j].id == id);
        let jt = if j < i { j } else { j - 1 };
        assert(t[jt] == s[j]);
        lemma_client_index_unique(t, id, jt);
    }
}

} // verus!
