//! Extension runtime messaging hub: a browser-side router for
//! extension-to-extension messages (direct or broadcast) with a FIFO inbox
//! per recipient.
use std::collections::VecDeque;
use vstd::prelude::*;

use crate::text::str_eq;

verus! {

/// Target for an extension runtime message.
#[derive(Debug, Clone, PartialEq, Eq)]
pub enum MessageTarget {
    /// Deliver to all registered extensions except the sender.
    Broadcast,
    /// Deliver to one specific extension ID.
    Extension(String),
}

/// A routed runtime message.
#[derive(Debug, Clone, PartialEq, Eq)]
pub struct RuntimeMessage {
    /// Sender extension ID.
    pub from_extension_id: String,
    /// Recipient extension ID.
    pub to_extension_id: Option<String>,
    /// Message payload (JSON string or opaque text).
    pub payload: String,
    /// Capture timestamp (unix epoch millis).
    pub unix_ms: u128,
}

/// The routed content of a message (everything but its timestamp).
pub struct MessageView {
    pub from: Seq<char>,
    pub to: Option<Seq<char>>,
    pub payload: Seq<char>,
}

/// The routed content of a message.
pub open spec fn message_view(m: RuntimeMessage) -> MessageView {
    MessageView {
        from: m.from_extension_id@,
        to: match m.to_extension_id {
            Some(t) => Some(t@),
            None => None,
        },
        payload: m.payload@,
    }
}

/// The current time in milliseconds since the Unix epoch (0 if the clock is
/// before the epoch).
#[verifier::external_body]
pub(crate) fn unix_millis_now() -> u128 {
    std::time::SystemTime::now().duration_since(std::time::UNIX_EPOCH).map(|d| d.as_millis()).unwrap_or(0)
}

impl RuntimeMessage {
    fn new(from_extension_id: &str, to_extension_id: Option<String>, payload: String) -> (m: Self)
        ensures
            m.from_extension_id@ == from_extension_id@,
            m.to_extension_id == to_extension_id,
            m.payload == payload,
    {
        RuntimeMessage {
            from_extension_id: from_extension_id.to_owned(),
            to_extension_id,
            payload,
            unix_ms: unix_millis_now(),
        }
    }
}

struct Inbox {
    id: String,
    queue: VecDeque<RuntimeMessage>,
}

/// Browser-side extension messaging router.
pub struct MessagingHub {
    inboxes: Vec<Inbox>,
}

impl View for MessagingHub {
    type V = Seq<(Seq<char>, Seq<MessageView>)>;

    closed spec fn view(&self) -> Seq<(Seq<char>, Seq<MessageView>)> {
        self.inboxes@.map_values(|b: Inbox| (b.id@, b.queue@.map_values(|m: RuntimeMessage| message_view(m))))
    }
}

/// The inboxes, in registration order, carry pairwise different IDs.
pub open spec fn ids_unique(s: Seq<(Seq<char>, Seq<MessageView>)>) -> bool {
    forall|i: int, j: int| 0 <= i < s.len() && 0 <= j < s.len() && i != j ==> s[i].0 != s[j].0
}

/// Whether an ID has an inbox.
pub open spec fn registered(s: Seq<(Seq<char>, Seq<MessageView>)>, id: Seq<char>) -> bool {
    exists|i: int| 0 <= i < s.len() && (#[trigger] s[i]).0 == id
}

/// The pending messages of an ID (empty if it has no inbox).
pub open spec fn pending(s: Seq<(Seq<char>, Seq<MessageView>)>, id: Seq<char>) -> Seq<MessageView> {
    if registered(s, id) {
        s[choose|i: int| 0 <= i < s.len() && (#[trigger] s[i]).0 == id].1
    } else {
        Seq::empty()
    }
}

/// The recipient a target names; `None` for a broadcast.
pub open spec fn target_id(t: MessageTarget) -> Option<Seq<char>> {
    match t {
        MessageTarget::Broadcast => None,
        MessageTarget::Extension(id) => Some(id@),
    }
}

/// What sending a message from `from` does to the inboxes (`old` before,
/// `new` after) and how many receive it (`r`): nothing from an
/// unregistered sender; a broadcast reaches every other inbox; a direct
/// message reaches a registered recipient other than the sender, and no
/// one otherwise.
pub open spec fn sent(
    old: Seq<(Seq<char>, Seq<MessageView>)>,
    from: Seq<char>,
    to: Option<Seq<char>>,
    payload: Seq<char>,
    new: Seq<(Seq<char>, Seq<MessageView>)>,
    r: usize,
) -> bool {
    &&& new.len() == old.len()
    &&& !registered(old, from) ==> r == 0 && new == old
    &&& registered(old, from) && to is None ==> {
        &&& r == old.len() - 1
        &&& forall|i: int| 0 <= i < old.len() ==> (#[trigger] new[i]).0 == old[i].0
            && new[i].1 == (if old[i].0 == from {
                old[i].1
            } else {
                old[i].1.push(MessageView { from, to: Some(old[i].0), payload })
            })
    }
    &&& to matches Some(t) ==> {
        if !registered(old, from) {
            true
        } else if t != from && registered(old, t) {
            &&& r == 1
            &&& forall|i: int| 0 <= i < old.len() ==> (#[trigger] new[i]).0 == old[i].0
                && new[i].1 == (if old[i].0 == t {
                    old[i].1.push(MessageView { from, to: Some(t), payload })
                } else {
                    old[i].1
                })
        } else {
            r == 0 && new == old
        }
    }
}

/// The abstract state of one inbox.
spec fn inbox_view(b: Inbox) -> (Seq<char>, Seq<MessageView>) {
    (b.id@, b.queue@.map_values(|m: RuntimeMessage| message_view(m)))
}

impl MessagingHub {
    proof fn lemma_view(&self)
        ensures
            self@.len() == self.inboxes@.len(),
            forall|i: int| 0 <= i < self.inboxes@.len() ==> #[trigger] self@[i] == inbox_view(self.inboxes@[i]),
    {
    }

    /// Inbox IDs are unique.
    pub closed spec fn wf(&self) -> bool {
        ids_unique(self@)
    }

    /// Create an empty messaging hub.
    pub fn new() -> (h: Self)
        ensures
            h.wf(),
            h@ == Seq::<(Seq<char>, Seq<MessageView>)>::empty(),
    {
        let h = MessagingHub { inboxes: Vec::new() };
        assert(h@ =~= Seq::<(Seq<char>, Seq<MessageView>)>::empty());
        h
    }

    fn index_of(&self, id: &str) -> (r: Option<usize>)
        ensures
            r matches Some(i) ==> i < self@.len() && self@[i as int].0 == id@,
            r is None ==> !registered(self@, id@),
    {
        let mut i: usize = 0;
        while i < self.inboxes.len()
            invariant
                i <= self.inboxes@.len(),
                forall|j: int| 0 <= j < i ==> self@[j].0 != id@,
            decreases self.inboxes.len() - i,
        {
            if str_eq(self.inboxes[i].id.as_str(), id) {
                return Some(i);
            }
            i += 1;
        }
        None
    }

    /// Register an extension inbox if it doesn't exist.
    pub fn register_extension(&mut self, extension_id: &str)
        requires
            old(self).wf(),
        ensures
            final(self).wf(),
            final(self)@ == (if registered(old(self)@, extension_id@) {
                old(self)@
            } else {
                old(self)@.push((extension_id@, Seq::<MessageView>::empty()))
            }),
    {
        if self.index_of(extension_id).is_some() {
            return;
        }
        let ghost before = self.inboxes@;
        let b = Inbox { id: extension_id.to_owned(), queue: VecDeque::new() };
        assert(inbox_view(b).1 =~= Seq::<MessageView>::empty());
        self.inboxes.push(b);
        proof { self.lemma_view(); old(self).lemma_view(); }
        assert(self@ =~= old(self)@.push((extension_id@, Seq::<MessageView>::empty())));
    }

    /// Remove an extension inbox and its pending messages.
    pub fn unregister_extension(&mut self, extension_id: &str)
        requires
            old(self).wf(),
        ensures
            final(self).wf(),
            !registered(final(self)@, extension_id@),
            forall|k: Seq<char>| k != extension_id@ ==> (registered(final(self)@, k) == registered(old(self)@, k)
                && pending(final(self)@, k) == pending(old(self)@, k)),
    {
        match self.index_of(extension_id) {
            None => {},
            Some(i) => {
                let ghost before = self@;
                self.inboxes.remove(i);
                assert(self@ =~= before.remove(i as int));
                assert forall|k: Seq<char>| k != extension_id@ implies (registered(self@, k) == registered(before, k)
                    && pending(self@, k) == pending(before, k)) by {
                    if registered(before, k) {
                        let a = choose|a: int| 0 <= a < before.len() && (#[trigger] before[a]).0 == k;
                        let b = if a < i { a } else { a - 1 };
                        assert(self@[b].0 == k);
                        let c = choose|c: int| 0 <= c < self@.len() && (#[trigger] self@[c]).0 == k;
                        let c2 = if c < i { c } else { c + 1 };
                        assert(before[c2].0 == k);
                    }
                    if registered(self@, k) {
                        let c = choose|c: int| 0 <= c < self@.len() && (#[trigger] self@[c]).0 == k;
                        let c2 = if c < i { c } else { c + 1 };
                        assert(before[c2].0 == k);
                    }
                }
                assert(!registered(self@, extension_id@)) by {
                    if registered(self@, extension_id@) {
                        let c = choose|c: int| 0 <= c < self@.len() && (#[trigger] self@[c]).0 == extension_id@;
                        let c2 = if c < i { c } else { c + 1 };
                        assert(before[c2].0 == extension_id@);
                    }
                }
            },
        }
    }

    /// Whether an extension is currently registered.
    pub fn is_registered(&self, extension_id: &str) -> (r: bool)
        ensures
            r == registered(self@, extension_id@),
    {
        self.index_of(extension_id).is_some()
    }

    /// Number of registered extension inboxes.
    pub fn registered_count(&self) -> (r: usize)
        ensures
            r == self@.len(),
    {
        self.inboxes.len()
    }

    /// Send a message from one extension to a target; returns the number of
    /// recipients that received it. An unregistered sender, a message to
    /// oneself and an unknown recipient deliver nothing.
    pub fn send_message(&mut self, from_extension_id: &str, target: MessageTarget, payload: String) -> (r: usize)
        requires
            old(self).wf(),
        ensures
            final(self).wf(),
            sent(old(self)@, from_extension_id@, target_id(target), payload@, final(self)@, r),
    {
        if self.index_of(from_extension_id).is_none() {
            return 0;
        }
        match target {
            MessageTarget::Broadcast => {
                let ghost before = self@;
                let mut delivered: usize = 0;
                let mut i: usize = 0;
                while i < self.inboxes.len()
                    invariant
                        i <= self.inboxes@.len(),
                        self@.len() == before.len(),
                        ids_unique(before),
                        registered(before, from_extension_id@),
                        forall|j: int| 0 <= j < before.len() ==> (#[trigger] self@[j]).0 == before[j].0,
                        forall|j: int| i <= j < before.len() ==> (#[trigger] self@[j]).1 == before[j].1,
                        forall|j: int| 0 <= j < i ==> (#[trigger] self@[j]).1 == (if before[j].0 == from_extension_id@ {
                            before[j].1
                        } else {
                            before[j].1.push(MessageView { from: from_extension_id@, to: Some(before[j].0), payload: payload@ })
                        }),
                        delivered == i - (if exists|j: int| 0 <= j < i && before[j].0 == from_extension_id@ { 1int } else { 0int }),
                    decreases self.inboxes.len() - i,
                {
                    proof { self.lemma_view(); }
                    if !str_eq(self.inboxes[i].id.as_str(), from_extension_id) {
                        let msg = RuntimeMessage::new(from_extension_id, Some(self.inboxes[i].id.clone()), payload.clone());
                        let ghost prev = self@;
                        let ghost prev_in = self.inboxes@;
                        let ghost q = self.inboxes@[i as int].queue@;
                        self.inboxes[i].queue.push_back(msg);
                        proof { self.lemma_view(); }
                        assert(self.inboxes@[i as int].queue@ =~= q.push(msg));
                        assert(self.inboxes@[i as int].id == prev_in[i as int].id);
                        assert(forall|j: int| 0 <= j < prev_in.len() && j != i ==> self.inboxes@[j] == prev_in[j]);
                        assert(self@[i as int].1 =~= prev[i as int].1.push(message_view(msg)));
                        assert forall|j: int| 0 <= j < prev.len() && j != i implies #[trigger] self@[j] == prev[j] by {
                            assert(self.inboxes@[j] == prev_in[j]);
                        }
                        assert(self@[i as int].0 == prev[i as int].0);
                        delivered += 1;
                        assert((exists|j: int| 0 <= j < i + 1 && before[j].0 == from_extension_id@) == (exists|j: int| 0 <= j < i && before[j].0 == from_extension_id@));
                    } else {
                        assert(self@[i as int].0 == self.inboxes@[i as int].id@);
                        assert(before[i as int].0 == from_extension_id@);
                        assert forall|j: int| 0 <= j < i implies before[j].0 != from_extension_id@ by {
                            assert(before[j].0 != before[i as int].0);
                        }
                    }
                    i += 1;
                }
                assert(exists|j: int| 0 <= j < before.len() && before[j].0 == from_extension_id@);
                delivered
            },
            MessageTarget::Extension(recipient) => {
                if str_eq(recipient.as_str(), from_extension_id) {
                    return 0;
                }
                match self.index_of(recipient.as_str()) {
                    None => 0,
                    Some(k) => {
                        let ghost before = self@;
                        let msg = RuntimeMessage::new(from_extension_id, Some(recipient), payload);
                        let ghost q = self.inboxes@[k as int].queue@;
                        let ghost prev_in = self.inboxes@;
                        proof { self.lemma_view(); }
                        self.inboxes[k].queue.push_back(msg);
                        proof { self.lemma_view(); }
                        assert(self.inboxes@[k as int].queue@ =~= q.push(msg));
                        assert(forall|j: int| 0 <= j < prev_in.len() && j != k ==> self.inboxes@[j] == prev_in[j]);
                        assert forall|i: int| 0 <= i < before.len() implies (#[trigger] self@[i]).0 == before[i].0
                            && self@[i].1 == (if before[i].0 == recipient@ {
                                before[i].1.push(MessageView { from: from_extension_id@, to: Some(recipient@), payload: payload@ })
                            } else {
                                before[i].1
                            }) by {
                            if i == k {
                                assert(self@[i].1 =~= before[i].1.push(message_view(msg)));
                            }
                        }
                        1
                    },
                }
            },
        }
    }

    /// Receive the next pending message for an extension.
    pub fn poll_message(&mut self, extension_id: &str) -> (r: Option<RuntimeMessage>)
        requires
            old(self).wf(),
        ensures
            final(self).wf(),
            pending(old(self)@, extension_id@).len() == 0 ==> r is None && final(self)@ == old(self)@,
            pending(old(self)@, extension_id@).len() > 0 ==> r is Some && message_view(r->0) == pending(
                old(self)@,
                extension_id@,
            )[0] && pending(final(self)@, extension_id@) == pending(old(self)@, extension_id@).drop_first(),
            forall|k: Seq<char>| registered(final(self)@, k) == registered(old(self)@, k),
            forall|k: Seq<char>| k != extension_id@ ==> pending(final(self)@, k) == pending(old(self)@, k),
    {
        match self.index_of(extension_id) {
            None => None,
            Some(i) => {
                proof { self.lemma_pending_at(i as int); }
                if self.inboxes[i].queue.len() == 0 {
                    return None;
                }
                let ghost before = self@;
                let ghost prev_in = self.inboxes@;
                proof { self.lemma_view(); }
                let ghost q = self.inboxes@[i as int].queue@;
                let m = self.inboxes[i].queue.pop_front().unwrap();
                proof { self.lemma_view(); }
                assert(self.inboxes@[i as int].queue@ =~= q.subrange(1, q.len() as int));
                assert(forall|j: int| 0 <= j < prev_in.len() && j != i ==> self.inboxes@[j] == prev_in[j]);
                assert(self@[i as int].1 =~= before[i as int].1.drop_first());
                assert(self@ =~= before.update(i as int, (before[i as int].0, before[i as int].1.drop_first())));
                proof {
                    self.lemma_pending_at(i as int);
                    assert forall|k: Seq<char>| registered(self@, k) == registered(before, k) by {
                        if registered(before, k) {
                            let a = choose|a: int| 0 <= a < before.len() && (#[trigger] before[a]).0 == k;
                            assert(self@[a].0 == k);
                        }
                        if registered(self@, k) {
                            let a = choose|a: int| 0 <= a < self@.len() && (#[trigger] self@[a]).0 == k;
                            assert(before[a].0 == k);
                        }
                    }
                    assert forall|k: Seq<char>| k != extension_id@ implies pending(self@, k) == pending(before, k) by {
                        if registered(before, k) {
                            let a = choose|a: int| 0 <= a < before.len() && (#[trigger] before[a]).0 == k;
                            lemma_pending_index(before, k, a);
                            assert(self@[a].0 == k);
                            lemma_pending_index(self@, k, a);
                        }
                    }
                }
                Some(m)
            },
        }
    }

    proof fn lemma_pending_at(&self, i: int)
        requires
            self.wf(),
            0 <= i < self@.len(),
        ensures
            pending(self@, self@[i].0) == self@[i].1,
    {
        lemma_pending_index(self@, self@[i].0, i);
    }

    /// Number of pending messages for an extension inbox.
    pub fn pending_count(&self, extension_id: &str) -> (r: usize)
        requires
            self.wf(),
        ensures
            r == pending(self@, extension_id@).len(),
    {
        match self.index_of(extension_id) {
            None => 0,
            Some(i) => {
                proof { self.lemma_pending_at(i as int); }
                self.inboxes[i].queue.len()
            },
        }
    }
}

/// With unique IDs, the pending messages of an ID are those of its inbox.
pub proof fn lemma_pending_index(s: Seq<(Seq<char>, Seq<MessageView>)>, k: Seq<char>, i: int)
    requires
        ids_unique(s),
        0 <= i < s.len(),
        s[i].0 == k,
    ensures
        registered(s, k),
        pending(s, k) == s[i].1,
{
    let c = choose|c: int| 0 <= c < s.len() && (#[trigger] s[c]).0 == k;
    assert(s[i].0 == k);
    if c != i {
        assert(s[c].0 == k);
    }
}

/// Messages queue in the order they are sent: a direct message from a
/// registered sender to another registered extension goes to the end of
/// that extension's pending messages, which `poll_message` hands out from
/// the front.
pub proof fn law_direct_messages_queue_in_order(
    old: Seq<(Seq<char>, Seq<MessageView>)>,
    from: Seq<char>,
    to: Seq<char>,
    payload: Seq<char>,
    new: Seq<(Seq<char>, Seq<MessageView>)>,
    r: usize,
)
    requires
        ids_unique(old),
        registered(old, from),
        registered(old, to),
        to != from,
        sent(old, from, Some(to), payload, new, r),
    ensures
        r == 1,
        ids_unique(new),
        pending(new, to) == pending(old, to).push(MessageView { from, to: Some(to), payload }),
        forall|k: Seq<char>| k != to ==> #[trigger] pending(new, k) == pending(old, k),
{
    assert forall|i: int, j: int| 0 <= i < new.len() && 0 <= j < new.len() && i != j implies new[i].0 != new[j].0 by {
        assert(new[i].0 == old[i].0 && new[j].0 == old[j].0);
    }
    let t = choose|i: int| 0 <= i < old.len() && (#[trigger] old[i]).0 == to;
    assert(new[t].0 == old[t].0);
    lemma_pending_index(old, to, t);
    lemma_pending_index(new, to, t);
    assert forall|k: Seq<char>| k != to implies #[trigger] pending(new, k) == pending(old, k) by {
        if registered(old, k) {
            let c = choose|i: int| 0 <= i < old.len() && (#[trigger] old[i]).0 == k;
            assert(new[c].0 == old[c].0);
            lemma_pending_index(old, k, c);
            lemma_pending_index(new, k, c);
        } else {
            if registered(new, k) {
                let c = choose|i: int| 0 <= i < new.len() && (#[trigger] new[i]).0 == k;
                assert(old[c].0 == new[c].0);
            }
        }
    }
}

/// Two direct messages to the same extension come out in the order they
/// were sent: after sending `p1` then `p2` from `from` to `to`, the pending
/// messages of `to` end with `p1` then `p2`; `poll_message` takes them from
/// the front, so an inbox that was empty gives `p1`, then `p2`, then
/// nothing.
pub proof fn law_messages_poll_in_send_order(
    old: Seq<(Seq<char>, Seq<MessageView>)>,
    from: Seq<char>,
    to: Seq<char>,
    p1: Seq<char>,
    p2: Seq<char>,
    mid: Seq<(Seq<char>, Seq<MessageView>)>,
    new: Seq<(Seq<char>, Seq<MessageView>)>,
    r1: usize,
    r2: usize,
)
    requires
        ids_unique(old),
        registered(old, from),
        registered(old, to),
        to != from,
        sent(old, from, Some(to), p1, mid, r1),
        sent(mid, from, Some(to), p2, new, r2),
    ensures
        pending(new, to) == pending(old, to).push(MessageView { from, to: Some(to), payload: p1 }).push(
            MessageView { from, to: Some(to), payload: p2 },
        ),
        pending(old, to).len() == 0 ==> pending(new, to)[0].payload == p1 && pending(new, to).drop_first()[0].payload
            == p2 && pending(new, to).drop_first().drop_first().len() == 0,
{
    law_direct_messages_queue_in_order(old, from, to, p1, mid, r1);
    let f = choose|i: int| 0 <= i < old.len() && (#[trigger] old[i]).0 == from;
    let t = choose|i: int| 0 <= i < old.len() && (#[trigger] old[i]).0 == to;
    assert(mid[f].0 == old[f].0);
    assert(mid[t].0 == old[t].0);
    law_direct_messages_queue_in_order(mid, from, to, p2, new, r2);
}

} // verus!
