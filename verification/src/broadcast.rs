//! BroadcastChannel API: simple message passing between browsing contexts
//! (tabs, windows, iframes) of the same origin.
use vstd::prelude::*;

use crate::text::str_eq;

verus! {

/// Unique identifier for a BroadcastChannel endpoint.
#[derive(Debug, Clone, Copy, PartialEq, Eq, Hash, Structural)]
pub struct ChannelEndpointId(u64);

impl ChannelEndpointId {
    /// The number behind this ID.
    pub closed spec fn value(&self) -> u64 {
        self.0
    }

    /// The raw number.
    pub fn raw(&self) -> (r: u64)
        ensures
            r == self.value(),
    {
        self.0
    }

    /// Create from a raw value.
    pub fn from_raw(id: u64) -> (r: Self)
        ensures
            r.value() == id,
    {
        ChannelEndpointId(id)
    }
}

/// A message sent through a broadcast channel.
#[derive(Debug, Clone)]
pub struct BroadcastMessage {
    /// The message data (structured clone, represented as a JSON string).
    pub data: String,
    /// The origin that sent the message.
    pub origin: String,
    /// The endpoint that sent this message.
    pub sender: ChannelEndpointId,
}

impl BroadcastMessage {
    /// A message with the given data, origin and sender.
    pub fn new(data: &str, origin: &str, sender: ChannelEndpointId) -> (m: Self)
        ensures
            m.data@ == data@,
            m.origin@ == origin@,
            m.sender == sender,
    {
        BroadcastMessage { data: data.to_owned(), origin: origin.to_owned(), sender }
    }

    fn copy(&self) -> (m: Self)
        ensures
            m == *self,
    {
        BroadcastMessage { data: self.data.clone(), origin: self.origin.clone(), sender: self.sender }
    }
}

/// A single BroadcastChannel endpoint.
#[derive(Debug)]
pub struct BroadcastChannel {
    /// Unique endpoint ID.
    pub id: ChannelEndpointId,
    /// Channel name.
    pub name: String,
    /// Origin of this endpoint.
    pub origin: String,
    /// Whether the channel is closed.
    pub closed: bool,
    /// Incoming message buffer.
    pub inbox: Vec<BroadcastMessage>,
}

impl BroadcastChannel {
    /// A new open endpoint with an empty inbox.
    pub fn new(id: ChannelEndpointId, name: &str, origin: &str) -> (c: Self)
        ensures
            c.id == id,
            c.name@ == name@,
            c.origin@ == origin@,
            !c.closed,
            c.inbox@.len() == 0,
    {
        BroadcastChannel { id, name: name.to_owned(), origin: origin.to_owned(), closed: false, inbox: Vec::new() }
    }

    /// Close the channel.
    pub fn close(&mut self)
        ensures
            final(self).closed,
            final(self).id == old(self).id,
            final(self).name == old(self).name,
            final(self).origin == old(self).origin,
            final(self).inbox == old(self).inbox,
    {
        self.closed = true;
    }

    /// Receive the oldest pending message.
    pub fn receive(&mut self) -> (r: Option<BroadcastMessage>)
        ensures
            old(self).inbox@.len() == 0 ==> r is None && final(self).inbox@ == old(self).inbox@,
            old(self).inbox@.len() > 0 ==> r == Some(old(self).inbox@[0]) && final(self).inbox@
                == old(self).inbox@.drop_first(),
            final(self).id == old(self).id,
            final(self).name == old(self).name,
            final(self).origin == old(self).origin,
            final(self).closed == old(self).closed,
    {
        if self.inbox.len() == 0 {
            None
        } else {
            let m = self.inbox.remove(0);
            assert(self.inbox@ =~= old(self).inbox@.drop_first());
            Some(m)
        }
    }

    /// Number of pending messages.
    pub fn pending_count(&self) -> (r: usize)
        ensures
            r == self.inbox@.len(),
    {
        self.inbox.len()
    }
}

/// Central hub that routes messages between BroadcastChannel endpoints.
#[derive(Debug)]
pub struct BroadcastHub {
    /// All endpoints in registration order.
    endpoints: Vec<BroadcastChannel>,
    /// The ID the next created channel gets.
    next_id: u64,
}

impl View for BroadcastHub {
    type V = Seq<BroadcastChannel>;

    closed spec fn view(&self) -> Seq<BroadcastChannel> {
        self.endpoints@
    }
}

/// Whether an endpoint with this ID is registered.
pub open spec fn has_endpoint(s: Seq<BroadcastChannel>, id: ChannelEndpointId) -> bool {
    exists|i: int| 0 <= i < s.len() && (#[trigger] s[i]).id == id
}

/// Endpoint IDs are pairwise different.
pub open spec fn endpoint_ids_unique(s: Seq<BroadcastChannel>) -> bool {
    forall|i: int, j: int| 0 <= i < s.len() && 0 <= j < s.len() && i != j ==> s[i].id != s[j].id
}

/// The set of channel names in use.
pub open spec fn channel_names(s: Seq<BroadcastChannel>) -> Set<Seq<char>> {
    s.map_values(|c: BroadcastChannel| c.name@).to_set()
}

/// Whether an endpoint receives a message posted by `sender`.
pub open spec fn receives(c: BroadcastChannel, sender: BroadcastChannel) -> bool {
    c.id != sender.id && !c.closed && c.name@ == sender.name@ && c.origin@ == sender.origin@
}

/// Number of endpoints in `s[..n]` that receive from `sender`.
pub open spec fn count_receivers(s: Seq<BroadcastChannel>, sender: BroadcastChannel, n: int) -> nat
    decreases n,
{
    if n <= 0 {
        0
    } else {
        count_receivers(s, sender, n - 1) + (if receives(s[n - 1], sender) { 1nat } else { 0nat })
    }
}

impl BroadcastHub {
    /// Endpoint IDs are unique and below the next ID to hand out.
    pub closed spec fn wf(&self) -> bool {
        &&& endpoint_ids_unique(self.endpoints@)
        &&& forall|i: int| 0 <= i < self.endpoints@.len() ==> (#[trigger] self.endpoints@[i]).id.value() < self.next_id
    }

    /// The ID the next created channel gets.
    pub closed spec fn next_id(&self) -> u64 {
        self.next_id
    }

    /// Whether another channel can still get a fresh ID.
    pub open spec fn can_allocate(&self) -> bool {
        self.next_id() < u64::MAX
    }

    /// A hub without endpoints.
    pub fn new() -> (h: Self)
        ensures
            h.wf(),
            h.can_allocate(),
            h.next_id() == 1,
            h@.len() == 0,
    {
        BroadcastHub { endpoints: Vec::new(), next_id: 1 }
    }

    fn index_of(&self, id: ChannelEndpointId) -> (r: Option<usize>)
        ensures
            r matches Some(i) ==> i < self@.len() && self@[i as int].id == id,
            r is None ==> !has_endpoint(self@, id),
    {
        let mut i: usize = 0;
        while i < self.endpoints.len()
            invariant
                i <= self.endpoints@.len(),
                forall|j: int| 0 <= j < i ==> self.endpoints@[j].id != id,
            decreases self.endpoints.len() - i,
        {
            if self.endpoints[i].id == id {
                return Some(i);
            }
            i += 1;
        }
        None
    }

    /// Register a channel endpoint; an endpoint already registered under the
    /// same ID is replaced in place.
    pub fn register(&mut self, channel: BroadcastChannel) -> (r: ChannelEndpointId)
        requires
            old(self).wf(),
            channel.id.value() < u64::MAX,
        ensures
            final(self).wf(),
            r == channel.id,
            final(self).next_id() == if channel.id.value() >= old(self).next_id() {
                (channel.id.value() + 1) as u64
            } else {
                old(self).next_id()
            },
            has_endpoint(old(self)@, channel.id) ==> exists|i: int|
                0 <= i < old(self)@.len() && old(self)@[i].id == channel.id && final(self)@ == old(self)@.update(i, channel),
            !has_endpoint(old(self)@, channel.id) ==> final(self)@ == old(self)@.push(channel),
    {
        let id = channel.id;
        if id.0 >= self.next_id {
            self.next_id = id.0 + 1;
        }
        match self.index_of(id) {
            Some(i) => {
                self.endpoints.set(i, channel);
            },
            None => {
                self.endpoints.push(channel);
            },
        }
        id
    }

    /// Create and register a new channel endpoint with a fresh ID.
    pub fn create_channel(&mut self, name: &str, origin: &str) -> (r: ChannelEndpointId)
        requires
            old(self).wf(),
            old(self).can_allocate(),
        ensures
            final(self).wf(),
            r.value() == old(self).next_id(),
            final(self).next_id() == old(self).next_id() + 1,
            !has_endpoint(old(self)@, r),
            final(self)@.len() == old(self)@.len() + 1,
            final(self)@.drop_last() == old(self)@,
            final(self)@.last().id == r,
            final(self)@.last().name@ == name@,
            final(self)@.last().origin@ == origin@,
            !final(self)@.last().closed,
            final(self)@.last().inbox@.len() == 0,
    {
        let id = ChannelEndpointId(self.next_id);
        assert(!has_endpoint(self@, id));
        self.next_id = self.next_id + 1;
        let chan = BroadcastChannel::new(id, name, origin);
        self.endpoints.push(chan);
        assert(self@.drop_last() =~= old(self)@);
        id
    }

    /// Post a message from an endpoint: it is delivered to every other open
    /// endpoint with the same name and origin. Returns the number of
    /// deliveries; a missing or closed sender delivers nothing.
    pub fn post_message(&mut self, sender_id: ChannelEndpointId, data: &str) -> (r: usize)
        requires
            old(self).wf(),
        ensures
            final(self).wf(),
            final(self).next_id() == old(self).next_id(),
            final(self)@.len() == old(self)@.len(),
            forall|i: int| 0 <= i < old(self)@.len() ==> same_endpoint(#[trigger] final(self)@[i], old(self)@[i]),
            match find_endpoint(old(self)@, sender_id) {
                Some(k) => if old(self)@[k].closed {
                    r == 0 && final(self)@ == old(self)@
                } else {
                    &&& r == count_receivers(old(self)@, old(self)@[k], old(self)@.len() as int)
                    &&& forall|i: int| 0 <= i < old(self)@.len() ==> (if receives(old(self)@[i], old(self)@[k]) {
                        delivered_to(#[trigger] final(self)@[i], old(self)@[i], data@, old(self)@[k].origin@, sender_id)
                    } else {
                        final(self)@[i].inbox@ == old(self)@[i].inbox@
                    })
                },
                None => r == 0 && final(self)@ == old(self)@,
            },
    {
        let k = match self.index_of(sender_id) {
            Some(k) => k,
            None => {
                proof { lemma_find_endpoint_none(self@, sender_id); }
                return 0;
            },
        };
        proof { lemma_find_endpoint(self@, sender_id, k as int); }
        if self.endpoints[k].closed {
            return 0;
        }
        let name = self.endpoints[k].name.clone();
        let origin = self.endpoints[k].origin.clone();
        let ghost sender = self@[k as int];
        let msg = BroadcastMessage { data: data.to_owned(), origin: origin.clone(), sender: sender_id };
        let ghost before = self@;
        let mut delivered: usize = 0;
        let mut i: usize = 0;
        while i < self.endpoints.len()
            invariant
                i <= self.endpoints@.len(),
                self@.len() == before.len(),
                self.next_id == old(self).next_id,
                old(self).wf(),
                old(self)@ == before,
                sender == before[k as int],
                sender.id == sender_id,
                k < before.len(),
                name@ == sender.name@,
                origin@ == sender.origin@,
                msg.data@ == data@,
                msg.origin@ == sender.origin@,
                msg.sender == sender_id,
                delivered == count_receivers(before, sender, i as int),
                delivered <= i,
                forall|j: int| 0 <= j < before.len() ==> same_endpoint(#[trigger] self@[j], before[j]),
                forall|j: int| i <= j < before.len() ==> (#[trigger] self@[j]).inbox == before[j].inbox,
                forall|j: int| 0 <= j < i ==> (if receives(before[j], sender) {
                    delivered_to(#[trigger] self@[j], before[j], data@, sender.origin@, sender_id)
                } else {
                    self@[j].inbox@ == before[j].inbox@
                }),
            decreases self.endpoints.len() - i,
        {
            let ep = &self.endpoints[i];
            let deliver = ep.id != sender_id && !ep.closed && str_eq(ep.name.as_str(), name.as_str()) && str_eq(
                ep.origin.as_str(),
                origin.as_str(),
            );
            assert(deliver == receives(before[i as int], sender));
            if deliver {
                let ghost prev = self.endpoints@;
                let ghost q = self.endpoints@[i as int].inbox@;
                self.endpoints[i].inbox.push(msg.copy());
                assert(self.endpoints@[i as int].inbox@ =~= q.push(msg));
                assert(forall|j: int| 0 <= j < prev.len() && j != i ==> self.endpoints@[j] == prev[j]);
                assert(self.endpoints@[i as int].inbox@.drop_last() =~= q);
                delivered += 1;
            }
            i += 1;
        }
        delivered
    }

    /// Close a specific endpoint.
    pub fn close(&mut self, id: ChannelEndpointId)
        requires
            old(self).wf(),
        ensures
            final(self).wf(),
            final(self).next_id() == old(self).next_id(),
            match find_endpoint(old(self)@, id) {
                Some(k) => final(self)@.len() == old(self)@.len() && final(self)@[k].closed
                    && same_except_closed(final(self)@[k], old(self)@[k])
                    && forall|j: int| 0 <= j < old(self)@.len() && j != k ==> final(self)@[j] == old(self)@[j],
                None => final(self)@ == old(self)@,
            },
    {
        match self.index_of(id) {
            Some(k) => {
                proof { lemma_find_endpoint(self@, id, k as int); }
                self.endpoints[k].close();
            },
            None => {
                proof { lemma_find_endpoint_none(self@, id); }
            },
        }
    }

    /// Remove closed endpoints from the hub, keeping the order of the rest.
    pub fn cleanup(&mut self)
        requires
            old(self).wf(),
        ensures
            final(self).wf(),
            final(self).next_id() == old(self).next_id(),
            final(self)@ == old(self)@.filter(|c: BroadcastChannel| !c.closed),
    {
        let ghost pred = |c: BroadcastChannel| !c.closed;
        let mut all: Vec<BroadcastChannel> = Vec::new();
        std::mem::swap(&mut all, &mut self.endpoints);
        let ghost allv = all@;
        let mut kept: Vec<BroadcastChannel> = Vec::new();
        let total = all.len();
        let mut n: usize = 0;
        while all.len() > 0
            invariant
                allv.len() == total,
                pred == (|c: BroadcastChannel| !c.closed),
                all@ == allv.skip(n as int),
                n <= allv.len(),
                kept@ == allv.take(n as int).filter(pred),
            decreases all.len(),
        {
            let ghost a0 = all@;
            let c = all.remove(0);
            assert(c == allv[n as int]) by {
                assert(allv.skip(n as int)[0] == allv[n as int]);
            }
            assert(all@ =~= allv.skip(n + 1));
            assert(allv.take(n + 1).drop_last() =~= allv.take(n as int));
            assert(allv.take(n + 1).last() == allv[n as int]);
            reveal_with_fuel(Seq::filter, 1);
            if !c.closed {
                kept.push(c);
            }
            n += 1;
        }
        assert(allv.take(allv.len() as int) =~= allv);
        assert(n == allv.len());
        self.endpoints = kept;
        proof { lemma_filter_unique(allv, pred, self.next_id); }
    }

    /// The endpoint with an ID.
    pub fn get(&self, id: ChannelEndpointId) -> (r: Option<&BroadcastChannel>)
        requires
            self.wf(),
        ensures
            match find_endpoint(self@, id) {
                Some(k) => r == Some(&self@[k]),
                None => r is None,
            },
    {
        match self.index_of(id) {
            Some(k) => {
                proof { lemma_find_endpoint(self@, id, k as int); }
                Some(&self.endpoints[k])
            },
            None => {
                proof { lemma_find_endpoint_none(self@, id); }
                None
            },
        }
    }

    /// A mutable endpoint with an ID; its ID must not be changed.
    pub fn get_mut(&mut self, id: ChannelEndpointId) -> (r: Option<&mut BroadcastChannel>)
        requires
            old(self).wf(),
        ensures
            final(self).next_id() == old(self).next_id(),
            match find_endpoint(old(self)@, id) {
                Some(k) => r is Some && *r->0 == old(self)@[k] && final(self)@ == old(self)@.update(k, *final(r->0)),
                None => r is None && final(self)@ == old(self)@,
            },
    {
        match self.index_of(id) {
            Some(k) => {
                proof { lemma_find_endpoint(self@, id, k as int); }
                Some(&mut self.endpoints[k])
            },
            None => {
                proof { lemma_find_endpoint_none(self@, id); }
                None
            },
        }
    }

    /// Number of distinct channel names.
    pub fn channel_count(&self) -> (r: usize)
        ensures
            r == channel_names(self@).len(),
    {
        let mut seen: Vec<String> = Vec::new();
        let mut i: usize = 0;
        while i < self.endpoints.len()
            invariant
                i <= self.endpoints@.len(),
                seen@.map_values(|s: String| s@).no_duplicates(),
                seen@.map_values(|s: String| s@).to_set() == channel_names(self.endpoints@.take(i as int)),
                seen@.len() <= i,
            decreases self.endpoints.len() - i,
        {
            let name = self.endpoints[i].name.as_str();
            let mut found = false;
            let mut j: usize = 0;
            while j < seen.len()
                invariant
                    j <= seen@.len(),
                    found == exists|m: int| 0 <= m < j && seen@[m]@ == name@,
                decreases seen.len() - j,
            {
                if str_eq(seen[j].as_str(), name) {
                    found = true;
                }
                j += 1;
            }
            let ghost sv = seen@.map_values(|s: String| s@);
            let ghost names_i = self.endpoints@.take(i as int).map_values(|c: BroadcastChannel| c.name@);
            assert(self.endpoints@.take(i + 1).map_values(|c: BroadcastChannel| c.name@) =~= names_i.push(name@));
            proof { names_i.lemma_push_to_set_commute(name@); }
            if !found {
                seen.push(name.to_owned());
                assert(seen@.map_values(|s: String| s@) =~= sv.push(name@));
                proof {
                    sv.lemma_push_to_set_commute(name@);
                    assert(!sv.contains(name@)) by {
                        if sv.contains(name@) {
                            let m = choose|m: int| 0 <= m < sv.len() && sv[m] == name@;
                            assert(seen@[m]@ == name@);
                        }
                    }
                }
            } else {
                proof {
                    let m = choose|m: int| 0 <= m < j && seen@[m]@ == name@;
                    assert(sv[m] == name@);
                    assert(sv.to_set().contains(name@));
                    assert(sv.to_set().insert(name@) =~= sv.to_set());
                }
            }
            i += 1;
        }
        assert(self.endpoints@.take(self.endpoints@.len() as int) =~= self.endpoints@);
        proof { seen@.map_values(|s: String| s@).unique_seq_to_set(); }
        seen.len()
    }

    /// Number of endpoints.
    pub fn endpoint_count(&self) -> (r: usize)
        ensures
            r == self@.len(),
    {
        self.endpoints.len()
    }
}

/// Everything but the inbox is unchanged.
pub open spec fn same_endpoint(c: BroadcastChannel, o: BroadcastChannel) -> bool {
    c.id == o.id && c.name == o.name && c.origin == o.origin && c.closed == o.closed
}

/// Everything but the closed flag is unchanged.
pub open spec fn same_except_closed(c: BroadcastChannel, o: BroadcastChannel) -> bool {
    c.id == o.id && c.name == o.name && c.origin == o.origin && c.inbox == o.inbox
}

/// `c` is `o` with one more message (data, origin, sender) in its inbox.
pub open spec fn delivered_to(
    c: BroadcastChannel,
    o: BroadcastChannel,
    data: Seq<char>,
    origin: Seq<char>,
    sender: ChannelEndpointId,
) -> bool {
    &&& c.inbox@.len() == o.inbox@.len() + 1
    &&& c.inbox@.drop_last() == o.inbox@
    &&& c.inbox@.last().data@ == data
    &&& c.inbox@.last().origin@ == origin
    &&& c.inbox@.last().sender == sender
}

/// The position of the endpoint with an ID.
pub open spec fn find_endpoint(s: Seq<BroadcastChannel>, id: ChannelEndpointId) -> Option<int> {
    if has_endpoint(s, id) {
        Some(choose|i: int| 0 <= i < s.len() && (#[trigger] s[i]).id == id)
    } else {
        None
    }
}

proof fn lemma_find_endpoint(s: Seq<BroadcastChannel>, id: ChannelEndpointId, k: int)
    requires
        endpoint_ids_unique(s),
        0 <= k < s.len(),
        s[k].id == id,
    ensures
        find_endpoint(s, id) == Some(k),
{
    assert(s[k].id == id);
    let c = choose|i: int| 0 <= i < s.len() && (#[trigger] s[i]).id == id;
    if c != k {
        assert(s[c].id != s[k].id);
    }
}

proof fn lemma_filter_unique(s: Seq<BroadcastChannel>, pred: spec_fn(BroadcastChannel) -> bool, bound: u64)
    requires
        endpoint_ids_unique(s),
        forall|i: int| 0 <= i < s.len() ==> (#[trigger] s[i]).id.value() < bound,
    ensures
        endpoint_ids_unique(s.filter(pred)),
        forall|i: int| 0 <= i < s.filter(pred).len() ==> (#[trigger] s.filter(pred)[i]).id.value() < bound,
        forall|i: int| 0 <= i < s.filter(pred).len() ==> exists|j: int| 0 <= j < s.len() && s[j] == #[trigger] s.filter(pred)[i],
    decreases s.len(),
{
    reveal_with_fuel(Seq::filter, 1);
    if s.len() > 0 {
        let d = s.drop_last();
        assert forall|i: int, j: int| 0 <= i < d.len() && 0 <= j < d.len() && i != j implies d[i].id != d[j].id by {
            assert(s[i].id != s[j].id);
        }
        assert forall|i: int| 0 <= i < d.len() implies (#[trigger] d[i]).id.value() < bound by {
            assert(d[i] == s[i]);
        }
        lemma_filter_unique(d, pred, bound);
        let fd = d.filter(pred);
        if pred(s.last()) {
            let f = fd.push(s.last());
            assert(s.filter(pred) == f);
            assert forall|i: int| 0 <= i < fd.len() implies fd[i].id != s.last().id by {
                let j = choose|j: int| 0 <= j < d.len() && d[j] == #[trigger] fd[i];
                assert(s[j].id != s[s.len() - 1].id);
            }
            assert forall|i: int| 0 <= i < f.len() implies exists|j: int| 0 <= j < s.len() && s[j] == #[trigger] f[i] by {
                if i < fd.len() {
                    let j = choose|j: int| 0 <= j < d.len() && d[j] == #[trigger] fd[i];
                    assert(s[j] == f[i]);
                } else {
                    assert(s[s.len() - 1] == f[i]);
                }
            }
        } else {
            assert(s.filter(pred) == fd);
            assert forall|i: int| 0 <= i < fd.len() implies exists|j: int| 0 <= j < s.len() && s[j] == #[trigger] fd[i] by {
                let j = choose|j: int| 0 <= j < d.len() && d[j] == #[trigger] fd[i];
                assert(s[j] == fd[i]);
            }
        }
    }
}

proof fn lemma_find_endpoint_none(s: Seq<BroadcastChannel>, id: ChannelEndpointId)
    requires
        !has_endpoint(s, id),
    ensures
        find_endpoint(s, id) is None,
{
}


/// A posted message never comes back to its sender, never reaches a closed
/// endpoint, and never crosses channel names or origins.
pub proof fn law_isolated_delivery(c: BroadcastChannel, sender: BroadcastChannel)
    ensures
        !receives(sender, sender),
        c.closed ==> !receives(c, sender),
        c.name@ != sender.name@ ==> !receives(c, sender),
        c.origin@ != sender.origin@ ==> !receives(c, sender),
{
}

/// The number of deliveries is at most the number of endpoints other than
/// the sender.
pub proof fn law_receivers_bounded(s: Seq<BroadcastChannel>, sender: BroadcastChannel, n: int)
    requires
        0 <= n <= s.len(),
    ensures
        count_receivers(s, sender, n) <= n,
    decreases n,
{
    if n > 0 {
        law_receivers_bounded(s, sender, n - 1);
    }
}

} // verus!
