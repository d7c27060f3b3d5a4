//! Message-passing IPC: fixed-layout messages, bounded two-way channels, and
//! the channel registry with the syscall-level entry points.

use vstd::prelude::*;
use std::collections::VecDeque;
use crate::error::IpcError;

verus! {

/// Maximum number of queued messages per direction of a channel.
pub const MAX_QUEUE_SIZE: usize = 1000;

/// Maximum payload of one message, in bytes.
pub const MAX_MESSAGE_SIZE: usize = 256;

/// Upper bound on channel ids, so that an id always fits in the
/// non-negative range of a 64-bit syscall return value.
pub const MAX_CHANNEL_ID: u64 = 0x7FFF_FFFF_FFFF_FFFF;

/// The payload length a message keeps: the given length, truncated to the
/// fixed layout's capacity.
pub open spec fn spec_payload_len(n: nat) -> nat {
    if n <= MAX_MESSAGE_SIZE { n } else { MAX_MESSAGE_SIZE as nat }
}

/// A fixed-layout IPC message.
#[derive(Debug, Clone, PartialEq)]
pub struct Message {
    /// Pid of the sender.
    pub sender_pid: u64,
    /// Application-defined message type.
    pub msg_type: u32,
    /// Payload, at most `MAX_MESSAGE_SIZE` bytes.
    pub data: Vec<u8>,
    /// Length of the payload.
    pub data_len: usize,
}

/// What a freshly built message holds, as a function of the sender, the type
/// and the offered bytes: the payload is the offered bytes truncated to the
/// capacity.
pub open spec fn spec_message_of(m: Message, sender_pid: u64, msg_type: u32, data: Seq<u8>) -> bool {
    &&& m.sender_pid == sender_pid
    &&& m.msg_type == msg_type
    &&& m.data_len == spec_payload_len(data.len())
    &&& m.data@ == data.take(spec_payload_len(data.len()) as int)
}

impl Message {
    /// The length field agrees with the payload, which fits the layout.
    pub open spec fn wf(self) -> bool {
        &&& self.data_len == self.data@.len()
        &&& self.data_len <= MAX_MESSAGE_SIZE
    }

    /// Build a message, truncating the payload to `MAX_MESSAGE_SIZE` bytes.
    pub fn new(sender_pid: u64, msg_type: u32, data: &[u8]) -> (m: Message)
        ensures
            m.wf(),
            spec_message_of(m, sender_pid, msg_type, data@),
    {
        let n = data.len();
        let len = if n < MAX_MESSAGE_SIZE { n } else { MAX_MESSAGE_SIZE };
        let mut buf: Vec<u8> = Vec::new();
        let mut i: usize = 0;
        while i < len
            invariant
                i <= len,
                len <= data@.len(),
                len == spec_payload_len(data@.len()),
                buf@ == data@.take(i as int),
            decreases len - i,
        {
            buf.push(data[i]);
            proof {
                assert(buf@ =~= data@.take(i + 1));
            }
            i = i + 1;
        }
        Message { sender_pid, msg_type, data: buf, data_len: len }
    }

    /// The payload as a slice.
    pub fn data(&self) -> (r: &[u8])
        ensures
            r@ == self.data@,
    {
        self.data.as_slice()
    }
}

/// A bidirectional IPC channel between two processes, with one bounded FIFO
/// queue per direction.
#[derive(Debug)]
pub struct Channel {
    /// Channel id.
    pub id: u64,
    /// First endpoint pid.
    pub endpoint1: u64,
    /// Second endpoint pid.
    pub endpoint2: u64,
    /// Messages travelling from `endpoint1` toward `endpoint2`.
    pub queue1_to_2: VecDeque<Message>,
    /// Messages travelling from `endpoint2` toward `endpoint1`.
    pub queue2_to_1: VecDeque<Message>,
}

impl Channel {
    /// Both queues respect the bound and hold well-formed messages, and the
    /// endpoints differ.
    pub open spec fn wf(self) -> bool {
        &&& self.endpoint1 != self.endpoint2
        &&& self.queue1_to_2@.len() <= MAX_QUEUE_SIZE
        &&& self.queue2_to_1@.len() <= MAX_QUEUE_SIZE
        &&& forall|i: int| 0 <= i < self.queue1_to_2@.len() ==> (#[trigger] self.queue1_to_2@[i]).wf()
        &&& forall|i: int| 0 <= i < self.queue2_to_1@.len() ==> (#[trigger] self.queue2_to_1@[i]).wf()
    }

    /// The queue of messages waiting for `pid` to receive them.
    pub open spec fn spec_inbox(self, pid: u64) -> Seq<Message> {
        if pid == self.endpoint1 {
            self.queue2_to_1@
        } else {
            self.queue1_to_2@
        }
    }

    /// A fresh channel with empty queues.
    pub fn new(id: u64, pid1: u64, pid2: u64) -> (c: Channel)
        requires
            pid1 != pid2,
        ensures
            c.wf(),
            c.id == id,
            c.endpoint1 == pid1,
            c.endpoint2 == pid2,
            c.queue1_to_2@.len() == 0,
            c.queue2_to_1@.len() == 0,
    {
        Channel {
            id,
            endpoint1: pid1,
            endpoint2: pid2,
            queue1_to_2: VecDeque::new(),
            queue2_to_1: VecDeque::new(),
        }
    }

    /// Queue a message from `sender_pid` toward the opposite endpoint.
    /// Succeeds exactly when the sender is an endpoint and the receiving
    /// queue has room; a full queue reports `ChannelFull`, a stranger
    /// `InvalidSender`.
    pub fn send(&mut self, sender_pid: u64, message: Message) -> (r: Result<(), IpcError>)
        requires
            old(self).wf(),
            message.wf(),
        ensures
            final(self).wf(),
            final(self).id == old(self).id,
            final(self).endpoint1 == old(self).endpoint1,
            final(self).endpoint2 == old(self).endpoint2,
            ({
                if sender_pid == old(self).endpoint1 {
                    if old(self).queue1_to_2@.len() < MAX_QUEUE_SIZE {
                        &&& r == Ok::<(), IpcError>(())
                        &&& final(self).queue1_to_2@ == old(self).queue1_to_2@.push(message)
                        &&& final(self).queue2_to_1@ == old(self).queue2_to_1@
                    } else {
                        &&& r == Err::<(), IpcError>(IpcError::ChannelFull)
                        &&& *final(self) == *old(self)
                    }
                } else if sender_pid == old(self).endpoint2 {
                    if old(self).queue2_to_1@.len() < MAX_QUEUE_SIZE {
                        &&& r == Ok::<(), IpcError>(())
                        &&& final(self).queue2_to_1@ == old(self).queue2_to_1@.push(message)
                        &&& final(self).queue1_to_2@ == old(self).queue1_to_2@
                    } else {
                        &&& r == Err::<(), IpcError>(IpcError::ChannelFull)
                        &&& *final(self) == *old(self)
                    }
                } else {
                    &&& r == Err::<(), IpcError>(IpcError::InvalidSender)
                    &&& *final(self) == *old(self)
                }
            }),
    {
        if sender_pid == self.endpoint1 {
            if self.queue1_to_2.len() >= MAX_QUEUE_SIZE {
                return Err(IpcError::ChannelFull);
            }
            self.queue1_to_2.push_back(message);
            Ok(())
        } else if sender_pid == self.endpoint2 {
            if self.queue2_to_1.len() >= MAX_QUEUE_SIZE {
                return Err(IpcError::ChannelFull);
            }
            self.queue2_to_1.push_back(message);
            Ok(())
        } else {
            Err(IpcError::InvalidSender)
        }
    }

    /// Take the oldest message queued toward `receiver_pid`, if any.  A pid
    /// that is no endpoint receives nothing.
    pub fn receive(&mut self, receiver_pid: u64) -> (r: Option<Message>)
        requires
            old(self).wf(),
        ensures
            final(self).wf(),
            final(self).id == old(self).id,
            final(self).endpoint1 == old(self).endpoint1,
            final(self).endpoint2 == old(self).endpoint2,
            ({
                if old(self).spec_has_endpoint(receiver_pid) {
                    if old(self).spec_inbox(receiver_pid).len() > 0 {
                        &&& r == Some(old(self).spec_inbox(receiver_pid).first())
                        &&& final(self).spec_inbox(receiver_pid)
                            == old(self).spec_inbox(receiver_pid).drop_first()
                        &&& final(self).spec_inbox(old(self).spec_other_endpoint(receiver_pid))
                            == old(self).spec_inbox(old(self).spec_other_endpoint(receiver_pid))
                    } else {
                        &&& r is None
                        &&& final(self).queue1_to_2@ == old(self).queue1_to_2@
                        &&& final(self).queue2_to_1@ == old(self).queue2_to_1@
                    }
                } else {
                    &&& r is None
                    &&& *final(self) == *old(self)
                }
            }),
    {
        if receiver_pid == self.endpoint1 {
            let r = self.queue2_to_1.pop_front();
            proof {
                if old(self).queue2_to_1@.len() > 0 {
                    assert(self.queue2_to_1@ =~= old(self).queue2_to_1@.drop_first());
                }
            }
            r
        } else if receiver_pid == self.endpoint2 {
            let r = self.queue1_to_2.pop_front();
            proof {
                if old(self).queue1_to_2@.len() > 0 {
                    assert(self.queue1_to_2@ =~= old(self).queue1_to_2@.drop_first());
                }
            }
            r
        } else {
            None
        }
    }

    /// Whether `pid` is one of the two endpoints.
    pub open spec fn spec_has_endpoint(self, pid: u64) -> bool {
        pid == self.endpoint1 || pid == self.endpoint2
    }

    /// The endpoint opposite to `pid` (meaningful when `pid` is an endpoint).
    pub open spec fn spec_other_endpoint(self, pid: u64) -> u64 {
        if pid == self.endpoint1 {
            self.endpoint2
        } else {
            self.endpoint1
        }
    }

    /// Whether `pid` is one of the two endpoints.
    pub fn has_endpoint(&self, pid: u64) -> (r: bool)
        ensures
            r == self.spec_has_endpoint(pid),
    {
        pid == self.endpoint1 || pid == self.endpoint2
    }
}

/// Whether some channel in `s` carries id `id`.
pub open spec fn spec_has_channel(s: Seq<Channel>, id: u64) -> bool {
    exists|i: int| 0 <= i < s.len() && (#[trigger] s[i]).id == id
}

/// The ids of the channels in `s` that have `pid` as an endpoint, in
/// registry order.
pub open spec fn spec_channel_ids_for(s: Seq<Channel>, pid: u64) -> Seq<u64> {
    s.filter(|c: Channel| c.spec_has_endpoint(pid)).map_values(|c: Channel| c.id)
}

/// The index of the channel carrying `id` (unique under
/// `ChannelRegistry::wf`).
pub open spec fn spec_index_of_channel(s: Seq<Channel>, id: u64) -> int {
    choose|i: int| 0 <= i < s.len() && (#[trigger] s[i]).id == id
}

/// The registry of all channels.
pub struct ChannelRegistry {
    /// All live channels.
    pub channels: Vec<Channel>,
    /// Next channel id to allocate; ids start at 1.
    pub next_id: u64,
}

impl ChannelRegistry {
    /// Every channel is well formed, ids are unique and below `next_id`.
    pub open spec fn wf(self) -> bool {
        &&& forall|i: int| 0 <= i < self.channels@.len() ==> (#[trigger] self.channels@[i]).wf()
        &&& forall|i: int, j: int|
                0 <= i < j < self.channels@.len()
                ==> self.channels@[i].id != self.channels@[j].id
        &&& forall|i: int| 0 <= i < self.channels@.len()
                ==> (#[trigger] self.channels@[i]).id < self.next_id
        &&& 1 <= self.next_id <= MAX_CHANNEL_ID
    }

    /// An empty registry; the first id to allocate is 1.
    pub fn new() -> (r: ChannelRegistry)
        ensures
            r.wf(),
            r.channels@.len() == 0,
            r.next_id == 1,
    {
        ChannelRegistry { channels: Vec::new(), next_id: 1 }
    }

    /// In a registry with unique ids, the chosen index of an id is the index
    /// where it stands.
    pub proof fn lemma_index_of_channel(s: Seq<Channel>, id: u64, i: int)
        requires
            forall|a: int, b: int| 0 <= a < b < s.len() ==> s[a].id != s[b].id,
            0 <= i < s.len(),
            s[i].id == id,
        ensures
            spec_has_channel(s, id),
            spec_index_of_channel(s, id) == i,
    {
        assert(spec_has_channel(s, id));
        let j = spec_index_of_channel(s, id);
        if j < i {
            assert(s[j].id != s[i].id);
        }
        if i < j {
            assert(s[i].id != s[j].id);
        }
    }

    /// Law: every direction queue of every channel in a well-formed registry
    /// holds at most `MAX_QUEUE_SIZE` messages.
    pub proof fn lemma_queue_bounds(self, i: int)
        requires
            self.wf(),
            0 <= i < self.channels@.len(),
        ensures
            self.channels@[i].queue1_to_2@.len() <= MAX_QUEUE_SIZE,
            self.channels@[i].queue2_to_1@.len() <= MAX_QUEUE_SIZE,
    {
    }

    /// Append a fresh channel between two distinct processes and return its
    /// id.  Fails only when the id space is exhausted.
    pub fn create_channel(&mut self, pid1: u64, pid2: u64) -> (r: Result<u64, IpcError>)
        requires
            old(self).wf(),
            pid1 != pid2,
        ensures
            final(self).wf(),
            ({
                if old(self).next_id < MAX_CHANNEL_ID {
                    exists|c: Channel|
                        {
                            &&& #[trigger] c.id == old(self).next_id
                            &&& c.endpoint1 == pid1
                            &&& c.endpoint2 == pid2
                            &&& c.queue1_to_2@.len() == 0
                            &&& c.queue2_to_1@.len() == 0
                            &&& r == Ok::<u64, IpcError>(old(self).next_id)
                            &&& final(self).channels@ == old(self).channels@.push(c)
                            &&& final(self).next_id == old(self).next_id + 1
                        }
                } else {
                    &&& r == Err::<u64, IpcError>(IpcError::InvalidChannelId)
                    &&& *final(self) == *old(self)
                }
            }),
    {
        if self.next_id >= MAX_CHANNEL_ID {
            return Err(IpcError::InvalidChannelId);
        }
        let channel_id = self.next_id;
        self.next_id = self.next_id + 1;
        let channel = Channel::new(channel_id, pid1, pid2);
        let ghost c = channel;
        self.channels.push(channel);
        proof {
            assert(c.id == channel_id);
            assert forall|i: int| 0 <= i < self.channels@.len()
                implies (#[trigger] self.channels@[i]).id < self.next_id by {
                if i < old(self).channels@.len() {
                    assert(self.channels@[i] == old(self).channels@[i]);
                }
            }
        }
        Ok(channel_id)
    }

    /// Find the position of a channel id.
    pub fn find_channel(&self, channel_id: u64) -> (r: Option<usize>)
        ensures
            match r {
                Some(i) => i < self.channels@.len() && self.channels@[i as int].id == channel_id,
                None => !spec_has_channel(self.channels@, channel_id),
            },
    {
        let n = self.channels.len();
        let mut i: usize = 0;
        while i < n
            invariant
                i <= n,
                n == self.channels@.len(),
                forall|j: int| 0 <= j < i ==> (#[trigger] self.channels@[j]).id != channel_id,
            decreases n - i,
        {
            if self.channels[i].id == channel_id {
                return Some(i);
            }
            i = i + 1;
        }
        None
    }

    /// Borrow the channel with the given id.
    pub fn get_channel(&self, channel_id: u64) -> (r: Option<&Channel>)
        requires
            self.wf(),
        ensures
            match r {
                Some(c) => {
                    &&& spec_has_channel(self.channels@, channel_id)
                    &&& *c == self.channels@[spec_index_of_channel(self.channels@, channel_id)]
                    &&& c.id == channel_id
                },
                None => !spec_has_channel(self.channels@, channel_id),
            },
    {
        match self.find_channel(channel_id) {
            Some(i) => {
                proof {
                    Self::lemma_index_of_channel(self.channels@, channel_id, i as int);
                }
                Some(&self.channels[i])
            },
            None => None,
        }
    }

    /// The ids of all channels that have `pid` as an endpoint, exactly the
    /// matching entries in registry order.
    pub fn get_channels_for_process(&self, pid: u64) -> (r: Vec<u64>)
        ensures
            r@ == spec_channel_ids_for(self.channels@, pid),
    {
        let ghost s = self.channels@;
        let n = self.channels.len();
        let mut out: Vec<u64> = Vec::new();
        let mut i: usize = 0;
        proof {
            reveal(Seq::filter);
            assert(out@ =~= spec_channel_ids_for(s.take(0int), pid));
        }
        while i < n
            invariant
                i <= n,
                n == s.len(),
                s == self.channels@,
                out@ == spec_channel_ids_for(s.take(i as int), pid),
            decreases n - i,
        {
            if self.channels[i].has_endpoint(pid) {
                let id = self.channels[i].id;
                out.push(id);
            }
            proof {
                reveal(Seq::filter);
                assert(s.take(i + 1).drop_last() =~= s.take(i as int));
                assert(s.take(i + 1).last() == s[i as int]);
                assert(out@ =~= spec_channel_ids_for(s.take(i + 1), pid));
            }
            i = i + 1;
        }
        proof {
            assert(s.take(n as int) =~= s);
        }
        out
    }

    /// Remove every channel that has `pid` as an endpoint, called when the
    /// process exits.
    pub fn cleanup_process_channels(&mut self, pid: u64)
        requires
            old(self).wf(),
        ensures
            final(self).wf(),
            final(self).next_id == old(self).next_id,
            final(self).channels@ == old(self).channels@.filter(
                |c: Channel| !c.spec_has_endpoint(pid)),
    {
        let ghost s0 = old(self).channels@;
        let ghost pred = |c: Channel| !c.spec_has_endpoint(pid);
        let mut out: Vec<Channel> = Vec::new();
        proof {
            assert(s0.take(0int).filter(pred) =~= Seq::<Channel>::empty());
        }
        while self.channels.len() > 0
            invariant
                self.next_id == old(self).next_id,
                self.channels@.len() <= s0.len(),
                self.channels@ == s0.skip(s0.len() - self.channels@.len()),
                out@ == s0.take(s0.len() - self.channels@.len()).filter(pred),
                pred == (|c: Channel| !c.spec_has_endpoint(pid)),
            decreases self.channels@.len(),
        {
            let ghost k = s0.len() - self.channels@.len();
            let c = self.channels.remove(0);
            proof {
                reveal(Seq::filter);
                assert(c == s0[k as int]);
                assert(self.channels@ =~= s0.skip(k + 1));
                assert(s0.take(k + 1).drop_last() =~= s0.take(k as int));
                assert(s0.take(k + 1).last() == s0[k as int]);
            }
            if !c.has_endpoint(pid) {
                out.push(c);
            }
            proof {
                reveal(Seq::filter);
                assert(out@ == s0.take(k + 1).filter(pred));
            }
        }
        proof {
            assert(s0.take(s0.len() as int) =~= s0);
        }
        self.channels = out;
        proof {
            let sf = self.channels@;
            assert(sf == s0.filter(pred));
            assert forall|i: int| 0 <= i < sf.len() implies (#[trigger] sf[i]).wf()
                && sf[i].id < self.next_id by {
                let w = Self::lemma_filter_element_from_source(s0, pred, i);
                assert(s0[w].wf());
                assert(s0[w].id < old(self).next_id);
            }
            Self::lemma_filter_distinct_ids(s0, pred);
        }
    }

    /// Every element of a filtered sequence stands somewhere in the source;
    /// the returned value is such a source index.
    proof fn lemma_filter_element_from_source(
        s: Seq<Channel>,
        pred: spec_fn(Channel) -> bool,
        i: int,
    ) -> (w: int)
        requires
            0 <= i < s.filter(pred).len(),
        ensures
            0 <= w < s.len(),
            s[w] == s.filter(pred)[i],
        decreases s.len(),
    {
        reveal(Seq::filter);
        if s.len() > 0 {
            let d = s.drop_last();
            let df = d.filter(pred);
            if i < df.len() {
                let w = Self::lemma_filter_element_from_source(d, pred, i);
                assert(s[w] == d[w]);
                assert(s.filter(pred)[i] == df[i]);
                w
            } else {
                assert(pred(s.last()));
                assert(s.filter(pred)[i] == s.last());
                s.len() - 1
            }
        } else {
            0
        }
    }

    /// A filtered sequence of channels with pairwise distinct ids keeps its
    /// ids pairwise distinct.
    proof fn lemma_filter_distinct_ids(s: Seq<Channel>, pred: spec_fn(Channel) -> bool)
        requires
            forall|a: int, b: int| 0 <= a < b < s.len() ==> s[a].id != s[b].id,
        ensures
            forall|a: int, b: int|
                0 <= a < b < s.filter(pred).len()
                ==> s.filter(pred)[a].id != s.filter(pred)[b].id,
        decreases s.len(),
    {
        reveal(Seq::filter);
        if s.len() > 0 {
            let d = s.drop_last();
            assert forall|a: int, b: int| 0 <= a < b < d.len()
                implies d[a].id != d[b].id by {
                assert(d[a] == s[a]);
                assert(d[b] == s[b]);
            }
            Self::lemma_filter_distinct_ids(d, pred);
            let df = d.filter(pred);
            let sf = s.filter(pred);
            if pred(s.last()) {
                assert(sf == df.push(s.last()));
                assert forall|a: int, b: int| 0 <= a < b < sf.len()
                    implies sf[a].id != sf[b].id by {
                    if b < df.len() {
                        assert(sf[a] == df[a]);
                        assert(sf[b] == df[b]);
                    } else {
                        assert(sf[b] == s.last());
                        assert(sf[a] == df[a]);
                        let w = Self::lemma_filter_element_from_source(d, pred, a);
                        assert(s[w] == d[w]);
                        assert(s[w].id != s[s.len() - 1].id);
                    }
                }
            } else {
                assert(sf == df);
            }
        }
    }
}


/// Create a channel between the calling process and `target_pid`.  A channel
/// to oneself is refused with `CircularTransfer`; otherwise a fresh channel
/// with empty queues is appended and its id returned.
pub fn create_channel(registry: &mut ChannelRegistry, current_pid: u64, target_pid: u64)
    -> (r: Result<u64, IpcError>)
    requires
        old(registry).wf(),
    ensures
        final(registry).wf(),
        ({
            if current_pid == target_pid {
                &&& r == Err::<u64, IpcError>(IpcError::CircularTransfer)
                &&& *final(registry) == *old(registry)
            } else if old(registry).next_id < MAX_CHANNEL_ID {
                exists|c: Channel|
                    {
                        &&& #[trigger] c.id == old(registry).next_id
                        &&& c.endpoint1 == current_pid
                        &&& c.endpoint2 == target_pid
                        &&& c.queue1_to_2@.len() == 0
                        &&& c.queue2_to_1@.len() == 0
                        &&& r == Ok::<u64, IpcError>(old(registry).next_id)
                        &&& final(registry).channels@ == old(registry).channels@.push(c)
                        &&& final(registry).next_id == old(registry).next_id + 1
                    }
            } else {
                &&& r == Err::<u64, IpcError>(IpcError::InvalidChannelId)
                &&& *final(registry) == *old(registry)
            }
        }),
{
    if current_pid == target_pid {
        return Err(IpcError::CircularTransfer);
    }
    registry.create_channel(current_pid, target_pid)
}

/// Send a message from the calling process over a channel.  The payload is
/// truncated to `MAX_MESSAGE_SIZE` bytes; an unknown channel reports
/// `ChannelNotFound`, a caller that is no endpoint `InvalidSender`, and a
/// full direction queue `ChannelFull`.
pub fn send_message(
    registry: &mut ChannelRegistry,
    current_pid: u64,
    channel_id: u64,
    msg_type: u32,
    data: &[u8],
) -> (r: Result<(), IpcError>)
    requires
        old(registry).wf(),
    ensures
        final(registry).wf(),
        final(registry).next_id == old(registry).next_id,
        ({
            let s0 = old(registry).channels@;
            if !spec_has_channel(s0, channel_id) {
                &&& r == Err::<(), IpcError>(IpcError::ChannelNotFound)
                &&& *final(registry) == *old(registry)
            } else {
                let ci = spec_index_of_channel(s0, channel_id);
                let c = s0[ci];
                if !c.spec_has_endpoint(current_pid) {
                    &&& r == Err::<(), IpcError>(IpcError::InvalidSender)
                    &&& final(registry).channels@ == s0
                } else if c.spec_inbox(c.spec_other_endpoint(current_pid)).len() >= MAX_QUEUE_SIZE {
                    &&& r == Err::<(), IpcError>(IpcError::ChannelFull)
                    &&& final(registry).channels@ == s0
                } else {
                    &&& r == Ok::<(), IpcError>(())
                    &&& final(registry).channels@.len() == s0.len()
                    &&& forall|j: int| 0 <= j < s0.len() && j != ci
                            ==> final(registry).channels@[j] == s0[j]
                    &&& ({
                        let c1 = final(registry).channels@[ci];
                        let other = c.spec_other_endpoint(current_pid);
                        &&& c1.id == c.id
                        &&& c1.endpoint1 == c.endpoint1
                        &&& c1.endpoint2 == c.endpoint2
                        &&& c1.spec_inbox(current_pid) == c.spec_inbox(current_pid)
                        &&& exists|m: Message|
                                spec_message_of(m, current_pid, msg_type, data@)
                                && c1.spec_inbox(other) == #[trigger] c.spec_inbox(other).push(m)
                    })
                }
            }
        }),
{
    let ghost s0 = registry.channels@;
    let ci = match registry.find_channel(channel_id) {
        None => {
            return Err(IpcError::ChannelNotFound);
        },
        Some(x) => x,
    };
    proof {
        ChannelRegistry::lemma_index_of_channel(s0, channel_id, ci as int);
    }
    let message = Message::new(current_pid, msg_type, data);
    let ghost m = message;
    let mut c = registry.channels.remove(ci);
    let is_ep = c.has_endpoint(current_pid);
    let res = c.send(current_pid, message);
    registry.channels.insert(ci, c);
    proof {
        assert(registry.channels@ =~= s0.update(ci as int, c));
        let c0 = s0[ci as int];
        if is_ep {
            let other = c0.spec_other_endpoint(current_pid);
            if c0.spec_inbox(other).len() < MAX_QUEUE_SIZE {
                assert(c.spec_inbox(other) == c0.spec_inbox(other).push(m));
                assert(spec_message_of(m, current_pid, msg_type, data@));
            }
        }
        assert forall|i: int, j: int| 0 <= i < j < registry.channels@.len()
            implies registry.channels@[i].id != registry.channels@[j].id by {
            assert(registry.channels@[i].id == s0[i].id);
            assert(registry.channels@[j].id == s0[j].id);
        }
        assert forall|i: int| 0 <= i < registry.channels@.len()
            implies (#[trigger] registry.channels@[i]).id < registry.next_id by {
            assert(registry.channels@[i].id == s0[i].id);
        }
    }
    res
}

/// Receive the oldest message queued toward the calling process on a
/// channel, without blocking: `Ok(None)` when nothing is queued (the syscall
/// layer turns that into the reserved would-block return), `ChannelNotFound`
/// for an unknown channel, `InvalidSender` when the caller is no endpoint.
pub fn receive_message(registry: &mut ChannelRegistry, current_pid: u64, channel_id: u64)
    -> (r: Result<Option<Message>, IpcError>)
    requires
        old(registry).wf(),
    ensures
        final(registry).wf(),
        final(registry).next_id == old(registry).next_id,
        ({
            let s0 = old(registry).channels@;
            if !spec_has_channel(s0, channel_id) {
                &&& r == Err::<Option<Message>, IpcError>(IpcError::ChannelNotFound)
                &&& *final(registry) == *old(registry)
            } else {
                let ci = spec_index_of_channel(s0, channel_id);
                let c = s0[ci];
                if !c.spec_has_endpoint(current_pid) {
                    &&& r == Err::<Option<Message>, IpcError>(IpcError::InvalidSender)
                    &&& *final(registry) == *old(registry)
                } else {
                    &&& final(registry).channels@.len() == s0.len()
                    &&& forall|j: int| 0 <= j < s0.len() && j != ci
                            ==> final(registry).channels@[j] == s0[j]
                    &&& ({
                        let c1 = final(registry).channels@[ci];
                        &&& c1.id == c.id
                        &&& c1.endpoint1 == c.endpoint1
                        &&& c1.endpoint2 == c.endpoint2
                        &&& if c.spec_inbox(current_pid).len() > 0 {
                            &&& r == Ok::<Option<Message>, IpcError>(Some(c.spec_inbox(current_pid).first()))
                            &&& c1.spec_inbox(current_pid) == c.spec_inbox(current_pid).drop_first()
                            &&& c1.spec_inbox(c.spec_other_endpoint(current_pid))
                                == c.spec_inbox(c.spec_other_endpoint(current_pid))
                        } else {
                            &&& r == Ok::<Option<Message>, IpcError>(None)
                            &&& c1.queue1_to_2@ == c.queue1_to_2@
                            &&& c1.queue2_to_1@ == c.queue2_to_1@
                        }
                    })
                }
            }
        }),
{
    let ghost s0 = registry.channels@;
    let ci = match registry.find_channel(channel_id) {
        None => {
            return Err(IpcError::ChannelNotFound);
        },
        Some(x) => x,
    };
    proof {
        ChannelRegistry::lemma_index_of_channel(s0, channel_id, ci as int);
    }
    if !registry.channels[ci].has_endpoint(current_pid) {
        return Err(IpcError::InvalidSender);
    }
    let mut c = registry.channels.remove(ci);
    let msg = c.receive(current_pid);
    registry.channels.insert(ci, c);
    proof {
        assert(registry.channels@ =~= s0.update(ci as int, c));
        assert forall|i: int, j: int| 0 <= i < j < registry.channels@.len()
            implies registry.channels@[i].id != registry.channels@[j].id by {
            assert(registry.channels@[i].id == s0[i].id);
            assert(registry.channels@[j].id == s0[j].id);
        }
        assert forall|i: int| 0 <= i < registry.channels@.len()
            implies (#[trigger] registry.channels@[i]).id < registry.next_id by {
            assert(registry.channels@[i].id == s0[i].id);
        }
    }
    Ok(msg)
}

/// The direction queue a burst of sends leaves behind: each message pushed
/// in order at the back.
pub open spec fn spec_after_sends(q0: Seq<Message>, msgs: Seq<Message>) -> Seq<Message>
    decreases msgs.len(),
{
    if msgs.len() == 0 {
        q0
    } else {
        spec_after_sends(q0, msgs.drop_last()).push(msgs.last())
    }
}

/// Law: a direction of a channel is strict FIFO.  A burst of successful
/// sends into a fresh (empty) direction queue leaves exactly the sent
/// messages in send order, so successive receives, which take the first
/// element each time, return them in the order they were sent.
pub proof fn lemma_channel_fifo_round_trip(msgs: Seq<Message>)
    ensures
        spec_after_sends(Seq::<Message>::empty(), msgs) == msgs,
    decreases msgs.len(),
{
    if msgs.len() > 0 {
        lemma_channel_fifo_round_trip(msgs.drop_last());
        assert(spec_after_sends(Seq::<Message>::empty(), msgs) =~= msgs);
    } else {
        assert(spec_after_sends(Seq::<Message>::empty(), msgs) =~= msgs);
    }
}

} // verus!
