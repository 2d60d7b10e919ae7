use crate::wire::{Event, EventView, ServerFrame, ServerFrameView};
use std::collections::VecDeque;
use vstd::prelude::*;

verus! {

/// Mathematical value of a [`ReplayBuffer`]: how many events it may hold, the
/// sequence number of the last event dispatched, and the events it still
/// holds, oldest first.
pub struct ReplayView {
    pub capacity: nat,
    pub last_seq: nat,
    pub events: Seq<EventView>,
}

impl ReplayView {
    /// The buffer holds the most recent events, as many as fit and as many
    /// as there have been.
    pub open spec fn wf(self) -> bool {
        self.events.len() == if self.last_seq <= self.capacity {
            self.last_seq
        } else {
            self.capacity
        }
    }

    /// The sequence number of the oldest event held. Where nothing is held
    /// it is the number that the next event will get.
    pub open spec fn oldest(self) -> int {
        self.last_seq - self.events.len() + 1
    }

    /// Whether the event dispatched under `seq` is still held.
    pub open spec fn holds(self, seq: int) -> bool {
        self.oldest() <= seq <= self.last_seq
    }

    /// The event held under `seq`.
    pub open spec fn event_at(self, seq: int) -> EventView
        recommends
            self.holds(seq),
    {
        self.events[seq - self.oldest()]
    }

    /// The buffer after one more event was dispatched: the event gets the
    /// next sequence number and, where the buffer is full, takes the place
    /// of the oldest one.
    pub open spec fn push(self, event: EventView) -> ReplayView {
        ReplayView {
            capacity: self.capacity,
            last_seq: self.last_seq + 1,
            events: if self.capacity == 0 {
                self.events
            } else if self.events.len() < self.capacity {
                self.events.push(event)
            } else {
                self.events.subrange(1, self.events.len() as int).push(event)
            },
        }
    }

    /// Whether a peer that has seen everything up to `after` can be brought
    /// up to date from the buffer. It cannot when `after` is older than the
    /// oldest sequence held; with nothing held, when it is older than the last
    /// sequence dispatched.
    pub open spec fn can_replay(self, after: int) -> bool {
        if self.events.len() == 0 {
            after >= self.last_seq
        } else {
            after >= self.oldest()
        }
    }

    /// How many of the events held have a sequence number of at most `after`.
    pub open spec fn seen(self, after: int) -> int {
        if after < self.oldest() {
            0
        } else if after >= self.last_seq {
            self.events.len() as int
        } else {
            after - self.oldest() + 1
        }
    }

    /// The dispatch frames of the events held with a sequence number above
    /// `after`, in the order of their sequence numbers.
    pub open spec fn frames_after(self, after: int) -> Seq<ServerFrameView> {
        Seq::new(
            (self.events.len() - self.seen(after)) as nat,
            |i: int|
                ServerFrameView::Dispatch {
                    seq: (self.oldest() + self.seen(after) + i) as u64,
                    event: self.events[self.seen(after) + i],
                },
        )
    }
}

/// The buffer that results from dispatching `events` in order, starting
/// from `start`.
pub open spec fn push_all(start: ReplayView, events: Seq<EventView>) -> ReplayView
    decreases events.len(),
{
    if events.len() == 0 {
        start
    } else {
        push_all(start, events.drop_last()).push(events.last())
    }
}

/// An empty buffer for `capacity` events.
pub open spec fn empty_replay(capacity: nat) -> ReplayView {
    ReplayView { capacity, last_seq: 0, events: Seq::empty() }
}

/// The mathematical values of a list of events.
pub open spec fn events_view(events: Seq<Event>) -> Seq<EventView> {
    events.map_values(|e: Event| e@)
}

/// The mathematical values of a list of frames.
pub open spec fn frames_view(frames: Seq<ServerFrame>) -> Seq<ServerFrameView> {
    frames.map_values(|f: ServerFrame| f@)
}

/// Bounded ring of the most recently dispatched events, found by their
/// sequence numbers. It also counts the events dispatched.
pub struct ReplayBuffer {
    capacity: usize,
    last_seq: u64,
    events: VecDeque<Event>,
}

impl View for ReplayBuffer {
    type V = ReplayView;

    closed spec fn view(&self) -> ReplayView {
        ReplayView {
            capacity: self.capacity as nat,
            last_seq: self.last_seq as nat,
            events: events_view(self.events@),
        }
    }
}

impl ReplayBuffer {
    /// The invariant of the buffer.
    pub open spec fn wf(&self) -> bool {
        &&& self@.wf()
        &&& self@.capacity <= usize::MAX
        &&& self@.last_seq <= u64::MAX
    }

    /// An empty buffer that keeps the last `capacity` events.
    pub fn new(capacity: usize) -> (buffer: ReplayBuffer)
        ensures
            buffer.wf(),
            buffer@ == empty_replay(capacity as nat),
    {
        let buffer = ReplayBuffer { capacity, last_seq: 0, events: VecDeque::new() };
        assert(buffer@.events =~= Seq::<EventView>::empty());
        buffer
    }

    /// How many events the buffer keeps at most.
    pub fn capacity(&self) -> (n: usize)
        requires
            self.wf(),
        ensures
            n == self@.capacity,
    {
        self.capacity
    }

    /// The sequence number of the last event dispatched; 0 before the first.
    pub fn last_seq(&self) -> (seq: u64)
        requires
            self.wf(),
        ensures
            seq == self@.last_seq,
    {
        self.last_seq
    }

    /// How many events are held.
    pub fn len(&self) -> (n: usize)
        requires
            self.wf(),
        ensures
            n == self@.events.len(),
    {
        self.events.len()
    }

    /// The sequence number of the oldest event held, if any is held.
    pub fn oldest(&self) -> (seq: Option<u64>)
        requires
            self.wf(),
        ensures
            seq == if self@.events.len() == 0 {
                None
            } else {
                Some(self@.oldest() as u64)
            },
            self@.events.len() > 0 ==> 1 <= self@.oldest() <= self@.last_seq,
    {
        let held: usize = self.events.len();
        if held == 0 {
            None
        } else {
            Some(self.last_seq - (held as u64) + 1)
        }
    }

    /// Records one more dispatched event and returns its sequence number.
    pub fn push(&mut self, event: Event) -> (seq: u64)
        requires
            old(self).wf(),
            old(self)@.last_seq < u64::MAX,
        ensures
            final(self).wf(),
            final(self)@ == old(self)@.push(event@),
            seq == old(self)@.last_seq + 1,
    {
        let ghost before = self.events@;
        if self.capacity > 0 {
            if self.events.len() == self.capacity {
                let _ = self.events.pop_front();
                assert(events_view(self.events@) =~= events_view(before).subrange(
                    1,
                    before.len() as int,
                ));
            }
            let ghost kept = self.events@;
            self.events.push_back(event);
            assert(events_view(self.events@) =~= events_view(kept).push(event@));
        }
        self.last_seq = self.last_seq + 1;
        self.last_seq
    }

    /// Whether a peer that has seen everything up to `after` can be brought
    /// up to date from the buffer.
    pub fn can_replay(&self, after: u64) -> (ok: bool)
        requires
            self.wf(),
        ensures
            ok == self@.can_replay(after as int),
    {
        match self.oldest() {
            None => after >= self.last_seq,
            Some(first) => after >= first,
        }
    }

    /// The dispatch frames of the events held with a sequence number above
    /// `after`, in the order of their sequence numbers.
    pub fn frames_after(&self, after: u64) -> (frames: Vec<ServerFrame>)
        requires
            self.wf(),
        ensures
            frames_view(frames@) == self@.frames_after(after as int),
    {
        let held: usize = self.events.len();
        let mut frames: Vec<ServerFrame> = Vec::new();
        if held == 0 {
            assert(frames_view(frames@) =~= self@.frames_after(after as int));
            return frames;
        }
        let first: u64 = self.last_seq - (held as u64) + 1;
        let seen: usize = if after < first {
            0
        } else if after >= self.last_seq {
            held
        } else {
            (after - first + 1) as usize
        };
        let mut i: usize = seen;
        while i < held
            invariant
                self.wf(),
                held == self.events@.len(),
                held > 0,
                first == self@.oldest(),
                seen == self@.seen(after as int),
                seen <= i <= held,
                frames@.len() == i - seen,
                forall|k: int|
                    0 <= k < i - seen ==> (#[trigger] frames@[k])@ == self@.frames_after(
                        after as int,
                    )[k],
            decreases held - i,
        {
            let seq: u64 = first + (i as u64);
            let frame = ServerFrame::dispatch(seq, &self.events[i]);
            frames.push(frame);
            i = i + 1;
        }
        assert(frames_view(frames@) =~= self@.frames_after(after as int));
        frames
    }
}

/// Dispatching `events` one after the other on an empty buffer counts them
/// all and keeps the most recent ones, as many as the capacity allows, each
/// under the position at which it was dispatched.
pub proof fn lemma_buffer_keeps_most_recent(capacity: nat, events: Seq<EventView>)
    ensures
        push_all(empty_replay(capacity), events).wf(),
        push_all(empty_replay(capacity), events).capacity == capacity,
        push_all(empty_replay(capacity), events).last_seq == events.len(),
        forall|seq: int|
            #![trigger push_all(empty_replay(capacity), events).event_at(seq)]
            push_all(empty_replay(capacity), events).holds(seq) ==> 1 <= seq <= events.len()
                && push_all(empty_replay(capacity), events).event_at(seq) == events[seq - 1],
    decreases events.len(),
{
    if events.len() > 0 {
        lemma_buffer_keeps_most_recent(capacity, events.drop_last());
        let before = push_all(empty_replay(capacity), events.drop_last());
        let after = push_all(empty_replay(capacity), events);
        assert(after == before.push(events.last()));
        assert forall|seq: int| after.holds(seq) implies 1 <= seq <= events.len()
            && #[trigger] after.event_at(seq) == events[seq - 1] by {
            if seq < after.last_seq {
                assert(before.holds(seq));
                assert(before.event_at(seq) == events.drop_last()[seq - 1]);
            }
        }
    }
}

/// Replay is exact: where the buffer can bring a peer up to date from
/// `after`, the frames it replays are those of the sequence numbers
/// `after + 1` up to the last one dispatched, each once and in order, with
/// the events held under them.
pub proof fn lemma_replay_is_contiguous(buffer: ReplayView, after: int)
    requires
        buffer.wf(),
        buffer.last_seq <= u64::MAX,
        0 <= after,
        buffer.can_replay(after),
    ensures
        buffer.frames_after(after).len() == if after < buffer.last_seq {
            buffer.last_seq - after
        } else {
            0
        },
        forall|i: int|
            0 <= i < buffer.frames_after(after).len() ==> buffer.holds(after + 1 + i)
                && #[trigger] buffer.frames_after(after)[i] == (ServerFrameView::Dispatch {
                seq: (after + 1 + i) as u64,
                event: buffer.event_at(after + 1 + i),
            }),
{
}

} // verus!
