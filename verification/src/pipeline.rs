//! Stream pipeline: the state machine that moves captured output lines from
//! a line reader through a bounded channel into a session's log buffer, one
//! batch per timer tick, emitting one notification payload per non-empty
//! batch.
//!
//! The reader and the batcher run as independent concurrent units around an
//! I/O boundary; everything they decide — when a push is accepted, what a
//! tick drains, what is appended and what is emitted — is this module. The
//! surrounding runtime only performs the reads, the sleeps and the sends and
//! feeds the outcomes back in.

use vstd::prelude::*;

use crate::log_buffer::{BufferHandle, LogBufferManager};

verus! {

/// Wall-clock interval between batcher ticks, in milliseconds: a balance
/// between perceived live-update latency and per-batch overhead.
pub const TICK_INTERVAL_MS: u64 = 100;

/// How many pending lines the channel between reader and batcher holds
/// before the reader is suspended (the backpressure bound).
pub const CHANNEL_CAPACITY: usize = 1000;

/// Bounded FIFO channel of decoded lines between a reader and a batcher.
///
/// A full channel rejects a push until a drain makes room; the sender closes
/// the channel when its stream ends, after which the already pending lines
/// can still be drained.
pub struct LineChannel {
    pending: Vec<String>,
    capacity: usize,
    closed: bool,
}

impl LineChannel {
    /// Lines currently pending, in send order.
    pub closed spec fn pending(&self) -> Seq<Seq<char>> {
        self.pending@.map_values(|l: String| l@)
    }

    /// Fixed bound on the number of pending lines.
    pub closed spec fn cap(&self) -> nat {
        self.capacity as nat
    }

    /// Whether the sending side has closed the channel.
    pub closed spec fn is_closed(&self) -> bool {
        self.closed
    }

    pub open spec fn wf(&self) -> bool {
        &&& 1 <= self.cap()
        &&& self.pending().len() <= self.cap()
    }

    /// Fresh open channel with the given bound.
    pub fn new(capacity: usize) -> (ch: LineChannel)
        requires
            capacity >= 1,
        ensures
            ch.wf(),
            ch.cap() == capacity,
            ch.pending() == Seq::<Seq<char>>::empty(),
            !ch.is_closed(),
    {
        let ch = LineChannel { pending: Vec::new(), capacity, closed: false };
        proof {
            assert(ch.pending() =~= Seq::<Seq<char>>::empty());
        }
        ch
    }

    /// Attempts to enqueue one line. Succeeds exactly when the channel is
    /// not full; a rejected line is the caller's to retry after a drain —
    /// this is the backpressure that suspends a reader ahead of a slow
    /// batcher.
    pub fn try_send(&mut self, line: String) -> (accepted: bool)
        requires
            old(self).wf(),
            !old(self).is_closed(),
        ensures
            final(self).wf(),
            final(self).cap() == old(self).cap(),
            !final(self).is_closed(),
            accepted <==> old(self).pending().len() < old(self).cap(),
            accepted ==> final(self).pending() == old(self).pending().push(line@),
            !accepted ==> final(self).pending() == old(self).pending(),
    {
        if self.pending.len() < self.capacity {
            self.pending.push(line);
            proof {
                assert(self.pending() =~= old(self).pending().push(line@));
            }
            true
        } else {
            false
        }
    }

    /// Closes the sending side: no further line will arrive. Pending lines
    /// remain drainable.
    pub fn close(&mut self)
        requires
            old(self).wf(),
        ensures
            final(self).wf(),
            final(self).cap() == old(self).cap(),
            final(self).pending() == old(self).pending(),
            final(self).is_closed(),
    {
        self.closed = true;
    }

    /// Removes and returns every pending line, in send order, without
    /// waiting for more.
    pub fn drain(&mut self) -> (batch: Vec<String>)
        requires
            old(self).wf(),
        ensures
            final(self).wf(),
            final(self).cap() == old(self).cap(),
            final(self).is_closed() == old(self).is_closed(),
            final(self).pending() == Seq::<Seq<char>>::empty(),
            batch@.map_values(|l: String| l@) == old(self).pending(),
    {
        let mut batch: Vec<String> = Vec::new();
        core::mem::swap(&mut batch, &mut self.pending);
        proof {
            assert(self.pending() =~= Seq::<Seq<char>>::empty());
        }
        batch
    }

    /// Whether the sending side has closed the channel.
    pub fn is_channel_closed(&self) -> (closed: bool)
        ensures
            closed == self.is_closed(),
    {
        self.closed
    }

    /// Number of currently pending lines.
    pub fn pending_len(&self) -> (n: usize)
        ensures
            n == self.pending().len(),
    {
        self.pending.len()
    }
}

/// The two states of a pipeline: still reading its source, or closed for
/// good because the source ended and every pending line has been delivered.
#[derive(Clone, Copy, PartialEq, Eq, Structural)]
pub enum PipelineState {
    Reading,
    Closed,
}

/// What one non-empty batch pushes to external subscribers: the session
/// identifier, the newly appended lines in order, and the buffer's total
/// line count immediately after the append. A subscriber joining mid-session
/// must query the buffer's snapshot separately; payloads carry no history.
pub struct LogChunkPayload {
    pub slug: String,
    pub lines: Vec<String>,
    pub total_lines: usize,
}

/// One stream pipeline: a reader feeding a bounded channel and a batcher
/// draining it into the session's buffer on each tick.
///
/// Two of these (standard output, standard error) may share one buffer
/// handle; each keeps its own channel, so order is preserved within one
/// stream and unspecified across streams.
pub struct LogStreamer {
    slug: String,
    handle: BufferHandle,
    channel: LineChannel,
    state: PipelineState,
    produced: Ghost<Seq<Seq<char>>>,
    delivered: Ghost<Seq<Seq<char>>>,
}

impl LogStreamer {
    /// The session identifier whose buffer this pipeline feeds.
    pub closed spec fn slug_id(&self) -> Seq<char> {
        self.slug@
    }

    /// The buffer handle this pipeline appends through.
    pub closed spec fn handle(&self) -> BufferHandle {
        self.handle
    }

    /// Every line the channel ever accepted from the reader, in order.
    pub closed spec fn produced(&self) -> Seq<Seq<char>> {
        self.produced@
    }

    /// Every line a tick has delivered into the buffer, in order.
    pub closed spec fn delivered(&self) -> Seq<Seq<char>> {
        self.delivered@
    }

    pub closed spec fn state(&self) -> PipelineState {
        self.state
    }

    /// Lines accepted but not yet delivered.
    pub closed spec fn pending(&self) -> Seq<Seq<char>> {
        self.channel.pending()
    }

    /// Whether the reader has reached the end of its source (or failed,
    /// which under the fail-silent policy looks the same).
    pub closed spec fn source_ended(&self) -> bool {
        self.channel.is_closed()
    }

    /// The channel's backpressure bound.
    pub closed spec fn channel_cap(&self) -> nat {
        self.channel.cap()
    }

    /// Conservation: what was produced is exactly what was delivered plus
    /// what is still pending, in order — no line is dropped or reordered
    /// within the stream.
    pub open spec fn wf(&self) -> bool {
        &&& 1 <= self.channel_cap()
        &&& self.pending().len() <= self.channel_cap()
        &&& self.produced() == self.delivered() + self.pending()
        &&& self.state() is Closed ==> self.source_ended() && self.pending().len() == 0
    }

    /// Fresh pipeline over the given session buffer, with the default
    /// channel bound.
    pub fn new(slug: String, handle: BufferHandle) -> (s: LogStreamer)
        ensures
            s.wf(),
            s.slug_id() == slug@,
            s.handle() == handle,
            s.state() is Reading,
            !s.source_ended(),
            s.produced() == Seq::<Seq<char>>::empty(),
            s.delivered() == Seq::<Seq<char>>::empty(),
            s.channel_cap() == CHANNEL_CAPACITY,
    {
        Self::with_channel_capacity(slug, handle, CHANNEL_CAPACITY)
    }

    /// Fresh pipeline with a chosen channel bound.
    pub fn with_channel_capacity(slug: String, handle: BufferHandle, capacity: usize) -> (s:
        LogStreamer)
        requires
            capacity >= 1,
        ensures
            s.wf(),
            s.slug_id() == slug@,
            s.handle() == handle,
            s.state() is Reading,
            !s.source_ended(),
            s.produced() == Seq::<Seq<char>>::empty(),
            s.delivered() == Seq::<Seq<char>>::empty(),
            s.channel_cap() == capacity,
    {
        let s = LogStreamer {
            slug,
            handle,
            channel: LineChannel::new(capacity),
            state: PipelineState::Reading,
            produced: Ghost(Seq::empty()),
            delivered: Ghost(Seq::empty()),
        };
        proof {
            assert(s.produced() =~= s.delivered() + s.pending());
        }
        s
    }

    /// The reader hands over one decoded line. Accepted exactly when the
    /// channel has room; a rejected reader suspends and retries the same
    /// line after the next drain, so the source stream stops being read
    /// while the batcher lags.
    pub fn offer_line(&mut self, line: String) -> (accepted: bool)
        requires
            old(self).wf(),
            !old(self).source_ended(),
        ensures
            final(self).wf(),
            final(self).slug_id() == old(self).slug_id(),
            final(self).handle() == old(self).handle(),
            final(self).channel_cap() == old(self).channel_cap(),
            final(self).state() == old(self).state(),
            !final(self).source_ended(),
            final(self).delivered() == old(self).delivered(),
            accepted <==> old(self).pending().len() < old(self).channel_cap(),
            accepted ==> final(self).produced() == old(self).produced().push(line@)
                && final(self).pending() == old(self).pending().push(line@),
            !accepted ==> final(self).produced() == old(self).produced() && final(self).pending()
                == old(self).pending(),
    {
        let ghost line_view = line@;
        let accepted = self.channel.try_send(line);
        proof {
            if accepted {
                self.produced@ = self.produced@.push(line_view);
                assert(self.produced() =~= self.delivered() + self.pending());
            }
        }
        accepted
    }

    /// The reader reports that its source ended — end-of-file, or a read or
    /// decode error, which under the fail-silent policy merely ends the
    /// stream. Pending lines will still be delivered by later ticks.
    pub fn end_of_stream(&mut self)
        requires
            old(self).wf(),
        ensures
            final(self).wf(),
            final(self).slug_id() == old(self).slug_id(),
            final(self).handle() == old(self).handle(),
            final(self).channel_cap() == old(self).channel_cap(),
            final(self).state() == old(self).state(),
            final(self).source_ended(),
            final(self).produced() == old(self).produced(),
            final(self).delivered() == old(self).delivered(),
            final(self).pending() == old(self).pending(),
    {
        self.channel.close();
    }

    /// One batcher tick: drains every line currently pending (zero or
    /// more), appends a non-empty batch to the session buffer, and returns
    /// the one notification payload to emit for it — carrying the new lines
    /// and the buffer's total immediately after the append. An empty drain
    /// appends and emits nothing. Once the source has ended and the channel
    /// is drained, the pipeline is closed.
    pub fn tick(&mut self, registry: &mut LogBufferManager) -> (note: Option<LogChunkPayload>)
        requires
            old(self).wf(),
            old(registry).wf(),
            old(registry).valid_handle(old(self).handle()),
            old(registry).slot(old(self).handle()).total() + old(self).pending().len()
                <= usize::MAX,
        ensures
            final(self).wf(),
            final(registry).wf(),
            final(self).slug_id() == old(self).slug_id(),
            final(self).handle() == old(self).handle(),
            final(self).channel_cap() == old(self).channel_cap(),
            final(self).source_ended() == old(self).source_ended(),
            final(self).produced() == old(self).produced(),
            final(self).delivered() == old(self).delivered() + old(self).pending(),
            final(self).pending().len() == 0,
            final(self).state() is Closed <==> old(self).source_ended(),
            LogBufferManager::append_via_post(
                *old(registry),
                *final(registry),
                old(self).handle(),
                old(self).pending(),
            ),
            old(self).pending().len() == 0 ==> note is None && *final(registry)
                == *old(registry),
            old(self).pending().len() > 0 ==> (note matches Some(p) && p.slug@
                == old(self).slug_id() && p.lines@.map_values(|l: String| l@)
                == old(self).pending() && p.total_lines == final(registry).slot(
                old(self).handle(),
            ).total()),
    {
        let ghost drained = self.channel.pending();
        let batch = self.channel.drain();
        let note = if batch.len() > 0 {
            registry.append_via(self.handle, batch.clone());
            let total = registry.buffer(self.handle).total_lines_ever();
            let note = LogChunkPayload {
                slug: self.slug.clone(),
                lines: batch,
                total_lines: total,
            };
            Some(note)
        } else {
            proof {
                assert(drained =~= Seq::<Seq<char>>::empty());
                assert(LogBufferManager::append_via_post(
                    *old(registry),
                    *registry,
                    self.handle,
                    drained,
                ));
            }
            None
        };
        proof {
            self.delivered@ = self.delivered@ + drained;
            assert(self.produced() =~= self.delivered() + self.pending());
        }
        if self.channel.is_channel_closed() {
            self.state = PipelineState::Closed;
        } else {
            self.state = PipelineState::Reading;
        }
        note
    }
}

impl LogStreamer {
    /// Whether the pipeline has closed: its source ended and every pending
    /// line has been delivered.
    pub fn is_closed(&self) -> (closed: bool)
        ensures
            closed == (self.state() is Closed),
    {
        match self.state {
            PipelineState::Closed => true,
            PipelineState::Reading => false,
        }
    }

    /// The count of lines accepted but not yet delivered.
    pub fn pending_count(&self) -> (n: usize)
        ensures
            n == self.pending().len(),
    {
        self.channel.pending_len()
    }

    /// The buffer handle this pipeline appends through.
    pub fn buffer_handle(&self) -> (h: BufferHandle)
        ensures
            h == self.handle(),
    {
        self.handle
    }
}

/// No line is dropped: once a pipeline has closed — its source ended and its
/// channel drained — every line the reader ever handed in has been delivered
/// to the buffer, in order.
pub proof fn lemma_no_line_dropped(s: &LogStreamer)
    requires
        s.wf(),
        s.state() is Closed,
    ensures
        s.delivered() == s.produced(),
{
    assert(s.delivered() =~= s.delivered() + s.pending());
}

} // verus!
