//! Bounded, FIFO-evicting store of the most recent output lines of one
//! session, together with a monotonic counter of every line ever appended.

use vstd::prelude::*;

verus! {

/// Upper bound on retained lines per buffer; keeps memory bounded no matter
/// how verbose or long-lived the producing process is.
pub const MAX_LOG_LINES: usize = 5000;

/// How many lines a buffer retains once `total` lines have ever been
/// appended to a buffer of capacity `cap`: all of them until the capacity is
/// reached, exactly `cap` afterwards.
pub open spec fn retained_len(total: nat, cap: nat) -> nat {
    if total <= cap {
        total
    } else {
        cap
    }
}

/// The suffix of `history` that a buffer of capacity `cap` still retains:
/// the most recent `retained_len` lines, oldest first.
pub open spec fn retained_suffix(history: Seq<Seq<char>>, cap: nat) -> Seq<Seq<char>> {
    history.skip(history.len() - retained_len(history.len(), cap))
}

/// The retained lines joined into one block of text, a newline between
/// consecutive lines (none at the end, as the lines already had their
/// delimiters stripped on capture).
pub open spec fn joined_lines(lines: Seq<Seq<char>>) -> Seq<char>
    decreases lines.len(),
{
    if lines.len() == 0 {
        Seq::empty()
    } else if lines.len() == 1 {
        lines[0]
    } else {
        lines[0] + seq!['\n'] + joined_lines(lines.skip(1))
    }
}

/// Ordered store of the most recent lines of one capture session.
///
/// The abstract state is the full append history (a ghost sequence of every
/// line ever appended); the concrete `lines` always hold exactly the most
/// recent `retained_len` entries of that history, oldest first, and
/// `total_lines_ever` its length.
pub struct LogBuffer {
    lines: Vec<String>,
    total_lines_ever: usize,
    capacity: usize,
    history: Ghost<Seq<Seq<char>>>,
}

impl View for LogBuffer {
    type V = Seq<Seq<char>>;

    /// The retained lines, oldest first.
    closed spec fn view(&self) -> Seq<Seq<char>> {
        self.lines@.map_values(|l: String| l@)
    }
}

impl LogBuffer {
    /// Fixed capacity: the largest number of lines ever retained.
    pub closed spec fn cap(&self) -> nat {
        self.capacity as nat
    }

    /// Every line ever appended, in append order, including evicted ones.
    pub closed spec fn history(&self) -> Seq<Seq<char>> {
        self.history@
    }

    /// Monotonic count of every line ever appended.
    pub closed spec fn total(&self) -> nat {
        self.total_lines_ever as nat
    }

    /// Internal consistency: the counter equals the history length and the
    /// retained lines are exactly the most recent part of the history.
    pub closed spec fn wf(&self) -> bool {
        &&& 1 <= self.cap()
        &&& self.total() == self.history().len()
        &&& self@ == retained_suffix(self.history(), self.cap())
    }

    /// Fresh empty buffer with the default capacity.
    pub fn new() -> (buf: LogBuffer)
        ensures
            buf.wf(),
            buf.cap() == MAX_LOG_LINES,
            buf.history() == Seq::<Seq<char>>::empty(),
            buf.total() == 0,
    {
        let buf = LogBuffer {
            lines: Vec::new(),
            total_lines_ever: 0,
            capacity: MAX_LOG_LINES,
            history: Ghost(Seq::empty()),
        };
        proof {
            assert(buf@ =~= retained_suffix(buf.history(), buf.cap()));
        }
        buf
    }

    /// Fresh empty buffer with a chosen capacity.
    pub fn with_capacity(capacity: usize) -> (buf: LogBuffer)
        requires
            capacity >= 1,
        ensures
            buf.wf(),
            buf.cap() == capacity,
            buf.history() == Seq::<Seq<char>>::empty(),
            buf.total() == 0,
    {
        let buf = LogBuffer {
            lines: Vec::new(),
            total_lines_ever: 0,
            capacity,
            history: Ghost(Seq::empty()),
        };
        proof {
            assert(buf@ =~= retained_suffix(buf.history(), buf.cap()));
        }
        buf
    }

    /// Appends the given lines in order, evicting the oldest retained line
    /// before each append that would exceed the capacity. The total counter
    /// grows by the batch size and never decreases, eviction or not.
    pub fn append_lines(&mut self, new_lines: Vec<String>)
        requires
            old(self).wf(),
            old(self).total() + new_lines@.len() <= usize::MAX,
        ensures
            final(self).wf(),
            final(self).cap() == old(self).cap(),
            final(self).history() == old(self).history() + new_lines@.map_values(
                |l: String| l@,
            ),
            final(self).total() == old(self).total() + new_lines@.len(),
            old(self).total() <= final(self).total(),
    {
        let ghost batch = new_lines@.map_values(|l: String| l@);
        let n = new_lines.len();
        let mut i: usize = 0;
        while i < n
            invariant
                i <= n,
                n == new_lines@.len(),
                batch == new_lines@.map_values(|l: String| l@),
                self.wf(),
                self.cap() == old(self).cap(),
                self.history() == old(self).history() + batch.take(i as int),
                self.total() == old(self).total() + i,
                old(self).total() + n <= usize::MAX,
            decreases n - i,
        {
            let ghost pre = *self;
            let evict = self.lines.len() >= self.capacity;
            if evict {
                self.lines.remove(0);
            }
            let line = new_lines[i].clone();
            self.lines.push(line);
            self.total_lines_ever = self.total_lines_ever + 1;
            proof {
                let x = new_lines@[i as int]@;
                self.history@ = self.history@.push(x);
                assert(self.history() =~= old(self).history() + batch.take(i + 1));
                if evict {
                    // at capacity: the oldest retained line was evicted first
                    assert(self@ =~= pre@.skip(1).push(x));
                    assert(retained_suffix(self.history(), self.cap()) =~= pre@.skip(1).push(
                        x,
                    ));
                } else {
                    assert(self@ =~= pre@.push(x));
                    assert(retained_suffix(self.history(), self.cap()) =~= pre@.push(x));
                }
            }
            i = i + 1;
        }
        proof {
            assert(batch.take(n as int) =~= batch);
        }
    }

    /// The retained lines joined into one block of text, oldest first.
    pub fn get_all(&self) -> (text: String)
        requires
            self.wf(),
        ensures
            text@ == joined_lines(self@),
    {
        let mut text = String::new();
        let len = self.lines.len();
        let mut i: usize = 0;
        while i < len
            invariant
                i <= len,
                len == self.lines@.len(),
                self.wf(),
                text@ == joined_lines(self@.take(i as int)),
            decreases len - i,
        {
            if i > 0 {
                text.append("\n");
            }
            text.append(self.lines[i].as_str());
            proof {
                reveal_strlit("\n");
                assert("\n"@ =~= seq!['\n']);
                assert(self@[i as int] == self.lines@[i as int]@);
                lemma_joined_lines_take_succ(self@, i as int);
            }
            i = i + 1;
        }
        proof {
            assert(self@.take(len as int) =~= self@);
        }
        text
    }

    /// The count of every line ever appended, evicted ones included.
    pub fn total_lines_ever(&self) -> (total: usize)
        ensures
            total == self.total(),
    {
        self.total_lines_ever
    }

    /// Number of currently retained lines.
    pub fn len(&self) -> (n: usize)
        ensures
            n == self@.len(),
    {
        self.lines.len()
    }
}

/// Joining one more line appends a newline separator first unless the join
/// was empty so far.
proof fn lemma_joined_lines_take_succ(lines: Seq<Seq<char>>, i: int)
    requires
        0 <= i < lines.len(),
    ensures
        joined_lines(lines.take(i + 1)) == if i == 0 {
            lines[0]
        } else {
            joined_lines(lines.take(i)) + seq!['\n'] + lines[i]
        },
    decreases i,
{
    if i == 0 {
        assert(lines.take(1) =~= seq![lines[0]]);
    } else {
        let front = lines.take(i + 1);
        assert(front.skip(1) =~= lines.skip(1).take(i));
        assert(lines.take(i).skip(1) =~= lines.skip(1).take(i - 1));
        assert(lines.take(i)[0] == lines[0]);
        lemma_joined_lines_take_succ(lines.skip(1), i - 1);
        if i == 1 {
            assert(lines.skip(1).take(1) =~= seq![lines[1]]);
            assert(lines.take(1) =~= seq![lines[0]]);
        } else {
            assert(lines.skip(1)[i - 1] == lines[i]);
        }
    }
}

/// Stable reference to one registered buffer. Handles stay usable after the
/// owning registry entry is removed: removal only affects future lookups.
#[derive(Debug, Clone, Copy, PartialEq, Eq, Structural)]
pub struct BufferHandle {
    index: usize,
}

impl BufferHandle {
    /// Which registry slot this handle designates.
    pub closed spec fn id(&self) -> int {
        self.index as int
    }
}

/// Keyed collection of log buffers, one per live session identifier.
///
/// Buffers live in `slots` and are never deallocated by `remove`; the
/// identifier table only maps identifiers to slots. A handle therefore keeps
/// its buffer reachable after the identifier is unregistered, which models
/// shared, reference-counted ownership between the registry and pipelines.
pub struct LogBufferManager {
    slots: Vec<LogBuffer>,
    entries: Vec<(String, usize)>,
    table: Ghost<Map<Seq<char>, int>>,
}

impl LogBufferManager {
    /// The identifier table: which identifiers are registered, and to which
    /// slot each one maps.
    pub closed spec fn table(&self) -> Map<Seq<char>, int> {
        self.table@
    }

    /// All buffers ever created, registered or not.
    pub closed spec fn slots(&self) -> Seq<LogBuffer> {
        self.slots@
    }

    /// The buffer a handle designates.
    pub open spec fn slot(&self, h: BufferHandle) -> LogBuffer {
        self.slots()[h.id()]
    }

    /// A handle is usable on this registry when it designates a slot.
    pub open spec fn valid_handle(&self, h: BufferHandle) -> bool {
        0 <= h.id() < self.slots().len()
    }

    pub closed spec fn wf(&self) -> bool {
        &&& forall|k: Seq<char>| #[trigger]
            self.table@.contains_key(k) ==> 0 <= self.table@[k] < self.slots@.len()
        &&& forall|j: int|
            0 <= j < self.entries@.len() ==> {
                &&& self.table@.contains_key((#[trigger] self.entries@[j]).0@)
                &&& self.table@[self.entries@[j].0@] == self.entries@[j].1 as int
            }
        &&& forall|k: Seq<char>| #[trigger]
            self.table@.contains_key(k) ==> exists|j: int|
                0 <= j < self.entries@.len() && (#[trigger] self.entries@[j]).0@ == k
        &&& forall|j1: int, j2: int|
            0 <= j1 < j2 < self.entries@.len() ==> (#[trigger] self.entries@[j1]).0@ != (
            #[trigger] self.entries@[j2]).0@
        &&& forall|i: int| 0 <= i < self.slots@.len() ==> (#[trigger] self.slots@[i]).wf()
    }

    /// Fresh registry with no sessions.
    pub fn new() -> (mgr: LogBufferManager)
        ensures
            mgr.wf(),
            mgr.table() == Map::<Seq<char>, int>::empty(),
            mgr.slots() == Seq::<LogBuffer>::empty(),
    {
        let mgr = LogBufferManager {
            slots: Vec::new(),
            entries: Vec::new(),
            table: Ghost(Map::empty()),
        };
        proof {
            assert(mgr.slots() =~= Seq::<LogBuffer>::empty());
        }
        mgr
    }

    /// Handle for a currently registered identifier, absent otherwise.
    /// Side-effect-free.
    pub fn get(&self, slug: &str) -> (r: Option<BufferHandle>)
        requires
            self.wf(),
        ensures
            r is Some <==> self.table().contains_key(slug@),
            r matches Some(h) ==> h.id() == self.table()[slug@] && self.valid_handle(h),
    {
        let key = slug.to_owned();
        let n = self.entries.len();
        let mut j: usize = 0;
        while j < n
            invariant
                j <= n,
                n == self.entries@.len(),
                key@ == slug@,
                self.wf(),
                forall|j0: int| 0 <= j0 < j ==> (#[trigger] self.entries@[j0]).0@ != slug@,
            decreases n - j,
        {
            if self.entries[j].0 == key {
                return Some(BufferHandle { index: self.entries[j].1 });
            }
            j = j + 1;
        }
        None
    }

    /// What `get_or_create` does: the identifier maps to the returned handle
    /// afterwards; an already registered identifier keeps its buffer and the
    /// registry is untouched, otherwise exactly one fresh empty buffer is
    /// created in a new slot and no existing slot changes.
    pub open spec fn get_or_create_post(
        pre: LogBufferManager,
        post: LogBufferManager,
        id: Seq<char>,
        h: BufferHandle,
    ) -> bool {
        &&& post.table() == pre.table().insert(id, h.id())
        &&& post.valid_handle(h)
        &&& if pre.table().contains_key(id) {
            &&& h.id() == pre.table()[id]
            &&& post.table() == pre.table()
            &&& post.slots() == pre.slots()
        } else {
            &&& h.id() == pre.slots().len() as int
            &&& post.slots().len() == pre.slots().len() + 1
            &&& post.slots().take(pre.slots().len() as int) == pre.slots()
            &&& post.slot(h).wf()
            &&& post.slot(h).total() == 0
            &&& post.slot(h).history() == Seq::<Seq<char>>::empty()
            &&& post.slot(h).cap() == MAX_LOG_LINES
        }
    }

    /// Returns the existing handle for the identifier, or registers a fresh
    /// empty buffer and returns its handle. Repeating the call with the same
    /// identifier yields a handle to the same buffer, never a second one.
    pub fn get_or_create(&mut self, slug: &str) -> (h: BufferHandle)
        requires
            old(self).wf(),
        ensures
            final(self).wf(),
            Self::get_or_create_post(*old(self), *final(self), slug@, h),
    {
        let key = slug.to_owned();
        let n = self.entries.len();
        let mut j: usize = 0;
        while j < n
            invariant
                j <= n,
                n == self.entries@.len(),
                key@ == slug@,
                self.wf(),
                self == old(self),
                forall|j0: int| 0 <= j0 < j ==> (#[trigger] self.entries@[j0]).0@ != slug@,
            decreases n - j,
        {
            if self.entries[j].0 == key {
                let h = BufferHandle { index: self.entries[j].1 };
                proof {
                    assert(self.table() =~= self.table().insert(slug@, h.id()));
                }
                return h;
            }
            j = j + 1;
        }
        let index = self.slots.len();
        let h = BufferHandle { index };
        self.slots.push(LogBuffer::new());
        self.entries.push((key, index));
        proof {
            self.table@ = self.table@.insert(slug@, h.id());
            assert(old(self).slots() =~= self.slots().take(old(self).slots().len() as int));
            assert forall|k: Seq<char>| #[trigger] self.table@.contains_key(k) implies exists|
                j0: int,
            |
                0 <= j0 < self.entries@.len() && (#[trigger] self.entries@[j0]).0@ == k by {
                if k == slug@ {
                    assert(self.entries@[self.entries@.len() - 1].0@ == k);
                } else {
                    let j0 = choose|j0: int|
                        0 <= j0 < old(self).entries@.len() && (#[trigger] old(
                            self,
                        ).entries@[j0]).0@ == k;
                    assert(self.entries@[j0].0@ == k);
                }
            }
        }
        h
    }

    /// What `remove` does: the identifier is unregistered, and every slot —
    /// including the one it mapped to — is left exactly as it was, so handles
    /// already held elsewhere keep working.
    pub open spec fn remove_post(
        pre: LogBufferManager,
        post: LogBufferManager,
        id: Seq<char>,
    ) -> bool {
        &&& post.table() == pre.table().remove(id)
        &&& post.slots() == pre.slots()
    }

    /// Unregisters an identifier. Only future lookups are affected: the
    /// buffer itself survives for any handle already bound to it.
    pub fn remove(&mut self, slug: &str)
        requires
            old(self).wf(),
        ensures
            final(self).wf(),
            Self::remove_post(*old(self), *final(self), slug@),
    {
        let key = slug.to_owned();
        let n = self.entries.len();
        let mut j: usize = 0;
        while j < n
            invariant
                j <= n,
                n == self.entries@.len(),
                key@ == slug@,
                self.wf(),
                self == old(self),
                forall|j0: int| 0 <= j0 < j ==> (#[trigger] self.entries@[j0]).0@ != slug@,
            decreases n - j,
        {
            if self.entries[j].0 == key {
                self.entries.remove(j);
                proof {
                    self.table@ = self.table@.remove(slug@);
                    let pre = *old(self);
                    assert forall|k: Seq<char>| #[trigger]
                        self.table@.contains_key(k) implies exists|j0: int|
                        0 <= j0 < self.entries@.len() && (#[trigger] self.entries@[j0]).0@
                            == k by {
                        let j1 = choose|j1: int|
                            0 <= j1 < pre.entries@.len() && (#[trigger] pre.entries@[j1]).0@
                                == k;
                        if j1 < j {
                            assert(self.entries@[j1].0@ == k);
                        } else {
                            assert(self.entries@[j1 - 1].0@ == k);
                        }
                    }
                    assert forall|j1: int, j2: int|
                        0 <= j1 < j2 < self.entries@.len() implies (
                    #[trigger] self.entries@[j1]).0@ != (#[trigger] self.entries@[j2]).0@ by {
                        let p1 = if j1 < j as int {
                            j1
                        } else {
                            j1 + 1
                        };
                        let p2 = if j2 < j as int {
                            j2
                        } else {
                            j2 + 1
                        };
                        assert(self.entries@[j1] == pre.entries@[p1]);
                        assert(self.entries@[j2] == pre.entries@[p2]);
                    }
                }
                return ;
            }
            j = j + 1;
        }
        proof {
            // nothing was registered under this identifier
            assert(self.table@ =~= self.table@.remove(slug@));
        }
    }

    /// What `append_via` does to the registry: the designated buffer takes
    /// the batch, every other slot and the identifier table are untouched.
    pub open spec fn append_via_post(
        pre: LogBufferManager,
        post: LogBufferManager,
        h: BufferHandle,
        batch: Seq<Seq<char>>,
    ) -> bool {
        &&& post.table() == pre.table()
        &&& post.slots().len() == pre.slots().len()
        &&& forall|i: int|
            0 <= i < pre.slots().len() && i != h.id() ==> #[trigger] post.slots()[i]
                == pre.slots()[i]
        &&& post.slot(h).cap() == pre.slot(h).cap()
        &&& post.slot(h).history() == pre.slot(h).history() + batch
        &&& post.slot(h).total() == pre.slot(h).total() + batch.len()
    }

    /// Appends a batch to the buffer a handle designates. Works whether or
    /// not the buffer's identifier is still registered.
    pub fn append_via(&mut self, h: BufferHandle, lines: Vec<String>)
        requires
            old(self).wf(),
            old(self).valid_handle(h),
            old(self).slot(h).total() + lines@.len() <= usize::MAX,
        ensures
            final(self).wf(),
            Self::append_via_post(
                *old(self),
                *final(self),
                h,
                lines@.map_values(|l: String| l@),
            ),
    {
        self.slots[h.index].append_lines(lines);
        proof {
            assert forall|i: int| 0 <= i < self.slots@.len() implies (
            #[trigger] self.slots@[i]).wf() by {
                if i != h.id() {
                    assert(self.slots@[i] == old(self).slots@[i]);
                }
            }
            assert forall|k: Seq<char>| #[trigger] self.table@.contains_key(k) implies exists|
                j0: int,
            | 0 <= j0 < self.entries@.len() && (#[trigger] self.entries@[j0]).0@ == k by {
                let j0 = choose|j0: int|
                    0 <= j0 < old(self).entries@.len() && (#[trigger] old(self).entries@[j0]).0@
                        == k;
                assert(self.entries@[j0].0@ == k);
            }
        }
    }

    /// Read access to the buffer a handle designates.
    pub fn buffer(&self, h: BufferHandle) -> (buf: &LogBuffer)
        requires
            self.wf(),
            self.valid_handle(h),
        ensures
            *buf == self.slot(h),
            buf.wf(),
    {
        &self.slots[h.index]
    }
}

/// Idempotent creation: when one `get_or_create` of an identifier has
/// answered with handle `h1`, a second `get_or_create` of the same identifier
/// answers with the very same handle, creates nothing, and leaves the
/// registry untouched — both callers share one buffer, so an append through
/// either handle is an append to the buffer the other designates.
pub proof fn lemma_idempotent_creation(
    m0: LogBufferManager,
    m1: LogBufferManager,
    m2: LogBufferManager,
    id: Seq<char>,
    h1: BufferHandle,
    h2: BufferHandle,
)
    requires
        LogBufferManager::get_or_create_post(m0, m1, id, h1),
        LogBufferManager::get_or_create_post(m1, m2, id, h2),
    ensures
        h2 == h1,
        m2.table() == m1.table(),
        m2.slots() == m1.slots(),
        m2.slot(h2) == m2.slot(h1),
{
    assert(m1.table().contains_key(id));
}

/// Post-removal isolation: after an identifier is removed, looking it up
/// finds nothing, yet a handle bound to its buffer beforehand still
/// designates that very buffer, unchanged, and still satisfies everything an
/// append requires.
pub proof fn lemma_post_removal_isolation(
    m0: LogBufferManager,
    m1: LogBufferManager,
    id: Seq<char>,
    h: BufferHandle,
)
    requires
        m0.wf(),
        m0.table().contains_key(id),
        h.id() == m0.table()[id],
        LogBufferManager::remove_post(m0, m1, id),
    ensures
        !m1.table().contains_key(id),
        m1.valid_handle(h),
        m1.slot(h) == m0.slot(h),
{
}

/// Ring invariant: however the appends were batched, a well-formed buffer
/// retains exactly the most recent `min(total, cap)` lines of its history,
/// in append order, and its counter equals the history length.
pub proof fn lemma_ring_invariant(buf: &LogBuffer)
    requires
        buf.wf(),
    ensures
        buf@.len() == retained_len(buf.total(), buf.cap()),
        buf@ == buf.history().skip(
            buf.history().len() - retained_len(buf.total(), buf.cap()),
        ),
        buf.total() == buf.history().len(),
{
}

} // verus!
