//! The USB side: buffer configuration, transport errors, and the bookkeeping of
//! the ring of buffers that in-flight bulk transfers fill and a consumer drains.
use vstd::prelude::*;

verus! {

/// Shape of a transfer ring.
#[derive(Debug, Clone, Copy, PartialEq, Eq, Structural)]
pub struct Configuration {
    pub buffer_size: usize,
    pub ring_size: usize,
    pub transfer_queue_size: usize,
    pub allow_dma: bool,
}

/// Errors of the USB transport, as the native library reports them.
#[derive(Debug, Clone, Copy, PartialEq, Eq, Structural)]
pub enum TransportError {
    Io,
    InvalidParam,
    Access,
    NoDevice,
    NotFound,
    Busy,
    Timeout,
    Overflow,
    Pipe,
    Interrupted,
    NoMem,
    NotSupported,
    BadDescriptor,
    Other,
}

/// Lifecycle of one transfer descriptor. Only `Complete` descriptors may be
/// freed; `Deallocated` is final.
#[derive(Debug, Clone, Copy, PartialEq, Eq, Structural)]
pub enum TransferStatus {
    Active,
    Complete,
    Cancelling,
    Deallocated,
}

/// How the transport says a transfer ended.
#[derive(Debug, Clone, Copy, PartialEq, Eq, Structural)]
pub enum CompletionStatus {
    Completed,
    TimedOut,
    Error,
    Cancelled,
    Stall,
    NoDevice,
    Overflow,
}

impl CompletionStatus {
    /// The transport error that a failed transfer reports, `None` for a transfer
    /// that delivered data.
    pub open spec fn error_spec(self) -> Option<TransportError> {
        match self {
            CompletionStatus::Completed | CompletionStatus::TimedOut => None,
            CompletionStatus::Error | CompletionStatus::Cancelled => Some(TransportError::Io),
            CompletionStatus::Stall => Some(TransportError::Pipe),
            CompletionStatus::NoDevice => Some(TransportError::NoDevice),
            CompletionStatus::Overflow => Some(TransportError::Overflow),
        }
    }

    pub fn error(self) -> (r: Option<TransportError>)
        ensures
            r == self.error_spec(),
    {
        match self {
            CompletionStatus::Completed | CompletionStatus::TimedOut => None,
            CompletionStatus::Error | CompletionStatus::Cancelled => Some(TransportError::Io),
            CompletionStatus::Stall => Some(TransportError::Pipe),
            CompletionStatus::NoDevice => Some(TransportError::NoDevice),
            CompletionStatus::Overflow => Some(TransportError::Overflow),
        }
    }
}

/// What the completion handler must do once the ring's lock is released.
#[derive(Debug, Clone, Copy, PartialEq, Eq, Structural)]
pub struct Completion {
    /// The slot whose length (and completion instant) was recorded; the
    /// consumer is to be woken.
    pub recorded: Option<usize>,
    /// The buffer to rebind the descriptor to before submitting it again.
    pub resubmit: Option<usize>,
    /// A transport error to publish.
    pub error: Option<TransportError>,
    /// The producer caught the consumer: a ring overflow warning to publish.
    pub overflow: bool,
}

/// The ring's state, as plain values.
pub struct RingModel {
    /// The slot last delivered to the consumer.
    pub read: int,
    /// First in-flight slot, and one past the last (modulo the ring length).
    pub write_start: int,
    pub write_end: int,
    pub statuses: Seq<TransferStatus>,
    pub lengths: Seq<usize>,
}

/// The slot after `i` in a ring of `n` slots.
pub open spec fn succ(n: int, i: int) -> int {
    if i + 1 == n {
        0
    } else {
        i + 1
    }
}

/// The number of steps from slot `a` forward to slot `b`.
pub open spec fn dist(n: int, a: int, b: int) -> int {
    if b >= a {
        b - a
    } else {
        b + n - a
    }
}

impl RingModel {
    pub open spec fn len(self) -> int {
        self.lengths.len() as int
    }

    /// Number of descriptors.
    pub open spec fn queue(self) -> int {
        self.statuses.len() as int
    }

    /// Filled slots that the consumer has not taken yet: those after `read` and
    /// before the in-flight window.
    pub open spec fn pending(self) -> int {
        dist(self.len(), succ(self.len(), self.read), self.write_start)
    }

    /// Slots in the in-flight window.
    pub open spec fn in_flight(self) -> int {
        dist(self.len(), self.write_start, self.write_end)
    }

    /// The delivered slot, the pending slots, the in-flight window and the free
    /// slots follow each other around the ring without overlap; the window
    /// holds one slot per descriptor.
    pub open spec fn wf(self) -> bool {
        &&& self.queue() < self.len()
        &&& 0 <= self.read < self.len()
        &&& 0 <= self.write_start < self.len()
        &&& 0 <= self.write_end < self.len()
        &&& self.in_flight() == self.queue()
        &&& self.pending() + self.queue() + 1 <= self.len()
    }

    /// Whether the producer may advance without overwriting the consumer's slot.
    pub open spec fn has_room(self) -> bool {
        self.write_end != self.read
    }

    /// Records `length` at the first in-flight slot and slides the window by one.
    pub open spec fn advance(self, length: usize) -> RingModel {
        RingModel {
            lengths: self.lengths.update(self.write_start, length),
            write_start: succ(self.len(), self.write_start),
            write_end: succ(self.len(), self.write_end),
            ..self
        }
    }

    /// The state and the actions after descriptor `index` ends with `status`,
    /// having written `length` bytes.
    pub open spec fn complete(
        self,
        index: int,
        status: CompletionStatus,
        length: usize,
    ) -> (RingModel, Completion) {
        let room = self.has_room();
        let advanced = if room {
            self.advance(length)
        } else {
            self
        };
        let recorded = if room {
            Some(self.write_start as usize)
        } else {
            None
        };
        let retired = RingModel { statuses: advanced.statuses.update(index, TransferStatus::Complete), ..advanced };
        if self.statuses[index] == TransferStatus::Active && status.error_spec() is None {
            if room {
                (
                    advanced,
                    Completion {
                        recorded,
                        resubmit: Some(self.write_end as usize),
                        error: None,
                        overflow: false,
                    },
                )
            } else {
                (
                    retired,
                    Completion { recorded: None, resubmit: None, error: None, overflow: true },
                )
            }
        } else if self.statuses[index] == TransferStatus::Active {
            (
                retired,
                Completion {
                    recorded,
                    resubmit: None,
                    error: status.error_spec(),
                    overflow: false,
                },
            )
        } else {
            (retired, Completion { recorded, resubmit: None, error: None, overflow: false })
        }
    }

    /// The consumer's step: skips pending slots of length zero, then takes the
    /// next pending slot if there is one. `k` bounds the number of slots looked at.
    pub open spec fn take_next(self, k: nat) -> (RingModel, Option<usize>)
        decreases k,
    {
        if k == 0 || self.pending() == 0 {
            (self, None)
        } else {
            let next = RingModel { read: succ(self.len(), self.read), ..self };
            if self.lengths[next.read] > 0 {
                (next, Some(next.read as usize))
            } else {
                next.take_next((k - 1) as nat)
            }
        }
    }

    /// The number of descriptors that the transport may still touch.
    pub open spec fn live(self) -> int {
        live_count(self.statuses)
    }
}

pub open spec fn is_live(s: TransferStatus) -> bool {
    s == TransferStatus::Active || s == TransferStatus::Cancelling
}

/// The number of statuses in `Active` or `Cancelling`.
pub open spec fn live_count(statuses: Seq<TransferStatus>) -> int
    decreases statuses.len(),
{
    if statuses.len() == 0 {
        0
    } else {
        live_count(statuses.drop_last()) + if is_live(statuses.last()) {
            1int
        } else {
            0
        }
    }
}

proof fn lemma_live_count_bounds(statuses: Seq<TransferStatus>)
    ensures
        0 <= live_count(statuses) <= statuses.len(),
        (forall|i: int| 0 <= i < statuses.len() ==> is_live(#[trigger] statuses[i])) ==> live_count(
            statuses,
        ) == statuses.len(),
    decreases statuses.len(),
{
    if statuses.len() > 0 {
        lemma_live_count_bounds(statuses.drop_last());
        if forall|i: int| 0 <= i < statuses.len() ==> is_live(#[trigger] statuses[i]) {
            assert forall|i: int| 0 <= i < statuses.drop_last().len() implies is_live(
                #[trigger] statuses.drop_last()[i],
            ) by {
                assert(statuses.drop_last()[i] == statuses[i]);
            }
        }
    }
}

proof fn lemma_live_count_update(statuses: Seq<TransferStatus>, i: int, v: TransferStatus)
    requires
        0 <= i < statuses.len(),
    ensures
        live_count(statuses.update(i, v)) == live_count(statuses) - (if is_live(statuses[i]) {
            1int
        } else {
            0
        }) + (if is_live(v) {
            1int
        } else {
            0
        }),
    decreases statuses.len(),
{
    let u = statuses.update(i, v);
    if i == statuses.len() - 1 {
        assert(u.drop_last() =~= statuses.drop_last());
    } else {
        assert(u.drop_last() =~= statuses.drop_last().update(i, v));
        lemma_live_count_update(statuses.drop_last(), i, v);
    }
}

/// The in-flight window always spans one slot per descriptor, and the
/// descriptors that the transport may still touch never outnumber it; they
/// match it exactly while no descriptor has been retired.
pub proof fn lemma_in_flight_covers_live(m: RingModel)
    requires
        m.wf(),
    ensures
        0 <= m.in_flight() < m.len(),
        m.in_flight() == m.queue(),
        m.live() <= m.in_flight(),
        (forall|i: int| 0 <= i < m.queue() ==> is_live(#[trigger] m.statuses[i])) ==> m.live()
            == m.in_flight(),
{
    lemma_live_count_bounds(m.statuses);
}

/// A completion keeps the ring well formed; it takes a descriptor out of the
/// live set exactly when it does not hand it back for resubmission.
pub proof fn lemma_complete_accounting(
    m: RingModel,
    index: int,
    status: CompletionStatus,
    length: usize,
)
    requires
        m.wf(),
        0 <= index < m.queue(),
        is_live(m.statuses[index]),
    ensures
        m.complete(index, status, length).0.wf(),
        m.complete(index, status, length).0.live() == m.live() - if m.complete(
            index,
            status,
            length,
        ).1.resubmit is Some {
            0int
        } else {
            1
        },
        m.complete(index, status, length).1.resubmit is Some ==> m.statuses[index]
            == TransferStatus::Active,
{
    lemma_live_count_update(m.statuses, index, TransferStatus::Complete);
}

/// The status of a descriptor after one pass of teardown, given whether the
/// transport accepted a cancellation.
pub open spec fn after_teardown(s: TransferStatus, cancel_accepted: bool) -> TransferStatus {
    match s {
        TransferStatus::Active => if cancel_accepted {
            TransferStatus::Cancelling
        } else {
            TransferStatus::Complete
        },
        TransferStatus::Complete => TransferStatus::Deallocated,
        _ => s,
    }
}

/// The status of a descriptor after its completion handler ran, if it was waiting for it.
pub open spec fn after_callback(s: TransferStatus) -> TransferStatus {
    if s == TransferStatus::Cancelling {
        TransferStatus::Complete
    } else {
        s
    }
}

/// Two passes of teardown with the pending completion handlers run in between
/// leave every descriptor deallocated, whatever the transport answered to the
/// cancellations.
pub proof fn lemma_teardown_settles(s: TransferStatus, first: bool, second: bool)
    ensures
        after_teardown(after_callback(after_teardown(s, first)), second)
            == TransferStatus::Deallocated,
        !is_live(TransferStatus::Deallocated),
{
}

/// Errors of the USB layer.
#[derive(Debug, Clone)]
pub enum Error {
    Usb(TransportError),
    /// No device with this serial was found.
    Serial(String),
    /// No device was found.
    Device,
    /// The ring size is smaller than or equal to the transfer queue size.
    ConfigurationSizes,
    /// The ring overflowed.
    Overflow,
    /// A control transfer read back other bytes than expected.
    Mismatch { expected: Vec<u8>, read: Vec<u8> },
    /// The device is already used by another program.
    Busy,
}

/// What teardown does next with one descriptor.
#[derive(Debug, Clone, Copy, PartialEq, Eq, Structural)]
pub enum Teardown {
    /// Ask the transport to cancel it.
    Cancel,
    /// Free it.
    Free,
    /// Its completion handler has yet to run.
    Wait,
    /// Nothing is left to do.
    Done,
}

pub open spec fn teardown_of(status: TransferStatus) -> Teardown {
    match status {
        TransferStatus::Active => Teardown::Cancel,
        TransferStatus::Complete => Teardown::Free,
        TransferStatus::Cancelling => Teardown::Wait,
        TransferStatus::Deallocated => Teardown::Done,
    }
}

/// The bookkeeping of a transfer ring: `N` buffer slots, `Q < N` transfer
/// descriptors, the consumer's cursor and the window of slots in flight.
/// It holds no buffer memory and makes no transport call: whoever owns the
/// buffers and descriptors asks it what to do.
pub struct Ring {
    read: usize,
    write_range: (usize, usize),
    statuses: Vec<TransferStatus>,
    lengths: Vec<usize>,
}

impl View for Ring {
    type V = RingModel;

    closed spec fn view(&self) -> RingModel {
        RingModel {
            read: self.read as int,
            write_start: self.write_range.0 as int,
            write_end: self.write_range.1 as int,
            statuses: self.statuses@,
            lengths: self.lengths@,
        }
    }
}

impl Ring {
    /// A fresh ring: nothing delivered (`read` is the last slot), the first `Q`
    /// slots in flight, every descriptor active, every length zero.
    pub fn new(configuration: &Configuration) -> (r: Result<Ring, Error>)
        ensures
            configuration.ring_size <= configuration.transfer_queue_size <==> r is Err,
            r matches Err(e) ==> e is ConfigurationSizes,
            r matches Ok(ring) ==> ring@.wf(),
            r matches Ok(ring) ==> ring@ == (RingModel {
                read: configuration.ring_size - 1,
                write_start: 0,
                write_end: configuration.transfer_queue_size as int,
                statuses: Seq::new(
                    configuration.transfer_queue_size as nat,
                    |i: int| TransferStatus::Active,
                ),
                lengths: Seq::new(configuration.ring_size as nat, |i: int| 0usize),
            }),
    {
        let n = configuration.ring_size;
        let q = configuration.transfer_queue_size;
        if n <= q {
            return Err(Error::ConfigurationSizes);
        }
        let mut statuses: Vec<TransferStatus> = Vec::new();
        let mut i: usize = 0;
        while i < q
            invariant
                i <= q,
                statuses@ == Seq::new(i as nat, |j: int| TransferStatus::Active),
            decreases q - i,
        {
            statuses.push(TransferStatus::Active);
            i = i + 1;
            assert(statuses@ =~= Seq::new(i as nat, |j: int| TransferStatus::Active));
        }
        let mut lengths: Vec<usize> = Vec::new();
        let mut i: usize = 0;
        while i < n
            invariant
                i <= n,
                lengths@ == Seq::new(i as nat, |j: int| 0usize),
            decreases n - i,
        {
            lengths.push(0);
            i = i + 1;
            assert(lengths@ =~= Seq::new(i as nat, |j: int| 0usize));
        }
        Ok(Ring { read: n - 1, write_range: (0, q), statuses, lengths })
    }

    /// The number of buffer slots `N`.
    pub fn ring_length(&self) -> (r: usize)
        ensures
            r == self@.len(),
    {
        self.lengths.len()
    }

    /// The number of descriptors `Q`.
    pub fn transfer_queue_size(&self) -> (r: usize)
        ensures
            r == self@.queue(),
    {
        self.statuses.len()
    }

    /// The slot last delivered to the consumer.
    pub fn read(&self) -> (r: usize)
        ensures
            r == self@.read,
    {
        self.read
    }

    /// The in-flight window, as first slot and one past the last.
    pub fn write_range(&self) -> (r: (usize, usize))
        ensures
            r.0 == self@.write_start,
            r.1 == self@.write_end,
    {
        self.write_range
    }

    pub fn status(&self, index: usize) -> (r: TransferStatus)
        requires
            index < self@.queue(),
        ensures
            r == self@.statuses[index as int],
    {
        self.statuses[index]
    }

    /// The recorded fill length of a slot.
    pub fn length(&self, slot: usize) -> (r: usize)
        requires
            slot < self@.len(),
        ensures
            r == self@.lengths[slot as int],
    {
        self.lengths[slot]
    }

    fn next_slot(&self, i: usize) -> (r: usize)
        requires
            i < self@.len(),
        ensures
            r == succ(self@.len(), i as int),
    {
        let n = self.lengths.len();
        if i + 1 == n {
            0
        } else {
            i + 1
        }
    }

    /// Filled slots not yet taken by the consumer.
    pub fn pending(&self) -> (r: usize)
        requires
            self@.wf(),
        ensures
            r == self@.pending(),
    {
        let first = self.next_slot(self.read);
        let start = self.write_range.0;
        if start >= first {
            start - first
        } else {
            self.lengths.len() - first + start
        }
    }

    /// Handles the end of descriptor `index`'s transfer: records the data and
    /// slides the window when there is room, retires the descriptor when the
    /// producer has caught the consumer, on a failure, or while cancelling.
    pub fn complete(&mut self, index: usize, status: CompletionStatus, length: usize) -> (r:
        Completion)
        requires
            old(self)@.wf(),
            index < old(self)@.queue(),
            is_live(old(self)@.statuses[index as int]),
        ensures
            (final(self)@, r) == old(self)@.complete(index as int, status, length),
            final(self)@.wf(),
    {
        let room = self.write_range.1 != self.read;
        let start = self.write_range.0;
        let end = self.write_range.1;
        let active = match self.statuses[index] {
            TransferStatus::Active => true,
            _ => false,
        };
        let error = status.error();
        let recorded = if room {
            Some(start)
        } else {
            None
        };
        if room {
            let next_start = self.next_slot(start);
            let next_end = self.next_slot(end);
            self.lengths.set(start, length);
            self.write_range = (next_start, next_end);
        }
        if active && error.is_none() {
            if room {
                Completion { recorded, resubmit: Some(end), error: None, overflow: false }
            } else {
                self.statuses.set(index, TransferStatus::Complete);
                Completion { recorded: None, resubmit: None, error: None, overflow: true }
            }
        } else if active {
            self.statuses.set(index, TransferStatus::Complete);
            Completion { recorded, resubmit: None, error, overflow: false }
        } else {
            self.statuses.set(index, TransferStatus::Complete);
            Completion { recorded, resubmit: None, error: None, overflow: false }
        }
    }

    /// A descriptor that could not be submitted again is retired: no
    /// completion will come for it.
    pub fn resubmit_failed(&mut self, index: usize)
        requires
            old(self)@.wf(),
            index < old(self)@.queue(),
            is_live(old(self)@.statuses[index as int]),
        ensures
            final(self)@ == (RingModel {
                statuses: old(self)@.statuses.update(index as int, TransferStatus::Complete),
                ..old(self)@
            }),
            final(self)@.wf(),
    {
        self.statuses.set(index, TransferStatus::Complete);
    }

    /// The consumer's step: skips pending slots of length zero, then takes the
    /// next pending slot, which becomes the delivered one. With nothing
    /// pending, returns `None`.
    pub fn next(&mut self) -> (r: Option<usize>)
        requires
            old(self)@.wf(),
        ensures
            (final(self)@, r) == old(self)@.take_next(old(self)@.pending() as nat),
            final(self)@.wf(),
            r matches Some(slot) ==> final(self)@.read == slot && final(self)@.lengths[slot as int]
                > 0,
            r is None ==> final(self)@.pending() == 0,
    {
        let ghost start = self@;
        while self.pending() > 0
            invariant
                start == old(self)@,
                self@.wf(),
                self@.take_next(self@.pending() as nat) == start.take_next(start.pending() as nat),
            decreases self@.pending(),
        {
            let ghost before = self@;
            let next = self.next_slot(self.read);
            self.read = next;
            assert(self@ == (RingModel { read: succ(before.len(), before.read), ..before }));
            assert(before.take_next(before.pending() as nat) == if self@.lengths[next as int] > 0 {
                (self@, Some(next))
            } else {
                self@.take_next((before.pending() - 1) as nat)
            });
            if self.lengths[next] > 0 {
                return Some(next);
            }
        }
        None
    }

    /// Descriptors from `index` on were never submitted: they are complete.
    pub fn abandon_from(&mut self, index: usize)
        requires
            old(self)@.wf(),
        ensures
            final(self)@ == (RingModel {
                statuses: Seq::new(
                    old(self)@.queue() as nat,
                    |j: int|
                        if j >= index {
                            TransferStatus::Complete
                        } else {
                            old(self)@.statuses[j]
                        },
                ),
                ..old(self)@
            }),
            final(self)@.wf(),
    {
        let ghost start = self@;
        let mut j = index;
        assert(self@.statuses =~= Seq::new(
            start.queue() as nat,
            |k: int|
                if index <= k < j {
                    TransferStatus::Complete
                } else {
                    start.statuses[k]
                },
        ));
        while j < self.statuses.len()
            invariant
                start == old(self)@,
                self@.wf(),
                self@.queue() == start.queue(),
                index <= j,
                self@ == (RingModel {
                    statuses: Seq::new(
                        start.queue() as nat,
                        |k: int|
                            if index <= k < j {
                                TransferStatus::Complete
                            } else {
                                start.statuses[k]
                            },
                    ),
                    ..start
                }),
            decreases self@.queue() - j,
        {
            self.statuses.set(j, TransferStatus::Complete);
            j = j + 1;
            assert(self@.statuses =~= Seq::new(
                start.queue() as nat,
                |k: int|
                    if index <= k < j {
                        TransferStatus::Complete
                    } else {
                        start.statuses[k]
                    },
            ));
        }
        assert(self@.statuses =~= Seq::new(
            start.queue() as nat,
            |k: int|
                if k >= index {
                    TransferStatus::Complete
                } else {
                    start.statuses[k]
                },
        ));
    }

    /// What teardown does next with descriptor `index`.
    pub fn teardown_action(&self, index: usize) -> (r: Teardown)
        requires
            index < self@.queue(),
        ensures
            r == teardown_of(self@.statuses[index as int]),
    {
        match self.statuses[index] {
            TransferStatus::Active => Teardown::Cancel,
            TransferStatus::Complete => Teardown::Free,
            TransferStatus::Cancelling => Teardown::Wait,
            TransferStatus::Deallocated => Teardown::Done,
        }
    }

    /// Records the transport's answer to the cancellation of an active
    /// descriptor: it is cancelling if accepted, else it is complete.
    pub fn cancel_requested(&mut self, index: usize, accepted: bool)
        requires
            old(self)@.wf(),
            index < old(self)@.queue(),
            old(self)@.statuses[index as int] == TransferStatus::Active,
        ensures
            final(self)@ == (RingModel {
                statuses: old(self)@.statuses.update(
                    index as int,
                    after_teardown(TransferStatus::Active, accepted),
                ),
                ..old(self)@
            }),
            final(self)@.wf(),
    {
        if accepted {
            self.statuses.set(index, TransferStatus::Cancelling);
        } else {
            self.statuses.set(index, TransferStatus::Complete);
        }
    }

    /// Records that a complete descriptor was freed.
    pub fn freed(&mut self, index: usize)
        requires
            old(self)@.wf(),
            index < old(self)@.queue(),
            old(self)@.statuses[index as int] == TransferStatus::Complete,
        ensures
            final(self)@ == (RingModel {
                statuses: old(self)@.statuses.update(
                    index as int,
                    after_teardown(TransferStatus::Complete, true),
                ),
                ..old(self)@
            }),
            final(self)@.wf(),
    {
        self.statuses.set(index, TransferStatus::Deallocated);
    }

    /// Marks every active descriptor as cancelling, for transports on which
    /// cancelling one transfer cancels all of them.
    pub fn cancel_all(&mut self)
        requires
            old(self)@.wf(),
        ensures
            final(self)@ == (RingModel {
                statuses: old(self)@.statuses.map_values(
                    |s: TransferStatus|
                        if s == TransferStatus::Active {
                            TransferStatus::Cancelling
                        } else {
                            s
                        },
                ),
                ..old(self)@
            }),
            final(self)@.wf(),
    {
        let ghost start = self@;
        let mut j: usize = 0;
        assert(self@.statuses =~= Seq::new(
            start.queue() as nat,
            |k: int|
                if k < j && start.statuses[k] == TransferStatus::Active {
                    TransferStatus::Cancelling
                } else {
                    start.statuses[k]
                },
        ));
        while j < self.statuses.len()
            invariant
                start == old(self)@,
                self@.wf(),
                self@.queue() == start.queue(),
                j <= start.queue(),
                self@ == (RingModel {
                    statuses: Seq::new(
                        start.queue() as nat,
                        |k: int|
                            if k < j && start.statuses[k] == TransferStatus::Active {
                                TransferStatus::Cancelling
                            } else {
                                start.statuses[k]
                            },
                    ),
                    ..start
                }),
            decreases self@.queue() - j,
        {
            match self.statuses[j] {
                TransferStatus::Active => {
                    self.statuses.set(j, TransferStatus::Cancelling);
                },
                _ => {},
            }
            j = j + 1;
            assert(self@.statuses =~= Seq::new(
                start.queue() as nat,
                |k: int|
                    if k < j && start.statuses[k] == TransferStatus::Active {
                        TransferStatus::Cancelling
                    } else {
                        start.statuses[k]
                    },
            ));
        }
        assert(self@.statuses =~= start.statuses.map_values(
            |s: TransferStatus|
                if s == TransferStatus::Active {
                    TransferStatus::Cancelling
                } else {
                    s
                },
        ));
    }

    /// Whether every descriptor is deallocated, so that the buffers may be released.
    pub fn released(&self) -> (r: bool)
        ensures
            r == forall|i: int|
                0 <= i < self@.queue() ==> self@.statuses[i] == TransferStatus::Deallocated,
    {
        let mut j: usize = 0;
        while j < self.statuses.len()
            invariant
                j <= self@.queue(),
                forall|i: int| 0 <= i < j ==> self@.statuses[i] == TransferStatus::Deallocated,
            decreases self@.queue() - j,
        {
            match self.statuses[j] {
                TransferStatus::Deallocated => {},
                _ => {
                    return false;
                },
            }
            j = j + 1;
        }
        true
    }
}

/// A point in time of the monotonic clock, opaque here.
#[verifier::external_type_specification]
#[verifier::external_body]
pub struct ExInstant(std::time::Instant);

/// Negotiated speed of a USB device.
#[derive(Debug, Clone, Copy, PartialEq, Eq, Structural)]
pub enum Speed {
    Unknown,
    Low,
    Full,
    High,
    Super,
    SuperPlus,
}

impl Speed {
    /// A human-readable description of the speed.
    pub open spec fn description(self) -> Seq<char> {
        match self {
            Speed::Unknown => "USB Unknown speed"@,
            Speed::Low => "USB 1.0 Low Speed (1.5 Mb/s)"@,
            Speed::Full => "USB 1.1 Full Speed (12 Mb/s)"@,
            Speed::High => "USB 2.0 High Speed (480 Mb/s)"@,
            Speed::Super => "USB 3.0 SuperSpeed (5.0 Gb/s)"@,
            Speed::SuperPlus => "USB 3.1 SuperSpeed+ (10.0 Gb/s)"@,
        }
    }

    pub fn to_string(&self) -> (r: String)
        ensures
            r@ == self.description(),
    {
        let text = match self {
            Speed::Unknown => "USB Unknown speed",
            Speed::Low => "USB 1.0 Low Speed (1.5 Mb/s)",
            Speed::Full => "USB 1.1 Full Speed (12 Mb/s)",
            Speed::High => "USB 2.0 High Speed (480 Mb/s)",
            Speed::Super => "USB 3.0 SuperSpeed (5.0 Gb/s)",
            Speed::SuperPlus => "USB 3.1 SuperSpeed+ (10.0 Gb/s)",
        };
        String::from_str(text)
    }
}

/// How the ring's transfers reach the device.
pub enum TransferType {
    Control(std::time::Duration),
    Isochronous { endpoint: u8, packets: u32, timeout: std::time::Duration },
    Bulk { endpoint: u8, timeout: std::time::Duration },
    Interrupt { endpoint: u8, timeout: std::time::Duration },
    BulkStream { endpoint: u8, stream_id: u32, timeout: std::time::Duration },
}

pub struct TransferProperties {
    pub transfer_type: TransferType,
    pub timeout: std::time::Duration,
}

/// A filled buffer handed to the consumer, with the ring's cursors at the time.
pub struct BufferView<'a> {
    /// When the transfer that filled the buffer completed.
    pub instant: std::time::Instant,
    pub slice: &'a [u8],
    pub read: usize,
    pub write_range: (usize, usize),
    pub ring_length: usize,
}

/// `(write_start + n - 1 - read) mod n`: the filled buffers that wait behind
/// the one delivered at `read`.
pub open spec fn backlog_of(n: int, read: int, write_start: int) -> int {
    (write_start + n - 1 - read) % n
}

impl<'a> BufferView<'a> {
    /// The number of filled buffers that wait behind this one.
    pub fn backlog(&self) -> (r: usize)
        requires
            self.read < self.ring_length,
            self.write_range.0 < self.ring_length,
        ensures
            r == backlog_of(self.ring_length as int, self.read as int, self.write_range.0 as int),
    {
        let n = self.ring_length;
        let start = self.write_range.0;
        if start > self.read {
            let r = start - 1 - self.read;
            assert(r == backlog_of(n as int, self.read as int, start as int)) by {
                assert((start + n - 1 - self.read) == r + n);
                vstd::arithmetic::div_mod::lemma_mod_add_multiples_vanish(r as int, n as int);
                vstd::arithmetic::div_mod::lemma_small_mod(r as nat, n as nat);
            }
            r
        } else {
            let r = n - 1 - self.read + start;
            assert(r == backlog_of(n as int, self.read as int, start as int)) by {
                vstd::arithmetic::div_mod::lemma_small_mod(r as nat, n as nat);
            }
            r
        }
    }

    /// Relies on `std::time::Instant::elapsed`: the time since the buffer was
    /// filled, by the monotonic clock.
    #[verifier::external_body]
    pub fn delay(&self) -> std::time::Duration {
        self.instant.elapsed()
    }
}

/// The delivered slot's backlog, as a view reports it, is the number of
/// filled slots that the ring still holds for the consumer.
pub proof fn lemma_backlog_is_pending(m: RingModel)
    requires
        m.wf(),
    ensures
        backlog_of(m.len(), m.read, m.write_start) == m.pending(),
{
    let n = m.len();
    let p = m.pending();
    assert(0 <= p < n);
    if m.write_start > m.read {
        assert(m.write_start + n - 1 - m.read == p + n);
        vstd::arithmetic::div_mod::lemma_mod_add_multiples_vanish(p, n);
    } else {
        assert(m.write_start + n - 1 - m.read == p);
    }
    vstd::arithmetic::div_mod::lemma_small_mod(p as nat, n as nat);
}

} // verus!
