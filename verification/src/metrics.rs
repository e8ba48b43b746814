//! The metrics layer.
//!
//! [`MetricsLayer`] wraps an accessor with request, byte and error
//! accounting while preserving the accessor's contract exactly. At
//! construction it pre-binds one request counter per operation, so the hot
//! path only increments a bound counter; error counters are the cold path
//! and are allocated on first use. Byte-carrying calls account the bytes
//! actually transferred, not the requested size: a read hands out a counting
//! reader, and giving it back through `close_reader` flushes what was really
//! consumed — exactly once, however little of the stream was read.

use vstd::prelude::*;

use crate::accessor::{
    Accessor, Layer, OpAbortMultipart, OpCompleteMultipart, OpCreate, OpCreateMultipart, OpDelete,
    OpList, OpPresign, OpRead, OpStat, OpWrite, OpWriteMultipart, RpAbortMultipart,
    RpCompleteMultipart, RpCreate, RpCreateMultipart, RpDelete, RpList, RpPresign, RpRead, RpStat,
    RpWrite, RpWriteMultipart,
};
use crate::error::{Error, ErrorKind};
use crate::meta::{AccessorMetadata, MetaView};
use crate::ops::Operation;
use crate::pager::Page;
use crate::reader::OutputRead;

verus! {

/// `x + 1`, stopping at the counter's ceiling.
pub open spec fn sat_inc(x: u64) -> u64 {
    if x < u64::MAX {
        (x + 1) as u64
    } else {
        x
    }
}

/// `x + n`, stopping at the counter's ceiling.
pub open spec fn sat_add(x: u64, n: u64) -> u64 {
    if x + n <= u64::MAX {
        (x + n) as u64
    } else {
        u64::MAX
    }
}

/// A point on the process's monotonic clock.
#[verifier::external_body]
pub struct MonotonicInstant {
    at: std::time::Instant,
}

/// Relies on std::time::Instant::now: a reading of the monotonic clock. The
/// reading depends on the machine and the moment, so nothing is assumed of
/// it.
#[verifier::external_body]
fn monotonic_now() -> MonotonicInstant {
    MonotonicInstant { at: std::time::Instant::now() }
}

/// Relies on std::time::Instant::elapsed: the nanoseconds since the point
/// was taken, saturated into the counter's width. The value depends on the
/// clock, so nothing is assumed of it.
#[verifier::external_body]
fn elapsed_nanos(since: &MonotonicInstant) -> u64 {
    let nanos = since.at.elapsed().as_nanos();
    if nanos > u64::MAX as u128 {
        u64::MAX
    } else {
        nanos as u64
    }
}

/// The pre-bound counters of one wrapped accessor: a request counter and a
/// wall-time counter per operation, a byte counter per byte-carrying
/// operation, and lazily allocated error counters keyed by operation and
/// error kind.
pub struct MetricsHandler {
    requests: Vec<u64>,
    bytes: Vec<u64>,
    durations: Vec<u64>,
    errors: Vec<((Operation, ErrorKind), u64)>,
}

/// The position of an operation's request counter.
pub open spec fn op_index(op: Operation) -> int {
    match op {
        Operation::Metadata => 0,
        Operation::Create => 1,
        Operation::Read => 2,
        Operation::Write => 3,
        Operation::Stat => 4,
        Operation::Delete => 5,
        Operation::List => 6,
        Operation::Presign => 7,
        Operation::CreateMultipart => 8,
        Operation::WriteMultipart => 9,
        Operation::CompleteMultipart => 10,
        Operation::AbortMultipart => 11,
        Operation::BlockingCreate => 12,
        Operation::BlockingRead => 13,
        Operation::BlockingWrite => 14,
        Operation::BlockingStat => 15,
        Operation::BlockingDelete => 16,
        Operation::BlockingList => 17,
    }
}

/// How many operations there are.
pub const OP_COUNT: usize = 18;

/// The count of error entries matching a pair, scanning from the front.
pub open spec fn errors_in(
    log: Seq<((Operation, ErrorKind), u64)>,
    op: Operation,
    kind: ErrorKind,
) -> u64
    decreases log.len(),
{
    if log.len() == 0 {
        0
    } else if log[0].0 == (op, kind) {
        log[0].1
    } else {
        errors_in(log.skip(1), op, kind)
    }
}

fn exec_op_index(op: Operation) -> (r: usize)
    ensures
        r as int == op_index(op),
{
    match op {
        Operation::Metadata => 0,
        Operation::Create => 1,
        Operation::Read => 2,
        Operation::Write => 3,
        Operation::Stat => 4,
        Operation::Delete => 5,
        Operation::List => 6,
        Operation::Presign => 7,
        Operation::CreateMultipart => 8,
        Operation::WriteMultipart => 9,
        Operation::CompleteMultipart => 10,
        Operation::AbortMultipart => 11,
        Operation::BlockingCreate => 12,
        Operation::BlockingRead => 13,
        Operation::BlockingWrite => 14,
        Operation::BlockingStat => 15,
        Operation::BlockingDelete => 16,
        Operation::BlockingList => 17,
    }
}

fn sat_inc_exec(x: u64) -> (r: u64)
    ensures
        r == sat_inc(x),
{
    if x < u64::MAX {
        x + 1
    } else {
        x
    }
}

fn sat_add_exec(x: u64, n: u64) -> (r: u64)
    ensures
        r == sat_add(x, n),
{
    if n <= u64::MAX - x {
        x + n
    } else {
        u64::MAX
    }
}

impl MetricsHandler {
    /// The handler is well formed: one slot per operation.
    pub closed spec fn wf(&self) -> bool {
        self.requests@.len() == OP_COUNT && self.bytes@.len() == OP_COUNT && self.durations@.len()
            == OP_COUNT
    }

    /// The request counter of an operation.
    pub closed spec fn requests_of(&self, op: Operation) -> u64 {
        self.requests@[op_index(op)]
    }

    /// The byte counter of an operation.
    pub closed spec fn bytes_of(&self, op: Operation) -> u64 {
        self.bytes@[op_index(op)]
    }

    /// The error counter of an operation and error kind.
    pub closed spec fn errors_of(&self, op: Operation, kind: ErrorKind) -> u64 {
        errors_in(self.errors@, op, kind)
    }

    /// The accumulated wall time of an operation, in nanoseconds.
    pub closed spec fn durations_of(&self, op: Operation) -> u64 {
        self.durations@[op_index(op)]
    }

    /// Pre-bind every request and byte counter at zero; no error counter is
    /// allocated in advance (errors are the cold path).
    pub fn new() -> (r: MetricsHandler)
        ensures
            r.wf(),
            forall|op: Operation| #[trigger] r.requests_of(op) == 0,
            forall|op: Operation| #[trigger] r.bytes_of(op) == 0,
            forall|op: Operation| #[trigger] r.durations_of(op) == 0,
            forall|op: Operation, k: ErrorKind| #[trigger] r.errors_of(op, k) == 0,
    {
        let mut requests: Vec<u64> = Vec::new();
        let mut i: usize = 0;
        while i < OP_COUNT
            invariant
                i <= OP_COUNT,
                requests@.len() == i,
                forall|j: int| 0 <= j < i ==> requests@[j] == 0,
            decreases OP_COUNT - i,
        {
            requests.push(0);
            i = i + 1;
        }
        let mut bytes: Vec<u64> = Vec::new();
        let mut i: usize = 0;
        while i < OP_COUNT
            invariant
                i <= OP_COUNT,
                bytes@.len() == i,
                forall|j: int| 0 <= j < i ==> bytes@[j] == 0,
            decreases OP_COUNT - i,
        {
            bytes.push(0);
            i = i + 1;
        }
        let mut durations: Vec<u64> = Vec::new();
        let mut i: usize = 0;
        while i < OP_COUNT
            invariant
                i <= OP_COUNT,
                durations@.len() == i,
                forall|j: int| 0 <= j < i ==> durations@[j] == 0,
            decreases OP_COUNT - i,
        {
            durations.push(0);
            i = i + 1;
        }
        let r = MetricsHandler { requests, bytes, durations, errors: Vec::new() };
        proof {
            assert(r.errors@ =~= Seq::<((Operation, ErrorKind), u64)>::empty());
        }
        r
    }

    /// Count one more request for the operation; every other counter keeps
    /// its value.
    pub fn record_request(&mut self, op: Operation)
        ensures
            final(self).wf() == old(self).wf(),
            old(self).wf() ==> {
                &&& final(self).requests_of(op) == sat_inc(old(self).requests_of(op))
                &&& forall|o: Operation|
                    o != op ==> #[trigger] final(self).requests_of(o) == old(self).requests_of(o)
            },
            forall|o: Operation| #[trigger] final(self).bytes_of(o) == old(self).bytes_of(o),
            forall|o: Operation| #[trigger] final(self).durations_of(o) == old(self).durations_of(o),
            forall|o: Operation, k: ErrorKind| #[trigger]
                final(self).errors_of(o, k) == old(self).errors_of(o, k),
    {
        let i = exec_op_index(op);
        if i >= self.requests.len() {
            return ;
        }
        let bumped = sat_inc_exec(self.requests[i]);
        self.requests.set(i, bumped);
        proof {
            assert(forall|o: Operation|
                o != op ==> op_index(o) != op_index(op)) by {
                assert(forall|o: Operation| #[trigger] op_index(o) == op_index(op) ==> o == op);
            }
        }
    }

    /// Count transferred bytes for the operation; every other counter keeps
    /// its value.
    pub fn record_bytes(&mut self, op: Operation, n: u64)
        ensures
            final(self).wf() == old(self).wf(),
            old(self).wf() ==> {
                &&& final(self).bytes_of(op) == sat_add(old(self).bytes_of(op), n)
                &&& forall|o: Operation|
                    o != op ==> #[trigger] final(self).bytes_of(o) == old(self).bytes_of(o)
            },
            forall|o: Operation| #[trigger] final(self).requests_of(o) == old(self).requests_of(o),
            forall|o: Operation| #[trigger] final(self).durations_of(o) == old(self).durations_of(o),
            forall|o: Operation, k: ErrorKind| #[trigger]
                final(self).errors_of(o, k) == old(self).errors_of(o, k),
    {
        let i = exec_op_index(op);
        if i >= self.bytes.len() {
            return ;
        }
        let bumped = sat_add_exec(self.bytes[i], n);
        self.bytes.set(i, bumped);
        proof {
            assert(forall|o: Operation|
                o != op ==> op_index(o) != op_index(op)) by {
                assert(forall|o: Operation| #[trigger] op_index(o) == op_index(op) ==> o == op);
            }
        }
    }

    /// Account wall time against the operation; every other counter keeps
    /// its value.
    pub fn record_duration(&mut self, op: Operation, nanos: u64)
        ensures
            final(self).wf() == old(self).wf(),
            old(self).wf() ==> {
                &&& final(self).durations_of(op) == sat_add(old(self).durations_of(op), nanos)
                &&& forall|o: Operation|
                    o != op ==> #[trigger] final(self).durations_of(o) == old(self).durations_of(o)
            },
            forall|o: Operation| #[trigger] final(self).requests_of(o) == old(self).requests_of(o),
            forall|o: Operation| #[trigger] final(self).bytes_of(o) == old(self).bytes_of(o),
            forall|o: Operation, k: ErrorKind| #[trigger]
                final(self).errors_of(o, k) == old(self).errors_of(o, k),
    {
        let i = exec_op_index(op);
        if i >= self.durations.len() {
            return ;
        }
        let bumped = sat_add_exec(self.durations[i], nanos);
        self.durations.set(i, bumped);
        proof {
            assert(forall|o: Operation|
                o != op ==> op_index(o) != op_index(op)) by {
                assert(forall|o: Operation| #[trigger] op_index(o) == op_index(op) ==> o == op);
            }
        }
    }

    /// Count one more error of this operation and kind, allocating its
    /// counter on first use; every other counter keeps its value.
    pub fn increment_errors_total(&mut self, op: Operation, kind: ErrorKind)
        ensures
            final(self).wf() == old(self).wf(),
            final(self).errors_of(op, kind) == sat_inc(old(self).errors_of(op, kind)),
            forall|o: Operation, k: ErrorKind|
                !(o == op && k == kind) ==> #[trigger] final(self).errors_of(o, k) == old(
                    self,
                ).errors_of(o, k),
            forall|o: Operation| #[trigger] final(self).requests_of(o) == old(self).requests_of(o),
            forall|o: Operation| #[trigger] final(self).bytes_of(o) == old(self).bytes_of(o),
            forall|o: Operation| #[trigger] final(self).durations_of(o) == old(self).durations_of(o),
    {
        let n = self.errors.len();
        let mut i: usize = 0;
        while i < n
            invariant
                self == old(self),
                n == self.errors@.len(),
                i <= n,
                forall|j: int| 0 <= j < i ==> (#[trigger] self.errors@[j]).0 != (op, kind),
            decreases n - i,
        {
            let hit = self.errors[i].0.0 == op && self.errors[i].0.1 == kind;
            if hit {
                let bumped = sat_inc_exec(self.errors[i].1);
                let pair = self.errors[i].0;
                self.errors.set(i, (pair, bumped));
                proof {
                    lemma_errors_in_update(old(self).errors@, self.errors@, i as int, op, kind);
                }
                return ;
            }
            i = i + 1;
        }
        self.errors.push(((op, kind), 1));
        proof {
            lemma_errors_in_append(old(self).errors@, op, kind);
        }
    }
}

/// Updating the first matching entry bumps exactly that pair's count.
proof fn lemma_errors_in_update(
    before: Seq<((Operation, ErrorKind), u64)>,
    after: Seq<((Operation, ErrorKind), u64)>,
    i: int,
    op: Operation,
    kind: ErrorKind,
)
    requires
        0 <= i < before.len(),
        after.len() == before.len(),
        forall|j: int| 0 <= j < before.len() && j != i ==> after[j] == before[j],
        forall|j: int| 0 <= j < i ==> (#[trigger] before[j]).0 != (op, kind),
        before[i].0 == (op, kind),
        after[i].0 == (op, kind),
        after[i].1 == sat_inc(before[i].1),
    ensures
        errors_in(after, op, kind) == sat_inc(errors_in(before, op, kind)),
        forall|o: Operation, k: ErrorKind|
            !(o == op && k == kind) ==> errors_in(after, o, k) == errors_in(before, o, k),
    decreases i,
{
    if i > 0 {
        assert(before[0] == after[0]);
        lemma_errors_in_update(before.skip(1), after.skip(1), i - 1, op, kind);
        assert(before.skip(1)[i - 1] == before[i]);
        assert(after.skip(1)[i - 1] == after[i]);
    }
    assert forall|o: Operation, k: ErrorKind| !(o == op && k == kind) implies errors_in(
        after,
        o,
        k,
    ) == errors_in(before, o, k) by {
        assert((o, k) != (op, kind));
        if i == 0 {
            assert(after.skip(1) =~= before.skip(1));
            assert(errors_in(after, o, k) == errors_in(after.skip(1), o, k));
            assert(errors_in(before, o, k) == errors_in(before.skip(1), o, k));
        } else {
            if before[0].0 == (o, k) {
                assert(errors_in(after, o, k) == after[0].1);
                assert(errors_in(before, o, k) == before[0].1);
            } else {
                assert(errors_in(after, o, k) == errors_in(after.skip(1), o, k));
                assert(errors_in(before, o, k) == errors_in(before.skip(1), o, k));
            }
        }
    }
    if i == 0 {
        assert(errors_in(after, op, kind) == after[0].1);
    }
}

/// Appending a fresh entry for an unseen pair sets its count from zero to
/// one and leaves every other pair's count alone.
proof fn lemma_errors_in_append(
    log: Seq<((Operation, ErrorKind), u64)>,
    op: Operation,
    kind: ErrorKind,
)
    requires
        forall|j: int| 0 <= j < log.len() ==> (#[trigger] log[j]).0 != (op, kind),
    ensures
        errors_in(log, op, kind) == 0,
        errors_in(log.push(((op, kind), 1)), op, kind) == 1,
        forall|o: Operation, k: ErrorKind|
            !(o == op && k == kind) ==> errors_in(log.push(((op, kind), 1)), o, k) == errors_in(
                log,
                o,
                k,
            ),
    decreases log.len(),
{
    let pushed = log.push(((op, kind), 1));
    if log.len() == 0 {
        assert(pushed[0] == ((op, kind), 1u64));
        assert(pushed.skip(1) =~= Seq::<((Operation, ErrorKind), u64)>::empty());
        assert forall|o: Operation, k: ErrorKind| !(o == op && k == kind) implies errors_in(
            pushed,
            o,
            k,
        ) == errors_in(log, o, k) by {
            assert((o, k) != (op, kind));
            assert(errors_in(pushed, o, k) == errors_in(pushed.skip(1), o, k));
        }
    } else {
        lemma_errors_in_append(log.skip(1), op, kind);
        assert(pushed[0] == log[0]);
        assert(pushed.skip(1) =~= log.skip(1).push(((op, kind), 1)));
        assert forall|o: Operation, k: ErrorKind| !(o == op && k == kind) implies errors_in(
            pushed,
            o,
            k,
        ) == errors_in(log, o, k) by {
            assert((o, k) != (op, kind));
            if log[0].0 == (o, k) {
                assert(errors_in(pushed, o, k) == pushed[0].1);
                assert(errors_in(log, o, k) == log[0].1);
            } else {
                assert(errors_in(pushed, o, k) == errors_in(pushed.skip(1), o, k));
                assert(errors_in(log, o, k) == errors_in(log.skip(1), o, k));
            }
        }
    }
}

/// A reader that counts every byte its owner consumes, carrying the clock
/// point its read began at so the whole span — including consumption — can
/// be accounted when it is closed.
pub struct MetricReader<R: OutputRead> {
    inner: R,
    bytes: u64,
    started: MonotonicInstant,
}

impl<R: OutputRead> MetricReader<R> {
    /// How many bytes have been consumed through this reader.
    pub closed spec fn bytes_read(&self) -> u64 {
        self.bytes
    }

    /// Wrap a reader; nothing has been consumed yet.
    pub fn new(inner: R, started: MonotonicInstant) -> (r: MetricReader<R>)
        ensures
            r.remaining() == inner.remaining(),
            r.bytes_read() == 0,
    {
        MetricReader { inner, bytes: 0, started }
    }
}

impl<R: OutputRead> OutputRead for MetricReader<R> {
    closed spec fn remaining(&self) -> Seq<u8> {
        self.inner.remaining()
    }

    fn read_bytes(&mut self, max: usize) -> (r: Vec<u8>)
        ensures
            r@.len() == if max as int <= old(self).remaining().len() {
                max as int
            } else {
                old(self).remaining().len() as int
            },
            r@ == old(self).remaining().take(r@.len() as int),
            final(self).remaining() == old(self).remaining().skip(r@.len() as int),
            final(self).bytes_read() == sat_add(old(self).bytes_read(), r@.len() as u64),
    {
        let chunk = self.inner.read_bytes(max);
        self.bytes = sat_add_exec(self.bytes, chunk.len() as u64);
        chunk
    }

    fn remaining_len(&self) -> (r: usize)
        ensures
            r == self.remaining().len(),
    {
        self.inner.remaining_len()
    }
}

/// Wrap every operation of an accessor with metrics accounting.
#[derive(Clone, Copy, Debug)]
pub struct MetricsLayer;

/// The accessor produced by [`MetricsLayer`]: it counts, then delegates.
pub struct MetricsAccessor<A: Accessor> {
    inner: A,
    handle: MetricsHandler,
}

impl<A: Accessor> MetricsAccessor<A> {
    /// The handler's slots are laid out.
    pub closed spec fn handle_wf(&self) -> bool {
        self.handle.wf()
    }

    /// The request counter of an operation.
    pub closed spec fn requests_total(&self, op: Operation) -> u64 {
        self.handle.requests_of(op)
    }

    /// The byte counter of an operation.
    pub closed spec fn bytes_total(&self, op: Operation) -> u64 {
        self.handle.bytes_of(op)
    }

    /// The error counter of an operation and kind.
    pub closed spec fn errors_total(&self, op: Operation, kind: ErrorKind) -> u64 {
        self.handle.errors_of(op, kind)
    }

    /// The accumulated wall time of an operation, in nanoseconds.
    pub closed spec fn durations_total(&self, op: Operation) -> u64 {
        self.handle.durations_of(op)
    }

    /// Read one wall-time counter.
    pub fn durations_count(&self, op: Operation) -> (r: u64)
        requires
            self.handle_wf(),
        ensures
            r == self.durations_total(op),
    {
        let i = exec_op_index(op);
        self.handle.durations[i]
    }

    /// Read one request counter.
    pub fn requests_count(&self, op: Operation) -> (r: u64)
        requires
            self.handle_wf(),
        ensures
            r == self.requests_total(op),
    {
        let i = exec_op_index(op);
        self.handle.requests[i]
    }

    /// Read one byte counter.
    pub fn bytes_count(&self, op: Operation) -> (r: u64)
        requires
            self.handle_wf(),
        ensures
            r == self.bytes_total(op),
    {
        let i = exec_op_index(op);
        self.handle.bytes[i]
    }

    /// Read one error counter; a pair never seen reads zero.
    pub fn errors_count(&self, op: Operation, kind: ErrorKind) -> (r: u64)
        ensures
            r == self.errors_total(op, kind),
    {
        let n = self.handle.errors.len();
        let mut i: usize = 0;
        proof {
            assert(self.handle.errors@.skip(0int) =~= self.handle.errors@);
        }
        while i < n
            invariant
                n == self.handle.errors@.len(),
                i <= n,
                errors_in(self.handle.errors@, op, kind) == errors_in(
                    self.handle.errors@.skip(i as int),
                    op,
                    kind,
                ),
                forall|j: int| 0 <= j < i ==> (#[trigger] self.handle.errors@[j]).0 != (op, kind),
            decreases n - i,
        {
            let hit = self.handle.errors[i].0.0 == op && self.handle.errors[i].0.1 == kind;
            proof {
                assert(self.handle.errors@.skip(i as int)[0] == self.handle.errors@[i as int]);
                assert(self.handle.errors@.skip(i as int).skip(1) =~= self.handle.errors@.skip(
                    i + 1,
                ));
            }
            if hit {
                return self.handle.errors[i].1;
            }
            i = i + 1;
        }
        proof {
            assert(self.handle.errors@.skip(n as int) =~= Seq::<
                ((Operation, ErrorKind), u64),
            >::empty());
        }
        0
    }

    /// The wrapped accessor.
    pub fn inner(&self) -> (r: &A)
        ensures
            r.meta_view() == self.meta_view(),
            r.store() == self.store(),
            r.oplog() == self.oplog(),
            r.reliable() == self.reliable(),
    {
        &self.inner
    }
}

impl<A: Accessor> Layer<A> for MetricsLayer {
    type LayeredAccessor = MetricsAccessor<A>;

    fn layer(&self, inner: A) -> (r: MetricsAccessor<A>)
        ensures
            r.meta_view() == inner.meta_view(),
            r.store() == inner.store(),
            r.oplog() == inner.oplog(),
            r.reliable() == inner.reliable(),
            r.handle_wf(),
            forall|op: Operation| #[trigger] r.requests_total(op) == 0,
            forall|op: Operation| #[trigger] r.bytes_total(op) == 0,
            forall|op: Operation| #[trigger] r.durations_total(op) == 0,
            forall|op: Operation, k: ErrorKind| #[trigger] r.errors_total(op, k) == 0,
    {
        MetricsAccessor { inner, handle: MetricsHandler::new() }
    }
}

impl<A: Accessor> Accessor for MetricsAccessor<A> {
    type Reader = MetricReader<A::Reader>;

    type Pager = A::Pager;

    closed spec fn meta_view(&self) -> MetaView {
        self.inner.meta_view()
    }

    closed spec fn store(&self) -> Map<Seq<char>, Seq<u8>> {
        self.inner.store()
    }

    closed spec fn oplog(&self) -> Seq<Operation> {
        self.inner.oplog()
    }

    closed spec fn reliable(&self) -> bool {
        self.inner.reliable()
    }

    fn metadata(&self) -> (r: AccessorMetadata) {
        self.inner.metadata()
    }

    fn create(&mut self, path: &str, args: OpCreate) -> (r: Result<RpCreate, Error>)
        ensures
            old(self).handle_wf() ==> final(self).handle_wf() && metrics_updated(
                *old(self),
                *final(self),
                Operation::Create,
                if r is Ok {
                    None
                } else {
                    Some(r->Err_0.kind())
                },
            ),
    {
        let clock = monotonic_now();
        self.handle.record_request(Operation::Create);
        let result = self.inner.create(path, args);
        self.handle.record_duration(Operation::Create, elapsed_nanos(&clock));
        if let Err(e) = &result {
            self.handle.increment_errors_total(Operation::Create, e.kind());
        }
        result
    }

    fn read(&mut self, path: &str, args: OpRead) -> (r: Result<
        (RpRead, MetricReader<A::Reader>),
        Error,
    >)
        ensures
            old(self).handle_wf() ==> final(self).handle_wf() && metrics_updated(
                *old(self),
                *final(self),
                Operation::Read,
                if r is Ok {
                    None
                } else {
                    Some(r->Err_0.kind())
                },
            ),
            r matches Ok((rp, reader)) ==> reader.bytes_read() == 0,
    {
        let clock = monotonic_now();
        self.handle.record_request(Operation::Read);
        match self.inner.read(path, args) {
            Ok((rp, reader)) => Ok((rp, MetricReader::new(reader, clock))),
            Err(e) => {
                self.handle.record_duration(Operation::Read, elapsed_nanos(&clock));
                self.handle.increment_errors_total(Operation::Read, e.kind());
                Err(e)
            },
        }
    }

    fn write(&mut self, path: &str, args: OpWrite, source: Vec<u8>) -> (r: Result<RpWrite, Error>)
        ensures
            old(self).handle_wf() ==> final(self).handle_wf() && metrics_updated_bytes(
                *old(self),
                *final(self),
                Operation::Write,
                if r is Ok {
                    None
                } else {
                    Some(r->Err_0.kind())
                },
                if r is Ok {
                    source@.len() as u64
                } else {
                    0
                },
            ),
    {
        let clock = monotonic_now();
        self.handle.record_request(Operation::Write);
        let n = source.len() as u64;
        let result = self.inner.write(path, args, source);
        self.handle.record_duration(Operation::Write, elapsed_nanos(&clock));
        match result {
            Ok(rp) => {
                self.handle.record_bytes(Operation::Write, n);
                Ok(rp)
            },
            Err(e) => {
                self.handle.increment_errors_total(Operation::Write, e.kind());
                Err(e)
            },
        }
    }

    fn stat(&mut self, path: &str, args: OpStat) -> (r: Result<RpStat, Error>)
        ensures
            old(self).handle_wf() ==> final(self).handle_wf() && metrics_updated(
                *old(self),
                *final(self),
                Operation::Stat,
                if r is Ok {
                    None
                } else {
                    Some(r->Err_0.kind())
                },
            ),
    {
        let clock = monotonic_now();
        self.handle.record_request(Operation::Stat);
        let result = self.inner.stat(path, args);
        self.handle.record_duration(Operation::Stat, elapsed_nanos(&clock));
        if let Err(e) = &result {
            self.handle.increment_errors_total(Operation::Stat, e.kind());
        }
        result
    }

    fn delete(&mut self, path: &str, args: OpDelete) -> (r: Result<RpDelete, Error>)
        ensures
            old(self).handle_wf() ==> final(self).handle_wf() && metrics_updated(
                *old(self),
                *final(self),
                Operation::Delete,
                if r is Ok {
                    None
                } else {
                    Some(r->Err_0.kind())
                },
            ),
    {
        let clock = monotonic_now();
        self.handle.record_request(Operation::Delete);
        let result = self.inner.delete(path, args);
        self.handle.record_duration(Operation::Delete, elapsed_nanos(&clock));
        if let Err(e) = &result {
            self.handle.increment_errors_total(Operation::Delete, e.kind());
        }
        result
    }

    fn list(&mut self, path: &str, args: OpList) -> (r: Result<(RpList, A::Pager), Error>)
        ensures
            old(self).handle_wf() ==> final(self).handle_wf() && metrics_updated(
                *old(self),
                *final(self),
                Operation::List,
                if r is Ok {
                    None
                } else {
                    Some(r->Err_0.kind())
                },
            ),
    {
        let clock = monotonic_now();
        self.handle.record_request(Operation::List);
        let result = self.inner.list(path, args);
        self.handle.record_duration(Operation::List, elapsed_nanos(&clock));
        if let Err(e) = &result {
            self.handle.increment_errors_total(Operation::List, e.kind());
        }
        result
    }

    fn presign(&mut self, path: &str, args: OpPresign) -> (r: Result<RpPresign, Error>)
        ensures
            old(self).handle_wf() ==> final(self).handle_wf() && metrics_updated(
                *old(self),
                *final(self),
                Operation::Presign,
                if r is Ok {
                    None
                } else {
                    Some(r->Err_0.kind())
                },
            ),
    {
        let clock = monotonic_now();
        self.handle.record_request(Operation::Presign);
        let result = self.inner.presign(path, args);
        self.handle.record_duration(Operation::Presign, elapsed_nanos(&clock));
        if let Err(e) = &result {
            self.handle.increment_errors_total(Operation::Presign, e.kind());
        }
        result
    }

    fn create_multipart(&mut self, path: &str, args: OpCreateMultipart) -> (r: Result<
        RpCreateMultipart,
        Error,
    >)
        ensures
            old(self).handle_wf() ==> final(self).handle_wf() && metrics_updated(
                *old(self),
                *final(self),
                Operation::CreateMultipart,
                if r is Ok {
                    None
                } else {
                    Some(r->Err_0.kind())
                },
            ),
    {
        let clock = monotonic_now();
        self.handle.record_request(Operation::CreateMultipart);
        let result = self.inner.create_multipart(path, args);
        self.handle.record_duration(Operation::CreateMultipart, elapsed_nanos(&clock));
        if let Err(e) = &result {
            self.handle.increment_errors_total(Operation::CreateMultipart, e.kind());
        }
        result
    }

    fn write_multipart(&mut self, path: &str, args: OpWriteMultipart, source: Vec<u8>) -> (r:
        Result<RpWriteMultipart, Error>)
        ensures
            old(self).handle_wf() ==> final(self).handle_wf() && metrics_updated_bytes(
                *old(self),
                *final(self),
                Operation::WriteMultipart,
                if r is Ok {
                    None
                } else {
                    Some(r->Err_0.kind())
                },
                if r is Ok {
                    source@.len() as u64
                } else {
                    0
                },
            ),
    {
        let clock = monotonic_now();
        self.handle.record_request(Operation::WriteMultipart);
        let n = source.len() as u64;
        let result = self.inner.write_multipart(path, args, source);
        self.handle.record_duration(Operation::WriteMultipart, elapsed_nanos(&clock));
        match result {
            Ok(rp) => {
                self.handle.record_bytes(Operation::WriteMultipart, n);
                Ok(rp)
            },
            Err(e) => {
                self.handle.increment_errors_total(Operation::WriteMultipart, e.kind());
                Err(e)
            },
        }
    }

    fn complete_multipart(&mut self, path: &str, args: OpCompleteMultipart) -> (r: Result<
        RpCompleteMultipart,
        Error,
    >)
        ensures
            old(self).handle_wf() ==> final(self).handle_wf() && metrics_updated(
                *old(self),
                *final(self),
                Operation::CompleteMultipart,
                if r is Ok {
                    None
                } else {
                    Some(r->Err_0.kind())
                },
            ),
    {
        let clock = monotonic_now();
        self.handle.record_request(Operation::CompleteMultipart);
        let result = self.inner.complete_multipart(path, args);
        self.handle.record_duration(Operation::CompleteMultipart, elapsed_nanos(&clock));
        if let Err(e) = &result {
            self.handle.increment_errors_total(Operation::CompleteMultipart, e.kind());
        }
        result
    }

    fn abort_multipart(&mut self, path: &str, args: OpAbortMultipart) -> (r: Result<
        RpAbortMultipart,
        Error,
    >)
        ensures
            old(self).handle_wf() ==> final(self).handle_wf() && metrics_updated(
                *old(self),
                *final(self),
                Operation::AbortMultipart,
                if r is Ok {
                    None
                } else {
                    Some(r->Err_0.kind())
                },
            ),
    {
        let clock = monotonic_now();
        self.handle.record_request(Operation::AbortMultipart);
        let result = self.inner.abort_multipart(path, args);
        self.handle.record_duration(Operation::AbortMultipart, elapsed_nanos(&clock));
        if let Err(e) = &result {
            self.handle.increment_errors_total(Operation::AbortMultipart, e.kind());
        }
        result
    }

    fn close_reader(&mut self, reader: MetricReader<A::Reader>)
        ensures
            old(self).handle_wf() ==> final(self).handle_wf() && final(self).bytes_total(
                Operation::Read,
            ) == sat_add(old(self).bytes_total(Operation::Read), reader.bytes_read()) && (
            forall|o: Operation|
                o != Operation::Read ==> #[trigger] final(self).bytes_total(o) == old(
                    self,
                ).bytes_total(o)) && final(self).durations_total(Operation::Read) >= old(
                self,
            ).durations_total(Operation::Read) && (forall|o: Operation|
                o != Operation::Read ==> #[trigger] final(self).durations_total(o) == old(
                    self,
                ).durations_total(o)) && (forall|o: Operation| #[trigger]
                final(self).requests_total(o) == old(self).requests_total(o)) && (
            forall|o: Operation, k: ErrorKind| #[trigger]
                final(self).errors_total(o, k) == old(self).errors_total(o, k)),
    {
        let MetricReader { inner, bytes, started } = reader;
        self.handle.record_bytes(Operation::Read, bytes);
        self.handle.record_duration(Operation::Read, elapsed_nanos(&started));
        self.inner.close_reader(inner);
    }
}

/// After one counted call: the operation's request counter went up by one;
/// a failed call also bumped the error counter of its operation and kind;
/// nothing else moved.
pub open spec fn metrics_updated<A: Accessor>(
    before: MetricsAccessor<A>,
    after: MetricsAccessor<A>,
    op: Operation,
    failure: Option<ErrorKind>,
) -> bool {
    metrics_updated_bytes(before, after, op, failure, 0)
}

/// After one counted byte-carrying call: additionally, the operation's byte
/// counter went up by exactly the bytes transferred.
pub open spec fn metrics_updated_bytes<A: Accessor>(
    before: MetricsAccessor<A>,
    after: MetricsAccessor<A>,
    op: Operation,
    failure: Option<ErrorKind>,
    moved: u64,
) -> bool {
    &&& after.requests_total(op) == sat_inc(before.requests_total(op))
    &&& forall|o: Operation|
        o != op ==> #[trigger] after.requests_total(o) == before.requests_total(o)
    &&& after.bytes_total(op) == sat_add(before.bytes_total(op), moved)
    &&& forall|o: Operation| o != op ==> #[trigger] after.bytes_total(o) == before.bytes_total(o)
    &&& after.durations_total(op) >= before.durations_total(op)
    &&& forall|o: Operation|
        o != op ==> #[trigger] after.durations_total(o) == before.durations_total(o)
    &&& match failure {
        None => forall|o: Operation, k: ErrorKind| #[trigger]
            after.errors_total(o, k) == before.errors_total(o, k),
        Some(kind) => after.errors_total(op, kind) == sat_inc(before.errors_total(op, kind)) && (
        forall|o: Operation, k: ErrorKind|
            !(o == op && k == kind) ==> #[trigger] after.errors_total(o, k) == before.errors_total(
                o,
                k,
            )),
    }
}

} // verus!
