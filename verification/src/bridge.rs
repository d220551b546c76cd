//! The stream bridge: a ring of samples of fixed capacity between the capture
//! callback, which produces, and the playback callback, which consumes.
//! Neither end ever waits. A producer that finds the ring full drops what
//! does not fit; a consumer that finds too little fills the gap with silence.

use vstd::arithmetic::div_mod::{lemma_add_mod_noop, lemma_small_mod, lemma_sub_mod_noop};
use vstd::prelude::*;

verus! {

/// A counter of events that stops at the largest value it can hold.
pub open spec fn bump(count: nat) -> nat {
    if count < u64::MAX {
        count + 1
    } else {
        count
    }
}

/// The mathematical content of a bridge: the samples that wait in it, oldest
/// first, and its counters.
pub struct BridgeView<T> {
    pub capacity: nat,
    pub queue: Seq<T>,
    pub silence: T,
    pub overflows: nat,
    pub underruns: nat,
}

impl<T> BridgeView<T> {
    /// An empty bridge.
    pub open spec fn empty(capacity: nat, silence: T) -> Self {
        BridgeView { capacity, queue: Seq::empty(), silence, overflows: 0, underruns: 0 }
    }

    /// How many more samples fit.
    pub open spec fn room(self) -> nat {
        (self.capacity - self.queue.len()) as nat
    }

    /// How many of `offered` samples a producer gets in.
    pub open spec fn accepted(self, offered: nat) -> nat {
        if offered <= self.room() {
            offered
        } else {
            self.room()
        }
    }

    /// How many of `wanted` samples a consumer gets out.
    pub open spec fn delivered(self, wanted: nat) -> nat {
        if wanted <= self.queue.len() {
            wanted
        } else {
            self.queue.len()
        }
    }

    /// The bridge after a producer offered `samples`: the first that fit
    /// wait behind those already there, the later ones are dropped.
    pub open spec fn produce(self, samples: Seq<T>) -> Self {
        let k = self.accepted(samples.len());
        BridgeView {
            queue: self.queue + samples.take(k as int),
            overflows: if k < samples.len() {
                bump(self.overflows)
            } else {
                self.overflows
            },
            ..self
        }
    }

    /// The block that a consumer asking for `wanted` samples receives: the
    /// oldest waiting samples, then silence up to the length asked for.
    pub open spec fn block(self, wanted: nat) -> Seq<T> {
        let k = self.delivered(wanted);
        self.queue.take(k as int) + Seq::new((wanted - k) as nat, |i: int| self.silence)
    }

    /// The bridge after a consumer asked for `wanted` samples.
    pub open spec fn consume(self, wanted: nat) -> Self {
        let k = self.delivered(wanted);
        BridgeView {
            queue: self.queue.skip(k as int),
            underruns: if k < wanted {
                bump(self.underruns)
            } else {
                self.underruns
            },
            ..self
        }
    }
}

/// One operation on a bridge: a producer offers samples, or a consumer asks
/// for a block of some length.
pub enum BridgeOp<T> {
    Produce(Seq<T>),
    Consume(nat),
}

/// What a run of operations has done to a bridge: the bridge it left, every
/// sample that was taken in, and every waiting sample that was handed out,
/// each in the order in which it happened.
pub struct BridgeRun<T> {
    pub bridge: BridgeView<T>,
    pub taken: Seq<T>,
    pub given: Seq<T>,
}

impl<T> BridgeRun<T> {
    /// The run after one more operation.
    pub open spec fn step(self, op: BridgeOp<T>) -> Self {
        match op {
            BridgeOp::Produce(samples) => BridgeRun {
                bridge: self.bridge.produce(samples),
                taken: self.taken + samples.take(self.bridge.accepted(samples.len()) as int),
                given: self.given,
            },
            BridgeOp::Consume(wanted) => BridgeRun {
                bridge: self.bridge.consume(wanted),
                taken: self.taken,
                given: self.given + self.bridge.queue.take(self.bridge.delivered(wanted) as int),
            },
        }
    }
}

/// The run of the operations `ops`, in order, on the bridge `start`.
pub open spec fn run<T>(start: BridgeView<T>, ops: Seq<BridgeOp<T>>) -> BridgeRun<T>
    decreases ops.len(),
{
    if ops.len() == 0 {
        BridgeRun { bridge: start, taken: Seq::empty(), given: Seq::empty() }
    } else {
        run(start, ops.drop_last()).step(ops.last())
    }
}

/// A block always has the length that was asked for, and after the waiting
/// samples it holds nothing but silence.
pub proof fn lemma_block_shape<T>(bridge: BridgeView<T>, wanted: nat)
    ensures
        bridge.block(wanted).len() == wanted,
        forall|i: int|
            0 <= i < bridge.delivered(wanted) ==> bridge.block(wanted)[i] == bridge.queue[i],
        forall|i: int|
            bridge.delivered(wanted) <= i < wanted ==> bridge.block(wanted)[i] == bridge.silence,
{
}

/// A consumer that finds the bridge starved receives silence of exactly the
/// length asked for, and the bridge stays empty.
pub proof fn lemma_starved_block_is_silence<T>(bridge: BridgeView<T>, wanted: nat)
    requires
        bridge.queue.len() == 0,
    ensures
        bridge.block(wanted) == Seq::new(wanted, |i: int| bridge.silence),
        bridge.consume(wanted).queue.len() == 0,
{
}

/// Neither operation lets more samples wait than the bridge can hold.
pub proof fn lemma_capacity_is_kept<T>(bridge: BridgeView<T>, op: BridgeOp<T>)
    requires
        bridge.queue.len() <= bridge.capacity,
    ensures
        match op {
            BridgeOp::Produce(samples) => {
                &&& bridge.produce(samples).queue.len() <= bridge.capacity
                &&& bridge.produce(samples).capacity == bridge.capacity
            },
            BridgeOp::Consume(wanted) => {
                &&& bridge.consume(wanted).queue.len() <= bridge.capacity
                &&& bridge.consume(wanted).capacity == bridge.capacity
            },
        },
{
}

/// What was taken in comes out once, in the order in which it went in:
/// after any run, the samples that waited at the start followed by those
/// taken in are the samples handed out followed by those that still wait.
pub proof fn lemma_first_in_first_out<T>(start: BridgeView<T>, ops: Seq<BridgeOp<T>>)
    ensures
        start.queue + run(start, ops).taken == run(start, ops).given + run(start, ops).bridge.queue,
        run(start, ops).bridge.capacity == start.capacity,
        run(start, ops).bridge.silence == start.silence,
    decreases ops.len(),
{
    if ops.len() > 0 {
        let before = run(start, ops.drop_last());
        lemma_first_in_first_out(start, ops.drop_last());
        if let BridgeOp::Produce(samples) = ops.last() {
            let fit = samples.take(before.bridge.accepted(samples.len()) as int);
            assert(start.queue + (before.taken + fit) == (start.queue + before.taken) + fit);
        }
    }
}

/// A read sees only what was written before it began: the block handed out
/// by the operation at place `at` of a run holds the oldest samples, among
/// those that waited at the start or were taken in by the operations before
/// `at`, that no earlier read was given; whatever is produced afterwards has
/// no part in it.
pub proof fn lemma_read_sees_only_earlier_writes<T>(
    start: BridgeView<T>,
    ops: Seq<BridgeOp<T>>,
    at: int,
)
    requires
        0 <= at < ops.len(),
        ops[at] is Consume,
    ensures
        ({
            let before = run(start, ops.take(at));
            let wanted = ops[at]->Consume_0;
            let k = before.bridge.delivered(wanted);
            let written = start.queue + before.taken;
            &&& run(start, ops.take(at + 1)).given == before.given + before.bridge.block(
                wanted,
            ).take(k as int)
            &&& before.given.len() + k <= written.len()
            &&& before.bridge.block(wanted).take(k as int) == written.subrange(
                before.given.len() as int,
                (before.given.len() + k) as int,
            )
        }),
{
    lemma_first_in_first_out(start, ops.take(at));
    assert(ops.take(at + 1).drop_last() == ops.take(at));
}

/// Sums and differences of multiples of `d` are multiples of `d`.
proof fn lemma_multiples(a: int, b: int, d: int)
    requires
        d > 0,
        a % d == 0,
        b % d == 0,
    ensures
        (a + b) % d == 0,
        (a - b) % d == 0,
{
    lemma_small_mod(0, d as nat);
    lemma_add_mod_noop(a, b, d);
    lemma_sub_mod_noop(a, b, d);
}

/// Frames stay whole. Where the bridge holds whole frames of `channels`
/// samples each, has room for whole frames only, and is offered or asked for
/// whole frames, it takes in and hands out whole frames and holds whole
/// frames afterwards: no sample ever changes its channel.
pub proof fn lemma_frames_stay_whole<T>(bridge: BridgeView<T>, channels: nat, op: BridgeOp<T>)
    requires
        channels > 0,
        bridge.queue.len() <= bridge.capacity,
        bridge.capacity % channels == 0,
        bridge.queue.len() % channels == 0,
        match op {
            BridgeOp::Produce(samples) => samples.len() % channels == 0,
            BridgeOp::Consume(wanted) => wanted % channels == 0,
        },
    ensures
        match op {
            BridgeOp::Produce(samples) => {
                &&& bridge.accepted(samples.len()) % channels == 0
                &&& bridge.produce(samples).queue.len() % channels == 0
            },
            BridgeOp::Consume(wanted) => {
                &&& bridge.delivered(wanted) % channels == 0
                &&& bridge.consume(wanted).queue.len() % channels == 0
            },
        },
{
    let len = bridge.queue.len() as int;
    let d = channels as int;
    lemma_multiples(bridge.capacity as int, len, d);
    match op {
        BridgeOp::Produce(samples) => {
            lemma_multiples(len, bridge.accepted(samples.len()) as int, d);
        },
        BridgeOp::Consume(wanted) => {
            lemma_multiples(len, bridge.delivered(wanted) as int, d);
        },
    }
}

/// The bounded ring of samples between the two callbacks.
pub struct StreamBridge<T> {
    slots: Vec<T>,
    head: usize,
    len: usize,
    silence: T,
    overflows: u64,
    underruns: u64,
}

/// The slot that holds the sample `offset` places behind the oldest one, in
/// a ring of `capacity` slots whose oldest sample is in slot `head`.
pub open spec fn slot_of(head: int, capacity: int, offset: int) -> int {
    if head + offset < capacity {
        head + offset
    } else {
        head + offset - capacity
    }
}

impl<T> View for StreamBridge<T> {
    type V = BridgeView<T>;

    closed spec fn view(&self) -> BridgeView<T> {
        BridgeView {
            capacity: self.slots@.len(),
            queue: Seq::new(
                self.len as nat,
                |j: int| self.slots@[slot_of(self.head as int, self.slots@.len() as int, j)],
            ),
            silence: self.silence,
            overflows: self.overflows as nat,
            underruns: self.underruns as nat,
        }
    }
}

impl<T> StreamBridge<T> {
    #[verifier::type_invariant]
    spec fn well_formed(&self) -> bool {
        &&& self.len <= self.slots@.len()
        &&& self.head < self.slots@.len() || (self.head == 0 && self.slots@.len() == 0)
    }
}

impl<T: Copy> StreamBridge<T> {
    /// The slot `offset` places behind the oldest sample.
    fn slot(&self, offset: usize) -> (pos: usize)
        requires
            offset < self.slots@.len(),
            self.head < self.slots@.len(),
        ensures
            pos == slot_of(self.head as int, self.slots@.len() as int, offset as int),
            pos < self.slots@.len(),
    {
        let to_end: usize = self.slots.len() - self.head;
        if offset < to_end {
            self.head + offset
        } else {
            offset - to_end
        }
    }

    /// An empty bridge that holds up to `capacity` samples and fills the
    /// gaps of a starved consumer with `silence`.
    pub fn new(capacity: usize, silence: T) -> (bridge: Self)
        ensures
            bridge@ == BridgeView::empty(capacity as nat, silence),
    {
        let mut slots: Vec<T> = Vec::new();
        while slots.len() < capacity
            invariant
                slots@.len() <= capacity,
            decreases capacity - slots@.len(),
        {
            slots.push(silence);
        }
        let bridge = StreamBridge { slots, head: 0, len: 0, silence, overflows: 0, underruns: 0 };
        assert(bridge@.queue == Seq::<T>::empty());
        bridge
    }

    /// The number of samples the bridge can hold.
    pub fn capacity(&self) -> (n: usize)
        ensures
            n == self@.capacity,
    {
        self.slots.len()
    }

    /// The number of samples that wait in the bridge; never more than it
    /// can hold.
    pub fn len(&self) -> (n: usize)
        ensures
            n == self@.queue.len(),
            n <= self@.capacity,
    {
        proof {
            use_type_invariant(self);
        }
        self.len
    }

    /// Whether no sample waits in the bridge.
    pub fn is_empty(&self) -> (b: bool)
        ensures
            b == (self@.queue.len() == 0),
    {
        self.len == 0
    }

    /// How often a producer had to drop samples.
    pub fn overflows(&self) -> (n: u64)
        ensures
            n == self@.overflows,
    {
        self.overflows
    }

    /// How often a consumer was handed silence.
    pub fn underruns(&self) -> (n: u64)
        ensures
            n == self@.underruns,
    {
        self.underruns
    }

    /// Takes in the samples of `samples` that fit, in order, and drops the
    /// rest; where any is dropped the overflow counter goes up by one.
    /// Returns how many were taken in.
    pub fn produce(&mut self, samples: &[T]) -> (taken: usize)
        ensures
            final(self)@ == old(self)@.produce(samples@),
            taken == old(self)@.accepted(samples@.len()),
    {
        proof {
            use_type_invariant(&*self);
        }
        let room: usize = self.slots.len() - self.len;
        let taken: usize = if samples.len() <= room {
            samples.len()
        } else {
            room
        };
        let mut i: usize = 0;
        while i < taken
            invariant
                i <= taken,
                taken <= samples@.len(),
                old(self).len + taken <= self.slots@.len() <= usize::MAX,
                self.slots@.len() == old(self).slots@.len(),
                self.head == old(self).head,
                self.head < self.slots@.len() || taken == 0,
                self.len == old(self).len + i,
                self.silence == old(self).silence,
                self.overflows == old(self).overflows,
                self.underruns == old(self).underruns,
                self@.queue == old(self)@.queue + samples@.take(i as int),
            decreases taken - i,
        {
            let pos = self.slot(self.len);
            let ghost before = self@.queue;
            self.slots[pos] = samples[i];
            self.len = self.len + 1;
            i += 1;
            assert(self@.queue == before.push(samples@[i - 1]));
        }
        if taken < samples.len() && self.overflows < u64::MAX {
            self.overflows = self.overflows + 1;
        }
        taken
    }

    /// Fills `out` with the oldest waiting samples, in order, and with
    /// silence where too few wait; where any silence is handed out the
    /// underrun counter goes up by one. Returns how many waiting samples were
    /// handed out.
    pub fn consume(&mut self, out: &mut [T]) -> (given: usize)
        ensures
            final(out)@ == old(self)@.block(old(out)@.len()),
            final(self)@ == old(self)@.consume(old(out)@.len()),
            given == old(self)@.delivered(old(out)@.len()),
    {
        proof {
            use_type_invariant(&*self);
        }
        let wanted: usize = out.len();
        let given: usize = if wanted <= self.len {
            wanted
        } else {
            self.len
        };
        let mut i: usize = 0;
        while i < given
            invariant
                i <= given,
                given <= self.len,
                given <= wanted,
                out@.len() == wanted,
                self.len <= self.slots@.len(),
                self.head < self.slots@.len() || given == 0,
                forall|j: int| 0 <= j < i ==> out@[j] == self@.queue[j],
            decreases given - i,
        {
            let pos = self.slot(i);
            out[i] = self.slots[pos];
            i += 1;
        }
        while i < wanted
            invariant
                given <= i <= wanted,
                given <= self.len,
                out@.len() == wanted,
                forall|j: int| 0 <= j < given ==> out@[j] == self@.queue[j],
                forall|j: int| given <= j < i ==> out@[j] == self.silence,
            decreases wanted - i,
        {
            out[i] = self.silence;
            i += 1;
        }
        let ghost before = self@;
        if given > 0 {
            if given < self.slots.len() {
                self.head = self.slot(given);
            }
            self.len = self.len - given;
        }
        if given < wanted && self.underruns < u64::MAX {
            self.underruns = self.underruns + 1;
        }
        assert(self@.queue == before.queue.skip(given as int));
        given
    }
}

} // verus!
