//! The ring buffer bridge of the callback-bridge strategy.
//!
//! A bounded single-producer single-consumer sample queue connects one
//! real-time capture callback to one real-time render callback. Neither
//! side may block: on a full buffer the producer drops the newest sample
//! (bounded latency over completeness), and on an empty buffer the consumer
//! renders silence (glitch-free over completeness). A sample is carried as
//! the bit pattern of one 32-bit sample; the zero pattern is silence. Mono
//! capture is up-mixed to stereo by duplicating each captured sample across
//! both output channels.
use vstd::prelude::*;

verus! {

/// Capacity for one second of stereo audio at 48,000 frames per second.
pub const BRIDGE_SAMPLE_CAPACITY: usize = 96000;

/// A bounded lock-free sample queue. The queue itself lives in the outside
/// ring buffer; this library reasons about it through the two names below.
#[verifier::external_body]
pub struct SampleQueue {
    rb: ringbuf::HeapRb<u32>,
}

/// The samples the queue holds, oldest first.
pub uninterp spec fn queue_samples(q: SampleQueue) -> Seq<u32>;

/// The fixed bound the queue was created with.
pub uninterp spec fn queue_capacity(q: SampleQueue) -> nat;

/// Relies on ringbuf's HeapRb::new: an empty ring buffer with the given
/// capacity. It panics on capacity zero, so that input is excluded.
#[verifier::external_body]
fn queue_new(capacity: usize) -> (q: SampleQueue)
    requires
        1 <= capacity,
    ensures
        queue_samples(q) == Seq::<u32>::empty(),
        queue_capacity(q) == capacity as nat,
{
    SampleQueue { rb: ringbuf::HeapRb::new(capacity) }
}

/// Relies on ringbuf's Producer::try_push: with the whole buffer owned
/// here, it appends the item and returns Ok exactly when the buffer is not
/// full, and returns the item back otherwise.
#[verifier::external_body]
fn queue_try_push(q: &mut SampleQueue, s: u32) -> (ok: bool)
    ensures
        queue_capacity(*final(q)) == queue_capacity(*old(q)),
        ok == (queue_samples(*old(q)).len() < queue_capacity(*old(q))),
        ok ==> queue_samples(*final(q)) == queue_samples(*old(q)).push(s),
        !ok ==> queue_samples(*final(q)) == queue_samples(*old(q)),
{
    ringbuf::traits::Producer::try_push(&mut q.rb, s).is_ok()
}

/// Relies on ringbuf's Consumer::try_pop: with the whole buffer owned here,
/// it removes and returns the eldest item exactly when the buffer is not
/// empty.
#[verifier::external_body]
fn queue_try_pop(q: &mut SampleQueue) -> (r: Option<u32>)
    ensures
        queue_capacity(*final(q)) == queue_capacity(*old(q)),
        match r {
            Option::Some(s) => queue_samples(*old(q)).len() > 0
                && s == queue_samples(*old(q))[0]
                && queue_samples(*final(q)) == queue_samples(*old(q)).drop_first(),
            Option::None => queue_samples(*old(q)).len() == 0
                && queue_samples(*final(q)) == queue_samples(*old(q)),
        },
{
    ringbuf::traits::Consumer::try_pop(&mut q.rb)
}

/// Relies on ringbuf's Observer::occupied_len: with the whole buffer owned
/// here, the exact number of items held.
#[verifier::external_body]
fn queue_len(q: &SampleQueue) -> (n: usize)
    ensures
        n == queue_samples(*q).len(),
{
    ringbuf::traits::Observer::occupied_len(&q.rb)
}

/// Relies on ringbuf's Observer::capacity.
#[verifier::external_body]
fn queue_cap(q: &SampleQueue) -> (n: usize)
    ensures
        n as nat == queue_capacity(*q),
{
    ringbuf::traits::Observer::capacity(&q.rb).get()
}

/// The bridge between one capture callback and one render callback.
pub struct RingBridge {
    queue: SampleQueue,
}

impl RingBridge {
    /// The samples in flight, oldest first.
    pub closed spec fn samples(self) -> Seq<u32> {
        queue_samples(self.queue)
    }

    /// The bound the bridge was created with.
    pub closed spec fn capacity(self) -> nat {
        queue_capacity(self.queue)
    }

    /// An empty bridge with the given sample capacity.
    pub fn new(capacity: usize) -> (b: RingBridge)
        requires
            1 <= capacity,
        ensures
            b.samples() == Seq::<u32>::empty(),
            b.capacity() == capacity as nat,
    {
        RingBridge { queue: queue_new(capacity) }
    }

    /// An empty bridge sized to hold one second of stereo audio at the
    /// target sample rate.
    pub fn with_default_capacity() -> (b: RingBridge)
        ensures
            b.samples() == Seq::<u32>::empty(),
            b.capacity() == BRIDGE_SAMPLE_CAPACITY as nat,
    {
        RingBridge { queue: queue_new(BRIDGE_SAMPLE_CAPACITY) }
    }

    /// Pushes one sample without blocking. On a full buffer the newest
    /// sample — this one — is dropped and the buffer is unchanged.
    pub fn push_sample(&mut self, s: u32) -> (accepted: bool)
        ensures
            final(self).capacity() == old(self).capacity(),
            accepted == (old(self).samples().len() < old(self).capacity()),
            accepted ==> final(self).samples() == old(self).samples().push(s),
            !accepted ==> final(self).samples() == old(self).samples(),
    {
        queue_try_push(&mut self.queue, s)
    }

    /// Pushes one mono capture sample up-mixed to stereo: the sample is
    /// duplicated across both output channels. Whatever does not fit is
    /// dropped, newest first, without blocking.
    pub fn push_frame(&mut self, s: u32)
        ensures
            final(self).capacity() == old(self).capacity(),
            old(self).samples().len() + 2 <= old(self).capacity()
                ==> final(self).samples() == old(self).samples().push(s).push(s),
            old(self).samples().len() + 1 == old(self).capacity()
                ==> final(self).samples() == old(self).samples().push(s),
            old(self).samples().len() >= old(self).capacity()
                ==> final(self).samples() == old(self).samples(),
    {
        let first = queue_try_push(&mut self.queue, s);
        let second = queue_try_push(&mut self.queue, s);
        proof {
            if old(self).samples().len() >= old(self).capacity() {
                assert(!first && !second);
            }
        }
    }

    /// Pushes one whole capture buffer, frame by frame, as the capture
    /// callback does: each mono sample up-mixed to stereo, the overflow
    /// dropped newest-first, never blocking.
    pub fn push_frames(&mut self, samples: &Vec<u32>)
        ensures
            final(self).capacity() == old(self).capacity(),
            final(self).samples() == spec_push_frames(
                old(self).samples(),
                old(self).capacity(),
                samples@,
            ),
    {
        let mut i: usize = 0;
        proof {
            assert(samples@.take(0) =~= Seq::<u32>::empty());
        }
        while i < samples.len()
            invariant
                i <= samples@.len(),
                self.capacity() == old(self).capacity(),
                self.samples() == spec_push_frames(
                    old(self).samples(),
                    old(self).capacity(),
                    samples@.take(i as int),
                ),
            decreases samples@.len() - i,
        {
            proof {
                lemma_push_frames_snoc(
                    old(self).samples(),
                    old(self).capacity(),
                    samples@.take(i as int),
                    samples@[i as int],
                );
                assert(samples@.take(i as int).push(samples@[i as int]) =~= samples@.take(i as int + 1));
            }
            self.push_frame(samples[i]);
            i = i + 1;
        }
        proof {
            assert(samples@.take(samples@.len() as int) =~= samples@);
        }
    }

    /// Pops the eldest sample without blocking; an empty buffer yields
    /// silence, the zero sample.
    pub fn pop_sample(&mut self) -> (s: u32)
        ensures
            final(self).capacity() == old(self).capacity(),
            old(self).samples().len() > 0 ==> s == old(self).samples()[0]
                && final(self).samples() == old(self).samples().drop_first(),
            old(self).samples().len() == 0 ==> s == 0
                && final(self).samples() == old(self).samples(),
    {
        match queue_try_pop(&mut self.queue) {
            Option::Some(v) => v,
            Option::None => 0,
        }
    }

    /// Renders one output buffer of `count` samples: the eldest samples in
    /// flight, padded with silence once the bridge runs dry.
    pub fn fill_output(&mut self, count: usize) -> (out: Vec<u32>)
        ensures
            final(self).capacity() == old(self).capacity(),
            out@.len() == count,
            forall|k: int| 0 <= k < count ==> out@[k] == (if k < old(self).samples().len() {
                old(self).samples()[k]
            } else {
                0u32
            }),
            final(self).samples() == (if count <= old(self).samples().len() {
                old(self).samples().skip(count as int)
            } else {
                Seq::<u32>::empty()
            }),
    {
        let mut out: Vec<u32> = Vec::new();
        let mut i: usize = 0;
        proof {
            assert(old(self).samples().skip(0) =~= old(self).samples());
        }
        while i < count
            invariant
                i <= count,
                out@.len() == i,
                self.capacity() == old(self).capacity(),
                forall|k: int| 0 <= k < i ==> out@[k] == (if k < old(self).samples().len() {
                    old(self).samples()[k]
                } else {
                    0u32
                }),
                self.samples() == (if i <= old(self).samples().len() {
                    old(self).samples().skip(i as int)
                } else {
                    Seq::<u32>::empty()
                }),
            decreases count - i,
        {
            proof {
                if i < old(self).samples().len() {
                    assert(old(self).samples().skip(i as int)[0] == old(self).samples()[i as int]);
                    assert(old(self).samples().skip(i as int).drop_first()
                        =~= old(self).samples().skip(i as int + 1));
                }
            }
            let s = self.pop_sample();
            out.push(s);
            i = i + 1;
        }
        out
    }

    /// How many samples are in flight.
    pub fn occupied(&self) -> (n: usize)
        ensures
            n == self.samples().len(),
    {
        queue_len(&self.queue)
    }

    /// The bound the bridge was created with.
    pub fn bound(&self) -> (n: usize)
        ensures
            n as nat == self.capacity(),
    {
        queue_cap(&self.queue)
    }
}

/// The samples in flight after one up-mixed frame push: the sample goes in
/// once per channel, as far as the free room allows.
pub open spec fn spec_push_frame(contents: Seq<u32>, cap: nat, s: u32) -> Seq<u32> {
    let one = if contents.len() < cap {
        contents.push(s)
    } else {
        contents
    };
    if one.len() < cap {
        one.push(s)
    } else {
        one
    }
}

/// The samples in flight after a whole capture buffer of frame pushes.
pub open spec fn spec_push_frames(contents: Seq<u32>, cap: nat, inputs: Seq<u32>) -> Seq<u32>
    decreases inputs.len(),
{
    if inputs.len() == 0 {
        contents
    } else {
        spec_push_frames(spec_push_frame(contents, cap, inputs.first()), cap, inputs.drop_first())
    }
}

proof fn lemma_push_frames_snoc(contents: Seq<u32>, cap: nat, t: Seq<u32>, x: u32)
    ensures
        spec_push_frames(contents, cap, t.push(x))
            == spec_push_frame(spec_push_frames(contents, cap, t), cap, x),
    decreases t.len(),
{
    let whole = t.push(x);
    if t.len() == 0 {
        assert(whole.first() == x);
        assert(whole.drop_first() =~= Seq::<u32>::empty());
        assert(spec_push_frames(contents, cap, whole) == spec_push_frames(
            spec_push_frame(contents, cap, x),
            cap,
            whole.drop_first(),
        ));
        assert(spec_push_frames(spec_push_frame(contents, cap, x), cap, whole.drop_first())
            == spec_push_frame(contents, cap, x));
        assert(spec_push_frames(contents, cap, t) == contents);
    } else {
        assert(whole.first() == t.first());
        assert(whole.drop_first() =~= t.drop_first().push(x));
        let stepped = spec_push_frame(contents, cap, t.first());
        lemma_push_frames_snoc(stepped, cap, t.drop_first(), x);
        assert(spec_push_frames(contents, cap, whole) == spec_push_frames(
            stepped,
            cap,
            t.drop_first().push(x),
        ));
        assert(spec_push_frames(contents, cap, t) == spec_push_frames(stepped, cap, t.drop_first()));
    }
}

/// The samples in flight after a burst of single pushes into a bounded
/// queue that drops what does not fit.
pub open spec fn spec_push_all(contents: Seq<u32>, cap: nat, inputs: Seq<u32>) -> Seq<u32>
    decreases inputs.len(),
{
    if inputs.len() == 0 {
        contents
    } else {
        let after = if contents.len() < cap {
            contents.push(inputs.first())
        } else {
            contents
        };
        spec_push_all(after, cap, inputs.drop_first())
    }
}

/// A burst of pushes retains the oldest samples up to the free room and
/// drops the newest overflow.
pub proof fn lemma_push_all_truncates(contents: Seq<u32>, cap: nat, inputs: Seq<u32>)
    requires
        contents.len() <= cap,
    ensures
        spec_push_all(contents, cap, inputs) == contents + inputs.take(
            if cap - contents.len() <= inputs.len() {
                cap - contents.len()
            } else {
                inputs.len() as int
            },
        ),
    decreases inputs.len(),
{
    if inputs.len() == 0 {
        assert(contents + inputs.take(0) =~= contents);
    } else {
        if contents.len() < cap {
            let after = contents.push(inputs.first());
            lemma_push_all_truncates(after, cap, inputs.drop_first());
            let k = if cap - contents.len() <= inputs.len() {
                cap - contents.len()
            } else {
                inputs.len() as int
            };
            assert(after + inputs.drop_first().take(k - 1) =~= contents + inputs.take(k));
        } else {
            lemma_push_all_truncates(contents, cap, inputs.drop_first());
            assert(contents + inputs.drop_first().take(0) =~= contents + inputs.take(0));
        }
    }
}

/// Pushing one sample more than the capacity into an empty bridge, without
/// any pop, retains exactly the first `cap` samples: the newest extra
/// sample is dropped, and nothing blocks.
pub proof fn lemma_overflow_drops_newest(cap: nat, inputs: Seq<u32>)
    requires
        inputs.len() == cap + 1,
    ensures
        spec_push_all(Seq::<u32>::empty(), cap, inputs) == inputs.take(cap as int),
{
    lemma_push_all_truncates(Seq::<u32>::empty(), cap, inputs);
    assert(Seq::<u32>::empty() + inputs.take(cap as int) =~= inputs.take(cap as int));
}

} // verus!
