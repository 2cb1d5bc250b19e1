//! A ring buffer between the sound generator and the sound card.

use vstd::prelude::*;

verus! {

/// Holds up to `capacity - 1` samples, oldest first.
pub struct AudioBuffer<T> {
    pub buf: Vec<T>,
    pub write_pos: usize,
    pub read_pos: usize,
    pub capacity: usize,
    /// What a read yields when no sample is waiting.
    pub silence: T,
}

impl<T> AudioBuffer<T> {
    pub open spec fn wf(&self) -> bool {
        &&& self.buf.len() == self.capacity
        &&& self.capacity > 0 ==> self.write_pos < self.capacity && self.read_pos < self.capacity
        &&& self.capacity == 0 ==> self.write_pos == 0 && self.read_pos == 0
    }

    /// Samples waiting.
    pub open spec fn waiting(&self) -> int {
        if self.write_pos >= self.read_pos {
            self.write_pos - self.read_pos
        } else {
            self.capacity - self.read_pos + self.write_pos
        }
    }
}

impl<T> View for AudioBuffer<T> {
    type V = Seq<T>;

    /// The waiting samples, oldest first.
    open spec fn view(&self) -> Seq<T> {
        Seq::new(
            self.waiting() as nat,
            |i: int|
                self.buf@[if self.read_pos + i < self.capacity {
                    self.read_pos + i
                } else {
                    self.read_pos + i - self.capacity
                }],
        )
    }
}

impl<T: Copy> AudioBuffer<T> {
    pub fn new(capacity: usize, silence: T) -> (b: AudioBuffer<T>)
        ensures
            b.wf(),
            b.capacity == capacity,
            b.silence == silence,
            b@ == Seq::<T>::empty(),
    {
        let mut buf: Vec<T> = Vec::new();
        while buf.len() < capacity
            invariant
                buf.len() <= capacity,
            decreases capacity - buf.len(),
        {
            buf.push(silence);
        }
        AudioBuffer { buf, write_pos: 0, read_pos: 0, capacity, silence }
    }

    /// Adds a sample; drops it if the buffer is full.
    pub fn write(&mut self, sample: T)
        requires
            old(self).wf(),
            old(self).capacity > 0,
        ensures
            final(self).wf(),
            final(self).capacity == old(self).capacity,
            final(self).silence == old(self).silence,
            final(self)@ == written(old(self)@, old(self).capacity as int, sample),
    {
        let next: usize = if self.write_pos + 1 < self.capacity {
            self.write_pos + 1
        } else {
            0
        };
        if next != self.read_pos {
            let at: usize = self.write_pos;
            self.buf.set(at, sample);
            self.write_pos = next;
            assert(self@ =~= old(self)@.push(sample));
        }
    }

    /// Takes the oldest sample; silence if there is none.
    pub fn read(&mut self) -> (sample: T)
        requires
            old(self).wf(),
        ensures
            final(self).wf(),
            final(self).capacity == old(self).capacity,
            final(self).silence == old(self).silence,
            sample == oldest(old(self)@, old(self).silence),
            final(self)@ == after_read(old(self)@),
    {
        if self.read_pos == self.write_pos {
            return self.silence;
        }
        let sample: T = self.buf[self.read_pos];
        self.read_pos = if self.read_pos + 1 < self.capacity {
            self.read_pos + 1
        } else {
            0
        };
        assert(self@ =~= old(self)@.drop_first());
        sample
    }

    /// The number of samples waiting.
    pub fn available(&self) -> (n: usize)
        requires
            self.wf(),
        ensures
            n == self@.len(),
    {
        if self.write_pos >= self.read_pos {
            self.write_pos - self.read_pos
        } else {
            self.capacity - self.read_pos + self.write_pos
        }
    }
}

/// The queue after a write.
pub open spec fn written<T>(queue: Seq<T>, capacity: int, sample: T) -> Seq<T> {
    if queue.len() < capacity - 1 {
        queue.push(sample)
    } else {
        queue
    }
}

/// What a read yields.
pub open spec fn oldest<T>(queue: Seq<T>, silence: T) -> T {
    if queue.len() > 0 {
        queue[0]
    } else {
        silence
    }
}

/// The queue after a read.
pub open spec fn after_read<T>(queue: Seq<T>) -> Seq<T> {
    if queue.len() > 0 {
        queue.drop_first()
    } else {
        queue
    }
}

/// The queue after a series of writes.
pub open spec fn all_written<T>(queue: Seq<T>, capacity: int, samples: Seq<T>) -> Seq<T>
    decreases samples.len(),
{
    if samples.len() == 0 {
        queue
    } else {
        written(all_written(queue, capacity, samples.drop_last()), capacity, samples.last())
    }
}

/// The queue after `n` reads.
pub open spec fn after_reads<T>(queue: Seq<T>, n: nat) -> Seq<T>
    decreases n,
{
    if n == 0 {
        queue
    } else {
        after_read(after_reads(queue, (n - 1) as nat))
    }
}

/// Of a series of writes as many samples are kept, in order, as there is room for;
/// the rest is dropped.
pub proof fn writes_fill_the_buffer<T>(queue: Seq<T>, capacity: int, samples: Seq<T>)
    requires
        queue.len() < capacity,
    ensures
        ({
            let room = capacity - 1 - queue.len();
            all_written(queue, capacity, samples) == queue + (if samples.len() <= room {
                samples
            } else {
                samples.take(room)
            })
        }),
    decreases samples.len(),
{
    let room = capacity - 1 - queue.len();
    if samples.len() > 0 {
        writes_fill_the_buffer(queue, capacity, samples.drop_last());
        if samples.len() <= room {
            assert(queue + samples =~= (queue + samples.drop_last()).push(samples.last()));
        } else if samples.len() == room + 1 {
            assert(samples.drop_last() =~= samples.take(room));
        } else {
            assert(samples.drop_last().take(room) =~= samples.take(room));
        }
    } else {
        assert(queue + samples =~= queue);
    }
}

/// Reads yield the waiting samples, oldest first, and silence once they run out.
pub proof fn reads_empty_the_buffer<T>(queue: Seq<T>, n: nat, silence: T)
    ensures
        after_reads(queue, n) == (if n <= queue.len() {
            queue.skip(n as int)
        } else {
            Seq::empty()
        }),
        oldest(after_reads(queue, n), silence) == (if n < queue.len() {
            queue[n as int]
        } else {
            silence
        }),
    decreases n,
{
    if n > 0 {
        reads_empty_the_buffer(queue, (n - 1) as nat, silence);
        if n <= queue.len() {
            assert(queue.skip(n - 1).drop_first() =~= queue.skip(n as int));
        }
    } else {
        assert(queue.skip(0) =~= queue);
    }
}

} // verus!
