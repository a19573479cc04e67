//! Sliding-window accumulator: gathers samples into overlapping windows
//! for the speech engine.

use vstd::prelude::*;
use crate::audio::AudioChunk;

verus! {

/// The time of a sample position in milliseconds, rounded down (and
/// capped at `i64::MAX`).  At a rate of zero the first position is at 0
/// and every later one at `i64::MAX`, as the floating-point quotient
/// converts.
pub open spec fn position_ms(total: nat, sample_rate: nat) -> int {
    if sample_rate == 0 {
        if total == 0 {
            0
        } else {
            i64::MAX as int
        }
    } else {
        let t = total * 1000 / sample_rate;
        if t > i64::MAX {
            i64::MAX as int
        } else {
            t as int
        }
    }
}

/// A window of samples with its start time.
pub struct Window<T> {
    pub samples: Seq<T>,
    pub timestamp_ms: int,
}

/// The windows that a buffer `buf` (starting at stream position `total`)
/// yields: one per `advance` samples while a whole window is buffered.
pub open spec fn windows<T>(buf: Seq<T>, total: nat, window: nat, advance: nat, rate: nat) -> Seq<Window<T>>
    decreases buf.len(),
{
    if advance > 0 && buf.len() >= window && buf.len() >= advance {
        seq![Window { samples: buf.take(window as int), timestamp_ms: position_ms(total, rate) }]
            + windows(buf.skip(advance as int), total + advance, window, advance, rate)
    } else {
        Seq::empty()
    }
}

/// How many windows `windows` yields.
pub open spec fn window_count(len: nat, window: nat, advance: nat) -> nat
    decreases len,
{
    if advance > 0 && len >= window && len >= advance {
        1 + window_count((len - advance) as nat, window, advance)
    } else {
        0
    }
}

/// `windows` yields `window_count` windows.
pub proof fn lemma_window_count<T>(buf: Seq<T>, total: nat, window: nat, advance: nat, rate: nat)
    ensures
        windows(buf, total, window, advance, rate).len() == window_count(buf.len(), window, advance),
    decreases buf.len(),
{
    if advance > 0 && buf.len() >= window && buf.len() >= advance {
        lemma_window_count(buf.skip(advance as int), total + advance, window, advance, rate);
    }
}

/// Window `j` of a buffer is the `window` samples from position
/// `j * advance`, timed at the stream position of its first sample.
pub proof fn lemma_window_at<T>(buf: Seq<T>, total: nat, window: nat, advance: nat, rate: nat, j: int)
    requires
        0 <= j < windows(buf, total, window, advance, rate).len(),
    ensures
        j * advance + window <= buf.len(),
        windows(buf, total, window, advance, rate)[j].samples == buf.subrange(
            j * advance,
            j * advance + window,
        ),
        windows(buf, total, window, advance, rate)[j].timestamp_ms == position_ms(
            (total + j * advance) as nat,
            rate,
        ),
    decreases buf.len(),
{
    let ws = windows(buf, total, window, advance, rate);
    let rest = buf.skip(advance as int);
    if j == 0 {
        assert(buf.take(window as int) =~= buf.subrange(0, window as int));
    } else {
        lemma_window_at(rest, total + advance, window, advance, rate, j - 1);
        assert(ws[j] == windows(rest, total + advance, window, advance, rate)[j - 1]);
        assert((j - 1) * advance + advance == j * advance) by (nonlinear_arith);
        assert(rest.subrange((j - 1) * advance, (j - 1) * advance + window) =~= buf.subrange(
            j * advance,
            j * advance + window,
        ));
    }
}

/// Consecutive windows overlap: the last `overlap` samples of each window
/// are the first `overlap` samples of the next, which starts
/// `window - overlap` samples later.
pub proof fn lemma_windows_overlap<T>(buf: Seq<T>, total: nat, window: nat, overlap: nat, rate: nat, j: int)
    requires
        overlap < window,
        0 <= j,
        j + 1 < windows(buf, total, window, (window - overlap) as nat, rate).len(),
    ensures
        ({
            let ws = windows(buf, total, window, (window - overlap) as nat, rate);
            &&& ws[j].samples.skip(window - overlap) == ws[j + 1].samples.take(overlap as int)
            &&& ws[j + 1].timestamp_ms == position_ms((total + (j + 1) * (window - overlap)) as nat, rate)
        }),
{
    let adv = (window - overlap) as nat;
    let ws = windows(buf, total, window, adv, rate);
    lemma_window_at(buf, total, window, adv, rate, j);
    lemma_window_at(buf, total, window, adv, rate, j + 1);
    assert((j + 1) * adv == j * adv + adv) by (nonlinear_arith);
    assert(ws[j].samples.skip(adv as int) =~= ws[j + 1].samples.take(overlap as int));
}

/// The windows of a buffer start within it.
proof fn lemma_window_count_bound(len: nat, window: nat, advance: nat)
    ensures
        window_count(len, window, advance) * advance <= len,
    decreases len,
{
    if advance > 0 && len >= window && len >= advance {
        let m = window_count((len - advance) as nat, window, advance);
        lemma_window_count_bound((len - advance) as nat, window, advance);
        assert(window_count(len, window, advance) == 1 + m);
        assert((1 + m) * advance == advance + m * advance) by (nonlinear_arith);
    } else {
        assert(window_count(len, window, advance) == 0);
    }
}

/// Pushing samples in two pieces gives the windows of pushing them at
/// once: the windows of the first piece, then those of what stayed
/// buffered followed by the second piece.
pub proof fn lemma_push_in_pieces<T>(x: Seq<T>, y: Seq<T>, total: nat, window: nat, advance: nat, rate: nat)
    requires
        0 < advance <= window,
    ensures
        ({
            let n = window_count(x.len(), window, advance);
            windows(x + y, total, window, advance, rate) == windows(x, total, window, advance, rate)
                + windows(x.skip((n * advance) as int) + y, total + n * advance, window, advance, rate)
        }),
    decreases x.len(),
{
    let n = window_count(x.len(), window, advance);
    if x.len() >= window {
        let rest = x.skip(advance as int);
        lemma_push_in_pieces(rest, y, total + advance, window, advance, rate);
        let m = window_count(rest.len(), window, advance);
        assert(n == 1 + m);
        lemma_window_count_bound(rest.len(), window, advance);
        assert((x + y).skip(advance as int) =~= rest + y);
        assert((x + y).take(window as int) =~= x.take(window as int));
        assert(n * advance == advance + m * advance) by (nonlinear_arith)
            requires
                n == 1 + m,
        ;
        assert(rest.skip((m * advance) as int) =~= x.skip((n * advance) as int));
        assert(windows(x + y, total, window, advance, rate) =~= windows(x, total, window, advance, rate)
            + windows(x.skip((n * advance) as int) + y, total + n * advance, window, advance, rate));
    } else {
        assert(x.skip(0) =~= x);
        assert(windows(x, total, window, advance, rate) =~= Seq::<Window<T>>::empty());
        assert(windows(x + y, total, window, advance, rate) =~= windows(x, total, window, advance, rate)
            + windows(x.skip((n * advance) as int) + y, total + n * advance, window, advance, rate));
    }
}

/// Gathers samples into windows of `window_samples`, each starting
/// `window_samples - overlap_samples` after the previous one.
pub struct Accumulator<T> {
    buffer: Vec<T>,
    window_samples: usize,
    overlap_samples: usize,
    total_samples: u64,
    sample_rate: u32,
}

/// The state of an accumulator: the samples not yet released and the
/// stream position of the first of them.
pub struct AccumulatorState<T> {
    pub buffer: Seq<T>,
    pub total: nat,
    pub window: nat,
    pub overlap: nat,
    pub sample_rate: nat,
}

impl<T: Copy> Accumulator<T> {
    pub closed spec fn state(&self) -> AccumulatorState<T> {
        AccumulatorState {
            buffer: self.buffer@,
            total: self.total_samples as nat,
            window: self.window_samples as nat,
            overlap: self.overlap_samples as nat,
            sample_rate: self.sample_rate as nat,
        }
    }

    /// The window is longer than the overlap.
    pub closed spec fn wf(&self) -> bool {
        self.overlap_samples < self.window_samples
    }

    /// An accumulator for windows of `window_samples` samples overlapping
    /// by `overlap_samples`, at `sample_rate` samples per second.
    pub fn new_in_samples(window_samples: usize, overlap_samples: usize, sample_rate: u32) -> (a: Self)
        requires
            overlap_samples < window_samples,
        ensures
            a.wf(),
            a.state() == (AccumulatorState::<T> {
                buffer: Seq::empty(),
                total: 0,
                window: window_samples as nat,
                overlap: overlap_samples as nat,
                sample_rate: sample_rate as nat,
            }),
    {
        let a = Accumulator {
            buffer: Vec::new(),
            window_samples,
            overlap_samples,
            total_samples: 0,
            sample_rate,
        };
        assert(a.state().buffer =~= Seq::<T>::empty());
        a
    }

    fn timestamp(&self) -> (ms: i64)
        ensures
            ms == position_ms(self.total_samples as nat, self.sample_rate as nat),
    {
        if self.sample_rate == 0 {
            return if self.total_samples == 0 {
                0
            } else {
                i64::MAX
            };
        }
        let t: u128 = (self.total_samples as u128) * 1000 / (self.sample_rate as u128);
        if t > i64::MAX as u128 {
            i64::MAX
        } else {
            t as i64
        }
    }

    /// Adds samples; returns the windows that became complete, in order.
    ///
    /// Each window starts `window - overlap` samples after the previous
    /// one; its time is its start position in the stream, in
    /// milliseconds.  The samples after the last window's start stay
    /// buffered.
    pub fn push(&mut self, samples: &[T]) -> (chunks: Vec<AudioChunk<T>>)
        requires
            old(self).wf(),
            old(self).state().total + old(self).state().buffer.len() + samples@.len() <= u64::MAX,
        ensures
            final(self).wf(),
            ({
                let s = old(self).state();
                let buf = s.buffer + samples@;
                let adv = (s.window - s.overlap) as nat;
                let ws = windows(buf, s.total, s.window, adv, s.sample_rate);
                let n = window_count(buf.len(), s.window, adv);
                &&& chunks@.len() == ws.len() == n
                &&& forall|j: int|
                    0 <= j < ws.len() ==> #[trigger] chunks@[j].samples@ == ws[j].samples
                        && chunks@[j].timestamp_ms == ws[j].timestamp_ms && chunks@[j].sample_rate
                        == 16000
                &&& final(self).state() == AccumulatorState::<T> {
                    buffer: buf.skip((n * adv) as int),
                    total: s.total + n * adv,
                    ..s
                }
            }),
    {
        let ghost s = self.state();
        let mut i: usize = 0;
        while i < samples.len()
            invariant
                i <= samples.len(),
                self.buffer@ == s.buffer + samples@.take(i as int),
                self.window_samples == s.window,
                self.overlap_samples == s.overlap,
                self.sample_rate == s.sample_rate,
                self.total_samples == s.total,
                self.wf(),
            decreases samples.len() - i,
        {
            self.buffer.push(samples[i]);
            i += 1;
            assert(self.buffer@ =~= s.buffer + samples@.take(i as int));
        }
        assert(samples@.take(samples.len() as int) =~= samples@);
        let ghost buf = s.buffer + samples@;
        let ghost adv = (s.window - s.overlap) as nat;
        let advance = self.window_samples - self.overlap_samples;
        let mut chunks: Vec<AudioChunk<T>> = Vec::new();
        let ghost mut done: nat = 0;
        assert(buf.skip(0) =~= buf);
        while self.buffer.len() >= self.window_samples
            invariant
                advance == adv > 0,
                self.window_samples == s.window,
                self.overlap_samples == s.overlap,
                self.sample_rate == s.sample_rate,
                self.wf(),
                adv == s.window - s.overlap,
                done * adv <= buf.len(),
                self.buffer@ == buf.skip((done * adv) as int),
                self.total_samples == s.total + done * adv,
                s.total + buf.len() <= u64::MAX,
                chunks@.len() == done,
                done <= windows(buf, s.total, s.window, adv, s.sample_rate).len(),
                windows(buf, s.total, s.window, adv, s.sample_rate) == windows(buf, s.total, s.window, adv,
                    s.sample_rate).take(done as int) + windows(self.buffer@, self.total_samples as nat, s.window,
                    adv, s.sample_rate),
                window_count(buf.len(), s.window, adv) == done + window_count(self.buffer@.len(), s.window, adv),
                forall|j: int|
                    0 <= j < done ==> #[trigger] chunks@[j].samples@ == windows(buf, s.total, s.window, adv,
                        s.sample_rate)[j].samples && chunks@[j].timestamp_ms == windows(buf, s.total,
                        s.window, adv, s.sample_rate)[j].timestamp_ms && chunks@[j].sample_rate == 16000,
            decreases self.buffer.len(),
        {
            let ghost b0 = self.buffer@;
            let ghost ws = windows(buf, s.total, s.window, adv, s.sample_rate);
            let mut window: Vec<T> = Vec::new();
            let mut k: usize = 0;
            while k < self.window_samples
                invariant
                    k <= self.window_samples <= self.buffer.len(),
                    self.buffer@ == b0,
                    window@ == b0.take(k as int),
                decreases self.window_samples - k,
            {
                window.push(self.buffer[k]);
                k += 1;
                assert(window@ =~= b0.take(k as int));
            }
            let ts = self.timestamp();
            let ghost first = Window { samples: b0.take(s.window as int), timestamp_ms: position_ms(
                self.total_samples as nat, s.sample_rate) };
            let ghost rest_ws = windows(b0.skip(adv as int), self.total_samples as nat + adv, s.window, adv,
                s.sample_rate);
            assert(windows(b0, self.total_samples as nat, s.window, adv, s.sample_rate) == seq![first]
                + rest_ws);
            chunks.push(AudioChunk { samples: window, timestamp_ms: ts, sample_rate: 16000 });
            let mut rest: Vec<T> = Vec::new();
            let mut m: usize = advance;
            while m < self.buffer.len()
                invariant
                    advance <= m <= self.buffer.len(),
                    self.buffer@ == b0,
                    rest@ == b0.subrange(advance as int, m as int),
                decreases self.buffer.len() - m,
            {
                rest.push(self.buffer[m]);
                m += 1;
                assert(rest@ =~= b0.subrange(advance as int, m as int));
            }
            assert(rest@ =~= b0.skip(adv as int));
            self.buffer = rest;
            self.total_samples = self.total_samples + advance as u64;
            proof {
                let a: int = (done * adv) as int;
                assert((done + 1) * adv == a + adv) by (nonlinear_arith)
                    requires
                        a == done * adv,
                ;
                assert(b0.len() >= adv);
                assert(buf.skip(a).skip(adv as int) =~= buf.skip(a + adv));
                assert(ws.take(done as int) + (seq![first] + rest_ws) == ws);
                assert(ws[done as int] == first);
                assert(ws.take(done as int) + seq![first] =~= ws.take((done + 1) as int));
                assert(ws.take(done as int) + (seq![first] + rest_ws) =~= ws.take((done + 1) as int) + rest_ws);
                done = done + 1;
                assert(self.buffer@ == buf.skip((done * adv) as int));
            }
        }
        proof {
            lemma_window_count(buf, s.total, s.window, adv, s.sample_rate);
            assert(windows(self.buffer@, self.total_samples as nat, s.window, adv, s.sample_rate)
                =~= Seq::<Window<T>>::empty());
            assert(window_count(self.buffer@.len(), s.window, adv) == 0);
            assert(windows(buf, s.total, s.window, adv, s.sample_rate).take(done as int) =~= windows(buf,
                s.total, s.window, adv, s.sample_rate));
        }
        chunks
    }

    /// Releases everything buffered as one final chunk (the stream
    /// position is left as it is), or `None` when nothing is buffered.
    pub fn flush(&mut self) -> (chunk: Option<AudioChunk<T>>)
        requires
            old(self).wf(),
        ensures
            final(self).wf(),
            old(self).state().buffer.len() == 0 ==> chunk is None && final(self).state() == old(
                self,
            ).state(),
            old(self).state().buffer.len() > 0 ==> (chunk matches Some(c) && c.samples@ == old(
                self,
            ).state().buffer && c.timestamp_ms == position_ms(old(self).state().total, old(
                self,
            ).state().sample_rate) && c.sample_rate == 16000),
            old(self).state().buffer.len() > 0 ==> final(self).state() == (AccumulatorState::<T> {
                buffer: Seq::empty(),
                ..old(self).state()
            }),
    {
        if self.buffer.len() == 0 {
            return None;
        }
        let ts = self.timestamp();
        let mut taken: Vec<T> = Vec::new();
        std::mem::swap(&mut taken, &mut self.buffer);
        assert(self.state().buffer =~= Seq::<T>::empty());
        Some(AudioChunk { samples: taken, timestamp_ms: ts, sample_rate: 16000 })
    }

    /// Empties the buffer and restarts the stream position.
    pub fn reset(&mut self)
        requires
            old(self).wf(),
        ensures
            final(self).wf(),
            final(self).state() == (AccumulatorState::<T> { buffer: Seq::empty(), total: 0, ..old(self).state() }),
    {
        self.buffer.clear();
        self.total_samples = 0;
        assert(self.state().buffer =~= Seq::<T>::empty());
    }

    /// The number of buffered samples.
    pub fn buffered_samples(&self) -> (n: usize)
        ensures
            n == self.state().buffer.len(),
    {
        self.buffer.len()
    }

    /// The sample rate.
    pub fn sample_rate(&self) -> (r: u32)
        ensures
            r == self.state().sample_rate,
    {
        self.sample_rate
    }
}

} // verus!
