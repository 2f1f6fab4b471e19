//! Streaming sample buffer that cuts a continuous sample stream into
//! overlapping 25 ms analysis windows spaced 10 ms apart.

use vstd::prelude::*;

verus! {

/// Samples in one 25 ms analysis window at 16 kHz.
pub const FRAME_LENGTH_SAMPLES: usize = 400;

/// Samples between successive window starts (10 ms at 16 kHz).
pub const WINDOW_SHIFT_SAMPLES: usize = 160;

/// Cut every full window out of `s`: the windows, in order, and the
/// samples left over for the next push.
pub open spec fn drain_windows<T>(s: Seq<T>) -> (Seq<Seq<T>>, Seq<T>)
    decreases s.len(),
{
    if s.len() >= FRAME_LENGTH_SAMPLES {
        let (ws, rest) = drain_windows(s.skip(WINDOW_SHIFT_SAMPLES as int));
        (seq![s.take(FRAME_LENGTH_SAMPLES as int)] + ws, rest)
    } else {
        (Seq::empty(), s)
    }
}

/// Cutting windows does not depend on how the stream was chunked: draining
/// `a` and then draining its leftover followed by `b` yields the same
/// windows, in the same order, and the same leftover, as draining `a + b`
/// in one go.
pub proof fn lemma_drain_windows_chunking<T>(a: Seq<T>, b: Seq<T>)
    ensures
        ({
            let (wa, ra) = drain_windows(a);
            let (wb, rb) = drain_windows(ra + b);
            drain_windows(a + b) == (wa + wb, rb)
        }),
    decreases a.len(),
{
    let (wa, ra) = drain_windows(a);
    let (wb, rb) = drain_windows(ra + b);
    if a.len() >= FRAME_LENGTH_SAMPLES {
        let a1 = a.skip(WINDOW_SHIFT_SAMPLES as int);
        lemma_drain_windows_chunking(a1, b);
        assert((a + b).skip(WINDOW_SHIFT_SAMPLES as int) =~= a1 + b);
        assert((a + b).take(FRAME_LENGTH_SAMPLES as int) =~= a.take(FRAME_LENGTH_SAMPLES as int));
        let (w1, r1) = drain_windows(a1);
        assert(wa == seq![a.take(FRAME_LENGTH_SAMPLES as int)] + w1);
        assert(seq![a.take(FRAME_LENGTH_SAMPLES as int)] + (w1 + wb) =~= (seq![
            a.take(FRAME_LENGTH_SAMPLES as int),
        ] + w1) + wb);
    } else {
        assert(wa =~= Seq::<Seq<T>>::empty());
        assert(wa + wb =~= wb);
    }
}

/// The windows cut from `s` are exactly its 400-sample stretches starting
/// every 160 samples, as many as fit; what is left over is everything
/// after the last window start, shorter than one window. Hence the frames
/// cut never span more samples than were pushed: `160 * windows <= len`.
pub proof fn lemma_drain_windows_layout<T>(s: Seq<T>)
    ensures
        ({
            let (ws, rest) = drain_windows(s);
            &&& forall|k: int|
                0 <= k < ws.len() ==> #[trigger] ws[k] == s.subrange(
                    k * WINDOW_SHIFT_SAMPLES,
                    k * WINDOW_SHIFT_SAMPLES + FRAME_LENGTH_SAMPLES,
                )
            &&& rest == s.skip(ws.len() * WINDOW_SHIFT_SAMPLES)
            &&& rest.len() < FRAME_LENGTH_SAMPLES
            &&& ws.len() * WINDOW_SHIFT_SAMPLES <= s.len()
            &&& (ws.len() > 0 ==> (ws.len() - 1) * WINDOW_SHIFT_SAMPLES + FRAME_LENGTH_SAMPLES
                <= s.len())
        }),
    decreases s.len(),
{
    let (ws, rest) = drain_windows(s);
    if s.len() >= FRAME_LENGTH_SAMPLES {
        let s1 = s.skip(WINDOW_SHIFT_SAMPLES as int);
        lemma_drain_windows_layout(s1);
        let (ws1, rest1) = drain_windows(s1);
        assert(ws == seq![s.take(FRAME_LENGTH_SAMPLES as int)] + ws1);
        assert forall|k: int| 0 <= k < ws.len() implies #[trigger] ws[k] == s.subrange(
            k * WINDOW_SHIFT_SAMPLES,
            k * WINDOW_SHIFT_SAMPLES + FRAME_LENGTH_SAMPLES,
        ) by {
            if k == 0 {
                assert(ws[0] =~= s.subrange(0, FRAME_LENGTH_SAMPLES as int));
            } else {
                assert(ws[k] == ws1[k - 1]);
                assert(ws1[k - 1] =~= s.subrange(
                    k * WINDOW_SHIFT_SAMPLES,
                    k * WINDOW_SHIFT_SAMPLES + FRAME_LENGTH_SAMPLES,
                ));
            }
        }
        assert(rest =~= s.skip(ws.len() * WINDOW_SHIFT_SAMPLES));
    } else {
        assert(rest =~= s.skip(0));
    }
}

/// Buffer of pending samples awaiting the next full analysis window.
#[derive(Debug)]
pub struct SampleWindow<T> {
    tail: Vec<T>,
}

impl<T> View for SampleWindow<T> {
    type V = Seq<T>;

    closed spec fn view(&self) -> Seq<T> {
        self.tail@
    }
}

impl<T: Copy> SampleWindow<T> {
    /// An empty buffer.
    pub fn new() -> (w: Self)
        ensures
            w@ == Seq::<T>::empty(),
    {
        SampleWindow { tail: Vec::with_capacity(FRAME_LENGTH_SAMPLES) }
    }

    /// Drop every pending sample.
    pub fn clear(&mut self)
        ensures
            final(self)@ == Seq::<T>::empty(),
    {
        self.tail.clear();
    }

    /// Append samples to the end of the buffer.
    pub fn push(&mut self, samples: &[T])
        ensures
            final(self)@ == old(self)@ + samples@,
    {
        let n = samples.len();
        let mut i: usize = 0;
        while i < n
            invariant
                n == samples@.len(),
                0 <= i <= n,
                self@ == old(self)@ + samples@.take(i as int),
            decreases n - i,
        {
            self.tail.push(samples[i]);
            i = i + 1;
            assert(samples@.take(i as int) =~= samples@.take(i - 1).push(samples@[i - 1]));
        }
        assert(samples@.take(n as int) =~= samples@);
    }

    /// Number of pending samples.
    pub fn pending_samples(&self) -> (n: usize)
        ensures
            n == self@.len(),
    {
        self.tail.len()
    }

    /// Whether at least one full analysis window is pending.
    pub fn has_full_window(&self) -> (r: bool)
        ensures
            r == (self@.len() >= FRAME_LENGTH_SAMPLES),
    {
        self.tail.len() >= FRAME_LENGTH_SAMPLES
    }

    /// The pending samples, oldest first.
    pub fn samples(&self) -> (s: &[T])
        ensures
            s@ == self@,
    {
        self.tail.as_slice()
    }

    /// Drop the oldest window shift (10 ms) of samples.
    pub fn advance(&mut self)
        requires
            old(self)@.len() >= WINDOW_SHIFT_SAMPLES,
        ensures
            final(self)@ == old(self)@.skip(WINDOW_SHIFT_SAMPLES as int),
    {
        let n = self.tail.len();
        let keep = n - WINDOW_SHIFT_SAMPLES;
        let mut i: usize = 0;
        while i < keep
            invariant
                n == old(self)@.len(),
                keep == n - WINDOW_SHIFT_SAMPLES,
                0 <= i <= keep,
                self@.len() == n,
                forall|j: int| 0 <= j < i ==> self@[j] == old(self)@[j + WINDOW_SHIFT_SAMPLES],
                forall|j: int| i <= j < n ==> self@[j] == old(self)@[j],
            decreases keep - i,
        {
            let v = self.tail[i + WINDOW_SHIFT_SAMPLES];
            self.tail.set(i, v);
            i = i + 1;
        }
        self.tail.truncate(keep);
        assert(self@ =~= old(self)@.skip(WINDOW_SHIFT_SAMPLES as int));
    }

    /// Cut the next full window, if one is pending: returns its samples
    /// and drops the oldest window shift from the buffer.
    pub fn next_window(&mut self) -> (w: Option<Vec<T>>)
        ensures
            old(self)@.len() >= FRAME_LENGTH_SAMPLES ==> {
                &&& w matches Some(v) && v@ == old(self)@.take(FRAME_LENGTH_SAMPLES as int)
                &&& final(self)@ == old(self)@.skip(WINDOW_SHIFT_SAMPLES as int)
            },
            old(self)@.len() < FRAME_LENGTH_SAMPLES ==> w is None && final(self)@ == old(self)@,
    {
        if self.tail.len() < FRAME_LENGTH_SAMPLES {
            return None;
        }
        let mut out: Vec<T> = Vec::with_capacity(FRAME_LENGTH_SAMPLES);
        let mut i: usize = 0;
        while i < FRAME_LENGTH_SAMPLES
            invariant
                self@.len() >= FRAME_LENGTH_SAMPLES,
                0 <= i <= FRAME_LENGTH_SAMPLES,
                out@ == self@.take(i as int),
            decreases FRAME_LENGTH_SAMPLES - i,
        {
            out.push(self.tail[i]);
            i = i + 1;
            assert(self@.take(i as int) =~= self@.take(i - 1).push(self@[i - 1]));
        }
        self.advance();
        Some(out)
    }

    /// Cut every pending full window, in order, leaving only the samples
    /// that do not yet fill a window.
    pub fn drain(&mut self) -> (ws: Vec<Vec<T>>)
        ensures
            ws@.map_values(|v: Vec<T>| v@) == drain_windows(old(self)@).0,
            final(self)@ == drain_windows(old(self)@).1,
    {
        let mut ws: Vec<Vec<T>> = Vec::new();
        loop
            invariant
                ({
                    let (all, rest) = drain_windows(old(self)@);
                    let (more, rest2) = drain_windows(self@);
                    &&& all == ws@.map_values(|v: Vec<T>| v@) + more
                    &&& rest == rest2
                }),
            ensures
                ws@.map_values(|v: Vec<T>| v@) == drain_windows(old(self)@).0,
                self@ == drain_windows(old(self)@).1,
            decreases self@.len(),
        {
            let ghost before = self@;
            match self.next_window() {
                Some(w) => {
                    let ghost prev = ws@;
                    ws.push(w);
                    proof {
                        let (more, _) = drain_windows(before);
                        let (more2, _) = drain_windows(self@);
                        assert(more == seq![w@] + more2);
                        assert(ws@.map_values(|v: Vec<T>| v@) =~= prev.map_values(
                            |v: Vec<T>| v@,
                        ).push(w@));
                        assert(prev.map_values(|v: Vec<T>| v@) + more =~= ws@.map_values(
                            |v: Vec<T>| v@,
                        ) + more2);
                    }
                },
                None => {
                    proof {
                        let (more, _) = drain_windows(self@);
                        assert(more =~= Seq::<Seq<T>>::empty());
                        assert(ws@.map_values(|v: Vec<T>| v@) + more =~= ws@.map_values(
                            |v: Vec<T>| v@,
                        ));
                    }
                    break ;
                },
            }
        }
        ws
    }
}

} // verus!
