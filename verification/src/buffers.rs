//! Moving samples around without looking at them: splitting interleaved audio into channels,
//! keeping the newest samples of a stream, splitting a half-band filter's taps, and indexing a
//! circular delay line. The samples are carried through untouched.

use vstd::prelude::*;

verus! {

/// Splits interleaved frames into one list per channel. A trailing partial frame is dropped.
pub fn deinterleave<T: Copy>(samples: &Vec<T>, num_channels: usize) -> (channels: Vec<Vec<T>>)
    requires
        num_channels > 0,
    ensures
        channels@.len() == num_channels,
        forall|c: int| 0 <= c < num_channels ==> #[trigger] channels@[c]@.len() == samples@.len() as int / (num_channels as int),
        forall|c: int, f: int|
            0 <= c < num_channels && 0 <= f < samples@.len() as int / (num_channels as int) ==> #[trigger] channels@[c]@[f]
                == samples@[f * num_channels + c],
{
    let total = samples.len();
    let frames = total / num_channels;
    let mut channels: Vec<Vec<T>> = Vec::new();
    for c in 0..num_channels
        invariant
            frames == samples@.len() as int / (num_channels as int),
            num_channels > 0,
            total == samples@.len(),
            channels@.len() == c,
            forall|k: int| 0 <= k < c ==> #[trigger] channels@[k]@.len() == frames,
            forall|k: int, f: int|
                0 <= k < c && 0 <= f < frames ==> #[trigger] channels@[k]@[f] == samples@[f * num_channels + k],
    {
        let mut channel: Vec<T> = Vec::new();
        for f in 0..frames
            invariant
                frames == samples@.len() as int / (num_channels as int),
                num_channels > 0,
                total == samples@.len(),
                c < num_channels,
                channel@.len() == f,
                forall|g: int| 0 <= g < f ==> #[trigger] channel@[g] == samples@[g * num_channels + c],
        {
            proof {
                lemma_frame_index(f as int, frames as int, num_channels as int, c as int, samples@.len() as int);
            }
            assert(f * num_channels + c < total);
            let index = f * num_channels + c;
            channel.push(samples[index]);
        }
        channels.push(channel);
    }
    channels
}

/// A sample of a whole frame lies inside the interleaved samples.
proof fn lemma_frame_index(f: int, frames: int, n: int, c: int, len: int)
    requires
        0 <= f < frames,
        frames == len / n,
        0 <= c < n,
        n > 0,
        len >= 0,
    ensures
        0 <= f * n + c < len,
{
    assert(f * n + c < frames * n) by (nonlinear_arith)
        requires
            0 <= f < frames,
            0 <= c < n,
    {
        assert(f * n + c < (f + 1) * n);
        assert((f + 1) * n <= frames * n);
    }
    assert(frames * n <= len) by (nonlinear_arith)
        requires
            frames == len / n,
            n > 0,
            len >= 0,
    {
    }
    assert(0 <= f * n) by (nonlinear_arith)
        requires
            0 <= f,
            n > 0,
    {
    }
}

/// The newest `capacity` items of a stream: all of them while there are no more than that.
pub open spec fn newest<T>(items: Seq<T>, capacity: nat) -> Seq<T> {
    if items.len() > capacity {
        items.subrange(items.len() - capacity, items.len() as int)
    } else {
        items
    }
}

/// Appends `samples` to `window` and keeps only the newest `capacity` of them.
pub fn keep_newest<T: Copy>(window: &mut Vec<T>, samples: &[T], capacity: usize)
    requires
        old(window)@.len() + samples@.len() <= usize::MAX,
    ensures
        final(window)@ == newest(old(window)@ + samples@, capacity as nat),
{
    let ghost all = old(window)@ + samples@;
    let n = samples.len();
    for i in 0..n
        invariant
            n == samples@.len(),
            all == old(window)@ + samples@,
            window@ == all.subrange(0, old(window)@.len() + i),
    {
        window.push(samples[i]);
        assert(window@ =~= all.subrange(0, old(window)@.len() + i + 1));
    }
    assert(window@ =~= all);
    let len = window.len();
    if len > capacity {
        let excess = len - capacity;
        let mut kept: Vec<T> = Vec::new();
        for i in excess..len
            invariant
                window@ == all,
                len == all.len(),
                excess <= len,
                kept@ == all.subrange(excess as int, i as int),
        {
            kept.push(window[i]);
            assert(kept@ =~= all.subrange(excess as int, i + 1));
        }
        *window = kept;
    }
}

/// The taps among the first `n` of a half-band filter that are worth multiplying: those at even
/// positions other than the centre, in order. The taps at odd positions of an ideal half-band
/// filter are zero.
pub open spec fn even_taps_before<T>(taps: Seq<T>, n: int) -> Seq<T>
    decreases n,
{
    if n <= 0 {
        seq![]
    } else if (n - 1) % 2 == 0 && n - 1 != taps.len() / 2 {
        even_taps_before(taps, n - 1).push(taps[n - 1])
    } else {
        even_taps_before(taps, n - 1)
    }
}

/// Splits the taps of a half-band filter, of which there are an odd number, into the taps at
/// even positions apart from the centre, and the centre tap.
pub fn split_half_band_taps<T: Copy>(taps: &Vec<T>) -> (split: (Vec<T>, T))
    requires
        taps@.len() % 2 == 1,
    ensures
        split.0@ == even_taps_before(taps@, taps@.len() as int),
        split.1 == taps@[taps@.len() as int / 2],
{
    let len = taps.len();
    let mid = len / 2;
    let mut h_even: Vec<T> = Vec::new();
    for i in 0..len
        invariant
            len == taps@.len(),
            mid == len / 2,
            h_even@ == even_taps_before(taps@, i as int),
    {
        if i % 2 == 0 && i != mid {
            h_even.push(taps[i]);
        }
    }
    (h_even, taps[mid])
}

/// The slot `offset` places back from `base` in a circular delay line of `len` slots.
pub fn delay_index(base: usize, offset: usize, len: usize) -> (index: usize)
    requires
        base < len,
        offset <= len,
    ensures
        index as int == (base as int - offset as int) % (len as int),
        index < len,
{
    if base >= offset {
        let index = base - offset;
        assert(index as int == (base as int - offset as int) % (len as int)) by (nonlinear_arith)
            requires
                index == base - offset,
                base < len,
                offset <= base,
        {
        }
        index
    } else {
        let index = base + (len - offset);
        assert(index as int == (base as int - offset as int) % (len as int)) by (nonlinear_arith)
            requires
                index == base + len - offset,
                base < offset,
                offset <= len,
        {
        }
        index
    }
}

} // verus!
