//! Interleaving and deinterleaving between one interleaved buffer and
//! per-channel buffers.
//!
//! The interleaved layout is frame-major, channel-minor: sample `k` of the
//! interleaved buffer belongs to channel `k % N` at frame `k / N`, so
//! `out[i * N + c] == channels[c][i]`.

use vstd::arithmetic::div_mod::{
    lemma_fundamental_div_mod, lemma_fundamental_div_mod_converse, lemma_mod_bound,
};
use vstd::prelude::*;

verus! {

/// The per-channel views of a sequence of channel buffers.
pub open spec fn views_of<T>(chans: Seq<Vec<T>>) -> Seq<Seq<T>> {
    Seq::new(chans.len(), |c: int| chans[c]@)
}

/// The number of frames the channel buffers hold (the length of the first).
pub open spec fn frames_of<T>(chans: Seq<Seq<T>>) -> nat {
    if chans.len() == 0 {
        0
    } else {
        chans[0].len()
    }
}

/// All channel buffers hold the same number of frames.
pub open spec fn uniform<T>(chans: Seq<Seq<T>>) -> bool {
    forall|c: int| 0 <= c < chans.len() ==> (#[trigger] chans[c]).len() == frames_of(chans)
}

/// The interleaved image of per-channel buffers: sample `k` comes from
/// channel `k % N`, frame `k / N`.
pub open spec fn interleave_spec<T>(chans: Seq<Seq<T>>) -> Seq<T> {
    Seq::new(
        frames_of(chans) * chans.len(),
        |k: int| chans[k % (chans.len() as int)][k / (chans.len() as int)],
    )
}

/// The per-channel image of an interleaved buffer: channel `c` holds
/// `buf.len() / n` frames, frame `i` of channel `c` being sample
/// `i * n + c`.  A tail that fills no whole frame is dropped.
pub open spec fn deinterleave_frames<T>(buf: Seq<T>, n: nat) -> nat {
    if n == 0 {
        0
    } else {
        buf.len() / n
    }
}

pub open spec fn deinterleave_spec<T>(buf: Seq<T>, n: nat) -> Seq<Seq<T>> {
    Seq::new(n, |c: int| Seq::new(deinterleave_frames(buf, n), |i: int| buf[i * (n as int) + c]))
}

/// Write the interleaved image of `channels` into `out`, replacing its
/// previous contents.  The channel buffers must hold equally many frames.
pub fn interleave<T: Copy>(channels: &Vec<Vec<T>>, out: &mut Vec<T>)
    requires
        uniform(views_of(channels@)),
    ensures
        final(out)@ == interleave_spec(views_of(channels@)),
{
    let ghost vs = views_of(channels@);
    let n = channels.len();
    out.clear();
    if n == 0 {
        proof {
            assert(interleave_spec(vs) =~= out@);
        }
        return ;
    }
    let frames = channels[0].len();
    proof {
        assert(0 * (n as int) == 0);
    }
    for i in 0..frames
        invariant
            vs == views_of(channels@),
            uniform(vs),
            n == channels@.len(),
            n >= 1,
            frames == frames_of(vs),
            out@.len() == i * n,
            forall|k: int|
                0 <= k < out@.len() ==> out@[k] == vs[k % (n as int)][k / (n as int)],
    {
        for c in 0..n
            invariant
                vs == views_of(channels@),
                uniform(vs),
                n == channels@.len(),
                n >= 1,
                i < frames,
                frames == frames_of(vs),
                out@.len() == i * n + c,
                forall|k: int|
                    0 <= k < out@.len() ==> out@[k] == vs[k % (n as int)][k / (n as int)],
        {
            proof {
                assert(vs[c as int].len() == frames);
            }
            let x = channels[c][i];
            out.push(x);
            proof {
                lemma_fundamental_div_mod_converse(
                    (i as int) * (n as int) + (c as int),
                    n as int,
                    i as int,
                    c as int,
                );
            }
        }
        proof {
            assert((i as int + 1) * (n as int) == (i as int) * (n as int) + (n as int))
                by (nonlinear_arith);
        }
    }
    proof {
        assert(out@ =~= interleave_spec(vs));
    }
}

/// Refill `channels` with the per-channel image of `buf`.  The channel
/// count is the number of buffers already in `channels`; each buffer is
/// cleared and refilled with `buf.len() / N` frames.
pub fn deinterleave<T: Copy>(buf: &Vec<T>, channels: &mut Vec<Vec<T>>)
    ensures
        final(channels)@.len() == old(channels)@.len(),
        views_of(final(channels)@) == deinterleave_spec(buf@, old(channels)@.len()),
{
    let n = channels.len();
    let mut result: Vec<Vec<T>> = Vec::new();
    if n == 0 {
        proof {
            assert(views_of(result@).len() == 0);
            assert(deinterleave_spec(buf@, 0).len() == 0);
            assert(views_of(result@) =~~= deinterleave_spec(buf@, 0));
        }
        *channels = result;
        return ;
    }
    let total = buf.len();
    let frames = total / n;
    proof {
        lemma_fundamental_div_mod(total as int, n as int);
        lemma_mod_bound(total as int, n as int);
        assert((n as int) * (total as int / (n as int)) == (frames as int) * (n as int))
            by (nonlinear_arith)
            requires
                frames == total as int / n as int,
        ;
        assert((frames as int) * (n as int) <= total);
    }
    for c in 0..n
        invariant
            n >= 1,
            total == buf@.len(),
            frames as int == total as int / (n as int),
            (frames as int) * (n as int) <= total,
            result@.len() == c,
            forall|cc: int|
                0 <= cc < c ==> #[trigger] result@[cc]@ == deinterleave_spec(
                    buf@,
                    n as nat,
                )[cc],
    {
        let mut chan: Vec<T> = Vec::new();
        for i in 0..frames
            invariant
                n >= 1,
                c < n,
                total == buf@.len(),
                frames as int == total as int / (n as int),
                (frames as int) * (n as int) <= total,
                chan@.len() == i,
                forall|ii: int| 0 <= ii < i ==> chan@[ii] == buf@[ii * (n as int) + c],
        {
            proof {
                assert((i as int) * (n as int) + (c as int) < (frames as int) * (n as int))
                    by (nonlinear_arith)
                    requires
                        0 <= i < frames,
                        0 <= c < n,
                ;
            }
            let idx = i * n + c;
            chan.push(buf[idx]);
        }
        proof {
            assert(chan@ =~= deinterleave_spec(buf@, n as nat)[c as int]);
        }
        result.push(chan);
    }
    proof {
        assert(views_of(result@) =~~= deinterleave_spec(buf@, n as nat));
    }
    *channels = result;
}

/// Interleaving the deinterleaved image of a buffer restores the buffer
/// whenever the channel count is at least one and divides the buffer length.
pub proof fn lemma_interleave_deinterleave<T>(buf: Seq<T>, n: int)
    requires
        1 <= n,
        buf.len() as int % n == 0,
    ensures
        interleave_spec(deinterleave_spec(buf, n as nat)) == buf,
{
    let chans = deinterleave_spec(buf, n as nat);
    let len = buf.len() as int;
    let frames = len / n;
    lemma_fundamental_div_mod(len, n);
    assert(len == n * frames);
    assert(frames * n == n * frames) by (nonlinear_arith);
    assert(chans.len() == n);
    assert(frames_of(chans) == frames) by {
        assert(chans[0].len() == frames);
    }
    assert(interleave_spec(chans).len() == frames * n);
    assert forall|k: int| 0 <= k < len implies interleave_spec(chans)[k] == buf[k] by {
        lemma_mod_bound(k, n);
        lemma_fundamental_div_mod(k, n);
        let c = k % n;
        let i = k / n;
        assert(i < frames) by (nonlinear_arith)
            requires
                k < frames * n,
                k == n * i + c,
                0 <= c < n,
                0 <= i,
        ;
        assert(i >= 0) by (nonlinear_arith)
            requires
                k >= 0,
                k == n * i + c,
                0 <= c < n,
                n >= 1,
        ;
        assert(chans[c][i] == buf[i * n + c]);
        assert(i * n + c == k) by (nonlinear_arith)
            requires
                k == n * i + c,
        ;
    }
    assert(interleave_spec(chans) =~= buf);
}

} // verus!
