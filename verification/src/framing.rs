//! Framing of the instrument's byte stream.
//!
//! A frame is the maximal run of bytes from the start of the queue up to
//! (but not including) the first carriage-return byte. A queue holds any
//! number of complete frames followed by one unterminated partial frame,
//! possibly empty; extraction removes the complete frames and leaves the
//! partial one for the next read.

use vstd::prelude::*;

verus! {

/// The frame delimiter: a carriage-return byte.
pub const DELIM: u8 = 13;

/// Index of the first delimiter in `q`, or `q.len()` if there is none.
pub open spec fn delim_pos(q: Seq<u8>) -> int
    decreases q.len(),
{
    if q.len() == 0 {
        0
    } else if q[0] == DELIM {
        0
    } else {
        1 + delim_pos(q.drop_first())
    }
}

/// The complete frames of `q`, in order, delimiters removed.
pub open spec fn frames_of(q: Seq<u8>) -> Seq<Seq<u8>>
    decreases q.len(),
{
    let p = delim_pos(q);
    if !(0 <= p < q.len()) {
        seq![]
    } else {
        seq![q.subrange(0, p)] + frames_of(q.subrange(p + 1, q.len() as int))
    }
}

/// The unterminated partial frame left after every complete frame of `q`
/// is removed.
pub open spec fn rest_of(q: Seq<u8>) -> Seq<u8>
    decreases q.len(),
{
    let p = delim_pos(q);
    if !(0 <= p < q.len()) {
        q
    } else {
        rest_of(q.subrange(p + 1, q.len() as int))
    }
}

/// `delim_pos` points at the first delimiter: nothing before it is one,
/// and it is in range exactly when the queue holds a delimiter at all.
pub proof fn lemma_delim_pos_facts(q: Seq<u8>)
    ensures
        0 <= delim_pos(q) <= q.len(),
        forall|j: int| 0 <= j < delim_pos(q) ==> q[j] != DELIM,
        delim_pos(q) < q.len() ==> q[delim_pos(q)] == DELIM,
    decreases q.len(),
{
    if q.len() > 0 && q[0] != DELIM {
        lemma_delim_pos_facts(q.drop_first());
        assert forall|j: int| 0 <= j < delim_pos(q) implies q[j] != DELIM by {
            if j > 0 {
                assert(q.drop_first()[j - 1] != DELIM);
            }
        }
    }
}

/// The first delimiter of `a + b` lies where `a`'s does, or past `a`
/// where `b`'s does if `a` has none.
pub proof fn lemma_delim_pos_append(a: Seq<u8>, b: Seq<u8>)
    ensures
        delim_pos(a) < a.len() ==> delim_pos(a + b) == delim_pos(a),
        delim_pos(a) >= a.len() ==> delim_pos(a + b) == a.len() + delim_pos(b),
    decreases a.len(),
{
    lemma_delim_pos_facts(a);
    if a.len() == 0 {
        assert(a + b =~= b);
    } else if a[0] == DELIM {
        assert((a + b)[0] == DELIM);
    } else {
        lemma_delim_pos_append(a.drop_first(), b);
        assert((a + b)[0] == a[0]);
        assert((a + b).drop_first() =~= a.drop_first() + b);
    }
}

/// Feeding a queue in two chunks yields the same frames and the same
/// leftover partial frame as feeding it at once: the frames of `a + b`
/// are the frames of `a` followed by the frames of `a`'s leftover joined
/// with `b`, and the leftovers agree.
pub proof fn lemma_feed_split(a: Seq<u8>, b: Seq<u8>)
    ensures
        frames_of(a + b) == frames_of(a) + frames_of(rest_of(a) + b),
        rest_of(a + b) == rest_of(rest_of(a) + b),
    decreases a.len(),
{
    lemma_delim_pos_facts(a);
    lemma_delim_pos_append(a, b);
    let p = delim_pos(a);
    if p >= a.len() {
        // `a` holds no delimiter: it is all leftover.
        assert(rest_of(a) == a);
        assert(frames_of(a) == Seq::<Seq<u8>>::empty());
        assert(frames_of(a) + frames_of(a + b) =~= frames_of(a + b));
    } else {
        let tail = a.subrange(p + 1, a.len() as int);
        assert((a + b).subrange(0, p) =~= a.subrange(0, p));
        assert((a + b).subrange(p + 1, (a + b).len() as int) =~= tail + b);
        lemma_feed_split(tail, b);
        assert(frames_of(a + b) == seq![a.subrange(0, p)] + frames_of(tail + b));
        assert(seq![a.subrange(0, p)] + (frames_of(tail) + frames_of(rest_of(tail) + b))
            =~= (seq![a.subrange(0, p)] + frames_of(tail)) + frames_of(rest_of(tail) + b));
    }
}

/// The views of a vector of extracted frames.
pub open spec fn views_of(s: Seq<Vec<u8>>) -> Seq<Seq<u8>> {
    s.map_values(|f: Vec<u8>| f@)
}

/// Remove every complete frame from the front of `buf`, in order, and
/// leave only the unterminated partial frame.
pub fn take_frames(buf: &mut Vec<u8>) -> (frames: Vec<Vec<u8>>)
    ensures
        views_of(frames@) == frames_of(old(buf)@),
        final(buf)@ == rest_of(old(buf)@),
{
    let ghost q0 = buf@;
    let mut frames: Vec<Vec<u8>> = Vec::new();
    loop
        invariant
            frames_of(q0) == views_of(frames@) + frames_of(buf@),
            rest_of(q0) == rest_of(buf@),
        ensures
            frames_of(buf@) == Seq::<Seq<u8>>::empty(),
            rest_of(buf@) == buf@,
            frames_of(q0) == views_of(frames@) + frames_of(buf@),
            rest_of(q0) == rest_of(buf@),
        decreases buf@.len(),
    {
        let n = buf.len();
        let mut i: usize = 0;
        while i < n && buf[i] != DELIM
            invariant
                0 <= i <= n,
                n == buf@.len(),
                forall|j: int| 0 <= j < i ==> buf@[j] != DELIM,
            decreases n - i,
        {
            i = i + 1;
        }
        proof {
            lemma_delim_pos_facts(buf@);
        }
        if i == n {
            // No delimiter: what remains is the partial frame.
            break;
        }
        assert(delim_pos(buf@) == i);
        let mut frame: Vec<u8> = Vec::new();
        let mut j: usize = 0;
        while j < i
            invariant
                0 <= j <= i < n,
                n == buf@.len(),
                frame@ == buf@.subrange(0, j as int),
            decreases i - j,
        {
            frame.push(buf[j]);
            proof {
                assert(frame@ =~= buf@.subrange(0, j + 1));
            }
            j = j + 1;
        }
        let mut kept: Vec<u8> = Vec::new();
        let mut k: usize = i + 1;
        while k < n
            invariant
                i + 1 <= k <= n,
                n == buf@.len(),
                kept@ == buf@.subrange(i + 1, k as int),
            decreases n - k,
        {
            kept.push(buf[k]);
            proof {
                assert(kept@ =~= buf@.subrange(i + 1, k + 1));
            }
            k = k + 1;
        }
        let ghost qpre = buf@;
        *buf = kept;
        proof {
            assert(frame@ =~= qpre.subrange(0, i as int));
            assert(kept@ =~= qpre.subrange(i + 1, qpre.len() as int));
            assert(frames_of(qpre) == seq![frame@] + frames_of(buf@));
        }
        frames.push(frame);
        proof {
            assert(views_of(frames@) =~= views_of(frames@.drop_last()).push(frame@));
            assert(views_of(frames@.drop_last()) + (seq![frame@] + frames_of(buf@))
                =~= views_of(frames@) + frames_of(buf@));
        }
    }
    proof {
        assert(views_of(frames@) + Seq::<Seq<u8>>::empty() =~= views_of(frames@));
    }
    frames
}

} // verus!
