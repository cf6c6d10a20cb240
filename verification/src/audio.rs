//! Audio framing shared by capture (fixed-size chunks for the wire) and voice
//! activity detection (fixed-size analysis frames).

use vstd::prelude::*;

use vstd::arithmetic::div_mod::{
    lemma_fundamental_div_mod, lemma_fundamental_div_mod_converse, lemma_mod_pos_bound,
};

verus! {

/// Everything downstream (VAD, protocol, STT) works at this rate.
pub const TARGET_SAMPLE_RATE: u32 = 16_000;

/// Capture accepts chunks of 10 to 1000 ms: a zero-sized chunk would never
/// fill up, and a huge one would hold audio back for too long.
pub fn chunk_ms_ok(ms: u32) -> (r: bool)
    ensures
        r == (10 <= ms && ms <= 1000),
{
    10 <= ms && ms <= 1000
}

/// The whole chunks of `f` samples at the front of `s`, in order.
pub open spec fn chunks_of(s: Seq<i16>, f: int) -> Seq<Seq<i16>> {
    Seq::new((s.len() as int / f) as nat, |k: int| s.subrange(k * f, k * f + f))
}

/// What is left of `s` after its whole chunks of `f` samples.
pub open spec fn leftover(s: Seq<i16>, f: int) -> Seq<i16> {
    s.subrange((s.len() as int / f) * f, s.len() as int)
}

pub open spec fn frame_views(v: Seq<Vec<i16>>) -> Seq<Seq<i16>> {
    v.map_values(|c: Vec<i16>| c@)
}

/// Samples in `ms` milliseconds at the target rate.
pub fn samples_for_ms(ms: u32) -> (n: usize)
    requires
        TARGET_SAMPLE_RATE * ms <= u32::MAX,
    ensures
        n == TARGET_SAMPLE_RATE * ms / 1000,
        n == 16 * ms,
{
    (TARGET_SAMPLE_RATE * ms / 1000) as usize
}

/// Split every whole frame of `frame_len` samples off the front of `buf`, in
/// order; what is left is shorter than a frame.
pub fn drain_frames(buf: &mut Vec<i16>, frame_len: usize) -> (frames: Vec<Vec<i16>>)
    requires
        frame_len > 0,
    ensures
        frames@.len() * frame_len + final(buf)@.len() == old(buf)@.len(),
        final(buf)@.len() < frame_len,
        forall|k: int|
            0 <= k < frames@.len() ==> #[trigger] frames@[k]@ == old(buf)@.subrange(
                k * frame_len,
                k * frame_len + frame_len,
            ),
        final(buf)@ == old(buf)@.subrange(
            frames@.len() * frame_len,
            old(buf)@.len() as int,
        ),
{
    let mut frames: Vec<Vec<i16>> = Vec::new();
    let mut pos: usize = 0;
    let n = buf.len();
    assert(0 * frame_len == 0) by (nonlinear_arith);
    while n - pos >= frame_len
        invariant
            n == buf@.len(),
            buf@ == old(buf)@,
            frame_len > 0,
            pos <= n,
            pos == frames@.len() * frame_len,
            forall|k: int|
                0 <= k < frames@.len() ==> #[trigger] frames@[k]@ == buf@.subrange(
                    k * frame_len,
                    k * frame_len + frame_len,
                ),
        decreases n - pos,
    {
        let mut frame: Vec<i16> = Vec::new();
        let mut j: usize = 0;
        while j < frame_len
            invariant
                j <= frame_len,
                pos + frame_len <= n == buf@.len(),
                frame@ == buf@.subrange(pos as int, pos + j),
            decreases frame_len - j,
        {
            frame.push(buf[pos + j]);
            j = j + 1;
            assert(frame@ =~= buf@.subrange(pos as int, pos + j));
        }
        let ghost k = frames@.len();
        frames.push(frame);
        proof {
            assert((k + 1) * frame_len == k * frame_len + frame_len) by (nonlinear_arith);
        }
        pos = pos + frame_len;
    }
    let mut rest: Vec<i16> = Vec::new();
    let mut i = pos;
    while i < n
        invariant
            pos <= i <= n == buf@.len(),
            rest@ == buf@.subrange(pos as int, i as int),
        decreases n - i,
    {
        rest.push(buf[i]);
        i = i + 1;
        assert(rest@ =~= buf@.subrange(pos as int, i as int));
    }
    *buf = rest;
    frames
}

/// Samples collected into fixed-size chunks: 16 kHz samples go in as they
/// come, whole chunks come out in order, a partial chunk waits for more.
pub struct ChunkBuffer {
    chunk_len: usize,
    pending: Vec<i16>,
}

impl ChunkBuffer {
    /// Samples per chunk.
    pub closed spec fn chunk_len_of(&self) -> nat {
        self.chunk_len as nat
    }

    /// Samples waiting for a whole chunk.
    pub closed spec fn pending_of(&self) -> Seq<i16> {
        self.pending@
    }

    pub closed spec fn wf(&self) -> bool {
        &&& self.chunk_len > 0
        &&& self.pending@.len() < self.chunk_len
    }

    /// Chunks of `ms` milliseconds at the target rate.
    pub fn new(ms: u32) -> (r: Self)
        requires
            1 <= ms,
            TARGET_SAMPLE_RATE * ms <= u32::MAX,
        ensures
            r.wf(),
            r.chunk_len_of() == TARGET_SAMPLE_RATE * ms / 1000,
            r.pending_of().len() == 0,
    {
        ChunkBuffer { chunk_len: samples_for_ms(ms), pending: Vec::new() }
    }

    /// Add `samples`; returns every whole chunk now ready, in order.
    pub fn push(&mut self, samples: &[i16]) -> (chunks: Vec<Vec<i16>>)
        requires
            old(self).wf(),
        ensures
            final(self).wf(),
            final(self).chunk_len_of() == old(self).chunk_len_of(),
            ({
                let all = old(self).pending_of() + samples@;
                let f = old(self).chunk_len_of() as int;
                &&& chunks@.len() * f + final(self).pending_of().len() == all.len()
                &&& forall|k: int|
                    0 <= k < chunks@.len() ==> #[trigger] chunks@[k]@ == all.subrange(k * f, k * f + f)
                &&& final(self).pending_of() == all.subrange(chunks@.len() * f, all.len() as int)
                &&& final(self).pending_of().len() < f
                &&& chunks@.len() == all.len() as int / f
                &&& frame_views(chunks@) == chunks_of(all, f)
                &&& final(self).pending_of() == leftover(all, f)
            }),
    {
        let mut i: usize = 0;
        let ghost before = self.pending@;
        while i < samples.len()
            invariant
                i <= samples@.len(),
                self.pending@ == before + samples@.take(i as int),
                self.chunk_len == old(self).chunk_len,
                self.chunk_len > 0,
            decreases samples@.len() - i,
        {
            self.pending.push(samples[i]);
            i = i + 1;
            assert(self.pending@ =~= before + samples@.take(i as int));
        }
        assert(samples@.take(samples@.len() as int) =~= samples@);
        let ghost all = self.pending@;
        let chunks = drain_frames(&mut self.pending, self.chunk_len);
        proof {
            let f = self.chunk_len as int;
            lemma_fundamental_div_mod_converse(
                all.len() as int,
                f,
                chunks@.len() as int,
                self.pending@.len() as int,
            );
            assert(frame_views(chunks@) =~= chunks_of(all, f));
        }
        chunks
    }
}

/// Whatever way the samples are split into pushes, the chunks that come out,
/// joined, and the samples still pending make up exactly the samples that
/// went in: nothing is dropped, duplicated or reordered.
pub proof fn law_chunks_preserve_samples(pending: Seq<i16>, samples: Seq<i16>, chunks: Seq<Seq<i16>>, rest: Seq<i16>, f: int)
    requires
        f > 0,
        chunks.len() * f + rest.len() == pending.len() + samples.len(),
        forall|k: int| 0 <= k < chunks.len() ==> #[trigger] chunks[k] == (pending + samples).subrange(k * f, k * f + f),
        rest == (pending + samples).subrange(chunks.len() * f, (pending + samples).len() as int),
    ensures
        concat_frames(chunks) + rest == pending + samples,
        forall|k: int| 0 <= k < chunks.len() ==> (#[trigger] chunks[k]).len() == f,
{
    let all = pending + samples;
    assert forall|k: int| 0 <= k < chunks.len() implies (#[trigger] chunks[k]).len() == f by {
        assert(k * f + f <= chunks.len() * f) by (nonlinear_arith)
            requires
                0 <= k < chunks.len(),
                f > 0,
        ;
    }
    lemma_concat_prefix(all, chunks, f, chunks.len() as int);
    assert(chunks.take(chunks.len() as int) =~= chunks);
    assert(all.subrange(0, chunks.len() * f) + rest =~= all);
}

/// The chunks, joined.
pub open spec fn concat_frames(frames: Seq<Seq<i16>>) -> Seq<i16>
    decreases frames.len(),
{
    if frames.len() == 0 {
        seq![]
    } else {
        concat_frames(frames.drop_last()) + frames.last()
    }
}

proof fn lemma_concat_prefix(all: Seq<i16>, chunks: Seq<Seq<i16>>, f: int, n: int)
    requires
        f > 0,
        0 <= n <= chunks.len(),
        chunks.len() * f <= all.len(),
        forall|k: int| 0 <= k < chunks.len() ==> #[trigger] chunks[k] == all.subrange(k * f, k * f + f),
    ensures
        concat_frames(chunks.take(n)) == all.subrange(0, n * f),
    decreases n,
{
    if n == 0 {
        assert(0 * f == 0) by (nonlinear_arith);
        assert(chunks.take(0) =~= Seq::<Seq<i16>>::empty());
        assert(all.subrange(0, 0) =~= Seq::<i16>::empty());
    } else {
        lemma_concat_prefix(all, chunks, f, n - 1);
        assert(chunks.take(n).drop_last() =~= chunks.take(n - 1));
        assert((n - 1) * f + f == n * f) by (nonlinear_arith);
        assert(n * f <= chunks.len() * f) by (nonlinear_arith)
            requires
                n <= chunks.len(),
                f > 0,
        ;
        assert(all.subrange(0, n * f) =~= all.subrange(0, (n - 1) * f) + all.subrange((n - 1) * f, n * f));
    }
    if n == chunks.len() {
        assert(chunks.take(n) =~= chunks);
    }
}

proof fn lemma_div_split(x: int, y: int, f: int)
    requires
        0 <= x,
        0 <= y,
        f > 0,
    ensures
        0 <= x - (x / f) * f < f,
        (x / f) * f <= x,
        (x + y) / f == x / f + (x - (x / f) * f + y) / f,
        ((x - (x / f) * f + y) / f) * f <= x - (x / f) * f + y,
        (x + y) / f * f == (x / f) * f + ((x - (x / f) * f + y) / f) * f,
{
    lemma_fundamental_div_mod(x, f);
    lemma_mod_pos_bound(x, f);
    let q1 = x / f;
    let r1 = x % f;
    assert(f * q1 == q1 * f) by (nonlinear_arith);
    let z = r1 + y;
    lemma_fundamental_div_mod(z, f);
    lemma_mod_pos_bound(z, f);
    let q2 = z / f;
    assert(f * q2 == q2 * f) by (nonlinear_arith);
    assert(x + y == (q1 + q2) * f + z % f) by (nonlinear_arith)
        requires
            x == q1 * f + r1,
            z == q2 * f + z % f,
            z == r1 + y,
    ;
    lemma_fundamental_div_mod_converse(x + y, f, q1 + q2, z % f);
    assert((q1 + q2) * f == q1 * f + q2 * f) by (nonlinear_arith);
}

/// Chunking does not depend on how the samples are split into pushes: two
/// pushes give, one after the other, exactly the chunks one push of all the
/// samples gives, and leave the same samples pending.
pub proof fn law_split_push_chunks(p: Seq<i16>, a: Seq<i16>, b: Seq<i16>, f: int)
    requires
        f > 0,
    ensures
        chunks_of(p + a, f) + chunks_of(leftover(p + a, f) + b, f) == chunks_of(p + a + b, f),
        leftover(leftover(p + a, f) + b, f) == leftover(p + a + b, f),
{
    let s1 = p + a;
    let all = p + a + b;
    let x = s1.len() as int;
    let y = b.len() as int;
    lemma_div_split(x, y, f);
    let q1 = x / f;
    let rest = leftover(s1, f);
    let s2 = rest + b;
    assert(s2 =~= all.subrange(q1 * f, all.len() as int));
    let q2 = s2.len() as int / f;
    assert(all.len() as int / f == q1 + q2);
    let c1 = chunks_of(s1, f);
    let c2 = chunks_of(s2, f);
    let c = chunks_of(all, f);
    assert forall|k: int| 0 <= k < c.len() implies #[trigger] (c1 + c2)[k] == c[k] by {
        if k < q1 {
            assert(k * f + f <= q1 * f) by (nonlinear_arith)
                requires
                    0 <= k < q1,
                    f > 0,
            ;
            assert(0 <= k * f) by (nonlinear_arith)
                requires
                    0 <= k,
                    f > 0,
            ;
            assert(s1.subrange(k * f, k * f + f) =~= all.subrange(k * f, k * f + f));
        } else {
            let j = k - q1;
            assert(k * f == q1 * f + j * f) by (nonlinear_arith)
                requires
                    j == k - q1,
            ;
            assert(j * f + f <= q2 * f) by (nonlinear_arith)
                requires
                    0 <= j < q2,
                    f > 0,
            ;
            assert(0 <= j * f) by (nonlinear_arith)
                requires
                    0 <= j,
                    f > 0,
            ;
            assert(s2.subrange(j * f, j * f + f) =~= all.subrange(k * f, k * f + f));
        }
    }
    assert(c1 + c2 =~= c);
    assert(leftover(s2, f) =~= leftover(all, f));
}

} // verus!
