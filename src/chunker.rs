use vstd::prelude::*;
use vstd::arithmetic::div_mod::lemma_fundamental_div_mod_converse;
use bytes::BytesMut;

verus! {

#[verifier::external_type_specification]
#[verifier::external_body]
pub struct ExBytesMut(BytesMut);

/// The bytes that a `BytesMut` buffer holds, in order.
pub uninterp spec fn buffered_bytes(b: BytesMut) -> Seq<u8>;

/// Relies on `BytesMut::new`: a new buffer holds no bytes (and allocates nothing).
#[verifier::external_body]
fn empty_buffer() -> (r: BytesMut)
    ensures
        buffered_bytes(r) == Seq::<u8>::empty(),
{
    BytesMut::new()
}

/// Relies on `BytesMut::len`: the number of bytes held.
#[verifier::external_body]
fn buffer_len(b: &BytesMut) -> (r: usize)
    ensures
        r == buffered_bytes(*b).len(),
{
    b.len()
}

/// Relies on `BytesMut::extend_from_slice`: the slice is appended after the held
/// bytes (it panics only when the new capacity overflows, which `requires` rules out).
#[verifier::external_body]
fn buffer_extend(b: &mut BytesMut, data: &[u8])
    requires
        buffered_bytes(*old(b)).len() + data@.len() <= isize::MAX,
    ensures
        buffered_bytes(*final(b)) == buffered_bytes(*old(b)) + data@,
{
    b.extend_from_slice(data)
}

/// Relies on `BytesMut::split_to`: the first `at` bytes leave the buffer and are
/// returned, the buffer keeps the rest (it panics when `at` exceeds the length).
#[verifier::external_body]
fn buffer_split_to(b: &mut BytesMut, at: usize) -> (r: Vec<u8>)
    requires
        at <= buffered_bytes(*old(b)).len(),
    ensures
        r@ == buffered_bytes(*old(b)).take(at as int),
        buffered_bytes(*final(b)) == buffered_bytes(*old(b)).skip(at as int),
{
    b.split_to(at).to_vec()
}

/// The byte contents of a list of chunks.
pub open spec fn chunk_views(v: Seq<Vec<u8>>) -> Seq<Seq<u8>> {
    v.map_values(|x: Vec<u8>| x@)
}

/// Every chunk of `chunks` is exactly `c` bytes long.
pub open spec fn all_sized(chunks: Seq<Seq<u8>>, c: nat) -> bool {
    forall|i: int| 0 <= i < chunks.len() ==> (#[trigger] chunks[i]).len() == c
}

/// The full chunks followed by the remainder, when the remainder is not empty.
pub open spec fn with_remainder(chunks: Seq<Seq<u8>>, rest: Seq<u8>) -> Seq<Seq<u8>> {
    if rest.len() == 0 {
        chunks
    } else {
        chunks.push(rest)
    }
}

/// Number of chunks of size `c` needed for `n` bytes: the ceiling of `n / c`.
pub open spec fn chunk_count(n: nat, c: nat) -> nat
    recommends
        c > 0,
{
    ((n + c - 1) as nat) / c
}

/// Length of the last chunk of `n > 0` bytes cut into chunks of size `c`.
pub open spec fn last_chunk_len(n: nat, c: nat) -> nat
    recommends
        c > 0,
{
    if n % c == 0 {
        c
    } else {
        n % c
    }
}

pub proof fn lemma_flatten_append(a: Seq<Seq<u8>>, b: Seq<Seq<u8>>)
    ensures
        (a + b).flatten_alt() == a.flatten_alt() + b.flatten_alt(),
    decreases b.len(),
{
    if b.len() == 0 {
        assert(a + b =~= a);
        assert(a.flatten_alt() + b.flatten_alt() =~= a.flatten_alt());
    } else {
        let bl = b.drop_last();
        lemma_flatten_append(a, bl);
        assert((a + b).drop_last() =~= a + bl);
        assert((a + b).last() == b.last());
        assert((a + b).flatten_alt() == (a + bl).flatten_alt() + b.last());
        assert(a.flatten_alt() + b.flatten_alt() =~= a.flatten_alt() + bl.flatten_alt()
            + b.last());
    }
}

pub proof fn lemma_flatten_sized_len(chunks: Seq<Seq<u8>>, c: nat)
    requires
        all_sized(chunks, c),
    ensures
        chunks.flatten_alt().len() == chunks.len() * c,
    decreases chunks.len(),
{
    if chunks.len() > 0 {
        let d = chunks.drop_last();
        assert(all_sized(d, c)) by {
            assert forall|i: int| 0 <= i < d.len() implies (#[trigger] d[i]).len() == c by {
                assert(d[i] == chunks[i]);
            }
        }
        lemma_flatten_sized_len(d, c);
        assert(chunks.last() == chunks[chunks.len() - 1]);
        assert(chunks.len() * c == d.len() * c + c) by (nonlinear_arith)
            requires
                chunks.len() == d.len() + 1,
        ;
    }
}

/// Turns a stream of byte fragments of any size into chunks of exactly
/// `chunk_size` bytes, in arrival order, plus one final shorter remainder.
pub struct ChunkAccumulator {
    chunk_size: usize,
    buffer: BytesMut,
    pushed: Ghost<Seq<u8>>,
    emitted: Ghost<Seq<Seq<u8>>>,
}

impl ChunkAccumulator {
    pub closed spec fn chunk_size(&self) -> nat {
        self.chunk_size as nat
    }

    /// Every byte pushed so far, in order.
    pub closed spec fn pushed(&self) -> Seq<u8> {
        self.pushed@
    }

    /// Every chunk handed out so far, in order.
    pub closed spec fn emitted(&self) -> Seq<Seq<u8>> {
        self.emitted@
    }

    /// The bytes held back, waiting for a full chunk.
    pub closed spec fn pending(&self) -> Seq<u8> {
        buffered_bytes(self.buffer)
    }

    pub open spec fn wf(&self) -> bool {
        &&& self.chunk_size() > 0
        &&& all_sized(self.emitted(), self.chunk_size())
        &&& self.pending().len() < self.chunk_size()
        &&& self.emitted().flatten_alt() + self.pending() == self.pushed()
    }

    pub fn new(chunk_size: usize) -> (r: ChunkAccumulator)
        requires
            chunk_size > 0,
        ensures
            r.wf(),
            r.chunk_size() == chunk_size,
            r.pushed() == Seq::<u8>::empty(),
            r.emitted() == Seq::<Seq<u8>>::empty(),
    {
        let r = ChunkAccumulator {
            chunk_size,
            buffer: empty_buffer(),
            pushed: Ghost(Seq::empty()),
            emitted: Ghost(Seq::empty()),
        };
        assert(r.emitted().flatten_alt() + r.pending() =~= r.pushed());
        r
    }

    /// Appends `fragment` and hands out every chunk that is now complete, in
    /// arrival order; fewer than `chunk_size` bytes stay behind.
    pub fn push(&mut self, fragment: &[u8]) -> (r: Vec<Vec<u8>>)
        requires
            old(self).wf(),
            old(self).chunk_size() + fragment@.len() <= isize::MAX,
        ensures
            final(self).wf(),
            final(self).chunk_size() == old(self).chunk_size(),
            final(self).pushed() == old(self).pushed() + fragment@,
            final(self).emitted() == old(self).emitted() + chunk_views(r@),
            all_sized(chunk_views(r@), old(self).chunk_size()),
            old(self).pending() + fragment@ == chunk_views(r@).flatten_alt() + final(self).pending(),
    {
        let ghost start = self.pending() + fragment@;
        buffer_extend(&mut self.buffer, fragment);
        let c = self.chunk_size;
        let mut out: Vec<Vec<u8>> = Vec::new();
        assert(chunk_views(out@).flatten_alt() + self.pending() =~= start);
        while buffer_len(&self.buffer) >= c
            invariant
                c == self.chunk_size,
                c > 0,
                self.emitted == old(self).emitted,
                self.pushed == old(self).pushed,
                all_sized(chunk_views(out@), c as nat),
                chunk_views(out@).flatten_alt() + self.pending() == start,
            decreases self.pending().len(),
        {
            let ghost before = chunk_views(out@);
            let ghost rest = self.pending();
            let chunk = buffer_split_to(&mut self.buffer, c);
            out.push(chunk);
            proof {
                let after = chunk_views(out@);
                assert(after =~= before.push(chunk@));
                assert(after.drop_last() =~= before);
                assert(rest =~= chunk@ + self.pending());
                assert(after.flatten_alt() == before.flatten_alt() + chunk@);
                assert(after.flatten_alt() + self.pending() =~= before.flatten_alt() + rest);
            }
        }
        proof {
            let outv = chunk_views(out@);
            lemma_flatten_append(self.emitted@, outv);
            assert(self.emitted@.flatten_alt() + start =~= old(self).pushed() + fragment@);
            assert(all_sized(self.emitted@ + outv, c as nat)) by {
                let all = self.emitted@ + outv;
                assert forall|i: int| 0 <= i < all.len() implies (#[trigger] all[i]).len()
                    == c by {
                    if i < self.emitted@.len() {
                        assert(all[i] == self.emitted@[i]);
                    } else {
                        assert(all[i] == outv[i - self.emitted@.len()]);
                    }
                }
            }
            assert((self.emitted@ + outv).flatten_alt() + self.pending() =~= self.emitted@.flatten_alt()
                + (outv.flatten_alt() + self.pending()));
        }
        self.pushed = Ghost(self.pushed@ + fragment@);
        self.emitted = Ghost(self.emitted@ + chunk_views(out@));
        out
    }

    /// Ends the stream: the bytes still held back, as the final chunk, or `None`
    /// when none are left.
    pub fn finish(self) -> (r: Option<Vec<u8>>)
        requires
            self.wf(),
        ensures
            r.is_none() <==> self.pending().len() == 0,
            r.is_some() ==> r.unwrap()@ == self.pending(),
            with_remainder(self.emitted(), self.pending())
                == self.emitted() + (match r {
                    Some(v) => seq![v@],
                    None => Seq::<Seq<u8>>::empty(),
                }),
    {
        let mut buffer = self.buffer;
        let n = buffer_len(&buffer);
        if n == 0 {
            assert(self.emitted() + Seq::<Seq<u8>>::empty() =~= self.emitted());
            None
        } else {
            let rest = buffer_split_to(&mut buffer, n);
            assert(rest@ =~= self.pending());
            assert(self.emitted() + seq![rest@] =~= self.emitted().push(rest@));
            Some(rest)
        }
    }
}

/// Cutting a byte stream of length `N` into chunks of size `C` yields `⌈N/C⌉`
/// chunks: all but the last exactly `C` bytes long, the last `N mod C` bytes long
/// (or `C` when `C` divides `N > 0`), and together, in order, the stream itself.
pub proof fn chunking_covers_stream(acc: ChunkAccumulator)
    requires
        acc.wf(),
    ensures
        ({
            let out = with_remainder(acc.emitted(), acc.pending());
            let n = acc.pushed().len();
            let c = acc.chunk_size();
            &&& out.len() == chunk_count(n, c)
            &&& forall|i: int| 0 <= i < out.len() - 1 ==> (#[trigger] out[i]).len() == c
            &&& n > 0 ==> out.last().len() == last_chunk_len(n, c)
            &&& out.flatten_alt() == acc.pushed()
        }),
{
    let e = acc.emitted();
    let p = acc.pending();
    let out = with_remainder(e, p);
    let n = acc.pushed().len();
    let c = acc.chunk_size();
    let k = e.len();
    let r = p.len();
    lemma_flatten_sized_len(e, c);
    assert(n == k * c + r);
    lemma_fundamental_div_mod_converse(n as int, c as int, k as int, r as int);
    if r == 0 {
        assert(out.flatten_alt() =~= acc.pushed());
        lemma_fundamental_div_mod_converse((n + c - 1) as int, c as int, k as int, (c - 1) as int);
        if n > 0 {
            assert(k > 0) by (nonlinear_arith)
                requires
                    n == k * c + r,
                    r == 0,
                    n > 0,
            ;
            assert(out.last() == e[k - 1]);
        }
    } else {
        assert(out.drop_last() =~= e);
        assert(out.flatten_alt() == e.flatten_alt() + p);
        assert((k + 1) * c == k * c + c) by (nonlinear_arith);
        lemma_fundamental_div_mod_converse((n + c - 1) as int, c as int, (k + 1) as int, (r - 1) as int);
        assert forall|i: int| 0 <= i < out.len() - 1 implies (#[trigger] out[i]).len() == c by {
            assert(out[i] == e[i]);
        }
    }
}

/// The byte range of part `j` (counting from zero) of an object of `len` bytes
/// cut into parts of `c` bytes: `c` bytes from `j * c`, or up to the end.
pub open spec fn part_range(j: int, c: int, len: int) -> (int, int) {
    (j * c, if j * c + c < len {
        j * c + c
    } else {
        len
    })
}

/// How an object of `len` bytes is uploaded: `None` when it fits in one chunk
/// and goes up in a single request, otherwise the byte ranges of its parts in
/// order, each `chunk_size` bytes but the last, which holds the rest.
pub fn large_object_parts(len: usize, chunk_size: usize) -> (r: Option<Vec<(usize, usize)>>)
    requires
        chunk_size > 0,
    ensures
        r.is_none() <==> len <= chunk_size,
        r.is_some() ==> r.unwrap()@.len() == chunk_count(len as nat, chunk_size as nat),
        r.is_some() ==> forall|j: int|
            0 <= j < r.unwrap()@.len() ==> ((#[trigger] r.unwrap()@[j]).0 as int, r.unwrap()@[j].1 as int)
                == part_range(j, chunk_size as int, len as int),
{
    if len <= chunk_size {
        return None;
    }
    let c = chunk_size;
    let mut out: Vec<(usize, usize)> = Vec::new();
    let mut offset: usize = 0;
    assert(out@.len() * c == 0) by (nonlinear_arith)
        requires
            out@.len() == 0,
    ;
    while offset < len
        invariant
            c == chunk_size,
            c > 0,
            len > c,
            offset <= len,
            offset < len ==> offset as int == out@.len() * c,
            offset == len ==> out@.len() == chunk_count(len as nat, c as nat),
            forall|j: int|
                0 <= j < out@.len() ==> ((#[trigger] out@[j]).0 as int, out@[j].1 as int)
                    == part_range(j, c as int, len as int),
        decreases len - offset,
    {
        let k = out.len();
        let end = if len - offset > c {
            offset + c
        } else {
            len
        };
        out.push((offset, end));
        proof {
            let kk = k as int;
            assert((kk + 1) * c == kk * c + c) by (nonlinear_arith);
            assert(out@[kk].0 as int == kk * c);
            if end == len {
                let t = len - offset;
                assert(1 <= t <= c);
                lemma_fundamental_div_mod_converse(
                    (len + c - 1) as int,
                    c as int,
                    kk + 1,
                    (t - 1) as int,
                );
            }
        }
        offset = end;
    }
    Some(out)
}

} // verus!
