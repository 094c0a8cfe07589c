//! Abstract byte-range sources consumed by the metadata and tile pipelines.

use vstd::prelude::*;

use crate::error::TiffError;

verus! {

/// `v`, forced into the interval `[lo, hi]`.
pub open spec fn clamp(v: int, lo: int, hi: int) -> int {
    if v < lo {
        lo
    } else if v > hi {
        hi
    } else {
        v
    }
}

/// The bytes of `s` in the half-open range `[start, end)`, clipped to the
/// bounds of `s`. A range that begins at or past the end of `s` yields the
/// empty sequence.
pub open spec fn clipped(s: Seq<u8>, start: int, end: int) -> Seq<u8> {
    let lo = clamp(start, 0, s.len() as int);
    let hi = clamp(end, 0, s.len() as int);
    if lo <= hi {
        s.subrange(lo, hi)
    } else {
        Seq::empty()
    }
}

/// A source of bytes for the metadata parser. Its one promise is a ranged
/// read: a successful fetch of `[start, end)` returns exactly the source
/// bytes in that range, clipped at the end of the source.
pub trait MetadataFetch {
    /// The bytes of the underlying source.
    spec fn contents(&self) -> Seq<u8>;

    /// Whether this source always serves a ranged read: true of an
    /// in-memory source or a cache over one, false of a backend that can
    /// fail, such as a network store.
    spec fn reliable(&self) -> bool;

    /// How many reads have reached the ultimate backing source through
    /// this object: a caching layer passes its wrapped source's count
    /// through, so the count observes how well it coalesces requests.
    spec fn source_reads(&self) -> int;

    /// Fetch the bytes in `[start, end)`. A short source clips the range;
    /// a failing backend reports an error and leaves the source
    /// unchanged. One fetch costs at most one read of the backing source.
    fn fetch(&mut self, start: u64, end: u64) -> (r: Result<Vec<u8>, TiffError>)
        requires
            start <= end,
        ensures
            final(self).contents() == old(self).contents(),
            final(self).reliable() == old(self).reliable(),
            old(self).source_reads() <= final(self).source_reads() <= old(self).source_reads()
                + 1,
            (r matches Ok(v) ==> v@ == clipped(old(self).contents(), start as int, end as int)),
            old(self).reliable() ==> r is Ok,
    ;
}

/// A source of bytes for tile payloads. Tile reads bypass the metadata
/// cache so that large payloads do not pollute it, and may be batched.
pub trait ImageFetch {
    /// The bytes of the underlying source.
    spec fn contents(&self) -> Seq<u8>;

    /// Fetch the bytes in `[start, end)`, clipped at the end of the source.
    fn fetch_range(&mut self, start: u64, end: u64) -> (r: Result<Vec<u8>, TiffError>)
        requires
            start <= end,
        ensures
            final(self).contents() == old(self).contents(),
            (r matches Ok(v) ==> v@ == clipped(old(self).contents(), start as int, end as int)),
    ;

    /// Fetch several byte ranges. The buffers returned correspond
    /// index-for-index to the requested ranges.
    fn fetch_ranges(&mut self, ranges: &Vec<(u64, u64)>) -> (r: Result<
        Vec<Vec<u8>>,
        TiffError,
    >)
        requires
            forall|i: int| 0 <= i < ranges@.len() ==> #[trigger] ranges@[i].0 <= ranges@[i].1,
        ensures
            final(self).contents() == old(self).contents(),
            (r matches Ok(bufs) ==> {
                &&& bufs@.len() == ranges@.len()
                &&& forall|i: int|
                    0 <= i < ranges@.len() ==> #[trigger] bufs@[i]@ == clipped(
                        old(self).contents(),
                        ranges@[i].0 as int,
                        ranges@[i].1 as int,
                    )
            }),
    ;
}

/// An in-memory byte source. It serves ranged reads from a buffer it owns
/// and counts how many reads reach it, so that callers can observe how well
/// a caching layer in front of it coalesces requests.
pub struct MemoryFetch {
    data: Vec<u8>,
    num_fetches: u64,
    reads: Ghost<int>,
}

impl MemoryFetch {
    /// The bytes this source serves.
    pub closed spec fn source(&self) -> Seq<u8> {
        self.data@
    }

    /// How many ranged reads have reached this source.
    pub closed spec fn fetch_count(&self) -> u64 {
        self.num_fetches
    }

    /// Wrap a byte buffer as a fetchable source.
    pub fn new(data: Vec<u8>) -> (r: MemoryFetch)
        ensures
            r.source() == data@,
            r.fetch_count() == 0,
            <MemoryFetch as MetadataFetch>::source_reads(&r) == 0,
    {
        MemoryFetch { data, num_fetches: 0, reads: Ghost(0) }
    }

    /// How many ranged reads have reached this source.
    pub fn num_fetches(&self) -> (r: u64)
        ensures
            r == self.fetch_count(),
    {
        self.num_fetches
    }

    fn read_clipped(&self, start: u64, end: u64) -> (r: Vec<u8>)
        requires
            start <= end,
        ensures
            r@ == clipped(self.data@, start as int, end as int),
    {
        let len = self.data.len();
        let lo: usize = if start <= len as u64 {
            start as usize
        } else {
            len
        };
        let hi: usize = if end <= len as u64 {
            end as usize
        } else {
            len
        };
        let mut out: Vec<u8> = Vec::new();
        let mut i: usize = lo;
        while i < hi
            invariant
                lo <= i <= hi <= self.data@.len(),
                out@ == self.data@.subrange(lo as int, i as int),
            decreases hi - i,
        {
            out.push(self.data[i]);
            i = i + 1;
        }
        proof {
            assert(out@ =~= clipped(self.data@, start as int, end as int));
        }
        out
    }
}

impl MetadataFetch for MemoryFetch {
    open spec fn contents(&self) -> Seq<u8> {
        self.source()
    }

    open spec fn reliable(&self) -> bool {
        true
    }

    closed spec fn source_reads(&self) -> int {
        self.reads@
    }

    fn fetch(&mut self, start: u64, end: u64) -> (r: Result<Vec<u8>, TiffError>)
        ensures
            r is Ok,
            final (self).source() == old(self).source(),
            old(self).fetch_count() < u64::MAX ==> final (self).fetch_count() == old(
                self,
            ).fetch_count() + 1,
            final (self).source_reads() == old(self).source_reads() + 1,
    {
        if self.num_fetches < u64::MAX {
            self.num_fetches = self.num_fetches + 1;
        }
        proof {
            self.reads@ = self.reads@ + 1;
        }
        Ok(self.read_clipped(start, end))
    }
}

impl ImageFetch for MemoryFetch {
    open spec fn contents(&self) -> Seq<u8> {
        self.source()
    }

    fn fetch_range(&mut self, start: u64, end: u64) -> (r: Result<Vec<u8>, TiffError>) {
        Ok(self.read_clipped(start, end))
    }

    fn fetch_ranges(&mut self, ranges: &Vec<(u64, u64)>) -> (r: Result<Vec<Vec<u8>>, TiffError>) {
        let mut out: Vec<Vec<u8>> = Vec::new();
        let mut i: usize = 0;
        while i < ranges.len()
            invariant
                i <= ranges@.len(),
                out@.len() == i,
                forall|j: int| 0 <= j < i ==> #[trigger] ranges@[j].0 <= ranges@[j].1,
                forall|j: int|
                    0 <= j < i ==> #[trigger] out@[j]@ == clipped(
                        self.data@,
                        ranges@[j].0 as int,
                        ranges@[j].1 as int,
                    ),
                forall|k: int| 0 <= k < ranges@.len() ==> #[trigger] ranges@[k].0 <= ranges@[k].1,
            decreases ranges@.len() - i,
        {
            let (s, e) = ranges[i];
            out.push(self.read_clipped(s, e));
            i = i + 1;
        }
        Ok(out)
    }
}

/// Whether two half-open ranges touch: they share a point, or meet end to
/// start. Used when deciding if a cached buffer can serve part of a request.
pub fn ranges_overlap(r1: &core::ops::Range<u64>, r2: &core::ops::Range<u64>) -> (r: bool)
    ensures
        r == (max64(r1.start, r2.start) <= min64(r1.end, r2.end)),
{
    let lo = if r1.start >= r2.start {
        r1.start
    } else {
        r2.start
    };
    let hi = if r1.end <= r2.end {
        r1.end
    } else {
        r2.end
    };
    lo <= hi
}

/// The larger of two machine words.
pub open spec fn max64(a: u64, b: u64) -> u64 {
    if a >= b {
        a
    } else {
        b
    }
}

/// The smaller of two machine words.
pub open spec fn min64(a: u64, b: u64) -> u64 {
    if a <= b {
        a
    } else {
        b
    }
}

/// A [`MetadataFetch`] that holds the first stretch of the file in a
/// buffer, so that the header and tag reads the parser makes are served
/// without touching the underlying source. Ranges past the buffer are
/// fetched from the source; a range that straddles the boundary is
/// stitched from both.
pub struct PrefetchBuffer<F: MetadataFetch> {
    fetch: F,
    buffer: Vec<u8>,
}

impl<F: MetadataFetch> PrefetchBuffer<F> {
    /// The bytes this layer serves: the buffered stretch, continued by
    /// the wrapped source past it. For a buffer filled from the start of
    /// the source, this is the source itself.
    pub closed spec fn source(&self) -> Seq<u8> {
        if self.buffer@.len() <= self.fetch.contents().len() {
            self.buffer@ + self.fetch.contents().skip(self.buffer@.len() as int)
        } else {
            self.buffer@
        }
    }

    /// The number of bytes held in the buffer.
    pub closed spec fn buffered(&self) -> int {
        self.buffer@.len() as int
    }

    /// Buffer the first `prefetch` bytes of the source.
    pub fn new(fetch: F, prefetch: u64) -> (r: Result<PrefetchBuffer<F>, TiffError>)
        ensures
            (r matches Ok(p) ==> p.source() == fetch.contents()),
            fetch.reliable() ==> r is Ok,
            (r matches Ok(p) ==> <PrefetchBuffer<F> as MetadataFetch>::reliable(&p)
                == fetch.reliable()),
    {
        let mut fetch = fetch;
        match fetch.fetch(0, prefetch) {
            Ok(buffer) => {
                let p = PrefetchBuffer { fetch, buffer };
                proof {
                    assert(p.source() =~= p.fetch.contents());
                }
                Ok(p)
            },
            Err(e) => Err(e),
        }
    }

    fn slice_buffer(&self, start: usize, end: usize) -> (r: Vec<u8>)
        requires
            start <= end <= self.buffer@.len(),
        ensures
            r@ == self.buffer@.subrange(start as int, end as int),
    {
        let mut out: Vec<u8> = Vec::new();
        let mut i: usize = start;
        while i < end
            invariant
                start <= i <= end <= self.buffer@.len(),
                out@ == self.buffer@.subrange(start as int, i as int),
            decreases end - i,
        {
            out.push(self.buffer[i]);
            i = i + 1;
        }
        proof {
            assert(out@ =~= self.buffer@.subrange(start as int, end as int));
        }
        out
    }
}

impl<F: MetadataFetch> MetadataFetch for PrefetchBuffer<F> {
    open spec fn contents(&self) -> Seq<u8> {
        self.source()
    }

    closed spec fn reliable(&self) -> bool {
        self.fetch.reliable()
    }

    closed spec fn source_reads(&self) -> int {
        self.fetch.source_reads()
    }

    fn fetch(&mut self, start: u64, end: u64) -> (r: Result<Vec<u8>, TiffError>)
        ensures
            end <= old(self).buffered() ==> *final (self) == *old(self) && final (
            self).source_reads() == old(self).source_reads(),
    {
        let ghost comp = self.source();
        let blen = self.buffer.len();
        if end <= blen as u64 {
            let out = self.slice_buffer(start as usize, end as usize);
            proof {
                assert(out@ =~= clipped(comp, start as int, end as int));
            }
            Ok(out)
        } else if start >= blen as u64 {
            match self.fetch.fetch(start, end) {
                Ok(v) => {
                    proof {
                        assert(v@ =~= clipped(comp, start as int, end as int));
                    }
                    Ok(v)
                },
                Err(e) => Err(e),
            }
        } else {
            let head = self.slice_buffer(start as usize, blen);
            match self.fetch.fetch(blen as u64, end) {
                Ok(tail) => {
                    let mut out = head;
                    let mut tail = tail;
                    out.append(&mut tail);
                    proof {
                        assert(out@ =~= clipped(comp, start as int, end as int));
                    }
                    Ok(out)
                },
                Err(e) => Err(e),
            }
        }
    }
}

} // verus!
