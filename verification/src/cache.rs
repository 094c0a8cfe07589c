//! A read-ahead cache that collapses many tiny metadata reads into a small
//! number of exponentially growing fetches.

use vstd::prelude::*;

use crate::error::TiffError;
use crate::fetch::{clipped, MetadataFetch};

verus! {

/// The concatenation of a sequence of buffers.
pub open spec fn bufs_view(bs: Seq<Seq<u8>>) -> Seq<u8>
    decreases bs.len(),
{
    if bs.len() == 0 {
        Seq::empty()
    } else {
        bufs_view(bs.drop_last()) + bs.last()
    }
}

/// A list of contiguous buffers rooted at offset zero, with the running
/// total of their lengths. The buffers viewed together are one byte string;
/// slicing walks the list and stitches the overlapping pieces back together.
pub struct SequentialBlockCache {
    buffers: Vec<Vec<u8>>,
    len: u64,
}

impl View for SequentialBlockCache {
    type V = Seq<u8>;

    closed spec fn view(&self) -> Seq<u8> {
        bufs_view(self.buffers@.map_values(|b: Vec<u8>| b@))
    }
}

impl SequentialBlockCache {
    #[verifier::type_invariant]
    spec fn wf(&self) -> bool {
        self.len == self@.len()
    }

    /// Create a new, empty cache.
    pub fn new() -> (r: SequentialBlockCache)
        ensures
            r@ == Seq::<u8>::empty(),
    {
        let r = SequentialBlockCache { buffers: Vec::new(), len: 0 };
        proof {
            assert(r.buffers@.map_values(|b: Vec<u8>| b@) =~= Seq::<Seq<u8>>::empty());
        }
        r
    }

    /// The total number of bytes cached.
    pub fn total_len(&self) -> (r: u64)
        ensures
            r == self@.len(),
    {
        proof {
            use_type_invariant(&*self);
        }
        self.len
    }

    /// Whether the range `[start, end)` lies entirely within the cached bytes.
    pub fn contains(&self, start: u64, end: u64) -> (r: bool)
        ensures
            r == (end <= self@.len()),
    {
        proof {
            use_type_invariant(&*self);
        }
        end <= self.len
    }

    /// Append a buffer at the end of the cached bytes.
    pub fn append_buffer(&mut self, buffer: Vec<u8>)
        requires
            old(self)@.len() + buffer@.len() <= u64::MAX,
        ensures
            final (self)@ == old(self)@ + buffer@,
    {
        proof {
            use_type_invariant(&*self);
        }
        let ghost old_view = self@;
        let ghost old_bufs = self.buffers@;
        let mut tmp = SequentialBlockCache::new();
        core::mem::swap(&mut tmp, self);
        let SequentialBlockCache { mut buffers, len } = tmp;
        let new_len = len + buffer.len() as u64;
        let ghost bufv = buffer@;
        buffers.push(buffer);
        proof {
            let bs = buffers@.map_values(|b: Vec<u8>| b@);
            assert(bs.drop_last() =~= old_bufs.map_values(|b: Vec<u8>| b@));
            assert(bufs_view(bs) == old_view + bufv);
        }
        let mut result = SequentialBlockCache { buffers, len: new_len };
        core::mem::swap(self, &mut result);
    }

    /// Slice the bytes in `[start, end)` out of the cached buffers, clipped
    /// at the end of the cached region.
    pub fn slice(&self, start: u64, end: u64) -> (r: Vec<u8>)
        requires
            start <= end,
        ensures
            r@ == clipped(self@, start as int, end as int),
    {
        proof {
            use_type_invariant(&*self);
        }
        let mut out: Vec<u8> = Vec::new();
        let mut pos: u64 = 0;
        let mut i: usize = 0;
        while i < self.buffers.len()
            invariant
                self.wf(),
                start <= end,
                i <= self.buffers@.len(),
                pos == bufs_view(self.buffers@.map_values(|b: Vec<u8>| b@).take(i as int)).len(),
                pos <= self.len,
                out@ == clipped(
                    bufs_view(self.buffers@.map_values(|b: Vec<u8>| b@).take(i as int)),
                    start as int,
                    end as int,
                ),
            decreases self.buffers@.len() - i,
        {
            let ghost bs = self.buffers@.map_values(|b: Vec<u8>| b@);
            let ghost prefix = bufs_view(bs.take(i as int));
            let b = &self.buffers[i];
            let bl = b.len() as u64;
            proof {
                assert(bs.take(i + 1).drop_last() =~= bs.take(i as int));
                assert(bufs_view(bs.take(i + 1)) == prefix + b@);
                lemma_bufs_view_prefix_len(bs, i + 1);
            }
            let lo_g = if start > pos {
                start
            } else {
                pos
            };
            let hi_g = if end < pos + bl {
                end
            } else {
                pos + bl
            };
            if lo_g < hi_g {
                let lo_l = (lo_g - pos) as usize;
                let hi_l = (hi_g - pos) as usize;
                let piece = vstd::slice::slice_subrange(b.as_slice(), lo_l, hi_l);
                out.extend_from_slice(piece);
            }
            proof {
                assert(out@ =~= clipped(prefix + b@, start as int, end as int));
            }
            pos = pos + bl;
            i = i + 1;
        }
        proof {
            assert(self.buffers@.map_values(|b: Vec<u8>| b@).take(
                self.buffers@.len() as int,
            ) =~= self.buffers@.map_values(|b: Vec<u8>| b@));
        }
        out
    }
}

/// The size of the next underlying fetch for a cache that already holds
/// `len` bytes: the configured initial size while the cache is empty,
/// afterwards the current length scaled by the multiplier. The multiplier
/// is a growth factor in hundredths; scaling rounds to the nearest byte.
pub open spec fn next_step(len: int, initial: u64, multiplier_hundredths: u64) -> int {
    if len == 0 {
        initial as int
    } else {
        (len * multiplier_hundredths + 50) / 100
    }
}

/// The number of cached bytes after one underlying fetch is absorbed by a
/// cache of `len` bytes to serve a request ending at `end`, over a source of
/// `source_len` bytes: the fetch asks for the larger of the growth step and
/// the missing tail, and the source clips it.
pub open spec fn grown_len(len: int, step: int, end: int, source_len: int) -> int {
    let want = if len + step >= end {
        len + step
    } else {
        end
    };
    let capped = if want <= u64::MAX {
        want
    } else {
        u64::MAX as int
    };
    if capped <= source_len {
        capped
    } else {
        source_len
    }
}


/// An underlying fetch at least doubles the cached length, up to the end
/// of the source: with a growth factor of at least one, the step is no
/// smaller than the length already cached, so a run of forward reads
/// costs at most logarithmically many underlying fetches before the whole
/// source is cached.
pub proof fn lemma_readahead_growth(
    len: int,
    initial: u64,
    multiplier_hundredths: u64,
    end: int,
    source_len: int,
)
    requires
        1 <= len,
        2 * len <= u64::MAX,
        multiplier_hundredths >= 100,
    ensures
        grown_len(len, next_step(len, initial, multiplier_hundredths), end, source_len) >= if 2
            * len <= source_len {
            2 * len
        } else {
            source_len
        },
{
    let step = next_step(len, initial, multiplier_hundredths);
    assert(step >= len) by (nonlinear_arith)
        requires
            len >= 1 && multiplier_hundredths >= 100 && step == (len * multiplier_hundredths + 50)
                / 100,
    ;
}

/// A [`MetadataFetch`] that caches fetched data in exponentially growing
/// chunks, sequentially from the beginning of the source.
///
/// Ranges already cached are served without touching the underlying source;
/// a range past the cached region triggers exactly one underlying fetch,
/// sized at least by the growth schedule, so that a run of small forward
/// reads costs only logarithmically many underlying fetches.
pub struct ReadaheadMetadataCache<F: MetadataFetch> {
    inner: F,
    cache: SequentialBlockCache,
    initial: u64,
    multiplier_hundredths: u64,
}

impl<F: MetadataFetch> ReadaheadMetadataCache<F> {
    /// The bytes this cache serves: the cached prefix, continued by the
    /// wrapped source past the cached region. Nothing ever cached is
    /// fetched again, so this is the byte string every read observes; for
    /// a cache built over a fresh source it is the source itself.
    pub closed spec fn source(&self) -> Seq<u8> {
        if self.cache@.len() <= self.inner.contents().len() {
            self.cache@ + self.inner.contents().skip(self.cache@.len() as int)
        } else {
            self.cache@
        }
    }

    /// The wrapped source itself.
    pub closed spec fn inner_view(&self) -> F {
        self.inner
    }

    /// Whether the wrapped source always serves a ranged read.
    pub closed spec fn source_reliable(&self) -> bool {
        self.inner.reliable()
    }

    /// The number of source bytes held in the cache.
    pub closed spec fn cached_len(&self) -> int {
        self.cache@.len() as int
    }

    /// The size of the first underlying fetch.
    pub closed spec fn initial_size(&self) -> u64 {
        self.initial
    }

    /// The growth factor for later fetches, in hundredths.
    pub closed spec fn multiplier(&self) -> u64 {
        self.multiplier_hundredths
    }

    /// The configuration and cached region of the cache, as one tuple:
    /// initial size, multiplier in hundredths, and cached length.
    pub open spec fn state(&self) -> (u64, u64, int) {
        (self.initial_size(), self.multiplier(), self.cached_len())
    }

    /// Wrap a source, with the default growth schedule: a first fetch of
    /// 32 KiB, then doubling.
    pub fn new(inner: F) -> (r: Self)
        ensures
            r.inner_view() == inner,
            r.source() == inner.contents(),
            r.source_reliable() == inner.reliable(),

            r.cached_len() == 0,
            r.initial_size() == 32 * 1024,
            r.multiplier() == 200,
    {
        Self { inner, cache: SequentialBlockCache::new(), initial: 32 * 1024, multiplier_hundredths: 200 }
    }

    /// Access the wrapped source.
    pub fn inner(&self) -> (r: &F)
        ensures
            *r == self.inner_view(),
    {
        &self.inner
    }

    /// Set the size of the first underlying fetch, in bytes.
    pub fn with_initial_size(self, initial: u64) -> (r: Self)
        ensures
            r.inner_view() == self.inner_view(),
            r.source() == self.source(),
            r.source_reliable() == self.source_reliable(),
            r.cached_len() == self.cached_len(),
            r.initial_size() == initial,
            r.multiplier() == self.multiplier(),
    {
        let Self { inner, cache, initial: _, multiplier_hundredths } = self;
        Self { inner, cache, initial, multiplier_hundredths }
    }

    /// Set the growth factor for later fetches, in hundredths: 200 doubles
    /// the cached length on each underlying fetch, 300 triples it.
    pub fn with_multiplier(self, multiplier_hundredths: u64) -> (r: Self)
        ensures
            r.inner_view() == self.inner_view(),
            r.source() == self.source(),
            r.source_reliable() == self.source_reliable(),
            r.cached_len() == self.cached_len(),
            r.initial_size() == self.initial_size(),
            r.multiplier() == multiplier_hundredths,
    {
        let Self { inner, cache, initial, multiplier_hundredths: _ } = self;
        Self { inner, cache, initial, multiplier_hundredths }
    }

    /// The size of the next underlying fetch when `existing_len` bytes are
    /// cached, saturated at the largest machine word.
    fn next_fetch_size(&self, existing_len: u64) -> (r: u64)
        ensures
            r == if next_step(existing_len as int, self.initial_size(), self.multiplier())
                <= u64::MAX { next_step(existing_len as int, self.initial_size(), self.multiplier()) } else { u64::MAX as int },
    {
        if existing_len == 0 {
            self.initial
        } else {
            proof {
                assert(existing_len as int * self.multiplier_hundredths as int <= u64::MAX as int
                    * u64::MAX as int) by (nonlinear_arith)
                    requires
                        existing_len <= u64::MAX && self.multiplier_hundredths <= u64::MAX,
                ;
            }
            let scaled: u128 = (existing_len as u128 * self.multiplier_hundredths as u128 + 50)
                / 100;
            if scaled > u64::MAX as u128 {
                u64::MAX
            } else {
                scaled as u64
            }
        }
    }
}

impl<F: MetadataFetch> MetadataFetch for ReadaheadMetadataCache<F> {
    open spec fn contents(&self) -> Seq<u8> {
        self.source()
    }

    open spec fn reliable(&self) -> bool {
        self.source_reliable()
    }

    closed spec fn source_reads(&self) -> int {
        self.inner.source_reads()
    }

    fn fetch(&mut self, start: u64, end: u64) -> (r: Result<Vec<u8>, TiffError>)
        ensures
            final (self).state() == (
                old(self).initial_size(),
                old(self).multiplier(),
                final (self).cached_len(),
            ),
            end <= old(self).cached_len() ==> r is Ok && final (self).cached_len() == old(
                self,
            ).cached_len() && final (self).inner_view() == old(self).inner_view() && final (
            self).source_reads() == old(self).source_reads(),
            r is Err ==> final (self).cached_len() == old(self).cached_len(),
            (r is Ok && end > old(self).cached_len()) ==> final (self).cached_len() == grown_len(
                old(self).cached_len(),
                next_step(old(self).cached_len(), old(self).initial_size(), old(self).multiplier()),
                end as int,
                old(self).source().len() as int,
            ),
    {
        let ghost comp = self.source();
        let ghost inner0 = self.inner.contents();
        let ghost c0 = self.cache@;
        let mut cache = SequentialBlockCache::new();
        core::mem::swap(&mut cache, &mut self.cache);
        if !cache.contains(start, end) {
            let l = cache.total_len();
            let needed = end - l;
            let step = self.next_fetch_size(l);
            let size_uncapped = if step >= needed {
                step
            } else {
                needed
            };
            let size = if size_uncapped > u64::MAX - l {
                u64::MAX - l
            } else {
                size_uncapped
            };
            match self.inner.fetch(l, l + size) {
                Ok(buf) => {
                    proof {
                        assert(l + buf@.len() <= u64::MAX);
                    }
                    cache.append_buffer(buf);
                    proof {
                        if c0.len() <= inner0.len() {
                            assert(cache@ =~= comp.take(cache@.len() as int));
                        } else {
                            assert(buf@ =~= Seq::<u8>::empty());
                            assert(cache@ =~= comp);
                        }
                    }
                },
                Err(e) => {
                    core::mem::swap(&mut cache, &mut self.cache);
                    proof {
                        assert(final (self).source() =~= comp);
                    }
                    return Err(e);
                },
            }
        }
        let out = cache.slice(start, end);
        proof {
            assert(cache@ =~= comp.take(cache@.len() as int));
            assert(out@ =~= clipped(comp, start as int, end as int));
        }
        core::mem::swap(&mut cache, &mut self.cache);
        proof {
            assert(final (self).source() =~= comp);
        }
        Ok(out)
    }
}

/// The concatenation of a prefix of a buffer list is no longer than the
/// concatenation of the whole list.
proof fn lemma_bufs_view_prefix_len(bs: Seq<Seq<u8>>, i: int)
    requires
        0 <= i <= bs.len(),
    ensures
        bufs_view(bs.take(i)).len() <= bufs_view(bs).len(),
    decreases bs.len() - i,
{
    if i < bs.len() {
        assert(bs.take(i + 1).drop_last() =~= bs.take(i));
        lemma_bufs_view_prefix_len(bs, i + 1);
        assert(bs.take(bs.len() as int) =~= bs);
    } else {
        assert(bs.take(bs.len() as int) =~= bs);
    }
}

} // verus!
