//! A lookahead buffer over a pull-based source. It lets a consumer peek
//! arbitrarily far ahead without consuming, while keeping consumption
//! amortized O(1): consumed slots are left behind as holes and dropped in one
//! compaction pass once the cursor has moved past half of the loaded window.

use vstd::prelude::*;
use vstd::math::max;
use vstd::math::min;
use crate::source::Source;

verus! {

/// An ordered window of pulled-but-not-yet-consumed items over a source.
///
/// `pending()` is the observable state: the sequence of items still ahead of
/// the cursor, cached ones first, then whatever the source will still yield.
/// `peek` reads within that sequence without consuming; `next` consumes its
/// head; `clean` only reclaims memory and never changes `pending()`.
pub struct LookAhead<T, S: Source<T>> {
    src: S,
    buffer: Vec<Option<T>>,
    loaded: usize,
    cursor: usize,
}

impl<T, S: Source<T>> LookAhead<T, S> {
    /// Well-formedness: the window holds exactly `cursor` dead slots followed
    /// by `loaded` cached items, each actually present.
    pub closed spec fn wf(self) -> bool {
        &&& self.buffer.len() == self.cursor + self.loaded
        &&& forall|i: int|
            self.cursor <= i < self.buffer.len() ==> (#[trigger] self.buffer[i]) is Some
    }

    /// The items cached in the window at or after the cursor.
    closed spec fn cached(self) -> Seq<T> {
        Seq::new(self.loaded as nat, |i: int| self.buffer[self.cursor + i]->Some_0)
    }

    /// How many items are cached ahead of the cursor.
    pub closed spec fn cached_len(self) -> int {
        self.loaded as int
    }

    /// The items still ahead of the cursor: cached ones, then the ones the
    /// source will still yield. This is everything `next` will ever return.
    pub closed spec fn pending(self) -> Seq<T> {
        self.cached() + self.src.remaining()
    }

    /// The cached items are exactly the first `cached_len()` pending items,
    /// and the source still holds exactly the rest.
    proof fn lemma_window_split(self)
        ensures
            self.cached() =~= self.pending().take(self.cached_len()),
            self.src.remaining() =~= self.pending().skip(self.cached_len()),
    {
    }
}

impl<T: Copy, S: Source<T>> LookAhead<T, S> {
    /// Wraps a source; nothing is pulled until the first `peek` or `next`.
    pub fn new(src: S) -> (r: Self)
        ensures
            r.wf(),
            r.pending() == src.remaining(),
            r.cached_len() == 0,
    {
        Self::with_vec(src, Vec::new())
    }

    /// Like `new`, with room for `size` cached items allocated up front.
    pub fn with_capacity(src: S, size: usize) -> (r: Self)
        ensures
            r.wf(),
            r.pending() == src.remaining(),
            r.cached_len() == 0,
    {
        Self::with_vec(src, Vec::with_capacity(size))
    }

    pub(crate) fn with_vec(src: S, buffer: Vec<Option<T>>) -> (r: Self)
        requires
            buffer@.len() == 0,
        ensures
            r.wf(),
            r.pending() == src.remaining(),
            r.cached_len() == 0,
    {
        let r = Self { src, buffer, loaded: 0, cursor: 0 };
        proof {
            assert(r.cached() =~= Seq::<T>::empty());
            assert(r.pending() =~= r.src.remaining());
        }
        r
    }

    /// Compaction: drops the physically stored prefix of already-consumed
    /// slots and resets the cursor to the window origin. Semantically
    /// invisible: the pending items, and with them everything `peek` and
    /// `next` report, are exactly as before; only retained memory changes.
    pub fn clean(&mut self)
        requires
            old(self).wf(),
        ensures
            final(self).wf(),
            final(self).pending() == old(self).pending(),
            final(self).cached_len() == old(self).cached_len(),
    {
        let tail = self.buffer.split_off(self.cursor);
        self.buffer = tail;
        self.cursor = 0;
        proof {
            assert(final(self).cached() =~= old(self).cached());
            assert(final(self).pending() =~= old(self).pending());
        }
    }

    /// Ensures that at least `offset` items beyond the cursor are cached,
    /// pulling from the source on demand; if the source is exhausted before
    /// that, everything it still had is cached. Pending items are unchanged:
    /// loading moves items into the window, it never loses or reorders any.
    pub fn load(&mut self, offset: usize)
        requires
            old(self).wf(),
        ensures
            final(self).wf(),
            final(self).pending() == old(self).pending(),
            final(self).cached_len() == max(
                old(self).cached_len(),
                min(offset as int, old(self).pending().len() as int),
            ),
    {
        let ghost orig = *self;
        if offset <= self.loaded {
            return;
        }
        let mut index = self.loaded;
        proof {
            assert(Seq::new(index as nat, |i: int| self.buffer[self.cursor + i]->Some_0)
                =~= orig.cached());
            assert(orig.cached() + orig.src.remaining() =~= orig.pending());
        }
        while index < offset
            invariant
                orig == *old(self),
                orig.wf(),
                orig.loaded <= index,
                index <= offset,
                self.cursor == orig.cursor,
                self.loaded == orig.loaded,
                self.buffer.len() == self.cursor + index,
                forall|i: int|
                    self.cursor <= i < self.buffer.len() ==> (#[trigger] self.buffer[i]) is Some,
                Seq::new(index as nat, |i: int| self.buffer[self.cursor + i]->Some_0)
                    + self.src.remaining() =~= orig.pending(),
            decreases offset - index,
        {
            let pulled = self.src.pull();
            match pulled {
                Some(data) => {
                    self.buffer.push(Some(data));
                    index = index + 1;
                    proof {
                        assert(Seq::new(index as nat, |i: int| self.buffer[self.cursor + i]->Some_0)
                            + self.src.remaining() =~= orig.pending());
                    }
                },
                None => {
                    self.loaded = index;
                    proof {
                        assert(self.cached() =~= Seq::new(
                            index as nat,
                            |i: int| self.buffer[self.cursor + i]->Some_0,
                        ));
                        assert(self.pending() =~= orig.pending());
                        assert(self.pending() == orig.pending());
                    }
                    return;
                },
            }
        }
        if offset > self.loaded {
            self.loaded = offset;
        }
        proof {
            assert(self.cached() =~= Seq::new(
                index as nat,
                |i: int| self.buffer[self.cursor + i]->Some_0,
            ));
            assert(self.pending() =~= orig.pending());
        }
    }

    /// Looks `offset` positions ahead of the cursor, 1-indexed: `peek(1)` is
    /// the item the next `next` call would yield. Returns `None` when fewer
    /// than `offset` items remain — and always for `offset == 0`, the
    /// reserved "no lookahead" sentinel. Never consumes or reorders items:
    /// the pending sequence is exactly as before, so repeating the call
    /// yields the same answer.
    pub fn peek(&mut self, offset: usize) -> (r: Option<T>)
        requires
            old(self).wf(),
        ensures
            final(self).wf(),
            final(self).pending() == old(self).pending(),
            r == if 1 <= offset && offset <= old(self).pending().len() {
                Some(old(self).pending()[offset - 1])
            } else {
                None::<T>
            },
    {
        self.load(offset);
        if offset > 0 && self.loaded >= offset {
            let position = self.cursor + offset - 1;
            let slot = vec_index_copy(&self.buffer, position);
            proof {
                assert(slot == Some(self.cached()[offset - 1]));
                assert(self.cached()[offset - 1] == self.pending()[offset - 1]);
            }
            slot
        } else {
            None
        }
    }

    /// Consumes and returns the next pending item, or `None` once the
    /// source is exhausted and nothing is cached; exhaustion is stable, so
    /// every later call returns `None` as well. Compacts the window first
    /// whenever the cursor has advanced past half of the loaded items.
    pub fn next(&mut self) -> (r: Option<T>)
        requires
            old(self).wf(),
        ensures
            final(self).wf(),
            old(self).pending().len() == 0 ==> r is None && final(self).pending()
                == old(self).pending(),
            old(self).pending().len() > 0 ==> r == Some(old(self).pending()[0])
                && final(self).pending() == old(self).pending().skip(1),
    {
        let loaded = self.loaded;
        if self.cursor >= loaded / 2 {
            self.clean();
        }
        proof {
            self.lemma_window_split();
            old(self).lemma_window_split();
            assert(self.cached() =~= old(self).cached());
            assert(self.src.remaining() =~= old(self).src.remaining());
        }
        if loaded > 0 {
            let cursor = self.cursor;
            let slot = vec_index_copy(&self.buffer, cursor);
            self.buffer.set(cursor, None);
            self.cursor = cursor + 1;
            self.loaded = loaded - 1;
            proof {
                assert(slot == Some(old(self).cached()[0]));
                assert(final(self).cached() =~= old(self).cached().skip(1));
                assert(final(self).pending() =~= old(self).pending().skip(1));
                assert(old(self).pending()[0] == old(self).cached()[0]);
            }
            slot
        } else {
            proof {
                assert(old(self).pending() =~= self.src.remaining());
            }
            let r = self.src.pull();
            proof {
                assert(final(self).pending() =~= final(self).src.remaining());
                if old(self).pending().len() > 0 {
                    assert(final(self).pending() =~= old(self).pending().skip(1));
                }
            }
            r
        }
    }

    /// The wrapped source, for inspection: its remaining items are exactly
    /// the pending items that are not yet cached in the window.
    pub fn source(&self) -> (r: &S)
        ensures
            r.remaining() == self.pending().skip(self.cached_len()),
    {
        proof {
            self.lemma_window_split();
        }
        &self.src
    }
}

/// Reads `v[i]` by value.
fn vec_index_copy<T: Copy>(v: &Vec<T>, i: usize) -> (r: T)
    requires
        i < v@.len(),
    ensures
        r == v@[i as int],
{
    v[i]
}

} // verus!
