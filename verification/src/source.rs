//! A pull-based item source. The lookahead buffer works against this trait;
//! `VecSource` is the in-memory implementation the tokenizer and the tests
//! feed characters through.

use vstd::prelude::*;

verus! {

/// A pull-based producer of items. `remaining()` is the mathematical
/// sequence of items the source will still yield, in order. Exhaustion is
/// sticky: once `remaining()` is empty, `pull` keeps returning `None` and
/// never misbehaves however often it is called again.
pub trait Source<T>: Sized {
    /// The items not yet pulled, in the order they will come out.
    spec fn remaining(&self) -> Seq<T>;

    /// Yields the next item, or `None` once the source is exhausted.
    fn pull(&mut self) -> (r: Option<T>)
        ensures
            old(self).remaining().len() == 0 ==> r is None && final(self).remaining()
                == old(self).remaining(),
            old(self).remaining().len() > 0 ==> r == Some(old(self).remaining()[0])
                && final(self).remaining() == old(self).remaining().skip(1),
    ;
}

/// A source that hands out the elements of a vector, front to back.
pub struct VecSource<T> {
    items: Vec<T>,
    pos: usize,
}

impl<T> VecSource<T> {
    #[verifier::type_invariant]
    spec fn inv(self) -> bool {
        self.pos <= self.items.len()
    }
}

impl<T: Copy> VecSource<T> {
    /// Wraps a vector; every element will be yielded in order.
    pub fn new(items: Vec<T>) -> (r: Self)
        ensures
            r.remaining() == items@,
    {
        let r = VecSource { items, pos: 0 };
        proof {
            assert(r.remaining() =~= r.items@);
        }
        r
    }

    /// The next item this source would yield, without consuming it.
    pub fn peek(&self) -> (r: Option<T>)
        ensures
            self.remaining().len() == 0 ==> r is None,
            self.remaining().len() > 0 ==> r == Some(self.remaining()[0]),
    {
        proof {
            use_type_invariant(self);
        }
        if self.pos < self.items.len() {
            Some(self.items[self.pos])
        } else {
            None
        }
    }
}

impl<T: Copy> Source<T> for VecSource<T> {
    closed spec fn remaining(&self) -> Seq<T> {
        self.items@.skip(self.pos as int)
    }

    fn pull(&mut self) -> (r: Option<T>)
        ensures
            old(self).remaining().len() == 0 ==> r is None && final(self).remaining()
                == old(self).remaining(),
            old(self).remaining().len() > 0 ==> r == Some(old(self).remaining()[0])
                && final(self).remaining() == old(self).remaining().skip(1),
    {
        proof {
            use_type_invariant(&*self);
        }
        if self.pos < self.items.len() {
            let v = self.items[self.pos];
            self.pos = self.pos + 1;
            proof {
                assert(final(self).remaining() =~= old(self).remaining().skip(1));
            }
            Some(v)
        } else {
            None
        }
    }
}

} // verus!
