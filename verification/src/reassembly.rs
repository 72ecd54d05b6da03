//! The reassembly buffer.
//!
//! The transport delivers notification bytes in chunks that need not align
//! to the seventeen-byte frame boundary: several frames may arrive in one
//! chunk, and one frame may span two chunks.  The buffer accumulates
//! incoming bytes, hands out every complete frame in arrival order, and
//! holds the partial trailing frame for the next chunk; no byte is ever
//! dropped.

use crate::notification::{frame_model, Notification, NotificationConvertError, NotifV,
    NOTIFICATION_LEN};
use vstd::prelude::*;
use vstd::slice::{slice_subrange, slice_to_vec};

verus! {

/// A decode outcome reduced to its mathematical value.
pub open spec fn result_model(r: Result<Notification, NotificationConvertError>) -> Result<
    NotifV,
    NotificationConvertError,
> {
    match r {
        Ok(n) => Ok(n@),
        Err(e) => Err(e),
    }
}

/// The decoded meaning of every complete frame at the front of `all`.
pub open spec fn frames(all: Seq<u8>) -> Seq<Result<NotifV, NotificationConvertError>> {
    Seq::new(
        (all.len() / 17) as nat,
        |i: int| frame_model(all.subrange(17 * i, 17 * i + 17)),
    )
}

/// What stays buffered once every complete frame is taken off the front.
pub open spec fn remainder(all: Seq<u8>) -> Seq<u8> {
    all.skip(17 * (all.len() as int / 17))
}

/// Accumulates transport chunks and slices out complete frames.
pub struct ReassemblyBuffer {
    buf: Vec<u8>,
}

impl View for ReassemblyBuffer {
    type V = Seq<u8>;

    closed spec fn view(&self) -> Seq<u8> {
        self.buf@
    }
}

impl ReassemblyBuffer {
    /// An empty buffer, for a fresh subscription.
    pub fn new() -> (r: Self)
        ensures
            r@ == Seq::<u8>::empty(),
    {
        let r = ReassemblyBuffer { buf: Vec::new() };
        proof {
            assert(r@ =~= Seq::<u8>::empty());
        }
        r
    }

    /// Appends one transport chunk and decodes every complete frame, in
    /// order.  The bytes past the last complete frame stay buffered: the
    /// held bytes are always what remains of everything fed so far after
    /// each complete frame is taken off the front.
    pub fn feed(&mut self, incoming: &[u8]) -> (out: Vec<
        Result<Notification, NotificationConvertError>,
    >)
        requires
            old(self)@.len() + incoming@.len() <= usize::MAX,
        ensures
            ({
                let all = old(self)@ + incoming@;
                &&& final(self)@ == remainder(all)
                &&& final(self)@.len() < NOTIFICATION_LEN
                &&& out@.len() == frames(all).len()
                &&& forall|i: int|
                    0 <= i < out@.len() ==> result_model(#[trigger] out@[i]) == frames(all)[i]
            }),
    {
        self.buf.extend_from_slice(incoming);
        let ghost all = self.buf@;
        let total = self.buf.len();
        let n = total / NOTIFICATION_LEN;
        proof {
            assert(n * 17 + total % 17 == total && total % 17 < 17) by (nonlinear_arith)
                requires
                    n == total / 17,
                    total <= usize::MAX,
            ;
        }
        let mut out: Vec<Result<Notification, NotificationConvertError>> = Vec::new();
        let mut i: usize = 0;
        while i < n
            invariant
                i <= n,
                all == old(self)@ + incoming@,
                n * 17 <= total,
                total < n * 17 + 17,
                n == all.len() / 17,
                total == all.len() <= usize::MAX,
                self.buf@ == all,
                out@.len() == i,
                forall|j: int|
                    0 <= j < i ==> result_model(#[trigger] out@[j]) == frame_model(
                        all.subrange(j * 17, (j + 1) * 17),
                    ),
            decreases n - i,
        {
            proof {
                assert((i + 1) * 17 <= n * 17) by (nonlinear_arith)
                    requires
                        i < n,
                ;
                assert(i * 17 <= (i + 1) * 17) by (nonlinear_arith);
            }
            let start = i * NOTIFICATION_LEN;
            let frame = slice_subrange(self.buf.as_slice(), start, start + NOTIFICATION_LEN);
            let r = Notification::decode(frame);
            out.push(r);
            i = i + 1;
        }
        let tail = slice_to_vec(slice_subrange(self.buf.as_slice(), n * NOTIFICATION_LEN, total));
        self.buf = tail;
        proof {
            assert(final(self)@ =~= remainder(all));
            assert forall|j: int| 0 <= j < n implies result_model(out@[j]) == frames(all)[j] by {
                assert(all.subrange(j * 17, (j + 1) * 17) =~= all.subrange(17 * j, 17 * j + 17));
            }
        }
        assert(out@.len() == n);
        out
    }
}

/// Feeding bytes in two chunks decodes the same frames, in the same
/// order, as feeding their concatenation, and leaves the same bytes
/// buffered: the buffer carries a partial frame across a chunk boundary
/// without losing or duplicating anything.
pub proof fn lemma_feed_split(b: Seq<u8>, x: Seq<u8>, y: Seq<u8>)
    ensures
        frames(b + (x + y)) == frames(b + x) + frames(remainder(b + x) + y),
        remainder(b + (x + y)) == remainder(remainder(b + x) + y),
{
    let a1 = b + x;
    let n1 = a1.len() as int / 17;
    let r1 = remainder(a1);
    let a2 = r1 + y;
    let n2 = a2.len() as int / 17;
    let all = b + (x + y);
    assert(all =~= a1 + y);
    assert(a1.len() == 17 * n1 + r1.len()) by {
        vstd::arithmetic::div_mod::lemma_fundamental_div_mod(a1.len() as int, 17);
    }
    assert(a2 =~= all.skip(17 * n1));
    let nall = all.len() as int / 17;
    assert(nall == n1 + n2) by {
        assert(all.len() == 17 * n1 + a2.len());
        vstd::arithmetic::div_mod::lemma_fundamental_div_mod(a2.len() as int, 17);
        let r2 = a2.len() as int % 17;
        assert(all.len() == 17 * (n1 + n2) + r2) by (nonlinear_arith)
            requires
                all.len() == 17 * n1 + a2.len(),
                a2.len() == 17 * n2 + r2,
        ;
        vstd::arithmetic::div_mod::lemma_div_multiples_vanish_fancy(n1 + n2, r2, 17);
    }
    assert(frames(all) =~= frames(a1) + frames(a2)) by {
        assert forall|i: int| 0 <= i < nall implies frames(all)[i] == (frames(a1) + frames(
            a2,
        ))[i] by {
            if i < n1 {
                assert(all.subrange(17 * i, 17 * i + 17) =~= a1.subrange(17 * i, 17 * i + 17));
            } else {
                let j = i - n1;
                assert(all.subrange(17 * i, 17 * i + 17) =~= a2.subrange(17 * j, 17 * j + 17));
                assert((frames(a1) + frames(a2))[i] == frames(a2)[j]);
            }
        }
    }
    assert(remainder(all) =~= remainder(a2));
}

} // verus!
