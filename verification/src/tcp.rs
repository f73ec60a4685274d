//! The receive buffer of a simulated tcp stream.
use vstd::prelude::*;

verus! {

/// Copy the start of the received bytes into `out`, as many as fit.
///
/// Returns the number of bytes copied and the bytes to keep for the next
/// read: with `consume`, the bytes not copied; without (a peek), all of
/// them. Nothing is kept when nothing is left.
pub fn copy_from_recv_buffer(received: Vec<u8>, out: &mut [u8], consume: bool) -> (r: (usize, Option<Vec<u8>>))
    ensures
        r.0 == if received@.len() < old(out)@.len() { received@.len() } else { old(out)@.len() },
        final(out)@.len() == old(out)@.len(),
        final(out)@.subrange(0, r.0 as int) == received@.subrange(0, r.0 as int),
        final(out)@.subrange(r.0 as int, old(out)@.len() as int) == old(out)@.subrange(r.0 as int, old(out)@.len() as int),
        ({
            let left = if consume { received@.subrange(r.0 as int, received@.len() as int) } else { received@ };
            match r.1 {
                Some(v) => left.len() > 0 && v@ == left,
                None => left.len() == 0,
            }
        }),
{
    let len = if received.len() < out.len() {
        received.len()
    } else {
        out.len()
    };
    let mut i: usize = 0;
    while i < len
        invariant
            i <= len,
            len <= received@.len(),
            len <= out@.len(),
            out@.len() == old(out)@.len(),
            forall|j: int| 0 <= j < i ==> #[trigger] out@[j] == received@[j],
            forall|j: int| i <= j < out@.len() ==> #[trigger] out@[j] == old(out)@[j],
        decreases len - i,
    {
        out[i] = received[i];
        i = i + 1;
    }
    proof {
        assert(out@.subrange(0, len as int) =~= received@.subrange(0, len as int));
        assert(out@.subrange(len as int, old(out)@.len() as int) =~= old(out)@.subrange(
            len as int,
            old(out)@.len() as int,
        ));
    }
    let left = if consume {
        let mut rest: Vec<u8> = Vec::new();
        let mut k: usize = len;
        while k < received.len()
            invariant
                len <= k <= received@.len(),
                rest@ == received@.subrange(len as int, k as int),
            decreases received@.len() - k,
        {
            rest.push(received[k]);
            k = k + 1;
            proof {
                assert(rest@ =~= received@.subrange(len as int, k as int));
            }
        }
        rest
    } else {
        received
    };
    if left.len() == 0 {
        (len, None)
    } else {
        (len, Some(left))
    }
}

} // verus!
