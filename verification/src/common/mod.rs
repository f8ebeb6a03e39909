use crate::common::codec::splice;
use vstd::prelude::*;

pub mod codec;
pub mod config;
pub mod error;

verus! {

/// Copies the first `n` bytes of `src` over the first `n` bytes of `dest`.
pub fn memcpy(dest: &mut [u8], src: &[u8], n: usize)
    requires
        n <= old(dest)@.len(),
        n <= src@.len(),
    ensures
        final(dest)@ == splice(old(dest)@, 0, src@.subrange(0, n as int)),
{
    let mut i: usize = 0;
    while i < n
        invariant
            i <= n,
            n <= src@.len(),
            dest@.len() == old(dest)@.len(),
            n <= dest@.len(),
            forall|k: int| 0 <= k < i ==> dest@[k] == src@[k],
            forall|k: int| i <= k < dest@.len() ==> dest@[k] == old(dest)@[k],
        decreases n - i,
    {
        dest[i] = src[i];
        i += 1;
    }
    assert(dest@ =~= splice(old(dest)@, 0, src@.subrange(0, n as int)));
}

/// Memmove
///
/// Copies `n` bytes inside `buf` from position `src` to position `dest`.
/// The two ranges may overlap: the destination receives the bytes that the
/// source range held before the call.
pub fn memmove(buf: &mut [u8], dest: usize, src: usize, n: usize)
    requires
        dest + n <= old(buf)@.len(),
        src + n <= old(buf)@.len(),
    ensures
        final(buf)@ == splice(old(buf)@, dest as int, old(buf)@.subrange(src as int, src + n)),
{
    let len: usize = buf.len();
    if src < dest {
        let mut i: usize = n;
        while i != 0
            invariant
                i <= n,
                src < dest,
                buf@.len() == old(buf)@.len(),
                len == buf@.len(),
                dest + n <= len,
                src + n <= len,
                forall|p: int|
                    dest + i <= p < dest + n ==> #[trigger] buf@[p] == old(buf)@[p - dest + src],
                forall|k: int|
                    0 <= k < buf@.len() && !(dest + i <= k < dest + n) ==> #[trigger] buf@[k]
                        == old(buf)@[k],
            decreases i,
        {
            i -= 1;
            let byte: u8 = buf[src + i];
            buf[dest + i] = byte;
        }
    } else {
        let mut i: usize = 0;
        while i < n
            invariant
                i <= n,
                dest <= src,
                buf@.len() == old(buf)@.len(),
                len == buf@.len(),
                src + n <= len,
                dest + n <= len,
                forall|p: int|
                    dest <= p < dest + i ==> #[trigger] buf@[p] == old(buf)@[p - dest + src],
                forall|k: int|
                    0 <= k < buf@.len() && !(dest <= k < dest + i) ==> #[trigger] buf@[k]
                        == old(buf)@[k],
            decreases n - i,
        {
            let byte: u8 = buf[src + i];
            buf[dest + i] = byte;
            i += 1;
        }
    }
    assert(buf@ =~= splice(old(buf)@, dest as int, old(buf)@.subrange(src as int, src + n)));
}

} // verus!
