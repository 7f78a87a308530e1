//! Offset/limit pagination over a sequence of results.

use vstd::prelude::*;

verus! {

/// The window `[offset, offset + limit)` of `s`, clipped to its length.
pub open spec fn page<A>(s: Seq<A>, offset: int, limit: int) -> Seq<A> {
    let start = if offset <= s.len() { offset } else { s.len() as int };
    let end = if start + limit <= s.len() { start + limit } else { s.len() as int };
    s.subrange(start, end)
}

/// At most `limit` items of `v`, starting at position `offset`.
pub fn page_of<T: Copy>(v: &Vec<T>, offset: u32, limit: u32) -> (r: Vec<T>)
    ensures
        r@ == page(v@, offset as int, limit as int),
{
    let n = v.len();
    let mut out: Vec<T> = Vec::new();
    let mut i: usize = offset as usize;
    if i > n {
        i = n;
    }
    let start = i;
    while i < n && out.len() < limit as usize
        invariant
            n == v@.len(),
            start == if offset as int <= n { offset as int } else { n as int },
            start <= i <= n,
            out@ == v@.subrange(start as int, i as int),
            out@.len() <= limit,
        decreases n - i,
    {
        out.push(v[i]);
        proof {
            assert(out@ =~= v@.subrange(start as int, i as int + 1));
        }
        i = i + 1;
    }
    out
}

} // verus!
