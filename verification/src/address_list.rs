//! Lists of addresses kept without duplicates, in insertion order: the
//! registry's blacklist and its trusted verifier set.

use vstd::prelude::*;
use crate::types::Address;

verus! {

/// No address occurs twice.
pub open spec fn no_duplicates(s: Seq<Address>) -> bool {
    forall|i: int, j: int| 0 <= i < j < s.len() ==> s[i] != s[j]
}

/// `s` without any occurrence of `a`, order kept.
pub open spec fn without(s: Seq<Address>, a: Address) -> Seq<Address>
    decreases s.len(),
{
    if s.len() == 0 {
        s
    } else if s.last() == a {
        without(s.drop_last(), a)
    } else {
        without(s.drop_last(), a).push(s.last())
    }
}

/// Whether `a` is in the list.
pub fn contains_address(list: &Vec<Address>, a: Address) -> (b: bool)
    ensures
        b == list@.contains(a),
{
    let mut i: usize = 0;
    while i < list.len()
        invariant
            i <= list@.len(),
            forall|j: int| 0 <= j < i ==> list@[j] != a,
        decreases list@.len() - i,
    {
        if list[i] == a {
            proof {
                assert(list@[i as int] == a);
            }
            return true;
        }
        i = i + 1;
    }
    false
}

/// A copy of the list.
pub fn copy_addresses(list: &Vec<Address>) -> (c: Vec<Address>)
    ensures
        c@ == list@,
{
    let mut out: Vec<Address> = Vec::new();
    let mut i: usize = 0;
    while i < list.len()
        invariant
            i <= list@.len(),
            out@ == list@.take(i as int),
        decreases list@.len() - i,
    {
        out.push(list[i]);
        proof {
            assert(out@ =~= list@.take(i as int + 1));
        }
        i = i + 1;
    }
    proof {
        assert(out@ =~= list@);
    }
    out
}

/// The list without `a`.
pub fn remove_address(list: &Vec<Address>, a: Address) -> (r: Vec<Address>)
    ensures
        r@ == without(list@, a),
{
    let mut out: Vec<Address> = Vec::new();
    let mut i: usize = 0;
    while i < list.len()
        invariant
            i <= list@.len(),
            out@ == without(list@.take(i as int), a),
        decreases list@.len() - i,
    {
        proof {
            assert(list@.take(i as int + 1).drop_last() =~= list@.take(i as int));
        }
        if list[i] != a {
            out.push(list[i]);
        }
        i = i + 1;
    }
    proof {
        assert(list@.take(i as int) =~= list@);
    }
    out
}

/// A sequence contains `x` exactly when its prefix does or its last item is `x`.
proof fn lemma_contains_split(s: Seq<Address>, x: Address)
    requires
        s.len() > 0,
    ensures
        s.contains(x) <==> (s.drop_last().contains(x) || s.last() == x),
{
    if s.contains(x) {
        let i = choose|i: int| 0 <= i < s.len() && s[i] == x;
        if i < s.len() - 1 {
            assert(s.drop_last()[i] == x);
        }
    }
    if s.drop_last().contains(x) {
        let i = choose|i: int| 0 <= i < s.drop_last().len() && s.drop_last()[i] == x;
        assert(s[i] == x);
    }
    if s.last() == x {
        assert(s[s.len() - 1] == x);
    }
}

/// `without` drops exactly the occurrences of `a`.
pub proof fn lemma_without_contains(s: Seq<Address>, a: Address, x: Address)
    ensures
        without(s, a).contains(x) <==> (s.contains(x) && x != a),
    decreases s.len(),
{
    if s.len() > 0 {
        lemma_without_contains(s.drop_last(), a, x);
        lemma_contains_split(s, x);
        let w = without(s.drop_last(), a);
        if s.last() != a {
            lemma_contains_split(w.push(s.last()), x);
            assert(w.push(s.last()).drop_last() =~= w);
        }
    }
}

/// Removing an address keeps a duplicate-free list duplicate-free.
pub proof fn lemma_without_no_duplicates(s: Seq<Address>, a: Address)
    requires
        no_duplicates(s),
    ensures
        no_duplicates(without(s, a)),
    decreases s.len(),
{
    if s.len() > 0 {
        let p = s.drop_last();
        assert(no_duplicates(p));
        lemma_without_no_duplicates(p, a);
        if s.last() != a {
            lemma_without_contains(p, a, s.last());
            if p.contains(s.last()) {
                let i = choose|i: int| 0 <= i < p.len() && p[i] == s.last();
                assert(s[i] == s[s.len() - 1]);
            }
            let w = without(p, a);
            assert forall|i: int, j: int| 0 <= i < j < w.push(s.last()).len() implies w.push(s.last())[i] != w.push(s.last())[j] by {
                if j == w.len() {
                    assert(w.contains(w[i]));
                }
            }
        }
    }
}

/// Appending an absent address keeps the list duplicate-free.
pub proof fn lemma_push_no_duplicates(s: Seq<Address>, a: Address)
    requires
        no_duplicates(s),
        !s.contains(a),
    ensures
        no_duplicates(s.push(a)),
{
    assert forall|i: int, j: int| 0 <= i < j < s.push(a).len() implies s.push(a)[i] != s.push(a)[j] by {
        if j == s.len() {
            assert(s[i] == s.push(a)[i]);
        }
    }
}

} // verus!
