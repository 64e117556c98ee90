//! Facts about prefixes of sequences that are mapped or flattened.

use vstd::prelude::*;
use vstd::seq_lib::lemma_flatten_concat;

verus! {

/// A mapped prefix is no longer than the mapped whole.
pub proof fn lemma_filter_map_prefix_len<A, B>(s: Seq<A>, f: spec_fn(A) -> Option<B>, k: int)
    requires
        0 <= k <= s.len(),
    ensures
        s.take(k).filter_map(f).len() <= s.filter_map(f).len(),
    decreases s.len() - k,
{
    if k == s.len() {
        assert(s.take(k) =~= s);
    } else {
        s.lemma_filter_map_take_succ(f, k);
        lemma_filter_map_prefix_len(s, f, k + 1);
    }
}

/// What the sequence at position `i` adds to the flattened prefix before it.
pub proof fn lemma_flatten_step<A>(ss: Seq<Seq<A>>, i: int)
    requires
        0 <= i < ss.len(),
    ensures
        ss.take(i + 1).flatten() == ss.take(i).flatten() + ss[i],
{
    assert(ss.take(i + 1) =~= ss.take(i).push(ss[i]));
    ss.take(i).lemma_flatten_push(ss[i]);
}

/// A flattened prefix is no longer than the flattened whole.
pub proof fn lemma_flatten_prefix_len<A>(ss: Seq<Seq<A>>, i: int)
    requires
        0 <= i <= ss.len(),
    ensures
        ss.take(i).flatten().len() <= ss.flatten().len(),
{
    assert(ss =~= ss.take(i) + ss.skip(i));
    lemma_flatten_concat(ss.take(i), ss.skip(i));
}

/// Each item of a flattened sequence is an item of one of the sequences.
pub proof fn lemma_flatten_member<A>(ss: Seq<Seq<A>>, k: int)
    requires
        0 <= k < ss.flatten().len(),
    ensures
        exists|i: int| 0 <= i < ss.len() && (#[trigger] ss[i]).contains(ss.flatten()[k]),
{
    assert(ss.take(ss.len() as int) =~= ss);
    lemma_flatten_prefix_member(ss, ss.len() as int, k);
}

proof fn lemma_flatten_prefix_member<A>(ss: Seq<Seq<A>>, n: int, k: int)
    requires
        0 <= n <= ss.len(),
        0 <= k < ss.take(n).flatten().len(),
    ensures
        exists|i: int| 0 <= i < n && (#[trigger] ss[i]).contains(ss.take(n).flatten()[k]),
    decreases n,
{
    if n > 0 {
        lemma_flatten_step(ss, n - 1);
        if k < ss.take(n - 1).flatten().len() {
            lemma_flatten_prefix_member(ss, n - 1, k);
        }
    }
}

} // verus!
