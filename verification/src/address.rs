//! Account addresses and maps keyed by them.

use vstd::prelude::*;
use vstd::slice::slice_to_vec;

verus! {

/// A 20-byte account address.
#[derive(Clone, Copy, Debug, PartialEq, Eq)]
pub struct Address {
    pub bytes: [u8; 20],
}

impl View for Address {
    type V = Seq<u8>;

    open spec fn view(&self) -> Seq<u8> {
        self.bytes@
    }
}

/// Whether `a` comes before `b` in byte-wise lexicographic order, for two
/// sequences of the same length.
pub open spec fn lex_less(a: Seq<u8>, b: Seq<u8>) -> bool {
    exists|k: int|
        0 <= k < a.len() && k < b.len() && #[trigger] a[k] < b[k] && a.take(k) == b.take(k)
}

impl Address {
    /// The address made of the given bytes.
    pub fn new(bytes: [u8; 20]) -> (address: Address)
        ensures
            address.bytes == bytes,
    {
        Address { bytes }
    }

    /// The bytes of the address, in order.
    pub fn to_vec(&self) -> (bytes: Vec<u8>)
        ensures
            bytes@ == self@,
            bytes@.len() == 20,
    {
        slice_to_vec(self.bytes.as_slice())
    }

    /// Whether this address comes strictly before `other`.
    pub fn precedes(&self, other: &Address) -> (less: bool)
        ensures
            less == lex_less(self@, other@),
    {
        let mut i: usize = 0;
        while i < 20
            invariant
                i <= 20,
                self@.len() == 20,
                other@.len() == 20,
                self@.take(i as int) == other@.take(i as int),
            decreases 20 - i,
        {
            if self.bytes[i] != other.bytes[i] {
                let less = self.bytes[i] < other.bytes[i];
                proof {
                    if !less {
                        lemma_first_difference_decides(other@, self@, i as int);
                    }
                }
                return less;
            }
            i += 1;
        }
        proof {
            assert(other@.take(20) =~= other@);
        }
        false
    }
}

/// Where `a` and `b` agree up to `k` and `a` is smaller at `k`, `b` does not
/// come before `a`.
pub proof fn lemma_first_difference_decides(a: Seq<u8>, b: Seq<u8>, k: int)
    requires
        0 <= k < a.len(),
        k < b.len(),
        a.take(k) == b.take(k),
        a[k] < b[k],
    ensures
        lex_less(a, b),
        !lex_less(b, a),
{
    assert forall|j: int|
        0 <= j < a.len() && j < b.len() && a.take(j) == b.take(j) && #[trigger] b[j] < a[j]
        implies false by {
        if j < k {
            assert(b.take(k)[j] == b[j]);
        } else if k < j {
            assert(b.take(j)[k] == b[k]);
        }
    }
}

/// Of two sequences of the same length, one comes before the other or they
/// are the same.
pub proof fn lemma_lex_less_total(a: Seq<u8>, b: Seq<u8>)
    requires
        a.len() == b.len(),
    ensures
        lex_less(a, b) || lex_less(b, a) || a == b,
{
    lemma_prefix_total(a, b, a.len() as int);
    assert(b.take(a.len() as int) =~= b);
}

proof fn lemma_prefix_total(a: Seq<u8>, b: Seq<u8>, n: int)
    requires
        a.len() == b.len(),
        0 <= n <= a.len(),
    ensures
        lex_less(a, b) || lex_less(b, a) || a.take(n) == b.take(n),
    decreases n,
{
    if n > 0 {
        lemma_prefix_total(a, b, n - 1);
    }
}

/// The order is transitive.
pub proof fn lemma_lex_less_transitive(a: Seq<u8>, b: Seq<u8>, c: Seq<u8>)
    requires
        lex_less(a, b),
        lex_less(b, c),
    ensures
        lex_less(a, c),
{
    let i = choose|k: int|
        0 <= k < a.len() && k < b.len() && #[trigger] a[k] < b[k] && a.take(k) == b.take(k);
    let j = choose|k: int|
        0 <= k < b.len() && k < c.len() && #[trigger] b[k] < c[k] && b.take(k) == c.take(k);
    let k = if i <= j { i } else { j };
    assert(a.take(k) =~= c.take(k)) by {
        assert forall|p: int| 0 <= p < k implies a[p] == c[p] by {
            assert(c.take(j)[p] == c[p]);
        }
    }
    if i < j {
        assert(c.take(j)[i] == c[i]);
    } else if j < i {
        assert(b.take(i)[j] == b[j]);
    }
}

/// Whether the addresses of the entries are strictly ascending, which
/// implies that no address occurs twice.
pub open spec fn ascending<V>(entries: Seq<(Address, V)>) -> bool {
    forall|i: int, j: int|
        0 <= i < j < entries.len() ==> lex_less(
            (#[trigger] entries[i]).0@,
            (#[trigger] entries[j]).0@,
        )
}

/// The number of leading entries whose address comes before `address`: the
/// place of `address` among entries in ascending order.
pub open spec fn insertion_point<V>(entries: Seq<(Address, V)>, address: Address) -> int
    decreases entries.len(),
{
    if entries.len() == 0 || !lex_less(entries[0].0@, address@) {
        0
    } else {
        1 + insertion_point(entries.drop_first(), address)
    }
}

/// Where the entries before position `i` come before `address` and the one
/// at `i`, if any, does not, `i` is the insertion point of `address`.
pub proof fn lemma_insertion_point<V>(entries: Seq<(Address, V)>, address: Address, i: int)
    requires
        0 <= i <= entries.len(),
        forall|j: int| 0 <= j < i ==> lex_less((#[trigger] entries[j]).0@, address@),
        i < entries.len() ==> !lex_less(entries[i].0@, address@),
    ensures
        insertion_point(entries, address) == i,
    decreases i,
{
    if i > 0 {
        lemma_insertion_point(entries.drop_first(), address, i - 1);
    }
}

/// A map from addresses to values that is walked in ascending order of
/// address.
pub struct AddressMap<V> {
    entries: Vec<(Address, V)>,
}

impl<V> AddressMap<V> {
    /// The entries of the map, in the order in which they are walked.
    pub closed spec fn entries(&self) -> Seq<(Address, V)> {
        self.entries@
    }

    /// The invariant of the map: its addresses are strictly ascending.
    pub open spec fn wf(&self) -> bool {
        ascending(self.entries())
    }

    /// The empty map.
    pub fn new() -> (map: AddressMap<V>)
        ensures
            map.entries() == Seq::<(Address, V)>::empty(),
            map.wf(),
    {
        AddressMap { entries: Vec::new() }
    }

    /// The number of entries.
    pub fn len(&self) -> (n: usize)
        ensures
            n == self.entries().len(),
    {
        self.entries.len()
    }

    /// The entry at position `i` of the walk.
    pub fn get(&self, i: usize) -> (entry: &(Address, V))
        requires
            i < self.entries().len(),
        ensures
            *entry == self.entries()[i as int],
    {
        &self.entries[i]
    }

    /// Binds `address` to `value`. Where the address found at the insertion
    /// point is `address` itself, that entry is replaced and the value it had
    /// is returned; otherwise the new entry is put in at the insertion point.
    pub fn insert(&mut self, address: Address, value: V) -> (previous: Option<V>)
        ensures
            ({
                let before = old(self).entries();
                let k = insertion_point(before, address);
                if k < before.len() && before[k].0@ == address@ {
                    &&& final(self).entries() == before.update(k, (address, value))
                    &&& previous == Some(before[k].1)
                } else {
                    &&& final(self).entries() == before.insert(k, (address, value))
                    &&& previous is None
                }
            }),
            old(self).wf() ==> final(self).wf(),
    {
        let n = self.entries.len();
        let mut i: usize = 0;
        while i < n && self.entries[i].0.precedes(&address)
            invariant
                i <= n,
                n == self.entries@.len(),
                self.entries@ == old(self).entries@,
                forall|j: int| 0 <= j < i ==> lex_less((#[trigger] self.entries@[j]).0@, address@),
            decreases n - i,
        {
            i += 1;
        }
        let ghost before = self.entries@;
        proof {
            lemma_insertion_point(before, address, i as int);
        }
        if i < n && !address.precedes(&self.entries[i].0) {
            proof {
                lemma_lex_less_total(before[i as int].0@, address@);
            }
            self.entries.push((address, value));
            let replaced = self.entries.swap_remove(i);
            Some(replaced.1)
        } else {
            self.entries.insert(i, (address, value));
            proof {
                let after = self.entries@;
                if ascending(before) {
                    assert forall|p: int, q: int| 0 <= p < q < after.len() implies lex_less(
                        (#[trigger] after[p]).0@,
                        (#[trigger] after[q]).0@,
                    ) by {
                        if p == i && q - 1 > i {
                            lemma_lex_less_transitive(
                                address@,
                                before[i as int].0@,
                                before[q - 1].0@,
                            );
                        }
                    }
                }
            }
            None
        }
    }
}

} // verus!
