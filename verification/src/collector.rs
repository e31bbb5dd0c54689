//! A collector of hash-keyed entries that hands them out in key order, as they are written
//! to ordered tables.

use vstd::prelude::*;
use crate::hash::{B256, be_value, hash_lt};

verus! {

broadcast use vstd::seq_lib::to_multiset_insert, vstd::seq_lib::to_multiset_build;

/// An entry as plain values: its key's bytes and its data.
pub type EntryView = (Seq<u8>, Seq<u8>);

/// The entries of `v` as plain values.
pub open spec fn entries_view(v: Seq<(B256, Vec<u8>)>) -> Seq<EntryView> {
    v.map_values(|e: (B256, Vec<u8>)| (e.0@, e.1@))
}

/// Whether the keys of `s` never decrease, read as big-endian integers.
pub open spec fn sorted_by_key(s: Seq<EntryView>) -> bool {
    forall|a: int, b: int| 0 <= a <= b < s.len() ==> be_value((#[trigger] s[a]).0) <= be_value((#[trigger] s[b]).0)
}

/// Collects entries in the order they arrive.
pub struct Collector {
    entries: Vec<(B256, Vec<u8>)>,
}

impl Collector {
    /// The collected entries in arrival order.
    pub closed spec fn spec_entries(&self) -> Seq<EntryView> {
        entries_view(self.entries@)
    }

    /// An empty collector.
    pub fn new() -> (c: Self)
        ensures
            c.spec_entries().len() == 0,
    {
        let c = Collector { entries: Vec::new() };
        assert(c.spec_entries() =~= Seq::<EntryView>::empty());
        c
    }

    /// Collects one entry.
    pub fn insert(&mut self, key: B256, value: Vec<u8>)
        ensures
            final(self).spec_entries() == old(self).spec_entries().push((key@, value@)),
    {
        self.entries.push((key, value));
        assert(self.spec_entries() =~= old(self).spec_entries().push((key@, value@)));
    }

    /// The number of collected entries.
    pub fn len(&self) -> (n: usize)
        ensures
            n == self.spec_entries().len(),
    {
        self.entries.len()
    }

    /// Forgets every collected entry.
    pub fn clear(&mut self)
        ensures
            final(self).spec_entries().len() == 0,
    {
        self.entries.clear();
        assert(self.spec_entries() =~= Seq::<EntryView>::empty());
    }

    /// The collected entries ordered by key.
    pub fn sorted_entries(&self) -> (r: Vec<(B256, Vec<u8>)>)
        ensures
            sorted_by_key(entries_view(r@)),
            entries_view(r@).to_multiset() == self.spec_entries().to_multiset(),
    {
        let ghost input = self.spec_entries();
        let mut out: Vec<(B256, Vec<u8>)> = Vec::new();
        let mut i: usize = 0;
        proof {
            assert(entries_view(out@) =~= Seq::<EntryView>::empty());
            assert(input.take(0) =~= Seq::<EntryView>::empty());
        }
        while i < self.entries.len()
            invariant
                0 <= i <= self.entries@.len(),
                input == self.spec_entries(),
                input.len() == self.entries@.len(),
                sorted_by_key(entries_view(out@)),
                entries_view(out@).to_multiset() == input.take(i as int).to_multiset(),
            decreases self.entries@.len() - i,
        {
            let key = self.entries[i].0;
            let value = vstd::slice::slice_to_vec(self.entries[i].1.as_slice());
            let ghost before = entries_view(out@);
            let ghost x = (key@, value@);
            assert(input[i as int] == x);
            let mut pos: usize = 0;
            while pos < out.len() && !hash_lt(&key, &out[pos].0)
                invariant
                    0 <= pos <= out@.len(),
                    before == entries_view(out@),
                    x == (key@, value@),
                    forall|k: int| 0 <= k < pos ==> be_value((#[trigger] before[k]).0) <= be_value(key@),
                decreases out@.len() - pos,
            {
                assert(before[pos as int] == (out@[pos as int].0@, out@[pos as int].1@));
                pos += 1;
            }
            proof {
                if pos < out@.len() {
                    assert(before[pos as int] == (out@[pos as int].0@, out@[pos as int].1@));
                }
            }
            out.insert(pos, (key, value));
            proof {
                let after = entries_view(out@);
                assert(after =~= before.insert(pos as int, x));
                assert forall|a: int, b: int| 0 <= a <= b < after.len() implies be_value((#[trigger] after[a]).0) <= be_value((#[trigger] after[b]).0) by {
                    if a < pos && b > pos {
                        assert(after[a] == before[a]);
                        assert(after[b] == before[b - 1]);
                    } else if a < pos && b == pos {
                        assert(after[a] == before[a]);
                    } else if a < pos {
                        assert(after[a] == before[a]);
                        assert(after[b] == before[b]);
                    } else if a == pos && b > pos {
                        assert(after[b] == before[b - 1]);
                        assert(be_value(before[pos as int].0) <= be_value(before[b - 1].0));
                    } else if a > pos {
                        assert(after[a] == before[a - 1]);
                        assert(after[b] == before[b - 1]);
                    }
                }
                assert(input.take(i + 1) =~= input.take(i as int).push(x));
            }
            i += 1;
        }
        proof {
            assert(input.take(i as int) =~= input);
        }
        out
    }
}

} // verus!
