//! A log of operation results keyed by a result id; recording under a known id replaces the
//! earlier result.

use vstd::prelude::*;

verus! {

/// The map of keys to values that the entries `s` hold, a later entry for a key winning.
pub open spec fn log_map<K, V>(s: Seq<(K, V)>) -> Map<K, V>
    decreases s.len(),
{
    if s.len() == 0 {
        Map::empty()
    } else {
        log_map(s.drop_last()).insert(s.last().0, s.last().1)
    }
}

/// Whether no two entries of `s` share a key.
pub open spec fn keys_distinct<K, V>(s: Seq<(K, V)>) -> bool {
    forall|i: int, j: int| 0 <= i < s.len() && 0 <= j < s.len() && i != j ==> (#[trigger] s[i]).0 != (#[trigger] s[j]).0
}

/// The entries of `s` as ids and results, ids taken by their characters.
pub open spec fn entry_views<V>(s: Seq<(String, V)>) -> Seq<(Seq<char>, V)> {
    s.map_values(|e: (String, V)| (e.0@, e.1))
}

/// The key of every entry is in the map, with the entry's value when keys are distinct.
pub proof fn lemma_log_map_contains<K, V>(s: Seq<(K, V)>, i: int)
    requires
        keys_distinct(s),
        0 <= i < s.len(),
    ensures
        log_map(s).contains_key(s[i].0),
        log_map(s)[s[i].0] == s[i].1,
    decreases s.len(),
{
    if i < s.len() - 1 {
        lemma_log_map_contains(s.drop_last(), i);
        assert(s.drop_last()[i] == s[i]);
        assert(s[i].0 != s.last().0);
    }
}

/// A key held by no entry is not in the map.
pub proof fn lemma_log_map_absent<K, V>(s: Seq<(K, V)>, k: K)
    requires
        forall|i: int| 0 <= i < s.len() ==> (#[trigger] s[i]).0 != k,
    ensures
        !log_map(s).contains_key(k),
    decreases s.len(),
{
    if s.len() > 0 {
        assert forall|i: int| 0 <= i < s.drop_last().len() implies (#[trigger] s.drop_last()[i]).0 != k by {
            assert(s.drop_last()[i] == s[i]);
        }
        lemma_log_map_absent(s.drop_last(), k);
        assert(s.last() == s[s.len() - 1]);
    }
}

/// Distinct keys that all have entries in `s` are at most as many as its entries.
pub proof fn lemma_present_keys_bounded<K, V>(s: Seq<(K, V)>, c: Seq<K>)
    requires
        c.no_duplicates(),
        forall|j: int| 0 <= j < c.len() ==> log_map(s).contains_key(#[trigger] c[j]),
    ensures
        c.len() <= s.len(),
{
    broadcast use vstd::seq_lib::seq_to_set_is_finite;
    let keys = s.map_values(|e: (K, V)| e.0);
    assert forall|x: K| c.to_set().contains(x) implies keys.to_set().contains(x) by {
        let j = choose|j: int| 0 <= j < c.len() && c[j] == x;
        assert(log_map(s).contains_key(c[j]));
        if forall|i: int| 0 <= i < s.len() ==> (#[trigger] s[i]).0 != x {
            lemma_log_map_absent(s, x);
        }
        let i = choose|i: int| 0 <= i < s.len() && (#[trigger] s[i]).0 == x;
        assert(keys[i] == x);
    }
    c.unique_seq_to_set();
    vstd::set_lib::lemma_len_subset(c.to_set(), keys.to_set());
    keys.lemma_cardinality_of_set();
}

/// Replacing the value of the entry at `i` replaces it in the map.
pub proof fn lemma_log_map_update<K, V>(s: Seq<(K, V)>, i: int, v: V)
    requires
        keys_distinct(s),
        0 <= i < s.len(),
    ensures
        log_map(s.update(i, (s[i].0, v))) == log_map(s).insert(s[i].0, v),
    decreases s.len(),
{
    let t = s.update(i, (s[i].0, v));
    if i == s.len() - 1 {
        assert(t.drop_last() =~= s.drop_last());
        lemma_log_map_absent(s.drop_last(), s[i].0);
        assert(log_map(t) =~= log_map(s).insert(s[i].0, v));
    } else {
        assert forall|a: int, b: int| 0 <= a < s.drop_last().len() && 0 <= b < s.drop_last().len() && a != b implies
            (#[trigger] s.drop_last()[a]).0 != (#[trigger] s.drop_last()[b]).0 by {
            assert(s.drop_last()[a] == s[a]);
            assert(s.drop_last()[b] == s[b]);
        }
        lemma_log_map_update(s.drop_last(), i, v);
        assert(t.drop_last() =~= s.drop_last().update(i, (s[i].0, v)));
        assert(s.drop_last()[i] == s[i]);
        assert(t.last() == s.last());
        assert(s[i].0 != s.last().0);
        assert(log_map(t) =~= log_map(s).insert(s[i].0, v));
    }
}

/// Whether entries `after` are `before` with `value` recorded under `key`: in the place of an
/// entry with that key, else at the end.
pub open spec fn entries_inserted<V>(before: Seq<(Seq<char>, V)>, after: Seq<(Seq<char>, V)>, key: Seq<char>, value: V) -> bool {
    ||| exists|i: int| 0 <= i < before.len() && (#[trigger] before[i]).0 == key && after == before.update(i, (key, value))
    ||| (forall|i: int| 0 <= i < before.len() ==> (#[trigger] before[i]).0 != key) && after == before.push((key, value))
}

/// Removing the entry at `i` removes its key from the map, when keys are distinct.
pub proof fn lemma_log_map_remove<K, V>(s: Seq<(K, V)>, i: int)
    requires
        keys_distinct(s),
        0 <= i < s.len(),
    ensures
        log_map(s.remove(i)) == log_map(s).remove(s[i].0),
    decreases s.len(),
{
    let t = s.remove(i);
    if i == s.len() - 1 {
        assert(t =~= s.drop_last());
        lemma_log_map_absent(s.drop_last(), s[i].0);
        assert(log_map(t) =~= log_map(s).remove(s[i].0));
    } else {
        assert forall|a: int, b: int| 0 <= a < s.drop_last().len() && 0 <= b < s.drop_last().len() && a != b implies
            (#[trigger] s.drop_last()[a]).0 != (#[trigger] s.drop_last()[b]).0 by {
            assert(s.drop_last()[a] == s[a]);
            assert(s.drop_last()[b] == s[b]);
        }
        lemma_log_map_remove(s.drop_last(), i);
        assert(t.drop_last() =~= s.drop_last().remove(i));
        assert(t.last() == s.last());
        assert(s.drop_last()[i] == s[i]);
        assert(s[i].0 != s.last().0);
        assert(log_map(t) =~= log_map(s).remove(s[i].0));
    }
}

/// Whether log `after` is log `before` with `value` recorded under `key`.
pub open spec fn log_recorded<V>(before: &ResultLog<V>, after: &ResultLog<V>, key: Seq<char>, value: V) -> bool {
    &&& after.spec_map() == before.spec_map().insert(key, value)
    &&& entries_inserted(before.spec_entries(), after.spec_entries(), key, value)
}

/// The sum of a figure `f` of the recorded results of `s`.
pub open spec fn sum_values<V>(s: Seq<(Seq<char>, V)>, f: spec_fn(V) -> int) -> int
    decreases s.len(),
{
    if s.len() == 0 { 0 } else { sum_values(s.drop_last(), f) + f(s.last().1) }
}

/// A sum over a prefix never exceeds the whole sum, for a figure that is never negative.
pub proof fn lemma_sum_values_prefix_le<V>(s: Seq<(Seq<char>, V)>, f: spec_fn(V) -> int, i: int)
    requires
        0 <= i <= s.len(),
        forall|v: V| #[trigger] f(v) >= 0,
    ensures
        0 <= sum_values(s.take(i), f) <= sum_values(s, f),
    decreases s.len(),
{
    if s.len() > 0 {
        if i == s.len() {
            assert(s.take(i) =~= s);
            lemma_sum_values_prefix_le(s.drop_last(), f, i - 1);
            assert(s.drop_last().take(i - 1) =~= s.drop_last());
        } else {
            lemma_sum_values_prefix_le(s.drop_last(), f, i);
            assert(s.drop_last().take(i) =~= s.take(i));
        }
    }
}

/// `x`, or `cap` where `x` is greater.
pub open spec fn capped(x: int, cap: int) -> int {
    if x > cap { cap } else { x }
}

/// A sum of figures that each lie between zero and `b` lies between zero and `b` times the
/// number of entries.
pub proof fn lemma_sum_values_bounded<V>(s: Seq<(Seq<char>, V)>, f: spec_fn(V) -> int, b: int)
    requires
        forall|v: V| 0 <= #[trigger] f(v) <= b,
    ensures
        0 <= sum_values(s, f) <= s.len() * b,
    decreases s.len(),
{
    if s.len() > 0 {
        lemma_sum_values_bounded(s.drop_last(), f, b);
        assert((s.len() - 1) * b + b == s.len() * b) by (nonlinear_arith);
    }
}

/// Extending a prefix by one entry adds that entry's figure to the sum.
pub proof fn lemma_sum_values_take_next<V>(s: Seq<(Seq<char>, V)>, f: spec_fn(V) -> int, i: int)
    requires
        0 <= i < s.len(),
    ensures
        sum_values(s.take(i + 1), f) == sum_values(s.take(i), f) + f(s[i].1),
{
    assert(s.take(i + 1).drop_last() =~= s.take(i));
}

/// Recording a result adds its figure to the sum, less the figure of a result it replaces.
pub proof fn lemma_sum_values_inserted<V>(before: Seq<(Seq<char>, V)>, after: Seq<(Seq<char>, V)>, key: Seq<char>, value: V, f: spec_fn(V) -> int)
    requires
        entries_inserted(before, after, key, value),
    ensures
        (exists|i: int| 0 <= i < before.len() && (#[trigger] before[i]).0 == key
            && sum_values(after, f) == sum_values(before, f) - f(before[i].1) + f(value))
        || sum_values(after, f) == sum_values(before, f) + f(value),
{
    if exists|i: int| 0 <= i < before.len() && (#[trigger] before[i]).0 == key && after == before.update(i, (key, value)) {
        let i = choose|i: int| 0 <= i < before.len() && (#[trigger] before[i]).0 == key && after == before.update(i, (key, value));
        lemma_sum_values_update(before, i, (key, value), f);
    } else {
        assert(after.drop_last() =~= before);
    }
}

/// Replacing the entry at `i` changes the sum by the difference of the figures.
pub proof fn lemma_sum_values_update<V>(s: Seq<(Seq<char>, V)>, i: int, e: (Seq<char>, V), f: spec_fn(V) -> int)
    requires
        0 <= i < s.len(),
    ensures
        sum_values(s.update(i, e), f) == sum_values(s, f) - f(s[i].1) + f(e.1),
    decreases s.len(),
{
    let t = s.update(i, e);
    if i == s.len() - 1 {
        assert(t.drop_last() =~= s.drop_last());
    } else {
        lemma_sum_values_update(s.drop_last(), i, e, f);
        assert(t.drop_last() =~= s.drop_last().update(i, e));
    }
}

/// Results recorded under ids, at most one per id.
pub struct ResultLog<V> {
    entries: Vec<(String, V)>,
}

impl<V> ResultLog<V> {
    /// The recorded entries in the order their ids were first recorded.
    pub closed spec fn spec_entries(&self) -> Seq<(Seq<char>, V)> {
        entry_views(self.entries@)
    }

    /// The recorded results by id.
    pub open spec fn spec_map(&self) -> Map<Seq<char>, V> {
        log_map(self.spec_entries())
    }

    /// No id is recorded twice.
    #[verifier::type_invariant]
    closed spec fn ids_unique(&self) -> bool {
        keys_distinct(self.spec_entries())
    }

    /// An empty log.
    pub fn new() -> (r: Self)
        ensures
            r.spec_entries() == Seq::<(Seq<char>, V)>::empty(),
            r.spec_map() == Map::<Seq<char>, V>::empty(),
    {
        let entries: Vec<(String, V)> = Vec::new();
        assert(entry_views(entries@) =~= Seq::<(Seq<char>, V)>::empty());
        ResultLog { entries }
    }

    /// Records `value` under `key`, replacing a result already recorded under that id.
    pub fn insert(&mut self, key: String, value: V)
        ensures
            final(self).spec_map() == old(self).spec_map().insert(key@, value),
            entries_inserted(old(self).spec_entries(), final(self).spec_entries(), key@, value),
            !old(self).spec_map().contains_key(key@) ==> final(self).spec_entries().len() == old(self).spec_entries().len() + 1,
    {
        proof {
            use_type_invariant(&*self);
        }
        let ghost before = self.spec_entries();
        let mut entries: Vec<(String, V)> = Vec::new();
        std::mem::swap(&mut entries, &mut self.entries);
        let mut i: usize = 0;
        while i < entries.len()
            invariant
                0 <= i <= entries@.len(),
                before == entry_views(entries@),
                before == old(self).spec_entries(),
                keys_distinct(before),
                forall|j: int| 0 <= j < i ==> (#[trigger] before[j]).0 != key@,
            decreases entries@.len() - i,
        {
            assert(before[i as int] == (entries@[i as int].0@, entries@[i as int].1));
            if entries[i].0 == key {
                let ghost k = key@;
                entries.set(i, (key, value));
                proof {
                    assert(entry_views(entries@) =~= before.update(i as int, (k, value)));
                    lemma_log_map_update(before, i as int, value);
                    lemma_log_map_contains(before, i as int);
                    let t = entry_views(entries@);
                    assert forall|a: int, b: int| 0 <= a < t.len() && 0 <= b < t.len() && a != b implies
                        (#[trigger] t[a]).0 != (#[trigger] t[b]).0 by {
                        assert(t[a].0 == before[a].0);
                        assert(t[b].0 == before[b].0);
                    }
                }
                self.entries = entries;
                return;
            }
            i += 1;
        }
        let ghost k = key@;
        entries.push((key, value));
        proof {
            let t = entry_views(entries@);
            assert(t =~= before.push((k, value)));
            assert(t.drop_last() =~= before);
            assert forall|a: int, b: int| 0 <= a < t.len() && 0 <= b < t.len() && a != b implies
                (#[trigger] t[a]).0 != (#[trigger] t[b]).0 by {
                if a < before.len() {
                    assert(t[a] == before[a]);
                }
                if b < before.len() {
                    assert(t[b] == before[b]);
                }
            }
        }
        self.entries = entries;
    }

    /// The position of the entry recorded under `key`, if any.
    fn position(&self, key: &str) -> (r: Option<usize>)
        ensures
            match r {
                Some(i) => i < self.spec_entries().len() && self.spec_entries()[i as int].0 == key@,
                None => forall|i: int| 0 <= i < self.spec_entries().len() ==> (#[trigger] self.spec_entries()[i]).0 != key@,
            },
    {
        let k = key.to_owned();
        let mut i: usize = 0;
        while i < self.entries.len()
            invariant
                0 <= i <= self.entries@.len(),
                k@ == key@,
                forall|j: int| 0 <= j < i ==> (#[trigger] self.spec_entries()[j]).0 != key@,
            decreases self.entries@.len() - i,
        {
            assert(self.spec_entries()[i as int] == (self.entries@[i as int].0@, self.entries@[i as int].1));
            if self.entries[i].0 == k {
                return Some(i);
            }
            i += 1;
        }
        None
    }

    /// The result recorded under `key`, if any.
    pub fn get(&self, key: &str) -> (r: Option<&V>)
        ensures
            match r {
                Some(v) => self.spec_map().contains_key(key@) && *v == self.spec_map()[key@],
                None => !self.spec_map().contains_key(key@),
            },
    {
        proof {
            use_type_invariant(self);
        }
        match self.position(key) {
            Some(i) => {
                proof {
                    lemma_log_map_contains(self.spec_entries(), i as int);
                }
                assert(self.spec_entries()[i as int].1 == self.entries@[i as int].1);
                Some(&self.entries[i].1)
            },
            None => {
                proof {
                    lemma_log_map_absent(self.spec_entries(), key@);
                }
                None
            },
        }
    }

    /// Forgets the result recorded under `key`, if any.
    pub fn remove(&mut self, key: &str)
        ensures
            final(self).spec_map() == old(self).spec_map().remove(key@),
    {
        proof {
            use_type_invariant(&*self);
        }
        match self.position(key) {
            Some(i) => {
                let ghost before = self.spec_entries();
                let mut entries: Vec<(String, V)> = Vec::new();
                std::mem::swap(&mut entries, &mut self.entries);
                entries.remove(i);
                proof {
                    let t = entry_views(entries@);
                    assert(t =~= before.remove(i as int));
                    lemma_log_map_remove(before, i as int);
                    assert forall|a: int, b: int| 0 <= a < t.len() && 0 <= b < t.len() && a != b implies
                        (#[trigger] t[a]).0 != (#[trigger] t[b]).0 by {
                        let oa = if a < i { a } else { a + 1 };
                        let ob = if b < i { b } else { b + 1 };
                        assert(t[a] == before[oa]);
                        assert(t[b] == before[ob]);
                    }
                }
                self.entries = entries;
            },
            None => {
                proof {
                    lemma_log_map_absent(self.spec_entries(), key@);
                    assert(self.spec_map().remove(key@) =~= self.spec_map());
                }
            },
        }
    }

    /// The number of recorded results.
    pub fn len(&self) -> (n: usize)
        ensures
            n == self.spec_entries().len(),
    {
        self.entries.len()
    }

    /// Whether no result is recorded.
    pub fn is_empty(&self) -> (r: bool)
        ensures
            r == (self.spec_entries().len() == 0),
    {
        self.entries.len() == 0
    }

    /// Forgets every recorded result.
    pub fn clear(&mut self)
        ensures
            final(self).spec_entries() == Seq::<(Seq<char>, V)>::empty(),
    {
        let entries: Vec<(String, V)> = Vec::new();
        assert(entry_views(entries@) =~= Seq::<(Seq<char>, V)>::empty());
        self.entries = entries;
    }

    /// The result recorded at position `i`.
    pub fn result_at(&self, i: usize) -> (r: &V)
        requires
            i < self.spec_entries().len(),
        ensures
            *r == self.spec_entries()[i as int].1,
    {
        &self.entries[i].1
    }
}

/// `n` in decimal, without leading zeros.
pub open spec fn decimal(n: nat) -> Seq<char>
    decreases n,
{
    if n < 10 {
        seq![digit(n)]
    } else {
        decimal(n / 10).push(digit(n % 10))
    }
}

/// The character of decimal digit `d`.
pub open spec fn digit(d: nat) -> char {
    (48 + d) as char
}

/// `n` written in decimal by `std::format!` with `{}`: the digits of `n` without leading zeros.
#[verifier::external_body]
pub(crate) fn decimal_text(n: u128) -> (s: String)
    ensures
        s@ == decimal(n as nat),
{
    format!("{}", n)
}

/// `prefix` followed by `n` in decimal.
pub(crate) fn numbered_id(prefix: &str, n: u128) -> (s: String)
    ensures
        s@ == prefix@ + decimal(n as nat),
{
    let mut s = String::from_str(prefix);
    let digits = decimal_text(n);
    s.append(digits.as_str());
    s
}

/// `prefix`, then `middle`, an underscore and `n` in decimal.
pub(crate) fn joined_id(prefix: &str, middle: &str, n: u128) -> (s: String)
    ensures
        s@ == prefix@ + middle@ + seq!['_'] + decimal(n as nat),
{
    let mut s = String::from_str(prefix);
    s.append(middle);
    s.append("_");
    proof {
        reveal_strlit("_");
    }
    assert("_"@ =~= seq!['_']);
    let digits = decimal_text(n);
    s.append(digits.as_str());
    s
}

} // verus!
