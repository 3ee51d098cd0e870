//! The registry of discovered thermometers: ordered by their 64-bit 1-Wire
//! address, so that a thermometer's position (and with it its Modbus
//! registers) does not depend on the order in which the bus search found them.
use vstd::prelude::*;
use crate::registers::{SensorError, SensorQuery};

verus! {

broadcast use vstd::seq_lib::group_to_multiset_ensures;

/// Entries ordered by key, smallest first.
pub open spec fn sorted_by_key<A>(s: Seq<(u64, A)>) -> bool {
    forall|a: int, b: int| 0 <= a <= b < s.len() ==> s[a].0 <= s[b].0
}

/// The test "has key `key`" on an entry.
pub open spec fn key_is<A>(key: u64) -> spec_fn((u64, A)) -> bool {
    |e: (u64, A)| e.0 == key
}

/// The entries that have key `key`, in the order in which they stand.
pub open spec fn with_key<A>(s: Seq<(u64, A)>, key: u64) -> Seq<(u64, A)> {
    s.filter(key_is::<A>(key))
}

/// The entries selected by a key are exactly the entries of that key: each
/// has the key, each entry with the key is among them, and there are no more
/// of them than entries in all.
pub proof fn lemma_with_key_selects_that_key<A>(s: Seq<(u64, A)>, key: u64)
    ensures
        forall|i: int| 0 <= i < with_key(s, key).len() ==> (#[trigger] with_key(s, key)[i]).0 == key,
        forall|i: int| 0 <= i < s.len() && s[i].0 == key ==> with_key(s, key).contains(#[trigger] s[i]),
        with_key(s, key).len() <= s.len(),
{
    broadcast use vstd::seq_lib::group_filter_ensures;
    assert forall|i: int| 0 <= i < with_key(s, key).len() implies (#[trigger] with_key(s, key)[i]).0 == key by {
        s.lemma_filter_pred(key_is::<A>(key), i);
    }
    assert forall|i: int| 0 <= i < s.len() && s[i].0 == key implies with_key(s, key).contains(#[trigger] s[i]) by {
        s.lemma_filter_contains(key_is::<A>(key), i);
    }
    s.lemma_filter_len(key_is::<A>(key));
}

/// Moving an entry to the left past entries with other keys leaves the order
/// of the entries of every key unchanged.
proof fn lemma_move_left_keeps_key_order<A>(s: Seq<(u64, A)>, i: int, j: int)
    requires
        0 <= j <= i < s.len(),
        forall|k: int| j <= k < i ==> s[k].0 != s[i].0,
    ensures
        forall|key: u64| #[trigger] with_key(s.remove(i).insert(j, s[i]), key) == with_key(s, key),
{
    let x = s[i];
    let p = s.subrange(0, j);
    let m = s.subrange(j, i);
    let t = s.subrange(i + 1, s.len() as int);
    let one = seq![x];
    assert(s =~= p + m + one + t);
    assert(s.remove(i).insert(j, x) =~= p + one + m + t);
    assert forall|key: u64| #[trigger] with_key(s.remove(i).insert(j, x), key) == with_key(s, key) by {
        let pred = key_is::<A>(key);
        Seq::filter_distributes_over_add(p + m + one, t, pred);
        Seq::filter_distributes_over_add(p + m, one, pred);
        Seq::filter_distributes_over_add(p, m, pred);
        Seq::filter_distributes_over_add(p + one + m, t, pred);
        Seq::filter_distributes_over_add(p + one, m, pred);
        Seq::filter_distributes_over_add(p, one, pred);
        assert(one =~= Seq::<(u64, A)>::empty().push(x));
        Seq::<(u64, A)>::empty().lemma_filter_push(x, pred);
        assert(Seq::<(u64, A)>::empty().filter(pred) =~= Seq::<(u64, A)>::empty()) by {
            reveal(Seq::filter);
        }
        if x.0 == key {
            assert(m.all(|y: (u64, A)| !pred(y)));
            m.lemma_all_neg_filter_empty(pred);
            assert(m.filter(pred) =~= Seq::<(u64, A)>::empty());
            assert(p.filter(pred) + one.filter(pred) + m.filter(pred) =~= p.filter(pred)
                + m.filter(pred) + one.filter(pred));
        } else {
            assert(one.filter(pred) =~= Seq::<(u64, A)>::empty());
            assert(p.filter(pred) + one.filter(pred) + m.filter(pred) =~= p.filter(pred)
                + m.filter(pred) + one.filter(pred));
        }
    }
}

/// Filtering by key splits off the first entry.
proof fn lemma_with_key_first<A>(s: Seq<(u64, A)>, key: u64)
    requires
        s.len() > 0,
    ensures
        with_key(s, key) == (if s[0].0 == key {
            seq![s[0]]
        } else {
            Seq::empty()
        }) + with_key(s.drop_first(), key),
{
    assert(s =~= seq![s[0]] + s.drop_first());
    s.drop_first().lemma_filter_prepend(s[0], key_is::<A>(key));
}

/// A key that no entry has selects nothing.
proof fn lemma_with_key_absent<A>(s: Seq<(u64, A)>, key: u64)
    requires
        forall|i: int| 0 <= i < s.len() ==> s[i].0 != key,
    ensures
        with_key(s, key).len() == 0,
{
    assert(s.all(|y: (u64, A)| !key_is::<A>(key)(y)));
    s.lemma_all_neg_filter_empty(key_is::<A>(key));
}

/// Two sequences ordered by key, with the entries of each key in the same
/// order, are the same sequence.
proof fn lemma_sorted_unique<A>(s1: Seq<(u64, A)>, s2: Seq<(u64, A)>)
    requires
        sorted_by_key(s1),
        sorted_by_key(s2),
        forall|key: u64| #[trigger] with_key(s1, key) == with_key(s2, key),
    ensures
        s1 == s2,
    decreases s1.len() + s2.len(),
{
    if s1.len() == 0 || s2.len() == 0 {
        if s1.len() > 0 {
            lemma_with_key_first(s1, s1[0].0);
            lemma_with_key_absent(s2, s1[0].0);
        } else if s2.len() > 0 {
            lemma_with_key_first(s2, s2[0].0);
            lemma_with_key_absent(s1, s2[0].0);
        }
        assert(s1 =~= s2);
    } else {
        let k1 = s1[0].0;
        let k2 = s2[0].0;
        lemma_with_key_first(s1, k1);
        lemma_with_key_first(s2, k2);
        lemma_with_key_first(s1, k2);
        lemma_with_key_first(s2, k1);
        if k1 < k2 {
            lemma_with_key_absent(s2, k1);
            assert(with_key(s2, k1).len() == 0);
            assert(false);
        }
        if k2 < k1 {
            lemma_with_key_absent(s1, k2);
            assert(with_key(s1, k2).len() == 0);
            assert(false);
        }
        assert(with_key(s1, k1)[0] == s1[0]);
        assert(with_key(s2, k1)[0] == s2[0]);
        assert forall|key: u64| #[trigger] with_key(s1.drop_first(), key) == with_key(s2.drop_first(), key) by {
            lemma_with_key_first(s1, key);
            lemma_with_key_first(s2, key);
            if key == k1 {
                assert(with_key(s1.drop_first(), key) =~= with_key(s1, key).drop_first());
                assert(with_key(s2.drop_first(), key) =~= with_key(s2, key).drop_first());
            } else {
                assert(with_key(s1.drop_first(), key) =~= with_key(s1, key));
                assert(with_key(s2.drop_first(), key) =~= with_key(s2, key));
            }
        }
        lemma_sorted_unique(s1.drop_first(), s2.drop_first());
        assert(s1 =~= seq![s1[0]] + s1.drop_first());
        assert(s2 =~= seq![s2[0]] + s2.drop_first());
    }
}

/// Two registries built from searches that found the same thermometers, the
/// ones with a same address in the same order, are the same: the registry,
/// and with it the register map, does not depend on the search order.
pub proof fn lemma_registry_independent_of_search_order<A>(
    found1: Seq<(u64, A)>,
    found2: Seq<(u64, A)>,
    r1: Seq<(u64, A)>,
    r2: Seq<(u64, A)>,
)
    requires
        forall|key: u64| #[trigger] with_key(found1, key) == with_key(found2, key),
        sorted_by_key(r1),
        sorted_by_key(r2),
        forall|key: u64| #[trigger] with_key(r1, key) == with_key(found1, key),
        forall|key: u64| #[trigger] with_key(r2, key) == with_key(found2, key),
    ensures
        r1 == r2,
{
    assert forall|key: u64| #[trigger] with_key(r1, key) == with_key(r2, key) by {
        assert(with_key(r1, key) == with_key(found1, key));
        assert(with_key(r2, key) == with_key(found2, key));
    }
    lemma_sorted_unique(r1, r2);
}

/// Orders entries by their key, smallest first; entries with equal keys keep
/// their relative order.
pub fn sort_by_key<A>(entries: &mut Vec<(u64, A)>)
    ensures
        sorted_by_key(final(entries)@),
        forall|a: int, b: int|
            0 <= a <= b < final(entries)@.len() ==> final(entries)@[a].0 <= final(entries)@[b].0,
        final(entries)@.len() == old(entries)@.len(),
        final(entries)@.to_multiset() == old(entries)@.to_multiset(),
        forall|key: u64| #[trigger] with_key(final(entries)@, key) == with_key(old(entries)@, key),
{
    let n = entries.len();
    if n == 0 {
        return;
    }
    let mut i: usize = 1;
    while i < n
        invariant
            n == entries@.len(),
            1 <= i <= n,
            sorted_by_key(entries@.subrange(0, i as int)),
            entries@.to_multiset() == old(entries)@.to_multiset(),
            forall|key: u64| #[trigger] with_key(entries@, key) == with_key(old(entries)@, key),
        decreases n - i,
    {
        let ghost before = entries@;
        let item = entries.remove(i);
        let mut j: usize = i;
        while j > 0 && entries[j - 1].0 > item.0
            invariant
                j <= i,
                i < n,
                before.len() == n,
                entries@ == before.remove(i as int),
                item == before[i as int],
                sorted_by_key(before.subrange(0, i as int)),
                forall|k: int| j <= k < i ==> #[trigger] entries@[k].0 > item.0,
            decreases j,
        {
            j -= 1;
        }
        let ghost removed = entries@;
        entries.insert(j, item);
        proof {
            assert forall|k: int| j <= k < i implies before[k].0 != before[i as int].0 by {
                assert(removed[k] == before[k]);
            }
            lemma_move_left_keeps_key_order(before, i as int, j as int);
            assert(removed.subrange(0, i as int) =~= before.subrange(0, i as int));
            assert forall|a: int, b: int| 0 <= a <= b < i + 1 implies entries@[a].0 <= entries@[b].0 by {
                if a < j && b < j {
                    assert(entries@[a] == before[a] && entries@[b] == before[b]);
                } else if a < j && b == j {
                    assert(entries@[a] == before[a]);
                    assert(before[a].0 <= before[j - 1].0);
                } else if a < j && b > j {
                    assert(entries@[a] == before[a] && entries@[b] == before[b - 1]);
                } else if a == j && b > j {
                    assert(entries@[b] == removed[b - 1]);
                } else if a > j {
                    assert(entries@[a] == before[a - 1] && entries@[b] == before[b - 1]);
                }
            }
        }
        i += 1;
    }
    assert(entries@.subrange(0, n as int) =~= entries@);
}

/// The thermometers found on the bus, each as its 64-bit address and a
/// handle, ordered by address: position `k` of the registry is thermometer
/// `k` of the Modbus register map.
pub struct SensorRegistry<A> {
    entries: Vec<(u64, A)>,
}

impl<A> SensorRegistry<A> {
    /// The entries, in registry order.
    pub closed spec fn view(&self) -> Seq<(u64, A)> {
        self.entries@
    }

    #[verifier::type_invariant]
    spec fn ordered(&self) -> bool {
        sorted_by_key(self.entries@)
    }

    /// Builds the registry from the thermometers in the order the bus search
    /// found them: the same entries, ordered by address, entries with equal
    /// addresses in the order they were found.
    pub fn from_discovered(found: Vec<(u64, A)>) -> (r: Self)
        ensures
            sorted_by_key(r.view()),
            forall|a: int, b: int| 0 <= a <= b < r.view().len() ==> r.view()[a].0 <= r.view()[b].0,
            r.view().len() == found@.len(),
            r.view().to_multiset() == found@.to_multiset(),
            forall|key: u64| #[trigger] with_key(r.view(), key) == with_key(found@, key),
    {
        let mut entries = found;
        sort_by_key(&mut entries);
        SensorRegistry { entries }
    }

    /// The number of thermometers.
    pub fn len(&self) -> (n: usize)
        ensures
            n == self.view().len(),
    {
        self.entries.len()
    }
}

/// What the thermometer side answers a query with: the first position of a
/// non-empty query is refused when a thermometer stands there; an empty query
/// names nothing.
pub open spec fn spec_select<A>(query: SensorQuery) -> Result<Seq<A>, SensorError> {
    if query.start < query.end {
        Err(SensorError::Refused)
    } else {
        Ok(Seq::empty())
    }
}

/// Every non-empty query is refused, whatever its length: its first
/// position either holds a thermometer, which is refused, or lies past the
/// last one, which is no valid query; only an empty query is answered, and
/// with no handles. So no answer ever names fewer handles than the query asks
/// for.
pub proof fn lemma_select_refuses_every_nonempty_query<A>(query: SensorQuery)
    ensures
        query.start < query.end ==> spec_select::<A>(query) == Err::<Seq<A>, SensorError>(
            SensorError::Refused,
        ),
        query.start >= query.end ==> spec_select::<A>(query) == Ok::<Seq<A>, SensorError>(
            Seq::empty(),
        ),
        spec_select::<A>(query) matches Ok(handles) ==> handles.len() + query.start >= query.end,
{
}

impl<A: Copy> SensorRegistry<A> {
    /// The handles of all thermometers, in registry order.
    pub fn handles(&self) -> (r: Vec<A>)
        ensures
            r@ == self.view().map_values(|e: (u64, A)| e.1),
    {
        let mut handles: Vec<A> = Vec::new();
        let mut k: usize = 0;
        while k < self.entries.len()
            invariant
                k <= self.entries@.len(),
                handles@ =~= self.entries@.subrange(0, k as int).map_values(|e: (u64, A)| e.1),
            decreases self.entries@.len() - k,
        {
            handles.push(self.entries[k].1);
            k += 1;
        }
        assert(self.entries@.subrange(0, k as int) =~= self.entries@);
        handles
    }

    /// Answers a query for thermometers. The positions are taken in order;
    /// a position that holds a thermometer is refused, so a non-empty query
    /// is refused at its first position. A non-empty query whose first
    /// position lies past the last thermometer is no valid query (the
    /// position would be looked up in the registry), and an empty query is
    /// answered with no handles.
    pub fn select(&self, query: SensorQuery) -> (r: Result<Vec<A>, SensorError>)
        requires
            query.start >= query.end || query.start < self.view().len(),
        ensures
            match spec_select::<A>(query) {
                Ok(handles) => r matches Ok(v) && v@ == handles,
                Err(e) => r == Err::<Vec<A>, SensorError>(e),
            },
            query.start < query.end ==> r == Err::<Vec<A>, SensorError>(SensorError::Refused),
            query.start >= query.end ==> (r matches Ok(v) && v@.len() == 0),
    {
        if query.start < query.end {
            return Err(SensorError::Refused);
        }
        Ok(Vec::new())
    }
}

} // verus!
