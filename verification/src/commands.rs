//! The in-memory task model: one named task (`Cmd`), the config-file
//! container (`FileConfig`), the repeat strategy (`Repeat`) and the
//! insertion-ordered environment mapping (`EnvMap`).
//!
//! `EnvMap` keeps its entries in insertion order with unique keys, so the
//! merged environment can be displayed and applied in a stable order:
//! inserting an existing key updates the value in place, inserting a new
//! key appends it.

use vstd::prelude::*;
use vstd::string::*;

use crate::text::{dec_str, find_char, trim_back_spec, u64_to_string};

verus! {

/// One environment entry: name and value.
pub type EnvEntry = (Seq<char>, Seq<char>);

/// Whether the entries carry pairwise distinct keys.
pub open spec fn env_wf(m: Seq<EnvEntry>) -> bool {
    forall|i: int, j: int| #![trigger m[i].0, m[j].0] 0 <= i < j < m.len() ==> m[i].0 != m[j].0
}

/// Whether some entry carries the key `k`.
pub open spec fn env_has_key(m: Seq<EnvEntry>, k: Seq<char>) -> bool {
    exists|i: int| #![trigger m[i].0] 0 <= i < m.len() && m[i].0 == k
}

/// The value stored under `k` (the first match, which under `env_wf` is
/// the only one).
pub open spec fn env_lookup(m: Seq<EnvEntry>, k: Seq<char>) -> Option<Seq<char>>
    decreases m.len(),
{
    if m.len() == 0 {
        None
    } else if m[0].0 == k {
        Some(m[0].1)
    } else {
        env_lookup(m.drop_first(), k)
    }
}

/// Last-wins, order-stable insertion: an existing key keeps its position
/// and gets the new value; a new key is appended.
pub open spec fn env_insert_spec(m: Seq<EnvEntry>, k: Seq<char>, v: Seq<char>) -> Seq<EnvEntry>
    decreases m.len(),
{
    if m.len() == 0 {
        seq![(k, v)]
    } else if m[0].0 == k {
        seq![(k, v)] + m.drop_first()
    } else {
        seq![m[0]] + env_insert_spec(m.drop_first(), k, v)
    }
}

/// The keys of the entries, in display order.
pub open spec fn env_keys(m: Seq<EnvEntry>) -> Seq<Seq<char>> {
    m.map_values(|p: EnvEntry| p.0)
}

/// The entries of `b` whose keys do not occur in `a`, in `b`'s order.
pub open spec fn env_fresh(a: Seq<EnvEntry>, b: Seq<EnvEntry>) -> Seq<EnvEntry>
    decreases b.len(),
{
    if b.len() == 0 {
        Seq::empty()
    } else if env_has_key(a, b.last().0) {
        env_fresh(a, b.drop_last())
    } else {
        env_fresh(a, b.drop_last()).push(b.last())
    }
}

/// `a` with every entry of `b` inserted in order.
pub open spec fn env_merge_spec(a: Seq<EnvEntry>, b: Seq<EnvEntry>) -> Seq<EnvEntry>
    decreases b.len(),
{
    if b.len() == 0 {
        a
    } else {
        env_insert_spec(env_merge_spec(a, b.drop_last()), b.last().0, b.last().1)
    }
}

/// An insertion-ordered name-to-value mapping with unique keys.
pub struct EnvMap {
    pairs: Vec<(String, String)>,
}

impl View for EnvMap {
    type V = Seq<EnvEntry>;

    closed spec fn view(&self) -> Seq<EnvEntry> {
        Seq::new(self.pairs@.len(), |i: int| (self.pairs@[i].0@, self.pairs@[i].1@))
    }
}

impl EnvMap {
    /// Whether the map's keys are pairwise distinct.
    pub open spec fn wf(&self) -> bool {
        env_wf(self@)
    }

    /// An empty mapping.
    pub fn new() -> (r: EnvMap)
        ensures
            r@ =~= Seq::<EnvEntry>::empty(),
            r.wf(),
    {
        EnvMap { pairs: Vec::new() }
    }

    /// Whether the map's keys are pairwise distinct, as an executable
    /// check.
    pub fn is_wf(&self) -> (r: bool)
        ensures
            r == self.wf(),
    {
        let n = self.pairs.len();
        let mut i: usize = 0;
        while i < n
            invariant
                i <= n,
                n == self@.len(),
                forall|x: int, y: int|
                    #![trigger self@[x].0, self@[y].0]
                    0 <= x < y < n && x < i ==> self@[x].0 != self@[y].0,
            decreases n - i,
        {
            let mut j: usize = i + 1;
            while j < n
                invariant
                    i < j <= n,
                    n == self@.len(),
                    forall|y: int| i < y < j ==> self@[i as int].0 != #[trigger] self@[y].0,
                decreases n - j,
            {
                if self.pairs[i].0 == self.pairs[j].0 {
                    proof {
                        assert(self@[i as int].0 == self@[j as int].0);
                    }
                    return false;
                }
                j = j + 1;
            }
            i = i + 1;
        }
        true
    }

    /// The number of entries.
    pub fn len(&self) -> (r: usize)
        ensures
            r == self@.len(),
    {
        self.pairs.len()
    }

    /// The entry at position `i` in display order.
    pub fn entry_at(&self, i: usize) -> (r: (&String, &String))
        requires
            i < self@.len(),
        ensures
            (r.0@, r.1@) == self@[i as int],
    {
        let p = &self.pairs[i];
        (&p.0, &p.1)
    }

    /// The value stored under `k`, if any.
    pub fn get(&self, k: &String) -> (r: Option<&String>)
        ensures
            match r {
                Some(v) => env_lookup(self@, k@) == Some(v@),
                None => env_lookup(self@, k@) is None,
            },
    {
        let n = self.pairs.len();
        let mut i: usize = 0;
        proof {
            assert(self@.skip(0) =~= self@);
        }
        while i < n
            invariant
                i <= n,
                n == self@.len(),
                env_lookup(self@, k@) == env_lookup(self@.skip(i as int), k@),
            decreases n - i,
        {
            proof {
                assert(self@.skip(i as int)[0] == self@[i as int]);
                assert(self@.skip(i as int).drop_first() =~= self@.skip(i + 1));
            }
            if self.pairs[i].0 == *k {
                return Some(&self.pairs[i].1);
            }
            i = i + 1;
        }
        proof {
            assert(self@.skip(n as int) =~= Seq::<EnvEntry>::empty());
        }
        None
    }

    /// Inserts `k = v`: an existing key keeps its position and gets the
    /// new value, a new key is appended.
    pub fn insert(&mut self, k: String, v: String)
        requires
            old(self).wf(),
        ensures
            final(self)@ == env_insert_spec(old(self)@, k@, v@),
            final(self).wf(),
    {
        let n = self.pairs.len();
        let mut i: usize = 0;
        while i < n
            invariant
                i <= n,
                n == self@.len(),
                *self == *old(self),
                old(self).wf(),
                forall|j: int| 0 <= j < i ==> self@[j].0 != k@,
            decreases n - i,
        {
            if self.pairs[i].0 == k {
                proof {
                    assert(old(self)@[i as int].0 == k@);
                    assert(env_has_key(old(self)@, k@));
                }
                self.pairs.set(i, (k, v));
                proof {
                    let m = old(self)@;
                    lemma_insert_first_match(m, i as int, k@, v@);
                    assert(self@ =~= m.update(i as int, (k@, v@)));
                    assert(self@ =~= env_insert_spec(m, k@, v@));
                    assert forall|x: int, y: int|
                        0 <= x < y < self@.len() implies #[trigger] self@[x].0 != #[trigger] self@[y].0 by {
                        assert(self@[x].0 == m[x].0);
                        assert(self@[y].0 == m[y].0);
                        assert(m[x].0 != m[y].0);
                    }
                }
                return ;
            }
            i = i + 1;
        }
        proof {
            assert(!env_has_key(old(self)@, k@));
        }
        self.pairs.push((k, v));
        proof {
            let m = old(self)@;
            lemma_insert_no_match(m, k@, v@);
            assert(self@ =~= m.push((k@, v@)));
            assert(self@ =~= env_insert_spec(m, k@, v@));
            assert forall|x: int, y: int|
                0 <= x < y < self@.len() implies #[trigger] self@[x].0 != #[trigger] self@[y].0 by {
                if y < m.len() {
                    assert(m[x].0 != m[y].0);
                } else {
                    assert(m[x].0 != k@);
                }
            }
        }
    }

    /// A copy of this mapping.
    pub fn duplicate(&self) -> (r: EnvMap)
        ensures
            r@ == self@,
            self.wf() ==> r.wf(),
    {
        let n = self.pairs.len();
        let mut pairs: Vec<(String, String)> = Vec::new();
        let mut i: usize = 0;
        while i < n
            invariant
                i <= n,
                n == self@.len(),
                pairs@.len() == i,
                forall|j: int| 0 <= j < i ==> (pairs@[j].0@, pairs@[j].1@) == self@[j],
            decreases n - i,
        {
            let p = &self.pairs[i];
            pairs.push((p.0.clone(), p.1.clone()));
            i = i + 1;
        }
        let r = EnvMap { pairs };
        proof {
            assert(r@ =~= self@);
        }
        r
    }

    /// The merge of `self` (merged under) and `over`: entries of `over`
    /// win on key collision, display order stays stable.
    pub fn merge(&self, over: &EnvMap) -> (r: EnvMap)
        requires
            self.wf(),
            over.wf(),
        ensures
            r@ == env_merge_spec(self@, over@),
            r.wf(),
    {
        let mut acc = self.duplicate();
        let n = over.pairs.len();
        let mut i: usize = 0;
        while i < n
            invariant
                i <= n,
                n == over@.len(),
                acc.wf(),
                acc@ == env_merge_spec(self@, over@.take(i as int)),
            decreases n - i,
        {
            proof {
                assert(over@.take(i + 1).drop_last() =~= over@.take(i as int));
                assert(over@.take(i + 1).last() == over@[i as int]);
            }
            let p = &over.pairs[i];
            acc.insert(p.0.clone(), p.1.clone());
            i = i + 1;
        }
        proof {
            assert(over@.take(n as int) =~= over@);
        }
        acc
    }
}

proof fn lemma_insert_first_match(m: Seq<EnvEntry>, i: int, k: Seq<char>, v: Seq<char>)
    requires
        0 <= i < m.len(),
        m[i].0 == k,
        forall|j: int| 0 <= j < i ==> m[j].0 != k,
    ensures
        env_insert_spec(m, k, v) == m.update(i, (k, v)),
    decreases i,
{
    if i == 0 {
        assert(env_insert_spec(m, k, v) =~= m.update(0, (k, v)));
    } else {
        let m2 = m.drop_first();
        assert(m2[i - 1].0 == k);
        assert forall|j: int| 0 <= j < i - 1 implies m2[j].0 != k by {
            assert(m[j + 1].0 != k);
        }
        lemma_insert_first_match(m2, i - 1, k, v);
        assert(env_insert_spec(m, k, v) =~= m.update(i, (k, v)));
    }
}

proof fn lemma_insert_no_match(m: Seq<EnvEntry>, k: Seq<char>, v: Seq<char>)
    requires
        forall|j: int| 0 <= j < m.len() ==> m[j].0 != k,
    ensures
        env_insert_spec(m, k, v) == m.push((k, v)),
    decreases m.len(),
{
    if m.len() == 0 {
        assert(env_insert_spec(m, k, v) =~= m.push((k, v)));
    } else {
        let m2 = m.drop_first();
        assert forall|j: int| 0 <= j < m2.len() implies m2[j].0 != k by {
            assert(m[j + 1].0 != k);
        }
        lemma_insert_no_match(m2, k, v);
        assert(env_insert_spec(m, k, v) =~= m.push((k, v)));
    }
}

proof fn lemma_wf_drop_first(m: Seq<EnvEntry>)
    requires
        env_wf(m),
        m.len() > 0,
    ensures
        env_wf(m.drop_first()),
{
    let m2 = m.drop_first();
    assert forall|x: int, y: int|
        0 <= x < y < m2.len() implies #[trigger] m2[x].0 != #[trigger] m2[y].0 by {
        assert(m[x + 1].0 != m[y + 1].0);
    }
}

proof fn lemma_wf_drop_last(m: Seq<EnvEntry>)
    requires
        env_wf(m),
        m.len() > 0,
    ensures
        env_wf(m.drop_last()),
{
    let m2 = m.drop_last();
    assert forall|x: int, y: int|
        0 <= x < y < m2.len() implies #[trigger] m2[x].0 != #[trigger] m2[y].0 by {
        assert(m[x].0 != m[y].0);
    }
}

proof fn lemma_has_key_shift(m: Seq<EnvEntry>, k: Seq<char>)
    requires
        m.len() > 0,
        m[0].0 != k,
    ensures
        env_has_key(m, k) <==> env_has_key(m.drop_first(), k),
{
    let m2 = m.drop_first();
    if env_has_key(m, k) {
        let i = choose|i: int| 0 <= i < m.len() && m[i].0 == k;
        assert(i != 0);
        assert(m2[i - 1].0 == k);
    }
    if env_has_key(m2, k) {
        let i = choose|i: int| 0 <= i < m2.len() && m2[i].0 == k;
        assert(m[i + 1].0 == k);
    }
}

proof fn lemma_has_key_unpush(m: Seq<EnvEntry>, k: Seq<char>)
    requires
        m.len() > 0,
    ensures
        env_has_key(m, k) <==> env_has_key(m.drop_last(), k) || m.last().0 == k,
{
    let m2 = m.drop_last();
    if env_has_key(m, k) {
        let i = choose|i: int| 0 <= i < m.len() && m[i].0 == k;
        if i < m.len() - 1 {
            assert(m2[i].0 == k);
        }
    }
    if env_has_key(m2, k) {
        let i = choose|i: int| 0 <= i < m2.len() && m2[i].0 == k;
        assert(m[i].0 == k);
    }
    if m.last().0 == k {
        assert(m[m.len() - 1].0 == k);
    }
}

proof fn lemma_lookup_push(m: Seq<EnvEntry>, p: EnvEntry, k: Seq<char>)
    ensures
        env_lookup(m.push(p), k) == (if env_has_key(m, k) {
            env_lookup(m, k)
        } else if p.0 == k {
            Some(p.1)
        } else {
            None::<Seq<char>>
        }),
    decreases m.len(),
{
    let r = m.push(p);
    if m.len() == 0 {
        assert(r[0] == p);
        assert(r.drop_first() =~= Seq::<EnvEntry>::empty());
        assert(!env_has_key(m, k));
    } else {
        assert(r[0] == m[0]);
        assert(r.drop_first() =~= m.drop_first().push(p));
        lemma_lookup_push(m.drop_first(), p, k);
        if m[0].0 == k {
            assert(env_has_key(m, k));
        } else {
            lemma_has_key_shift(m, k);
        }
    }
}

proof fn lemma_lookup_at(m: Seq<EnvEntry>, i: int, k: Seq<char>)
    requires
        env_wf(m),
        0 <= i < m.len(),
        m[i].0 == k,
    ensures
        env_lookup(m, k) == Some(m[i].1),
    decreases i,
{
    if i > 0 {
        assert(m[0].0 != m[i].0);
        lemma_wf_drop_first(m);
        lemma_lookup_at(m.drop_first(), i - 1, k);
    }
}

proof fn lemma_insert_lookup(m: Seq<EnvEntry>, k: Seq<char>, v: Seq<char>, k2: Seq<char>)
    ensures
        env_lookup(env_insert_spec(m, k, v), k) == Some(v),
        k2 != k ==> env_lookup(env_insert_spec(m, k, v), k2) == env_lookup(m, k2),
        env_has_key(env_insert_spec(m, k, v), k2) <==> (env_has_key(m, k2) || k2 == k),
        env_wf(m) ==> env_wf(env_insert_spec(m, k, v)),
    decreases m.len(),
{
    let r = env_insert_spec(m, k, v);
    if m.len() == 0 {
        assert(r =~= seq![(k, v)]);
        assert(r[0] == (k, v));
        assert(r.drop_first() =~= Seq::<EnvEntry>::empty());
        if env_has_key(r, k2) {
            let i = choose|i: int| 0 <= i < r.len() && r[i].0 == k2;
            assert(i == 0);
        }
        assert(!env_has_key(m, k2));
        assert(env_wf(r));
    } else if m[0].0 == k {
        assert(r =~= seq![(k, v)] + m.drop_first());
        assert(r[0] == (k, v));
        assert(r.drop_first() =~= m.drop_first());
        assert(r.len() == m.len());
        assert(forall|i: int| 0 <= i < m.len() ==> #[trigger] r[i].0 == m[i].0);
        if env_has_key(r, k2) {
            let i = choose|i: int| 0 <= i < r.len() && r[i].0 == k2;
            assert(m[i].0 == k2);
        }
        if env_has_key(m, k2) {
            let i = choose|i: int| 0 <= i < m.len() && m[i].0 == k2;
            assert(r[i].0 == k2);
        }
        if k2 == k {
            assert(m[0].0 == k2);
        }
        if k2 != k && k2 != m[0].0 {
            assert(env_lookup(r, k2) == env_lookup(r.drop_first(), k2));
        }
        if env_wf(m) {
            assert forall|x: int, y: int|
                0 <= x < y < r.len() implies #[trigger] r[x].0 != #[trigger] r[y].0 by {
                assert(m[x].0 != m[y].0);
            }
        }
    } else {
        let m2 = m.drop_first();
        let ri = env_insert_spec(m2, k, v);
        assert(r =~= seq![m[0]] + ri);
        assert(r[0] == m[0]);
        assert(r.drop_first() =~= ri);
        lemma_insert_lookup(m2, k, v, k2);
        // key membership: r holds k2 iff it heads the list or sits in the tail
        if m[0].0 != k2 {
            lemma_has_key_shift(r, k2);
            lemma_has_key_shift(m, k2);
        } else {
            assert(env_has_key(r, k2));
            assert(env_has_key(m, k2));
        }
        if env_wf(m) {
            lemma_wf_drop_first(m);
            assert(env_wf(ri));
            // the head key is in neither the tail nor equal to `k`
            lemma_insert_lookup(m2, k, v, m[0].0);
            if env_has_key(m2, m[0].0) {
                let i = choose|i: int| 0 <= i < m2.len() && m2[i].0 == m[0].0;
                assert(m[i + 1].0 == m[0].0);
                assert(m[0].0 != m[i + 1].0);
            }
            assert(!env_has_key(ri, m[0].0));
            assert forall|x: int, y: int|
                0 <= x < y < r.len() implies #[trigger] r[x].0 != #[trigger] r[y].0 by {
                if x == 0 {
                    assert(ri[y - 1].0 == r[y].0);
                    if r[y].0 == m[0].0 {
                        assert(env_has_key(ri, m[0].0));
                    }
                } else {
                    assert(ri[x - 1].0 != ri[y - 1].0);
                }
            }
        }
    }
}

proof fn lemma_merge_has_key(a: Seq<EnvEntry>, b: Seq<EnvEntry>, k: Seq<char>)
    ensures
        env_has_key(env_merge_spec(a, b), k) <==> (env_has_key(a, k) || env_has_key(b, k)),
    decreases b.len(),
{
    if b.len() == 0 {
        assert(!env_has_key(b, k));
    } else {
        let b2 = b.drop_last();
        lemma_merge_has_key(a, b2, k);
        lemma_insert_lookup(env_merge_spec(a, b2), b.last().0, b.last().1, k);
        lemma_has_key_unpush(b, k);
    }
}

/// Law: merging environments is last-wins.  For every key, a lookup in the
/// merged mapping returns the `over` mapping's value when the key is there,
/// and otherwise the `under` mapping's value.
pub proof fn lemma_merge_last_wins(under: Seq<EnvEntry>, over: Seq<EnvEntry>, k: Seq<char>)
    requires
        env_wf(under),
        env_wf(over),
    ensures
        env_has_key(over, k) ==> env_lookup(env_merge_spec(under, over), k) == env_lookup(over, k),
        !env_has_key(over, k) ==> env_lookup(env_merge_spec(under, over), k) == env_lookup(
            under,
            k,
        ),
    decreases over.len(),
{
    if over.len() == 0 {
        assert(!env_has_key(over, k));
    } else {
        let b2 = over.drop_last();
        let bl = over.last();
        let m = env_merge_spec(under, b2);
        lemma_wf_drop_last(over);
        lemma_merge_last_wins(under, b2, k);
        lemma_insert_lookup(m, bl.0, bl.1, k);
        lemma_has_key_unpush(over, k);
        assert(over =~= b2.push(bl));
        lemma_lookup_push(b2, bl, k);
        if k == bl.0 {
            assert(over[over.len() - 1].0 == k);
            lemma_lookup_at(over, over.len() - 1, k);
        } else {
            if env_has_key(over, k) {
                assert(env_has_key(b2, k));
            }
        }
    }
}

proof fn lemma_insert_keys(m: Seq<EnvEntry>, k: Seq<char>, v: Seq<char>)
    ensures
        env_keys(env_insert_spec(m, k, v)) == (if env_has_key(m, k) {
            env_keys(m)
        } else {
            env_keys(m).push(k)
        }),
    decreases m.len(),
{
    let r = env_insert_spec(m, k, v);
    if m.len() == 0 {
        assert(!env_has_key(m, k));
        assert(env_keys(r) =~= env_keys(m).push(k));
    } else if m[0].0 == k {
        assert(env_has_key(m, k));
        assert(env_keys(r) =~= env_keys(m));
    } else {
        let m2 = m.drop_first();
        let ri = env_insert_spec(m2, k, v);
        assert(r =~= seq![m[0]] + ri);
        lemma_insert_keys(m2, k, v);
        lemma_has_key_shift(m, k);
        if env_has_key(m, k) {
            assert(env_has_key(m2, k));
            assert(env_keys(ri) == env_keys(m2));
            assert(env_keys(ri).len() == ri.len());
            assert(env_keys(m2).len() == m2.len());
            assert(ri.len() == m2.len());
            assert forall|i: int|
                0 <= i < env_keys(r).len() implies env_keys(r)[i] == env_keys(m)[i] by {
                if i > 0 {
                    assert(0 <= i - 1 < m2.len());
                    assert(r[i] == ri[i - 1]);
                    assert(env_keys(ri)[i - 1] == env_keys(m2)[i - 1]);
                    assert(env_keys(m2)[i - 1] == m2[i - 1].0);
                    assert(m2[i - 1] == m[i]);
                }
            }
            assert(env_keys(r) =~= env_keys(m));
        } else {
            assert(!env_has_key(m2, k));
            assert(env_keys(ri) == env_keys(m2).push(k));
            assert(env_keys(ri).len() == ri.len());
            assert(env_keys(m2).len() == m2.len());
            assert(ri.len() == m2.len() + 1);
            assert forall|i: int|
                0 <= i < env_keys(r).len() implies env_keys(r)[i] == env_keys(m).push(k)[i] by {
                if i > 0 {
                    assert(0 <= i - 1 < ri.len());
                    assert(r[i] == ri[i - 1]);
                    assert(env_keys(ri)[i - 1] == env_keys(m2).push(k)[i - 1]);
                    if i < m.len() {
                        assert(env_keys(m2).push(k)[i - 1] == env_keys(m2)[i - 1]);
                        assert(env_keys(m2)[i - 1] == m2[i - 1].0);
                        assert(m2[i - 1] == m[i]);
                    } else {
                        assert(env_keys(m2).push(k)[i - 1] == k);
                        assert(env_keys(m).push(k)[i] == k);
                    }
                }
            }
            assert(env_keys(r).len() == env_keys(m).push(k).len());
            assert(env_keys(r) =~= env_keys(m).push(k));
        }
    }
}

/// Law: merging environments is order-stable for display.  The merged
/// mapping lists the `under` keys first, in their order, followed by the
/// keys new in `over`, in `over`'s order; and it has no duplicate keys.
pub proof fn lemma_merge_order_stable(under: Seq<EnvEntry>, over: Seq<EnvEntry>)
    requires
        env_wf(under),
        env_wf(over),
    ensures
        env_keys(env_merge_spec(under, over)) == env_keys(under) + env_keys(
            env_fresh(under, over),
        ),
        env_wf(env_merge_spec(under, over)),
    decreases over.len(),
{
    if over.len() == 0 {
        assert(env_keys(env_merge_spec(under, over)) =~= env_keys(under) + env_keys(
            env_fresh(under, over),
        ));
    } else {
        let b2 = over.drop_last();
        let bl = over.last();
        let m = env_merge_spec(under, b2);
        lemma_wf_drop_last(over);
        lemma_merge_order_stable(under, b2);
        lemma_insert_keys(m, bl.0, bl.1);
        lemma_merge_has_key(under, b2, bl.0);
        lemma_insert_lookup(m, bl.0, bl.1, bl.0);
        if env_has_key(under, bl.0) {
            assert(env_fresh(under, over) == env_fresh(under, b2));
            assert(env_has_key(m, bl.0));
        } else {
            if env_has_key(b2, bl.0) {
                let i = choose|i: int| 0 <= i < b2.len() && b2[i].0 == bl.0;
                assert(over[i].0 == over[over.len() - 1].0);
                assert(false);
            }
            assert(!env_has_key(m, bl.0));
            assert(env_fresh(under, over) == env_fresh(under, b2).push(bl));
            assert(env_keys(env_fresh(under, b2).push(bl)) =~= env_keys(env_fresh(under, b2)).push(
                bl.0,
            ));
            assert(env_keys(m).push(bl.0) =~= env_keys(under) + env_keys(
                env_fresh(under, over),
            ));
        }
    }
}


/// How a task repeats: on a fixed interval, or restarted on watched
/// filesystem changes (debounced).  Times are in milliseconds.
pub enum Repeat {
    Periodic { interval_ms: u64 },
    Watch { debounce_ms: u64, dir: String },
}

/// Specification-level mirror of `Repeat`.
pub enum RepeatView {
    Periodic { interval_ms: int },
    Watch { debounce_ms: int, dir: Seq<char> },
}

impl View for Repeat {
    type V = RepeatView;

    open spec fn view(&self) -> RepeatView {
        match self {
            Repeat::Periodic { interval_ms } => RepeatView::Periodic {
                interval_ms: *interval_ms as int,
            },
            Repeat::Watch { debounce_ms, dir } => RepeatView::Watch {
                debounce_ms: *debounce_ms as int,
                dir: dir@,
            },
        }
    }
}

/// The view of an optional string.
pub open spec fn opt_str_view(o: Option<String>) -> Option<Seq<char>> {
    match o {
        Some(s) => Some(s@),
        None => None,
    }
}

/// The view of an optional repeat strategy.
pub open spec fn opt_repeat_view(o: Option<Repeat>) -> Option<RepeatView> {
    match o {
        Some(r) => Some(r@),
        None => None,
    }
}

/// Specification-level mirror of `Cmd`.
pub struct CmdView {
    pub run: Seq<Seq<char>>,
    pub args: Seq<Seq<char>>,
    pub env: Seq<EnvEntry>,
    pub working_dir: Option<Seq<char>>,
    pub repeat: Option<RepeatView>,
    pub executable: Seq<char>,
    pub description: Option<Seq<char>>,
}

/// Whether the task is in composable ("smart") mode: its configured
/// interpreter is the reserved sentinel name.
pub open spec fn smart_spec(c: CmdView) -> bool {
    c.executable == "bash-smart"@
}

/// The interpreter actually used to run the task: the real shell for a
/// smart task, the configured interpreter otherwise.
pub open spec fn executable_spec(c: CmdView) -> Seq<char> {
    if smart_spec(c) {
        "bash"@
    } else {
        c.executable
    }
}

/// The derived one-line summary of a task body: the first line, cut at the
/// first newline, marked with an ellipsis when more follows, and shortened
/// when over forty characters.
pub open spec fn first_line_spec(run: Seq<Seq<char>>) -> Seq<char> {
    if run.len() == 0 {
        Seq::empty()
    } else {
        let f = run[0];
        let cut = f.subrange(0, find_char(f, '\n'));
        if run.len() > 1 || find_char(f, '\n') < f.len() {
            trim_back_spec(cut) + "\u{2026}"@
        } else if cut.len() > 40 {
            trim_back_spec(cut.subrange(0, 39)) + "\u{2026}"@
        } else {
            cut
        }
    }
}

/// The displayed description: the configured override, or the derived
/// one-line summary of the body.
pub open spec fn description_spec(c: CmdView) -> Seq<char> {
    match c.description {
        Some(d) => d,
        None => first_line_spec(c.run),
    }
}

/// The parenthesised summary of a task: its interpreter (when not smart)
/// and its line count.
pub open spec fn summary_spec(c: CmdView) -> Seq<char> {
    let ex = if smart_spec(c) {
        Seq::<char>::empty()
    } else {
        executable_spec(c) + ", "@
    };
    let lines = if c.run.len() == 1 {
        "1 line"@
    } else {
        dec_str(c.run.len()) + " lines"@
    };
    "("@ + ex + lines + ")"@
}

/// One named, runnable task: script lines plus metadata.
pub struct Cmd {
    pub run: Vec<String>,
    pub args: Vec<String>,
    pub env: EnvMap,
    pub working_dir: Option<String>,
    pub repeat: Option<Repeat>,
    pub executable: String,
    pub description: Option<String>,
}

impl View for Cmd {
    type V = CmdView;

    open spec fn view(&self) -> CmdView {
        CmdView {
            run: self.run.deep_view(),
            args: self.args.deep_view(),
            env: self.env@,
            working_dir: opt_str_view(self.working_dir),
            repeat: opt_repeat_view(self.repeat),
            executable: self.executable@,
            description: opt_str_view(self.description),
        }
    }
}

impl Cmd {
    /// Whether the task's environment keys are pairwise distinct.
    pub open spec fn wf(&self) -> bool {
        env_wf(self@.env)
    }

    /// Builds a task from its parts.
    pub fn new(
        run: Vec<String>,
        args: Vec<String>,
        env: EnvMap,
        working_dir: Option<String>,
        repeat: Option<Repeat>,
        executable: String,
        description: Option<String>,
    ) -> (r: Cmd)
        ensures
            r@ == (CmdView {
                run: run.deep_view(),
                args: args.deep_view(),
                env: env@,
                working_dir: opt_str_view(working_dir),
                repeat: opt_repeat_view(repeat),
                executable: executable@,
                description: opt_str_view(description),
            }),
    {
        Cmd { run, args, env, working_dir, repeat, executable, description }
    }

    /// Whether the task is in composable ("smart") mode.
    pub fn smart(&self) -> (r: bool)
        ensures
            r == smart_spec(self@),
    {
        let sentinel: String = "bash-smart".to_owned();
        self.executable == sentinel
    }

    /// The interpreter actually used to run the task.
    pub fn executable(&self) -> (r: String)
        ensures
            r@ == executable_spec(self@),
    {
        if self.smart() {
            "bash".to_owned()
        } else {
            self.executable.clone()
        }
    }

    fn first_line(&self) -> (r: String)
        ensures
            r@ == first_line_spec(self@.run),
    {
        if self.run.len() == 0 {
            return String::new();
        }
        let f = &self.run[0];
        let n = f.as_str().unicode_len();
        let idx = crate::text::find(f.as_str(), '\n');
        proof {
            assert(self@.run[0] == f@);
        }
        let cut = f.as_str().substring_char(0, idx);
        if self.run.len() > 1 || idx < n {
            let mut t = crate::text::trim_end(cut);
            t.append("\u{2026}");
            t
        } else if n > 40 {
            let short = f.as_str().substring_char(0, 39);
            proof {
                assert(short@ =~= f@.subrange(0, find_char(f@, '\n')).subrange(0, 39));
            }
            let mut t = crate::text::trim_end(short);
            t.append("\u{2026}");
            t
        } else {
            proof {
                assert(cut@ =~= f@);
            }
            cut.to_owned()
        }
    }

    /// The displayed description of the task.
    pub fn description(&self) -> (r: String)
        ensures
            r@ == description_spec(self@),
    {
        match &self.description {
            Some(d) => d.clone(),
            None => self.first_line(),
        }
    }

    /// The parenthesised summary of the task: interpreter and line count.
    pub fn summary(&self) -> (r: String)
        ensures
            r@ == summary_spec(self@),
    {
        let mut s: String = "(".to_owned();
        if !self.smart() {
            let ex = self.executable();
            s.append(ex.as_str());
            s.append(", ");
        }
        if self.run.len() == 1 {
            s.append("1 line");
        } else {
            let count = u64_to_string(self.run.len() as u64);
            s.append(count.as_str());
            s.append(" lines");
        }
        s.append(")");
        proof {
            assert(s@ =~= summary_spec(self@));
        }
        s
    }
}

/// One config entry at the specification level: task name and task.
pub type CmdEntry = (Seq<char>, CmdView);

/// The task stored under `name` (the first match, which under distinct
/// keys is the only one).
pub open spec fn cmd_lookup(cmds: Seq<CmdEntry>, name: Seq<char>) -> Option<CmdView>
    decreases cmds.len(),
{
    if cmds.len() == 0 {
        None
    } else if cmds[0].0 == name {
        Some(cmds[0].1)
    } else {
        cmd_lookup(cmds.drop_first(), name)
    }
}

/// The task names, in display order.
pub open spec fn cmd_keys(cmds: Seq<CmdEntry>) -> Seq<Seq<char>> {
    cmds.map_values(|p: CmdEntry| p.0)
}

/// Specification-level mirror of `FileConfig`.
pub struct ConfigView {
    pub env: Seq<EnvEntry>,
    pub commands: Seq<CmdEntry>,
}

/// The parsed config file: global environment plus the ordered mapping of
/// task name to task.
pub struct FileConfig {
    pub env: EnvMap,
    pub commands: Vec<(String, Cmd)>,
}

impl View for FileConfig {
    type V = ConfigView;

    open spec fn view(&self) -> ConfigView {
        ConfigView {
            env: self.env@,
            commands: Seq::new(
                self.commands@.len(),
                |i: int| (self.commands@[i].0@, self.commands@[i].1@),
            ),
        }
    }
}

impl FileConfig {
    /// Whether the task names and the environment keys are pairwise
    /// distinct, and every task is well formed.
    pub open spec fn wf(&self) -> bool {
        &&& env_wf(self@.env)
        &&& forall|i: int, j: int|
            #![trigger self@.commands[i].0, self@.commands[j].0]
            0 <= i < j < self@.commands.len() ==> self@.commands[i].0 != self@.commands[j].0
        &&& forall|i: int|
            0 <= i < self@.commands.len() ==> env_wf(#[trigger] self@.commands[i].1.env)
    }

    /// A config with the given global environment and no tasks yet.
    pub fn new(env: EnvMap) -> (r: FileConfig)
        requires
            env.wf(),
        ensures
            r@.env == env@,
            r@.commands =~= Seq::<CmdEntry>::empty(),
            r.wf(),
    {
        FileConfig { env, commands: Vec::new() }
    }

    /// Adds a task under a fresh name: returns false and leaves the config
    /// unchanged when the name is already taken or the task is not well
    /// formed.
    pub fn add_command(&mut self, name: String, cmd: Cmd) -> (r: bool)
        requires
            old(self).wf(),
        ensures
            final(self).wf(),
            r == (cmd_lookup(old(self)@.commands, name@) is None && env_wf(cmd@.env)),
            r ==> final(self)@.commands == old(self)@.commands.push((name@, cmd@)),
            r ==> final(self)@.env == old(self)@.env,
            !r ==> *final(self) == *old(self),
    {
        let taken = match self.get(&name) {
            Some(_) => true,
            None => false,
        };
        if taken {
            return false;
        }
        let env_ok = cmd.env_is_wf();
        if !env_ok {
            return false;
        }
        self.commands.push((name, cmd));
        proof {
            assert(self@.commands =~= old(self)@.commands.push((name@, cmd@)));
            lemma_cmd_lookup_none(old(self)@.commands, name@);
            let cs = self@.commands;
            let os = old(self)@.commands;
            assert forall|x: int, y: int|
                #![trigger cs[x].0, cs[y].0]
                0 <= x < y < cs.len() implies cs[x].0 != cs[y].0 by {
                if y < os.len() {
                    assert(os[x].0 != os[y].0);
                } else {
                    assert(os[x].0 != name@);
                }
            }
            assert forall|x: int| 0 <= x < cs.len() implies env_wf(#[trigger] cs[x].1.env) by {
                if x < os.len() {
                    assert(env_wf(os[x].1.env));
                }
            }
        }
        true
    }

    /// The task stored under `name`, if any.
    pub fn get(&self, name: &String) -> (r: Option<&Cmd>)
        ensures
            match r {
                Some(c) => cmd_lookup(self@.commands, name@) == Some(c@),
                None => cmd_lookup(self@.commands, name@) is None,
            },
    {
        let n = self.commands.len();
        let mut i: usize = 0;
        proof {
            assert(self@.commands.skip(0) =~= self@.commands);
        }
        while i < n
            invariant
                i <= n,
                n == self@.commands.len(),
                cmd_lookup(self@.commands, name@) == cmd_lookup(
                    self@.commands.skip(i as int),
                    name@,
                ),
            decreases n - i,
        {
            proof {
                assert(self@.commands.skip(i as int)[0] == self@.commands[i as int]);
                assert(self@.commands.skip(i as int).drop_first() =~= self@.commands.skip(i + 1));
            }
            if self.commands[i].0 == *name {
                return Some(&self.commands[i].1);
            }
            i = i + 1;
        }
        proof {
            assert(self@.commands.skip(n as int) =~= Seq::<CmdEntry>::empty());
        }
        None
    }

    /// The task names, in display order.
    pub fn keys(&self) -> (r: Vec<String>)
        ensures
            r.deep_view() == cmd_keys(self@.commands),
    {
        let n = self.commands.len();
        let mut out: Vec<String> = Vec::new();
        let mut i: usize = 0;
        while i < n
            invariant
                i <= n,
                n == self@.commands.len(),
                out@.len() == i,
                forall|j: int| 0 <= j < i ==> out@[j]@ == self@.commands[j].0,
            decreases n - i,
        {
            out.push(self.commands[i].0.clone());
            i = i + 1;
        }
        proof {
            assert(out.deep_view() =~= cmd_keys(self@.commands));
        }
        out
    }
}

impl Cmd {
    /// Whether the task's environment keys are pairwise distinct, as an
    /// executable check.
    pub fn env_is_wf(&self) -> (r: bool)
        ensures
            r == env_wf(self@.env),
    {
        self.env.is_wf()
    }
}

proof fn lemma_cmd_lookup_none(cmds: Seq<CmdEntry>, name: Seq<char>)
    requires
        cmd_lookup(cmds, name) is None,
    ensures
        forall|i: int| 0 <= i < cmds.len() ==> cmds[i].0 != name,
    decreases cmds.len(),
{
    if cmds.len() > 0 {
        lemma_cmd_lookup_none(cmds.drop_first(), name);
        assert forall|i: int| 0 <= i < cmds.len() implies cmds[i].0 != name by {
            if i > 0 {
                assert(cmds.drop_first()[i - 1].0 != name);
            }
        }
    }
}

} // verus!
