use crate::geometry::Loc;
use vstd::prelude::*;

verus! {

/// The mapping that a list of entries describes when they are entered in
/// order, a later entry for a key replacing an earlier one.
pub open spec fn map_of<V>(s: Seq<(Loc, V)>) -> Map<Loc, V>
    decreases s.len(),
{
    if s.len() == 0 {
        Map::empty()
    } else {
        map_of(s.drop_last()).insert(s.last().0, s.last().1)
    }
}

/// No two entries share a key.
pub open spec fn keys_unique<V>(s: Seq<(Loc, V)>) -> bool {
    forall|i: int, j: int| 0 <= i < s.len() && 0 <= j < s.len() && i != j ==> s[i].0 != s[j].0
}

proof fn lemma_map_of_dom<V>(s: Seq<(Loc, V)>)
    ensures
        map_of(s).dom().finite(),
        forall|k: Loc| #[trigger]
            map_of(s).dom().contains(k) <==> exists|i: int| 0 <= i < s.len() && s[i].0 == k,
    decreases s.len(),
{
    if s.len() > 0 {
        let p = s.drop_last();
        lemma_map_of_dom(p);
        assert forall|k: Loc| #[trigger]
            map_of(s).dom().contains(k) <==> exists|i: int| 0 <= i < s.len() && s[i].0 == k by {
            if map_of(s).dom().contains(k) && k != s.last().0 {
                let i = choose|i: int| 0 <= i < p.len() && p[i].0 == k;
                assert(s[i].0 == k);
            }
            if exists|i: int| 0 <= i < s.len() && s[i].0 == k {
                let i = choose|i: int| 0 <= i < s.len() && s[i].0 == k;
                if i < p.len() {
                    assert(p[i].0 == k);
                }
            }
        }
    }
}

proof fn lemma_map_of_value<V>(s: Seq<(Loc, V)>, j: int)
    requires
        keys_unique(s),
        0 <= j < s.len(),
    ensures
        map_of(s).dom().contains(s[j].0),
        map_of(s)[s[j].0] == s[j].1,
    decreases s.len(),
{
    let p = s.drop_last();
    if j < s.len() - 1 {
        assert(p[j] == s[j]);
        lemma_map_of_value(p, j);
    }
}

proof fn lemma_map_of_len<V>(s: Seq<(Loc, V)>)
    requires
        keys_unique(s),
    ensures
        map_of(s).len() == s.len(),
    decreases s.len(),
{
    if s.len() > 0 {
        let p = s.drop_last();
        assert(keys_unique(p));
        lemma_map_of_len(p);
        lemma_map_of_dom(p);
        if map_of(p).dom().contains(s.last().0) {
            let i = choose|i: int| 0 <= i < p.len() && p[i].0 == s.last().0;
            assert(s[i].0 == s[s.len() - 1].0);
        }
    }
}

proof fn lemma_map_of_update<V>(s: Seq<(Loc, V)>, j: int, v: V)
    requires
        keys_unique(s),
        0 <= j < s.len(),
    ensures
        map_of(s.update(j, (s[j].0, v))) == map_of(s).insert(s[j].0, v),
    decreases s.len(),
{
    let k = s[j].0;
    let t = s.update(j, (k, v));
    let p = s.drop_last();
    if j == s.len() - 1 {
        assert(t.drop_last() =~= p);
        assert(map_of(t) =~= map_of(s).insert(k, v));
    } else {
        assert(t.drop_last() =~= p.update(j, (k, v)));
        assert(p[j] == s[j]);
        lemma_map_of_update(p, j, v);
        assert(s.last().0 != k);
        assert(map_of(t) =~= map_of(s).insert(k, v));
    }
}

/// A finite mapping from locations to values, kept as a list of entries
/// with distinct keys.
#[derive(Debug)]
pub struct LocMap<V> {
    entries: Vec<(Loc, V)>,
}

impl<V> View for LocMap<V> {
    type V = Map<Loc, V>;

    closed spec fn view(&self) -> Map<Loc, V> {
        map_of(self.entries@)
    }
}

impl<V> LocMap<V> {
    #[verifier::type_invariant]
    closed spec fn inv(self) -> bool {
        keys_unique(self.entries@)
    }
}

impl<V: Copy> LocMap<V> {
    /// Every mapping of this kind has finitely many keys.
    pub proof fn lemma_finite(&self)
        ensures
            self@.dom().finite(),
    {
        lemma_map_of_dom(self.entries@);
    }

    /// The empty mapping.
    pub fn new() -> (r: LocMap<V>)
        ensures
            r@ == Map::<Loc, V>::empty(),
    {
        LocMap { entries: Vec::new() }
    }

    /// Index of the entry for `k`, if there is one.
    fn find(&self, k: &Loc) -> (r: Option<usize>)
        ensures
            match r {
                Some(i) => i < self.entries@.len() && self.entries@[i as int].0 == *k,
                None => !self@.dom().contains(*k),
            },
    {
        proof {
            lemma_map_of_dom(self.entries@);
        }
        let mut i: usize = 0;
        while i < self.entries.len()
            invariant
                0 <= i <= self.entries@.len(),
                forall|j: int| 0 <= j < i ==> self.entries@[j].0 != *k,
            decreases self.entries@.len() - i,
        {
            if self.entries[i].0 == *k {
                return Some(i);
            }
            i = i + 1;
        }
        None
    }

    /// The value stored for `k`.
    pub fn get(&self, k: &Loc) -> (r: Option<V>)
        ensures
            r == self@.get(*k),
    {
        proof {
            use_type_invariant(self);
        }
        match self.find(k) {
            Some(i) => {
                proof {
                    lemma_map_of_value(self.entries@, i as int);
                }
                Some(self.entries[i].1)
            },
            None => None,
        }
    }

    /// Stores `v` for `k`, replacing any value stored for it before.
    pub fn insert(&mut self, k: Loc, v: V)
        ensures
            final(self)@ == old(self)@.insert(k, v),
    {
        proof {
            use_type_invariant(&*self);
        }
        let found = self.find(&k);
        let mut e: Vec<(Loc, V)> = Vec::new();
        core::mem::swap(&mut self.entries, &mut e);
        match found {
            Some(i) => {
                proof {
                    lemma_map_of_update(e@, i as int, v);
                }
                e.set(i, (k, v));
            },
            None => {
                proof {
                    lemma_map_of_dom(e@);
                    assert(e@.push((k, v)).drop_last() =~= e@);
                }
                e.push((k, v));
            },
        }
        *self = LocMap { entries: e };
    }

    /// Number of keys.
    pub fn len(&self) -> (r: usize)
        ensures
            r == self@.len(),
    {
        proof {
            use_type_invariant(self);
            lemma_map_of_len(self.entries@);
        }
        self.entries.len()
    }

    /// The entries, each key once, in the order they were first stored.
    pub fn entries(&self) -> (r: &[(Loc, V)])
        ensures
            keys_unique(r@),
            map_of(r@) == self@,
    {
        proof {
            use_type_invariant(self);
        }
        self.entries.as_slice()
    }
}

} // verus!
