//! A string-keyed map with unique keys, used both for query parameters and for
//! form-like request bodies. A later insert with an existing key replaces the
//! old value (last write wins); the order of first insertion is kept.

use vstd::prelude::*;

verus! {

/// The views of a sequence of owned string pairs.
pub open spec fn pair_views(s: Seq<(String, String)>) -> Seq<(Seq<char>, Seq<char>)> {
    s.map_values(|p: (String, String)| (p.0@, p.1@))
}

/// No two pairs share a key.
pub open spec fn keys_unique(s: Seq<(Seq<char>, Seq<char>)>) -> bool {
    forall|i: int, j: int| 0 <= i < j < s.len() ==> (#[trigger] s[i]).0 != (#[trigger] s[j]).0
}

/// The map that a sequence of pairs denotes, later pairs winning on a
/// repeated key.
pub open spec fn map_of(s: Seq<(Seq<char>, Seq<char>)>) -> Map<Seq<char>, Seq<char>>
    decreases s.len(),
{
    if s.len() == 0 {
        Map::empty()
    } else {
        map_of(s.drop_last()).insert(s.last().0, s.last().1)
    }
}

/// Some pair of `s` has key `k`.
pub open spec fn seq_has_key(s: Seq<(Seq<char>, Seq<char>)>, k: Seq<char>) -> bool {
    exists|i: int| 0 <= i < s.len() && (#[trigger] s[i]).0 == k
}

pub proof fn lemma_map_of_dom(s: Seq<(Seq<char>, Seq<char>)>)
    ensures
        map_of(s).dom().finite(),
        forall|k: Seq<char>| #[trigger] map_of(s).dom().contains(k) <==> seq_has_key(s, k),
        keys_unique(s) ==> map_of(s).dom().len() == s.len(),
    decreases s.len(),
{
    if s.len() == 0 {
    } else {
        let b = s.drop_last();
        lemma_map_of_dom(b);
        assert forall|k: Seq<char>| #[trigger] map_of(s).dom().contains(k) implies seq_has_key(
            s,
            k,
        ) by {
            if k == s.last().0 {
                assert((#[trigger] s[s.len() - 1]).0 == k);
            } else {
                let i = choose|i: int| 0 <= i < b.len() && (#[trigger] b[i]).0 == k;
                assert(s[i].0 == k);
            }
        }
        assert forall|k: Seq<char>| seq_has_key(s, k) implies map_of(s).dom().contains(k) by {
            let i = choose|i: int| 0 <= i < s.len() && (#[trigger] s[i]).0 == k;
            if i < s.len() - 1 {
                assert(b[i].0 == k);
                assert(seq_has_key(b, k));
            }
        }
        if keys_unique(s) {
            assert(keys_unique(b));
            assert(!seq_has_key(b, s.last().0)) by {
                if seq_has_key(b, s.last().0) {
                    let i = choose|i: int|
                        0 <= i < b.len() && (#[trigger] b[i]).0 == s.last().0;
                    assert(s[i].0 == s[s.len() - 1].0);
                }
            }
            assert(!map_of(b).dom().contains(s.last().0));
            assert(map_of(s).dom() =~= map_of(b).dom().insert(s.last().0));
            vstd::set::axiom_set_insert_len(map_of(b).dom(), s.last().0);
        }
    }
}

/// Replacing the value at position `i` (key kept) turns the denoted map into
/// an insert of the new value for that key.
pub proof fn lemma_map_of_update(s: Seq<(Seq<char>, Seq<char>)>, i: int, v: Seq<char>)
    requires
        keys_unique(s),
        0 <= i < s.len(),
    ensures
        map_of(s.update(i, (s[i].0, v))) == map_of(s).insert(s[i].0, v),
    decreases s.len(),
{
    let t = s.update(i, (s[i].0, v));
    if i == s.len() - 1 {
        assert(t.drop_last() =~= s.drop_last());
        assert(map_of(t) =~= map_of(s).insert(s[i].0, v));
    } else {
        let b = s.drop_last();
        assert(keys_unique(b));
        assert(t.drop_last() =~= b.update(i, (b[i].0, v)));
        lemma_map_of_update(b, i, v);
        assert(s[i].0 != s.last().0);
        assert(map_of(t) =~= map_of(s).insert(s[i].0, v));
    }
}

/// A string-keyed map with unique keys; a later insert with an existing key
/// replaces the value in place.
pub struct StrMap {
    /// The entries, in order of first insertion. Well-formed values keep the
    /// keys pairwise distinct; see [`StrMap::wf`].
    pub pairs: Vec<(String, String)>,
}

impl StrMap {
    /// The entry sequence, as character sequences.
    pub open spec fn pairs_view(self) -> Seq<(Seq<char>, Seq<char>)> {
        pair_views(self.pairs@)
    }

    /// Well-formedness: keys are pairwise distinct.
    pub open spec fn wf(self) -> bool {
        keys_unique(self.pairs_view())
    }

    /// An empty map.
    pub fn new() -> (r: StrMap)
        ensures
            r.wf(),
            r@ == Map::<Seq<char>, Seq<char>>::empty(),
            r.pairs_view() == Seq::<(Seq<char>, Seq<char>)>::empty(),
    {
        let r = StrMap { pairs: Vec::new() };
        proof {
            assert(r.pairs_view() =~= Seq::<(Seq<char>, Seq<char>)>::empty());
        }
        r
    }

    /// Number of entries, which for a well-formed map is the size of its
    /// key set.
    pub fn len(&self) -> (n: usize)
        ensures
            n == self.pairs_view().len(),
            self.wf() ==> n == self@.dom().len(),
    {
        proof {
            lemma_map_of_dom(self.pairs_view());
        }
        self.pairs.len()
    }

    /// Whether the map has no entries.
    pub fn is_empty(&self) -> (r: bool)
        ensures
            r <==> self@ == Map::<Seq<char>, Seq<char>>::empty(),
    {
        proof {
            lemma_map_of_dom(self.pairs_view());
            if self.pairs_view().len() == 0 {
                assert(self@ =~= Map::<Seq<char>, Seq<char>>::empty());
            } else {
                assert((#[trigger] self.pairs_view()[0]).0 == self.pairs_view()[0].0);
                assert(seq_has_key(self.pairs_view(), self.pairs_view()[0].0));
                assert(self@.dom().contains(self.pairs_view()[0].0));
            }
        }
        self.pairs.len() == 0
    }

    /// Insert a pair; an existing entry with the same key is overwritten
    /// (last write wins).
    pub fn insert(&mut self, k: String, v: String)
        requires
            old(self).wf(),
        ensures
            final(self).wf(),
            final(self)@ == old(self)@.insert(k@, v@),
            !seq_has_key(old(self).pairs_view(), k@) ==> final(self).pairs_view() == old(
                self,
            ).pairs_view().push((k@, v@)),
            seq_has_key(old(self).pairs_view(), k@) ==> exists|i: int|
                0 <= i < old(self).pairs_view().len() && (#[trigger] old(self).pairs_view()[i]).0
                    == k@ && final(self).pairs_view() == old(self).pairs_view().update(
                    i,
                    (k@, v@),
                ),
    {
        let n = self.pairs.len();
        let mut i: usize = 0;
        while i < n
            invariant
                0 <= i <= n,
                n == self.pairs.len(),
                old(self).wf(),
                *self == *old(self),
                forall|j: int| 0 <= j < i ==> (#[trigger] self.pairs_view()[j]).0 != k@,
            decreases n - i,
        {
            if self.pairs[i].0 == k {
                proof {
                    lemma_map_of_update(self.pairs_view(), i as int, v@);
                }
                self.pairs.set(i, (k, v));
                proof {
                    let pv_old = old(self).pairs_view();
                    let pv = self.pairs_view();
                    assert(pv =~= pv_old.update(i as int, (pv_old[i as int].0, v@)));
                    assert forall|a: int, b: int| 0 <= a < b < pv.len() implies (
                    #[trigger] pv[a]).0 != (#[trigger] pv[b]).0 by {
                        assert(pv[a].0 == pv_old[a].0);
                        assert(pv[b].0 == pv_old[b].0);
                    }
                }
                return ;
            }
            i += 1;
        }
        self.pairs.push((k, v));
        proof {
            let pv = self.pairs_view();
            assert(pv =~= old(self).pairs_view().push((k@, v@)));
            assert(pv.drop_last() =~= old(self).pairs_view());
            if seq_has_key(old(self).pairs_view(), k@) {
                let j = choose|j: int|
                    0 <= j < old(self).pairs_view().len() && (#[trigger] old(
                        self,
                    ).pairs_view()[j]).0 == k@;
                assert(false);
            }
        }
    }

    /// Decides well-formedness: whether the keys are pairwise distinct.
    pub fn keys_are_unique(&self) -> (r: bool)
        ensures
            r == self.wf(),
    {
        let n = self.pairs.len();
        let mut i: usize = 0;
        while i < n
            invariant
                0 <= i <= n,
                n == self.pairs.len(),
                forall|a: int, b: int|
                    0 <= a < b < n && a < i ==> (#[trigger] self.pairs_view()[a]).0 != (
                    #[trigger] self.pairs_view()[b]).0,
            decreases n - i,
        {
            let mut j: usize = i + 1;
            while j < n
                invariant
                    i < j <= n,
                    i < n,
                    n == self.pairs.len(),
                    forall|b: int|
                        i < b < j ==> (#[trigger] self.pairs_view()[b]).0
                            != self.pairs_view()[i as int].0,
                decreases n - j,
            {
                if self.pairs[i].0 == self.pairs[j].0 {
                    proof {
                        assert((#[trigger] self.pairs_view()[i as int]).0 == (
                        #[trigger] self.pairs_view()[j as int]).0);
                    }
                    return false;
                }
                j += 1;
            }
            i += 1;
        }
        true
    }

    /// Look a key up.
    pub fn get(&self, k: &String) -> (r: Option<&String>)
        requires
            self.wf(),
        ensures
            match r {
                Some(v) => self@.dom().contains(k@) && self@[k@] == v@,
                None => !self@.dom().contains(k@),
            },
    {
        proof {
            lemma_map_of_dom(self.pairs_view());
        }
        let n = self.pairs.len();
        let mut i: usize = 0;
        while i < n
            invariant
                0 <= i <= n,
                n == self.pairs.len(),
                self.wf(),
                forall|j: int| 0 <= j < i ==> (#[trigger] self.pairs_view()[j]).0 != k@,
            decreases n - i,
        {
            if self.pairs[i].0 == *k {
                proof {
                    lemma_map_of_index(self.pairs_view(), i as int);
                }
                return Some(&self.pairs[i].1);
            }
            i += 1;
        }
        proof {
            if self@.dom().contains(k@) {
                let j = choose|j: int|
                    0 <= j < self.pairs_view().len() && (#[trigger] self.pairs_view()[j]).0 == k@;
                assert(false);
            }
        }
        None
    }
}

/// For a well-formed pair sequence, the denoted map sends each key to the
/// value beside it.
pub proof fn lemma_map_of_index(s: Seq<(Seq<char>, Seq<char>)>, i: int)
    requires
        keys_unique(s),
        0 <= i < s.len(),
    ensures
        map_of(s).dom().contains(s[i].0),
        map_of(s)[s[i].0] == s[i].1,
    decreases s.len(),
{
    if i == s.len() - 1 {
    } else {
        let b = s.drop_last();
        assert(keys_unique(b));
        assert(b[i] == s[i]);
        lemma_map_of_index(b, i);
        assert(s[i].0 != s.last().0);
    }
}

impl View for StrMap {
    type V = Map<Seq<char>, Seq<char>>;

    open spec fn view(&self) -> Map<Seq<char>, Seq<char>> {
        map_of(self.pairs_view())
    }
}

} // verus!
