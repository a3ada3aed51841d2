//! The session parameters that the server reports: one value per name, the
//! last one reported.
use vstd::prelude::*;

verus! {

pub type Pairs = Seq<(Seq<char>, Seq<char>)>;

/// The mapping that a list of reports describes: a later report of a name
/// overrides an earlier one.
pub open spec fn pairs_map(s: Pairs) -> Map<Seq<char>, Seq<char>>
    decreases s.len(),
{
    if s.len() == 0 {
        Map::empty()
    } else {
        pairs_map(s.drop_last()).insert(s.last().0, s.last().1)
    }
}

/// No name occurs twice in the list.
pub open spec fn unique_names(s: Pairs) -> bool
    decreases s.len(),
{
    s.len() == 0 || (unique_names(s.drop_last()) && !pairs_map(s.drop_last()).dom().contains(s.last().0))
}

/// The list without the entries of one name.
pub open spec fn without_name(s: Pairs, k: Seq<char>) -> Pairs
    decreases s.len(),
{
    if s.len() == 0 {
        s
    } else if s.last().0 == k {
        without_name(s.drop_last(), k)
    } else {
        without_name(s.drop_last(), k).push(s.last())
    }
}

pub proof fn lemma_without_name(s: Pairs, k: Seq<char>)
    ensures
        pairs_map(without_name(s, k)) == pairs_map(s).remove(k),
        unique_names(s) ==> unique_names(without_name(s, k)),
    decreases s.len(),
{
    if s.len() > 0 {
        let d = s.drop_last();
        lemma_without_name(d, k);
        let w = without_name(d, k);
        if s.last().0 == k {
            assert(pairs_map(s).remove(k) =~= pairs_map(d).remove(k));
        } else {
            assert(w.push(s.last()).drop_last() =~= w);
            assert(pairs_map(w.push(s.last())) =~= pairs_map(s).remove(k));
        }
    }
}

pub open spec fn pairs_view(v: Seq<(String, String)>) -> Pairs {
    v.map_values(|p: (String, String)| (p.0@, p.1@))
}

/// The reported parameters, in a list without repeated names.
pub struct SessionParameters {
    entries: Vec<(String, String)>,
}

impl SessionParameters {
    #[verifier::type_invariant]
    spec fn names_unique(&self) -> bool {
        unique_names(pairs_view(self.entries@))
    }

    /// Each reported name with its last reported value.
    pub closed spec fn map(&self) -> Map<Seq<char>, Seq<char>> {
        pairs_map(pairs_view(self.entries@))
    }

    pub fn new() -> (r: SessionParameters)
        ensures
            r.map() == Map::<Seq<char>, Seq<char>>::empty(),
    {
        let r = SessionParameters { entries: Vec::new() };
        assert(pairs_view(r.entries@) =~= Seq::<(Seq<char>, Seq<char>)>::empty());
        r
    }

    /// Records a report; it replaces an earlier value of the same name.
    pub fn insert(&mut self, name: String, value: String)
        ensures
            final(self).map() == old(self).map().insert(name@, value@),
    {
        proof {
            use_type_invariant(&*self);
        }
        let ghost all = pairs_view(self.entries@);
        let mut kept: Vec<(String, String)> = Vec::new();
        let mut i: usize = 0;
        let n = self.entries.len();
        proof {
            assert(all.subrange(0, 0) =~= Seq::<(Seq<char>, Seq<char>)>::empty());
            assert(pairs_view(kept@) =~= Seq::<(Seq<char>, Seq<char>)>::empty());
        }
        while i < n
            invariant
                i <= n,
                n == self.entries@.len(),
                all == pairs_view(self.entries@),
                pairs_view(kept@) == without_name(all.subrange(0, i as int), name@),
            decreases n - i,
        {
            let ghost pre = all.subrange(0, i + 1);
            proof {
                assert(pre.drop_last() =~= all.subrange(0, i as int));
            }
            if self.entries[i].0 != name {
                let entry = (self.entries[i].0.clone(), self.entries[i].1.clone());
                let ghost before = kept@;
                kept.push(entry);
                assert(pairs_view(kept@) =~= pairs_view(before).push(pre.last()));
            }
            i = i + 1;
        }
        proof {
            assert(all.subrange(0, n as int) =~= all);
            lemma_without_name(all, name@);
        }
        let ghost w = pairs_view(kept@);
        kept.push((name, value));
        proof {
            assert(pairs_view(kept@) =~= w.push((name@, value@)));
            assert(pairs_view(kept@).drop_last() =~= w);
            assert(pairs_map(pairs_view(kept@)) =~= pairs_map(all).insert(name@, value@));
        }
        self.entries = kept;
    }

    /// The parameters as a list: no name occurs twice, and the list describes
    /// exactly the mapping.
    pub fn entries(&self) -> (r: &Vec<(String, String)>)
        ensures
            unique_names(pairs_view(r@)),
            pairs_map(pairs_view(r@)) == self.map(),
    {
        proof {
            use_type_invariant(self);
        }
        &self.entries
    }
}

} // verus!
