use vstd::prelude::*;

verus! {

/// The mathematical content of a list of assignment entries: entries
/// are folded into a map from left to right, so a later entry for the
/// same atom identifier overwrites an earlier one.
pub open spec fn map_of_entries(s: Seq<(char, char)>) -> Map<char, char>
    decreases s.len(),
{
    if s.len() == 0 {
        Map::empty()
    } else {
        map_of_entries(s.drop_last()).insert(s.last().0, s.last().1)
    }
}

/// The mapping from atom identifiers to truth tokens for one
/// evaluation.  Built once from the assignment list, then only read;
/// its view is the `Map<char, char>` that last-write-wins insertion
/// produces.
pub struct AtomMap {
    entries: Vec<(char, char)>,
}

impl AtomMap {
    pub closed spec fn view(&self) -> Map<char, char> {
        map_of_entries(self.entries@)
    }

    /// An empty mapping: no atom identifier is bound.
    pub fn new() -> (m: AtomMap)
        ensures
            m@ == Map::<char, char>::empty(),
    {
        AtomMap { entries: Vec::new() }
    }

    /// Binds `name` to `value`, overwriting any earlier binding of
    /// `name`.
    pub fn insert(&mut self, name: char, value: char)
        ensures
            final(self)@ == old(self)@.insert(name, value),
    {
        self.entries.push((name, value));
        proof {
            assert(self.entries@.drop_last() =~= old(self).entries@);
        }
    }

    /// Looks `name` up: the token of its latest binding, or `None`
    /// where no entry ever bound it.
    pub fn get(&self, name: char) -> (r: Option<char>)
        ensures
            r == (if self@.contains_key(name) {
                Some(self@[name])
            } else {
                None::<char>
            }),
    {
        let ghost full = self.entries@;
        let mut found: Option<char> = None;
        let mut i: usize = 0;
        proof {
            assert(full.take(0) =~= Seq::<(char, char)>::empty());
        }
        while i < self.entries.len()
            invariant
                i <= self.entries@.len(),
                full == self.entries@,
                found == (if map_of_entries(full.take(i as int)).contains_key(name) {
                    Some(map_of_entries(full.take(i as int))[name])
                } else {
                    None::<char>
                }),
            decreases self.entries@.len() - i,
        {
            let entry = self.entries[i];
            proof {
                assert(full.take(i + 1).drop_last() =~= full.take(i as int));
                assert(full.take(i + 1).last() == full[i as int]);
            }
            if entry.0 == name {
                found = Some(entry.1);
            }
            i = i + 1;
        }
        proof {
            assert(full.take(full.len() as int) =~= full);
        }
        found
    }
}

} // verus!
