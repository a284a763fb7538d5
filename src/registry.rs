//! Append-only tables that give each game id (a player name, an entity, a
//! weapon, ...) a small integer id on first sight.
use vstd::prelude::*;
use crate::text::same_text;

verus! {

/// Names in order of first sight; the name at position `k` has id `k + 1`.
pub struct IdRegistry {
    names: Vec<String>,
}

/// No name occurs twice.
pub open spec fn distinct_names(s: Seq<Seq<char>>) -> bool {
    forall|i: int, j: int| 0 <= i < j < s.len() ==> s[i] != s[j]
}

impl View for IdRegistry {
    type V = Seq<Seq<char>>;

    closed spec fn view(&self) -> Seq<Seq<char>> {
        self.names@.map_values(|s: String| s@)
    }
}

impl IdRegistry {
    /// Well-formed: distinct names, and every id fits an `i16`.
    pub open spec fn wf(&self) -> bool {
        distinct_names(self@) && self@.len() <= i16::MAX
    }

    /// An empty registry.
    pub fn new() -> (r: IdRegistry)
        ensures
            r.wf(),
            r@.len() == 0,
    {
        IdRegistry { names: Vec::new() }
    }

    /// The id of `name`, if it was seen.
    pub fn lookup(&self, name: &str) -> (r: Option<i16>)
        requires
            self.wf(),
        ensures
            match r {
                Some(id) => 1 <= id <= self@.len() && self@[id - 1] == name@,
                None => !self@.contains(name@),
            },
    {
        let mut k: usize = 0;
        while k < self.names.len()
            invariant
                0 <= k <= self@.len(),
                self@.len() == self.names@.len(),
                self.wf(),
                forall|i: int| 0 <= i < k ==> self@[i] != name@,
            decreases self@.len() - k,
        {
            assert(self@[k as int] == self.names@[k as int]@);
            if same_text(self.names[k].as_str(), name) {
                return Some((k + 1) as i16);
            }
            k += 1;
        }
        None
    }

    /// The id of `name`, given on first sight as the next free id; `None`
    /// when the name is new and no id is left. Ids already given never
    /// change.
    pub fn id_for(&mut self, name: &str) -> (r: Option<i16>)
        requires
            old(self).wf(),
        ensures
            final(self).wf(),
            old(self)@.contains(name@) ==> final(self)@ == old(self)@,
            !old(self)@.contains(name@) && old(self)@.len() < i16::MAX ==> final(self)@ == old(self)@.push(name@),
            !old(self)@.contains(name@) && old(self)@.len() >= i16::MAX ==> final(self)@ == old(self)@ && r is None,
            r matches Some(id) ==> 1 <= id <= final(self)@.len() && final(self)@[id - 1] == name@,
            old(self)@.contains(name@) || old(self)@.len() < i16::MAX ==> r is Some,
    {
        match self.lookup(name) {
            Some(id) => Some(id),
            None => {
                if self.names.len() >= 32767 {
                    return None;
                }
                let ghost before = self@;
                self.names.push(String::from_str(name));
                assert(self@ =~= before.push(name@));
                Some(self.names.len() as i16)
            },
        }
    }

    /// The names in order of their ids.
    pub fn names(&self) -> (r: &Vec<String>)
        ensures
            r@.map_values(|s: String| s@) == self@,
    {
        &self.names
    }
}

} // verus!
