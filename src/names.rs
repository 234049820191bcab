//! A set of identifier names.
use vstd::prelude::*;

verus! {

/// A set of names, kept as a list.
pub struct NameSet {
    names: Vec<String>,
}

impl View for NameSet {
    type V = Set<Seq<char>>;

    closed spec fn view(&self) -> Set<Seq<char>> {
        Set::new(|n: Seq<char>| exists|i: int| 0 <= i < self.names@.len() && self.names@[i]@ == n)
    }
}

impl NameSet {
    pub fn new() -> (r: NameSet)
        ensures
            r@ == Set::<Seq<char>>::empty(),
    {
        let r = NameSet { names: Vec::new() };
        assert(r@ =~= Set::<Seq<char>>::empty());
        r
    }

    pub fn contains(&self, name: &String) -> (r: bool)
        ensures
            r == self@.contains(name@),
    {
        let mut i: usize = 0;
        while i < self.names.len()
            invariant
                i <= self.names@.len(),
                forall|k: int| 0 <= k < i ==> self.names@[k]@ != name@,
            decreases self.names@.len() - i,
        {
            if self.names[i] == *name {
                return true;
            }
            i = i + 1;
        }
        false
    }

    pub fn insert(&mut self, name: &String)
        ensures
            final(self)@ == old(self)@.insert(name@),
    {
        if self.contains(name) {
            assert(self@ =~= self@.insert(name@));
            return ;
        }
        let ghost before = self@;
        let ghost old_names = self.names@;
        self.names.push(name.clone());
        assert forall|n: Seq<char>| self@.contains(n) <==> before.insert(name@).contains(n) by {
            if before.contains(n) {
                let i = choose|i: int| 0 <= i < old_names.len() && old_names[i]@ == n;
                assert(self.names@[i]@ == n);
            }
            if n == name@ {
                assert(self.names@[old_names.len() as int]@ == n);
            }
            if self@.contains(n) {
                let i = choose|i: int| 0 <= i < self.names@.len() && self.names@[i]@ == n;
                if i < old_names.len() {
                    assert(old_names[i]@ == n);
                }
            }
        }
        assert(self@ =~= before.insert(name@));
    }
}

} // verus!
