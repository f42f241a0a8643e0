//! A small set of values that are told apart by their views, kept in the
//! order in which they came.

use vstd::prelude::*;

verus! {

/// A value that can be compared with and copied from another of its kind.
pub trait Identity: View + Sized {
    /// Whether two values stand for the same thing.
    fn same(&self, other: &Self) -> (same: bool)
        ensures
            same == (self@ == other@),
    ;

    /// Another value that stands for the same thing.
    fn duplicate(&self) -> (copy: Self)
        ensures
            copy@ == self@,
    ;
}

/// A set in which nothing occurs twice.
#[derive(Debug)]
pub struct VecSet<T: Identity> {
    items: Vec<T>,
}

/// The views of a list of values, in order.
pub open spec fn item_views<T: View>(items: Seq<T>) -> Seq<T::V> {
    items.map_values(|item: T| item@)
}

impl<T: Identity> VecSet<T> {
    /// The members in the order in which they came.
    pub closed spec fn items(&self) -> Seq<T::V> {
        item_views(self.items@)
    }

    /// Nothing occurs twice among the members.
    pub open spec fn wf(&self) -> bool {
        self.items().no_duplicates()
    }

    /// An empty set.
    pub fn new() -> (set: VecSet<T>)
        ensures
            set.wf(),
            set@ == Set::<T::V>::empty(),
            set.items() == Seq::<T::V>::empty(),
    {
        let set = VecSet { items: Vec::new() };
        set
    }

    /// The number of members.
    pub fn len(&self) -> (n: usize)
        requires
            self.wf(),
        ensures
            n == self.items().len(),
            n == self@.len(),
            self@.finite(),
    {
        proof {
            self.items().unique_seq_to_set();
        }
        self.items.len()
    }

    /// The place of a value among the members.
    fn position(&self, item: &T) -> (place: Option<usize>)
        ensures
            match place {
                Some(i) => i < self.items().len() && self.items()[i as int] == item@,
                None => !self@.contains(item@),
            },
    {
        let mut i: usize = 0;
        while i < self.items.len()
            invariant
                i <= self.items.len(),
                forall|j: int| 0 <= j < i ==> self.items()[j] != item@,
            decreases self.items.len() - i,
        {
            if self.items[i].same(item) {
                return Some(i);
            }
            i += 1;
        }
        None
    }

    /// Whether a value is a member.
    pub fn contains(&self, item: &T) -> (found: bool)
        ensures
            found == self@.contains(item@),
    {
        self.position(item).is_some()
    }

    /// Makes a value a member. True where it was none before.
    pub fn insert(&mut self, item: T) -> (added: bool)
        requires
            old(self).wf(),
        ensures
            final(self).wf(),
            added == !old(self)@.contains(item@),
            final(self)@ == old(self)@.insert(item@),
            added ==> final(self).items() == old(self).items().push(item@),
            !added ==> final(self).items() == old(self).items(),
    {
        if self.position(&item).is_some() {
            return false;
        }
        let ghost before = self.items();
        self.items.push(item);
        proof {
            assert(self.items() =~= before.push(item@));
            assert(self@ =~= old(self)@.insert(item@)) by {
                assert forall|v: T::V| self@.contains(v) == old(self)@.insert(item@).contains(v) by {
                    if before.contains(v) {
                        let i = choose|i: int| 0 <= i < before.len() && before[i] == v;
                        assert(self.items()[i] == v);
                    }
                    if v == item@ {
                        assert(self.items()[before.len() as int] == v);
                    }
                }
            }
        }
        true
    }

    /// Takes a value out. True where it was a member.
    pub fn remove(&mut self, item: &T) -> (removed: bool)
        requires
            old(self).wf(),
        ensures
            final(self).wf(),
            removed == old(self)@.contains(item@),
            final(self)@ == old(self)@.remove(item@),
    {
        match self.position(item) {
            Some(i) => {
                let ghost before = self.items();
                self.items.remove(i);
                proof {
                    assert(self.items() =~= before.remove(i as int));
                    assert(self@ =~= old(self)@.remove(item@)) by {
                        assert forall|v: T::V| self@.contains(v) == old(self)@.remove(
                            item@,
                        ).contains(v) by {
                            if before.contains(v) && v != item@ {
                                let j = choose|j: int| 0 <= j < before.len() && before[j] == v;
                                if j < i {
                                    assert(self.items()[j] == v);
                                } else {
                                    assert(self.items()[j - 1] == v);
                                }
                            }
                        }
                    }
                }
                true
            },
            None => {
                false
            },
        }
    }

    /// Copies of the members, in the order in which they came.
    pub fn to_vec(&self) -> (members: Vec<T>)
        ensures
            item_views(members@) == self.items(),
    {
        let mut members: Vec<T> = Vec::new();
        let mut i: usize = 0;
        while i < self.items.len()
            invariant
                i <= self.items.len(),
                item_views(members@) == self.items().subrange(0, i as int),
            decreases self.items.len() - i,
        {
            let ghost before = item_views(members@);
            let copy = self.items[i].duplicate();
            members.push(copy);
            assert(item_views(members@) =~= before.push(copy@));
            i += 1;
        }
        members
    }
}

impl<T: Identity> View for VecSet<T> {
    type V = Set<T::V>;

    open spec fn view(&self) -> Set<T::V> {
        Set::new(|v: T::V| self.items().contains(v))
    }
}

} // verus!
