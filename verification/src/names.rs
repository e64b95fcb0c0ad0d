//! Sets of session names, kept in order.

use vstd::prelude::*;
use vstd::string::*;

use crate::tables::sorted_names;
use crate::text::{
    is_text_le, str_eq, text_le, text_le_is_total, text_le_is_transitive, text_lt, views,
};

verus! {

/// A set of names.
#[derive(Debug)]
pub struct NameSet {
    names: Vec<String>,
}

impl View for NameSet {
    type V = Seq<Seq<char>>;

    /// The names in order.
    closed spec fn view(&self) -> Seq<Seq<char>> {
        views(self.names@)
    }
}

impl NameSet {
    /// Whether the names stand in order, none twice.
    pub open spec fn wf(&self) -> bool {
        sorted_names(self@)
    }

    /// No names.
    pub fn new() -> (set: NameSet)
        ensures
            set.wf(),
            set@ == Seq::<Seq<char>>::empty(),
    {
        let set = NameSet { names: Vec::new() };
        assert(set@ =~= Seq::<Seq<char>>::empty());
        set
    }

    /// Whether `name` is in the set.
    pub fn contains(&self, name: &str) -> (yes: bool)
        ensures
            yes == self@.contains(name@),
    {
        let mut i: usize = 0;
        while i < self.names.len()
            invariant
                i <= self.names@.len(),
                forall|j: int| 0 <= j < i ==> #[trigger] self@[j] != name@,
            decreases self.names.len() - i,
        {
            assert(self@[i as int] == self.names@[i as int]@);
            if str_eq(self.names[i].as_str(), name) {
                return true;
            }
            i = i + 1;
        }
        false
    }

    /// Puts `name` into the set.
    pub fn insert(&mut self, name: String)
        requires
            old(self).wf(),
        ensures
            final(self).wf(),
            forall|other: Seq<char>| #[trigger]
                final(self)@.contains(other) <==> old(self)@.contains(other) || other == name@,
    {
        if self.contains(name.as_str()) {
            return;
        }
        let ghost before = self@;
        let ghost text = name@;
        let mut p: usize = 0;
        while p < self.names.len() && !is_text_le(name.as_str(), self.names[p].as_str())
            invariant
                p <= self.names@.len(),
                *self == *old(self),
                before == self@,
                text == name@,
                forall|j: int| 0 <= j < p ==> !text_le(text, #[trigger] before[j]),
            decreases self.names.len() - p,
        {
            assert(before[p as int] == self.names@[p as int]@);
            p = p + 1;
        }
        self.names.insert(p, name);
        let ghost after = before.insert(p as int, text);
        assert(self@ =~= after);
        proof {
            assert forall|a: int, b: int| 0 <= a < b < after.len() implies text_lt(
                #[trigger] after[a],
                #[trigger] after[b],
            ) by {
                let x = if a < p { a } else { a - 1 };
                let y = if b < p { b } else { b - 1 };
                if a != p && b != p {
                    assert(text_lt(before[x], before[y]));
                } else if b == p {
                    text_le_is_total(text, before[x]);
                    assert(before.contains(before[x]));
                } else {
                    assert(before[p as int] == old(self).names@[p as int]@);
                    if y > p {
                        assert(text_lt(before[p as int], before[y]));
                        text_le_is_transitive(text, before[p as int], before[y]);
                    }
                    assert(before.contains(before[y]));
                }
            }
            assert forall|other: Seq<char>| #[trigger] after.contains(other) <==> before.contains(
                other,
            ) || other == text by {
                if after.contains(other) {
                    let k = after.index_of(other);
                    if k < p {
                        assert(before[k] == other);
                    } else if k > p {
                        assert(before[k - 1] == other);
                    }
                }
                if before.contains(other) {
                    let k = before.index_of(other);
                    if k < p {
                        assert(after[k] == other);
                    } else {
                        assert(after[k + 1] == other);
                    }
                }
                assert(after[p as int] == text);
            }
        }
    }

    /// The set of the names of a list.
    pub fn from_names(names: &Vec<String>) -> (set: NameSet)
        ensures
            set.wf(),
            forall|name: Seq<char>| #[trigger]
                set@.contains(name) <==> views(names@).contains(name),
    {
        let mut set = NameSet::new();
        let mut i: usize = 0;
        let ghost all = views(names@);
        assert(all.take(0) =~= Seq::empty());
        while i < names.len()
            invariant
                i <= names@.len(),
                all == views(names@),
                set.wf(),
                forall|name: Seq<char>| #[trigger]
                    set@.contains(name) <==> all.take(i as int).contains(name),
            decreases names.len() - i,
        {
            let ghost before = set@;
            set.insert(names[i].clone());
            proof {
                assert forall|name: Seq<char>| #[trigger] set@.contains(name) <==> all.take(
                    i + 1,
                ).contains(name) by {
                    let less = all.take(i as int);
                    let more = all.take(i + 1);
                    assert(before.contains(name) <==> less.contains(name));
                    assert(more[i as int] == names@[i as int]@);
                    if less.contains(name) {
                        assert(more[less.index_of(name)] == name);
                    }
                    if more.contains(name) {
                        let k = more.index_of(name);
                        if k < i {
                            assert(less[k] == name);
                        }
                    }
                }
            }
            i = i + 1;
        }
        assert(all.take(i as int) =~= all);
        set
    }

    /// How many names there are.
    pub fn len(&self) -> (n: usize)
        ensures
            n == self@.len(),
    {
        self.names.len()
    }

    /// The name at the place `i` in the order.
    pub fn get(&self, i: usize) -> (name: &str)
        requires
            i < self@.len(),
        ensures
            name@ == self@[i as int],
    {
        self.names[i].as_str()
    }
}

} // verus!
