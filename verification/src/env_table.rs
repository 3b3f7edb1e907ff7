//! The `[env]` table: variable names with their values, in the order of the
//! names.

use vstd::prelude::*;

use crate::order::{
    before, is_before, lemma_before_irreflexive, lemma_before_total, lemma_before_transitive,
};
use crate::text::same;

verus! {

/// Variable names and their values, each name once, in the order of the names.
pub struct EnvTable {
    entries: Vec<(String, String)>,
}

/// Whether a name stands among the pairs.
pub open spec fn names(pairs: Seq<(Seq<char>, Seq<char>)>, name: Seq<char>) -> bool {
    exists|i: int| 0 <= i < pairs.len() && (#[trigger] pairs[i]).0 == name
}

/// The value that stands beside a name.
pub open spec fn value_beside(pairs: Seq<(Seq<char>, Seq<char>)>, name: Seq<char>) -> Seq<char> {
    pairs[choose|i: int| 0 <= i < pairs.len() && (#[trigger] pairs[i]).0 == name].1
}

/// The table that pairs with different names describe.
pub open spec fn table_of(pairs: Seq<(Seq<char>, Seq<char>)>) -> Map<Seq<char>, Seq<char>> {
    Map::new(|name: Seq<char>| names(pairs, name), |name: Seq<char>| value_beside(pairs, name))
}

/// Whether every name stands before the names behind it.
pub open spec fn ascending(pairs: Seq<(Seq<char>, Seq<char>)>) -> bool {
    forall|i: int, j: int|
        0 <= i < j < pairs.len() ==> before((#[trigger] pairs[i]).0, (#[trigger] pairs[j]).0)
}

impl View for EnvTable {
    type V = Map<Seq<char>, Seq<char>>;

    open spec fn view(&self) -> Map<Seq<char>, Seq<char>> {
        table_of(self.pairs())
    }
}

/// In an ascending sequence of pairs a name has the value of the only pair
/// that bears it.
proof fn lemma_value_beside(pairs: Seq<(Seq<char>, Seq<char>)>, i: int)
    requires
        ascending(pairs),
        0 <= i < pairs.len(),
    ensures
        names(pairs, pairs[i].0),
        value_beside(pairs, pairs[i].0) == pairs[i].1,
{
    let name = pairs[i].0;
    assert(names(pairs, name));
    let k = choose|k: int| 0 <= k < pairs.len() && (#[trigger] pairs[k]).0 == name;
    lemma_before_irreflexive(name);
    if k < i {
        assert(before(pairs[k].0, pairs[i].0));
    } else if i < k {
        assert(before(pairs[i].0, pairs[k].0));
    }
}

proof fn lemma_insert_pair(
    old_pairs: Seq<(Seq<char>, Seq<char>)>,
    new_pairs: Seq<(Seq<char>, Seq<char>)>,
    at: int,
    name: Seq<char>,
    value: Seq<char>,
)
    requires
        ascending(old_pairs),
        0 <= at <= old_pairs.len(),
        forall|i: int| 0 <= i < at ==> before((#[trigger] old_pairs[i]).0, name),
        at < old_pairs.len() ==> before(name, old_pairs[at].0),
        new_pairs == old_pairs.insert(at, (name, value)),
    ensures
        ascending(new_pairs),
        table_of(new_pairs) == table_of(old_pairs).insert(name, value),
{
    assert forall|i: int, j: int| 0 <= i < j < new_pairs.len() implies before(
        (#[trigger] new_pairs[i]).0,
        (#[trigger] new_pairs[j]).0,
    ) by {
        if j < at {
            assert(before(old_pairs[i].0, old_pairs[j].0));
        } else if j == at {
            assert(before(old_pairs[i].0, name));
        } else if i < at {
            assert(before(old_pairs[i].0, old_pairs[j - 1].0));
        } else if i == at {
            if j - 1 > at {
                assert(before(old_pairs[at].0, old_pairs[j - 1].0));
                lemma_before_transitive(name, old_pairs[at].0, old_pairs[j - 1].0);
            }
        } else {
            assert(before(old_pairs[i - 1].0, old_pairs[j - 1].0));
        }
    }
    let left = table_of(new_pairs);
    let right = table_of(old_pairs).insert(name, value);
    assert(new_pairs[at] == (name, value));
    lemma_value_beside(new_pairs, at);
    assert forall|k: Seq<char>| left.contains_key(k) <==> right.contains_key(k) by {
        if names(new_pairs, k) && k != name {
            let i = choose|i: int| 0 <= i < new_pairs.len() && (#[trigger] new_pairs[i]).0 == k;
            if i < at {
                assert(old_pairs[i].0 == k);
            } else {
                assert(old_pairs[i - 1].0 == k);
            }
        }
        if names(old_pairs, k) {
            let i = choose|i: int| 0 <= i < old_pairs.len() && (#[trigger] old_pairs[i]).0 == k;
            if i < at {
                assert(new_pairs[i].0 == k);
            } else {
                assert(new_pairs[i + 1].0 == k);
            }
        }
    }
    assert forall|k: Seq<char>| left.contains_key(k) implies left[k] == right[k] by {
        if k != name {
            let i = choose|i: int| 0 <= i < new_pairs.len() && (#[trigger] new_pairs[i]).0 == k;
            lemma_value_beside(new_pairs, i);
            if i < at {
                lemma_value_beside(old_pairs, i);
            } else {
                lemma_value_beside(old_pairs, i - 1);
            }
        }
    }
    assert(left =~= right);
}

/// One more of ascending pairs sets one more name in their table.
pub proof fn lemma_next_pair(pairs: Seq<(Seq<char>, Seq<char>)>, i: int)
    requires
        ascending(pairs),
        0 <= i < pairs.len(),
    ensures
        table_of(pairs.take(i + 1)) == table_of(pairs.take(i)).insert(pairs[i].0, pairs[i].1),
{
    let few = pairs.take(i);
    let more = pairs.take(i + 1);
    assert forall|a: int, b: int| 0 <= a < b < few.len() implies before(
        (#[trigger] few[a]).0,
        (#[trigger] few[b]).0,
    ) by {
        assert(before(pairs[a].0, pairs[b].0));
    }
    assert forall|k: int| 0 <= k < i implies before((#[trigger] few[k]).0, pairs[i].0) by {
        assert(before(pairs[k].0, pairs[i].0));
    }
    assert(more =~= few.insert(i, pairs[i]));
    lemma_insert_pair(few, more, i, pairs[i].0, pairs[i].1);
}

proof fn lemma_replace_pair(
    old_pairs: Seq<(Seq<char>, Seq<char>)>,
    new_pairs: Seq<(Seq<char>, Seq<char>)>,
    at: int,
    value: Seq<char>,
)
    requires
        ascending(old_pairs),
        0 <= at < old_pairs.len(),
        new_pairs == old_pairs.update(at, (old_pairs[at].0, value)),
    ensures
        ascending(new_pairs),
        table_of(new_pairs) == table_of(old_pairs).insert(old_pairs[at].0, value),
{
    let name = old_pairs[at].0;
    assert forall|i: int, j: int| 0 <= i < j < new_pairs.len() implies before(
        (#[trigger] new_pairs[i]).0,
        (#[trigger] new_pairs[j]).0,
    ) by {
        assert(before(old_pairs[i].0, old_pairs[j].0));
    }
    let left = table_of(new_pairs);
    let right = table_of(old_pairs).insert(name, value);
    lemma_value_beside(new_pairs, at);
    assert forall|k: Seq<char>| left.contains_key(k) <==> right.contains_key(k) by {
        if names(new_pairs, k) {
            let i = choose|i: int| 0 <= i < new_pairs.len() && (#[trigger] new_pairs[i]).0 == k;
            assert(old_pairs[i].0 == k);
        }
        if names(old_pairs, k) {
            let i = choose|i: int| 0 <= i < old_pairs.len() && (#[trigger] old_pairs[i]).0 == k;
            assert(new_pairs[i].0 == k);
        }
    }
    assert forall|k: Seq<char>| left.contains_key(k) implies left[k] == right[k] by {
        let i = choose|i: int| 0 <= i < new_pairs.len() && (#[trigger] new_pairs[i]).0 == k;
        lemma_value_beside(new_pairs, i);
        lemma_value_beside(old_pairs, i);
    }
    assert(left =~= right);
}

impl EnvTable {
    /// The names and values in the order of the names.
    pub closed spec fn pairs(self) -> Seq<(Seq<char>, Seq<char>)> {
        self.entries@.map_values(|e: (String, String)| (e.0@, e.1@))
    }

    /// Every name stands before the names behind it, so none occurs twice.
    pub open spec fn wf(self) -> bool {
        ascending(self.pairs())
    }

    /// An empty table.
    pub fn new() -> (r: EnvTable)
        ensures
            r.wf(),
            r@ == Map::<Seq<char>, Seq<char>>::empty(),
            r.pairs().len() == 0,
    {
        let r = EnvTable { entries: Vec::new() };
        assert(r@ =~= Map::<Seq<char>, Seq<char>>::empty());
        r
    }

    /// The number of variables.
    pub fn len(&self) -> (r: usize)
        ensures
            r == self.pairs().len(),
    {
        self.entries.len()
    }

    /// The name of the variable at an index.
    pub fn name(&self, i: usize) -> (r: &str)
        requires
            i < self.pairs().len(),
        ensures
            r@ == self.pairs()[i as int].0,
    {
        self.entries[i].0.as_str()
    }

    /// The value of the variable at an index.
    pub fn value(&self, i: usize) -> (r: &str)
        requires
            i < self.pairs().len(),
        ensures
            r@ == self.pairs()[i as int].1,
    {
        self.entries[i].1.as_str()
    }

    /// Set a variable, replacing the value that it had.
    pub fn insert(&mut self, name: String, value: String)
        requires
            old(self).wf(),
        ensures
            final(self).wf(),
            final(self)@ == old(self)@.insert(name@, value@),
    {
        let ghost before_pairs = self.pairs();
        let mut at: usize = 0;
        while at < self.entries.len() && is_before(self.entries[at].0.as_str(), name.as_str())
            invariant
                at <= self.entries.len(),
                before_pairs == self.pairs(),
                forall|i: int| 0 <= i < at ==> before((#[trigger] before_pairs[i]).0, name@),
                *self == *old(self),
            decreases self.entries.len() - at,
        {
            at = at + 1;
        }
        if at < self.entries.len() && same(self.entries[at].0.as_str(), name.as_str()) {
            let ghost name_view = name@;
            let ghost value_view = value@;
            self.entries[at] = (name, value);
            proof {
                assert(self.pairs() =~= before_pairs.update(
                    at as int,
                    (before_pairs[at as int].0, value_view),
                ));
                lemma_replace_pair(before_pairs, self.pairs(), at as int, value_view);
            }
        } else {
            let ghost name_view = name@;
            let ghost value_view = value@;
            proof {
                if at < before_pairs.len() {
                    lemma_before_total(before_pairs[at as int].0, name@);
                }
            }
            self.entries.insert(at, (name, value));
            proof {
                assert(self.pairs() =~= before_pairs.insert(at as int, (name_view, value_view)));
                lemma_insert_pair(before_pairs, self.pairs(), at as int, name_view, value_view);
            }
        }
    }

    /// Set every variable of `other`, replacing the values that they had.
    pub fn extend(&mut self, other: &EnvTable)
        requires
            old(self).wf(),
            other.wf(),
        ensures
            final(self).wf(),
            final(self)@ == old(self)@.union_prefer_right(other@),
    {
        let ghost start = self@;
        let ghost added = other.pairs();
        let mut i: usize = 0;
        assert(self@ =~= start.union_prefer_right(table_of(added.take(0))));
        while i < other.entries.len()
            invariant
                i <= other.entries.len(),
                added == other.pairs(),
                ascending(added),
                self.wf(),
                self@ == start.union_prefer_right(table_of(added.take(i as int))),
            decreases other.entries.len() - i,
        {
            let name: String = other.entries[i].0.clone();
            let value: String = other.entries[i].1.clone();
            proof {
                let few = added.take(i as int);
                let more = added.take(i + 1);
                lemma_next_pair(added, i as int);
                assert(start.union_prefer_right(table_of(few)).insert(name@, value@)
                    =~= start.union_prefer_right(table_of(more)));
            }
            self.insert(name, value);
            i = i + 1;
        }
        assert(added.take(i as int) == added);
    }

    /// The value of a variable, if the table sets it.
    pub fn get(&self, name: &str) -> (r: Option<&str>)
        requires
            self.wf(),
        ensures
            r is Some <==> self@.contains_key(name@),
            r matches Some(value) ==> value@ == self@[name@],
    {
        let mut i: usize = 0;
        while i < self.entries.len()
            invariant
                self.wf(),
                i <= self.entries.len(),
                forall|k: int| 0 <= k < i ==> (#[trigger] self.pairs()[k]).0 != name@,
            decreases self.entries.len() - i,
        {
            if same(self.entries[i].0.as_str(), name) {
                proof {
                    lemma_value_beside(self.pairs(), i as int);
                }
                return Some(self.entries[i].1.as_str());
            }
            i = i + 1;
        }
        None
    }
}

/// A table sets exactly the names that stand in it, each to the value beside it.
pub proof fn law_table(table: EnvTable, name: Seq<char>, i: int)
    requires
        table.wf(),
    ensures
        table@.contains_key(name) <==> exists|k: int|
            0 <= k < table.pairs().len() && (#[trigger] table.pairs()[k]).0 == name,
        0 <= i < table.pairs().len() ==> table@.contains_key(table.pairs()[i].0)
            && table@[table.pairs()[i].0] == table.pairs()[i].1,
{
    if 0 <= i < table.pairs().len() {
        lemma_value_beside(table.pairs(), i);
    }
}

/// The names of a table stand in order, so no two of them are the same.
pub proof fn law_names_differ(table: EnvTable, i: int, j: int)
    requires
        table.wf(),
        0 <= i < j < table.pairs().len(),
    ensures
        before(table.pairs()[i].0, table.pairs()[j].0),
        table.pairs()[i].0 != table.pairs()[j].0,
{
    lemma_before_irreflexive(table.pairs()[i].0);
}

} // verus!
