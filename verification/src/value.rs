//! The dynamically typed values that travel as arguments and results of
//! calls, and the string-keyed mapping among them.

use vstd::prelude::*;

verus! {

/// A self-describing structured value, as the peer's own serialization has
/// it: a tagged union rather than a value inspected at run time.
#[derive(Debug, PartialEq, Eq)]
pub enum Value {
    Null,
    Bool(bool),
    /// A whole number.
    Number(i64),
    /// A number that is not whole, or too large for `Number`, held by the
    /// bits of its double-precision representation. It is carried along and
    /// never computed with.
    Real(u64),
    String(String),
    Array(Vec<Value>),
    Object(Mapping),
}

/// A mapping from strings to values. Its members are kept in the order in
/// which their keys were first inserted, and no key occurs twice.
#[derive(Debug, PartialEq, Eq)]
pub struct Mapping {
    entries: Vec<(String, Value)>,
}

/// What a `Value` holds, all the way down: the mathematical value that two
/// equal `Value`s share.
pub enum ValueView {
    Null,
    Bool(bool),
    Number(int),
    Real(u64),
    String(Seq<char>),
    Array(Seq<ValueView>),
    Object(Seq<(Seq<char>, ValueView)>),
}

impl View for Value {
    type V = ValueView;

    open spec fn view(&self) -> ValueView
        decreases self,
    {
        match self {
            Value::Null => ValueView::Null,
            Value::Bool(b) => ValueView::Bool(*b),
            Value::Number(n) => ValueView::Number(*n as int),
            Value::Real(bits) => ValueView::Real(*bits),
            Value::String(s) => ValueView::String(s@),
            Value::Array(items) => ValueView::Array(
                Seq::new(
                    items@.len(),
                    |i: int|
                        if 0 <= i < items@.len() {
                            items@[i].view()
                        } else {
                            ValueView::Null
                        },
                ),
            ),
            Value::Object(mapping) => ValueView::Object(mapping.deep_members()),
        }
    }
}

/// What each of `items` holds all the way down.
pub open spec fn views_of(items: Seq<Value>) -> Seq<ValueView> {
    Seq::new(items.len(), |i: int| items[i]@)
}

/// Copies a list of values, each all the way down.
pub fn clone_values(items: &Vec<Value>) -> (copies: Vec<Value>)
    ensures
        views_of(copies@) == views_of(items@),
    decreases items,
{
    let mut copies: Vec<Value> = Vec::new();
    let mut i: usize = 0;
    while i < items.len()
        invariant
            i <= items.len(),
            copies@.len() == i,
            forall|j: int| 0 <= j < i ==> (#[trigger] copies@[j])@ == items@[j]@,
        decreases items.len() - i,
    {
        proof {
            vstd::std_specs::vec::axiom_vec_index_decreases(*items, i as int);
        }
        copies.push(items[i].clone());
        i += 1;
    }
    assert(views_of(copies@) =~= views_of(items@));
    copies
}

/// An array holds the list of what its items hold.
pub proof fn lemma_array_view(items: Vec<Value>)
    ensures
        Value::Array(items)@ == ValueView::Array(views_of(items@)),
{
    reveal_with_fuel(<Value as View>::view, 2);
    assert(Value::Array(items)@->Array_0 =~= views_of(items@));
}

impl Clone for Value {
    /// A copy that holds the same value all the way down.
    fn clone(&self) -> (copy: Value)
        ensures
            copy@ == self@,
        decreases self,
    {
        match self {
            Value::Null => Value::Null,
            Value::Bool(b) => Value::Bool(*b),
            Value::Number(n) => Value::Number(*n),
            Value::Real(bits) => Value::Real(*bits),
            Value::String(s) => Value::String(s.clone()),
            Value::Array(items) => {
                assert(self is Array && self->Array_0 == *items);
                let copies = clone_values(items);
                proof {
                    lemma_array_view(copies);
                    lemma_array_view(*items);
                }
                Value::Array(copies)
            },
            Value::Object(mapping) => Value::Object(mapping.clone()),
        }
    }
}

impl Clone for Mapping {
    /// A copy with the same members, in the same order.
    fn clone(&self) -> (copy: Mapping)
        ensures
            copy.deep_members() == self.deep_members(),
            copy.wf() == self.wf(),
        decreases self,
    {
        let mut copies: Vec<(String, Value)> = Vec::new();
        let mut i: usize = 0;
        while i < self.entries.len()
            invariant
                i <= self.entries.len(),
                copies@.len() == i,
                forall|j: int|
                    0 <= j < i ==> (#[trigger] copies@[j]).0@ == self.entries@[j].0@
                        && copies@[j].1@ == self.entries@[j].1@,
            decreases self.entries.len() - i,
        {
            proof {
                vstd::std_specs::vec::axiom_vec_index_decreases(self.entries, i as int);
            }
            let key = self.entries[i].0.clone();
            let value = self.entries[i].1.clone();
            copies.push((key, value));
            i += 1;
        }
        let copy = Mapping { entries: copies };
        assert(copy.deep_members() =~= self.deep_members());
        proof {
            if self.wf() {
                assert forall|a: int, b: int| 0 <= a < b < copy.members().len() implies (
                #[trigger] copy.members()[a]).0@ != (#[trigger] copy.members()[b]).0@ by {
                    assert(self.members()[a].0@ != self.members()[b].0@);
                }
            }
            if copy.wf() {
                assert forall|a: int, b: int| 0 <= a < b < self.members().len() implies (
                #[trigger] self.members()[a]).0@ != (#[trigger] self.members()[b]).0@ by {
                    assert(copy.members()[a].0@ != copy.members()[b].0@);
                }
            }
        }
        copy
    }
}

/// No two members of `members` have the same key.
pub open spec fn keys_distinct(members: Seq<(String, Value)>) -> bool {
    forall|i: int, j: int|
        0 <= i < j < members.len() ==> (#[trigger] members[i]).0@ != (#[trigger] members[j]).0@
}

/// Some member of `members` has the key `key`.
pub open spec fn has_key(members: Seq<(String, Value)>, key: Seq<char>) -> bool {
    exists|i: int| 0 <= i < members.len() && (#[trigger] members[i]).0@ == key
}

/// The position of a member with the key `key`, where there is one.
pub open spec fn position_of(members: Seq<(String, Value)>, key: Seq<char>) -> int {
    choose|i: int| 0 <= i < members.len() && (#[trigger] members[i]).0@ == key
}

/// The mapping that a list of members stands for.
pub open spec fn mapping_of(members: Seq<(String, Value)>) -> Map<Seq<char>, Value> {
    Map::new(
        |key: Seq<char>| has_key(members, key),
        |key: Seq<char>| members[position_of(members, key)].1,
    )
}

/// In a list with distinct keys, the member at position `i` is what the
/// mapping holds under that member's key.
pub proof fn lemma_member_is_mapped(members: Seq<(String, Value)>, i: int)
    requires
        keys_distinct(members),
        0 <= i < members.len(),
    ensures
        mapping_of(members).contains_key(members[i].0@),
        mapping_of(members)[members[i].0@] == members[i].1,
        position_of(members, members[i].0@) == i,
{
    let key = members[i].0@;
    let p = position_of(members, key);
    assert(0 <= p < members.len() && members[p].0@ == key);
    if p < i {
        assert(members[p].0@ != members[i].0@);
    } else if i < p {
        assert(members[i].0@ != members[p].0@);
    }
}

impl View for Mapping {
    type V = Map<Seq<char>, Value>;

    open spec fn view(&self) -> Map<Seq<char>, Value> {
        mapping_of(self.members())
    }
}

impl Mapping {
    /// The members in the order of their first insertion.
    pub closed spec fn members(&self) -> Seq<(String, Value)> {
        self.entries@
    }

    /// The members with what each value holds all the way down.
    pub closed spec fn deep_members(&self) -> Seq<(Seq<char>, ValueView)>
        decreases self,
    {
        Seq::new(
            self.entries@.len(),
            |i: int|
                if 0 <= i < self.entries@.len() {
                    (self.entries@[i].0@, self.entries@[i].1.view())
                } else {
                    (Seq::empty(), ValueView::Null)
                },
        )
    }

    /// The invariant of the type: no key occurs twice.
    pub open spec fn wf(&self) -> bool {
        keys_distinct(self.members())
    }

    /// The empty mapping.
    pub fn new() -> (m: Mapping)
        ensures
            m.wf(),
            m.members().len() == 0,
            m@ == Map::<Seq<char>, Value>::empty(),
            m.deep_members() == Seq::<(Seq<char>, ValueView)>::empty(),
    {
        let m = Mapping { entries: Vec::new() };
        assert(m@ =~= Map::<Seq<char>, Value>::empty());
        assert(m.deep_members() =~= Seq::<(Seq<char>, ValueView)>::empty());
        m
    }

    /// The number of members.
    pub fn len(&self) -> (n: usize)
        ensures
            n == self.members().len(),
    {
        self.entries.len()
    }

    /// The members in the order of their first insertion.
    pub fn entries(&self) -> (r: &Vec<(String, Value)>)
        ensures
            r@ == self.members(),
    {
        &self.entries
    }

    /// The position of the member with the key `key`, if there is one.
    fn find(&self, key: &String) -> (r: Option<usize>)
        ensures
            match r {
                Some(i) => i < self.members().len() && self.members()[i as int].0@ == key@,
                None => !has_key(self.members(), key@),
            },
    {
        let mut i: usize = 0;
        while i < self.entries.len()
            invariant
                i <= self.entries.len(),
                forall|j: int| 0 <= j < i ==> (#[trigger] self.entries@[j]).0@ != key@,
            decreases self.entries.len() - i,
        {
            if self.entries[i].0 == *key {
                return Some(i);
            }
            i += 1;
        }
        None
    }

    /// The value under `key`, if the mapping has that key.
    pub fn get(&self, key: &String) -> (r: Option<&Value>)
        requires
            self.wf(),
        ensures
            r == if self@.contains_key(key@) {
                Some(&self@[key@])
            } else {
                None
            },
    {
        match self.find(key) {
            Some(i) => {
                proof {
                    lemma_member_is_mapped(self.members(), i as int);
                }
                Some(&self.entries[i].1)
            },
            None => None,
        }
    }

    /// Puts `value` under `key`. A key that the mapping already has keeps
    /// its place among the members, and the value it had is returned.
    pub fn insert(&mut self, key: String, value: Value) -> (previous: Option<Value>)
        requires
            old(self).wf(),
        ensures
            final(self).wf(),
            final(self)@ == old(self)@.insert(key@, value),
            previous == if old(self)@.contains_key(key@) {
                Some(old(self)@[key@])
            } else {
                None
            },
            final(self).members().len() == if old(self)@.contains_key(key@) {
                old(self).members().len()
            } else {
                old(self).members().len() + 1
            },
    {
        let ghost before = self.members();
        match self.find(&key) {
            Some(i) => {
                proof {
                    lemma_member_is_mapped(before, i as int);
                }
                let replaced = self.entries.remove(i);
                self.entries.insert(i, (key, value));
                proof {
                    let after = self.members();
                    assert(after == before.update(i as int, (key, value)));
                    assert(keys_distinct(after)) by {
                        assert forall|a: int, b: int| 0 <= a < b < after.len() implies (
                        #[trigger] after[a]).0@ != (#[trigger] after[b]).0@ by {
                            assert(before[a].0@ != before[b].0@);
                        }
                    }
                    assert forall|k: Seq<char>| has_key(after, k) == has_key(before, k) by {
                        if has_key(before, k) {
                            let p = position_of(before, k);
                            assert(after[p].0@ == k);
                        }
                        if has_key(after, k) {
                            let p = position_of(after, k);
                            assert(before[p].0@ == k);
                        }
                    }
                    assert forall|k: Seq<char>| has_key(after, k) implies #[trigger] mapping_of(
                        after,
                    )[k] == mapping_of(before).insert(key@, value)[k] by {
                        let p = position_of(after, k);
                        lemma_member_is_mapped(after, p);
                        lemma_member_is_mapped(before, p);
                    }
                    assert(mapping_of(after) =~= mapping_of(before).insert(key@, value));
                }
                Some(replaced.1)
            },
            None => {
                self.entries.push((key, value));
                proof {
                    let after = self.members();
                    assert(after == before.push((key, value)));
                    assert(keys_distinct(after)) by {
                        assert forall|a: int, b: int| 0 <= a < b < after.len() implies (
                        #[trigger] after[a]).0@ != (#[trigger] after[b]).0@ by {
                            if b < before.len() {
                                assert(before[a].0@ != before[b].0@);
                            } else {
                                assert(before[a].0@ != key@);
                            }
                        }
                    }
                    assert forall|k: Seq<char>| has_key(after, k) == (has_key(before, k) || k
                        == key@) by {
                        if has_key(before, k) {
                            let p = position_of(before, k);
                            assert(after[p].0@ == k);
                        }
                        if k == key@ {
                            assert(after[before.len() as int].0@ == k);
                        }
                        if has_key(after, k) {
                            let p = position_of(after, k);
                            if p < before.len() {
                                assert(before[p].0@ == k);
                            }
                        }
                    }
                    assert forall|k: Seq<char>| has_key(after, k) implies #[trigger] mapping_of(
                        after,
                    )[k] == mapping_of(before).insert(key@, value)[k] by {
                        let p = position_of(after, k);
                        lemma_member_is_mapped(after, p);
                        if p < before.len() {
                            lemma_member_is_mapped(before, p);
                        }
                    }
                    assert(mapping_of(after) =~= mapping_of(before).insert(key@, value));
                }
                None
            },
        }
    }
}

} // verus!
