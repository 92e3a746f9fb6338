//! The native form of the dynamically typed values that the engine hands out.

use vstd::prelude::*;
use vstd::set_lib::lemma_subset_equality;
use vstd::std_specs::cmp::PartialEqSpecImpl;

verus! {

/// A value of one of the five kinds that the engine's parameters are made of.
///
/// The kind is fixed when the value is built and never changes afterwards.
#[derive(Debug)]
pub enum Variant {
    /// String
    String(String),
    /// Boolean value
    Boolean(bool),
    /// Integer value
    Int64(i64),
    /// Mapping from strings to values
    Mapping(Dict),
    /// Array of Maps
    MapList(Vec<Dict>),
}

/// A mapping from strings to values, in which no key occurs twice.
#[derive(Debug)]
pub struct Dict {
    entries: Vec<(String, Variant)>,
}

/// What a [`Variant`] is, as a mathematical value.
pub enum Value {
    String(Seq<char>),
    Boolean(bool),
    Int64(i64),
    Mapping(Map<Seq<char>, Value>),
    MapList(Seq<Map<Seq<char>, Value>>),
}

/// The value that `v` stands for.
pub open spec fn value_of(v: Variant) -> Value
    decreases v,
{
    match v {
        Variant::String(s) => Value::String(s@),
        Variant::Boolean(b) => Value::Boolean(b),
        Variant::Int64(i) => Value::Int64(i),
        Variant::Mapping(d) => Value::Mapping(mapping_of(d)),
        Variant::MapList(l) => Value::MapList(mappings_of(l@)),
    }
}

/// The mapping that `d` stands for.
pub open spec fn mapping_of(d: Dict) -> Map<Seq<char>, Value>
    decreases d,
{
    fold_entries(d.spec_entries())
}

/// The mapping that comes of writing `entries` in turn into an empty one: of two
/// entries with one key, the later one stays.
pub open spec fn fold_entries(entries: Seq<(String, Variant)>) -> Map<Seq<char>, Value>
    decreases entries,
{
    if entries.len() == 0 {
        Map::empty()
    } else {
        fold_entries(entries.drop_last()).insert(entries.last().0@, value_of(entries.last().1))
    }
}

/// The mappings that the items of `dicts` stand for, in their order.
pub open spec fn mappings_of(dicts: Seq<Dict>) -> Seq<Map<Seq<char>, Value>>
    decreases dicts,
{
    if dicts.len() == 0 {
        Seq::empty()
    } else {
        mappings_of(dicts.drop_last()).push(mapping_of(dicts.last()))
    }
}

/// Whether no two items of `entries` have the same key.
pub open spec fn distinct_keys(entries: Seq<(String, Variant)>) -> bool {
    forall|i: int, j: int| 0 <= i < j < entries.len() ==> entries[i].0@ != entries[j].0@
}

/// Whether an item of `entries` has the key `key`.
pub open spec fn has_key(entries: Seq<(String, Variant)>, key: Seq<char>) -> bool {
    exists|i: int| 0 <= i < entries.len() && #[trigger] entries[i].0@ == key
}

/// The keys of the folded mapping are the keys of the entries.
pub proof fn lemma_fold_keys(entries: Seq<(String, Variant)>, key: Seq<char>)
    ensures
        fold_entries(entries).contains_key(key) <==> has_key(entries, key),
    decreases entries.len(),
{
    if entries.len() > 0 {
        let before = entries.drop_last();
        lemma_fold_keys(before, key);
        if has_key(entries, key) {
            let i = choose|i: int| 0 <= i < entries.len() && #[trigger] entries[i].0@ == key;
            if i < before.len() {
                assert(before[i].0@ == key);
            }
        }
        if has_key(before, key) {
            let i = choose|i: int| 0 <= i < before.len() && #[trigger] before[i].0@ == key;
            assert(entries[i].0@ == key);
        }
        if entries.last().0@ == key {
            assert(entries[entries.len() - 1].0@ == key);
        }
    }
}

/// Where no key occurs twice, each entry's value is what the folded mapping
/// holds under its key.
pub proof fn lemma_fold_value(entries: Seq<(String, Variant)>, i: int)
    requires
        distinct_keys(entries),
        0 <= i < entries.len(),
    ensures
        fold_entries(entries).contains_key(entries[i].0@),
        fold_entries(entries)[entries[i].0@] == value_of(entries[i].1),
    decreases entries.len(),
{
    let before = entries.drop_last();
    if i < entries.len() - 1 {
        assert(distinct_keys(before));
        lemma_fold_value(before, i);
    }
}

/// Where no key occurs twice, the folded mapping has as many keys as there are
/// entries.
pub proof fn lemma_fold_len(entries: Seq<(String, Variant)>)
    requires
        distinct_keys(entries),
    ensures
        fold_entries(entries).dom().finite(),
        fold_entries(entries).len() == entries.len(),
    decreases entries.len(),
{
    if entries.len() > 0 {
        let before = entries.drop_last();
        assert(distinct_keys(before));
        lemma_fold_len(before);
        lemma_fold_keys(before, entries.last().0@);
        if has_key(before, entries.last().0@) {
            let i = choose|i: int| 0 <= i < before.len() && #[trigger] before[i].0@ == entries.last().0@;
        }
    }
}

/// Writing a new value over the entry that has the key is writing it into the
/// folded mapping.
pub proof fn lemma_fold_update(entries: Seq<(String, Variant)>, i: int, key: String, value: Variant)
    requires
        distinct_keys(entries),
        0 <= i < entries.len(),
        entries[i].0@ == key@,
    ensures
        distinct_keys(entries.update(i, (key, value))),
        fold_entries(entries.update(i, (key, value))) == fold_entries(entries).insert(
            key@,
            value_of(value),
        ),
    decreases entries.len(),
{
    let updated = entries.update(i, (key, value));
    assert(distinct_keys(updated));
    let before = entries.drop_last();
    if i == entries.len() - 1 {
        assert(updated.drop_last() =~= before);
    } else {
        assert(distinct_keys(before));
        lemma_fold_update(before, i, key, value);
        assert(updated.drop_last() =~= before.update(i, (key, value)));
    }
}

impl Dict {
    #[verifier::type_invariant]
    closed spec fn keys_are_distinct(self) -> bool {
        distinct_keys(self.entries@)
    }

    /// The entries, in the order in which their keys were first written.
    pub closed spec fn spec_entries(self) -> Seq<(String, Variant)> {
        self.entries@
    }

    /// The empty mapping.
    pub fn new() -> (dict: Dict)
        ensures
            dict@ == Map::<Seq<char>, Value>::empty(),
    {
        Dict { entries: Vec::new() }
    }

    /// The number of keys.
    pub fn len(&self) -> (n: usize)
        ensures
            self@.dom().finite(),
            n == self@.len(),
    {
        proof {
            use_type_invariant(self);
            lemma_fold_len(self.entries@);
        }
        self.entries.len()
    }

    /// Whether the mapping has no key.
    pub fn is_empty(&self) -> (empty: bool)
        ensures
            empty == (self@ == Map::<Seq<char>, Value>::empty()),
    {
        proof {
            use_type_invariant(self);
            if self.entries@.len() > 0 {
                lemma_fold_value(self.entries@, 0);
            }
        }
        self.entries.len() == 0
    }

    /// The place of the entry that has the key `key`, if there is one.
    fn position(&self, key: &str) -> (found: Option<usize>)
        ensures
            match found {
                Some(i) => i < self.entries@.len() && self.entries@[i as int].0@ == key@,
                None => !has_key(self.entries@, key@),
            },
    {
        let wanted = key.to_owned();
        let mut i: usize = 0;
        while i < self.entries.len()
            invariant
                i <= self.entries@.len(),
                wanted@ == key@,
                forall|j: int| 0 <= j < i ==> self.entries@[j].0@ != key@,
            decreases self.entries@.len() - i,
        {
            if self.entries[i].0 == wanted {
                return Some(i);
            }
            i += 1;
        }
        None
    }

    /// The value held under `key`, if the mapping has that key.
    pub fn get(&self, key: &str) -> (found: Option<&Variant>)
        ensures
            match found {
                Some(value) => self@.contains_key(key@) && value@ == self@[key@],
                None => !self@.contains_key(key@),
            },
    {
        proof {
            use_type_invariant(self);
            lemma_fold_keys(self.entries@, key@);
        }
        match self.position(key) {
            Some(i) => {
                proof {
                    lemma_fold_value(self.entries@, i as int);
                }
                Some(&self.entries[i].1)
            },
            None => None,
        }
    }

    /// Whether the mapping has the key `key`.
    pub fn contains_key(&self, key: &str) -> (present: bool)
        ensures
            present == self@.contains_key(key@),
    {
        proof {
            lemma_fold_keys(self.entries@, key@);
        }
        self.position(key).is_some()
    }

    /// Writes `value` under `key`. A value that the mapping held under that key
    /// is replaced; every other key keeps its value.
    pub fn insert(&mut self, key: String, value: Variant)
        ensures
            final(self)@ == old(self)@.insert(key@, value@),
    {
        proof {
            use_type_invariant(&*self);
        }
        let found = self.position(key.as_str());
        let mut entries: Vec<(String, Variant)> = Vec::new();
        core::mem::swap(&mut self.entries, &mut entries);
        match found {
            Some(i) => {
                proof {
                    lemma_fold_update(entries@, i as int, key, value);
                }
                entries.set(i, (key, value));
            },
            None => {
                proof {
                    let extended = entries@.push((key, value));
                    assert(extended.drop_last() =~= entries@);
                }
                entries.push((key, value));
            },
        }
        core::mem::swap(&mut self.entries, &mut entries);
    }

    /// The entries in the order in which their keys were first written. No key
    /// occurs twice among them.
    pub fn entries(&self) -> (entries: &Vec<(String, Variant)>)
        ensures
            entries@ == self.spec_entries(),
            distinct_keys(entries@),
    {
        proof {
            use_type_invariant(self);
        }
        &self.entries
    }
}

/// Whether at most `budget` mappings stand inside one another in `v`.
pub open spec fn nests_within(v: Variant, budget: nat) -> bool
    decreases budget,
{
    match v {
        Variant::Mapping(d) => budget > 0 && forall|i: int|
            0 <= i < d.spec_entries().len() ==> nests_within(
                (#[trigger] d.spec_entries()[i]).1,
                (budget - 1) as nat,
            ),
        Variant::MapList(l) => budget > 0 && forall|r: int, i: int|
            0 <= r < l@.len() && 0 <= i < l@[r].spec_entries().len() ==> nests_within(
                (#[trigger] l@[r].spec_entries()[i]).1,
                (budget - 1) as nat,
            ),
        _ => true,
    }
}

/// An entry of a mapping is a smaller value than the mapping.
pub proof fn lemma_entry_is_smaller(d: Dict, i: int)
    requires
        0 <= i < d.spec_entries().len(),
    ensures
        decreases_to!(d => d.spec_entries()[i].1),
{
}

impl Variant {
    /// Get the string value of a variant, if any
    pub fn get_string(&self) -> (text: Option<&str>)
        ensures
            match self@ {
                Value::String(held) => text matches Some(t) && t@ == held,
                _ => text is None,
            },
    {
        match self {
            Variant::String(s) => Some(s.as_str()),
            _ => None,
        }
    }

    /// Get the integer value of a variant, if any
    pub fn get_int(&self) -> (number: Option<i64>)
        ensures
            match self@ {
                Value::Int64(held) => number == Some(held),
                _ => number is None,
            },
    {
        match self {
            Variant::Int64(i) => Some(*i),
            _ => None,
        }
    }

    /// Get the boolean value of a variant, if any
    pub fn get_bool(&self) -> (flag: Option<bool>)
        ensures
            match self@ {
                Value::Boolean(held) => flag == Some(held),
                _ => flag is None,
            },
    {
        match self {
            Variant::Boolean(b) => Some(*b),
            _ => None,
        }
    }

    /// Get the mapping value of a variant, if any
    pub fn get_map(&self) -> (mapping: Option<&Dict>)
        ensures
            match self@ {
                Value::Mapping(held) => mapping matches Some(d) && d@ == held,
                _ => mapping is None,
            },
    {
        match self {
            Variant::Mapping(m) => Some(m),
            _ => None,
        }
    }

    /// Get the mapping list value of a variant, if any
    pub fn get_maplist(&self) -> (list: Option<&[Dict]>)
        ensures
            match self@ {
                Value::MapList(held) => list matches Some(l) && mappings_of(l@) == held,
                _ => list is None,
            },
    {
        match self {
            Variant::MapList(l) => Some(l.as_slice()),
            _ => None,
        }
    }
}

impl View for Variant {
    type V = Value;

    open spec fn view(&self) -> Value {
        value_of(*self)
    }
}

impl View for Dict {
    type V = Map<Seq<char>, Value>;

    open spec fn view(&self) -> Map<Seq<char>, Value> {
        mapping_of(*self)
    }
}

/// The mappings of a list are as many as its items, and each is the mapping of
/// the item in its place.
pub proof fn lemma_mappings_of(dicts: Seq<Dict>)
    ensures
        mappings_of(dicts).len() == dicts.len(),
        forall|i: int| 0 <= i < dicts.len() ==> (#[trigger] mappings_of(dicts)[i]) == mapping_of(dicts[i]),
    decreases dicts.len(),
{
    if dicts.len() > 0 {
        lemma_mappings_of(dicts.drop_last());
    }
}

/// Entries with the same keys and the same values, one for one, fold to the
/// same mapping.
pub proof fn lemma_fold_same(a: Seq<(String, Variant)>, b: Seq<(String, Variant)>)
    requires
        a.len() == b.len(),
        forall|i: int|
            0 <= i < a.len() ==> (#[trigger] a[i]).0@ == b[i].0@ && value_of(a[i].1) == value_of(
                b[i].1,
            ),
    ensures
        fold_entries(a) == fold_entries(b),
    decreases a.len(),
{
    if a.len() > 0 {
        lemma_fold_same(a.drop_last(), b.drop_last());
    }
}

impl Variant {
    /// A copy of the value.
    pub fn duplicate(&self) -> (copy: Variant)
        ensures
            copy@ == self@,
        decreases self,
    {
        match self {
            Variant::String(held) => Variant::String(held.clone()),
            Variant::Boolean(held) => Variant::Boolean(*held),
            Variant::Int64(held) => Variant::Int64(*held),
            Variant::Mapping(dict) => Variant::Mapping(dict.duplicate()),
            Variant::MapList(list) => {
                let mut copies: Vec<Dict> = Vec::new();
                let mut i: usize = 0;
                while i < list.len()
                    invariant
                        i <= list@.len(),
                        copies@.len() == i,
                        *self == Variant::MapList(*list),
                        forall|k: int| 0 <= k < i ==> mapping_of(#[trigger] copies@[k]) == mapping_of(list@[k]),
                    decreases list@.len() - i,
                {
                    proof {
                        assert(decreases_to!(*self => self->MapList_0));
                        assert(decreases_to!(self->MapList_0 => (self->MapList_0)@));
                        assert(decreases_to!((self->MapList_0)@ => (self->MapList_0)@[i as int]));
                    }
                    let copy = list[i].duplicate();
                    copies.push(copy);
                    i += 1;
                }
                proof {
                    lemma_mappings_of(copies@);
                    lemma_mappings_of(list@);
                    assert(mappings_of(copies@) =~= mappings_of(list@));
                }
                Variant::MapList(copies)
            },
        }
    }

    /// Whether the two values are the same value: of one kind, and holding the
    /// same. Two mappings are the same where they have the same keys and the
    /// same value under each, in whatever order they were written.
    pub fn same(&self, other: &Variant) -> (same: bool)
        ensures
            same == (self@ == other@),
        decreases self,
    {
        match (self, other) {
            (Variant::String(a), Variant::String(b)) => *a == *b,
            (Variant::Boolean(a), Variant::Boolean(b)) => *a == *b,
            (Variant::Int64(a), Variant::Int64(b)) => *a == *b,
            (Variant::Mapping(a), Variant::Mapping(b)) => a.same(b),
            (Variant::MapList(a), Variant::MapList(b)) => {
                proof {
                    lemma_mappings_of(a@);
                    lemma_mappings_of(b@);
                }
                if a.len() != b.len() {
                    return false;
                }
                let mut i: usize = 0;
                while i < a.len()
                    invariant
                        i <= a@.len(),
                        a@.len() == b@.len(),
                        *self == Variant::MapList(*a),
                        *other == Variant::MapList(*b),
                        mappings_of(a@).len() == a@.len(),
                        mappings_of(b@).len() == b@.len(),
                        forall|k: int| 0 <= k < a@.len() ==> (#[trigger] mappings_of(a@)[k]) == mapping_of(a@[k]),
                        forall|k: int| 0 <= k < b@.len() ==> (#[trigger] mappings_of(b@)[k]) == mapping_of(b@[k]),
                        forall|k: int| 0 <= k < i ==> mapping_of(#[trigger] a@[k]) == mapping_of(b@[k]),
                    decreases a@.len() - i,
                {
                    proof {
                        assert(decreases_to!(*self => self->MapList_0));
                        assert(decreases_to!(self->MapList_0 => (self->MapList_0)@));
                        assert(decreases_to!((self->MapList_0)@ => (self->MapList_0)@[i as int]));
                    }
                    if !a[i].same(&b[i]) {
                        proof {
                            assert(mappings_of(a@)[i as int] != mappings_of(b@)[i as int]);
                        }
                        return false;
                    }
                    i += 1;
                }
                proof {
                    assert(mappings_of(a@) =~= mappings_of(b@));
                }
                true
            },
            _ => false,
        }
    }
}

impl Dict {
    /// A copy of the mapping.
    pub fn duplicate(&self) -> (copy: Dict)
        ensures
            copy@ == self@,
        decreases self,
    {
        proof {
            use_type_invariant(self);
        }
        let mut entries: Vec<(String, Variant)> = Vec::new();
        let mut i: usize = 0;
        while i < self.entries.len()
            invariant
                i <= self.entries@.len(),
                entries@.len() == i,
                forall|k: int|
                    0 <= k < i ==> (#[trigger] entries@[k]).0@ == self.entries@[k].0@ && value_of(
                        entries@[k].1,
                    ) == value_of(self.entries@[k].1),
            decreases self.entries@.len() - i,
        {
            let value = self.entries[i].1.duplicate();
            entries.push((self.entries[i].0.clone(), value));
            i += 1;
        }
        proof {
            lemma_fold_same(entries@, self.entries@);
        }
        Dict { entries }
    }

    /// Whether the two mappings have the same keys and the same value under
    /// each.
    pub fn same(&self, other: &Dict) -> (same: bool)
        ensures
            same == (self@ == other@),
        decreases self,
    {
        proof {
            use_type_invariant(self);
            use_type_invariant(other);
            lemma_fold_len(self.entries@);
            lemma_fold_len(other.entries@);
        }
        if self.entries.len() != other.entries.len() {
            return false;
        }
        let mut i: usize = 0;
        while i < self.entries.len()
            invariant
                i <= self.entries@.len(),
                distinct_keys(self.entries@),
                forall|k: int|
                    0 <= k < i ==> other@.contains_key((#[trigger] self.entries@[k]).0@) && other@[self.entries@[k].0@]
                        == value_of(self.entries@[k].1),
            decreases self.entries@.len() - i,
        {
            proof {
                lemma_fold_value(self.entries@, i as int);
            }
            match other.get(self.entries[i].0.as_str()) {
                None => {
                    return false;
                },
                Some(value) => {
                    if !self.entries[i].1.same(value) {
                        return false;
                    }
                },
            }
            i += 1;
        }
        proof {
            assert forall|key: Seq<char>| #[trigger]
                self@.dom().contains(key) implies other@.dom().contains(key) && self@[key]
                == other@[key] by {
                lemma_fold_keys(self.entries@, key);
                let k = choose|k: int| 0 <= k < self.entries@.len() && #[trigger] self.entries@[k].0@ == key;
                lemma_fold_value(self.entries@, k);
            }
            lemma_subset_equality(self@.dom(), other@.dom());
            assert(self@ =~= other@);
        }
        true
    }
}

impl Clone for Variant {
    fn clone(&self) -> (copy: Self)
        ensures
            copy@ == self@,
    {
        self.duplicate()
    }
}

impl Clone for Dict {
    fn clone(&self) -> (copy: Self)
        ensures
            copy@ == self@,
    {
        self.duplicate()
    }
}

impl PartialEq for Variant {
    fn eq(&self, other: &Self) -> (same: bool) {
        self.same(other)
    }
}

impl PartialEqSpecImpl for Variant {
    open spec fn obeys_eq_spec() -> bool {
        true
    }

    open spec fn eq_spec(&self, other: &Self) -> bool {
        self@ == other@
    }
}

impl PartialEq for Dict {
    fn eq(&self, other: &Self) -> (same: bool) {
        self.same(other)
    }
}

impl PartialEqSpecImpl for Dict {
    open spec fn obeys_eq_spec() -> bool {
        true
    }

    open spec fn eq_spec(&self, other: &Self) -> bool {
        self@ == other@
    }
}

} // verus!
