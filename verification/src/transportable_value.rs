//! The values that travel in message payloads.

use vstd::prelude::*;

verus! {

/// A list of values.
pub type List = Vec<TransportableValue>;

/// The mathematical content of a [`TransportableValue`].
pub enum ValueModel {
    Integer(u64),
    Text(Seq<char>),
    Bool(bool),
    List(Seq<ValueModel>),
    Dict(Seq<(Seq<char>, ValueModel)>),
}

/// The types of value which can be sent over RPC and pub/sub boundaries.
#[derive(Debug, Eq)]
pub enum TransportableValue {
    /// A non-negative integer.
    Integer(u64),
    /// A UTF-8 encoded string.
    String(String),
    /// A boolean value.
    Bool(bool),
    /// A list of other values.
    List(List),
    /// A string-to-value mapping.
    Dict(Dict),
}

/// A string-keyed mapping of values, kept as its entries in the order in
/// which their keys first came. The order does not count when two mappings
/// are compared.
#[derive(Debug, Eq)]
pub struct Dict {
    pub(crate) entries: Vec<(String, TransportableValue)>,
}

/// The content of each value of a list, in order.
pub open spec fn list_model(list: List) -> Seq<ValueModel>
    decreases list,
{
    Seq::new(
        list@.len(),
        |i: int|
            if 0 <= i < list@.len() {
                list@[i].model()
            } else {
                ValueModel::Bool(false)
            },
    )
}

impl TransportableValue {
    /// The content of the value.
    pub open spec fn model(self) -> ValueModel
        decreases self,
    {
        match self {
            TransportableValue::Integer(x) => ValueModel::Integer(x),
            TransportableValue::String(s) => ValueModel::Text(s@),
            TransportableValue::Bool(b) => ValueModel::Bool(b),
            TransportableValue::List(list) => ValueModel::List(list_model(list)),
            TransportableValue::Dict(dict) => ValueModel::Dict(dict.entries_model()),
        }
    }
}

/// Where `key` first stands among `entries`, if it does.
pub open spec fn dict_position(entries: Seq<(Seq<char>, ValueModel)>, key: Seq<char>) -> Option<int> {
    if exists|i: int| is_first_at(entries, key, i) {
        Some(choose|i: int| is_first_at(entries, key, i))
    } else {
        None
    }
}

/// Whether entry `i` holds `key` and no entry before it does.
pub open spec fn is_first_at(entries: Seq<(Seq<char>, ValueModel)>, key: Seq<char>, i: int) -> bool {
    &&& 0 <= i < entries.len()
    &&& entries[i].0 == key
    &&& forall|j: int| 0 <= j < i ==> (#[trigger] entries[j]).0 != key
}

/// The value that `entries` maps `key` to: that of the first entry holding
/// the key.
pub open spec fn dict_lookup(entries: Seq<(Seq<char>, ValueModel)>, key: Seq<char>) -> Option<ValueModel> {
    match dict_position(entries, key) {
        Some(i) => Some(entries[i].1),
        None => None,
    }
}

/// Whether no key stands twice among `entries`.
pub open spec fn distinct_keys(entries: Seq<(Seq<char>, ValueModel)>) -> bool {
    forall|i: int, j: int|
        0 <= i < j < entries.len() ==> (#[trigger] entries[i]).0 != (#[trigger] entries[j]).0
}

/// A key stands first at one place at most.
pub proof fn lemma_first_unique(entries: Seq<(Seq<char>, ValueModel)>, key: Seq<char>, i: int)
    requires
        is_first_at(entries, key, i),
    ensures
        dict_position(entries, key) == Some(i),
{
    let k = choose|k: int| is_first_at(entries, key, k);
    if k < i {
        assert(entries[k].0 == key);
    } else if i < k {
        assert(entries[i].0 == key);
    }
}

/// The entries of a dictionary after `key` is mapped to `value`: the value
/// takes the place of the key's earlier value, or the entry comes last.
pub open spec fn dict_put(
    entries: Seq<(Seq<char>, ValueModel)>,
    key: Seq<char>,
    value: ValueModel,
) -> Seq<(Seq<char>, ValueModel)> {
    match dict_position(entries, key) {
        Some(i) => entries.update(i, (key, value)),
        None => entries.push((key, value)),
    }
}

/// A key that some entry holds has a first place.
pub proof fn lemma_present(entries: Seq<(Seq<char>, ValueModel)>, key: Seq<char>, j: int)
    requires
        0 <= j < entries.len(),
        entries[j].0 == key,
    ensures
        dict_position(entries, key).is_some(),
    decreases j,
{
    if exists|k: int| 0 <= k < j && (#[trigger] entries[k]).0 == key {
        let k = choose|k: int| 0 <= k < j && (#[trigger] entries[k]).0 == key;
        lemma_present(entries, key, k);
    } else {
        assert(is_first_at(entries, key, j));
    }
}

/// The place of a key is where it first stands; a key without a place
/// stands nowhere.
pub proof fn lemma_position(entries: Seq<(Seq<char>, ValueModel)>, key: Seq<char>)
    ensures
        dict_position(entries, key) matches Some(i) ==> is_first_at(entries, key, i),
        dict_position(entries, key).is_none() ==> forall|j: int|
            0 <= j < entries.len() ==> (#[trigger] entries[j]).0 != key,
{
    if dict_position(entries, key).is_none() {
        assert forall|j: int| 0 <= j < entries.len() implies (#[trigger] entries[j]).0 != key by {
            if entries[j].0 == key {
                lemma_present(entries, key, j);
            }
        }
    }
}

/// Mapping a key to a value keeps the keys distinct, keeps the values that
/// were there but the one of that key, and adds at most one entry.
pub proof fn lemma_put_keeps_distinct(
    entries: Seq<(Seq<char>, ValueModel)>,
    key: Seq<char>,
    value: ValueModel,
)
    requires
        distinct_keys(entries),
    ensures
        distinct_keys(dict_put(entries, key, value)),
        entries.len() <= dict_put(entries, key, value).len() <= entries.len() + 1,
        forall|i: int|
            0 <= i < dict_put(entries, key, value).len() ==> {
                let entry = #[trigger] dict_put(entries, key, value)[i];
                entry.1 == value || (i < entries.len() && entry == entries[i])
            },
{
    lemma_position(entries, key);
    let after = dict_put(entries, key, value);
    assert forall|i: int, j: int| 0 <= i < j < after.len() implies (#[trigger] after[i]).0 != (
    #[trigger] after[j]).0 by {
        if i < entries.len() {
            assert(after[i].0 == entries[i].0);
        }
        if j < entries.len() {
            assert(after[j].0 == entries[j].0);
        }
    }
}

/// After a key is mapped to a value, the key maps to that value and every
/// other key maps to what it mapped to before.
pub proof fn lemma_put_then_lookup(
    entries: Seq<(Seq<char>, ValueModel)>,
    key: Seq<char>,
    value: ValueModel,
    other: Seq<char>,
)
    ensures
        dict_lookup(dict_put(entries, key, value), key) == Some(value),
        other != key ==> dict_lookup(dict_put(entries, key, value), other) == dict_lookup(
            entries,
            other,
        ),
{
    lemma_position(entries, key);
    lemma_position(entries, other);
    let after = dict_put(entries, key, value);
    match dict_position(entries, key) {
        Some(i) => {
            assert forall|j: int| 0 <= j < i implies (#[trigger] after[j]).0 != key by {
                assert(after[j] == entries[j]);
            }
            lemma_first_unique(after, key, i);
        },
        None => {
            assert forall|j: int| 0 <= j < entries.len() implies (#[trigger] after[j]).0 != key by {
                assert(after[j] == entries[j]);
            }
            lemma_first_unique(after, key, entries.len() as int);
        },
    }
    if other != key {
        match dict_position(entries, other) {
            Some(k) => {
                assert(after[k] == entries[k]);
                assert forall|j: int| 0 <= j < k implies (#[trigger] after[j]).0 != other by {
                    assert(after[j].0 == entries[j].0);
                }
                lemma_first_unique(after, other, k);
            },
            None => {
                assert forall|j: int| 0 <= j < after.len() implies (#[trigger] after[j]).0
                    != other by {
                    if j < entries.len() {
                        assert(after[j].0 == entries[j].0);
                    }
                }
                lemma_absent(after, other);
            },
        }
    }
}

/// A key that no entry holds has no place.
pub proof fn lemma_absent(entries: Seq<(Seq<char>, ValueModel)>, key: Seq<char>)
    requires
        forall|j: int| 0 <= j < entries.len() ==> (#[trigger] entries[j]).0 != key,
    ensures
        dict_position(entries, key).is_none(),
{
}

impl TransportableValue {
    /// Attempts to get the value, assuming it's an integer.
    pub fn into_int(self) -> (r: Option<u64>)
        ensures
            r == match self {
                TransportableValue::Integer(x) => Some(x),
                _ => None,
            },
    {
        match self {
            TransportableValue::Integer(x) => Some(x),
            _ => None,
        }
    }

    /// Attempts to get the value, assuming it's a String.
    pub fn into_string(self) -> (r: Option<String>)
        ensures
            r == match self {
                TransportableValue::String(x) => Some(x),
                _ => None,
            },
    {
        match self {
            TransportableValue::String(x) => Some(x),
            _ => None,
        }
    }

    /// Attempts to get the value, assuming it's a boolean.
    pub fn into_bool(self) -> (r: Option<bool>)
        ensures
            r == match self {
                TransportableValue::Bool(x) => Some(x),
                _ => None,
            },
    {
        match self {
            TransportableValue::Bool(x) => Some(x),
            _ => None,
        }
    }

    /// Attempts to get the value, assuming it's a list.
    pub fn into_list(self) -> (r: Option<Vec<TransportableValue>>)
        ensures
            r == match self {
                TransportableValue::List(x) => Some(x),
                _ => None,
            },
    {
        match self {
            TransportableValue::List(x) => Some(x),
            _ => None,
        }
    }

    /// Attempts to get the value, assuming it's a dictionary.
    pub fn into_dict(self) -> (r: Option<Dict>)
        ensures
            r == match self {
                TransportableValue::Dict(x) => Some(x),
                _ => None,
            },
    {
        match self {
            TransportableValue::Dict(x) => Some(x),
            _ => None,
        }
    }
}

impl Clone for TransportableValue {
    /// A deep copy: the copy has the content of the value.
    fn clone(&self) -> (copy: Self)
        ensures
            copy.model() == self.model(),
        decreases self,
    {
        match self {
            TransportableValue::Integer(x) => TransportableValue::Integer(*x),
            TransportableValue::String(s) => TransportableValue::String(s.clone()),
            TransportableValue::Bool(b) => TransportableValue::Bool(*b),
            TransportableValue::List(list) => TransportableValue::List(clone_list(list)),
            TransportableValue::Dict(dict) => TransportableValue::Dict(dict.clone()),
        }
    }
}

/// A deep copy of a list.
pub fn clone_list(list: &List) -> (copy: List)
    ensures
        list_model(copy) == list_model(*list),
    decreases list,
{
    let mut copy: Vec<TransportableValue> = Vec::new();
    let mut i: usize = 0;
    while i < list.len()
        invariant
            i <= list.len(),
            copy@.len() == i,
            forall|j: int| 0 <= j < i ==> (#[trigger] copy@[j]).model() == list@[j].model(),
        decreases list.len() - i,
    {
        copy.push(list[i].clone());
        i += 1;
    }
    proof {
        assert(list_model(copy) =~= list_model(*list));
    }
    copy
}

impl Clone for Dict {
    /// A deep copy: the same keys with the same contents, in the same order.
    fn clone(&self) -> (copy: Self)
        ensures
            copy.entries_model() == self.entries_model(),
        decreases self,
    {
        let mut entries: Vec<(String, TransportableValue)> = Vec::new();
        let mut i: usize = 0;
        while i < self.entries.len()
            invariant
                i <= self.entries.len(),
                entries@.len() == i,
                forall|j: int|
                    0 <= j < i ==> (#[trigger] entries@[j]).0@ == self.entries@[j].0@
                        && entries@[j].1.model() == self.entries@[j].1.model(),
            decreases self.entries.len() - i,
        {
            let key = self.entries[i].0.clone();
            let value = self.entries[i].1.clone();
            entries.push((key, value));
            i += 1;
        }
        let copy = Dict { entries };
        proof {
            assert(copy.entries_model() =~= self.entries_model());
        }
        copy
    }
}

impl Default for Dict {
    /// A mapping without entries.
    fn default() -> (dict: Dict)
        ensures
            dict.entries_model() == Seq::<(Seq<char>, ValueModel)>::empty(),
    {
        Dict::new()
    }
}

impl Dict {
    /// Whether no key stands twice in the mapping. A mapping that was made
    /// empty and filled by `insert` is of this kind.
    pub open spec fn wf(self) -> bool {
        distinct_keys(self.entries_model())
    }

    /// A mapping without entries.
    pub fn new() -> (dict: Dict)
        ensures
            dict.entries_model() == Seq::<(Seq<char>, ValueModel)>::empty(),
            dict.wf(),
    {
        let dict = Dict { entries: Vec::new() };
        proof {
            assert(dict.entries_model() =~= Seq::<(Seq<char>, ValueModel)>::empty());
        }
        dict
    }

    /// The number of entries.
    pub fn len(&self) -> (n: usize)
        ensures
            n == self.entries_model().len(),
    {
        self.entries.len()
    }

    /// The index of the first entry that holds `key`.
    fn find(&self, key: &str) -> (at: Option<usize>)
        ensures
            at matches Some(i) ==> dict_position(self.entries_model(), key@) == Some(i as int),
            at.is_none() ==> dict_position(self.entries_model(), key@).is_none(),
    {
        let wanted: String = key.to_owned();
        let mut i: usize = 0;
        while i < self.entries.len()
            invariant
                i <= self.entries.len(),
                wanted@ == key@,
                forall|j: int| 0 <= j < i ==> (#[trigger] self.entries_model()[j]).0 != key@,
            decreases self.entries.len() - i,
        {
            if self.entries[i].0 == wanted {
                proof {
                    assert(self.entries_model()[i as int].0 == key@);
                    lemma_first_unique(self.entries_model(), key@, i as int);
                }
                return Some(i);
            }
            proof {
                assert(self.entries_model()[i as int].0 != key@);
            }
            i += 1;
        }
        proof {
            lemma_absent(self.entries_model(), key@);
        }
        None
    }

    /// The value that `key` maps to.
    pub fn get(&self, key: &str) -> (value: Option<&TransportableValue>)
        ensures
            match dict_lookup(self.entries_model(), key@) {
                Some(content) => value.is_some() && value.unwrap().model() == content,
                None => value.is_none(),
            },
    {
        match self.find(key) {
            Some(i) => Some(&self.entries[i].1),
            None => None,
        }
    }

    /// Maps `key` to `value`. Where the key had a value, the new one takes
    /// its place; else the entry comes last. Returns whether the key is new.
    pub fn insert(&mut self, key: String, value: TransportableValue) -> (fresh: bool)
        requires
            old(self).entries_model().len() < usize::MAX,
        ensures
            fresh == dict_position(old(self).entries_model(), key@).is_none(),
            final(self).entries_model() == dict_put(old(self).entries_model(), key@, value.model()),
            old(self).wf() ==> final(self).wf(),
    {
        proof {
            if old(self).wf() {
                lemma_put_keeps_distinct(old(self).entries_model(), key@, value.model());
            }
        }
        match self.find(key.as_str()) {
            Some(i) => {
                self.entries.set(i, (key, value));
                proof {
                    assert(final(self).entries_model() =~= old(self).entries_model().update(
                        i as int,
                        (key@, value.model()),
                    ));
                }
                false
            },
            None => {
                self.entries.push((key, value));
                proof {
                    assert(final(self).entries_model() =~= old(self).entries_model().push(
                        (key@, value.model()),
                    ));
                }
                true
            },
        }
    }

    /// The entries, each as its key and the content of its value.
    pub closed spec fn entries_model(self) -> Seq<(Seq<char>, ValueModel)>
        decreases self,
    {
        pairs_model(self.entries)
    }

    /// The entries as they are stored.
    pub fn entries(&self) -> (entries: &Vec<(String, TransportableValue)>)
        ensures
            pairs_model(*entries) == self.entries_model(),
    {
        &self.entries
    }
}

/// Each pair as its key and the content of its value, in order.
pub open spec fn pairs_model(pairs: Vec<(String, TransportableValue)>) -> Seq<(Seq<char>, ValueModel)>
    decreases pairs,
{
    Seq::new(
        pairs@.len(),
        |i: int|
            if 0 <= i < pairs@.len() {
                (pairs@[i].0@, pairs@[i].1.model())
            } else {
                (Seq::empty(), ValueModel::Bool(false))
            },
    )
}

/// Whether two values are the same: leaves are equal, lists hold the same
/// values in the same order, and dictionaries map the same keys to the same
/// values, in whatever order the keys came.
pub open spec fn same_value(a: ValueModel, b: ValueModel) -> bool
    decreases a,
{
    match a {
        ValueModel::Integer(x) => b == ValueModel::Integer(x),
        ValueModel::Text(x) => b == ValueModel::Text(x),
        ValueModel::Bool(x) => b == ValueModel::Bool(x),
        ValueModel::List(x) => b matches ValueModel::List(y) && same_items(x, y),
        ValueModel::Dict(x) => b matches ValueModel::Dict(y) && same_entries(x, y),
    }
}

/// Whether two lists hold the same values in the same order.
pub open spec fn same_items(a: Seq<ValueModel>, b: Seq<ValueModel>) -> bool
    decreases a,
{
    a.len() == b.len() && forall|i: int| 0 <= i < a.len() ==> same_value(#[trigger] a[i], b[i])
}

/// Whether two dictionaries have as many entries and the second maps each
/// key of the first to the same value.
pub open spec fn same_entries(
    a: Seq<(Seq<char>, ValueModel)>,
    b: Seq<(Seq<char>, ValueModel)>,
) -> bool
    decreases a,
{
    a.len() == b.len() && forall|i: int| 0 <= i < a.len() ==> same_entry(#[trigger] a[i], b)
}

/// Whether a dictionary maps the key of an entry to the same value.
pub open spec fn same_entry(entry: (Seq<char>, ValueModel), b: Seq<(Seq<char>, ValueModel)>) -> bool
    decreases entry,
{
    match dict_position(b, entry.0) {
        Some(j) => 0 <= j < b.len() && same_value(entry.1, b[j].1),
        None => false,
    }
}

impl TransportableValue {
    /// Whether this value and `other` are the same value.
    pub fn same_as(&self, other: &TransportableValue) -> (same: bool)
        ensures
            same == same_value(self.model(), other.model()),
        decreases self,
    {
        match self {
            TransportableValue::Integer(x) => match other {
                TransportableValue::Integer(y) => *x == *y,
                _ => false,
            },
            TransportableValue::String(x) => match other {
                TransportableValue::String(y) => *x == *y,
                _ => false,
            },
            TransportableValue::Bool(x) => match other {
                TransportableValue::Bool(y) => *x == *y,
                _ => false,
            },
            TransportableValue::List(x) => match other {
                TransportableValue::List(y) => same_list(x, y),
                _ => false,
            },
            TransportableValue::Dict(x) => match other {
                TransportableValue::Dict(y) => x.same_as(y),
                _ => false,
            },
        }
    }
}

/// Whether two lists hold the same values in the same order.
pub fn same_list(a: &List, b: &List) -> (same: bool)
    ensures
        same == same_items(list_model(*a), list_model(*b)),
    decreases a,
{
    if a.len() != b.len() {
        return false;
    }
    let mut i: usize = 0;
    while i < a.len()
        invariant
            i <= a.len(),
            a.len() == b.len(),
            forall|k: int| 0 <= k < i ==> same_value(#[trigger] list_model(*a)[k], list_model(*b)[k]),
        decreases a.len() - i,
    {
        if !a[i].same_as(&b[i]) {
            proof {
                assert(!same_value(list_model(*a)[i as int], list_model(*b)[i as int]));
            }
            return false;
        }
        i += 1;
    }
    true
}

impl Dict {
    /// Whether this mapping and `other` map the same keys to the same
    /// values.
    pub fn same_as(&self, other: &Dict) -> (same: bool)
        ensures
            same == same_entries(self.entries_model(), other.entries_model()),
        decreases self,
    {
        if self.entries.len() != other.entries.len() {
            return false;
        }
        let mut i: usize = 0;
        while i < self.entries.len()
            invariant
                i <= self.entries.len(),
                self.entries.len() == other.entries.len(),
                forall|k: int|
                    0 <= k < i ==> same_entry(#[trigger] self.entries_model()[k], other.entries_model()),
            decreases self.entries.len() - i,
        {
            proof {
                lemma_position(other.entries_model(), self.entries@[i as int].0@);
            }
            match other.find(self.entries[i].0.as_str()) {
                Some(j) => {
                    if !self.entries[i].1.same_as(&other.entries[j].1) {
                        proof {
                            assert(!same_entry(
                                self.entries_model()[i as int],
                                other.entries_model(),
                            ));
                        }
                        return false;
                    }
                },
                None => {
                    proof {
                        assert(!same_entry(self.entries_model()[i as int], other.entries_model()));
                    }
                    return false;
                },
            }
            i += 1;
        }
        true
    }
}

impl PartialEq for TransportableValue {
    /// Values are equal where they are the same value.
    fn eq(&self, other: &TransportableValue) -> (same: bool) {
        self.same_as(other)
    }
}

impl vstd::std_specs::cmp::PartialEqSpecImpl for TransportableValue {
    open spec fn obeys_eq_spec() -> bool {
        true
    }

    open spec fn eq_spec(&self, other: &TransportableValue) -> bool {
        same_value(self.model(), other.model())
    }
}

impl PartialEq for Dict {
    /// Mappings are equal where they map the same keys to the same values.
    fn eq(&self, other: &Dict) -> (same: bool) {
        self.same_as(other)
    }
}

impl vstd::std_specs::cmp::PartialEqSpecImpl for Dict {
    open spec fn obeys_eq_spec() -> bool {
        true
    }

    open spec fn eq_spec(&self, other: &Dict) -> bool {
        same_entries(self.entries_model(), other.entries_model())
    }
}

/// Whether no dictionary in a value, at any depth, holds a key twice.
pub open spec fn well_keyed(value: ValueModel) -> bool
    decreases value,
{
    match value {
        ValueModel::List(items) => forall|i: int|
            0 <= i < items.len() ==> well_keyed(#[trigger] items[i]),
        ValueModel::Dict(entries) => distinct_keys(entries) && forall|i: int|
            0 <= i < entries.len() ==> well_keyed((#[trigger] entries[i]).1),
        _ => true,
    }
}

/// A value whose dictionaries hold no key twice is the same as itself.
pub proof fn lemma_same_value_reflexive(value: ValueModel)
    requires
        well_keyed(value),
    ensures
        same_value(value, value),
    decreases value,
{
    match value {
        ValueModel::List(items) => {
            assert forall|i: int| 0 <= i < items.len() implies same_value(
                #[trigger] items[i],
                items[i],
            ) by {
                lemma_same_value_reflexive(items[i]);
            }
        },
        ValueModel::Dict(entries) => {
            assert forall|i: int| 0 <= i < entries.len() implies same_entry(
                #[trigger] entries[i],
                entries,
            ) by {
                lemma_first_unique(entries, entries[i].0, i);
                lemma_same_value_reflexive(entries[i].1);
            }
        },
        _ => {},
    }
}

} // verus!
