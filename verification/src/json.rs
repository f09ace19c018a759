//! JSON documents as the router sends them, and their conversion into the
//! value model.

use vstd::prelude::*;
use crate::transportable_value::dict_put;
use crate::transportable_value::distinct_keys;
use crate::transportable_value::lemma_put_keeps_distinct;
use crate::transportable_value::well_keyed;
use crate::transportable_value::lemma_absent;
use crate::transportable_value::list_model;
use crate::transportable_value::Dict;
use crate::transportable_value::TransportableValue;
use crate::transportable_value::ValueModel;

verus! {

/// A JSON document. A number is an unsigned integer, a negative integer, or
/// a floating-point number, of which only the kind is kept.
#[derive(Debug, PartialEq, Eq)]
pub enum Json {
    Null,
    Bool(bool),
    Unsigned(u64),
    Negative(i64),
    Float,
    String(String),
    Array(Vec<Json>),
    Object(Vec<(String, Json)>),
}

/// The mathematical content of a [`Json`] document.
pub enum JsonModel {
    Null,
    Bool(bool),
    Unsigned(u64),
    Negative(i64),
    Float,
    Text(Seq<char>),
    Array(Seq<JsonModel>),
    Object(Seq<(Seq<char>, JsonModel)>),
}

/// Why a document has no counterpart in the value model.
#[derive(Clone, Copy, Debug, PartialEq, Eq, Structural)]
pub enum ConversionError {
    /// The document holds a null.
    Null,
    /// The document holds a negative or a floating-point number.
    NotUnsigned,
}

/// The content of each document of an array, in order.
pub open spec fn array_model(items: Vec<Json>) -> Seq<JsonModel>
    decreases items,
{
    Seq::new(
        items@.len(),
        |i: int|
            if 0 <= i < items@.len() {
                items@[i].model()
            } else {
                JsonModel::Null
            },
    )
}

/// The content of each member of an object, in order.
pub open spec fn object_model(entries: Vec<(String, Json)>) -> Seq<(Seq<char>, JsonModel)>
    decreases entries,
{
    Seq::new(
        entries@.len(),
        |i: int|
            if 0 <= i < entries@.len() {
                (entries@[i].0@, entries@[i].1.model())
            } else {
                (Seq::empty(), JsonModel::Null)
            },
    )
}

impl Json {
    /// The content of the document.
    pub open spec fn model(self) -> JsonModel
        decreases self,
    {
        match self {
            Json::Null => JsonModel::Null,
            Json::Bool(b) => JsonModel::Bool(b),
            Json::Unsigned(n) => JsonModel::Unsigned(n),
            Json::Negative(n) => JsonModel::Negative(n),
            Json::Float => JsonModel::Float,
            Json::String(s) => JsonModel::Text(s@),
            Json::Array(items) => JsonModel::Array(array_model(items)),
            Json::Object(entries) => JsonModel::Object(object_model(entries)),
        }
    }

    /// The document as an unsigned integer, if it is one.
    pub fn as_u64(&self) -> (n: Option<u64>)
        ensures
            n == unsigned_of(self.model()),
    {
        match self {
            Json::Unsigned(n) => Some(*n),
            _ => None,
        }
    }
}

/// The unsigned integer that a document is, if it is one.
pub open spec fn unsigned_of(json: JsonModel) -> Option<u64> {
    match json {
        JsonModel::Unsigned(n) => Some(n),
        _ => None,
    }
}

/// The value that a document stands for. A null, a negative number and a
/// floating-point number stand for none; of an array or an object the first
/// member, in order, that stands for none decides the error.
pub open spec fn convert(json: JsonModel) -> Result<ValueModel, ConversionError>
    decreases json, 0nat,
{
    match json {
        JsonModel::Null => Err(ConversionError::Null),
        JsonModel::Bool(b) => Ok(ValueModel::Bool(b)),
        JsonModel::Unsigned(n) => Ok(ValueModel::Integer(n)),
        JsonModel::Negative(_) => Err(ConversionError::NotUnsigned),
        JsonModel::Float => Err(ConversionError::NotUnsigned),
        JsonModel::Text(s) => Ok(ValueModel::Text(s)),
        JsonModel::Array(items) => match convert_items(items, items.len()) {
            Ok(list) => Ok(ValueModel::List(list)),
            Err(e) => Err(e),
        },
        JsonModel::Object(entries) => match convert_entries(entries, entries.len()) {
            Ok(dict) => Ok(ValueModel::Dict(dict)),
            Err(e) => Err(e),
        },
    }
}

/// The values that the first `n` documents of `items` stand for.
pub open spec fn convert_items(items: Seq<JsonModel>, n: nat) -> Result<Seq<ValueModel>, ConversionError>
    decreases items, n,
{
    if n == 0 || n > items.len() {
        Ok(Seq::empty())
    } else {
        match convert_items(items, (n - 1) as nat) {
            Err(e) => Err(e),
            Ok(done) => match convert(items[n - 1]) {
                Err(e) => Err(e),
                Ok(value) => Ok(done.push(value)),
            },
        }
    }
}

/// The dictionary that the first `n` members of `entries` stand for.
pub open spec fn convert_entries(entries: Seq<(Seq<char>, JsonModel)>, n: nat) -> Result<
    Seq<(Seq<char>, ValueModel)>,
    ConversionError,
>
    decreases entries, n,
{
    if n == 0 || n > entries.len() {
        Ok(Seq::empty())
    } else {
        match convert_entries(entries, (n - 1) as nat) {
            Err(e) => Err(e),
            Ok(done) => match convert(entries[n - 1].1) {
                Err(e) => Err(e),
                Ok(value) => Ok(dict_put(done, entries[n - 1].0, value)),
            },
        }
    }
}

/// Converting `n` members gives at most `n` entries.
pub proof fn lemma_convert_entries_len(entries: Seq<(Seq<char>, JsonModel)>, n: nat)
    requires
        n <= entries.len(),
    ensures
        convert_entries(entries, n) matches Ok(done) ==> done.len() <= n,
    decreases n,
{
    if n > 0 {
        lemma_convert_entries_len(entries, (n - 1) as nat);
    }
}

impl TransportableValue {
    /// Converts a JSON document into a value: `Ok` with the value that the
    /// document stands for, or the error that says why it stands for none.
    pub fn try_from(value: &Json) -> (r: Result<TransportableValue, ConversionError>)
        ensures
            match convert(value.model()) {
                Ok(content) => r.is_ok() && r.unwrap().model() == content,
                Err(e) => r == Err::<TransportableValue, ConversionError>(e),
            },
        decreases value,
    {
        match value {
            Json::Null => Err(ConversionError::Null),
            Json::Bool(b) => Ok(TransportableValue::Bool(*b)),
            Json::Unsigned(n) => Ok(TransportableValue::Integer(*n)),
            Json::Negative(_) => Err(ConversionError::NotUnsigned),
            Json::Float => Err(ConversionError::NotUnsigned),
            Json::String(s) => Ok(TransportableValue::String(s.clone())),
            Json::Array(items) => {
                let mut list: Vec<TransportableValue> = Vec::new();
                let mut i: usize = 0;
                assert(list_model(list) =~= Seq::empty());
                while i < items.len()
                    invariant
                        i <= items.len(),
                        *value == Json::Array(*items),
                        convert_items(array_model(*items), i as nat) == Ok::<
                            Seq<ValueModel>,
                            ConversionError,
                        >(list_model(list)),
                    decreases items.len() - i,
                {
                    match TransportableValue::try_from(&items[i]) {
                        Ok(v) => {
                            let ghost before = list_model(list);
                            let ghost content = v.model();
                            list.push(v);
                            proof {
                                assert(array_model(*items)[i as int] == items@[i as int].model());
                                assert(list_model(list) =~= before.push(content));
                            }
                        },
                        Err(e) => {
                            proof {
                                assert(array_model(*items)[i as int] == items@[i as int].model());
                                lemma_items_error_stays(
                                    array_model(*items),
                                    (i + 1) as nat,
                                    items.len() as nat,
                                );
                            }
                            return Err(e);
                        },
                    }
                    i += 1;
                }
                Ok(TransportableValue::List(list))
            },
            Json::Object(entries) => {
                let mut dict = Dict::new();
                let mut i: usize = 0;
                while i < entries.len()
                    invariant
                        i <= entries.len(),
                        *value == Json::Object(*entries),
                        convert_entries(object_model(*entries), i as nat) == Ok::<
                            Seq<(Seq<char>, ValueModel)>,
                            ConversionError,
                        >(dict.entries_model()),
                    decreases entries.len() - i,
                {
                    proof {
                        lemma_convert_entries_len(object_model(*entries), i as nat);
                        assert(object_model(*entries)[i as int] == (
                            entries@[i as int].0@,
                            entries@[i as int].1.model(),
                        ));
                    }
                    match TransportableValue::try_from(&entries[i].1) {
                        Ok(v) => {
                            dict.insert(entries[i].0.clone(), v);
                        },
                        Err(e) => {
                            proof {
                                lemma_entries_error_stays(
                                    object_model(*entries),
                                    (i + 1) as nat,
                                    entries.len() as nat,
                                );
                            }
                            return Err(e);
                        },
                    }
                    i += 1;
                }
                Ok(TransportableValue::Dict(dict))
            },
        }
    }
}

/// Once a prefix of an array fails to convert, every longer prefix fails
/// with the same error.
pub proof fn lemma_items_error_stays(items: Seq<JsonModel>, n: nat, m: nat)
    requires
        n <= m <= items.len(),
        convert_items(items, n).is_err(),
    ensures
        convert_items(items, m) == convert_items(items, n),
    decreases m,
{
    if n < m {
        lemma_items_error_stays(items, n, (m - 1) as nat);
    }
}

/// Once a prefix of an object fails to convert, every longer prefix fails
/// with the same error.
pub proof fn lemma_entries_error_stays(entries: Seq<(Seq<char>, JsonModel)>, n: nat, m: nat)
    requires
        n <= m <= entries.len(),
        convert_entries(entries, n).is_err(),
    ensures
        convert_entries(entries, m) == convert_entries(entries, n),
    decreases m,
{
    if n < m {
        lemma_entries_error_stays(entries, n, (m - 1) as nat);
    }
}

/// The JSON document that stands for a value.
pub open spec fn json_of(value: ValueModel) -> JsonModel
    decreases value,
{
    match value {
        ValueModel::Integer(n) => JsonModel::Unsigned(n),
        ValueModel::Text(s) => JsonModel::Text(s),
        ValueModel::Bool(b) => JsonModel::Bool(b),
        ValueModel::List(items) => JsonModel::Array(json_of_items(items)),
        ValueModel::Dict(entries) => JsonModel::Object(json_of_entries(entries)),
    }
}

/// The documents that stand for the values of a list.
pub open spec fn json_of_items(items: Seq<ValueModel>) -> Seq<JsonModel>
    decreases items,
{
    Seq::new(
        items.len(),
        |i: int|
            if 0 <= i < items.len() {
                json_of(items[i])
            } else {
                JsonModel::Null
            },
    )
}

/// The members that stand for the entries of a dictionary.
pub open spec fn json_of_entries(entries: Seq<(Seq<char>, ValueModel)>) -> Seq<
    (Seq<char>, JsonModel),
>
    decreases entries,
{
    Seq::new(
        entries.len(),
        |i: int|
            if 0 <= i < entries.len() {
                (entries[i].0, json_of(entries[i].1))
            } else {
                (Seq::empty(), JsonModel::Null)
            },
    )
}

/// Whether a document holds no null, no negative number and no
/// floating-point number, at any depth.
pub open spec fn representable(json: JsonModel) -> bool
    decreases json,
{
    match json {
        JsonModel::Null => false,
        JsonModel::Negative(_) => false,
        JsonModel::Float => false,
        JsonModel::Array(items) => forall|i: int|
            0 <= i < items.len() ==> representable(#[trigger] items[i]),
        JsonModel::Object(entries) => forall|i: int|
            0 <= i < entries.len() ==> representable((#[trigger] entries[i]).1),
        _ => true,
    }
}

/// A document converts to a value exactly where it holds no null, no
/// negative number and no floating-point number, however deep.
pub proof fn lemma_convert_ok_iff_representable(json: JsonModel)
    ensures
        convert(json).is_ok() <==> representable(json),
    decreases json, 0nat,
{
    match json {
        JsonModel::Array(items) => {
            lemma_items_ok_iff(items, items.len());
        },
        JsonModel::Object(entries) => {
            lemma_entries_ok_iff(entries, entries.len());
        },
        _ => {},
    }
}

/// The first `n` documents of an array convert exactly where each of them
/// is representable.
pub proof fn lemma_items_ok_iff(items: Seq<JsonModel>, n: nat)
    requires
        n <= items.len(),
    ensures
        convert_items(items, n).is_ok() <==> forall|i: int|
            0 <= i < n ==> representable(#[trigger] items[i]),
    decreases items, n,
{
    if n > 0 {
        lemma_items_ok_iff(items, (n - 1) as nat);
        lemma_convert_ok_iff_representable(items[n - 1]);
        if convert_items(items, n).is_ok() {
            assert forall|i: int| 0 <= i < n implies representable(#[trigger] items[i]) by {
                if i < n - 1 {
                } else {
                    assert(i == n - 1);
                }
            }
        }
    }
}

/// The first `n` members of an object convert exactly where the document of
/// each of them is representable.
pub proof fn lemma_entries_ok_iff(entries: Seq<(Seq<char>, JsonModel)>, n: nat)
    requires
        n <= entries.len(),
    ensures
        convert_entries(entries, n).is_ok() <==> forall|i: int|
            0 <= i < n ==> representable((#[trigger] entries[i]).1),
    decreases entries, n,
{
    if n > 0 {
        lemma_entries_ok_iff(entries, (n - 1) as nat);
        lemma_convert_ok_iff_representable(entries[n - 1].1);
        if convert_entries(entries, n).is_ok() {
            assert forall|i: int| 0 <= i < n implies representable((#[trigger] entries[i]).1) by {
                if i < n - 1 {
                } else {
                    assert(i == n - 1);
                }
            }
        }
    }
}

/// A value whose dictionaries hold no key twice comes back unchanged from
/// the document that stands for it, whatever the depth of its lists and
/// dictionaries.
pub proof fn lemma_value_roundtrip(value: ValueModel)
    requires
        well_keyed(value),
    ensures
        convert(json_of(value)) == Ok::<ValueModel, ConversionError>(value),
    decreases value, 0nat,
{
    match value {
        ValueModel::List(items) => {
            lemma_items_roundtrip(items, items.len());
            assert(items.take(items.len() as int) =~= items);
        },
        ValueModel::Dict(entries) => {
            lemma_entries_roundtrip(entries, entries.len());
            assert(entries.take(entries.len() as int) =~= entries);
        },
        _ => {},
    }
}

/// The first `n` values of a list come back unchanged.
pub proof fn lemma_items_roundtrip(items: Seq<ValueModel>, n: nat)
    requires
        n <= items.len(),
        forall|i: int| 0 <= i < items.len() ==> well_keyed(#[trigger] items[i]),
    ensures
        convert_items(json_of_items(items), n) == Ok::<Seq<ValueModel>, ConversionError>(
            items.take(n as int),
        ),
    decreases items, n,
{
    if n > 0 {
        lemma_items_roundtrip(items, (n - 1) as nat);
        lemma_value_roundtrip(items[n - 1]);
        assert(json_of_items(items)[n - 1] == json_of(items[n - 1]));
        assert(items.take(n - 1).push(items[n - 1]) =~= items.take(n as int));
    } else {
        assert(items.take(0) =~= Seq::<ValueModel>::empty());
    }
}

/// The first `n` entries of a dictionary without repeated keys come back
/// unchanged.
pub proof fn lemma_entries_roundtrip(entries: Seq<(Seq<char>, ValueModel)>, n: nat)
    requires
        n <= entries.len(),
        distinct_keys(entries),
        forall|i: int| 0 <= i < entries.len() ==> well_keyed((#[trigger] entries[i]).1),
    ensures
        convert_entries(json_of_entries(entries), n) == Ok::<
            Seq<(Seq<char>, ValueModel)>,
            ConversionError,
        >(entries.take(n as int)),
    decreases entries, n,
{
    if n > 0 {
        lemma_entries_roundtrip(entries, (n - 1) as nat);
        lemma_value_roundtrip(entries[n - 1].1);
        let done = entries.take(n - 1);
        assert(json_of_entries(entries)[n - 1] == (entries[n - 1].0, json_of(entries[n - 1].1)));
        assert forall|j: int| 0 <= j < done.len() implies (#[trigger] done[j]).0 != entries[n
            - 1].0 by {
            assert(done[j] == entries[j]);
        }
        lemma_absent(done, entries[n - 1].0);
        assert(done.push(entries[n - 1]) =~= entries.take(n as int));
    } else {
        assert(entries.take(0) =~= Seq::<(Seq<char>, ValueModel)>::empty());
    }
}

/// What a document converts to holds no key twice in any of its
/// dictionaries.
pub proof fn lemma_convert_well_keyed(json: JsonModel)
    ensures
        convert(json) matches Ok(value) ==> well_keyed(value),
    decreases json, 0nat,
{
    match json {
        JsonModel::Array(items) => {
            lemma_items_well_keyed(items, items.len());
        },
        JsonModel::Object(entries) => {
            lemma_entries_well_keyed(entries, entries.len());
        },
        _ => {},
    }
}

/// What the first `n` documents of an array convert to is well keyed.
pub proof fn lemma_items_well_keyed(items: Seq<JsonModel>, n: nat)
    requires
        n <= items.len(),
    ensures
        convert_items(items, n) matches Ok(done) ==> forall|i: int|
            0 <= i < done.len() ==> well_keyed(#[trigger] done[i]),
    decreases items, n,
{
    if n > 0 {
        lemma_items_well_keyed(items, (n - 1) as nat);
        lemma_convert_well_keyed(items[n - 1]);
    }
}

/// What the first `n` members of an object convert to holds no key twice,
/// and each of its values is well keyed.
pub proof fn lemma_entries_well_keyed(entries: Seq<(Seq<char>, JsonModel)>, n: nat)
    requires
        n <= entries.len(),
    ensures
        convert_entries(entries, n) matches Ok(done) ==> distinct_keys(done) && forall|i: int|
            0 <= i < done.len() ==> well_keyed((#[trigger] done[i]).1),
    decreases entries, n,
{
    if n > 0 {
        lemma_entries_well_keyed(entries, (n - 1) as nat);
        lemma_convert_well_keyed(entries[n - 1].1);
        if let Ok(before) = convert_entries(entries, (n - 1) as nat) {
            if let Ok(value) = convert(entries[n - 1].1) {
                lemma_put_keeps_distinct(before, entries[n - 1].0, value);
            }
        }
    }
}

} // verus!
