//! Conversion of wire values into typed values.
//!
//! Each target type states its conversion rule as a function on models,
//! [`TryFromValue::converted`], and `try_from` computes it.

use vstd::prelude::*;
use crate::error::decode_failure;
use crate::error::AmqpError;
use crate::error::ErrorView;
use crate::symbol::Symbol;
use crate::text::lossy_text;
use crate::text::text_from_utf8_lossy;
use crate::text_map::TextMap;
use crate::value::lemma_collection_models;
use crate::value::models;
use crate::value::pair_models;
use crate::value::Value;
use crate::value::ValueView;

verus! {

/// The outcome `r` of a conversion is the one that the model `m` gives: the
/// same value, or the same error.
pub open spec fn agrees<T: DeepView>(r: Result<T, AmqpError>, m: Result<T::V, ErrorView>) -> bool {
    match r {
        Ok(t) => m == Ok::<T::V, ErrorView>(t.deep_view()),
        Err(e) => m == Err::<T::V, ErrorView>(e@),
    }
}

/// A type that a wire value can be converted into.
pub trait TryFromValue: Sized + DeepView {
    /// The conversion rule: the model of the result for a value with the
    /// given model, or the model of the error.
    spec fn converted(value: ValueView) -> Result<<Self as DeepView>::V, ErrorView>;

    /// Converts `value`, which is consumed.
    fn try_from(value: Value) -> (r: Result<Self, AmqpError>)
        ensures
            agrees(r, Self::converted(value@)),
    ;
}

/// Converts `value` into the target type `T`.
pub fn convert<T: TryFromValue>(value: Value) -> (r: Result<T, AmqpError>)
    ensures
        agrees(r, T::converted(value@)),
{
    T::try_from(value)
}

impl TryFromValue for u8 {
    open spec fn converted(value: ValueView) -> Result<u8, ErrorView> {
        match value {
            ValueView::Ubyte(n) => Ok(n),
            _ => Err(decode_failure("Error converting value to u8"@)),
        }
    }

    fn try_from(value: Value) -> (r: Result<u8, AmqpError>) {
        match value {
            Value::Ubyte(n) => Ok(n),
            _ => Err(AmqpError::decode_error(Some("Error converting value to u8"))),
        }
    }
}

impl TryFromValue for u16 {
    open spec fn converted(value: ValueView) -> Result<u16, ErrorView> {
        match value {
            ValueView::Ushort(n) => Ok(n),
            _ => Err(decode_failure("Error converting value to u16"@)),
        }
    }

    fn try_from(value: Value) -> (r: Result<u16, AmqpError>) {
        match value {
            Value::Ushort(n) => Ok(n),
            _ => Err(AmqpError::decode_error(Some("Error converting value to u16"))),
        }
    }
}

impl TryFromValue for u32 {
    open spec fn converted(value: ValueView) -> Result<u32, ErrorView> {
        match value {
            ValueView::Uint(n) => Ok(n),
            _ => Err(decode_failure("Error converting value to u32"@)),
        }
    }

    fn try_from(value: Value) -> (r: Result<u32, AmqpError>) {
        match value {
            Value::Uint(n) => Ok(n),
            _ => Err(AmqpError::decode_error(Some("Error converting value to u32"))),
        }
    }
}

impl TryFromValue for u64 {
    open spec fn converted(value: ValueView) -> Result<u64, ErrorView> {
        match value {
            ValueView::Ulong(n) => Ok(n),
            _ => Err(decode_failure("Error converting value to u64"@)),
        }
    }

    fn try_from(value: Value) -> (r: Result<u64, AmqpError>) {
        match value {
            Value::Ulong(n) => Ok(n),
            _ => Err(AmqpError::decode_error(Some("Error converting value to u64"))),
        }
    }
}

impl TryFromValue for bool {
    open spec fn converted(value: ValueView) -> Result<bool, ErrorView> {
        match value {
            ValueView::Bool(b) => Ok(b),
            _ => Err(decode_failure("Error converting value to bool"@)),
        }
    }

    fn try_from(value: Value) -> (r: Result<bool, AmqpError>) {
        match value {
            Value::Bool(b) => Ok(b),
            _ => Err(AmqpError::decode_error(Some("Error converting value to bool"))),
        }
    }
}

impl TryFromValue for String {
    /// Text is taken as it stands, and a symbol is read as UTF-8 with
    /// ill-formed sequences replaced.
    open spec fn converted(value: ValueView) -> Result<Seq<char>, ErrorView> {
        match value {
            ValueView::String(text) => Ok(text),
            ValueView::Symbol(bytes) => Ok(lossy_text(bytes)),
            _ => Err(decode_failure("Error converting value to String"@)),
        }
    }

    fn try_from(value: Value) -> (r: Result<String, AmqpError>) {
        match value {
            Value::String(text) => Ok(text),
            Value::Symbol(bytes) => Ok(text_from_utf8_lossy(bytes.as_slice())),
            _ => Err(AmqpError::decode_error(Some("Error converting value to String"))),
        }
    }
}

impl TryFromValue for Symbol {
    /// Only a symbol converts: text does not.
    open spec fn converted(value: ValueView) -> Result<Seq<u8>, ErrorView> {
        match value {
            ValueView::Symbol(bytes) => Ok(bytes),
            _ => Err(decode_failure("Error converting value to Symbol"@)),
        }
    }

    fn try_from(value: Value) -> (r: Result<Symbol, AmqpError>) {
        match value {
            Value::Symbol(bytes) => Ok(Symbol::from_vec(bytes)),
            _ => Err(AmqpError::decode_error(Some("Error converting value to Symbol"))),
        }
    }
}

impl<T: TryFromValue> TryFromValue for Option<T> {
    /// Null is absent. Any other value is converted as `T`.
    open spec fn converted(value: ValueView) -> Result<Option<T::V>, ErrorView> {
        match value {
            ValueView::Null => Ok(None),
            _ => match T::converted(value) {
                Ok(t) => Ok(Some(t)),
                Err(e) => Err(e),
            },
        }
    }

    fn try_from(value: Value) -> (r: Result<Option<T>, AmqpError>) {
        match value {
            Value::Null => Ok(None),
            _ => match T::try_from(value) {
                Ok(t) => Ok(Some(t)),
                Err(e) => Err(e),
            },
        }
    }
}

/// Every one of `items` converts to `T`.
pub open spec fn all_convertible<T: TryFromValue>(items: Seq<ValueView>) -> bool {
    forall|i: int| 0 <= i < items.len() ==> (#[trigger] T::converted(items[i])) is Ok
}

/// All of `items` converted to `T`, in order, or a decode error with the
/// message `failure` if one of them does not convert.
pub open spec fn all_converted<T: TryFromValue>(items: Seq<ValueView>, failure: Seq<char>) -> Result<
    Seq<T::V>,
    ErrorView,
> {
    if all_convertible::<T>(items) {
        Ok(Seq::new(items.len(), |i: int| T::converted(items[i])->Ok_0))
    } else {
        Err(decode_failure(failure))
    }
}

/// Converts every one of `items` to `T`, stopping at the first that does
/// not convert.
pub fn convert_all<T: TryFromValue>(items: Vec<Value>, failure: &str) -> (r: Result<
    Vec<T>,
    AmqpError,
>)
    ensures
        agrees(r, all_converted::<T>(models(items@), failure@)),
{
    let ghost all = models(items@);
    let mut out: Vec<T> = Vec::new();
    for item in it: items
        invariant
            it.seq() == items@,
            all == models(items@),
            out@.len() == it.index(),
            forall|k: int|
                0 <= k < out@.len() ==> T::converted(all[k]) == Ok::<T::V, ErrorView>(
                    #[trigger] out@[k].deep_view(),
                ),
    {
        match T::try_from(item) {
            Ok(t) => {
                out.push(t);
            },
            Err(_) => {
                assert(!(T::converted(all[it.index() as int]) is Ok));
                return Err(AmqpError::decode_error(Some(failure)));
            },
        }
    }
    assert forall|i: int| 0 <= i < all.len() implies (#[trigger] T::converted(all[i])) is Ok by {
        assert(T::converted(all[i]) == Ok::<T::V, ErrorView>(out@[i].deep_view()));
    }
    assert(out.deep_view() =~= all_converted::<T>(all, failure@)->Ok_0);
    Ok(out)
}

impl<T: TryFromValue> TryFromValue for Vec<T> {
    /// A list or an array converts when each of its elements does. Any other
    /// value that converts as `T` becomes a sequence of one element.
    open spec fn converted(value: ValueView) -> Result<Seq<T::V>, ErrorView> {
        match value {
            ValueView::List(items) => all_converted::<T>(items, "Error decoding list elements"@),
            ValueView::Array(items) => all_converted::<T>(items, "Error decoding array elements"@),
            _ => match T::converted(value) {
                Ok(t) => Ok(seq![t]),
                Err(e) => Err(e),
            },
        }
    }

    fn try_from(value: Value) -> (r: Result<Vec<T>, AmqpError>) {
        proof {
            lemma_collection_models(value);
        }
        match value {
            Value::List(items) => convert_all::<T>(items, "Error decoding list elements"),
            Value::Array(items) => convert_all::<T>(items, "Error decoding array elements"),
            _ => match T::try_from(value) {
                Ok(t) => {
                    let mut out: Vec<T> = Vec::new();
                    out.push(t);
                    assert(out.deep_view() =~= seq![t.deep_view()]);
                    Ok(out)
                },
                Err(e) => Err(e),
            },
        }
    }
}

/// The text-keyed map that a sequence of entries makes: each key is
/// converted to text, a later entry replaces an earlier one with the same
/// key, and the first key that is no text fails the whole.
pub open spec fn text_entries(entries: Seq<(ValueView, ValueView)>) -> Result<
    Map<Seq<char>, ValueView>,
    ErrorView,
>
    decreases entries.len(),
{
    if entries.len() == 0 {
        Ok(Map::empty())
    } else {
        match text_entries(entries.drop_last()) {
            Err(e) => Err(e),
            Ok(m) => match String::converted(entries.last().0) {
                Err(e) => Err(e),
                Ok(key) => Ok(m.insert(key, entries.last().1)),
            },
        }
    }
}

/// Once a prefix of the entries fails, the whole fails in the same way.
pub proof fn lemma_text_entries_prefix_error(entries: Seq<(ValueView, ValueView)>, n: int)
    requires
        0 <= n <= entries.len(),
        text_entries(entries.take(n)) is Err,
    ensures
        text_entries(entries) == text_entries(entries.take(n)),
    decreases entries.len(),
{
    if n < entries.len() {
        assert(entries.drop_last().take(n) =~= entries.take(n));
        lemma_text_entries_prefix_error(entries.drop_last(), n);
    } else {
        assert(entries.take(n) =~= entries);
    }
}

impl TryFromValue for TextMap {
    /// Only a map converts, and only if each of its keys is text or a symbol.
    open spec fn converted(value: ValueView) -> Result<Map<Seq<char>, ValueView>, ErrorView> {
        match value {
            ValueView::Mapping(entries) => text_entries(entries),
            _ => Err(decode_failure("Error converting value to TextMap"@)),
        }
    }

    fn try_from(value: Value) -> (r: Result<TextMap, AmqpError>) {
        proof {
            lemma_collection_models(value);
        }
        match value {
            Value::Mapping(entries) => {
                let ghost all = pair_models(entries@);
                let mut map = TextMap::new();
                assert(all.take(0) =~= Seq::empty());
                for entry in it: entries
                    invariant
                        it.seq() == entries@,
                        all == pair_models(entries@),
                        value@ == ValueView::Mapping(all),
                        text_entries(all.take(it.index() as int)) == Ok::<
                            Map<Seq<char>, ValueView>,
                            ErrorView,
                        >(map@),
                {
                    let ghost i = it.index() as int;
                    assert(all.take(i + 1).drop_last() =~= all.take(i));
                    assert(all.take(i + 1).last() == all[i]);
                    let (key, item) = entry;
                    match <String as TryFromValue>::try_from(key) {
                        Ok(text) => {
                            map.insert(text, item);
                        },
                        Err(e) => {
                            proof {
                                lemma_text_entries_prefix_error(all, i + 1);
                            }
                            return Err(e);
                        },
                    }
                }
                assert(all.take(all.len() as int) =~= all);
                Ok(map)
            },
            _ => Err(AmqpError::decode_error(Some("Error converting value to TextMap"))),
        }
    }
}

impl TryFromValue for Vec<(Value, Value)> {
    /// Only a map converts, to its entries as they stand.
    open spec fn converted(value: ValueView) -> Result<Seq<(ValueView, ValueView)>, ErrorView> {
        match value {
            ValueView::Mapping(entries) => Ok(entries),
            _ => Err(decode_failure("Error converting value to Vec<(Value, Value)>"@)),
        }
    }

    fn try_from(value: Value) -> (r: Result<Vec<(Value, Value)>, AmqpError>) {
        proof {
            lemma_collection_models(value);
        }
        match value {
            Value::Mapping(entries) => {
                assert(entries.deep_view() =~= pair_models(entries@));
                Ok(entries)
            },
            _ => Err(AmqpError::decode_error(Some("Error converting value to Vec<(Value, Value)>"))),
        }
    }
}

} // verus!
