//! What holds of the conversions, whatever the value.

use vstd::prelude::*;
use crate::condition::DECODE_ERROR;
use crate::convert::all_convertible;
use crate::convert::text_entries;
use crate::convert::TryFromValue;
use crate::error::ErrorView;
use crate::error_condition::error_descriptor;
use crate::error_condition::ErrorCondition;
use crate::symbol::Symbol;
use crate::text_map::TextMap;
use crate::value::Value;
use crate::value::ValueView;

verus! {

/// The outcome is a failure whose condition is the decode error.
pub open spec fn is_decode_failure<V>(r: Result<V, ErrorView>) -> bool {
    r is Err && r->Err_0.condition == DECODE_ERROR@
}

/// A scalar converts to the type of its own variant, and the result is the
/// value that it holds, unchanged.
pub proof fn round_trip_identity(
    b: bool,
    n8: u8,
    n16: u16,
    n32: u32,
    n64: u64,
    text: Seq<char>,
    bytes: Seq<u8>,
)
    ensures
        bool::converted(ValueView::Bool(b)) == Ok::<bool, ErrorView>(b),
        u8::converted(ValueView::Ubyte(n8)) == Ok::<u8, ErrorView>(n8),
        u16::converted(ValueView::Ushort(n16)) == Ok::<u16, ErrorView>(n16),
        u32::converted(ValueView::Uint(n32)) == Ok::<u32, ErrorView>(n32),
        u64::converted(ValueView::Ulong(n64)) == Ok::<u64, ErrorView>(n64),
        String::converted(ValueView::String(text)) == Ok::<Seq<char>, ErrorView>(text),
        Symbol::converted(ValueView::Symbol(bytes)) == Ok::<Seq<u8>, ErrorView>(bytes),
{
}

/// A value of one variant never converts to a type that belongs to
/// another: the outcome is a decode error. No integer is widened or
/// narrowed, and text is no symbol.
pub proof fn variant_mismatch_fails(value: ValueView)
    ensures
        !(value is Bool) ==> is_decode_failure(bool::converted(value)),
        !(value is Ubyte) ==> is_decode_failure(u8::converted(value)),
        !(value is Ushort) ==> is_decode_failure(u16::converted(value)),
        !(value is Uint) ==> is_decode_failure(u32::converted(value)),
        !(value is Ulong) ==> is_decode_failure(u64::converted(value)),
        !(value is String || value is Symbol) ==> is_decode_failure(String::converted(value)),
        !(value is Symbol) ==> is_decode_failure(Symbol::converted(value)),
        !(value is Mapping) ==> is_decode_failure(TextMap::converted(value)),
        !(value is Mapping) ==> is_decode_failure(Vec::<(Value, Value)>::converted(value)),
        !(value is Described) ==> is_decode_failure(ErrorCondition::converted(value)),
{
}

/// Null converts to an absent value whatever the inner type is. Any other
/// value converts as the inner type does: to a present value, or to the
/// inner conversion's error.
pub proof fn optional_composition<T: TryFromValue>(value: ValueView)
    ensures
        Option::<T>::converted(ValueView::Null) == Ok::<Option<T::V>, ErrorView>(None),
        !(value is Null) ==> Option::<T>::converted(value) == match T::converted(value) {
            Ok(t) => Ok::<Option<T::V>, ErrorView>(Some(t)),
            Err(e) => Err(e),
        },
{
}

/// A list or an array whose elements all convert gives as many results, in
/// the order of the elements. If a single element does not convert, the
/// whole fails with a decode error.
pub proof fn sequence_all_or_nothing<T: TryFromValue>(items: Seq<ValueView>)
    ensures
        Vec::<T>::converted(ValueView::List(items)) is Ok <==> all_convertible::<T>(items),
        Vec::<T>::converted(ValueView::Array(items)) is Ok <==> all_convertible::<T>(items),
        all_convertible::<T>(items) ==> Vec::<T>::converted(ValueView::Array(items))
            == Vec::<T>::converted(ValueView::List(items)),
        Vec::<T>::converted(ValueView::List(items)) matches Ok(results) ==> results.len()
            == items.len() && forall|i: int|
            0 <= i < items.len() ==> T::converted(items[i]) == Ok::<T::V, ErrorView>(
                #[trigger] results[i],
            ),
        !all_convertible::<T>(items) ==> is_decode_failure(
            Vec::<T>::converted(ValueView::List(items)),
        ) && is_decode_failure(Vec::<T>::converted(ValueView::Array(items))),
{
}

/// A value that is neither a list nor an array and that converts to `T`
/// converts to the sequence that holds that one result.
pub proof fn singleton_promotion<T: TryFromValue>(value: ValueView, t: T::V)
    requires
        !(value is List),
        !(value is Array),
        T::converted(value) == Ok::<T::V, ErrorView>(t),
    ensures
        Vec::<T>::converted(value) == Ok::<Seq<T::V>, ErrorView>(seq![t]),
{
}

/// The text that the key of an entry converts to.
pub open spec fn key_text(entry: (ValueView, ValueView)) -> Result<Seq<char>, ErrorView> {
    String::converted(entry.0)
}

/// Every key converts to text.
pub open spec fn keys_are_text(entries: Seq<(ValueView, ValueView)>) -> bool {
    forall|i: int| 0 <= i < entries.len() ==> key_text(#[trigger] entries[i]) is Ok
}

/// Some entry has a key that converts to `key`.
pub open spec fn has_key(entries: Seq<(ValueView, ValueView)>, key: Seq<char>) -> bool {
    exists|i: int| 0 <= i < entries.len() && key_text(#[trigger] entries[i]) == Ok::<
        Seq<char>,
        ErrorView,
    >(key)
}

/// No entry after the one at `i` has a key that converts to the same text.
pub open spec fn last_with_key(entries: Seq<(ValueView, ValueView)>, i: int) -> bool {
    forall|j: int| i < j < entries.len() ==> key_text(#[trigger] entries[j]) != key_text(entries[i])
}

/// A map whose keys all convert to text converts to the map from those
/// texts, each to the value of the last entry with that key. A single key
/// that does not convert fails the whole.
pub proof fn map_key_policy(entries: Seq<(ValueView, ValueView)>)
    ensures
        TextMap::converted(ValueView::Mapping(entries)) is Ok <==> keys_are_text(entries),
        TextMap::converted(ValueView::Mapping(entries)) matches Ok(map) ==> {
            &&& forall|key: Seq<char>| map.contains_key(key) <==> has_key(entries, key)
            &&& forall|i: int|
                0 <= i < entries.len() && last_with_key(entries, i) ==> map[key_text(
                    #[trigger] entries[i],
                )->Ok_0] == entries[i].1
        },
        !keys_are_text(entries) ==> is_decode_failure(
            TextMap::converted(ValueView::Mapping(entries)),
        ),
    decreases entries.len(),
{
    if entries.len() > 0 {
        let init = entries.drop_last();
        let last = entries.last();
        map_key_policy(init);
        assert forall|i: int| 0 <= i < init.len() implies init[i] == entries[i] by {}
        assert(entries[entries.len() - 1] == last);
        if keys_are_text(entries) {
            assert(key_text(entries[entries.len() - 1]) is Ok);
            assert forall|i: int| 0 <= i < init.len() implies key_text(#[trigger] init[i]) is Ok by {
                assert(key_text(entries[i]) is Ok);
            }
        }
        if keys_are_text(init) && key_text(last) is Ok {
            assert forall|i: int| 0 <= i < entries.len() implies key_text(
                #[trigger] entries[i],
            ) is Ok by {
                if i < init.len() {
                    assert(key_text(init[i]) is Ok);
                }
            }
        }
        if text_entries(entries) is Ok {
            let before = text_entries(init)->Ok_0;
            let map = text_entries(entries)->Ok_0;
            let key = key_text(last)->Ok_0;
            assert(map == before.insert(key, last.1));
            assert forall|k: Seq<char>| map.contains_key(k) <==> has_key(entries, k) by {
                if has_key(init, k) {
                    let i = choose|i: int|
                        0 <= i < init.len() && key_text(#[trigger] init[i]) == Ok::<
                            Seq<char>,
                            ErrorView,
                        >(k);
                    assert(key_text(entries[i]) == Ok::<Seq<char>, ErrorView>(k));
                }
                if has_key(entries, k) {
                    let i = choose|i: int|
                        0 <= i < entries.len() && key_text(#[trigger] entries[i]) == Ok::<
                            Seq<char>,
                            ErrorView,
                        >(k);
                    if i < init.len() {
                        assert(key_text(init[i]) == Ok::<Seq<char>, ErrorView>(k));
                    }
                }
            }
            assert forall|i: int| 0 <= i < entries.len() && last_with_key(entries, i) implies map[key_text(
                #[trigger] entries[i],
            )->Ok_0] == entries[i].1 by {
                if i < init.len() {
                    assert(key_text(entries[entries.len() - 1]) != key_text(entries[i]));
                    assert forall|j: int| i < j < init.len() implies key_text(#[trigger] init[j])
                        != key_text(init[i]) by {
                        assert(key_text(entries[j]) != key_text(entries[i]));
                    }
                    assert(last_with_key(init, i));
                    assert(key_text(init[i]) is Ok);
                }
            }
        }
    }
}

/// A described value converts to an error condition only if its descriptor
/// is that of an error condition. Any other descriptor fails with a decode
/// error, and so does a value that is not described.
pub proof fn descriptor_gating(value: ValueView)
    ensures
        ErrorCondition::converted(value) is Ok ==> value is Described && *value->Described_0
            == error_descriptor(),
        value matches ValueView::Described(descriptor, _) && *descriptor != error_descriptor()
            ==> is_decode_failure(ErrorCondition::converted(value)),
        !(value is Described) ==> is_decode_failure(ErrorCondition::converted(value)),
{
}

} // verus!
