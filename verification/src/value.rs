use vstd::prelude::*;

verus! {

/// A decoded AMQP 1.0 wire value.
#[derive(Debug, PartialEq)]
pub enum Value {
    Null,
    Bool(bool),
    Ubyte(u8),
    Ushort(u16),
    Uint(u32),
    Ulong(u64),
    String(String),
    Symbol(Vec<u8>),
    List(Vec<Value>),
    Array(Vec<Value>),
    Mapping(Vec<(Value, Value)>),
    Described(Box<Value>, Box<Value>),
}

/// The mathematical model of a [`Value`].
pub enum ValueView {
    Null,
    Bool(bool),
    Ubyte(u8),
    Ushort(u16),
    Uint(u32),
    Ulong(u64),
    String(Seq<char>),
    Symbol(Seq<u8>),
    List(Seq<ValueView>),
    Array(Seq<ValueView>),
    Mapping(Seq<(ValueView, ValueView)>),
    Described(Box<ValueView>, Box<ValueView>),
}

impl Value {
    /// The model of this value: text as characters, byte strings and
    /// collections as sequences.
    pub open spec fn model(self) -> ValueView
        decreases self,
    {
        match self {
            Value::Null => ValueView::Null,
            Value::Bool(b) => ValueView::Bool(b),
            Value::Ubyte(n) => ValueView::Ubyte(n),
            Value::Ushort(n) => ValueView::Ushort(n),
            Value::Uint(n) => ValueView::Uint(n),
            Value::Ulong(n) => ValueView::Ulong(n),
            Value::String(s) => ValueView::String(s@),
            Value::Symbol(bytes) => ValueView::Symbol(bytes@),
            Value::List(items) => ValueView::List(
                Seq::new(
                    items@.len(),
                    |i: int|
                        if 0 <= i < items@.len() {
                            items@[i].model()
                        } else {
                            ValueView::Null
                        },
                ),
            ),
            Value::Array(items) => ValueView::Array(
                Seq::new(
                    items@.len(),
                    |i: int|
                        if 0 <= i < items@.len() {
                            items@[i].model()
                        } else {
                            ValueView::Null
                        },
                ),
            ),
            Value::Mapping(entries) => ValueView::Mapping(
                Seq::new(
                    entries@.len(),
                    |i: int|
                        if 0 <= i < entries@.len() {
                            (entries@[i].0.model(), entries@[i].1.model())
                        } else {
                            (ValueView::Null, ValueView::Null)
                        },
                ),
            ),
            Value::Described(descriptor, payload) => ValueView::Described(
                Box::new((*descriptor).model()),
                Box::new((*payload).model()),
            ),
        }
    }
}

impl View for Value {
    type V = ValueView;

    open spec fn view(&self) -> ValueView {
        self.model()
    }
}

/// The models of a sequence of values, in order.
pub open spec fn models(items: Seq<Value>) -> Seq<ValueView> {
    Seq::new(items.len(), |i: int| items[i]@)
}

/// The models of a sequence of key/value pairs, in order.
pub open spec fn pair_models(entries: Seq<(Value, Value)>) -> Seq<(ValueView, ValueView)> {
    Seq::new(entries.len(), |i: int| (entries[i].0@, entries[i].1@))
}

/// The model of a list, an array or a map is the sequence of the models of
/// what it holds.
pub proof fn lemma_collection_models(value: Value)
    ensures
        value matches Value::List(items) ==> value@ == ValueView::List(models(items@)),
        value matches Value::Array(items) ==> value@ == ValueView::Array(models(items@)),
        value matches Value::Mapping(entries) ==> value@ == ValueView::Mapping(
            pair_models(entries@),
        ),
{
    match value {
        Value::List(items) => {
            assert(value@->List_0 =~= models(items@));
        },
        Value::Array(items) => {
            assert(value@->Array_0 =~= models(items@));
        },
        Value::Mapping(entries) => {
            assert(value@->Mapping_0 =~= pair_models(entries@));
        },
        _ => {},
    }
}

fn clone_values(items: &Vec<Value>) -> (copy: Vec<Value>)
    ensures
        models(copy@) == models(items@),
    decreases items,
{
    let mut copy: Vec<Value> = Vec::new();
    let mut i: usize = 0;
    while i < items.len()
        invariant
            i <= items.len(),
            copy@.len() == i,
            forall|k: int| 0 <= k < i ==> copy@[k]@ == items@[k]@,
        decreases items.len() - i,
    {
        copy.push(items[i].clone());
        i += 1;
    }
    assert(models(copy@) =~= models(items@));
    copy
}

fn clone_pairs(entries: &Vec<(Value, Value)>) -> (copy: Vec<(Value, Value)>)
    ensures
        pair_models(copy@) == pair_models(entries@),
    decreases entries,
{
    let mut copy: Vec<(Value, Value)> = Vec::new();
    let mut i: usize = 0;
    while i < entries.len()
        invariant
            i <= entries.len(),
            copy@.len() == i,
            forall|k: int|
                0 <= k < i ==> copy@[k].0@ == entries@[k].0@ && copy@[k].1@ == entries@[k].1@,
        decreases entries.len() - i,
    {
        let key = entries[i].0.clone();
        let value = entries[i].1.clone();
        copy.push((key, value));
        i += 1;
    }
    assert(pair_models(copy@) =~= pair_models(entries@));
    copy
}

impl Clone for Value {
    /// A deep copy: it has the same model.
    fn clone(&self) -> (copy: Value)
        ensures
            copy@ == self@,
        decreases self,
    {
        proof {
            lemma_collection_models(*self);
        }
        let copy = match self {
            Value::Null => Value::Null,
            Value::Bool(b) => Value::Bool(*b),
            Value::Ubyte(n) => Value::Ubyte(*n),
            Value::Ushort(n) => Value::Ushort(*n),
            Value::Uint(n) => Value::Uint(*n),
            Value::Ulong(n) => Value::Ulong(*n),
            Value::String(s) => Value::String(s.clone()),
            Value::Symbol(bytes) => {
                let copy = bytes.clone();
                assert(copy@ =~= bytes@);
                Value::Symbol(copy)
            },
            Value::List(items) => Value::List(clone_values(items)),
            Value::Array(items) => Value::Array(clone_values(items)),
            Value::Mapping(entries) => Value::Mapping(clone_pairs(entries)),
            Value::Described(descriptor, payload) => {
                let d = (**descriptor).clone();
                let p = (**payload).clone();
                Value::Described(Box::new(d), Box::new(p))
            },
        };
        proof {
            lemma_collection_models(copy);
        }
        copy
    }
}

/// How a value with the given model reads under `Debug` formatting.
pub uninterp spec fn debug_text(value: ValueView) -> Seq<char>;

/// Calls `format!` with `{:?}`, which writes the value through its derived
/// `Debug`. Taken on trust: the text is a function of what the value holds.
/// Nothing more is claimed of it.
#[verifier::external_body]
pub(crate) fn format_debug(value: &Value) -> (text: String)
    ensures
        text@ == debug_text(value@),
{
    format!("{:?}", value)
}

impl DeepView for Value {
    type V = ValueView;

    open spec fn deep_view(&self) -> ValueView {
        self@
    }
}

} // verus!
