//! Symbols: immutable byte-string identifiers.

use core::cmp::Ordering;
use vstd::prelude::*;
use vstd::std_specs::cmp::PartialEqSpecImpl;
use vstd::std_specs::cmp::PartialOrdSpecImpl;
use vstd::slice::slice_to_vec;
use vstd::string::StrSliceExecFns;
use vstd::string::StringSliceAdditionalSpecFns;
use vstd::utf8::decode_utf8;
use vstd::utf8::valid_utf8;
use crate::bytes::compare_bytes;
use crate::bytes::precedes;
use crate::bytes::Placement;
use crate::text::lossy_text;
use crate::text::text_from_utf8_lossy;

verus! {

/// An immutable byte string. Two symbols are equal when they hold the same
/// bytes, and they are ordered as their bytes are, lexicographically.
#[derive(Debug, Eq, Ord, Hash)]
pub struct Symbol {
    data: Vec<u8>,
}

impl View for Symbol {
    type V = Seq<u8>;

    closed spec fn view(&self) -> Seq<u8> {
        self.data@
    }
}

impl DeepView for Symbol {
    type V = Seq<u8>;

    open spec fn deep_view(&self) -> Seq<u8> {
        self@
    }
}

impl Symbol {
    /// The symbol made of the given bytes.
    pub fn from_vec(data: Vec<u8>) -> (s: Symbol)
        ensures
            s@ == data@,
    {
        Symbol { data }
    }

    /// The symbol made of a copy of the given bytes.
    pub fn from_slice(data: &[u8]) -> (s: Symbol)
        ensures
            s@ == data@,
    {
        Symbol { data: slice_to_vec(data) }
    }

    /// The symbol made of the UTF-8 encoding of `text`.
    pub fn from_str(text: &str) -> (s: Symbol)
        ensures
            s@ == text.spec_bytes(),
    {
        Symbol { data: text.as_bytes_vec() }
    }

    /// The bytes of the symbol.
    pub fn to_slice(&self) -> (bytes: &[u8])
        ensures
            bytes@ == self@,
    {
        self.data.as_slice()
    }

    /// Whether the symbol holds no byte.
    pub fn is_empty(&self) -> (b: bool)
        ensures
            b == (self@.len() == 0),
    {
        self.data.len() == 0
    }

    /// The number of bytes in the symbol.
    pub fn len(&self) -> (n: usize)
        ensures
            n == self@.len(),
    {
        self.data.len()
    }

    /// The symbol read as text, ill-formed UTF-8 replaced.
    pub fn to_string(&self) -> (text: String)
        ensures
            text@ == lossy_text(self@),
            valid_utf8(self@) ==> text@ == decode_utf8(self@),
    {
        text_from_utf8_lossy(self.data.as_slice())
    }

    /// Where this symbol stands relative to `other`.
    pub fn placement(&self, other: &Symbol) -> (r: Placement)
        ensures
            r is Before <==> precedes(self@, other@),
            r is Same <==> self@ == other@,
            r is After <==> precedes(other@, self@),
    {
        compare_bytes(self.data.as_slice(), other.data.as_slice())
    }
}

impl Clone for Symbol {
    fn clone(&self) -> (s: Symbol)
        ensures
            s@ == self@,
    {
        let data = self.data.clone();
        assert(data@ =~= self.data@);
        Symbol { data }
    }
}

impl PartialEq for Symbol {
    fn eq(&self, other: &Symbol) -> (r: bool) {
        match compare_bytes(self.data.as_slice(), other.data.as_slice()) {
            Placement::Same => true,
            _ => false,
        }
    }
}

impl PartialEqSpecImpl for Symbol {
    open spec fn obeys_eq_spec() -> bool {
        true
    }

    open spec fn eq_spec(&self, other: &Symbol) -> bool {
        self@ == other@
    }
}

impl PartialOrd for Symbol {
    fn partial_cmp(&self, other: &Symbol) -> (r: Option<Ordering>) {
        match compare_bytes(self.data.as_slice(), other.data.as_slice()) {
            Placement::Before => Some(Ordering::Less),
            Placement::Same => Some(Ordering::Equal),
            Placement::After => Some(Ordering::Greater),
        }
    }
}

impl PartialOrdSpecImpl for Symbol {
    open spec fn obeys_partial_cmp_spec() -> bool {
        true
    }

    open spec fn partial_cmp_spec(&self, other: &Symbol) -> Option<Ordering> {
        if self@ == other@ {
            Some(Ordering::Equal)
        } else if precedes(self@, other@) {
            Some(Ordering::Less)
        } else {
            Some(Ordering::Greater)
        }
    }
}

} // verus!
