//! Tagged values: one word that holds either a pointer to a heap item or an
//! immediate.
//!
//! A word is a pointer if it is not zero and 8-byte aligned; every other word
//! is an immediate, whose low three bits are its tag.

use crate::runtime::gc::pointer::HeapPtr;
use vstd::prelude::*;

verus! {

/// The word of the empty value, an immediate.
pub const EMPTY_BITS: usize = 0b111;

/// The type of the heap items that are objects of the language.
pub struct ObjectValue;

/// The type of the heap items that are strings.
pub struct StringValue;

/// The type of the heap items that are symbols.
pub struct SymbolValue;

/// The type of the heap items that are big integers.
pub struct BigIntValue;

/// The pointers among the words `values`, in their order.
pub open spec fn pointers_in(values: Seq<usize>) -> Seq<usize>
    decreases values.len(),
{
    if values.len() == 0 {
        Seq::empty()
    } else {
        let rest = pointers_in(values.drop_last());
        if is_pointer_bits(values.last()) {
            rest.push(values.last())
        } else {
            rest
        }
    }
}

/// The pointers among two runs of words are those of the first run followed by
/// those of the second.
pub proof fn lemma_pointers_in_concat(first: Seq<usize>, second: Seq<usize>)
    ensures
        pointers_in(first + second) == pointers_in(first) + pointers_in(second),
    decreases second.len(),
{
    if second.len() == 0 {
        assert(first + second =~= first);
        assert(pointers_in(first) + pointers_in(second) =~= pointers_in(first));
    } else {
        lemma_pointers_in_concat(first, second.drop_last());
        assert((first + second).drop_last() =~= first + second.drop_last());
        assert((first + second).last() == second.last());
        if is_pointer_bits(second.last()) {
            assert(pointers_in(first + second) =~= pointers_in(first) + pointers_in(second));
        }
    }
}

/// The pointers among the words `values` are the words that hold a pointer.
pub proof fn lemma_pointers_in_contains(values: Seq<usize>, word: usize)
    ensures
        pointers_in(values).contains(word) <==> is_pointer_bits(word) && values.contains(word),
    decreases values.len(),
{
    if values.len() > 0 {
        let rest = values.drop_last();
        lemma_pointers_in_contains(rest, word);
        let found = pointers_in(rest);
        if values.contains(word) {
            let i = choose|i: int| 0 <= i < values.len() && values[i] == word;
            if i < rest.len() {
                assert(rest[i] == word);
            }
        }
        if rest.contains(word) {
            let i = choose|i: int| 0 <= i < rest.len() && rest[i] == word;
            assert(values[i] == word);
        }
        if is_pointer_bits(values.last()) {
            let longer = found.push(values.last());
            if found.contains(word) {
                let i = choose|i: int| 0 <= i < found.len() && found[i] == word;
                assert(longer[i] == word);
            }
            if longer.contains(word) {
                let i = choose|i: int| 0 <= i < longer.len() && longer[i] == word;
                if i < found.len() {
                    assert(found[i] == word);
                } else {
                    assert(values[values.len() - 1] == word);
                }
            }
            if values.last() == word {
                assert(longer[found.len() as int] == word);
                assert(values[values.len() - 1] == word);
            }
        }
    }
}

/// A tagged value.
#[derive(Clone, Copy, Debug, PartialEq, Eq, Structural)]
pub struct Value {
    bits: usize,
}

/// Whether the word `bits` holds a pointer.
pub open spec fn is_pointer_bits(bits: usize) -> bool {
    bits != 0 && bits % 8 == 0
}

impl View for Value {
    type V = usize;

    /// The word of the value.
    closed spec fn view(&self) -> usize {
        self.bits
    }
}

impl Value {
    /// The empty value.
    #[inline]
    pub fn empty() -> (value: Value)
        ensures
            value@ == EMPTY_BITS,
            !is_pointer_bits(value@),
    {
        Value { bits: EMPTY_BITS }
    }

    /// The value with the word `bits`.
    #[inline]
    pub fn from_raw_bits(bits: usize) -> (value: Value)
        ensures
            value@ == bits,
    {
        Value { bits }
    }

    /// The word of the value.
    #[inline]
    pub fn as_raw_bits(&self) -> (bits: usize)
        ensures
            bits == self@,
    {
        self.bits
    }

    /// The value that holds `ptr`.
    #[inline]
    pub fn from_pointer<T>(ptr: HeapPtr<T>) -> (value: Value)
        ensures
            value@ == ptr@,
    {
        Value { bits: ptr.as_ptr() }
    }

    /// The word of the value as a pointer to a heap item of type `T`.
    #[inline]
    pub fn as_pointer<T>(&self) -> (ptr: HeapPtr<T>)
        ensures
            ptr@ == self@,
    {
        HeapPtr::from_ptr(self.bits)
    }

    /// Whether the value holds a pointer to a heap item.
    #[inline]
    pub fn is_pointer(&self) -> (pointer: bool)
        ensures
            pointer == is_pointer_bits(self@),
    {
        self.bits != 0 && self.bits % 8 == 0
    }
}

} // verus!
