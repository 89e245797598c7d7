//! The kinds of heap items and their descriptors.
//!
//! Every heap item starts with a pointer to its descriptor. The descriptor is
//! itself a heap item; it tells the kind of the item, whether the item is an
//! object of the language, and which dispatch table serves it. The
//! descriptors of all kinds are made once and are found by kind in the table
//! of [`BaseDescriptors`].

use crate::gc_header::GcHeader;
use crate::heap::AllocResult;
use crate::heap_model::{block_size, lemma_step_wf};
use crate::laws::{lemma_allocate_keeps, lemma_step_keeps};
use crate::pointer::DANGLING_ADDRESS;
use crate::runtime::context::Context;
use crate::runtime::gc::heap::Heap;
use crate::runtime::gc::heap_item::{AnyHeapItem, BodyView, HeapItemBody, ItemView};
use crate::runtime::rust_vtables::get_vtable;
use crate::runtime::stack::handle::StackRoot;
use crate::runtime::value::EMPTY_BITS;
use crate::runtime::gc::heap_visitor::GcVisitorExt;
use crate::visitor::GcVisitor;
use crate::runtime::gc::pointer::HeapPtr;
use crate::runtime::rust_vtables::RustVtable;
use vstd::prelude::*;

verus! {

/// The kind of a heap item: an object of the language, or other data that
/// lives on the heap, such as descriptors and realms.
#[derive(Clone, Copy, Debug, PartialEq, Eq, Structural)]
pub enum HeapItemKind {
    Descriptor,
    OrdinaryObject,
    Proxy,
    BooleanObject,
    NumberObject,
    StringObject,
    SymbolObject,
    BigIntObject,
    ArrayObject,
    RegExpObject,
    ErrorObject,
    DateObject,
    SetObject,
    MapObject,
    WeakRefObject,
    WeakSetObject,
    WeakMapObject,
    FinalizationRegistryObject,
    MappedArgumentsObject,
    UnmappedArgumentsObject,
    Int8Array,
    UInt8Array,
    UInt8ClampedArray,
    Int16Array,
    UInt16Array,
    Int32Array,
    UInt32Array,
    BigInt64Array,
    BigUInt64Array,
    Float16Array,
    Float32Array,
    Float64Array,
    ArrayBufferObject,
    DataViewObject,
    ArrayIterator,
    StringIterator,
    SetIterator,
    MapIterator,
    RegExpStringIterator,
    ForInIterator,
    AsyncFromSyncIterator,
    WrappedValidIterator,
    IteratorHelperObject,
    ObjectPrototype,
    String,
    Symbol,
    BigInt,
    Accessor,
    Promise,
    PromiseReaction,
    PromiseCapability,
    Realm,
    Closure,
    BytecodeFunction,
    ConstantTable,
    ExceptionStackRootrs,
    SourceFile,
    Scope,
    ScopeNames,
    GlobalNames,
    ClassNames,
    SourceTextModule,
    SyntheticModule,
    ModuleNamespaceObject,
    ImportAttributes,
    Generator,
    AsyncGenerator,
    AsyncGeneratorRequest,
    DenseArrayProperties,
    SparseArrayProperties,
    CompiledRegExpObject,
    BoxedValue,
    ObjectNamedPropertiesMap,
    MapObjectValueMap,
    SetObjectValueSet,
    ExportMap,
    WeakSetObjectWeakValueSet,
    WeakMapObjectWeakValueMap,
    GlobalSymbolRegistryMap,
    InternedStringsSet,
    LexicalNamesMap,
    ModuleCacheMap,
    ValueArray,
    ByteArray,
    U32Array,
    ModuleRequestArray,
    ModuleOptionArray,
    StackFrameInfoArray,
    FinalizationRegistryCells,
    GlobalScopes,
    ValueVec,
    /// Not a kind: it stands behind the last one and counts them.
    Last,
}

impl HeapItemKind {
    /// The position of the kind in the table of descriptors.
    pub open spec fn index_spec(self) -> int {
        match self {
            HeapItemKind::Descriptor => 0,
            HeapItemKind::OrdinaryObject => 1,
            HeapItemKind::Proxy => 2,
            HeapItemKind::BooleanObject => 3,
            HeapItemKind::NumberObject => 4,
            HeapItemKind::StringObject => 5,
            HeapItemKind::SymbolObject => 6,
            HeapItemKind::BigIntObject => 7,
            HeapItemKind::ArrayObject => 8,
            HeapItemKind::RegExpObject => 9,
            HeapItemKind::ErrorObject => 10,
            HeapItemKind::DateObject => 11,
            HeapItemKind::SetObject => 12,
            HeapItemKind::MapObject => 13,
            HeapItemKind::WeakRefObject => 14,
            HeapItemKind::WeakSetObject => 15,
            HeapItemKind::WeakMapObject => 16,
            HeapItemKind::FinalizationRegistryObject => 17,
            HeapItemKind::MappedArgumentsObject => 18,
            HeapItemKind::UnmappedArgumentsObject => 19,
            HeapItemKind::Int8Array => 20,
            HeapItemKind::UInt8Array => 21,
            HeapItemKind::UInt8ClampedArray => 22,
            HeapItemKind::Int16Array => 23,
            HeapItemKind::UInt16Array => 24,
            HeapItemKind::Int32Array => 25,
            HeapItemKind::UInt32Array => 26,
            HeapItemKind::BigInt64Array => 27,
            HeapItemKind::BigUInt64Array => 28,
            HeapItemKind::Float16Array => 29,
            HeapItemKind::Float32Array => 30,
            HeapItemKind::Float64Array => 31,
            HeapItemKind::ArrayBufferObject => 32,
            HeapItemKind::DataViewObject => 33,
            HeapItemKind::ArrayIterator => 34,
            HeapItemKind::StringIterator => 35,
            HeapItemKind::SetIterator => 36,
            HeapItemKind::MapIterator => 37,
            HeapItemKind::RegExpStringIterator => 38,
            HeapItemKind::ForInIterator => 39,
            HeapItemKind::AsyncFromSyncIterator => 40,
            HeapItemKind::WrappedValidIterator => 41,
            HeapItemKind::IteratorHelperObject => 42,
            HeapItemKind::ObjectPrototype => 43,
            HeapItemKind::String => 44,
            HeapItemKind::Symbol => 45,
            HeapItemKind::BigInt => 46,
            HeapItemKind::Accessor => 47,
            HeapItemKind::Promise => 48,
            HeapItemKind::PromiseReaction => 49,
            HeapItemKind::PromiseCapability => 50,
            HeapItemKind::Realm => 51,
            HeapItemKind::Closure => 52,
            HeapItemKind::BytecodeFunction => 53,
            HeapItemKind::ConstantTable => 54,
            HeapItemKind::ExceptionStackRootrs => 55,
            HeapItemKind::SourceFile => 56,
            HeapItemKind::Scope => 57,
            HeapItemKind::ScopeNames => 58,
            HeapItemKind::GlobalNames => 59,
            HeapItemKind::ClassNames => 60,
            HeapItemKind::SourceTextModule => 61,
            HeapItemKind::SyntheticModule => 62,
            HeapItemKind::ModuleNamespaceObject => 63,
            HeapItemKind::ImportAttributes => 64,
            HeapItemKind::Generator => 65,
            HeapItemKind::AsyncGenerator => 66,
            HeapItemKind::AsyncGeneratorRequest => 67,
            HeapItemKind::DenseArrayProperties => 68,
            HeapItemKind::SparseArrayProperties => 69,
            HeapItemKind::CompiledRegExpObject => 70,
            HeapItemKind::BoxedValue => 71,
            HeapItemKind::ObjectNamedPropertiesMap => 72,
            HeapItemKind::MapObjectValueMap => 73,
            HeapItemKind::SetObjectValueSet => 74,
            HeapItemKind::ExportMap => 75,
            HeapItemKind::WeakSetObjectWeakValueSet => 76,
            HeapItemKind::WeakMapObjectWeakValueMap => 77,
            HeapItemKind::GlobalSymbolRegistryMap => 78,
            HeapItemKind::InternedStringsSet => 79,
            HeapItemKind::LexicalNamesMap => 80,
            HeapItemKind::ModuleCacheMap => 81,
            HeapItemKind::ValueArray => 82,
            HeapItemKind::ByteArray => 83,
            HeapItemKind::U32Array => 84,
            HeapItemKind::ModuleRequestArray => 85,
            HeapItemKind::ModuleOptionArray => 86,
            HeapItemKind::StackFrameInfoArray => 87,
            HeapItemKind::FinalizationRegistryCells => 88,
            HeapItemKind::GlobalScopes => 89,
            HeapItemKind::ValueVec => 90,
            HeapItemKind::Last => 91,
        }
    }

    /// The kind at a position of the table of descriptors.
    pub open spec fn from_index_spec(index: int) -> HeapItemKind {
        if index == 0 {
            HeapItemKind::Descriptor
        } else if index == 1 {
            HeapItemKind::OrdinaryObject
        } else if index == 2 {
            HeapItemKind::Proxy
        } else if index == 3 {
            HeapItemKind::BooleanObject
        } else if index == 4 {
            HeapItemKind::NumberObject
        } else if index == 5 {
            HeapItemKind::StringObject
        } else if index == 6 {
            HeapItemKind::SymbolObject
        } else if index == 7 {
            HeapItemKind::BigIntObject
        } else if index == 8 {
            HeapItemKind::ArrayObject
        } else if index == 9 {
            HeapItemKind::RegExpObject
        } else if index == 10 {
            HeapItemKind::ErrorObject
        } else if index == 11 {
            HeapItemKind::DateObject
        } else if index == 12 {
            HeapItemKind::SetObject
        } else if index == 13 {
            HeapItemKind::MapObject
        } else if index == 14 {
            HeapItemKind::WeakRefObject
        } else if index == 15 {
            HeapItemKind::WeakSetObject
        } else if index == 16 {
            HeapItemKind::WeakMapObject
        } else if index == 17 {
            HeapItemKind::FinalizationRegistryObject
        } else if index == 18 {
            HeapItemKind::MappedArgumentsObject
        } else if index == 19 {
            HeapItemKind::UnmappedArgumentsObject
        } else if index == 20 {
            HeapItemKind::Int8Array
        } else if index == 21 {
            HeapItemKind::UInt8Array
        } else if index == 22 {
            HeapItemKind::UInt8ClampedArray
        } else if index == 23 {
            HeapItemKind::Int16Array
        } else if index == 24 {
            HeapItemKind::UInt16Array
        } else if index == 25 {
            HeapItemKind::Int32Array
        } else if index == 26 {
            HeapItemKind::UInt32Array
        } else if index == 27 {
            HeapItemKind::BigInt64Array
        } else if index == 28 {
            HeapItemKind::BigUInt64Array
        } else if index == 29 {
            HeapItemKind::Float16Array
        } else if index == 30 {
            HeapItemKind::Float32Array
        } else if index == 31 {
            HeapItemKind::Float64Array
        } else if index == 32 {
            HeapItemKind::ArrayBufferObject
        } else if index == 33 {
            HeapItemKind::DataViewObject
        } else if index == 34 {
            HeapItemKind::ArrayIterator
        } else if index == 35 {
            HeapItemKind::StringIterator
        } else if index == 36 {
            HeapItemKind::SetIterator
        } else if index == 37 {
            HeapItemKind::MapIterator
        } else if index == 38 {
            HeapItemKind::RegExpStringIterator
        } else if index == 39 {
            HeapItemKind::ForInIterator
        } else if index == 40 {
            HeapItemKind::AsyncFromSyncIterator
        } else if index == 41 {
            HeapItemKind::WrappedValidIterator
        } else if index == 42 {
            HeapItemKind::IteratorHelperObject
        } else if index == 43 {
            HeapItemKind::ObjectPrototype
        } else if index == 44 {
            HeapItemKind::String
        } else if index == 45 {
            HeapItemKind::Symbol
        } else if index == 46 {
            HeapItemKind::BigInt
        } else if index == 47 {
            HeapItemKind::Accessor
        } else if index == 48 {
            HeapItemKind::Promise
        } else if index == 49 {
            HeapItemKind::PromiseReaction
        } else if index == 50 {
            HeapItemKind::PromiseCapability
        } else if index == 51 {
            HeapItemKind::Realm
        } else if index == 52 {
            HeapItemKind::Closure
        } else if index == 53 {
            HeapItemKind::BytecodeFunction
        } else if index == 54 {
            HeapItemKind::ConstantTable
        } else if index == 55 {
            HeapItemKind::ExceptionStackRootrs
        } else if index == 56 {
            HeapItemKind::SourceFile
        } else if index == 57 {
            HeapItemKind::Scope
        } else if index == 58 {
            HeapItemKind::ScopeNames
        } else if index == 59 {
            HeapItemKind::GlobalNames
        } else if index == 60 {
            HeapItemKind::ClassNames
        } else if index == 61 {
            HeapItemKind::SourceTextModule
        } else if index == 62 {
            HeapItemKind::SyntheticModule
        } else if index == 63 {
            HeapItemKind::ModuleNamespaceObject
        } else if index == 64 {
            HeapItemKind::ImportAttributes
        } else if index == 65 {
            HeapItemKind::Generator
        } else if index == 66 {
            HeapItemKind::AsyncGenerator
        } else if index == 67 {
            HeapItemKind::AsyncGeneratorRequest
        } else if index == 68 {
            HeapItemKind::DenseArrayProperties
        } else if index == 69 {
            HeapItemKind::SparseArrayProperties
        } else if index == 70 {
            HeapItemKind::CompiledRegExpObject
        } else if index == 71 {
            HeapItemKind::BoxedValue
        } else if index == 72 {
            HeapItemKind::ObjectNamedPropertiesMap
        } else if index == 73 {
            HeapItemKind::MapObjectValueMap
        } else if index == 74 {
            HeapItemKind::SetObjectValueSet
        } else if index == 75 {
            HeapItemKind::ExportMap
        } else if index == 76 {
            HeapItemKind::WeakSetObjectWeakValueSet
        } else if index == 77 {
            HeapItemKind::WeakMapObjectWeakValueMap
        } else if index == 78 {
            HeapItemKind::GlobalSymbolRegistryMap
        } else if index == 79 {
            HeapItemKind::InternedStringsSet
        } else if index == 80 {
            HeapItemKind::LexicalNamesMap
        } else if index == 81 {
            HeapItemKind::ModuleCacheMap
        } else if index == 82 {
            HeapItemKind::ValueArray
        } else if index == 83 {
            HeapItemKind::ByteArray
        } else if index == 84 {
            HeapItemKind::U32Array
        } else if index == 85 {
            HeapItemKind::ModuleRequestArray
        } else if index == 86 {
            HeapItemKind::ModuleOptionArray
        } else if index == 87 {
            HeapItemKind::StackFrameInfoArray
        } else if index == 88 {
            HeapItemKind::FinalizationRegistryCells
        } else if index == 89 {
            HeapItemKind::GlobalScopes
        } else if index == 90 {
            HeapItemKind::ValueVec
        } else {
            HeapItemKind::Last
        }
    }

    /// The number of kinds.
    pub open spec fn count_spec() -> int {
        91
    }

    /// The number of kinds.
    pub fn count() -> (count: usize)
        ensures
            count == HeapItemKind::count_spec(),
            count == HeapItemKind::Last.index_spec(),
    {
        HeapItemKind::Last.index()
    }

    /// The position of the kind in the table of descriptors.
    pub fn index(self) -> (index: usize)
        ensures
            index == self.index_spec(),
            index <= HeapItemKind::count_spec(),
            (index == HeapItemKind::count_spec()) == (self == HeapItemKind::Last),
    {
        match self {
            HeapItemKind::Descriptor => 0,
            HeapItemKind::OrdinaryObject => 1,
            HeapItemKind::Proxy => 2,
            HeapItemKind::BooleanObject => 3,
            HeapItemKind::NumberObject => 4,
            HeapItemKind::StringObject => 5,
            HeapItemKind::SymbolObject => 6,
            HeapItemKind::BigIntObject => 7,
            HeapItemKind::ArrayObject => 8,
            HeapItemKind::RegExpObject => 9,
            HeapItemKind::ErrorObject => 10,
            HeapItemKind::DateObject => 11,
            HeapItemKind::SetObject => 12,
            HeapItemKind::MapObject => 13,
            HeapItemKind::WeakRefObject => 14,
            HeapItemKind::WeakSetObject => 15,
            HeapItemKind::WeakMapObject => 16,
            HeapItemKind::FinalizationRegistryObject => 17,
            HeapItemKind::MappedArgumentsObject => 18,
            HeapItemKind::UnmappedArgumentsObject => 19,
            HeapItemKind::Int8Array => 20,
            HeapItemKind::UInt8Array => 21,
            HeapItemKind::UInt8ClampedArray => 22,
            HeapItemKind::Int16Array => 23,
            HeapItemKind::UInt16Array => 24,
            HeapItemKind::Int32Array => 25,
            HeapItemKind::UInt32Array => 26,
            HeapItemKind::BigInt64Array => 27,
            HeapItemKind::BigUInt64Array => 28,
            HeapItemKind::Float16Array => 29,
            HeapItemKind::Float32Array => 30,
            HeapItemKind::Float64Array => 31,
            HeapItemKind::ArrayBufferObject => 32,
            HeapItemKind::DataViewObject => 33,
            HeapItemKind::ArrayIterator => 34,
            HeapItemKind::StringIterator => 35,
            HeapItemKind::SetIterator => 36,
            HeapItemKind::MapIterator => 37,
            HeapItemKind::RegExpStringIterator => 38,
            HeapItemKind::ForInIterator => 39,
            HeapItemKind::AsyncFromSyncIterator => 40,
            HeapItemKind::WrappedValidIterator => 41,
            HeapItemKind::IteratorHelperObject => 42,
            HeapItemKind::ObjectPrototype => 43,
            HeapItemKind::String => 44,
            HeapItemKind::Symbol => 45,
            HeapItemKind::BigInt => 46,
            HeapItemKind::Accessor => 47,
            HeapItemKind::Promise => 48,
            HeapItemKind::PromiseReaction => 49,
            HeapItemKind::PromiseCapability => 50,
            HeapItemKind::Realm => 51,
            HeapItemKind::Closure => 52,
            HeapItemKind::BytecodeFunction => 53,
            HeapItemKind::ConstantTable => 54,
            HeapItemKind::ExceptionStackRootrs => 55,
            HeapItemKind::SourceFile => 56,
            HeapItemKind::Scope => 57,
            HeapItemKind::ScopeNames => 58,
            HeapItemKind::GlobalNames => 59,
            HeapItemKind::ClassNames => 60,
            HeapItemKind::SourceTextModule => 61,
            HeapItemKind::SyntheticModule => 62,
            HeapItemKind::ModuleNamespaceObject => 63,
            HeapItemKind::ImportAttributes => 64,
            HeapItemKind::Generator => 65,
            HeapItemKind::AsyncGenerator => 66,
            HeapItemKind::AsyncGeneratorRequest => 67,
            HeapItemKind::DenseArrayProperties => 68,
            HeapItemKind::SparseArrayProperties => 69,
            HeapItemKind::CompiledRegExpObject => 70,
            HeapItemKind::BoxedValue => 71,
            HeapItemKind::ObjectNamedPropertiesMap => 72,
            HeapItemKind::MapObjectValueMap => 73,
            HeapItemKind::SetObjectValueSet => 74,
            HeapItemKind::ExportMap => 75,
            HeapItemKind::WeakSetObjectWeakValueSet => 76,
            HeapItemKind::WeakMapObjectWeakValueMap => 77,
            HeapItemKind::GlobalSymbolRegistryMap => 78,
            HeapItemKind::InternedStringsSet => 79,
            HeapItemKind::LexicalNamesMap => 80,
            HeapItemKind::ModuleCacheMap => 81,
            HeapItemKind::ValueArray => 82,
            HeapItemKind::ByteArray => 83,
            HeapItemKind::U32Array => 84,
            HeapItemKind::ModuleRequestArray => 85,
            HeapItemKind::ModuleOptionArray => 86,
            HeapItemKind::StackFrameInfoArray => 87,
            HeapItemKind::FinalizationRegistryCells => 88,
            HeapItemKind::GlobalScopes => 89,
            HeapItemKind::ValueVec => 90,
            HeapItemKind::Last => 91,
        }
    }

    /// The kind at a position of the table of descriptors; `Last` for a
    /// position behind the kinds.
    pub fn from_index(index: usize) -> (kind: HeapItemKind)
        ensures
            index < HeapItemKind::count_spec() ==> kind.index_spec() == index,
            index >= HeapItemKind::count_spec() ==> kind == HeapItemKind::Last,
    {
        match index {
            0 => HeapItemKind::Descriptor,
            1 => HeapItemKind::OrdinaryObject,
            2 => HeapItemKind::Proxy,
            3 => HeapItemKind::BooleanObject,
            4 => HeapItemKind::NumberObject,
            5 => HeapItemKind::StringObject,
            6 => HeapItemKind::SymbolObject,
            7 => HeapItemKind::BigIntObject,
            8 => HeapItemKind::ArrayObject,
            9 => HeapItemKind::RegExpObject,
            10 => HeapItemKind::ErrorObject,
            11 => HeapItemKind::DateObject,
            12 => HeapItemKind::SetObject,
            13 => HeapItemKind::MapObject,
            14 => HeapItemKind::WeakRefObject,
            15 => HeapItemKind::WeakSetObject,
            16 => HeapItemKind::WeakMapObject,
            17 => HeapItemKind::FinalizationRegistryObject,
            18 => HeapItemKind::MappedArgumentsObject,
            19 => HeapItemKind::UnmappedArgumentsObject,
            20 => HeapItemKind::Int8Array,
            21 => HeapItemKind::UInt8Array,
            22 => HeapItemKind::UInt8ClampedArray,
            23 => HeapItemKind::Int16Array,
            24 => HeapItemKind::UInt16Array,
            25 => HeapItemKind::Int32Array,
            26 => HeapItemKind::UInt32Array,
            27 => HeapItemKind::BigInt64Array,
            28 => HeapItemKind::BigUInt64Array,
            29 => HeapItemKind::Float16Array,
            30 => HeapItemKind::Float32Array,
            31 => HeapItemKind::Float64Array,
            32 => HeapItemKind::ArrayBufferObject,
            33 => HeapItemKind::DataViewObject,
            34 => HeapItemKind::ArrayIterator,
            35 => HeapItemKind::StringIterator,
            36 => HeapItemKind::SetIterator,
            37 => HeapItemKind::MapIterator,
            38 => HeapItemKind::RegExpStringIterator,
            39 => HeapItemKind::ForInIterator,
            40 => HeapItemKind::AsyncFromSyncIterator,
            41 => HeapItemKind::WrappedValidIterator,
            42 => HeapItemKind::IteratorHelperObject,
            43 => HeapItemKind::ObjectPrototype,
            44 => HeapItemKind::String,
            45 => HeapItemKind::Symbol,
            46 => HeapItemKind::BigInt,
            47 => HeapItemKind::Accessor,
            48 => HeapItemKind::Promise,
            49 => HeapItemKind::PromiseReaction,
            50 => HeapItemKind::PromiseCapability,
            51 => HeapItemKind::Realm,
            52 => HeapItemKind::Closure,
            53 => HeapItemKind::BytecodeFunction,
            54 => HeapItemKind::ConstantTable,
            55 => HeapItemKind::ExceptionStackRootrs,
            56 => HeapItemKind::SourceFile,
            57 => HeapItemKind::Scope,
            58 => HeapItemKind::ScopeNames,
            59 => HeapItemKind::GlobalNames,
            60 => HeapItemKind::ClassNames,
            61 => HeapItemKind::SourceTextModule,
            62 => HeapItemKind::SyntheticModule,
            63 => HeapItemKind::ModuleNamespaceObject,
            64 => HeapItemKind::ImportAttributes,
            65 => HeapItemKind::Generator,
            66 => HeapItemKind::AsyncGenerator,
            67 => HeapItemKind::AsyncGeneratorRequest,
            68 => HeapItemKind::DenseArrayProperties,
            69 => HeapItemKind::SparseArrayProperties,
            70 => HeapItemKind::CompiledRegExpObject,
            71 => HeapItemKind::BoxedValue,
            72 => HeapItemKind::ObjectNamedPropertiesMap,
            73 => HeapItemKind::MapObjectValueMap,
            74 => HeapItemKind::SetObjectValueSet,
            75 => HeapItemKind::ExportMap,
            76 => HeapItemKind::WeakSetObjectWeakValueSet,
            77 => HeapItemKind::WeakMapObjectWeakValueMap,
            78 => HeapItemKind::GlobalSymbolRegistryMap,
            79 => HeapItemKind::InternedStringsSet,
            80 => HeapItemKind::LexicalNamesMap,
            81 => HeapItemKind::ModuleCacheMap,
            82 => HeapItemKind::ValueArray,
            83 => HeapItemKind::ByteArray,
            84 => HeapItemKind::U32Array,
            85 => HeapItemKind::ModuleRequestArray,
            86 => HeapItemKind::ModuleOptionArray,
            87 => HeapItemKind::StackFrameInfoArray,
            88 => HeapItemKind::FinalizationRegistryCells,
            89 => HeapItemKind::GlobalScopes,
            90 => HeapItemKind::ValueVec,
            _ => HeapItemKind::Last,
        }
    }

    /// Whether an item of this kind is an object of the language.
    pub open spec fn is_object_spec(self) -> bool {
        match self {
            HeapItemKind::OrdinaryObject
            | HeapItemKind::Proxy
            | HeapItemKind::BooleanObject
            | HeapItemKind::NumberObject
            | HeapItemKind::StringObject
            | HeapItemKind::SymbolObject
            | HeapItemKind::BigIntObject
            | HeapItemKind::ArrayObject
            | HeapItemKind::RegExpObject
            | HeapItemKind::ErrorObject
            | HeapItemKind::DateObject
            | HeapItemKind::SetObject
            | HeapItemKind::MapObject
            | HeapItemKind::WeakRefObject
            | HeapItemKind::WeakSetObject
            | HeapItemKind::WeakMapObject
            | HeapItemKind::FinalizationRegistryObject
            | HeapItemKind::MappedArgumentsObject
            | HeapItemKind::UnmappedArgumentsObject
            | HeapItemKind::Int8Array
            | HeapItemKind::UInt8Array
            | HeapItemKind::UInt8ClampedArray
            | HeapItemKind::Int16Array
            | HeapItemKind::UInt16Array
            | HeapItemKind::Int32Array
            | HeapItemKind::UInt32Array
            | HeapItemKind::BigInt64Array
            | HeapItemKind::BigUInt64Array
            | HeapItemKind::Float16Array
            | HeapItemKind::Float32Array
            | HeapItemKind::Float64Array
            | HeapItemKind::ArrayBufferObject
            | HeapItemKind::DataViewObject
            | HeapItemKind::ArrayIterator
            | HeapItemKind::StringIterator
            | HeapItemKind::SetIterator
            | HeapItemKind::MapIterator
            | HeapItemKind::RegExpStringIterator
            | HeapItemKind::AsyncFromSyncIterator
            | HeapItemKind::WrappedValidIterator
            | HeapItemKind::IteratorHelperObject
            | HeapItemKind::ObjectPrototype
            | HeapItemKind::Promise
            | HeapItemKind::Closure
            | HeapItemKind::ModuleNamespaceObject
            | HeapItemKind::Generator
            | HeapItemKind::AsyncGenerator => true,
            _ => false,
        }
    }

    /// Whether an item of this kind is an object of the language.
    pub fn is_object(self) -> (object: bool)
        ensures
            object == self.is_object_spec(),
    {
        match self {
            HeapItemKind::OrdinaryObject
            | HeapItemKind::Proxy
            | HeapItemKind::BooleanObject
            | HeapItemKind::NumberObject
            | HeapItemKind::StringObject
            | HeapItemKind::SymbolObject
            | HeapItemKind::BigIntObject
            | HeapItemKind::ArrayObject
            | HeapItemKind::RegExpObject
            | HeapItemKind::ErrorObject
            | HeapItemKind::DateObject
            | HeapItemKind::SetObject
            | HeapItemKind::MapObject
            | HeapItemKind::WeakRefObject
            | HeapItemKind::WeakSetObject
            | HeapItemKind::WeakMapObject
            | HeapItemKind::FinalizationRegistryObject
            | HeapItemKind::MappedArgumentsObject
            | HeapItemKind::UnmappedArgumentsObject
            | HeapItemKind::Int8Array
            | HeapItemKind::UInt8Array
            | HeapItemKind::UInt8ClampedArray
            | HeapItemKind::Int16Array
            | HeapItemKind::UInt16Array
            | HeapItemKind::Int32Array
            | HeapItemKind::UInt32Array
            | HeapItemKind::BigInt64Array
            | HeapItemKind::BigUInt64Array
            | HeapItemKind::Float16Array
            | HeapItemKind::Float32Array
            | HeapItemKind::Float64Array
            | HeapItemKind::ArrayBufferObject
            | HeapItemKind::DataViewObject
            | HeapItemKind::ArrayIterator
            | HeapItemKind::StringIterator
            | HeapItemKind::SetIterator
            | HeapItemKind::MapIterator
            | HeapItemKind::RegExpStringIterator
            | HeapItemKind::AsyncFromSyncIterator
            | HeapItemKind::WrappedValidIterator
            | HeapItemKind::IteratorHelperObject
            | HeapItemKind::ObjectPrototype
            | HeapItemKind::Promise
            | HeapItemKind::Closure
            | HeapItemKind::ModuleNamespaceObject
            | HeapItemKind::Generator
            | HeapItemKind::AsyncGenerator => true,
            _ => false,
        }
    }

    /// The dispatch table that serves the objects of this kind. The kinds
    /// without property semantics of their own have that of ordinary objects.
    pub open spec fn vtable_spec(self) -> RustVtable {
        match self {
            HeapItemKind::Proxy => RustVtable::ProxyVirtualObject,
            HeapItemKind::StringObject => RustVtable::StringVirtualObject,
            HeapItemKind::ArrayObject => RustVtable::ArrayVirtualObject,
            HeapItemKind::MappedArgumentsObject => RustVtable::MappedArgumentsVirtualObject,
            HeapItemKind::Int8Array => RustVtable::Int8ArrayVirtualObject,
            HeapItemKind::UInt8Array => RustVtable::UInt8ArrayVirtualObject,
            HeapItemKind::UInt8ClampedArray => RustVtable::UInt8ClampedArrayVirtualObject,
            HeapItemKind::Int16Array => RustVtable::Int16ArrayVirtualObject,
            HeapItemKind::UInt16Array => RustVtable::UInt16ArrayVirtualObject,
            HeapItemKind::Int32Array => RustVtable::Int32ArrayVirtualObject,
            HeapItemKind::UInt32Array => RustVtable::Uint32ArrayVirtualObject,
            HeapItemKind::BigInt64Array => RustVtable::BigInt64ArrayVirtualObject,
            HeapItemKind::BigUInt64Array => RustVtable::BigUInt64ArrayVirtualObject,
            HeapItemKind::Float16Array => RustVtable::Float16ArrayVirtualObject,
            HeapItemKind::Float32Array => RustVtable::Float32ArrayVirtualObject,
            HeapItemKind::Float64Array => RustVtable::Float64ArrayVirtualObject,
            HeapItemKind::ModuleNamespaceObject => RustVtable::ModuleNamespaceVirtualObject,
            _ => RustVtable::OrdinaryVirtualObject,
        }
    }

    /// The dispatch table that serves the objects of this kind.
    pub fn vtable(self) -> (vtable: RustVtable)
        ensures
            vtable == self.vtable_spec(),
            vtable != RustVtable::Last,
    {
        match self {
            HeapItemKind::Proxy => RustVtable::ProxyVirtualObject,
            HeapItemKind::StringObject => RustVtable::StringVirtualObject,
            HeapItemKind::ArrayObject => RustVtable::ArrayVirtualObject,
            HeapItemKind::MappedArgumentsObject => RustVtable::MappedArgumentsVirtualObject,
            HeapItemKind::Int8Array => RustVtable::Int8ArrayVirtualObject,
            HeapItemKind::UInt8Array => RustVtable::UInt8ArrayVirtualObject,
            HeapItemKind::UInt8ClampedArray => RustVtable::UInt8ClampedArrayVirtualObject,
            HeapItemKind::Int16Array => RustVtable::Int16ArrayVirtualObject,
            HeapItemKind::UInt16Array => RustVtable::UInt16ArrayVirtualObject,
            HeapItemKind::Int32Array => RustVtable::Int32ArrayVirtualObject,
            HeapItemKind::UInt32Array => RustVtable::Uint32ArrayVirtualObject,
            HeapItemKind::BigInt64Array => RustVtable::BigInt64ArrayVirtualObject,
            HeapItemKind::BigUInt64Array => RustVtable::BigUInt64ArrayVirtualObject,
            HeapItemKind::Float16Array => RustVtable::Float16ArrayVirtualObject,
            HeapItemKind::Float32Array => RustVtable::Float32ArrayVirtualObject,
            HeapItemKind::Float64Array => RustVtable::Float64ArrayVirtualObject,
            HeapItemKind::ModuleNamespaceObject => RustVtable::ModuleNamespaceVirtualObject,
            _ => RustVtable::OrdinaryVirtualObject,
        }
    }

    /// Whether an item of this kind holds its slots weakly: the slots do not
    /// keep their targets alive.
    pub open spec fn is_weak_container_spec(self) -> bool {
        self == HeapItemKind::WeakSetObjectWeakValueSet || self
            == HeapItemKind::WeakMapObjectWeakValueMap
    }

    /// The flags that the descriptor of this kind carries.
    pub open spec fn flags_spec(self) -> DescFlags {
        if self.is_object_spec() {
            DescFlags { bits: IS_OBJECT }
        } else {
            DescFlags { bits: 0 }
        }
    }

    /// The flags that the descriptor of this kind carries.
    pub fn flags(self) -> (flags: DescFlags)
        ensures
            flags == self.flags_spec(),
    {
        if self.is_object() {
            DescFlags::object()
        } else {
            DescFlags::empty()
        }
    }
}

/// Two kinds at the same position of the table of descriptors are the same kind.
pub proof fn lemma_kind_index_injective(a: HeapItemKind, b: HeapItemKind)
    requires
        a.index_spec() == b.index_spec(),
    ensures
        a == b,
{
}

/// Every position of the table of descriptors is that of a kind.
pub proof fn lemma_kind_covers(index: int)
    requires
        0 <= index < HeapItemKind::count_spec(),
    ensures
        exists|kind: HeapItemKind| kind.index_spec() == index,
{
    let kind = HeapItemKind::from_index_spec(index);
    assert(kind.index_spec() == index);
}

/// The flag of the kinds that are objects of the language.
pub const IS_OBJECT: u8 = 1;

/// The flags of a descriptor, one bit each.
#[derive(Clone, Copy, Debug, PartialEq, Eq, Structural)]
pub struct DescFlags {
    /// The bits of the flags that are set.
    pub bits: u8,
}

impl DescFlags {
    /// No flag.
    pub fn empty() -> (flags: DescFlags)
        ensures
            flags.bits == 0,
    {
        DescFlags { bits: 0 }
    }

    /// The flag of the kinds that are objects of the language.
    pub fn object() -> (flags: DescFlags)
        ensures
            flags.bits == IS_OBJECT,
    {
        DescFlags { bits: IS_OBJECT }
    }

    /// Whether every flag of `other` is set.
    pub open spec fn contains_spec(self, other: DescFlags) -> bool {
        self.bits & other.bits == other.bits
    }

    /// Whether every flag of `other` is set.
    pub fn contains(&self, other: DescFlags) -> (contained: bool)
        ensures
            contained == self.contains_spec(other),
    {
        self.bits & other.bits == other.bits
    }
}

/// The size of a descriptor in bytes.
pub const DESCRIPTOR_BYTE_SIZE: usize = 24;

/// What a descriptor holds.
pub struct DescriptorView {
    /// The address of the descriptor of descriptors.
    pub descriptor: usize,
    /// The address of the dispatch table of the items of the kind.
    pub vtable: usize,
    /// The kind of the items.
    pub kind: HeapItemKind,
    /// The flags of the kind.
    pub flags: DescFlags,
}

/// The descriptor of the heap items of one kind.
#[derive(Clone, Copy)]
pub struct HeapItemDescriptor {
    /// The address of the descriptor of this item: always the descriptor of descriptors.
    descriptor: usize,
    /// The dispatch table of the items of the kind.
    vtable: usize,
    /// The kind of the items.
    kind: HeapItemKind,
    /// The flags of the kind.
    flags: DescFlags,
}

impl View for HeapItemDescriptor {
    type V = DescriptorView;

    closed spec fn view(&self) -> DescriptorView {
        DescriptorView {
            descriptor: self.descriptor,
            vtable: self.vtable,
            kind: self.kind,
            flags: self.flags,
        }
    }
}

impl HeapItemDescriptor {
    /// A descriptor with the given fields.
    pub fn with_fields(
        descriptor: HeapPtr<HeapItemDescriptor>,
        vtable: usize,
        kind: HeapItemKind,
        flags: DescFlags,
    ) -> (item: HeapItemDescriptor)
        ensures
            item@ == (DescriptorView { descriptor: descriptor@, vtable, kind, flags }),
    {
        HeapItemDescriptor { descriptor: descriptor.as_ptr(), vtable, kind, flags }
    }

    /// The pointer to the descriptor of descriptors.
    #[inline]
    pub fn descriptor(&self) -> (descriptor: HeapPtr<HeapItemDescriptor>)
        ensures
            descriptor@ == self@.descriptor,
    {
        HeapPtr::from_ptr(self.descriptor)
    }

    /// The kind of the items that the descriptor describes.
    #[inline]
    pub fn kind(&self) -> (kind: HeapItemKind)
        ensures
            kind == self@.kind,
    {
        self.kind
    }

    /// The address of the dispatch table of the items.
    #[inline]
    pub fn vtable(&self) -> (vtable: usize)
        ensures
            vtable == self@.vtable,
    {
        self.vtable
    }

    /// Whether the items are objects of the language.
    #[inline]
    pub fn is_object(&self) -> (object: bool)
        ensures
            object == self@.flags.contains_spec(DescFlags { bits: IS_OBJECT }),
    {
        self.flags.contains(DescFlags::object())
    }

    /// The size in bytes of `item`, which is of the kind of this descriptor: the
    /// size of a descriptor for the kind of the descriptors, and for every
    /// other kind the size that the body of the item has.
    pub fn byte_size_for_item(&self, item: &AnyHeapItem) -> (size: usize)
        requires
            self@.kind != HeapItemKind::Last,
            item.wf(),
        ensures
            size == item@.byte_size_for_kind(self@.kind),
    {
        match self.kind() {
            HeapItemKind::Descriptor => DESCRIPTOR_BYTE_SIZE,
            HeapItemKind::OrdinaryObject
            | HeapItemKind::Proxy
            | HeapItemKind::BooleanObject
            | HeapItemKind::NumberObject
            | HeapItemKind::StringObject
            | HeapItemKind::SymbolObject
            | HeapItemKind::BigIntObject
            | HeapItemKind::ArrayObject
            | HeapItemKind::RegExpObject
            | HeapItemKind::ErrorObject
            | HeapItemKind::DateObject
            | HeapItemKind::SetObject
            | HeapItemKind::MapObject
            | HeapItemKind::WeakRefObject
            | HeapItemKind::WeakSetObject
            | HeapItemKind::WeakMapObject
            | HeapItemKind::FinalizationRegistryObject
            | HeapItemKind::MappedArgumentsObject
            | HeapItemKind::UnmappedArgumentsObject
            | HeapItemKind::Int8Array
            | HeapItemKind::UInt8Array
            | HeapItemKind::UInt8ClampedArray
            | HeapItemKind::Int16Array
            | HeapItemKind::UInt16Array
            | HeapItemKind::Int32Array
            | HeapItemKind::UInt32Array
            | HeapItemKind::BigInt64Array
            | HeapItemKind::BigUInt64Array
            | HeapItemKind::Float16Array
            | HeapItemKind::Float32Array
            | HeapItemKind::Float64Array
            | HeapItemKind::ArrayBufferObject
            | HeapItemKind::DataViewObject
            | HeapItemKind::ArrayIterator
            | HeapItemKind::StringIterator
            | HeapItemKind::SetIterator
            | HeapItemKind::MapIterator
            | HeapItemKind::RegExpStringIterator
            | HeapItemKind::ForInIterator
            | HeapItemKind::AsyncFromSyncIterator
            | HeapItemKind::WrappedValidIterator
            | HeapItemKind::IteratorHelperObject
            | HeapItemKind::ObjectPrototype
            | HeapItemKind::String
            | HeapItemKind::Symbol
            | HeapItemKind::BigInt
            | HeapItemKind::Accessor
            | HeapItemKind::Promise
            | HeapItemKind::PromiseReaction
            | HeapItemKind::PromiseCapability
            | HeapItemKind::Realm
            | HeapItemKind::Closure
            | HeapItemKind::BytecodeFunction
            | HeapItemKind::ConstantTable
            | HeapItemKind::ExceptionStackRootrs
            | HeapItemKind::SourceFile
            | HeapItemKind::Scope
            | HeapItemKind::ScopeNames
            | HeapItemKind::GlobalNames
            | HeapItemKind::ClassNames
            | HeapItemKind::SourceTextModule
            | HeapItemKind::SyntheticModule
            | HeapItemKind::ModuleNamespaceObject
            | HeapItemKind::ImportAttributes
            | HeapItemKind::Generator
            | HeapItemKind::AsyncGenerator
            | HeapItemKind::AsyncGeneratorRequest
            | HeapItemKind::DenseArrayProperties
            | HeapItemKind::SparseArrayProperties
            | HeapItemKind::CompiledRegExpObject
            | HeapItemKind::BoxedValue
            | HeapItemKind::ObjectNamedPropertiesMap
            | HeapItemKind::MapObjectValueMap
            | HeapItemKind::SetObjectValueSet
            | HeapItemKind::ExportMap
            | HeapItemKind::GlobalSymbolRegistryMap
            | HeapItemKind::InternedStringsSet
            | HeapItemKind::LexicalNamesMap
            | HeapItemKind::ModuleCacheMap
            | HeapItemKind::ValueArray
            | HeapItemKind::ByteArray
            | HeapItemKind::U32Array
            | HeapItemKind::ModuleRequestArray
            | HeapItemKind::ModuleOptionArray
            | HeapItemKind::StackFrameInfoArray
            | HeapItemKind::FinalizationRegistryCells
            | HeapItemKind::GlobalScopes
            | HeapItemKind::ValueVec
            | HeapItemKind::WeakSetObjectWeakValueSet
            | HeapItemKind::WeakMapObjectWeakValueMap => item.body_byte_size(),
            HeapItemKind::Last => 0,
        }
    }
}

/// The item that is the descriptor of `kind`, with `descriptor` as the address
/// of the descriptor of descriptors and `vtable` as the address of the dispatch table.
pub open spec fn descriptor_item(
    descriptor: usize,
    vtable: usize,
    kind: HeapItemKind,
    flags: DescFlags,
) -> ItemView {
    ItemView {
        descriptor,
        body: BodyView::Descriptor(DescriptorView { descriptor, vtable, kind, flags }),
    }
}

/// The requests for the blocks of descriptors with the given owners, one for each owner.
pub open spec fn descriptor_requests(contexts: Seq<usize>) -> Seq<(usize, usize)> {
    Seq::new(contexts.len(), |i: int| (DESCRIPTOR_BYTE_SIZE, contexts[i]))
}

/// The size in bytes of the block that backs a descriptor.
pub open spec fn descriptor_block_size() -> int {
    block_size(DESCRIPTOR_BYTE_SIZE as int)
}

impl HeapItemDescriptor {
    /// Allocates the descriptor of the heap items of kind `kind`.
    ///
    /// The cell of `descriptor` holds the address of the descriptor of
    /// descriptors, which becomes the descriptor of the new item; a root whose
    /// cell is not live gives a dangling pointer. The dispatch table of the
    /// items is that of `vtable`.
    pub fn new(
        cx: &mut Context,
        descriptor: StackRoot<HeapItemDescriptor>,
        vtable: RustVtable,
        kind: HeapItemKind,
        flags: DescFlags,
    ) -> (result: AllocResult<HeapPtr<HeapItemDescriptor>>)
        requires
            old(cx).wf(),
            vtable != RustVtable::Last,
        ensures
            final(cx).wf(),
            final(cx).same_but_heap_and_items(old(cx)),
            result.is_ok() == old(cx).heap.gc_view().can_alloc(DESCRIPTOR_BYTE_SIZE),
            ({
                let pointer = match old(cx).handle_context.contents_at(descriptor@) {
                    Some(contents) => contents,
                    None => DANGLING_ADDRESS,
                };
                let item = descriptor_item(
                    pointer,
                    old(cx).rust_vtables.address(vtable),
                    kind,
                    flags,
                );
                let before = Heap::before_alloc(
                    old(cx).heap.gc_view(),
                    old(cx).graph(),
                    old(cx).heap.stress(),
                );
                match result {
                    Ok(ptr) => {
                        &&& ptr@ == old(cx).heap.gc_view().next_address + GcHeader::SIZE
                        &&& final(cx).items@ == old(cx).items@.insert(ptr@, item)
                        &&& exists|context: usize|
                            context % 8 == 0 && final(cx).heap.gc_view()
                                == #[trigger] before.allocate(DESCRIPTOR_BYTE_SIZE, context)
                    },
                    Err(_) => {
                        &&& final(cx).items@ == old(cx).items@
                        &&& final(cx).heap.gc_view() == before.collected(old(cx).graph())
                    },
                }
            }),
    {
        let pointer: HeapPtr<HeapItemDescriptor> = match descriptor.get(&cx.handle_context) {
            Some(contents) => HeapPtr::from_ptr(contents),
            None => HeapPtr::uninit(),
        };
        let address = get_vtable(&cx.rust_vtables, vtable);
        let fields = HeapItemDescriptor::with_fields(pointer, address, kind, flags);
        match Heap::alloc_uninit_with_size::<HeapItemDescriptor>(cx, DESCRIPTOR_BYTE_SIZE) {
            Ok(desc) => {
                let item = AnyHeapItem::new(pointer, HeapItemBody::Descriptor(fields));
                cx.items.insert(desc.as_ptr(), item);
                Ok(desc)
            },
            Err(error) => Err(error),
        }
    }
}

/// The pointers among `ptrs` that are not dangling, in their order.
pub open spec fn non_dangling(ptrs: Seq<usize>) -> Seq<usize>
    decreases ptrs.len(),
{
    if ptrs.len() == 0 {
        Seq::empty()
    } else {
        let rest = non_dangling(ptrs.drop_last());
        if ptrs.last() == DANGLING_ADDRESS {
            rest
        } else {
            rest.push(ptrs.last())
        }
    }
}

/// The table of the descriptors of all kinds, by kind.
pub struct BaseDescriptors {
    descriptors: Vec<HeapPtr<HeapItemDescriptor>>,
}

impl View for BaseDescriptors {
    type V = Seq<usize>;

    /// The addresses of the descriptors in the order of the kinds.
    closed spec fn view(&self) -> Seq<usize> {
        Seq::new(self.descriptors.len() as nat, |i: int| self.descriptors@[i]@)
    }
}

impl BaseDescriptors {
    /// A table without entries, to stand in until the table is made.
    pub fn uninit_empty() -> (table: Self)
        ensures
            table@ == Seq::<usize>::empty(),
    {
        let table = BaseDescriptors { descriptors: Vec::new() };
        assert(table@ =~= Seq::<usize>::empty());
        table
    }

    /// A table with an entry for each kind, none of which points to a descriptor yet.
    pub fn uninit() -> (table: Self)
        ensures
            table@.len() == HeapItemKind::count_spec(),
            forall|i: int| 0 <= i < table@.len() ==> table@[i] == DANGLING_ADDRESS,
    {
        let mut descriptors: Vec<HeapPtr<HeapItemDescriptor>> = Vec::new();
        let count = HeapItemKind::count();
        let mut i: usize = 0;
        while i < count
            invariant
                i <= count,
                descriptors.len() == i,
                forall|j: int| 0 <= j < i ==> descriptors@[j]@ == DANGLING_ADDRESS,
            decreases count - i,
        {
            descriptors.push(HeapPtr::uninit());
            i += 1;
        }
        BaseDescriptors { descriptors }
    }

    /// Whether the table has an entry for every kind.
    pub fn is_complete(&self) -> (complete: bool)
        ensures
            complete == (self@.len() == HeapItemKind::count_spec()),
    {
        self.descriptors.len() == HeapItemKind::count()
    }

    /// The descriptor of `kind`.
    pub fn get(&self, kind: HeapItemKind) -> (descriptor: HeapPtr<HeapItemDescriptor>)
        requires
            kind.index_spec() < self@.len(),
        ensures
            descriptor@ == self@[kind.index_spec()],
    {
        self.descriptors[kind.index()]
    }

    /// Sets the descriptor of `kind`.
    pub fn set(&mut self, kind: HeapItemKind, descriptor: HeapPtr<HeapItemDescriptor>)
        requires
            kind.index_spec() < old(self)@.len(),
        ensures
            final(self)@ == old(self)@.update(kind.index_spec(), descriptor@),
    {
        self.descriptors[kind.index()] = descriptor;
        assert(self@ =~= old(self)@.update(kind.index_spec(), descriptor@));
    }

    /// The address of the descriptor at position `index` of a table whose
    /// descriptors are allocated one after the other from the address `first` on.
    pub open spec fn descriptor_address(first: int, index: int) -> int {
        first + GcHeader::SIZE + descriptor_block_size() * index
    }

    /// Whether the table holds, for every kind, the live descriptor of that
    /// kind among the items of `cx`: an item of the kind of descriptors with the
    /// kind, the flags and the dispatch table of the kind, whose own descriptor
    /// is the descriptor of descriptors at the head of the table.
    pub open spec fn describes(&self, cx: &Context) -> bool {
        &&& self@.len() == HeapItemKind::count_spec()
        &&& cx.items@.contains_key(self@[0])
        &&& cx.items@[self@[0]] == descriptor_item(
            self@[0],
            cx.rust_vtables.address(RustVtable::OrdinaryVirtualObject),
            HeapItemKind::Descriptor,
            DescFlags { bits: 0 },
        )
        &&& forall|kind: HeapItemKind|
            kind != HeapItemKind::Last ==> {
                &&& cx.items@.contains_key(#[trigger] self@[kind.index_spec()])
                &&& cx.items@[self@[kind.index_spec()]] == descriptor_item(
                    self@[0],
                    cx.rust_vtables.address(kind.vtable_spec()),
                    kind,
                    kind.flags_spec(),
                )
                &&& cx.heap.gc_view().manages(self@[kind.index_spec()])
            }
    }

    /// Makes the descriptors of all kinds and returns their table.
    ///
    /// The descriptor of descriptors comes first: it is allocated with a
    /// placeholder as its own descriptor, rooted, and then made its own
    /// descriptor. The descriptor of every other kind is allocated with the
    /// descriptor of descriptors as its descriptor. Two root cells are made:
    /// one for the placeholder and one for the descriptor of descriptors.
    ///
    /// Fails if the heap has no room for all the descriptors; what was
    /// allocated up to then is left to the collector.
    #[verifier::rlimit(40)]
    pub fn new(cx: &mut Context) -> (result: AllocResult<BaseDescriptors>)
        requires
            old(cx).wf(),
            !old(cx).heap.stress(),
            old(cx).handle_context.room() >= 2,
        ensures
            final(cx).wf(),
            final(cx).base_descriptors == old(cx).base_descriptors,
            final(cx).rust_vtables == old(cx).rust_vtables,
            final(cx).address == old(cx).address,
            final(cx).heap.stress() == old(cx).heap.stress(),
            final(cx).handle_context.room() + final(cx).handle_context@.len() == old(
                cx,
            ).handle_context.room() + old(cx).handle_context@.len(),
            result.is_ok() == (old(cx).heap.gc_view().next_address + HeapItemKind::count_spec()
                * descriptor_block_size() <= usize::MAX / 2),
            match result {
                Ok(table) => {
                    &&& table.describes(final(cx))
                    &&& forall|index: int|
                        0 <= index < HeapItemKind::count_spec() ==> #[trigger] table@[index]
                            == BaseDescriptors::descriptor_address(
                            old(cx).heap.gc_view().next_address,
                            index,
                        )
                    &&& final(cx).handle_context@.len() == old(cx).handle_context@.len() + 2
                    &&& old(cx).handle_context.keeps_cells(
                        &final(cx).handle_context,
                        old(cx).handle_context@.len() as int,
                    )
                    &&& final(cx).handle_context@[old(cx).handle_context@.len() as int].contents
                        == EMPTY_BITS
                    &&& final(cx).handle_context@[old(cx).handle_context@.len() as int + 1].contents
                        == table@[0]
                    &&& final(cx).heap.gc_view().next_address == old(cx).heap.gc_view().next_address + HeapItemKind::count_spec()
                        * descriptor_block_size()
                    &&& !old(cx).heap.gc_view().gc_in_progress() ==> exists|contexts: Seq<usize>|
                        {
                            &&& contexts.len() == HeapItemKind::count_spec()
                            &&& forall|i: int|
                                0 <= i < contexts.len() ==> #[trigger] contexts[i] % 8 == 0
                            &&& final(cx).heap.gc_view() == #[trigger] old(
                                cx,
                            ).heap.gc_view().allocate_all(descriptor_requests(contexts))
                        }
                },
                Err(_) => {
                    &&& final(cx).handle_context@.len() == old(cx).handle_context@.len() + (
                    if old(cx).heap.gc_view().can_alloc(DESCRIPTOR_BYTE_SIZE) {
                        2int
                    } else {
                        1int
                    })
                    &&& old(cx).handle_context.keeps_cells(
                        &final(cx).handle_context,
                        old(cx).handle_context@.len() as int,
                    )
                },
            },
    {
        let ghost start = *cx;
        let ghost first = cx.heap.gc_view().next_address;
        let count = HeapItemKind::count();
        let mut table = Self::uninit();
        proof {
            cx.heap.lemma_view_wf();
            assert(descriptor_block_size() == 48);
        }
        // The placeholder that the descriptor of descriptors has as its
        // descriptor until it exists itself.
        let ghost mut contexts: Seq<usize> = Seq::empty();
        let fake_descriptor_handle: StackRoot<HeapItemDescriptor> = StackRoot::empty(cx);
        let ordinary = get_vtable(&cx.rust_vtables, RustVtable::OrdinaryVirtualObject);
        let ghost with_placeholder = *cx;
        let desc = match HeapItemDescriptor::new(
            cx,
            fake_descriptor_handle,
            RustVtable::OrdinaryVirtualObject,
            HeapItemKind::Descriptor,
            DescFlags::empty(),
        ) {
            Ok(desc) => desc,
            Err(error) => {
                return Err(error);
            },
        };
        proof {
            cx.heap.lemma_view_wf();
            with_placeholder.heap.lemma_view_wf();
            let graph = with_placeholder.graph();
            let before = with_placeholder.heap.gc_view().step_if_collecting(graph);
            crate::heap_model::lemma_collecting_keeps_next_address(
                with_placeholder.heap.gc_view(),
                graph,
                0,
            );
            if with_placeholder.heap.gc_view().gc_in_progress() {
                lemma_step_wf(with_placeholder.heap.gc_view(), graph);
            }
            let context = choose|context: usize|
                context % 8 == 0 && cx.heap.gc_view() == #[trigger] before.allocate(
                    DESCRIPTOR_BYTE_SIZE,
                    context,
                );
            lemma_allocate_keeps(before, DESCRIPTOR_BYTE_SIZE, context, first as usize);
            contexts = seq![context];
            if !start.heap.gc_view().gc_in_progress() {
                let requests = descriptor_requests(contexts);
                assert(requests.drop_last() =~= Seq::<(usize, usize)>::empty());
                assert(requests.last() == (DESCRIPTOR_BYTE_SIZE, context));
                assert(start.heap.gc_view().allocate_all(requests.drop_last())
                    == start.heap.gc_view());
            }
        }
        let descriptor = desc.to_stack(cx);
        // The descriptor of descriptors is its own descriptor.
        let fields = HeapItemDescriptor::with_fields(
            desc,
            ordinary,
            HeapItemKind::Descriptor,
            DescFlags::empty(),
        );
        cx.items.insert(desc.as_ptr(), AnyHeapItem::new(desc, HeapItemBody::Descriptor(fields)));
        table.set(HeapItemKind::Descriptor, desc);
        let ghost rooted = cx.handle_context;
        proof {
            lemma_kind_index_injective(HeapItemKind::Descriptor, HeapItemKind::Descriptor);
        }
        let mut i: usize = 1;
        while i < count
            invariant
                cx.wf(),
                !cx.heap.stress(),
                start == *old(cx),
                !start.heap.stress(),
                descriptor_block_size() == 48,
                cx.base_descriptors == start.base_descriptors,
                cx.rust_vtables == start.rust_vtables,
                cx.address == start.address,
                cx.handle_context == rooted,
                rooted.contents_at(descriptor@) == Some(desc@),
                old(cx).heap.gc_view().can_alloc(DESCRIPTOR_BYTE_SIZE),
                rooted@.len() == old(cx).handle_context@.len() + 2,
                rooted.room() == old(cx).handle_context.room() - 2,
                old(cx).handle_context.keeps_cells(&rooted, old(cx).handle_context@.len() as int),
                count == HeapItemKind::count_spec(),
                1 <= i <= count,
                table@.len() == count,
                first == start.heap.gc_view().next_address,
                cx.heap.gc_view().wf(),
                cx.heap.gc_view().next_address == first + i * descriptor_block_size(),
                desc@ == table@[0],
                contexts.len() == i,
                forall|k: int| 0 <= k < contexts.len() ==> #[trigger] contexts[k] % 8 == 0,
                !start.heap.gc_view().gc_in_progress() ==> cx.heap.gc_view()
                    == start.heap.gc_view().allocate_all(descriptor_requests(contexts))
                    && !cx.heap.gc_view().gc_in_progress(),
                forall|kind: HeapItemKind|
                    kind.index_spec() < i ==> {
                        &&& #[trigger] table@[kind.index_spec()]
                            == BaseDescriptors::descriptor_address(first, kind.index_spec())
                        &&& cx.items@.contains_key(table@[kind.index_spec()])
                        &&& cx.items@[table@[kind.index_spec()]] == descriptor_item(
                            desc@,
                            cx.rust_vtables.address(kind.vtable_spec()),
                            kind,
                            kind.flags_spec(),
                        )
                        &&& cx.heap.gc_view().kept_by_cycle(
                            (first + descriptor_block_size() * kind.index_spec()) as usize,
                        )
                    },
            decreases count - i,
        {
            let kind = HeapItemKind::from_index(i);
            let ghost before_cx = *cx;
            let ghost before_table = table@;
            proof {
                crate::heap_model::lemma_collecting_keeps_next_address(
                    before_cx.heap.gc_view(),
                    before_cx.graph(),
                    0,
                );
            }
            let made = match HeapItemDescriptor::new(
                cx,
                descriptor,
                kind.vtable(),
                kind,
                kind.flags(),
            ) {
                Ok(made) => made,
                Err(error) => {
                    return Err(error);
                },
            };
            table.set(kind, made);
            proof {
                cx.heap.lemma_view_wf();
                before_cx.heap.lemma_view_wf();
                let graph = before_cx.graph();
                let h = before_cx.heap.gc_view();
                let before = h.step_if_collecting(graph);
                crate::heap_model::lemma_collecting_keeps_next_address(h, graph, 0);
                if h.gc_in_progress() {
                    lemma_step_wf(h, graph);
                }
                let context = choose|context: usize|
                    context % 8 == 0 && cx.heap.gc_view() == #[trigger] before.allocate(
                        DESCRIPTOR_BYTE_SIZE,
                        context,
                    );
                assert(before.next_address == first + i * 48);
                assert(cx.heap.gc_view().next_address == first + (i + 1) * 48);
                let earlier = contexts;
                contexts = contexts.push(context);
                if !start.heap.gc_view().gc_in_progress() {
                    let requests = descriptor_requests(contexts);
                    assert(requests.drop_last() =~= descriptor_requests(earlier));
                    assert(requests.last() == (DESCRIPTOR_BYTE_SIZE, context));
                }
                assert(made@ == BaseDescriptors::descriptor_address(first, i as int));
                assert forall|other: HeapItemKind| other.index_spec() < i + 1 implies {
                    &&& #[trigger] table@[other.index_spec()]
                        == BaseDescriptors::descriptor_address(first, other.index_spec())
                    &&& cx.items@.contains_key(table@[other.index_spec()])
                    &&& cx.items@[table@[other.index_spec()]] == descriptor_item(
                        desc@,
                        cx.rust_vtables.address(other.vtable_spec()),
                        other,
                        other.flags_spec(),
                    )
                    &&& cx.heap.gc_view().kept_by_cycle(
                        (first + descriptor_block_size() * other.index_spec()) as usize,
                    )
                } by {
                    let a = (first + descriptor_block_size() * other.index_spec()) as usize;
                    if other.index_spec() < i {
                        assert(before_table[other.index_spec()] == table@[other.index_spec()]);
                        if h.gc_in_progress() {
                            lemma_step_keeps(h, graph, a);
                        }
                        lemma_allocate_keeps(before, DESCRIPTOR_BYTE_SIZE, context, a);
                    } else {
                        lemma_kind_index_injective(other, kind);
                        lemma_allocate_keeps(before, DESCRIPTOR_BYTE_SIZE, context, a);
                    }
                }
            }
            i += 1;
        }
        proof {
            assert forall|kind: HeapItemKind| kind != HeapItemKind::Last implies {
                &&& cx.items@.contains_key(#[trigger] table@[kind.index_spec()])
                &&& cx.items@[table@[kind.index_spec()]] == descriptor_item(
                    table@[0],
                    cx.rust_vtables.address(kind.vtable_spec()),
                    kind,
                    kind.flags_spec(),
                )
                &&& cx.heap.gc_view().manages(table@[kind.index_spec()])
            } by {
                assert(kind.index_spec() < count);
            }
            assert forall|index: int| 0 <= index < HeapItemKind::count_spec() implies #[trigger] table@[index]
                == BaseDescriptors::descriptor_address(first, index) by {
                lemma_kind_covers(index);
                let kind = choose|kind: HeapItemKind| kind.index_spec() == index;
                assert(table@[kind.index_spec()] == BaseDescriptors::descriptor_address(
                    first,
                    kind.index_spec(),
                ));
            }
        }
        Ok(table)
    }

    /// The pointers that the table holds as roots, in the order in which they
    /// are reported: the descriptors in the order of the kinds.
    pub open spec fn root_pointers(&self) -> Seq<usize> {
        non_dangling(self@)
    }

    /// Reports every descriptor of the table to `visitor`: the descriptors are roots.
    pub fn visit_roots<V: GcVisitorExt>(&self, visitor: &mut V)
        requires
            old(visitor).well_formed(),
        ensures
            final(visitor).well_formed(),
            final(visitor).heap_view() == old(visitor).heap_view().mark_all(self.root_pointers()),
            final(visitor).weak_seen() == old(visitor).weak_seen(),
    {
        let ghost start = visitor.heap_view();
        let mut i: usize = 0;
        proof {
            assert(self@.take(0) =~= Seq::<usize>::empty());
        }
        while i < self.descriptors.len()
            invariant
                i <= self.descriptors.len(),
                visitor.well_formed(),
                visitor.heap_view() == start.mark_all(non_dangling(self@.take(i as int))),
                visitor.weak_seen() == old(visitor).weak_seen(),
            decreases self.descriptors.len() - i,
        {
            proof {
                let done = self@.take(i as int);
                let more = self@.take(i + 1);
                assert(more.drop_last() =~= done);
                assert(more.last() == self.descriptors@[i as int]@);
                assert(non_dangling(done).push(more.last()).drop_last() =~= non_dangling(done));
            }
            visitor.visit_pointer(&self.descriptors[i]);
            i += 1;
        }
        proof {
            assert(self@.take(self.descriptors.len() as int) =~= self@);
        }
    }
}

} // verus!
