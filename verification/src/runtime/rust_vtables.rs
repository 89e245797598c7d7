//! The dispatch tables that heap items refer to.
//!
//! A heap item may hold the address of a dispatch table of the runtime. Such an
//! address is not a pointer into the heap: the collector stores it and never
//! follows it. The embedder registers the address of each table once; the
//! registry finds the table for an address by binary search.

use vstd::prelude::*;

verus! {

/// Every dispatch table that can appear in the heap.
#[derive(Clone, Copy, Debug, PartialEq, Eq, Structural)]
pub enum RustVtable {
    OrdinaryVirtualObject,
    ArrayVirtualObject,
    StringVirtualObject,
    ProxyVirtualObject,
    ModuleNamespaceVirtualObject,
    MappedArgumentsVirtualObject,
    Int8ArrayVirtualObject,
    UInt8ArrayVirtualObject,
    UInt8ClampedArrayVirtualObject,
    Int16ArrayVirtualObject,
    UInt16ArrayVirtualObject,
    Int32ArrayVirtualObject,
    Uint32ArrayVirtualObject,
    Float16ArrayVirtualObject,
    Float32ArrayVirtualObject,
    Float64ArrayVirtualObject,
    BigInt64ArrayVirtualObject,
    BigUInt64ArrayVirtualObject,
    SourceTextModule,
    SyntheticModule,
    Int8TypedArray,
    UInt8TypedArray,
    UInt8ClampedTypedArray,
    Int16TypedArray,
    UInt16TypedArray,
    Int32TypedArray,
    UInt32TypedArray,
    Float16TypedArray,
    Float32TypedArray,
    Float64TypedArray,
    BigInt64TypedArray,
    BigUInt64TypedArray,
    /// Not a table: it stands behind the last one and counts them.
    Last,
}

impl RustVtable {
    /// The number of dispatch tables.
    pub const COUNT: usize = 32;

    /// The position of the table in the registry.
    pub open spec fn index_spec(self) -> int {
        match self {
            RustVtable::OrdinaryVirtualObject => 0,
            RustVtable::ArrayVirtualObject => 1,
            RustVtable::StringVirtualObject => 2,
            RustVtable::ProxyVirtualObject => 3,
            RustVtable::ModuleNamespaceVirtualObject => 4,
            RustVtable::MappedArgumentsVirtualObject => 5,
            RustVtable::Int8ArrayVirtualObject => 6,
            RustVtable::UInt8ArrayVirtualObject => 7,
            RustVtable::UInt8ClampedArrayVirtualObject => 8,
            RustVtable::Int16ArrayVirtualObject => 9,
            RustVtable::UInt16ArrayVirtualObject => 10,
            RustVtable::Int32ArrayVirtualObject => 11,
            RustVtable::Uint32ArrayVirtualObject => 12,
            RustVtable::Float16ArrayVirtualObject => 13,
            RustVtable::Float32ArrayVirtualObject => 14,
            RustVtable::Float64ArrayVirtualObject => 15,
            RustVtable::BigInt64ArrayVirtualObject => 16,
            RustVtable::BigUInt64ArrayVirtualObject => 17,
            RustVtable::SourceTextModule => 18,
            RustVtable::SyntheticModule => 19,
            RustVtable::Int8TypedArray => 20,
            RustVtable::UInt8TypedArray => 21,
            RustVtable::UInt8ClampedTypedArray => 22,
            RustVtable::Int16TypedArray => 23,
            RustVtable::UInt16TypedArray => 24,
            RustVtable::Int32TypedArray => 25,
            RustVtable::UInt32TypedArray => 26,
            RustVtable::Float16TypedArray => 27,
            RustVtable::Float32TypedArray => 28,
            RustVtable::Float64TypedArray => 29,
            RustVtable::BigInt64TypedArray => 30,
            RustVtable::BigUInt64TypedArray => 31,
            RustVtable::Last => 32,
        }
    }

    /// The position of the table in the registry.
    pub fn index(self) -> (index: usize)
        ensures
            index == self.index_spec(),
            index <= RustVtable::COUNT,
            (index == RustVtable::COUNT) == (self == RustVtable::Last),
    {
        match self {
            RustVtable::OrdinaryVirtualObject => 0,
            RustVtable::ArrayVirtualObject => 1,
            RustVtable::StringVirtualObject => 2,
            RustVtable::ProxyVirtualObject => 3,
            RustVtable::ModuleNamespaceVirtualObject => 4,
            RustVtable::MappedArgumentsVirtualObject => 5,
            RustVtable::Int8ArrayVirtualObject => 6,
            RustVtable::UInt8ArrayVirtualObject => 7,
            RustVtable::UInt8ClampedArrayVirtualObject => 8,
            RustVtable::Int16ArrayVirtualObject => 9,
            RustVtable::UInt16ArrayVirtualObject => 10,
            RustVtable::Int32ArrayVirtualObject => 11,
            RustVtable::Uint32ArrayVirtualObject => 12,
            RustVtable::Float16ArrayVirtualObject => 13,
            RustVtable::Float32ArrayVirtualObject => 14,
            RustVtable::Float64ArrayVirtualObject => 15,
            RustVtable::BigInt64ArrayVirtualObject => 16,
            RustVtable::BigUInt64ArrayVirtualObject => 17,
            RustVtable::SourceTextModule => 18,
            RustVtable::SyntheticModule => 19,
            RustVtable::Int8TypedArray => 20,
            RustVtable::UInt8TypedArray => 21,
            RustVtable::UInt8ClampedTypedArray => 22,
            RustVtable::Int16TypedArray => 23,
            RustVtable::UInt16TypedArray => 24,
            RustVtable::Int32TypedArray => 25,
            RustVtable::UInt32TypedArray => 26,
            RustVtable::Float16TypedArray => 27,
            RustVtable::Float32TypedArray => 28,
            RustVtable::Float64TypedArray => 29,
            RustVtable::BigInt64TypedArray => 30,
            RustVtable::BigUInt64TypedArray => 31,
            RustVtable::Last => 32,
        }
    }

    /// The table at a position of the registry; `Last` for a position behind the tables.
    pub fn from_index(index: usize) -> (vtable: RustVtable)
        ensures
            index < RustVtable::COUNT ==> vtable.index_spec() == index,
            index >= RustVtable::COUNT ==> vtable == RustVtable::Last,
    {
        match index {
            0 => RustVtable::OrdinaryVirtualObject,
            1 => RustVtable::ArrayVirtualObject,
            2 => RustVtable::StringVirtualObject,
            3 => RustVtable::ProxyVirtualObject,
            4 => RustVtable::ModuleNamespaceVirtualObject,
            5 => RustVtable::MappedArgumentsVirtualObject,
            6 => RustVtable::Int8ArrayVirtualObject,
            7 => RustVtable::UInt8ArrayVirtualObject,
            8 => RustVtable::UInt8ClampedArrayVirtualObject,
            9 => RustVtable::Int16ArrayVirtualObject,
            10 => RustVtable::UInt16ArrayVirtualObject,
            11 => RustVtable::Int32ArrayVirtualObject,
            12 => RustVtable::Uint32ArrayVirtualObject,
            13 => RustVtable::Float16ArrayVirtualObject,
            14 => RustVtable::Float32ArrayVirtualObject,
            15 => RustVtable::Float64ArrayVirtualObject,
            16 => RustVtable::BigInt64ArrayVirtualObject,
            17 => RustVtable::BigUInt64ArrayVirtualObject,
            18 => RustVtable::SourceTextModule,
            19 => RustVtable::SyntheticModule,
            20 => RustVtable::Int8TypedArray,
            21 => RustVtable::UInt8TypedArray,
            22 => RustVtable::UInt8ClampedTypedArray,
            23 => RustVtable::Int16TypedArray,
            24 => RustVtable::UInt16TypedArray,
            25 => RustVtable::Int32TypedArray,
            26 => RustVtable::UInt32TypedArray,
            27 => RustVtable::Float16TypedArray,
            28 => RustVtable::Float32TypedArray,
            29 => RustVtable::Float64TypedArray,
            30 => RustVtable::BigInt64TypedArray,
            31 => RustVtable::BigUInt64TypedArray,
            _ => RustVtable::Last,
        }
    }
}

/// The address of a dispatch table together with the table it belongs to.
#[derive(Clone, Copy, Debug)]
pub struct VtablePtr(pub usize, pub RustVtable);

/// Whether `sorted` has an entry for `table`.
pub open spec fn holds(sorted: Seq<VtablePtr>, table: RustVtable) -> bool {
    exists|i: int| 0 <= i < sorted.len() && (#[trigger] sorted[i]).1 == table
}

/// The registry of the dispatch tables: the address of each table, and the
/// same addresses sorted for the search.
pub struct RustVtables {
    vtables: Vec<usize>,
    sorted_by_pointer: Vec<VtablePtr>,
}

impl RustVtables {
    /// The address that is registered for `vtable`.
    pub closed spec fn address(&self, vtable: RustVtable) -> usize {
        self.vtables@[vtable.index_spec()]
    }

    /// The invariant of the registry: it holds one address for each table, and
    /// the sorted addresses are those addresses, each with its table.
    pub closed spec fn wf(&self) -> bool {
        &&& self.vtables.len() == RustVtable::COUNT
        &&& self.sorted_by_pointer.len() == RustVtable::COUNT
        &&& forall|i: int, j: int|
            0 <= i <= j < self.sorted_by_pointer.len() ==> self.sorted_by_pointer@[i].0
                <= self.sorted_by_pointer@[j].0
        &&& forall|i: int|
            0 <= i < self.sorted_by_pointer.len() ==> {
                &&& (#[trigger] self.sorted_by_pointer@[i]).1 != RustVtable::Last
                &&& self.sorted_by_pointer@[i].0 == self.vtables@[self.sorted_by_pointer@[i].1.index_spec()]
            }
        &&& forall|table: RustVtable|
            table != RustVtable::Last ==> #[trigger] holds(self.sorted_by_pointer@, table)
    }

    /// A registry for the given addresses, one for each table in the order of
    /// the tables. Without exactly one address for each table there is no registry.
    pub fn new(addresses: Vec<usize>) -> (registry: Option<RustVtables>)
        ensures
            registry.is_some() == (addresses.len() == RustVtable::COUNT),
            registry.is_some() ==> registry.unwrap().wf() && forall|vtable: RustVtable|
                vtable != RustVtable::Last ==> #[trigger] registry.unwrap().address(vtable)
                    == addresses@[vtable.index_spec()],
    {
        if addresses.len() != RustVtable::COUNT {
            return None;
        }
        let mut sorted: Vec<VtablePtr> = Vec::new();
        let mut i: usize = 0;
        while i < RustVtable::COUNT
            invariant
                addresses.len() == RustVtable::COUNT,
                i <= RustVtable::COUNT,
                sorted.len() == i,
                forall|a: int, b: int| 0 <= a <= b < sorted.len() ==> sorted@[a].0 <= sorted@[b].0,
                forall|a: int|
                    0 <= a < sorted.len() ==> {
                        &&& (#[trigger] sorted@[a]).1 != RustVtable::Last
                        &&& sorted@[a].1.index_spec() < i
                        &&& sorted@[a].0 == addresses@[sorted@[a].1.index_spec()]
                    },
                forall|table: RustVtable|
                    table.index_spec() < i ==> #[trigger] holds(sorted@, table),
            decreases RustVtable::COUNT - i,
        {
            let entry = VtablePtr(addresses[i], RustVtable::from_index(i));
            let ghost before = sorted@;
            let mut position: usize = 0;
            while position < sorted.len() && sorted[position].0 <= entry.0
                invariant
                    position <= sorted.len(),
                    sorted@ == before,
                    forall|a: int| 0 <= a < position ==> sorted@[a].0 <= entry.0,
                decreases sorted.len() - position,
            {
                position += 1;
            }
            sorted.insert(position, entry);
            proof {
                assert forall|table: RustVtable| table.index_spec() < i + 1 implies #[trigger] holds(
                    sorted@,
                    table,
                ) by {
                    if table.index_spec() < i {
                        assert(holds(before, table));
                        let a = choose|a: int|
                            0 <= a < before.len() && (#[trigger] before[a]).1 == table;
                        if a < position {
                            assert(sorted@[a] == before[a]);
                        } else {
                            assert(sorted@[a + 1] == before[a]);
                        }
                    } else {
                        lemma_index_injective(sorted@[position as int].1, table);
                    }
                }
                assert forall|a: int| 0 <= a < sorted.len() implies {
                    &&& (#[trigger] sorted@[a]).1 != RustVtable::Last
                    &&& sorted@[a].1.index_spec() < i + 1
                    &&& sorted@[a].0 == addresses@[sorted@[a].1.index_spec()]
                } by {
                    if a < position {
                        assert(sorted@[a] == before[a]);
                    } else if a > position {
                        assert(sorted@[a] == before[a - 1]);
                    }
                }
                assert forall|a: int, b: int| 0 <= a <= b < sorted.len() implies sorted@[a].0
                    <= sorted@[b].0 by {
                    if a < position && b > position {
                        assert(sorted@[a] == before[a]);
                        assert(sorted@[b] == before[b - 1]);
                    } else if a > position {
                        assert(sorted@[a] == before[a - 1]);
                        assert(sorted@[b] == before[b - 1]);
                    } else if b < position {
                        assert(sorted@[a] == before[a]);
                        assert(sorted@[b] == before[b]);
                    } else if a == position && b > position {
                        assert(sorted@[b] == before[b - 1]);
                    } else if b == position && a < position {
                        assert(sorted@[a] == before[a]);
                    }
                }
            }
            i += 1;
        }
        Some(RustVtables { vtables: addresses, sorted_by_pointer: sorted })
    }
}

/// The address of a dispatch table.
pub fn get_vtable(vtables: &RustVtables, vtable: RustVtable) -> (address: usize)
    requires
        vtables.wf(),
        vtable != RustVtable::Last,
    ensures
        address == vtables.address(vtable),
{
    vtables.vtables[vtable.index()]
}

/// The dispatch table that lies at `vtable`, or `None` if no table is registered
/// at that address.
pub fn lookup_vtable_enum(vtables: &RustVtables, vtable: usize) -> (found: Option<RustVtable>)
    requires
        vtables.wf(),
    ensures
        match found {
            Some(table) => table != RustVtable::Last && vtables.address(table) == vtable,
            None => forall|table: RustVtable|
                table != RustVtable::Last ==> #[trigger] vtables.address(table) != vtable,
        },
{
    let mut low: usize = 0;
    let mut high: usize = vtables.sorted_by_pointer.len();
    while low < high
        invariant
            vtables.wf(),
            low <= high <= vtables.sorted_by_pointer.len(),
            forall|i: int| 0 <= i < low ==> (#[trigger] vtables.sorted_by_pointer@[i]).0 < vtable,
            forall|i: int|
                high <= i < vtables.sorted_by_pointer.len() ==> (
                #[trigger] vtables.sorted_by_pointer@[i]).0 > vtable,
        decreases high - low,
    {
        let middle: usize = low + (high - low) / 2;
        let entry = vtables.sorted_by_pointer[middle];
        if entry.0 == vtable {
            return Some(entry.1);
        } else if entry.0 < vtable {
            low = middle + 1;
        } else {
            high = middle;
        }
    }
    proof {
        assert forall|table: RustVtable| table != RustVtable::Last implies #[trigger] vtables.address(
            table,
        ) != vtable by {
            assert(holds(vtables.sorted_by_pointer@, table));
            let i = choose|i: int|
                0 <= i < vtables.sorted_by_pointer.len() && (
                #[trigger] vtables.sorted_by_pointer@[i]).1 == table;
        }
    }
    None
}

/// Two tables at the same position of the registry are the same table.
pub proof fn lemma_index_injective(a: RustVtable, b: RustVtable)
    requires
        a.index_spec() == b.index_spec(),
    ensures
        a == b,
{
}

} // verus!
