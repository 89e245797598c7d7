//! Object headers for the tri-color collector.
//!
//! Every managed object is preceded by a fixed-size [`GcHeader`]. The header
//! records the object's color, the size of its body, the next header on the
//! heap's list of all objects and the context that owns the object. Addresses
//! are plain integers: a header lives at an 8-byte aligned address and the
//! body starts `GcHeader::SIZE` bytes after it.

use vstd::prelude::*;

verus! {

/// The three colors used in tri-color marking.
#[derive(Clone, Copy, Debug, PartialEq, Eq, Structural)]
pub enum GcColor {
    /// Not yet visited; collected if still white once marking is complete.
    White,
    /// Visited, but its outgoing pointers have not been scanned yet.
    Gray,
    /// Visited, and all of its outgoing pointers have been scanned.
    Black,
}

impl GcColor {
    /// The color that a stored number stands for. Numbers above 2 stand for white.
    pub open spec fn of_bits(val: int) -> GcColor {
        if val == 1 {
            GcColor::Gray
        } else if val == 2 {
            GcColor::Black
        } else {
            GcColor::White
        }
    }

    /// The number that is stored for a color.
    pub open spec fn bits(self) -> int {
        match self {
            GcColor::White => 0,
            GcColor::Gray => 1,
            GcColor::Black => 2,
        }
    }

    /// Decodes a color from its stored number.
    #[inline]
    pub fn from_u8(val: u8) -> (color: GcColor)
        ensures
            color == GcColor::of_bits(val as int),
    {
        match val {
            0 => GcColor::White,
            1 => GcColor::Gray,
            2 => GcColor::Black,
            _ => GcColor::White,
        }
    }

    /// Encodes a color as the number kept in the low bits of a header word.
    #[inline]
    pub fn to_bits(self) -> (val: usize)
        ensures
            val == self.bits(),
            GcColor::of_bits(val as int) == self,
    {
        match self {
            GcColor::White => 0,
            GcColor::Gray => 1,
            GcColor::Black => 2,
        }
    }
}

impl Default for GcColor {
    fn default() -> (color: Self)
        ensures
            color == GcColor::White,
    {
        GcColor::White
    }
}

/// The phase of an incremental collection cycle.
#[derive(Clone, Copy, Debug, PartialEq, Eq, Structural)]
pub enum GcPhase {
    /// No collection is in progress.
    Idle,
    /// The roots are being scanned.
    RootScanning,
    /// Gray objects are being marked incrementally.
    Marking,
    /// Weak references are being processed.
    WeakRefProcessing,
    /// White objects are being swept incrementally.
    Sweeping,
}

impl Default for GcPhase {
    fn default() -> (phase: Self)
        ensures
            phase == GcPhase::Idle,
    {
        GcPhase::Idle
    }
}

/// Mask of the color bits in the packed header word.
pub const COLOR_MASK: usize = 0b111;

/// What a header holds, with the packed word taken apart.
pub struct HeaderView {
    /// The marking color.
    pub color: GcColor,
    /// Address of the owning context, 8-byte aligned.
    pub context: usize,
    /// Size of the object body in bytes, without the header.
    pub alloc_size: usize,
    /// Address of the next header on the list of all objects.
    pub next_object: Option<usize>,
}

/// Size and alignment of the block that backs one object.
#[derive(Clone, Copy, Debug, PartialEq, Eq, Structural)]
pub struct BlockLayout {
    /// Size of the block in bytes, header included.
    pub size: usize,
    /// Alignment of the block in bytes.
    pub align: usize,
}

/// Header prepended to every managed object.
///
/// The context address and the color share one word: context addresses are
/// 8-byte aligned, so the low three bits are free to hold the color.
#[derive(Clone, Copy, Debug)]
pub struct GcHeader {
    context_and_color: usize,
    alloc_size: usize,
    next_object: Option<usize>,
}

/// `value` rounded up to the next multiple of `align`, for `align` a power of two.
pub open spec fn align_up_spec(value: int, align: int) -> int {
    if value % align == 0 {
        value
    } else {
        value + align - value % align
    }
}

/// Rounds `value` up to a multiple of 8.
#[inline]
pub fn align_up(value: usize) -> (aligned: usize)
    requires
        value + 7 <= usize::MAX,
    ensures
        aligned == align_up_spec(value as int, 8),
        aligned % 8 == 0,
        value <= aligned < value + 8,
{
    let bumped: usize = value + 7;
    let aligned: usize = bumped & !7usize;
    assert(aligned <= bumped && aligned % 8 == 0 && bumped - aligned < 8) by (bit_vector)
        requires
            aligned == bumped & !7usize,
    ;
    aligned
}

impl View for GcHeader {
    type V = HeaderView;

    closed spec fn view(&self) -> HeaderView {
        HeaderView {
            color: GcColor::of_bits((self.context_and_color & COLOR_MASK) as int),
            context: self.context_and_color & !COLOR_MASK,
            alloc_size: self.alloc_size,
            next_object: self.next_object,
        }
    }
}

impl GcHeader {
    /// Size of a header in bytes.
    pub const SIZE: usize = 24;

    /// Alignment of every block.
    pub const ALIGN: usize = 8;

    /// Whether the whole block of a body of `size` bytes has a size that can be laid out.
    pub open spec fn fits(size: int) -> bool {
        GcHeader::SIZE + align_up_spec(size, 8) <= usize::MAX / 2
    }

    /// A white header for a body of `alloc_size` bytes owned by the context at `context_ptr`.
    #[inline]
    pub fn new(alloc_size: usize, context_ptr: usize) -> (header: GcHeader)
        requires
            context_ptr % 8 == 0,
        ensures
            header@ == (HeaderView {
                color: GcColor::White,
                context: context_ptr,
                alloc_size,
                next_object: None,
            }),
    {
        assert(context_ptr & 0b111 == 0 && context_ptr & !0b111usize == context_ptr)
            by (bit_vector)
            requires
                context_ptr % 8 == 0,
        ;
        GcHeader { context_and_color: context_ptr, alloc_size, next_object: None }
    }

    /// The color of this object.
    #[inline]
    pub fn color(&self) -> (color: GcColor)
        ensures
            color == self@.color,
    {
        let word: usize = self.context_and_color;
        let low: usize = word & COLOR_MASK;
        assert(low < 8) by (bit_vector)
            requires
                low == word & 0b111,
        ;
        GcColor::from_u8(low as u8)
    }

    /// Sets the color of this object and leaves everything else as it is.
    #[inline]
    pub fn set_color(&mut self, color: GcColor)
        ensures
            final(self)@ == (HeaderView { color, ..old(self)@ }),
    {
        let word: usize = self.context_and_color;
        let bits: usize = color.to_bits();
        let packed: usize = (word & !COLOR_MASK) | bits;
        assert(packed & 0b111 == bits && packed & !0b111usize == word & !0b111usize)
            by (bit_vector)
            requires
                packed == (word & !0b111usize) | bits,
                bits <= 2,
        ;
        self.context_and_color = packed;
    }

    /// The address of the owning context.
    #[inline]
    pub fn context_ptr(&self) -> (ptr: usize)
        ensures
            ptr == self@.context,
    {
        self.context_and_color & !COLOR_MASK
    }

    /// Sets the address of the owning context and keeps the color.
    #[inline]
    pub fn set_context_ptr(&mut self, ptr: usize)
        requires
            ptr % 8 == 0,
        ensures
            final(self)@ == (HeaderView { context: ptr, ..old(self)@ }),
    {
        let word: usize = self.context_and_color;
        let packed: usize = ptr | (word & COLOR_MASK);
        assert(packed & 0b111 == word & 0b111 && packed & !0b111usize == ptr) by (bit_vector)
            requires
                packed == ptr | (word & 0b111),
                ptr % 8 == 0,
        ;
        self.context_and_color = packed;
    }

    /// The size of the object body in bytes, without the header.
    #[inline]
    pub fn alloc_size(&self) -> (size: usize)
        ensures
            size == self@.alloc_size,
    {
        self.alloc_size
    }

    /// The size of the object with its header, as a number.
    pub open spec fn total_size_spec(&self) -> int {
        GcHeader::SIZE + self@.alloc_size
    }

    /// The size of the object with its header.
    #[inline]
    pub fn total_size(&self) -> (size: usize)
        requires
            self.total_size_spec() <= usize::MAX,
        ensures
            size == self.total_size_spec(),
    {
        Self::SIZE + self.alloc_size
    }

    /// The next header on the list of all objects.
    #[inline]
    pub fn next_object(&self) -> (next: Option<usize>)
        ensures
            next == self@.next_object,
    {
        self.next_object
    }

    /// Sets the next header on the list of all objects.
    #[inline]
    pub fn set_next_object(&mut self, next: Option<usize>)
        ensures
            final(self)@ == (HeaderView { next_object: next, ..old(self)@ }),
    {
        self.next_object = next;
    }

    /// The address of the object body that follows a header at `header_ptr`.
    pub open spec fn object_address(header_ptr: int) -> int {
        header_ptr + GcHeader::SIZE
    }

    /// The address of the header that precedes an object body at `object_ptr`.
    pub open spec fn header_address(object_ptr: int) -> int {
        object_ptr - GcHeader::SIZE
    }

    /// The address of the object body, given the address of its header.
    #[inline]
    pub fn object_ptr(header_ptr: usize) -> (object_ptr: usize)
        requires
            header_ptr + GcHeader::SIZE <= usize::MAX,
        ensures
            object_ptr == GcHeader::object_address(header_ptr as int),
    {
        header_ptr + Self::SIZE
    }

    /// The address of the header of the object at `object_ptr`, or `None` where no
    /// header fits in front of that address.
    #[inline]
    pub fn from_object_ptr(object_ptr: usize) -> (header_ptr: Option<usize>)
        ensures
            header_ptr == (if object_ptr >= GcHeader::SIZE {
                Some(GcHeader::header_address(object_ptr as int) as usize)
            } else {
                None
            }),
    {
        if object_ptr >= Self::SIZE {
            Some(object_ptr - Self::SIZE)
        } else {
            None
        }
    }

    /// The layout of the block for a body of `size` bytes: the header followed by
    /// the body, rounded up to the alignment.
    #[inline]
    pub fn layout_for_size(size: usize) -> (layout: BlockLayout)
        requires
            GcHeader::fits(size as int),
        ensures
            layout.size == GcHeader::SIZE + align_up_spec(size as int, 8),
            layout.align == GcHeader::ALIGN,
    {
        let total_size: usize = Self::SIZE + align_up(size);
        BlockLayout { size: total_size, align: Self::ALIGN }
    }

    /// Whether this object is marked, that is gray or black.
    #[inline]
    pub fn is_marked(&self) -> (marked: bool)
        ensures
            marked == (self@.color != GcColor::White),
    {
        self.color() != GcColor::White
    }

    /// Whether this object still needs scanning, that is whether it is gray.
    #[inline]
    pub fn needs_scanning(&self) -> (gray: bool)
        ensures
            gray == (self@.color == GcColor::Gray),
    {
        self.color() == GcColor::Gray
    }
}

} // verus!
