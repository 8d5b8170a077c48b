//! Addressing the bytes of a frame that lies in one buffer, row after row.

use crate::descriptor::{DescriptorView, FormatDescriptor};
use vstd::arithmetic::div_mod::{
    lemma_div_pos_is_pos, lemma_fundamental_div_mod, lemma_fundamental_div_mod_converse,
    lemma_mod_pos_bound,
};
use vstd::prelude::*;

verus! {

impl DescriptorView {
    /// Where byte `byte` of row `row` lies in the buffer.
    pub open spec fn offset(self, row: int, byte: int) -> int {
        row * self.stride + byte
    }

    /// The row that the byte at `index` of the buffer belongs to.
    pub open spec fn row_of(self, index: int) -> int {
        index / self.stride
    }

    /// Where in its row the byte at `index` of the buffer lies.
    pub open spec fn byte_of(self, index: int) -> int {
        index % self.stride
    }

    /// Whether the byte at `index` of the buffer holds part of a pixel, and
    /// not padding.
    pub open spec fn holds_pixel(self, index: int) -> bool {
        self.byte_of(index) < self.row_bytes()
    }
}

/// Every byte of row `row` has an index in the buffer, and the row and the
/// place in the row can be had back from that index.
pub proof fn lemma_offset_round_trip(geometry: DescriptorView, row: int, byte: int)
    requires
        0 <= row < geometry.height,
        0 <= byte < geometry.stride,
    ensures
        0 <= geometry.offset(row, byte) < geometry.unit_size(),
        geometry.row_of(geometry.offset(row, byte)) == row,
        geometry.byte_of(geometry.offset(row, byte)) == byte,
{
    let stride = geometry.stride;
    let height = geometry.height;
    lemma_fundamental_div_mod_converse(row * stride + byte, stride, row, byte);
    assert(0 <= row * stride) by (nonlinear_arith)
        requires
            0 <= row,
            0 <= stride,
    ;
    assert(row * stride + stride <= height * stride) by (nonlinear_arith)
        requires
            0 <= row < height,
            0 <= stride,
    ;
    assert(stride * height == height * stride) by (nonlinear_arith);
}

/// Every index of the buffer is the index of one byte of one row.
pub proof fn lemma_index_has_row(geometry: DescriptorView, index: int)
    requires
        0 <= geometry.stride,
        0 <= geometry.height,
        0 <= index < geometry.unit_size(),
    ensures
        0 <= geometry.row_of(index) < geometry.height,
        0 <= geometry.byte_of(index) < geometry.stride,
        geometry.offset(geometry.row_of(index), geometry.byte_of(index)) == index,
{
    let stride = geometry.stride;
    let height = geometry.height;
    assert(stride > 0) by (nonlinear_arith)
        requires
            0 <= index < stride * height,
            0 <= stride,
            0 <= height,
    ;
    lemma_fundamental_div_mod(index, stride);
    lemma_div_pos_is_pos(index, stride);
    lemma_mod_pos_bound(index, stride);
    let row = index / stride;
    assert(row < height) by (nonlinear_arith)
        requires
            index == stride * row + index % stride,
            0 <= index % stride,
            index < stride * height,
            stride > 0,
    ;
    assert(stride * row == row * stride) by (nonlinear_arith);
}

/// A frame of a known format laid over a buffer of the size that the format
/// asks for. Every byte of every row then has its place in the buffer.
#[derive(Clone, Copy, Debug)]
pub struct FrameView {
    descriptor: FormatDescriptor,
}

impl View for FrameView {
    type V = DescriptorView;

    closed spec fn view(&self) -> DescriptorView {
        self.descriptor@
    }
}

impl FrameView {
    /// Holds of every view that exists at run time.
    #[verifier::type_invariant]
    pub open spec fn well_formed(self) -> bool {
        self@.consistent()
    }

    /// Lays a frame of the given format over a buffer of `len` bytes. `None`
    /// unless the buffer has exactly the size of one frame.
    pub fn over(len: usize, descriptor: &FormatDescriptor) -> (view: Option<FrameView>)
        ensures
            view is Some <==> len == descriptor@.unit_size(),
            view matches Some(v) ==> v@ == descriptor@,
    {
        proof {
            use_type_invariant(descriptor);
        }
        if len == descriptor.unit_size() {
            Some(FrameView { descriptor: *descriptor })
        } else {
            None
        }
    }

    /// The format of the frame.
    pub fn descriptor(&self) -> (descriptor: FormatDescriptor)
        ensures
            descriptor@ == self@,
    {
        self.descriptor
    }

    /// Bytes of the buffer that the frame lies over.
    pub fn len(&self) -> (len: usize)
        ensures
            len == self@.unit_size(),
    {
        self.descriptor.unit_size()
    }

    /// The index in the buffer of byte `byte` of row `row`, where the frame
    /// has that row and the row holds a pixel there. `None` elsewhere: for a
    /// row past the last, and for a place in the padding.
    pub fn offset(&self, row: usize, byte: usize) -> (index: Option<usize>)
        ensures
            index is Some <==> row < self@.height && byte < self@.row_bytes(),
            index matches Some(i) ==> i == self@.offset(row as int, byte as int) && i
                < self@.unit_size(),
    {
        if row < self.descriptor.height() && byte < self.descriptor.row_bytes() {
            Some(self.at(row, byte))
        } else {
            None
        }
    }

    /// The index in the buffer of byte `byte` of row `row`.
    pub(crate) fn at(&self, row: usize, byte: usize) -> (index: usize)
        requires
            row < self@.height,
            byte < self@.stride,
        ensures
            index == self@.offset(row as int, byte as int),
            index < self@.unit_size(),
            self@.row_of(index as int) == row,
            self@.byte_of(index as int) == byte,
    {
        proof {
            use_type_invariant(&self.descriptor);
            lemma_offset_round_trip(self@, row as int, byte as int);
        }
        row * self.descriptor.stride() + byte
    }
}

} // verus!
