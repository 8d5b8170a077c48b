//! The format that two stages have agreed on: the plain numbers as they
//! arrive, and the descriptor that comes out of checking them.

use crate::format::{FractionRange, Layout};
use vstd::prelude::*;

verus! {

/// An agreed format as a neighbouring stage hands it over: one layout, one
/// size, one row stride. Nothing about these numbers has been checked yet.
#[derive(Clone, Copy, Debug, PartialEq, Eq, Structural)]
pub struct FixedCaps {
    /// How the samples of a pixel are stored.
    pub layout: Layout,
    /// Pixels in a row.
    pub width: i32,
    /// Rows in a frame.
    pub height: i32,
    /// Bytes from the start of one row to the start of the next.
    pub stride: i32,
    /// The frame rates of the stream.
    pub frame_rate: FractionRange,
}

/// What a descriptor says, as mathematical values.
pub struct DescriptorView {
    pub layout: Layout,
    pub width: int,
    pub height: int,
    pub stride: int,
    pub frame_rate: FractionRange,
}

impl DescriptorView {
    /// Bytes of a row that hold pixels. None for a layout the stage does not
    /// know.
    #[verifier::inline]
    pub open spec fn row_bytes(self) -> int {
        match self.layout {
            Layout::ThreeChannelInterleaved => 3 * self.width,
            Layout::SingleChannelLuma => self.width,
            Layout::Other => 0,
        }
    }

    /// Bytes of one frame: every row takes a full stride.
    #[verifier::inline]
    pub open spec fn unit_size(self) -> int {
        self.stride * self.height
    }

    /// A row's pixels fit in its stride, and a frame's size fits in `usize`.
    #[verifier::inline]
    pub open spec fn consistent(self) -> bool {
        &&& 0 <= self.width
        &&& 0 <= self.height
        &&& self.row_bytes() <= self.stride
        &&& self.unit_size() <= usize::MAX
    }
}

impl FixedCaps {
    /// The numbers of these caps as a descriptor would hold them.
    #[verifier::inline]
    pub open spec fn described(self) -> DescriptorView {
        DescriptorView {
            layout: self.layout,
            width: self.width as int,
            height: self.height as int,
            stride: self.stride as int,
            frame_rate: self.frame_rate,
        }
    }

    /// Whether a descriptor can be made of these caps: no number is negative,
    /// a row's pixels fit in the stride, and the frame's size fits in `usize`.
    #[verifier::inline]
    pub open spec fn parses(self) -> bool {
        self.described().consistent()
    }

    /// Bytes of one frame of these caps, where a descriptor can be made of them.
    pub open spec fn spec_unit_size(self) -> Option<usize> {
        if self.parses() {
            Some((self.stride * self.height) as usize)
        } else {
            None
        }
    }
}

/// A checked format: layout, size, row stride and frame rates. A row's
/// pixels fit in the stride, and the size of a frame fits in `usize`.
#[derive(Clone, Copy, Debug)]
pub struct FormatDescriptor {
    layout: Layout,
    width: usize,
    height: usize,
    stride: usize,
    frame_rate: FractionRange,
}

impl View for FormatDescriptor {
    type V = DescriptorView;

    closed spec fn view(&self) -> DescriptorView {
        DescriptorView {
            layout: self.layout,
            width: self.width as int,
            height: self.height as int,
            stride: self.stride as int,
            frame_rate: self.frame_rate,
        }
    }
}

impl FormatDescriptor {
    /// Holds of every descriptor that exists at run time.
    #[verifier::type_invariant]
    pub open spec fn well_formed(self) -> bool {
        self@.consistent()
    }

    /// Checks the caps and makes the descriptor of them. `None` where a
    /// number is negative, where the stride is too short for a row of that
    /// layout, or where a frame would not fit in memory.
    pub fn from_caps(caps: &FixedCaps) -> (made: Option<FormatDescriptor>)
        ensures
            made is Some <==> caps.parses(),
            made matches Some(d) ==> d@ == caps.described(),
    {
        if caps.width < 0 || caps.height < 0 || caps.stride < 0 {
            return None;
        }
        let width: u64 = caps.width as u64;
        let height: u64 = caps.height as u64;
        let stride: u64 = caps.stride as u64;
        let row_bytes: u64 = match caps.layout.pixel_bytes() {
            Some(bytes) => {
                assert(width * bytes <= 3 * 0x7fff_ffff) by (nonlinear_arith)
                    requires
                        0 <= width <= 0x7fff_ffff,
                        0 <= bytes <= 3,
                ;
                width * (bytes as u64)
            },
            None => 0,
        };
        if row_bytes > stride {
            return None;
        }
        assert(stride * height <= 0x4000_0000_0000_0000) by (nonlinear_arith)
            requires
                0 <= stride <= 0x7fff_ffff,
                0 <= height <= 0x7fff_ffff,
        ;
        if stride * height > usize::MAX as u64 {
            return None;
        }
        Some(
            FormatDescriptor {
                layout: caps.layout,
                width: caps.width as usize,
                height: caps.height as usize,
                stride: caps.stride as usize,
                frame_rate: caps.frame_rate,
            },
        )
    }

    /// How the samples of a pixel are stored.
    pub fn layout(&self) -> (layout: Layout)
        ensures
            layout == self@.layout,
    {
        self.layout
    }

    /// Pixels in a row.
    pub fn width(&self) -> (width: usize)
        ensures
            width == self@.width,
    {
        self.width
    }

    /// Rows in a frame.
    pub fn height(&self) -> (height: usize)
        ensures
            height == self@.height,
    {
        self.height
    }

    /// Bytes from the start of one row to the start of the next.
    pub fn stride(&self) -> (stride: usize)
        ensures
            stride == self@.stride,
            self@.row_bytes() <= stride,
    {
        proof {
            use_type_invariant(self);
        }
        self.stride
    }

    /// The frame rates of the stream. They are carried along and not looked
    /// at.
    pub fn frame_rate(&self) -> (rates: FractionRange)
        ensures
            rates == self@.frame_rate,
    {
        self.frame_rate
    }

    /// Bytes of a row that hold pixels; the rest of the stride is padding.
    pub fn row_bytes(&self) -> (bytes: usize)
        ensures
            bytes == self@.row_bytes(),
            bytes <= self@.stride,
    {
        proof {
            use_type_invariant(self);
        }
        match self.layout.pixel_bytes() {
            Some(bytes) => self.width * bytes,
            None => 0,
        }
    }

    /// Bytes of one frame: the stride times the number of rows. The stride
    /// is at least three bytes per pixel of a row for three channels, and at
    /// least one for a single channel.
    pub fn unit_size(&self) -> (size: usize)
        ensures
            size == self@.stride * self@.height,
            self@.layout == Layout::ThreeChannelInterleaved ==> self@.stride >= 3 * self@.width,
            self@.layout == Layout::SingleChannelLuma ==> self@.stride >= self@.width,
    {
        proof {
            use_type_invariant(self);
        }
        self.stride * self.height
    }
}

/// Bytes of one frame of the given caps, or `None` where no descriptor can
/// be made of them. Where there is a size, it is the stride times the number
/// of rows, and the stride is at least three bytes per pixel of a row for
/// three channels, and at least one for a single channel.
pub fn unit_size(caps: &FixedCaps) -> (size: Option<usize>)
    ensures
        size == caps.spec_unit_size(),
        size is Some <==> caps.parses(),
        size matches Some(bytes) ==> bytes == caps.stride * caps.height,
        size is Some && caps.layout == Layout::ThreeChannelInterleaved ==> caps.stride >= 3
            * caps.width,
        size is Some && caps.layout == Layout::SingleChannelLuma ==> caps.stride >= caps.width,
{
    match FormatDescriptor::from_caps(caps) {
        Some(descriptor) => Some(descriptor.unit_size()),
        None => None,
    }
}

} // verus!
