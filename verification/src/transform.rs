//! Processing one frame: the marker outlined on a copy of the picture, or
//! the picture reduced to brightness.

use crate::descriptor::DescriptorView;
use crate::format::Layout;
use crate::frame::{lemma_index_has_row, lemma_offset_round_trip, FrameView};
use crate::lifecycle::{after_stop, unconfigured, StreamLifecycle, StreamState, StreamStateView};
use crate::marker::{highlight, highlight_sample, Detection, Rect};
use crate::settings::Settings;
use vstd::prelude::*;
use vstd::slice::slice_to_vec;

verus! {

/// Why a frame was not processed.
#[derive(Clone, Copy, Debug, PartialEq, Eq, Structural)]
pub enum ProcessError {
    /// No stream is configured.
    NotConfigured,
    /// A buffer does not have the size of one frame of its format.
    BufferMapFailure,
    /// The stream is of a kind that this stage does not process: the output
    /// has a layout that it does not write, or a width or height other than
    /// the input's.
    UnsupportedFormat,
}

/// What is done to a frame.
#[derive(Clone, Copy, Debug, PartialEq, Eq, Structural)]
pub enum Transform {
    /// The picture is handed on in three channels, with the marker outlined
    /// where one was found.
    OutlineMarker,
    /// The picture is handed on as one brightness sample per pixel.
    ReduceToLuma,
}

/// Weight of the first channel in the brightness of a pixel, in 65536ths.
pub const RED_WEIGHT: u32 = 19595;

/// Weight of the second channel in the brightness of a pixel, in 65536ths.
pub const GREEN_WEIGHT: u32 = 38470;

/// Weight of the third channel in the brightness of a pixel, in 65536ths.
pub const BLUE_WEIGHT: u32 = 7471;

/// The brightness of a pixel: the weighted mean of its three samples, rounded
/// down. The weights add up to 65536, so equal samples keep their value.
pub open spec fn spec_luminance(red: u8, green: u8, blue: u8) -> u8 {
    ((RED_WEIGHT * red + GREEN_WEIGHT * green + BLUE_WEIGHT * blue) / 65536) as u8
}

/// The brightness of a pixel.
#[verifier::when_used_as_spec(spec_luminance)]
pub fn luminance(red: u8, green: u8, blue: u8) -> (value: u8)
    ensures
        value == spec_luminance(red, green, blue),
{
    let red: u32 = RED_WEIGHT * (red as u32);
    let green: u32 = GREEN_WEIGHT * (green as u32);
    let blue: u32 = BLUE_WEIGHT * (blue as u32);
    ((red + green + blue) / 65536) as u8
}

/// What is done to a frame of `input_len` bytes that is to be written to a
/// buffer of `output_len` bytes, or why nothing is done. The checks come in
/// this order: a stream is configured; the input buffer has the size of an
/// input frame; the output buffer has the size of an output frame; frames
/// go out with the width and height they came in with, in a layout that the
/// stage writes.
pub open spec fn spec_select(
    state: Option<StreamStateView>,
    input_len: nat,
    output_len: nat,
) -> Result<Transform, ProcessError> {
    match state {
        None => Err(ProcessError::NotConfigured),
        Some(stream) => {
            if input_len != stream.input.unit_size() {
                Err(ProcessError::BufferMapFailure)
            } else if output_len != stream.output.unit_size() {
                Err(ProcessError::BufferMapFailure)
            } else if !stream.keeps_size() {
                Err(ProcessError::UnsupportedFormat)
            } else {
                match stream.output.layout {
                    Layout::ThreeChannelInterleaved => Ok(Transform::OutlineMarker),
                    Layout::SingleChannelLuma => Ok(Transform::ReduceToLuma),
                    Layout::Other => Err(ProcessError::UnsupportedFormat),
                }
            }
        },
    }
}

/// Whether a frame in buffers of these sizes is processed, or why not.
pub open spec fn outcome(
    state: Option<StreamStateView>,
    input_len: nat,
    output_len: nat,
) -> Result<(), ProcessError> {
    match spec_select(state, input_len, output_len) {
        Ok(_) => Ok(()),
        Err(error) => Err(error),
    }
}

/// The byte at `index` of a three-channel frame after the outline of `rect`
/// was drawn on it: the highlight colour in the pixels of the outline that
/// the picture has, the frame's own byte everywhere else.
pub open spec fn outlined_byte(
    frame: Seq<u8>,
    geometry: DescriptorView,
    rect: Rect,
    index: int,
) -> u8 {
    let byte = geometry.byte_of(index);
    if geometry.holds_pixel(index) && rect.on_outline(byte / 3, geometry.row_of(index)) {
        highlight_sample(byte % 3)
    } else {
        frame[index]
    }
}

/// A three-channel frame after the outline of `rect` was drawn on it.
pub open spec fn outlined(frame: Seq<u8>, geometry: DescriptorView, rect: Rect) -> Seq<u8> {
    Seq::new(frame.len(), |index: int| outlined_byte(frame, geometry, rect, index))
}

/// The picture that is handed on: the input with the outline drawn on it
/// where there is one, the input itself where there is none.
pub open spec fn annotated(
    input: Seq<u8>,
    geometry: DescriptorView,
    outline: Option<Rect>,
) -> Seq<u8> {
    match outline {
        Some(rect) => outlined(input, geometry, rect),
        None => input,
    }
}

/// The byte at `index` of the target buffer after the rows of `source` were
/// copied to it: where the byte holds part of a pixel, the byte at the same
/// place of the same row of the source; in the padding, what was there
/// before.
pub open spec fn copied_byte(
    source: Seq<u8>,
    from: DescriptorView,
    before: Seq<u8>,
    to: DescriptorView,
    index: int,
) -> u8 {
    if to.holds_pixel(index) {
        source[from.offset(to.row_of(index), to.byte_of(index))]
    } else {
        before[index]
    }
}

/// The target buffer after the rows of `source` were copied to it, each
/// side by its own stride.
pub open spec fn copied(
    source: Seq<u8>,
    from: DescriptorView,
    before: Seq<u8>,
    to: DescriptorView,
) -> Seq<u8> {
    Seq::new(before.len(), |index: int| copied_byte(source, from, before, to, index))
}

/// The byte at `index` of the target buffer after the three-channel picture
/// in `source` was reduced to brightness: where the byte is a pixel, the
/// brightness of the source's pixel in the same column of the same row,
/// changed as the settings say; in the padding, what was there before.
pub open spec fn reduced_byte(
    source: Seq<u8>,
    from: DescriptorView,
    before: Seq<u8>,
    to: DescriptorView,
    settings: Settings,
    index: int,
) -> u8 {
    if to.holds_pixel(index) {
        let first = from.offset(to.row_of(index), 3 * to.byte_of(index));
        settings.spec_apply(spec_luminance(source[first], source[first + 1], source[first + 2]))
    } else {
        before[index]
    }
}

/// The target buffer after the three-channel picture in `source` was reduced
/// to brightness.
pub open spec fn reduced(
    source: Seq<u8>,
    from: DescriptorView,
    before: Seq<u8>,
    to: DescriptorView,
    settings: Settings,
) -> Seq<u8> {
    Seq::new(before.len(), |index: int| reduced_byte(source, from, before, to, settings, index))
}

/// What the output buffer holds after a frame went through [`process`]:
/// the annotated picture or its brightness where the frame was processed,
/// and what the buffer held before where it was not.
pub open spec fn written(
    state: Option<StreamStateView>,
    settings: Settings,
    input: Seq<u8>,
    before: Seq<u8>,
    outline: Option<Rect>,
) -> Seq<u8> {
    match (state, spec_select(state, input.len(), before.len())) {
        (Some(stream), Ok(Transform::OutlineMarker)) => copied(
            annotated(input, stream.input, outline),
            stream.input,
            before,
            stream.output,
        ),
        (Some(stream), Ok(Transform::ReduceToLuma)) => reduced(
            input,
            stream.input,
            before,
            stream.output,
            settings,
        ),
        _ => before,
    }
}

/// Says what [`process`] will do with a frame in buffers of these sizes,
/// before any byte is read. Only a frame that gets
/// [`Transform::OutlineMarker`] needs the detector to be run on it.
pub fn select(
    lifecycle: &StreamLifecycle,
    input_len: usize,
    output_len: usize,
) -> (choice: Result<Transform, ProcessError>)
    ensures
        choice == spec_select(lifecycle@, input_len as nat, output_len as nat),
{
    match plan(lifecycle, input_len, output_len) {
        Ok((transform, _, _)) => Ok(transform),
        Err(error) => Err(error),
    }
}

/// Chooses what is done to a frame, and lays the two frames of the stream
/// over buffers of the given sizes: the input first, then the output.
fn plan(
    lifecycle: &StreamLifecycle,
    input_len: usize,
    output_len: usize,
) -> (planned: Result<(Transform, FrameView, FrameView), ProcessError>)
    ensures
        planned matches Ok((transform, _, _)) ==> spec_select(
            lifecycle@,
            input_len as nat,
            output_len as nat,
        ) == Ok::<Transform, ProcessError>(transform),
        planned matches Err(error) ==> spec_select(
            lifecycle@,
            input_len as nat,
            output_len as nat,
        ) == Err::<Transform, ProcessError>(error),
        planned matches Ok((_, from, to)) ==> lifecycle@ matches Some(stream) && stream.coherent()
            && stream.keeps_size() && from@ == stream.input && to@ == stream.output,
{
    let state: StreamState = match lifecycle.state() {
        Some(state) => state,
        None => {
            return Err(ProcessError::NotConfigured);
        },
    };
    proof {
        use_type_invariant(&state);
    }
    let from: FrameView = match FrameView::over(input_len, &state.input()) {
        Some(view) => view,
        None => {
            return Err(ProcessError::BufferMapFailure);
        },
    };
    let to: FrameView = match FrameView::over(output_len, &state.output()) {
        Some(view) => view,
        None => {
            return Err(ProcessError::BufferMapFailure);
        },
    };
    let input = state.input();
    let output = state.output();
    if input.width() != output.width() || input.height() != output.height() {
        return Err(ProcessError::UnsupportedFormat);
    }
    match output.layout() {
        Layout::ThreeChannelInterleaved => Ok((Transform::OutlineMarker, from, to)),
        Layout::SingleChannelLuma => Ok((Transform::ReduceToLuma, from, to)),
        Layout::Other => Err(ProcessError::UnsupportedFormat),
    }
}

/// Processes one frame of the configured stream: reads the picture in
/// `input` and writes `output`.
///
/// Where the output has three channels, the picture is copied row by row,
/// with the outline of the detected marker drawn on it. The outline is drawn
/// on a copy: `input` is not changed. Where the output has one channel, the
/// brightness of each pixel is written, changed as `settings` say, and
/// `detection` is not looked at. Padding at the end of the rows of `output`
/// is left as it was.
///
/// Fails, and leaves `output` as it was, where no stream is configured,
/// where a buffer does not have the size of a frame, where the two sides of
/// the stream differ in width or height, and where the output layout is not
/// one of the two.
pub fn process(
    lifecycle: &StreamLifecycle,
    settings: &Settings,
    input: &[u8],
    output: &mut [u8],
    detection: &Detection,
) -> (result: Result<(), ProcessError>)
    ensures
        result == outcome(lifecycle@, input@.len(), old(output)@.len()),
        final(output)@ == written(
            lifecycle@,
            *settings,
            input@,
            old(output)@,
            detection.spec_outline(),
        ),
{
    match plan(lifecycle, input.len(), output.len()) {
        Ok((Transform::OutlineMarker, from, to)) => {
            match detection.outline() {
                Some(rect) => {
                    let mut working: Vec<u8> = slice_to_vec(input);
                    draw_outline(working.as_mut_slice(), &from, &rect);
                    copy_rows(working.as_slice(), &from, output, &to);
                },
                None => {
                    copy_rows(input, &from, output, &to);
                },
            }
            Ok(())
        },
        Ok((Transform::ReduceToLuma, from, to)) => {
            reduce_rows(input, &from, output, &to, settings);
            Ok(())
        },
        Err(error) => Err(error),
    }
}

/// Draws the outline of `rect` on a three-channel frame, in the highlight
/// colour. Pixels of the outline that lie outside the picture are left out.
fn draw_outline(frame: &mut [u8], view: &FrameView, rect: &Rect)
    requires
        old(frame)@.len() == view@.unit_size(),
        view@.layout == Layout::ThreeChannelInterleaved,
    ensures
        final(frame)@ == outlined(old(frame)@, view@, *rect),
{
    let descriptor = view.descriptor();
    let height: usize = descriptor.height();
    let width: usize = descriptor.width();
    let ghost before = frame@;
    let ghost geometry = view@;
    proof {
        use_type_invariant(view);
    }
    let mut row: usize = 0;
    while row < height
        invariant
            geometry == view@,
            geometry.consistent(),
            geometry.layout == Layout::ThreeChannelInterleaved,
            height == geometry.height,
            width == geometry.width,
            frame@.len() == before.len(),
            before.len() == geometry.unit_size(),
            row <= height,
            forall|i: int|
                0 <= i < before.len() ==> frame@[i] == (if i < geometry.offset(row as int, 0) {
                    outlined_byte(before, geometry, *rect, i)
                } else {
                    before[i]
                }),
        decreases height - row,
    {
        proof {
            lemma_row_fits(geometry, row as int);
        }
        let mut x: usize = 0;
        while x < width
            invariant
                geometry == view@,
                geometry.consistent(),
                geometry.layout == Layout::ThreeChannelInterleaved,
                height == geometry.height,
                width == geometry.width,
                frame@.len() == before.len(),
                before.len() == geometry.unit_size(),
                row < height,
                x <= width,
                geometry.offset(row as int, 0) + geometry.stride <= before.len(),
                forall|i: int|
                    0 <= i < before.len() ==> frame@[i] == (if i < geometry.offset(
                        row as int,
                        3 * x,
                    ) {
                        outlined_byte(before, geometry, *rect, i)
                    } else {
                        before[i]
                    }),
            decreases width - x,
        {
            proof {
                lemma_offset_round_trip(geometry, row as int, 3 * x);
                lemma_offset_round_trip(geometry, row as int, 3 * x + 1);
                lemma_offset_round_trip(geometry, row as int, 3 * x + 2);
            }
            if rect.outlines(x, row) {
                let first: usize = view.at(row, 3 * x);
                frame[first] = highlight(0);
                frame[first + 1] = highlight(1);
                frame[first + 2] = highlight(2);
            }
            x += 1;
        }
        proof {
            assert forall|i: int| 0 <= i < before.len() implies frame@[i] == (if i
                < geometry.offset(row + 1, 0) {
                outlined_byte(before, geometry, *rect, i)
            } else {
                before[i]
            }) by {
                lemma_next_row(geometry, row as int);
                let start = geometry.offset(row as int, 0);
                if start + 3 * width <= i < start + geometry.stride {
                    lemma_offset_round_trip(geometry, row as int, i - start);
                }
            }
        }
        row += 1;
    }
    proof {
        lemma_row_fits(geometry, height as int);
    }
}

/// Copies the pixels of every row of `source` to the same row of `target`.
/// The two may differ in stride; padding is neither read nor written.
fn copy_rows(source: &[u8], from: &FrameView, target: &mut [u8], to: &FrameView)
    requires
        source@.len() == from@.unit_size(),
        old(target)@.len() == to@.unit_size(),
        from@.height == to@.height,
        from@.row_bytes() == to@.row_bytes(),
    ensures
        final(target)@ == copied(source@, from@, old(target)@, to@),
{
    let height: usize = to.descriptor().height();
    let row_bytes: usize = to.descriptor().row_bytes();
    let ghost before = target@;
    proof {
        use_type_invariant(from);
        use_type_invariant(to);
    }
    let mut row: usize = 0;
    while row < height
        invariant
            from@.consistent(),
            to@.consistent(),
            height == to@.height,
            height == from@.height,
            row_bytes == to@.row_bytes(),
            row_bytes == from@.row_bytes(),
            source@.len() == from@.unit_size(),
            target@.len() == before.len(),
            before.len() == to@.unit_size(),
            row <= height,
            forall|i: int|
                0 <= i < before.len() ==> target@[i] == (if i < to@.offset(row as int, 0) {
                    copied_byte(source@, from@, before, to@, i)
                } else {
                    before[i]
                }),
        decreases height - row,
    {
        proof {
            lemma_row_fits(to@, row as int);
        }
        let mut byte: usize = 0;
        while byte < row_bytes
            invariant
                from@.consistent(),
                to@.consistent(),
                height == to@.height,
                height == from@.height,
                row_bytes == to@.row_bytes(),
                row_bytes == from@.row_bytes(),
                source@.len() == from@.unit_size(),
                target@.len() == before.len(),
                before.len() == to@.unit_size(),
                row < height,
                byte <= row_bytes,
                to@.offset(row as int, 0) + to@.stride <= before.len(),
                forall|i: int|
                    0 <= i < before.len() ==> target@[i] == (if i < to@.offset(
                        row as int,
                        byte as int,
                    ) {
                        copied_byte(source@, from@, before, to@, i)
                    } else {
                        before[i]
                    }),
            decreases row_bytes - byte,
        {
            let read: usize = from.at(row, byte);
            let write: usize = to.at(row, byte);
            target[write] = source[read];
            byte += 1;
        }
        proof {
            assert forall|i: int| 0 <= i < before.len() implies target@[i] == (if i < to@.offset(
                row + 1,
                0,
            ) {
                copied_byte(source@, from@, before, to@, i)
            } else {
                before[i]
            }) by {
                lemma_next_row(to@, row as int);
                let start = to@.offset(row as int, 0);
                if start + row_bytes <= i < start + to@.stride {
                    lemma_offset_round_trip(to@, row as int, i - start);
                }
            }
        }
        row += 1;
    }
    proof {
        lemma_row_fits(to@, height as int);
    }
}

/// Writes the brightness of every pixel of the three-channel picture in
/// `source` to the same place of the one-channel picture in `target`.
fn reduce_rows(
    source: &[u8],
    from: &FrameView,
    target: &mut [u8],
    to: &FrameView,
    settings: &Settings,
)
    requires
        source@.len() == from@.unit_size(),
        old(target)@.len() == to@.unit_size(),
        from@.layout == Layout::ThreeChannelInterleaved,
        to@.layout == Layout::SingleChannelLuma,
        from@.height == to@.height,
        from@.width == to@.width,
    ensures
        final(target)@ == reduced(source@, from@, old(target)@, to@, *settings),
{
    let height: usize = to.descriptor().height();
    let width: usize = to.descriptor().width();
    let ghost before = target@;
    proof {
        use_type_invariant(from);
        use_type_invariant(to);
    }
    let mut row: usize = 0;
    while row < height
        invariant
            from@.consistent(),
            to@.consistent(),
            from@.layout == Layout::ThreeChannelInterleaved,
            to@.layout == Layout::SingleChannelLuma,
            height == to@.height,
            height == from@.height,
            width == to@.width,
            width == from@.width,
            source@.len() == from@.unit_size(),
            target@.len() == before.len(),
            before.len() == to@.unit_size(),
            row <= height,
            forall|i: int|
                0 <= i < before.len() ==> target@[i] == (if i < to@.offset(row as int, 0) {
                    reduced_byte(source@, from@, before, to@, *settings, i)
                } else {
                    before[i]
                }),
        decreases height - row,
    {
        proof {
            lemma_row_fits(to@, row as int);
        }
        let mut x: usize = 0;
        while x < width
            invariant
                from@.consistent(),
                to@.consistent(),
                from@.layout == Layout::ThreeChannelInterleaved,
                to@.layout == Layout::SingleChannelLuma,
                height == to@.height,
                height == from@.height,
                width == to@.width,
                width == from@.width,
                source@.len() == from@.unit_size(),
                target@.len() == before.len(),
                before.len() == to@.unit_size(),
                row < height,
                x <= width,
                to@.offset(row as int, 0) + to@.stride <= before.len(),
                forall|i: int|
                    0 <= i < before.len() ==> target@[i] == (if i < to@.offset(
                        row as int,
                        x as int,
                    ) {
                        reduced_byte(source@, from@, before, to@, *settings, i)
                    } else {
                        before[i]
                    }),
            decreases width - x,
        {
            proof {
                lemma_offset_round_trip(from@, row as int, 3 * x + 1);
                lemma_offset_round_trip(from@, row as int, 3 * x + 2);
            }
            let first: usize = from.at(row, 3 * x);
            let value: u8 = luminance(source[first], source[first + 1], source[first + 2]);
            let write: usize = to.at(row, x);
            target[write] = settings.apply(value);
            x += 1;
        }
        proof {
            assert forall|i: int| 0 <= i < before.len() implies target@[i] == (if i < to@.offset(
                row + 1,
                0,
            ) {
                reduced_byte(source@, from@, before, to@, *settings, i)
            } else {
                before[i]
            }) by {
                lemma_next_row(to@, row as int);
                let start = to@.offset(row as int, 0);
                if start + width <= i < start + to@.stride {
                    lemma_offset_round_trip(to@, row as int, i - start);
                }
            }
        }
        row += 1;
    }
    proof {
        lemma_row_fits(to@, height as int);
    }
}

/// A row of the frame ends where the buffer ends, or before; the row past
/// the last starts where the buffer ends.
proof fn lemma_row_fits(geometry: DescriptorView, row: int)
    requires
        0 <= geometry.stride,
        0 <= row <= geometry.height,
    ensures
        0 <= geometry.offset(row, 0) <= geometry.unit_size(),
        row < geometry.height ==> geometry.offset(row, 0) + geometry.stride
            <= geometry.unit_size(),
        row == geometry.height ==> geometry.offset(row, 0) == geometry.unit_size(),
{
    let stride = geometry.stride;
    let height = geometry.height;
    assert(0 <= row * stride <= height * stride) by (nonlinear_arith)
        requires
            0 <= row <= height,
            0 <= stride,
    ;
    assert(row < height ==> row * stride + stride <= height * stride) by (nonlinear_arith)
        requires
            0 <= row <= height,
            0 <= stride,
    ;
    assert(stride * height == height * stride) by (nonlinear_arith);
}

/// The next row starts one stride after this one.
proof fn lemma_next_row(geometry: DescriptorView, row: int)
    ensures
        geometry.offset(row + 1, 0) == geometry.offset(row, 0) + geometry.stride,
{
    let stride = geometry.stride;
    assert((row + 1) * stride == row * stride + stride) by (nonlinear_arith);
}

/// No frame is processed before a stream is configured, nor after it was
/// stopped: whatever the buffers, the answer is
/// [`ProcessError::NotConfigured`]. That answer is given in no other state.
pub proof fn law_unconfigured_rejects_frames(
    prior: Option<StreamStateView>,
    input_len: nat,
    output_len: nat,
)
    ensures
        spec_select(unconfigured(), input_len, output_len) == Err::<Transform, ProcessError>(
            ProcessError::NotConfigured,
        ),
        spec_select(after_stop(prior), input_len, output_len) == Err::<Transform, ProcessError>(
            ProcessError::NotConfigured,
        ),
        spec_select(prior, input_len, output_len) == Err::<Transform, ProcessError>(
            ProcessError::NotConfigured,
        ) <==> prior is None,
{
}

/// A pixel of three equal samples has the brightness of its samples: white
/// is as bright as a sample can be, black as dark.
pub proof fn law_equal_samples_keep_their_value(value: u8)
    ensures
        spec_luminance(value, value, value) == value,
        spec_luminance(255, 255, 255) == 255,
        spec_luminance(0, 0, 0) == 0,
{
}

/// What a frame that is handed on in three channels holds, pixel by pixel:
/// in channel `channel` of the pixel in column `x` of row `row` the highlight
/// colour where the pixel lies on the outline of the marker, and the sample
/// of the input everywhere else. Where a row has padding behind its pixels,
/// the buffer holds there what it held before.
pub proof fn law_outlined_frame_by_pixel(
    stream: StreamStateView,
    settings: Settings,
    input: Seq<u8>,
    before: Seq<u8>,
    outline: Option<Rect>,
    row: int,
    x: int,
    channel: int,
    padding: int,
)
    requires
        stream.coherent(),
        spec_select(Some(stream), input.len(), before.len()) == Ok::<Transform, ProcessError>(
            Transform::OutlineMarker,
        ),
        0 <= row < stream.output.height,
        0 <= x < stream.output.width,
        0 <= channel < 3,
    ensures
        ({
            let after = written(Some(stream), settings, input, before, outline);
            let read = stream.input.offset(row, 3 * x + channel);
            let write = stream.output.offset(row, 3 * x + channel);
            let behind = stream.output.offset(row, padding);
            &&& after.len() == before.len()
            &&& 0 <= read < input.len()
            &&& 0 <= write < after.len()
            &&& after[write] == (if outline matches Some(rect) && rect.on_outline(x, row) {
                highlight_sample(channel)
            } else {
                input[read]
            })
            &&& 3 * stream.output.width <= padding < stream.output.stride ==> 0 <= behind
                < after.len() && after[behind] == before[behind]
        }),
{
    lemma_offset_round_trip(stream.output, row, 3 * x + channel);
    lemma_offset_round_trip(stream.input, row, 3 * x + channel);
    if 3 * stream.output.width <= padding < stream.output.stride {
        lemma_offset_round_trip(stream.output, row, padding);
    }
}

/// What a frame that is handed on as brightness holds, pixel by pixel: for
/// the pixel in column `x` of row `row` the brightness of the input's three
/// samples there, changed as the settings say. Where a row has padding
/// behind its pixels, the buffer holds there what it held before.
pub proof fn law_luma_frame_by_pixel(
    stream: StreamStateView,
    settings: Settings,
    input: Seq<u8>,
    before: Seq<u8>,
    outline: Option<Rect>,
    row: int,
    x: int,
    padding: int,
)
    requires
        stream.coherent(),
        spec_select(Some(stream), input.len(), before.len()) == Ok::<Transform, ProcessError>(
            Transform::ReduceToLuma,
        ),
        0 <= row < stream.output.height,
        0 <= x < stream.output.width,
    ensures
        ({
            let after = written(Some(stream), settings, input, before, outline);
            let read = stream.input.offset(row, 3 * x);
            let write = stream.output.offset(row, x);
            let behind = stream.output.offset(row, padding);
            &&& after.len() == before.len()
            &&& 0 <= read && read + 2 < input.len()
            &&& 0 <= write < after.len()
            &&& after[write] == settings.spec_apply(
                spec_luminance(input[read], input[read + 1], input[read + 2]),
            )
            &&& stream.output.width <= padding < stream.output.stride ==> 0 <= behind
                < after.len() && after[behind] == before[behind]
        }),
{
    lemma_offset_round_trip(stream.output, row, x);
    lemma_offset_round_trip(stream.input, row, 3 * x + 2);
    if stream.output.width <= padding < stream.output.stride {
        lemma_offset_round_trip(stream.output, row, padding);
    }
}

/// A frame without a marker in it, and without padding on either side, is
/// handed on as it is.
pub proof fn law_unmarked_frame_is_copied(
    stream: StreamStateView,
    settings: Settings,
    input: Seq<u8>,
    before: Seq<u8>,
)
    requires
        stream.coherent(),
        spec_select(Some(stream), input.len(), before.len()) == Ok::<Transform, ProcessError>(
            Transform::OutlineMarker,
        ),
        stream.input.stride == 3 * stream.input.width,
        stream.output.stride == 3 * stream.output.width,
    ensures
        written(Some(stream), settings, input, before, None) == input,
{
    let after = written(Some(stream), settings, input, before, None);
    assert forall|i: int| 0 <= i < input.len() implies after[i] == input[i] by {
        lemma_index_has_row(stream.output, i);
    }
}

} // verus!
