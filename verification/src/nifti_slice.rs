//! Planes cut out of a volume: extraction along an anatomical axis,
//! display rotation, and the flat little-endian buffer in which a plane
//! crosses to a renderer.

use crate::nifti::{AnatomicalAxis, Rotation, VoxelDimensions};
use crate::nifti_reader::{decoded_voxel, unit_index, NativeSlice};
use crate::volume::Volume;
use vstd::arithmetic::div_mod::{lemma_fundamental_div_mod, lemma_fundamental_div_mod_converse};
use vstd::prelude::*;

verus! {

/// A plane of intensities, stored row by row from the top: pixel
/// `(x, y)` stands at `y * width + x`.
#[derive(Clone, Debug, PartialEq, Eq)]
pub struct Nifti2DSlice {
    pub width: u16,
    pub height: u16,
    pub data: Vec<u32>,
}

/// Why a plane could not be cut.
#[derive(Clone, Copy, Debug, PartialEq, Eq, Structural)]
pub enum SliceError {
    /// The coordinate or the timepoint lies outside the volume.
    OutOfRangeCoordinate,
    /// No volume has been loaded.
    NoVolumeLoaded,
}

/// Why a buffer is not a plane.
#[derive(Clone, Copy, Debug, PartialEq, Eq, Structural)]
pub enum BufferError {
    /// The number of bytes is not a multiple of four.
    Misaligned,
    /// The number of intensities is not `width * height`.
    InvalidShape,
}

/// The timepoint that a request means: the first where it names none.
pub open spec fn chosen_timepoint(timepoint: Option<u16>) -> int {
    match timepoint {
        Some(t) => t as int,
        None => 0,
    }
}

/// The request names a plane and a timepoint of a volume of these
/// dimensions.
pub open spec fn in_range(
    dims: VoxelDimensions,
    axis: AnatomicalAxis,
    coordinate: u16,
    timepoint: Option<u16>,
) -> bool {
    &&& coordinate < axis.depth(dims)
    &&& chosen_timepoint(timepoint) < dims.timepoints
}

/// The voxel shown at pixel `(x, y)` of the plane at `coordinate` along
/// `axis`, at timepoint `t`.
pub open spec fn plane_voxel(
    volume: Volume,
    axis: AnatomicalAxis,
    coordinate: int,
    t: int,
    x: int,
    y: int,
) -> u32 {
    volume.at(
        axis.plane().index_along(0, coordinate, x, y),
        axis.plane().index_along(1, coordinate, x, y),
        axis.plane().index_along(2, coordinate, x, y),
        t,
    )
}

/// The pixel of the unrotated plane, `width` by `height`, that a
/// clockwise rotation shows at `(x, y)`.
pub open spec fn rotation_source(rotation: Rotation, width: int, height: int, x: int, y: int) -> (
    int,
    int,
) {
    match rotation {
        Rotation::Rotate0 => (x, y),
        Rotation::Rotate90 => (y, height - 1 - x),
        Rotation::Rotate180 => (width - 1 - x, height - 1 - y),
        Rotation::Rotate270 => (width - 1 - y, x),
    }
}

/// The plane at `coordinate` along `axis`, at timepoint `t`, row by row.
pub open spec fn plane_pixels(volume: Volume, axis: AnatomicalAxis, coordinate: int, t: int) -> Seq<
    u32,
> {
    let width = axis.width(volume.dims());
    let height = axis.height(volume.dims());
    Seq::new(
        (width * height) as nat,
        |n: int| plane_voxel(volume, axis, coordinate, t, n % width, n / width),
    )
}

/// The width of a plane, `width` by `height`, after a rotation.
pub open spec fn turned_width(rotation: Rotation, width: int, height: int) -> int {
    if rotation.quarter_turns() % 2 == 1 {
        height
    } else {
        width
    }
}

/// The height of a plane, `width` by `height`, after a rotation.
pub open spec fn turned_height(rotation: Rotation, width: int, height: int) -> int {
    if rotation.quarter_turns() % 2 == 1 {
        width
    } else {
        height
    }
}

/// The pixels of a plane, `width` by `height`, after a clockwise
/// rotation, row by row.
pub open spec fn turned_pixels(pixels: Seq<u32>, width: int, height: int, rotation: Rotation) -> Seq<
    u32,
> {
    let across = turned_width(rotation, width, height);
    Seq::new(
        pixels.len(),
        |n: int|
            pixels[rotation_source(rotation, width, height, n % across, n / across).1 * width
                + rotation_source(rotation, width, height, n % across, n / across).0],
    )
}

/// Byte `n` of the little-endian form of `word`.
pub open spec fn le_byte(word: u32, n: int) -> u8 {
    if n == 0 {
        (word & 0xFF) as u8
    } else if n == 1 {
        ((word >> 8) & 0xFF) as u8
    } else if n == 2 {
        ((word >> 16) & 0xFF) as u8
    } else {
        ((word >> 24) & 0xFF) as u8
    }
}

/// The word whose little-endian form is `b0, b1, b2, b3`.
pub open spec fn le_word(b0: u8, b1: u8, b2: u8, b3: u8) -> u32 {
    (b0 as u32) | ((b1 as u32) << 8) | ((b2 as u32) << 16) | ((b3 as u32) << 24)
}

/// The flat buffer of `words`: four little-endian bytes for each, in
/// order.
pub open spec fn encoded(words: Seq<u32>) -> Seq<u8> {
    Seq::new(4 * words.len(), |n: int| le_byte(words[n / 4], n % 4))
}

/// The words that a buffer of whole words holds.
pub open spec fn decoded(bytes: Seq<u8>) -> Seq<u32> {
    Seq::new(
        bytes.len() / 4,
        |m: int| le_word(bytes[4 * m], bytes[4 * m + 1], bytes[4 * m + 2], bytes[4 * m + 3]),
    )
}

/// What a buffer received with a width and a height holds: the
/// intensities of a plane of that shape, or the reason why not.
pub open spec fn parsed(width: u16, height: u16, bytes: Seq<u8>) -> Result<Seq<u32>, BufferError> {
    if bytes.len() % 4 != 0 {
        Err(BufferError::Misaligned)
    } else if bytes.len() / 4 != width * height {
        Err(BufferError::InvalidShape)
    } else {
        Ok(decoded(bytes))
    }
}

/// A word is the word of its little-endian bytes.
pub proof fn lemma_word_round_trip(word: u32)
    ensures
        le_word(le_byte(word, 0), le_byte(word, 1), le_byte(word, 2), le_byte(word, 3)) == word,
{
    assert(((word & 0xFF) as u8 as u32) | ((((word >> 8) & 0xFF) as u8 as u32) << 8) | ((((word
        >> 16) & 0xFF) as u8 as u32) << 16) | ((((word >> 24) & 0xFF) as u8 as u32) << 24) == word)
        by (bit_vector);
}

/// Four bytes are the little-endian bytes of their word.
pub proof fn lemma_bytes_round_trip(b0: u8, b1: u8, b2: u8, b3: u8)
    ensures
        le_byte(le_word(b0, b1, b2, b3), 0) == b0,
        le_byte(le_word(b0, b1, b2, b3), 1) == b1,
        le_byte(le_word(b0, b1, b2, b3), 2) == b2,
        le_byte(le_word(b0, b1, b2, b3), 3) == b3,
{
    let w = le_word(b0, b1, b2, b3);
    assert((w & 0xFF) as u8 == b0 && ((w >> 8) & 0xFF) as u8 == b1 && ((w >> 16) & 0xFF) as u8 == b2
        && ((w >> 24) & 0xFF) as u8 == b3) by (bit_vector)
        requires
            w == (b0 as u32) | ((b1 as u32) << 8) | ((b2 as u32) << 16) | ((b3 as u32) << 24),
    ;
}

/// Decoding the buffer of a sequence of words gives the words back.
pub proof fn lemma_decode_encode(words: Seq<u32>)
    ensures
        decoded(encoded(words)) == words,
{
    let bytes = encoded(words);
    assert forall|m: int| 0 <= m < words.len() implies #[trigger] decoded(bytes)[m] == words[m] by {
        lemma_word_round_trip(words[m]);
    }
    assert(decoded(bytes) =~= words);
}

/// Encoding the words of a buffer of whole words gives the buffer back.
pub proof fn lemma_encode_decode(bytes: Seq<u8>)
    requires
        bytes.len() % 4 == 0,
    ensures
        encoded(decoded(bytes)) == bytes,
{
    let words = decoded(bytes);
    assert forall|n: int| 0 <= n < bytes.len() implies #[trigger] encoded(words)[n] == bytes[n] by {
        let m = n / 4;
        lemma_bytes_round_trip(bytes[4 * m], bytes[4 * m + 1], bytes[4 * m + 2], bytes[4 * m + 3]);
    }
    assert(encoded(words) =~= bytes);
}

/// In a plane stored row by row, pixel `(x, y)` has a place of its own
/// within the plane, and the place gives the pixel back.
pub proof fn lemma_row_major(width: int, height: int, x: int, y: int)
    requires
        0 <= x < width,
        0 <= y < height,
    ensures
        0 <= y * width + x < width * height,
        (y * width + x) % width == x,
        (y * width + x) / width == y,
{
    assert(0 <= y * width + x < width * height) by (nonlinear_arith)
        requires
            0 <= x < width,
            0 <= y < height,
    ;
    lemma_fundamental_div_mod_converse(y * width + x, width, y, x);
}

/// Turning a plane by `first` and the result by `second` shows at each
/// pixel what one turn by both together shows there.
pub proof fn lemma_turns_compose(
    first: Rotation,
    second: Rotation,
    width: int,
    height: int,
    x: int,
    y: int,
)
    requires
        0 <= x < turned_width(first.followed_by(second), width, height),
        0 <= y < turned_height(first.followed_by(second), width, height),
    ensures
        turned_width(second, turned_width(first, width, height), turned_height(first, width, height))
            == turned_width(first.followed_by(second), width, height),
        turned_height(
            second,
            turned_width(first, width, height),
            turned_height(first, width, height),
        ) == turned_height(first.followed_by(second), width, height),
        ({
            let between = rotation_source(
                second,
                turned_width(first, width, height),
                turned_height(first, width, height),
                x,
                y,
            );
            &&& 0 <= between.0 < turned_width(first, width, height)
            &&& 0 <= between.1 < turned_height(first, width, height)
            &&& rotation_source(first, width, height, between.0, between.1) == rotation_source(
                first.followed_by(second),
                width,
                height,
                x,
                y,
            )
        }),
{
}

/// In a volume decoded from a three-dimensional stream, the axial plane
/// at `k` is the `k`-th unit of the stream, intensity for intensity.
pub proof fn lemma_axial_plane_is_unit(volume: Volume, units: Seq<NativeSlice>, k: int)
    requires
        0 <= k < volume.dims().slices,
        k < units.len(),
        0 < volume.dims().timepoints,
        units[k].fits(volume.dims(), 3),
        forall|i: int, j: int, c: int, t: int|
            volume.dims().contains(i, j, c, t) ==> #[trigger] volume.at(i, j, c, t)
                == decoded_voxel(units, volume.dims(), 3, i, j, c, t),
    ensures
        plane_pixels(volume, AnatomicalAxis::Axial, k, 0) == units[k].data@,
{
    let dims = volume.dims();
    let rows = dims.rows as int;
    let columns = dims.columns as int;
    let pixels = plane_pixels(volume, AnatomicalAxis::Axial, k, 0);
    assert forall|n: int| 0 <= n < rows * columns implies #[trigger] pixels[n]
        == units[k].data@[n] by {
        assert(rows != 0) by (nonlinear_arith)
            requires
                0 <= n < rows * columns,
        ;
        lemma_fundamental_div_mod(n, rows);
        let x = n % rows;
        let y = n / rows;
        assert(0 <= y < columns) by (nonlinear_arith)
            requires
                n == rows * y + x,
                0 <= x < rows,
                0 <= n < rows * columns,
        ;
        assert(dims.contains(x, y, k, 0));
        assert(unit_index(dims, x, y, 0) == n) by (nonlinear_arith)
            requires
                n == rows * y + x,
                unit_index(dims, x, y, 0) == x + rows * (y + columns * 0),
        ;
        assert(pixels[n] == volume.at(x, y, k, 0));
    }
    assert(pixels =~= units[k].data@);
}

/// Turning the pixels of a plane by `first` and then by `second` gives
/// the pixels of one turn by both together.
pub proof fn lemma_turned_twice(
    pixels: Seq<u32>,
    width: int,
    height: int,
    first: Rotation,
    second: Rotation,
)
    requires
        0 <= width,
        0 <= height,
        pixels.len() == width * height,
    ensures
        turned_pixels(
            turned_pixels(pixels, width, height, first),
            turned_width(first, width, height),
            turned_height(first, width, height),
            second,
        ) == turned_pixels(pixels, width, height, first.followed_by(second)),
{
    let mid_width = turned_width(first, width, height);
    let mid_height = turned_height(first, width, height);
    let both = first.followed_by(second);
    let end_width = turned_width(both, width, height);
    let end_height = turned_height(both, width, height);
    let once = turned_pixels(pixels, width, height, first);
    let twice = turned_pixels(once, mid_width, mid_height, second);
    let direct = turned_pixels(pixels, width, height, both);
    assert(width * height == height * width) by (nonlinear_arith);
    assert forall|n: int| 0 <= n < pixels.len() implies #[trigger] twice[n] == direct[n] by {
        assert(end_width * end_height == pixels.len());
        assert(end_width != 0) by (nonlinear_arith)
            requires
                0 <= n < end_width * end_height,
        ;
        lemma_fundamental_div_mod(n, end_width);
        let x = n % end_width;
        let y = n / end_width;
        assert(0 <= y < end_height) by (nonlinear_arith)
            requires
                n == end_width * y + x,
                0 <= x < end_width,
                0 <= n < end_width * end_height,
        ;
        lemma_turns_compose(first, second, width, height, x, y);
        let between = rotation_source(second, mid_width, mid_height, x, y);
        lemma_row_major(mid_width, mid_height, between.0, between.1);
        assert(mid_width * mid_height == pixels.len());
    }
    assert(twice =~= direct);
}

/// A rotation by no turn leaves the pixels of a plane as they are.
pub proof fn lemma_no_turn(pixels: Seq<u32>, width: int, height: int)
    requires
        0 <= width,
        0 <= height,
        pixels.len() == width * height,
    ensures
        turned_pixels(pixels, width, height, Rotation::Rotate0) == pixels,
        turned_width(Rotation::Rotate0, width, height) == width,
        turned_height(Rotation::Rotate0, width, height) == height,
{
    let turned = turned_pixels(pixels, width, height, Rotation::Rotate0);
    assert forall|n: int| 0 <= n < pixels.len() implies #[trigger] turned[n] == pixels[n] by {
        assert(width != 0) by (nonlinear_arith)
            requires
                0 <= n < width * height,
        ;
        lemma_fundamental_div_mod(n, width);
        assert((n / width) * width == width * (n / width)) by (nonlinear_arith);
    }
    assert(turned =~= pixels);
}

impl Nifti2DSlice {
    /// The plane holds `width * height` intensities.
    pub open spec fn wf(&self) -> bool {
        self.data@.len() == self.width * self.height
    }

    /// The intensity at pixel `(x, y)`.
    pub open spec fn pixel(&self, x: int, y: int) -> u32 {
        self.data@[y * self.width + x]
    }

    /// Serializing a plane and reading the buffer back with the plane's
    /// width and height gives the plane's intensities, bit for bit.
    pub proof fn lemma_round_trip(&self)
        requires
            self.wf(),
        ensures
            parsed(self.width, self.height, encoded(self.data@)) == Ok::<Seq<u32>, BufferError>(
                self.data@,
            ),
    {
        lemma_decode_encode(self.data@);
    }

    /// Cuts the plane at `coordinate` along `axis` out of `volume`, at the
    /// given timepoint or at the first. The plane is a copy. A coordinate
    /// or a timepoint outside the volume is refused.
    pub fn extract(
        volume: &Volume,
        axis: AnatomicalAxis,
        coordinate: u16,
        timepoint: Option<u16>,
    ) -> (cut: Result<Nifti2DSlice, SliceError>)
        ensures
            match cut {
                Ok(slice) => {
                    &&& in_range(volume.dims(), axis, coordinate, timepoint)
                    &&& slice.wf()
                    &&& slice.width == axis.width(volume.dims())
                    &&& slice.height == axis.height(volume.dims())
                    &&& slice.data@ == plane_pixels(
                        *volume,
                        axis,
                        coordinate as int,
                        chosen_timepoint(timepoint),
                    )
                    &&& forall|x: int, y: int|
                        0 <= x < slice.width && 0 <= y < slice.height ==> #[trigger] slice.pixel(
                            x,
                            y,
                        ) == plane_voxel(
                            *volume,
                            axis,
                            coordinate as int,
                            chosen_timepoint(timepoint),
                            x,
                            y,
                        )
                },
                Err(e) => e == SliceError::OutOfRangeCoordinate && !in_range(
                    volume.dims(),
                    axis,
                    coordinate,
                    timepoint,
                ),
            },
    {
        let dims = volume.dimensions();
        let layout = axis.layout();
        let at: usize = coordinate as usize;
        let t: usize = match timepoint {
            Some(t) => t as usize,
            None => 0,
        };
        if at >= dims.length_of(layout.constant) || t >= dims.timepoints {
            return Err(SliceError::OutOfRangeCoordinate);
        }
        let width: usize = dims.length_of(layout.horizontal);
        let height: usize = dims.length_of(layout.vertical);
        let mut data: Vec<u32> = Vec::new();
        let mut y: usize = 0;
        while y < height
            invariant
                y <= height,
                dims == volume.dims(),
                layout == axis.plane(),
                layout.is_permutation(),
                at < dims.axis_length(layout.constant as int),
                t < dims.timepoints,
                width == dims.axis_length(layout.horizontal as int),
                height == dims.axis_length(layout.vertical as int),
                data@.len() == y * width,
                forall|n: int|
                    0 <= n < data@.len() ==> #[trigger] data@[n] == plane_voxel(
                        *volume,
                        axis,
                        at as int,
                        t as int,
                        n % (width as int),
                        n / (width as int),
                    ),
            decreases height - y,
        {
            let mut x: usize = 0;
            while x < width
                invariant
                    y < height,
                    x <= width,
                    dims == volume.dims(),
                    layout == axis.plane(),
                    layout.is_permutation(),
                    at < dims.axis_length(layout.constant as int),
                    t < dims.timepoints,
                    width == dims.axis_length(layout.horizontal as int),
                    height == dims.axis_length(layout.vertical as int),
                    data@.len() == y * width + x,
                    forall|n: int|
                        0 <= n < data@.len() ==> #[trigger] data@[n] == plane_voxel(
                            *volume,
                            axis,
                            at as int,
                            t as int,
                            n % (width as int),
                            n / (width as int),
                        ),
                decreases width - x,
            {
                let i = layout.pick(0, at, x, y);
                let j = layout.pick(1, at, x, y);
                let k = layout.pick(2, at, x, y);
                proof {
                    lemma_row_major(width as int, height as int, x as int, y as int);
                }
                data.push(volume.get(i, j, k, t));
                x = x + 1;
            }
            assert(y * width + width == (y + 1) * width) by (nonlinear_arith);
            y = y + 1;
        }
        assert(height * width == width * height) by (nonlinear_arith);
        assert(data@ =~= plane_pixels(
            *volume,
            axis,
            coordinate as int,
            chosen_timepoint(timepoint),
        ));
        let slice = Nifti2DSlice { width: width as u16, height: height as u16, data };
        assert forall|x: int, y: int| 0 <= x < slice.width && 0 <= y < slice.height implies (
        #[trigger] slice.pixel(x, y)) == plane_voxel(
            *volume,
            axis,
            coordinate as int,
            chosen_timepoint(timepoint),
            x,
            y,
        ) by {
            lemma_row_major(width as int, height as int, x, y);
        }
        Ok(slice)
    }

    /// This plane turned clockwise by `rotation`. A quarter turn swaps
    /// width and height.
    pub fn rotated(&self, rotation: Rotation) -> (turned: Nifti2DSlice)
        requires
            self.wf(),
        ensures
            turned.wf(),
            turned.width == turned_width(rotation, self.width as int, self.height as int),
            turned.height == turned_height(rotation, self.width as int, self.height as int),
            turned.data@ == turned_pixels(
                self.data@,
                self.width as int,
                self.height as int,
                rotation,
            ),
            forall|x: int, y: int|
                0 <= x < turned.width && 0 <= y < turned.height ==> #[trigger] turned.pixel(x, y)
                    == self.pixel(
                    rotation_source(rotation, self.width as int, self.height as int, x, y).0,
                    rotation_source(rotation, self.width as int, self.height as int, x, y).1,
                ),
    {
        let w: usize = self.width as usize;
        let h: usize = self.height as usize;
        let swap: bool = match rotation {
            Rotation::Rotate0 => false,
            Rotation::Rotate90 => true,
            Rotation::Rotate180 => false,
            Rotation::Rotate270 => true,
        };
        let width: usize = if swap { h } else { w };
        let height: usize = if swap { w } else { h };
        let total: usize = self.data.len();
        assert(w * h == h * w) by (nonlinear_arith);
        let mut data: Vec<u32> = Vec::new();
        let mut y: usize = 0;
        while y < height
            invariant
                y <= height,
                total == w * h,
                self.wf(),
                w == self.width,
                h == self.height,
                width == turned_width(rotation, w as int, h as int),
                height == turned_height(rotation, w as int, h as int),
                data@.len() == y * width,
                forall|n: int|
                    0 <= n < data@.len() ==> #[trigger] data@[n] == self.pixel(
                        rotation_source(
                            rotation,
                            w as int,
                            h as int,
                            n % (width as int),
                            n / (width as int),
                        ).0,
                        rotation_source(
                            rotation,
                            w as int,
                            h as int,
                            n % (width as int),
                            n / (width as int),
                        ).1,
                    ),
            decreases height - y,
        {
            let mut x: usize = 0;
            while x < width
                invariant
                    y < height,
                    x <= width,
                    total == w * h,
                    self.wf(),
                    w == self.width,
                    h == self.height,
                    width == turned_width(rotation, w as int, h as int),
                    height == turned_height(rotation, w as int, h as int),
                    data@.len() == y * width + x,
                    forall|n: int|
                        0 <= n < data@.len() ==> #[trigger] data@[n] == self.pixel(
                            rotation_source(
                                rotation,
                                w as int,
                                h as int,
                                n % (width as int),
                                n / (width as int),
                            ).0,
                            rotation_source(
                                rotation,
                                w as int,
                                h as int,
                                n % (width as int),
                                n / (width as int),
                            ).1,
                        ),
                decreases width - x,
            {
                let sx: usize = match rotation {
                    Rotation::Rotate0 => x,
                    Rotation::Rotate90 => y,
                    Rotation::Rotate180 => w - 1 - x,
                    Rotation::Rotate270 => w - 1 - y,
                };
                let sy: usize = match rotation {
                    Rotation::Rotate0 => y,
                    Rotation::Rotate90 => h - 1 - x,
                    Rotation::Rotate180 => h - 1 - y,
                    Rotation::Rotate270 => x,
                };
                proof {
                    lemma_row_major(width as int, height as int, x as int, y as int);
                    lemma_row_major(w as int, h as int, sx as int, sy as int);
                    assert(0 <= sy * w) by (nonlinear_arith)
                        requires
                            0 <= sy,
                            0 <= w,
                    ;
                }
                data.push(self.data[sy * w + sx]);
                x = x + 1;
            }
            assert(y * width + width == (y + 1) * width) by (nonlinear_arith);
            y = y + 1;
        }
        assert(height * width == width * height) by (nonlinear_arith);
        assert(data@ =~= turned_pixels(self.data@, w as int, h as int, rotation));
        let turned = Nifti2DSlice { width: width as u16, height: height as u16, data };
        assert forall|x: int, y: int| 0 <= x < turned.width && 0 <= y < turned.height implies (
        #[trigger] turned.pixel(x, y)) == self.pixel(
            rotation_source(rotation, self.width as int, self.height as int, x, y).0,
            rotation_source(rotation, self.width as int, self.height as int, x, y).1,
        ) by {
            lemma_row_major(width as int, height as int, x, y);
        }
        turned
    }

    /// The flat little-endian buffer of this plane: four bytes for each
    /// intensity, row by row.
    pub fn to_bytes(&self) -> (bytes: Vec<u8>)
        ensures
            bytes@ == encoded(self.data@),
            bytes@.len() == 4 * self.data@.len(),
            self.wf() ==> bytes@.len() == self.width * self.height * 4,
    {
        let mut bytes: Vec<u8> = Vec::new();
        let mut m: usize = 0;
        while m < self.data.len()
            invariant
                m <= self.data@.len(),
                bytes@.len() == 4 * m,
                forall|n: int| 0 <= n < 4 * m ==> #[trigger] bytes@[n] == le_byte(self.data@[n / 4], n % 4),
            decreases self.data@.len() - m,
        {
            let word: u32 = self.data[m];
            bytes.push((word & 0xFF) as u8);
            bytes.push(((word >> 8) & 0xFF) as u8);
            bytes.push(((word >> 16) & 0xFF) as u8);
            bytes.push(((word >> 24) & 0xFF) as u8);
            m = m + 1;
        }
        assert(bytes@ =~= encoded(self.data@));
        bytes
    }

    /// Reads a plane back from its width, its height and its buffer.
    pub fn from_bytes(width: u16, height: u16, bytes: &[u8]) -> (read: Result<
        Nifti2DSlice,
        BufferError,
    >)
        ensures
            match read {
                Ok(slice) => {
                    &&& parsed(width, height, bytes@) == Ok::<Seq<u32>, BufferError>(slice.data@)
                    &&& slice.width == width
                    &&& slice.height == height
                    &&& slice.wf()
                },
                Err(e) => parsed(width, height, bytes@) == Err::<Seq<u32>, BufferError>(e),
            },
    {
        let byte_len: usize = bytes.len();
        if byte_len % 4 != 0 {
            return Err(BufferError::Misaligned);
        }
        let count: usize = byte_len / 4;
        assert((width as u64) * (height as u64) <= 0xFFFF * 0xFFFF) by (nonlinear_arith)
            requires
                width <= 0xFFFF,
                height <= 0xFFFF,
        ;
        if count as u64 != (width as u64) * (height as u64) {
            return Err(BufferError::InvalidShape);
        }
        let mut data: Vec<u32> = Vec::new();
        let mut m: usize = 0;
        while m < count
            invariant
                m <= count,
                count == bytes@.len() / 4,
                bytes@.len() % 4 == 0,
                4 * count == byte_len,
                byte_len == bytes@.len(),
                data@.len() == m,
                forall|w: int| 0 <= w < m ==> #[trigger] data@[w] == decoded(bytes@)[w],
            decreases count - m,
        {
            let b0: u32 = bytes[4 * m] as u32;
            let b1: u32 = bytes[4 * m + 1] as u32;
            let b2: u32 = bytes[4 * m + 2] as u32;
            let b3: u32 = bytes[4 * m + 3] as u32;
            data.push(b0 | (b1 << 8) | (b2 << 16) | (b3 << 24));
            m = m + 1;
        }
        assert(data@ =~= decoded(bytes@));
        Ok(Nifti2DSlice { width, height, data })
    }
}

} // verus!
